//! The on-wire record sizes and format constants of the CPD container.

use lib::cpd::consts::{
    CPD_HDR_MARK, MAX_COMPONENT_ID, MAX_COMPONENT_VERSION, MAX_MANIFEST_SIZE, MAX_METADATA_SIZE,
    METADATA_EXTN_TYPE_IUNIT, METADATA_IMAGE_TYPE_MAIN_FIRMWARE, PKG_DIR_HDR_MARK, PKG_DIR_SIZE,
    SIZEOF_CPD_ENT, SIZEOF_CPD_HDR, SIZEOF_METADATA_CMPNT, SIZEOF_METADATA_EXTN,
    SIZEOF_MODULE_DATA_HDR,
};

#[test]
fn safe_consts_match_ffi_struct_sizes() {
    assert_eq!(SIZEOF_CPD_HDR, 16);
    assert_eq!(SIZEOF_CPD_ENT, 24);
    assert_eq!(SIZEOF_METADATA_EXTN, 28);
    assert_eq!(SIZEOF_METADATA_CMPNT, 68);
    assert_eq!(SIZEOF_MODULE_DATA_HDR, 44);
}

#[test]
fn constants_match_c_defines() {
    assert_eq!(CPD_HDR_MARK, 0x4450_4324);
    assert_eq!(PKG_DIR_HDR_MARK, 0x5f49_5550_4b44_525f);
    assert_eq!(PKG_DIR_SIZE, 256);
    assert_eq!(MAX_MANIFEST_SIZE, 8192);
    assert_eq!(MAX_METADATA_SIZE, 65536);
    assert_eq!(MAX_COMPONENT_ID, 127);
    assert_eq!(MAX_COMPONENT_VERSION, 0xffff);
    assert_eq!(METADATA_EXTN_TYPE_IUNIT, 0x10);
    assert_eq!(METADATA_IMAGE_TYPE_MAIN_FIRMWARE, 2);
}
