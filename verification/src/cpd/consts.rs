//! Constants of the CPD firmware-package format.

use vstd::prelude::*;

verus! {

/// `$CPD` — CPD file header marker.
pub const CPD_HDR_MARK: u32 = 0x4450_4324;

/// `_IUPKDR_` — package-directory header marker.
pub const PKG_DIR_HDR_MARK: u64 = 0x5f49_5550_4b44_525f;

/// 15 entries plus the header.
pub const MAX_PKG_DIR_ENT_CNT: usize = 16;

/// Two qwords per package-directory entry or header.
pub const PKG_DIR_ENT_LEN: usize = 2;

/// Package-directory size in bytes.
pub const PKG_DIR_SIZE: usize = MAX_PKG_DIR_ENT_CNT * PKG_DIR_ENT_LEN * 8;

pub const PKG_DIR_ID_SHIFT: u32 = 48;
pub const PKG_DIR_ID_MASK: u64 = 0x7f;
pub const PKG_DIR_VERSION_SHIFT: u32 = 32;
pub const PKG_DIR_SIZE_MASK: u64 = 0xf_ffff;

/// Maximum manifest size: 2K DWORDs.
pub const MAX_MANIFEST_SIZE: u32 = 2 * 1024 * 4;

/// Maximum metadata size: 64K.
pub const MAX_METADATA_SIZE: u32 = 64 * 1024;

pub const MAX_COMPONENT_ID: u32 = 127;
pub const MAX_COMPONENT_VERSION: u32 = 0xffff;

/// Fixed CPD entry indices.
pub const CPD_MANIFEST_IDX: usize = 0;
pub const CPD_METADATA_IDX: usize = 1;
pub const CPD_MODULEDATA_IDX: usize = 2;

pub const METADATA_EXTN_TYPE_IUNIT: u32 = 0x10;
pub const METADATA_IMAGE_TYPE_MAIN_FIRMWARE: u32 = 2;

/// On-wire structure sizes in bytes (the `sizeof` of the packed ABI structs).
pub const SIZEOF_CPD_HDR: usize = 16;
pub const SIZEOF_CPD_ENT: usize = 24;
pub const SIZEOF_METADATA_EXTN: usize = 28;
pub const SIZEOF_METADATA_CMPNT: usize = 68;
pub const SIZEOF_MODULE_DATA_HDR: usize = 44;

/// Length of the name field of a CPD entry.
pub const INTEL_NAME_LEN: usize = 12;

} // verus!
