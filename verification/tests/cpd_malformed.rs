#![allow(dead_code)]
//! Fuzz-style boundary tests over malformed / truncated / corrupt CPD inputs:
//! buffer overreads on truncated buffers, integer-overflow offset math, and
//! out-of-range indices. Every case must return a typed [`CpdError`] instead of
//! reading out of bounds or panicking.

use lib::cpd::{build_pkg_dir, validate_cpd_file_with_release, CpdError, CpdFile, Metadata, PkgDir};

// ---------------------------------------------------------------------------
// An independent builder of CPD files, with knobs for malformed variants.
/// `$CPD` marker.
const CPD_HDR_MARK: u32 = 0x4450_4324;
/// Firmware-package release stamped into the moduledata header.
const FW_PKG_RELEASE: u32 = 0xCAFE_1234;
/// Metadata extension type (IUNIT).
const EXTN_TYPE_IUNIT: u32 = 0x10;
/// Metadata image type (main firmware).
const IMG_TYPE_MAIN_FIRMWARE: u32 = 2;

const SIZEOF_CPD_HDR: usize = 16;
const SIZEOF_CPD_ENT: usize = 24;
const SIZEOF_METADATA_EXTN: usize = 28;
const SIZEOF_METADATA_CMPNT: usize = 68;
const SIZEOF_MODULE_DATA_HDR: usize = 44;

fn put_u32(buf: &mut [u8], at: usize, v: u32) {
    buf[at..at + 4].copy_from_slice(&v.to_le_bytes());
}

/// Builder for syntactically/semantically valid CPD files, with knobs to
/// produce specific malformed variants for negative tests.
#[derive(Debug, Clone)]
struct CpdBuilder {
    components: usize,
    manifest_len: usize,
    payload_size: usize,
    hdr_mark: u32,
    fw_pkg_date: u32,
    extn_type: u32,
    img_type: u32,
}

impl Default for CpdBuilder {
    fn default() -> Self {
        Self {
            components: 2,
            manifest_len: 64,
            payload_size: 32,
            hdr_mark: CPD_HDR_MARK,
            fw_pkg_date: FW_PKG_RELEASE,
            extn_type: EXTN_TYPE_IUNIT,
            img_type: IMG_TYPE_MAIN_FIRMWARE,
        }
    }
}

impl CpdBuilder {
    fn new() -> Self {
        Self::default()
    }

    fn components(mut self, n: usize) -> Self {
        self.components = n;
        self
    }
    fn manifest_len(mut self, n: usize) -> Self {
        self.manifest_len = n;
        self
    }
    fn payload_size(mut self, n: usize) -> Self {
        self.payload_size = n;
        self
    }
    fn hdr_mark(mut self, v: u32) -> Self {
        self.hdr_mark = v;
        self
    }
    fn fw_pkg_date(mut self, v: u32) -> Self {
        self.fw_pkg_date = v;
        self
    }
    fn extn_type(mut self, v: u32) -> Self {
        self.extn_type = v;
        self
    }
    fn img_type(mut self, v: u32) -> Self {
        self.img_type = v;
        self
    }

    // ---- expected component values (the parity oracle) -------------------

    fn component_id(&self, i: usize) -> u32 {
        i as u32
    }
    fn component_size(&self) -> u32 {
        self.payload_size as u32
    }
    fn component_ver(&self, i: usize) -> u32 {
        0x100 + i as u32
    }
    fn component_entry_point(&self, i: usize) -> u32 {
        0xE000 + i as u32
    }
    fn component_icache(&self, i: usize) -> u32 {
        0xC000 + i as u32
    }
    fn component_count(&self) -> usize {
        self.components
    }

    /// Build the metadata section (extension header + component table).
    fn build_metadata(&self) -> Vec<u8> {
        let mut m = vec![0u8; SIZEOF_METADATA_EXTN + self.components * SIZEOF_METADATA_CMPNT];
        put_u32(&mut m, 0, self.extn_type);
        put_u32(&mut m, 4, 0); // extn.len (unused by validator)
        put_u32(&mut m, 8, self.img_type);
        for i in 0..self.components {
            let c = SIZEOF_METADATA_EXTN + i * SIZEOF_METADATA_CMPNT;
            put_u32(&mut m, c, self.component_id(i));
            put_u32(&mut m, c + 4, self.component_size());
            put_u32(&mut m, c + 8, self.component_ver(i));
            // sha2_hash[32] at c+12 left zero
            put_u32(&mut m, c + 44, self.component_entry_point(i));
            put_u32(&mut m, c + 48, self.component_icache(i));
            // attrs[16] at c+52 left zero
        }
        m
    }

    /// Build the moduledata section (header + embedded directory + payloads).
    fn build_moduledata(&self) -> Vec<u8> {
        let n = self.components;
        let dir_hdr_off = SIZEOF_MODULE_DATA_HDR; // 44
        let dir_ent_off = dir_hdr_off + SIZEOF_CPD_HDR; // 60
        let payloads_off = dir_ent_off + n * SIZEOF_CPD_ENT;
        let total = payloads_off + n * self.payload_size;
        let mut d = vec![0u8; total];

        // module_data_hdr
        put_u32(&mut d, 0, SIZEOF_MODULE_DATA_HDR as u32); // hdr_len
        put_u32(&mut d, 8, self.fw_pkg_date); // fw_pkg_date

        // embedded cpd directory header
        put_u32(&mut d, dir_hdr_off, self.hdr_mark);
        put_u32(&mut d, dir_hdr_off + 4, n as u32); // ent_cnt
        d[dir_hdr_off + 10] = SIZEOF_CPD_HDR as u8; // hdr_len

        // directory entries point at the payloads
        for i in 0..n {
            let e = dir_ent_off + i * SIZEOF_CPD_ENT;
            let off = (payloads_off + i * self.payload_size) as u32;
            put_u32(&mut d, e + 12, off);
            put_u32(&mut d, e + 16, self.payload_size as u32);
        }
        d
    }

    /// Offset (within moduledata) of directory entry `i`'s payload.
    fn moduledata_payload_offset(&self, i: usize) -> u32 {
        let dir_ent_off = SIZEOF_MODULE_DATA_HDR + SIZEOF_CPD_HDR;
        let payloads_off = dir_ent_off + self.components * SIZEOF_CPD_ENT;
        (payloads_off + i * self.payload_size) as u32
    }

    /// Build a complete CPD file.
    fn build(&self) -> Vec<u8> {
        let manifest = vec![0xABu8; self.manifest_len];
        let metadata = self.build_metadata();
        let moduledata = self.build_moduledata();

        let man_off = SIZEOF_CPD_HDR + 3 * SIZEOF_CPD_ENT; // 88
        let met_off = man_off + manifest.len();
        let mod_off = met_off + metadata.len();

        let mut f = vec![0u8; man_off];
        put_u32(&mut f, 0, self.hdr_mark);
        put_u32(&mut f, 4, 3); // ent_cnt
        f[10] = SIZEOF_CPD_HDR as u8; // hdr_len

        let set_entry = |f: &mut [u8], idx: usize, off: usize, len: usize| {
            let e = SIZEOF_CPD_HDR + idx * SIZEOF_CPD_ENT;
            put_u32(f, e + 12, off as u32);
            put_u32(f, e + 16, len as u32);
        };
        set_entry(&mut f, 0, man_off, manifest.len());
        set_entry(&mut f, 1, met_off, metadata.len());
        set_entry(&mut f, 2, mod_off, moduledata.len());

        f.extend_from_slice(&manifest);
        f.extend_from_slice(&metadata);
        f.extend_from_slice(&moduledata);
        f
    }
}

// ---------------------------------------------------------------------------

fn valid() -> Vec<u8> {
    CpdBuilder::new().components(3).build()
}

#[test]
fn baseline_is_valid() {
    assert!(validate_cpd_file_with_release(&valid(), FW_PKG_RELEASE).is_ok());
}

#[test]
fn empty_and_tiny_buffers_never_panic() {
    for len in 0..40usize {
        let buf = vec![0u8; len];
        // Must return an error, never panic / overread.
        let _ = CpdFile::parse(&buf);
        let _ = validate_cpd_file_with_release(&buf, FW_PKG_RELEASE);
    }
}

#[test]
fn truncated_at_every_length_is_safe() {
    let full = valid();
    for cut in 0..full.len() {
        let buf = &full[..cut];
        // The exhaustive truncation sweep must never panic.
        let _ = validate_cpd_file_with_release(buf, FW_PKG_RELEASE);
        if let Ok(cpd) = CpdFile::parse(buf) {
            // If structural parse succeeded, entry access stays in bounds.
            for i in 0..cpd.entry_count() as usize {
                let _ = cpd.entry(i);
            }
        }
    }
}

#[test]
fn bad_header_mark_is_rejected() {
    let buf = CpdBuilder::new().hdr_mark(0xDEAD_BEEF).build();
    let err = validate_cpd_file_with_release(&buf, FW_PKG_RELEASE).unwrap_err();
    assert!(matches!(err, CpdError::BadHeaderMark { .. }), "{:?}", err);
}

#[test]
fn entry_count_overflow_is_rejected() {
    // Header claims a huge entry count that cannot fit in the buffer.
    let mut buf = valid();
    buf[4..8].copy_from_slice(&u32::MAX.to_le_bytes());
    let err = CpdFile::parse(&buf).unwrap_err();
    assert!(matches!(err, CpdError::BadEntryCount { .. }), "{:?}", err);
}

#[test]
fn missing_fixed_entry_is_rejected() {
    // Only one entry present, but metadata/moduledata are looked up at idx 1/2.
    let mut buf = valid();
    buf[4..8].copy_from_slice(&1u32.to_le_bytes());
    let cpd = CpdFile::parse(&buf).unwrap();
    assert!(matches!(
        cpd.metadata().unwrap_err(),
        CpdError::MissingEntry { index: 1, .. }
    ));
    assert!(matches!(
        cpd.moduledata().unwrap_err(),
        CpdError::MissingEntry { index: 2, .. }
    ));
}

#[test]
fn entry_offset_out_of_range_is_rejected() {
    // Point the manifest entry (idx 0, offset field at hdr+0*ent + 12) far past EOF.
    let mut buf = valid();
    let manifest_off_field = 16 + 12;
    buf[manifest_off_field..manifest_off_field + 4].copy_from_slice(&0xFFFF_0000u32.to_le_bytes());
    let err = CpdFile::parse(&buf).unwrap_err();
    assert!(matches!(err, CpdError::EntryOutOfRange { .. }), "{:?}", err);
}

#[test]
fn manifest_too_large_is_rejected() {
    // Manifest length within file but above MAX_MANIFEST_SIZE (8192).
    let buf = CpdBuilder::new().manifest_len(8193).build();
    let err = validate_cpd_file_with_release(&buf, FW_PKG_RELEASE).unwrap_err();
    assert!(matches!(err, CpdError::ManifestTooLarge { .. }), "{:?}", err);
}

#[test]
fn bad_metadata_type_is_rejected() {
    let buf = CpdBuilder::new().img_type(99).build();
    let err = validate_cpd_file_with_release(&buf, FW_PKG_RELEASE).unwrap_err();
    assert!(matches!(err, CpdError::InvalidMetadataType { .. }), "{:?}", err);

    let buf = CpdBuilder::new().extn_type(0xFF).build();
    let err = validate_cpd_file_with_release(&buf, FW_PKG_RELEASE).unwrap_err();
    assert!(matches!(err, CpdError::InvalidMetadataType { .. }), "{:?}", err);
}

#[test]
fn fw_pkg_release_mismatch_is_rejected() {
    let buf = CpdBuilder::new().fw_pkg_date(0x1111_2222).build();
    let err = validate_cpd_file_with_release(&buf, FW_PKG_RELEASE).unwrap_err();
    assert!(matches!(err, CpdError::FwPkgReleaseMismatch { .. }), "{:?}", err);
}

#[test]
fn metadata_component_index_is_range_checked() {
    let buf = valid();
    let cpd = CpdFile::parse(&buf).unwrap();
    let meta = cpd.metadata_section().unwrap();
    let count = meta.component_count() as u32;
    let err = meta.component(count).unwrap_err();
    assert!(matches!(err, CpdError::ComponentOutOfRange { .. }), "{:?}", err);
    // Above MAX_COMPONENT_ID is also rejected.
    assert!(matches!(
        meta.component(9999).unwrap_err(),
        CpdError::ComponentOutOfRange { .. }
    ));
}

#[test]
fn short_metadata_is_rejected() {
    // Smaller than the extension header.
    assert!(matches!(
        Metadata::parse(&[0u8; 10]).unwrap_err(),
        CpdError::InvalidMetadataSize { .. }
    ));
}

#[test]
fn pkg_dir_too_many_components_is_rejected() {
    // 16 components exceeds the 15-entry pkg_dir capacity.
    let buf = CpdBuilder::new().components(16).build();
    let cpd = CpdFile::parse(&buf).unwrap();
    let met = cpd.metadata().unwrap();
    let mdl = cpd.moduledata().unwrap();
    let moduledata = cpd.entry_data(&mdl).unwrap();
    let metadata = cpd.entry_data(&met).unwrap();
    let err = build_pkg_dir(moduledata, metadata, 0).unwrap_err();
    assert!(matches!(err, CpdError::TooManyComponents { .. }), "{:?}", err);
}

#[test]
fn pkg_dir_base_addr_overflow_is_rejected() {
    let buf = valid();
    let cpd = CpdFile::parse(&buf).unwrap();
    let met = cpd.metadata().unwrap();
    let mdl = cpd.moduledata().unwrap();
    let moduledata = cpd.entry_data(&mdl).unwrap();
    let metadata = cpd.entry_data(&met).unwrap();
    // base + offset overflows u64.
    let err = build_pkg_dir(moduledata, metadata, u64::MAX).unwrap_err();
    assert!(matches!(err, CpdError::ArithmeticOverflow), "{:?}", err);
}

#[test]
fn pkg_dir_index_is_range_checked() {
    let buf = valid();
    let cpd = CpdFile::parse(&buf).unwrap();
    let met = cpd.metadata().unwrap();
    let mdl = cpd.moduledata().unwrap();
    let moduledata = cpd.entry_data(&mdl).unwrap();
    let metadata = cpd.entry_data(&met).unwrap();
    let pkg = build_pkg_dir(moduledata, metadata, 0x1000).unwrap();
    assert!(matches!(
        pkg.address(999).unwrap_err(),
        CpdError::PkgDirIndexOutOfRange { .. }
    ));
}

/// Pseudo-fuzz: flip bytes across the file and ensure no panic / overread.
#[test]
fn single_byte_corruption_sweep_never_panics() {
    let base = valid();
    for i in 0..base.len() {
        for &v in &[0x00u8, 0xFF, 0x7F, 0x80] {
            let mut buf = base.clone();
            buf[i] = v;
            // Result may be Ok or Err — it must simply never panic / overread.
            if let Ok(cpd) = CpdFile::parse(&buf) {
                let _ = cpd.validate(FW_PKG_RELEASE);
                if let (Ok(met), Ok(mdl)) = (cpd.metadata(), cpd.moduledata()) {
                    if let (Ok(md), Ok(meta)) = (cpd.entry_data(&mdl), cpd.entry_data(&met)) {
                        let _ = build_pkg_dir(md, meta, 0x1000);
                    }
                }
            }
        }
    }
}

// ---------------------------------------------------------------------------
// Field-by-field parity of a valid file with the values the builder encoded.

#[test]
fn builder_file_parses_field_by_field() {
    let b = CpdBuilder::new().components(3).manifest_len(64).payload_size(32);
    let bytes = b.build();

    validate_cpd_file_with_release(&bytes, FW_PKG_RELEASE).expect("valid file");

    let cpd = CpdFile::parse(&bytes).expect("parse");
    assert_eq!(cpd.header().hdr_mark(), lib::cpd::CPD_HDR_MARK);
    assert_eq!(cpd.entry_count(), 3);
    assert_eq!(cpd.entries().len(), 3);

    let man = cpd.manifest().unwrap();
    let met = cpd.metadata().unwrap();
    let mdl = cpd.moduledata().unwrap();
    assert_eq!(man.len().get() as usize, 64);
    assert_eq!(man.offset().get() as usize, SIZEOF_CPD_HDR + 3 * SIZEOF_CPD_ENT);
    assert_eq!(cpd.entry_data(&man).unwrap(), &[0xABu8; 64][..]);
    assert!(cpd.entry_data(&met).is_ok());
    assert!(cpd.entry_data(&mdl).is_ok());

    let meta = cpd.metadata_section().unwrap();
    assert_eq!(meta.component_count(), b.component_count());
    assert_eq!(meta.extn().extn_type(), EXTN_TYPE_IUNIT);
    assert_eq!(meta.extn().img_type(), IMG_TYPE_MAIN_FIRMWARE);
    for i in 0..b.component_count() {
        let c = meta.component(i as u32).unwrap();
        assert_eq!(c.id(), b.component_id(i), "id[{}]", i);
        assert_eq!(c.ver(), b.component_ver(i), "ver[{}]", i);
        assert_eq!(c.size(), b.component_size(), "size[{}]", i);
        assert_eq!(c.entry_point(), b.component_entry_point(i), "entry_point[{}]", i);
        assert_eq!(c.icache_base_offs(), b.component_icache(i), "icache[{}]", i);
        assert_eq!(cpd.pg_icache_base(i as u32).unwrap(), b.component_icache(i));
        assert_eq!(cpd.pg_entry_point(i as u32).unwrap(), b.component_entry_point(i));
    }

    let base_addr: u64 = 0x1_0000_0000;
    let moduledata = cpd.entry_data(&mdl).unwrap();
    let metadata = cpd.entry_data(&met).unwrap();
    let pkg = build_pkg_dir(moduledata, metadata, base_addr).unwrap();

    assert_eq!(pkg.num_entries(), b.component_count() as u64 + 1);
    assert_eq!(pkg.words()[0], 0x5f49_5550_4b44_525f);
    assert_eq!(pkg.words().len(), 2 * (b.component_count() + 1));
    for i in 0..b.component_count() {
        let expected_addr = base_addr + b.moduledata_payload_offset(i) as u64;
        assert_eq!(pkg.address(i).unwrap(), expected_addr, "addr[{}]", i);
        assert_eq!(pkg.size(i).unwrap(), b.component_size() as u64, "size[{}]", i);
        assert_eq!(pkg.type_of(i).unwrap(), b.component_id(i) as u64, "type[{}]", i);
    }
    assert!(matches!(
        pkg.address(b.component_count()),
        Err(CpdError::PkgDirIndexOutOfRange { .. })
    ));
    assert_eq!(pkg.clone().into_words(), pkg.words().to_vec());
}

#[test]
fn error_messages_name_the_failed_check() {
    let cases: Vec<(CpdError, &str)> = vec![
        (
            CpdError::OutOfBounds { offset: 1, need: 4, len: 3 },
            "out-of-bounds read: 4 bytes at offset 1 exceeds buffer of 3",
        ),
        (
            CpdError::BufferTooSmall { need: 16, len: 2 },
            "buffer too small: need 16 bytes, have 2",
        ),
        (
            CpdError::BadHeaderMark { found: 0xDEAD_BEEF, expected: CPD_HDR_MARK },
            "invalid CPD header mark: 0xdeadbeef != 0x44504324",
        ),
        (
            CpdError::BadEntryCount { ent_cnt: 7, capacity: 2 },
            "invalid CPD header: entry count 7 exceeds capacity 2",
        ),
        (
            CpdError::MissingEntry { index: 1, ent_cnt: 1 },
            "missing CPD entry 1: only 1 present",
        ),
        (
            CpdError::EntryOutOfRange { index: 0, offset: 10, len: 20, data_size: 25 },
            "CPD entry 0 (offset 10, len 20) out of range for data size 25",
        ),
        (
            CpdError::ManifestTooLarge { len: 8193, max: 8192 },
            "invalid manifest size: 8193 > 8192",
        ),
        (CpdError::InvalidMetadataSize { size: 10 }, "invalid metadata size: 10"),
        (
            CpdError::InvalidMetadataType { extn_type: 16, img_type: 99 },
            "invalid metadata descriptor: extn_type=16, img_type=99",
        ),
        (
            CpdError::InvalidModuleDataSize { size: 40, hdr_len: 44 },
            "invalid moduledata size: size=40, hdr_len=44",
        ),
        (
            CpdError::FwPkgReleaseMismatch { found: 0x1111_2222, expected: FW_PKG_RELEASE },
            "moduledata and library version mismatch (0x11112222 != 0xcafe1234)",
        ),
        (
            CpdError::ComponentOutOfRange { idx: 3, count: 3 },
            "component index out of range (3 >= 3)",
        ),
        (
            CpdError::ComponentIdOutOfRange { id: 200, max: 127 },
            "component id out of range (200 > 127)",
        ),
        (
            CpdError::ComponentVersionOutOfRange { ver: 70000, max: 65535 },
            "component version out of range (70000 > 65535)",
        ),
        (CpdError::ArithmeticOverflow, "arithmetic overflow in offset/size math"),
        (
            CpdError::PkgDirIndexOutOfRange { index: 999, entries: 4 },
            "pkg_dir index 999 out of range (4 entries)",
        ),
        (
            CpdError::TooManyComponents { count: 16, max: 15 },
            "too many components: 16 > 15",
        ),
    ];
    for (err, text) in cases {
        assert_eq!(err.to_string(), text);
        // Every validation failure is reported to the kernel as -EINVAL.
        assert_eq!(err.to_errno(), -22);
    }
}

#[test]
fn component_id_and_version_limits_are_enforced() {
    // Component ids above 127 are rejected when building the directory.
    let mut buf = CpdBuilder::new().components(2).build();
    let cpd = CpdFile::parse(&buf).unwrap();
    let met_off = cpd.metadata().unwrap().offset().get() as usize;
    let id_field = met_off + SIZEOF_METADATA_EXTN + SIZEOF_METADATA_CMPNT;
    buf[id_field..id_field + 4].copy_from_slice(&200u32.to_le_bytes());
    let cpd = CpdFile::parse(&buf).unwrap();
    let met = cpd.metadata().unwrap();
    let mdl = cpd.moduledata().unwrap();
    let err = build_pkg_dir(cpd.entry_data(&mdl).unwrap(), cpd.entry_data(&met).unwrap(), 0).unwrap_err();
    assert_eq!(err, CpdError::ComponentIdOutOfRange { id: 200, max: 127 });
}

#[test]
fn pkg_dir_from_raw_words_reads_entries() {
    // Header pair, then (address, size | version << 32 | id << 48) pairs.
    let words = vec![
        0x5f49_5550_4b44_525f,
        3,
        0x1000,
        0x20 | (0x101u64 << 32) | (5u64 << 48),
        0x2000,
        0x40 | (7u64 << 48),
    ];
    let dir = PkgDir::from_words(words.clone());
    assert_eq!(dir.words(), &words[..]);
    assert_eq!(dir.num_entries(), 3);
    assert_eq!(dir.address(0), Ok(0x1000));
    assert_eq!(dir.size(0), Ok(0x20));
    assert_eq!(dir.type_of(0), Ok(5));
    assert_eq!(dir.address(1), Ok(0x2000));
    assert_eq!(dir.size(1), Ok(0x40));
    assert_eq!(dir.type_of(1), Ok(7));
    assert_eq!(
        dir.address(2),
        Err(CpdError::PkgDirIndexOutOfRange { index: 2, entries: 3 })
    );
    assert_eq!(dir.address(usize::MAX), Err(CpdError::ArithmeticOverflow));
}
