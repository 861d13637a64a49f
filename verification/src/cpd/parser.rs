//! The CPD parser core: structural validation of the `$CPD` header and entry
//! table, validation of the metadata and moduledata sections, and typed views
//! over a validated file.
//!
//! Each validation returns the first failing check, in the order the checks
//! are made; the `spec_*` functions below state that order.

use vstd::prelude::*;
use crate::cpd::bytes::{le32, slice, spec_slice};
use crate::cpd::consts::{
    CPD_HDR_MARK, CPD_MANIFEST_IDX, CPD_METADATA_IDX, CPD_MODULEDATA_IDX, MAX_COMPONENT_ID,
    MAX_MANIFEST_SIZE, MAX_METADATA_SIZE, METADATA_EXTN_TYPE_IUNIT,
    METADATA_IMAGE_TYPE_MAIN_FIRMWARE, SIZEOF_CPD_ENT, SIZEOF_CPD_HDR, SIZEOF_METADATA_CMPNT,
    SIZEOF_METADATA_EXTN, SIZEOF_MODULE_DATA_HDR,
};
use crate::cpd::error::{CpdError, Result};
use crate::cpd::view::{CpdEntry, CpdHeader, MetadataComponent, MetadataExtn, ModuleDataHeader};

verus! {

/// A little-endian field read through a sub-slice is the field at the shifted
/// offset of the whole buffer.
pub proof fn lemma_le32_subrange(s: Seq<u8>, a: int, b: int, off: int)
    requires
        0 <= a <= b <= s.len(),
        0 <= off,
        off + 4 <= b - a,
    ensures
        le32(s.subrange(a, b), off) == le32(s, a + off),
{
    assert(s.subrange(a, b).subrange(off, off + 4) =~= s.subrange(a + off, a + off + 4));
}

/// If `n` records of `d` bytes fit by division in `a` bytes, they fit by multiplication.
pub proof fn lemma_div_fits(a: int, d: int, n: int)
    requires
        0 <= a,
        0 < d,
        0 <= n <= a / d,
    ensures
        n * d <= a,
{
    assert(n * d <= (a / d) * d) by (nonlinear_arith)
        requires
            0 <= n <= a / d,
            0 < d,
    ;
    assert((a / d) * d <= a) by (nonlinear_arith)
        requires
            0 <= a,
            0 < d,
    ;
}

/// The `offset` field of entry `i` of the entry table of the CPD region `s`.
pub open spec fn entry_offset(s: Seq<u8>, i: int) -> u32 {
    le32(s, SIZEOF_CPD_HDR + SIZEOF_CPD_ENT * i + 12)
}

/// The `len` field of entry `i` of the entry table of the CPD region `s`.
pub open spec fn entry_len(s: Seq<u8>, i: int) -> u32 {
    le32(s, SIZEOF_CPD_HDR + SIZEOF_CPD_ENT * i + 16)
}

/// Entry `i` of `s` lies within a data region of `data_size` bytes.
pub open spec fn entry_in_range(s: Seq<u8>, i: int, data_size: u32) -> bool {
    !(data_size < entry_offset(s, i) || data_size - entry_offset(s, i) < entry_len(s, i))
}

/// `i` is the first entry of `s` (among `n`) that does not lie within the data region.
pub open spec fn is_first_bad_entry(s: Seq<u8>, n: int, data_size: u32, i: int) -> bool {
    &&& 0 <= i < n
    &&& !entry_in_range(s, i, data_size)
    &&& forall|j: int| 0 <= j < i ==> entry_in_range(s, j, data_size)
}

/// Number of whole entries that fit after the header of a region of `len` bytes.
pub open spec fn entry_capacity(len: nat) -> int {
    (len - SIZEOF_CPD_HDR) / (SIZEOF_CPD_ENT as int)
}

/// What [`validate_cpd`] returns for the region `s` and the data size `data_size`.
pub open spec fn spec_validate_cpd(s: Seq<u8>, data_size: u32) -> Result<u32> {
    if s.len() < SIZEOF_CPD_HDR {
        Err(CpdError::BufferTooSmall { need: SIZEOF_CPD_HDR, len: s.len() as usize })
    } else if entry_capacity(s.len()) < le32(s, 4) {
        Err(CpdError::BadEntryCount { ent_cnt: le32(s, 4), capacity: entry_capacity(s.len()) as u32 })
    } else if exists|i: int| 0 <= i < le32(s, 4) && !entry_in_range(s, i, data_size) {
        let i = choose|i: int| is_first_bad_entry(s, le32(s, 4) as int, data_size, i);
        Err(CpdError::EntryOutOfRange {
            index: i as usize,
            offset: entry_offset(s, i),
            len: entry_len(s, i),
            data_size,
        })
    } else {
        Ok(le32(s, 4))
    }
}

/// Structural validation of a CPD region.
///
/// `cpd` must hold the header followed by the entry table; each entry's
/// `offset`/`len` is range-checked against `data_size`. Returns the entry count.
pub fn validate_cpd(cpd: &[u8], data_size: u32) -> (r: Result<u32>)
    ensures
        r == spec_validate_cpd(cpd@, data_size),
{
    if cpd.len() < SIZEOF_CPD_HDR {
        return Err(CpdError::BufferTooSmall { need: SIZEOF_CPD_HDR, len: cpd.len() });
    }
    let hdr = CpdHeader::parse(cpd)?;
    let ent_cnt = hdr.ent_cnt();
    proof {
        lemma_le32_subrange(cpd@, 0, SIZEOF_CPD_HDR as int, 4);
    }
    let capacity = (cpd.len() - SIZEOF_CPD_HDR) / SIZEOF_CPD_ENT;
    if (capacity as u64) < ent_cnt as u64 {
        return Err(CpdError::BadEntryCount { ent_cnt, capacity: capacity as u32 });
    }
    let entries = slice(cpd, SIZEOF_CPD_HDR, ent_cnt as usize * SIZEOF_CPD_ENT)?;
    let n = ent_cnt as usize;
    let mut i: usize = 0;
    while i < n
        invariant
            n == ent_cnt,
            ent_cnt == le32(cpd@, 4),
            cpd@.len() >= SIZEOF_CPD_HDR,
            entry_capacity(cpd@.len()) >= ent_cnt,
            entries@ == cpd@.subrange(SIZEOF_CPD_HDR as int, SIZEOF_CPD_HDR + n * SIZEOF_CPD_ENT),
            entries@.len() == n * SIZEOF_CPD_ENT,
            n * SIZEOF_CPD_ENT <= usize::MAX,
            SIZEOF_CPD_HDR + n * SIZEOF_CPD_ENT <= cpd@.len(),
            i <= n,
            forall|j: int| 0 <= j < i ==> entry_in_range(cpd@, j, data_size),
        decreases n - i,
    {
        assert(i * SIZEOF_CPD_ENT + SIZEOF_CPD_ENT <= n * SIZEOF_CPD_ENT) by (nonlinear_arith)
            requires
                i < n,
        ;
        let ent = CpdEntry::parse_at(entries, i)?;
        let offset = ent.offset().get();
        let len = ent.len().get();
        proof {
            let a = SIZEOF_CPD_HDR as int;
            let b = a + n * SIZEOF_CPD_ENT;
            assert(ent@ == entries@.subrange(i * SIZEOF_CPD_ENT, i * SIZEOF_CPD_ENT + SIZEOF_CPD_ENT));
            lemma_le32_subrange(entries@, i * SIZEOF_CPD_ENT, i * SIZEOF_CPD_ENT + SIZEOF_CPD_ENT, 12);
            lemma_le32_subrange(entries@, i * SIZEOF_CPD_ENT, i * SIZEOF_CPD_ENT + SIZEOF_CPD_ENT, 16);
            lemma_le32_subrange(cpd@, a, b, i * SIZEOF_CPD_ENT + 12);
            lemma_le32_subrange(cpd@, a, b, i * SIZEOF_CPD_ENT + 16);
        }
        if data_size < offset || data_size - offset < len {
            proof {
                assert(is_first_bad_entry(cpd@, n as int, data_size, i as int));
                let k = choose|k: int| is_first_bad_entry(cpd@, n as int, data_size, k);
                assert(k == i) by {
                    if k < i {
                        assert(entry_in_range(cpd@, k, data_size));
                    } else if k > i {
                        assert(entry_in_range(cpd@, i as int, data_size));
                    }
                }
            }
            return Err(CpdError::EntryOutOfRange { index: i, offset, len, data_size });
        }
        i = i + 1;
    }
    Ok(ent_cnt)
}

/// What [`validate_metadata`] returns for the metadata section `s`.
pub open spec fn spec_validate_metadata(s: Seq<u8>) -> Result<()> {
    let size = s.len() as u32;
    if (size as usize) < SIZEOF_METADATA_EXTN || size > MAX_METADATA_SIZE {
        Err(CpdError::InvalidMetadataSize { size })
    } else if le32(s, 0) != METADATA_EXTN_TYPE_IUNIT || le32(s, 8) != METADATA_IMAGE_TYPE_MAIN_FIRMWARE {
        Err(CpdError::InvalidMetadataType { extn_type: le32(s, 0), img_type: le32(s, 8) })
    } else if (size - SIZEOF_METADATA_EXTN) % (SIZEOF_METADATA_CMPNT as int) != 0 {
        Err(CpdError::InvalidMetadataSize { size })
    } else {
        Ok(())
    }
}

/// A metadata section passes validation only when it is a 28-byte extension
/// header of the IUNIT type for the main firmware image followed by a whole
/// number of 68-byte components, at most 64 KiB in all; a section of a
/// valid size whose components do not come out whole is rejected. (Sizes
/// are 32-bit, as in the ABI.)
pub proof fn lemma_validated_metadata(s: Seq<u8>)
    requires
        s.len() <= u32::MAX,
    ensures
        spec_validate_metadata(s) is Ok ==> {
            &&& 28 <= s.len() <= 0x10000
            &&& (s.len() - 28) % 68 == 0
            &&& s.len() == 28 + 68 * Metadata::spec_component_count(s.len())
            &&& le32(s, 0) == 0x10
            &&& le32(s, 8) == 2
        },
        28 <= s.len() <= 0x10000 && (s.len() - 28) % 68 != 0 ==> spec_validate_metadata(s) is Err,
{
    if 28 <= s.len() <= 0x10000 {
        vstd::arithmetic::div_mod::lemma_fundamental_div_mod(s.len() - 28, 68);
        assert((s.len() as u32) as int == s.len());
    }
}

/// Validate a metadata section: its size, its extension/image type, and that
/// it holds a whole number of components.
pub fn validate_metadata(metadata: &[u8]) -> (r: Result<()>)
    ensures
        r == spec_validate_metadata(metadata@),
{
    let size = metadata.len() as u32;
    if (size as usize) < SIZEOF_METADATA_EXTN || size > MAX_METADATA_SIZE {
        return Err(CpdError::InvalidMetadataSize { size });
    }
    let extn = MetadataExtn::parse(metadata)?;
    proof {
        lemma_le32_subrange(metadata@, 0, SIZEOF_METADATA_EXTN as int, 0);
        lemma_le32_subrange(metadata@, 0, SIZEOF_METADATA_EXTN as int, 8);
    }
    if extn.extn_type() != METADATA_EXTN_TYPE_IUNIT
        || extn.img_type() != METADATA_IMAGE_TYPE_MAIN_FIRMWARE
    {
        return Err(CpdError::InvalidMetadataType {
            extn_type: extn.extn_type(),
            img_type: extn.img_type(),
        });
    }
    if (size as usize - SIZEOF_METADATA_EXTN) % SIZEOF_METADATA_CMPNT != 0 {
        return Err(CpdError::InvalidMetadataSize { size });
    }
    Ok(())
}

/// What [`validate_moduledata`] returns for the moduledata section `s`.
pub open spec fn spec_validate_moduledata(s: Seq<u8>, expected: u32) -> Result<()> {
    let size = s.len() as u32;
    let hdr_len = le32(s, 0);
    if (size as usize) < SIZEOF_MODULE_DATA_HDR {
        Err(CpdError::InvalidModuleDataSize { size, hdr_len: 0 })
    } else if size < hdr_len {
        Err(CpdError::InvalidModuleDataSize { size, hdr_len })
    } else if le32(s, 8) != expected {
        Err(CpdError::FwPkgReleaseMismatch { found: le32(s, 8), expected })
    } else {
        match spec_validate_cpd(s.subrange(hdr_len as int, size as int), size) {
            Ok(_) => Ok(()),
            Err(e) => Err(e),
        }
    }
}

/// Validate a moduledata section: its header against its size, its package
/// release against `expected_fw_pkg_release`, and the embedded CPD directory.
pub fn validate_moduledata(moduledata: &[u8], expected_fw_pkg_release: u32) -> (r: Result<()>)
    ensures
        r == spec_validate_moduledata(moduledata@, expected_fw_pkg_release),
{
    let size = moduledata.len() as u32;
    if (size as usize) < SIZEOF_MODULE_DATA_HDR {
        return Err(CpdError::InvalidModuleDataSize { size, hdr_len: 0 });
    }
    let mod_hdr = ModuleDataHeader::parse(moduledata)?;
    proof {
        lemma_le32_subrange(moduledata@, 0, SIZEOF_MODULE_DATA_HDR as int, 0);
        lemma_le32_subrange(moduledata@, 0, SIZEOF_MODULE_DATA_HDR as int, 8);
    }
    let hdr_len = mod_hdr.hdr_len();
    if size < hdr_len {
        return Err(CpdError::InvalidModuleDataSize { size, hdr_len });
    }
    if mod_hdr.fw_pkg_date() != expected_fw_pkg_release {
        return Err(CpdError::FwPkgReleaseMismatch {
            found: mod_hdr.fw_pkg_date(),
            expected: expected_fw_pkg_release,
        });
    }
    let inner = slice(moduledata, hdr_len as usize, (size - hdr_len) as usize)?;
    validate_cpd(inner, size)?;
    Ok(())
}

/// What [`CpdFile::entry`] returns for entry `index` of the file `s`: the
/// bytes of that entry, or [`CpdError::MissingEntry`] past the entry count.
pub open spec fn spec_entry(s: Seq<u8>, index: usize) -> Result<Seq<u8>> {
    if index >= le32(s, 4) {
        Err(CpdError::MissingEntry { index, ent_cnt: le32(s, 4) })
    } else {
        Ok(s.subrange(SIZEOF_CPD_HDR + SIZEOF_CPD_ENT * index, SIZEOF_CPD_HDR + SIZEOF_CPD_ENT * index + SIZEOF_CPD_ENT))
    }
}

/// What [`CpdFile::entry_data`] returns for an entry `ent` of the file `s`.
pub open spec fn spec_entry_data(s: Seq<u8>, ent: Seq<u8>) -> Result<Seq<u8>> {
    spec_slice(s, le32(ent, 12) as usize, le32(ent, 16) as usize)
}

/// In a file that passes structural validation, every declared entry is
/// present, and the bytes it references lie within the file.
pub proof fn lemma_valid_file_entries(s: Seq<u8>, i: usize)
    requires
        s.len() <= u32::MAX,
        spec_validate_cpd(s, s.len() as u32) is Ok,
        i < le32(s, 4),
    ensures
        spec_entry(s, i) is Ok,
        spec_entry_data(s, spec_entry(s, i)->Ok_0) is Ok,
{
    let n = le32(s, 4) as int;
    assert(entry_in_range(s, i as int, s.len() as u32));
    lemma_div_fits(s.len() - SIZEOF_CPD_HDR, SIZEOF_CPD_ENT as int, n);
    assert(i * SIZEOF_CPD_ENT + SIZEOF_CPD_ENT <= n * SIZEOF_CPD_ENT) by (nonlinear_arith)
        requires
            i < n,
    ;
    let a = SIZEOF_CPD_HDR + SIZEOF_CPD_ENT * i;
    let ent = spec_entry(s, i)->Ok_0;
    lemma_le32_subrange(s, a, a + SIZEOF_CPD_ENT, 12);
    lemma_le32_subrange(s, a, a + SIZEOF_CPD_ENT, 16);
    assert(le32(ent, 12) == entry_offset(s, i as int));
    assert(le32(ent, 16) == entry_len(s, i as int));
}

/// What [`CpdFile::validate`] returns for a structurally valid file `s`.
pub open spec fn spec_validate_file(s: Seq<u8>, expected: u32) -> Result<()> {
    if le32(s, 0) != CPD_HDR_MARK {
        Err(CpdError::BadHeaderMark { found: le32(s, 0), expected: CPD_HDR_MARK })
    } else {
        match spec_entry(s, CPD_MANIFEST_IDX) {
            Err(e) => Err(e),
            Ok(man) => if le32(man, 16) > MAX_MANIFEST_SIZE {
                Err(CpdError::ManifestTooLarge { len: le32(man, 16), max: MAX_MANIFEST_SIZE })
            } else {
                match spec_entry(s, CPD_METADATA_IDX) {
                    Err(e) => Err(e),
                    Ok(met) => match spec_entry_data(s, met) {
                        Err(e) => Err(e),
                        Ok(md) => match spec_validate_metadata(md) {
                            Err(e) => Err(e),
                            Ok(_) => match spec_entry(s, CPD_MODULEDATA_IDX) {
                                Err(e) => Err(e),
                                Ok(mdl) => match spec_entry_data(s, mdl) {
                                    Err(e) => Err(e),
                                    Ok(mo) => spec_validate_moduledata(mo, expected),
                                },
                            },
                        },
                    },
                }
            },
        }
    }
}

/// Where the bytes that entry `i` of the CPD file `s` references end: its
/// `offset` plus its `len` (fields at 12 and 16 of the 24-byte entry, the
/// entries following the 16-byte header).
pub open spec fn entry_end(s: Seq<u8>, i: int) -> int {
    le32(s, 16 + 24 * i + 12) + le32(s, 16 + 24 * i + 16)
}

/// The bytes that entry `i` of the CPD file `s` references.
pub open spec fn entry_bytes(s: Seq<u8>, i: int) -> Seq<u8> {
    s.subrange(le32(s, 16 + 24 * i + 12) as int, le32(s, 16 + 24 * i + 12) as int + le32(s, 16 + 24 * i + 16) as int)
}

/// A CPD file accepted by full validation carries the `$CPD` mark, declares
/// at least the manifest, metadata and moduledata entries, has its whole
/// entry table within the file and every entry's bytes within the file, a
/// manifest of at most `MAX_MANIFEST_SIZE` bytes, a metadata section that
/// passes metadata validation (so it holds a whole number of components),
/// and a moduledata section that passes moduledata validation against the
/// expected release.
pub proof fn lemma_validated_file(s: Seq<u8>, expected: u32)
    requires
        s.len() <= u32::MAX,
        spec_validate_cpd_file(s, expected) is Ok,
    ensures
        le32(s, 0) == 0x4450_4324,
        3 <= le32(s, 4),
        16 + 24 * le32(s, 4) <= s.len(),
        forall|i: int|
            0 <= i < le32(s, 4) ==> #[trigger] entry_end(s, i) <= s.len(),
        le32(s, 32) <= 0x2000,
        spec_validate_metadata(entry_bytes(s, 1)) is Ok,
        spec_validate_moduledata(entry_bytes(s, 2), expected) is Ok,
{
    let n = le32(s, 4) as int;
    lemma_div_fits(s.len() - SIZEOF_CPD_HDR, SIZEOF_CPD_ENT as int, n);
    assert forall|i: int| 0 <= i < n implies #[trigger] entry_end(s, i) <= s.len() by {
        assert(entry_in_range(s, i, s.len() as u32));
    }
    let a0 = SIZEOF_CPD_HDR + SIZEOF_CPD_ENT * 0;
    lemma_le32_subrange(s, a0, a0 + SIZEOF_CPD_ENT, 16);
    let a1 = SIZEOF_CPD_HDR + SIZEOF_CPD_ENT * 1;
    lemma_le32_subrange(s, a1, a1 + SIZEOF_CPD_ENT, 12);
    lemma_le32_subrange(s, a1, a1 + SIZEOF_CPD_ENT, 16);
    let a2 = SIZEOF_CPD_HDR + SIZEOF_CPD_ENT * 2;
    lemma_le32_subrange(s, a2, a2 + SIZEOF_CPD_ENT, 12);
    lemma_le32_subrange(s, a2, a2 + SIZEOF_CPD_ENT, 16);
}

/// What [`validate_cpd_file_with_release`] returns for the file `s`.
pub open spec fn spec_validate_cpd_file(s: Seq<u8>, expected: u32) -> Result<()> {
    match spec_validate_cpd(s, s.len() as u32) {
        Err(e) => Err(e),
        Ok(_) => spec_validate_file(s, expected),
    }
}

/// Full validation of a CPD file: structure, header mark, manifest size,
/// metadata section and moduledata section (against `expected_fw_pkg_release`).
pub fn validate_cpd_file_with_release(buf: &[u8], expected_fw_pkg_release: u32) -> (r: Result<()>)
    ensures
        r == spec_validate_cpd_file(buf@, expected_fw_pkg_release),
{
    CpdFile::parse(buf)?.validate(expected_fw_pkg_release)
}

/// A structurally validated CPD file (header and entry table checked).
#[derive(Debug, Clone, Copy)]
pub struct CpdFile<'a> {
    buf: &'a [u8],
    header: CpdHeader<'a>,
}

impl<'a> View for CpdFile<'a> {
    type V = Seq<u8>;

    closed spec fn view(&self) -> Seq<u8> {
        self.buf@
    }
}

impl<'a> CpdFile<'a> {
    #[verifier::type_invariant]
    spec fn inv(self) -> bool {
        &&& self.header@ == self.buf@.subrange(0, SIZEOF_CPD_HDR as int)
        &&& spec_validate_cpd(self.buf@, self.buf@.len() as u32) is Ok
    }

    /// The file `s` passes structural validation.
    pub open spec fn is_structurally_valid(s: Seq<u8>) -> bool {
        spec_validate_cpd(s, s.len() as u32) is Ok
    }

    /// Parse and structurally validate a CPD file.
    pub fn parse(buf: &'a [u8]) -> (r: Result<Self>)
        ensures
            r matches Ok(f) ==> f@ == buf@ && Self::is_structurally_valid(buf@),
            r matches Err(e) ==> spec_validate_cpd(buf@, buf@.len() as u32) == Err::<u32, CpdError>(e),
    {
        validate_cpd(buf, buf.len() as u32)?;
        let header = CpdHeader::parse(buf)?;
        Ok(CpdFile { buf, header })
    }

    /// The CPD header view.
    pub fn header(&self) -> (r: CpdHeader<'a>)
        ensures
            r@ == self@.subrange(0, SIZEOF_CPD_HDR as int),
    {
        proof { use_type_invariant(self); }
        self.header
    }

    /// Number of CPD entries declared in the header.
    pub fn entry_count(&self) -> (r: u32)
        ensures
            r == le32(self@, 4),
    {
        proof {
            use_type_invariant(self);
            lemma_le32_subrange(self.buf@, 0, SIZEOF_CPD_HDR as int, 4);
        }
        self.header.ent_cnt()
    }

    /// Borrow the entry at `index`, range-checked against the entry count.
    pub fn entry(&self, index: usize) -> (r: Result<CpdEntry<'a>>)
        ensures
            r matches Ok(e) ==> spec_entry(self@, index) == Ok::<Seq<u8>, CpdError>(e@),
            r matches Err(e) ==> spec_entry(self@, index) == Err::<Seq<u8>, CpdError>(e),
    {
        proof {
            use_type_invariant(self);
            lemma_le32_subrange(self.buf@, 0, SIZEOF_CPD_HDR as int, 4);
        }
        let ent_cnt = self.header.ent_cnt();
        let blen = self.buf.len();
        if index as u64 >= ent_cnt as u64 {
            return Err(CpdError::MissingEntry { index, ent_cnt });
        }
        proof {
            lemma_div_fits(blen - SIZEOF_CPD_HDR, SIZEOF_CPD_ENT as int, ent_cnt as int);
        }
        let entries = slice(self.buf, SIZEOF_CPD_HDR, ent_cnt as usize * SIZEOF_CPD_ENT)?;
        assert(index * SIZEOF_CPD_ENT + SIZEOF_CPD_ENT <= ent_cnt * SIZEOF_CPD_ENT) by (nonlinear_arith)
            requires
                index < ent_cnt,
        ;
        let r = CpdEntry::parse_at(entries, index);
        proof {
            if let Ok(e) = r {
                assert(e@ =~= self.buf@.subrange(
                    SIZEOF_CPD_HDR + SIZEOF_CPD_ENT * index,
                    SIZEOF_CPD_HDR + SIZEOF_CPD_ENT * index + SIZEOF_CPD_ENT,
                ));
            }
        }
        r
    }

    /// All CPD entries, in table order.
    pub fn entries(&self) -> (r: Vec<CpdEntry<'a>>)
        ensures
            r@.len() == le32(self@, 4),
            forall|i: int| 0 <= i < r@.len() ==> spec_entry(self@, i as usize) == Ok::<Seq<u8>, CpdError>(#[trigger] r@[i]@),
    {
        let n = self.entry_count();
        let mut out: Vec<CpdEntry<'a>> = Vec::new();
        let mut i: u32 = 0;
        while i < n
            invariant
                n == le32(self@, 4),
                i <= n,
                out@.len() == i,
                forall|j: int| 0 <= j < i ==> spec_entry(self@, j as usize) == Ok::<Seq<u8>, CpdError>(#[trigger] out@[j]@),
            decreases n - i,
        {
            match self.entry(i as usize) {
                Ok(e) => out.push(e),
                Err(_) => {
                    assert(false);
                },
            }
            i = i + 1;
        }
        out
    }

    /// The manifest entry (index 0).
    pub fn manifest(&self) -> (r: Result<CpdEntry<'a>>)
        ensures
            r matches Ok(e) ==> spec_entry(self@, CPD_MANIFEST_IDX) == Ok::<Seq<u8>, CpdError>(e@),
            r matches Err(e) ==> spec_entry(self@, CPD_MANIFEST_IDX) == Err::<Seq<u8>, CpdError>(e),
    {
        self.entry(CPD_MANIFEST_IDX)
    }

    /// The metadata entry (index 1).
    pub fn metadata(&self) -> (r: Result<CpdEntry<'a>>)
        ensures
            r matches Ok(e) ==> spec_entry(self@, CPD_METADATA_IDX) == Ok::<Seq<u8>, CpdError>(e@),
            r matches Err(e) ==> spec_entry(self@, CPD_METADATA_IDX) == Err::<Seq<u8>, CpdError>(e),
    {
        self.entry(CPD_METADATA_IDX)
    }

    /// The moduledata entry (index 2).
    pub fn moduledata(&self) -> (r: Result<CpdEntry<'a>>)
        ensures
            r matches Ok(e) ==> spec_entry(self@, CPD_MODULEDATA_IDX) == Ok::<Seq<u8>, CpdError>(e@),
            r matches Err(e) ==> spec_entry(self@, CPD_MODULEDATA_IDX) == Err::<Seq<u8>, CpdError>(e),
    {
        self.entry(CPD_MODULEDATA_IDX)
    }

    /// Borrow the bytes an entry references within the file.
    pub fn entry_data(&self, ent: &CpdEntry<'a>) -> (r: Result<&'a [u8]>)
        ensures
            r matches Ok(d) ==> spec_entry_data(self@, ent@) == Ok::<Seq<u8>, CpdError>(d@),
            r matches Err(e) ==> spec_entry_data(self@, ent@) == Err::<Seq<u8>, CpdError>(e),
    {
        slice(self.buf, ent.offset().as_usize(), ent.len().as_usize())
    }

    /// Full validation of the file against `expected_fw_pkg_release`.
    pub fn validate(&self, expected_fw_pkg_release: u32) -> (r: Result<()>)
        ensures
            r == spec_validate_file(self@, expected_fw_pkg_release),
    {
        proof {
            use_type_invariant(self);
            lemma_le32_subrange(self.buf@, 0, SIZEOF_CPD_HDR as int, 0);
        }
        if self.header.hdr_mark() != CPD_HDR_MARK {
            return Err(CpdError::BadHeaderMark {
                found: self.header.hdr_mark(),
                expected: CPD_HDR_MARK,
            });
        }
        let man = self.manifest()?;
        if man.len().get() > MAX_MANIFEST_SIZE {
            return Err(CpdError::ManifestTooLarge { len: man.len().get(), max: MAX_MANIFEST_SIZE });
        }
        let met = self.metadata()?;
        validate_metadata(self.entry_data(&met)?)?;
        let mdl = self.moduledata()?;
        validate_moduledata(self.entry_data(&mdl)?, expected_fw_pkg_release)?;
        Ok(())
    }

    /// What [`CpdFile::metadata_section`] returns: the bytes of the metadata section.
    pub open spec fn spec_metadata_section(s: Seq<u8>) -> Result<Seq<u8>> {
        match spec_entry(s, CPD_METADATA_IDX) {
            Err(e) => Err(e),
            Ok(met) => match spec_entry_data(s, met) {
                Err(e) => Err(e),
                Ok(md) => if md.len() < SIZEOF_METADATA_EXTN {
                    Err(CpdError::InvalidMetadataSize { size: md.len() as u32 })
                } else {
                    Ok(md)
                },
            },
        }
    }

    /// The metadata section as a [`Metadata`] view.
    pub fn metadata_section(&self) -> (r: Result<Metadata<'a>>)
        ensures
            r matches Ok(m) ==> Self::spec_metadata_section(self@) == Ok::<Seq<u8>, CpdError>(m@),
            r matches Err(e) ==> Self::spec_metadata_section(self@) == Err::<Seq<u8>, CpdError>(e),
    {
        let met = self.metadata()?;
        Metadata::parse(self.entry_data(&met)?)
    }

    /// The icache base offset of program group `idx` (from its metadata component).
    pub fn pg_icache_base(&self, idx: u32) -> (r: Result<u32>)
        ensures
            r == (match Self::spec_metadata_section(self@) {
                Err(e) => Err(e),
                Ok(md) => match Metadata::spec_component(md, idx) {
                    Err(e) => Err(e),
                    Ok(c) => Ok::<u32, CpdError>(le32(c, 48)),
                },
            }),
    {
        Ok(self.metadata_section()?.component(idx)?.icache_base_offs())
    }

    /// The entry point of program group `idx` (from its metadata component).
    pub fn pg_entry_point(&self, idx: u32) -> (r: Result<u32>)
        ensures
            r == (match Self::spec_metadata_section(self@) {
                Err(e) => Err(e),
                Ok(md) => match Metadata::spec_component(md, idx) {
                    Err(e) => Err(e),
                    Ok(c) => Ok::<u32, CpdError>(le32(c, 44)),
                },
            }),
    {
        Ok(self.metadata_section()?.component(idx)?.entry_point())
    }
}

/// A view over a metadata section: the extension header followed by the
/// component array.
#[derive(Debug, Clone, Copy)]
pub struct Metadata<'a> {
    buf: &'a [u8],
}

impl<'a> View for Metadata<'a> {
    type V = Seq<u8>;

    closed spec fn view(&self) -> Seq<u8> {
        self.buf@
    }
}

impl<'a> Metadata<'a> {
    #[verifier::type_invariant]
    spec fn inv(self) -> bool {
        self.buf@.len() >= SIZEOF_METADATA_EXTN
    }

    /// Number of whole components in a metadata section of `len` bytes.
    pub open spec fn spec_component_count(len: nat) -> int {
        (len - SIZEOF_METADATA_EXTN) / (SIZEOF_METADATA_CMPNT as int)
    }

    /// What [`Metadata::component`] returns for component `idx` of section `s`.
    pub open spec fn spec_component(s: Seq<u8>, idx: u32) -> Result<Seq<u8>> {
        let count = Self::spec_component_count(s.len());
        if idx > MAX_COMPONENT_ID || idx >= count {
            Err(CpdError::ComponentOutOfRange { idx, count: count as u32 })
        } else {
            Ok(s.subrange(
                SIZEOF_METADATA_EXTN + SIZEOF_METADATA_CMPNT * idx,
                SIZEOF_METADATA_EXTN + SIZEOF_METADATA_CMPNT * idx + SIZEOF_METADATA_CMPNT,
            ))
        }
    }

    /// Borrow a metadata section (it must hold at least the extension header).
    pub fn parse(buf: &'a [u8]) -> (r: Result<Self>)
        ensures
            r matches Ok(m) ==> m@ == buf@ && buf@.len() >= SIZEOF_METADATA_EXTN,
            r matches Err(e) ==> buf@.len() < SIZEOF_METADATA_EXTN
                && e == (CpdError::InvalidMetadataSize { size: buf@.len() as u32 }),
    {
        if buf.len() < SIZEOF_METADATA_EXTN {
            return Err(CpdError::InvalidMetadataSize { size: buf.len() as u32 });
        }
        Ok(Metadata { buf })
    }

    /// The extension header.
    pub fn extn(&self) -> (r: MetadataExtn<'a>)
        ensures
            r@ == self@.subrange(0, SIZEOF_METADATA_EXTN as int),
    {
        proof { use_type_invariant(self); }
        MetadataExtn::parse(self.buf).unwrap()
    }

    /// Number of metadata components.
    pub fn component_count(&self) -> (r: usize)
        ensures
            r == Self::spec_component_count(self@.len()),
    {
        proof { use_type_invariant(self); }
        (self.buf.len() - SIZEOF_METADATA_EXTN) / SIZEOF_METADATA_CMPNT
    }

    /// Borrow the component at `idx`, range-checked.
    pub fn component(&self, idx: u32) -> (r: Result<MetadataComponent<'a>>)
        ensures
            r matches Ok(c) ==> Self::spec_component(self@, idx) == Ok::<Seq<u8>, CpdError>(c@),
            r matches Err(e) ==> Self::spec_component(self@, idx) == Err::<Seq<u8>, CpdError>(e),
    {
        proof { use_type_invariant(self); }
        let count = self.component_count();
        if idx > MAX_COMPONENT_ID || idx as usize >= count {
            return Err(CpdError::ComponentOutOfRange { idx, count: count as u32 });
        }
        let blen = self.buf.len();
        proof {
            lemma_div_fits(blen - SIZEOF_METADATA_EXTN, SIZEOF_METADATA_CMPNT as int, count as int);
        }
        let table = slice(self.buf, SIZEOF_METADATA_EXTN, count * SIZEOF_METADATA_CMPNT)?;
        assert(idx * SIZEOF_METADATA_CMPNT + SIZEOF_METADATA_CMPNT <= count * SIZEOF_METADATA_CMPNT) by (nonlinear_arith)
            requires
                idx < count,
        ;
        let r = MetadataComponent::parse_at(table, idx as usize);
        proof {
            if let Ok(c) = r {
                assert(c@ =~= self.buf@.subrange(
                    SIZEOF_METADATA_EXTN + SIZEOF_METADATA_CMPNT * idx,
                    SIZEOF_METADATA_EXTN + SIZEOF_METADATA_CMPNT * idx + SIZEOF_METADATA_CMPNT,
                ));
            }
        }
        r
    }
}

} // verus!
