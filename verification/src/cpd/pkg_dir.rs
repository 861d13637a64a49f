//! Package-directory (pkg_dir) construction and accessors.
//!
//! The package directory is a sequence of 64-bit words, two per entry: a
//! header pair (marker, entry count) followed by one pair per firmware
//! component (device address, packed size/version/type).

use vstd::prelude::*;
use crate::cpd::bytes::{le32, slice, spec_slice};
use crate::cpd::consts::{
    MAX_COMPONENT_ID, MAX_COMPONENT_VERSION, MAX_PKG_DIR_ENT_CNT, PKG_DIR_ENT_LEN,
    PKG_DIR_HDR_MARK, PKG_DIR_ID_MASK, PKG_DIR_ID_SHIFT, PKG_DIR_SIZE_MASK, PKG_DIR_VERSION_SHIFT,
    SIZEOF_CPD_ENT, SIZEOF_CPD_HDR, SIZEOF_METADATA_EXTN, SIZEOF_MODULE_DATA_HDR,
};
use crate::cpd::error::{CpdError, Result};
use crate::cpd::parser::{lemma_div_fits, lemma_le32_subrange, Metadata};
use crate::cpd::view::{CpdEntry, CpdHeader, ModuleDataHeader};

verus! {

/// An assembled package directory, laid out exactly like the kernel `pkg_dir`.
#[derive(Debug, Clone, PartialEq, Eq)]
pub struct PkgDir {
    words: Vec<u64>,
}

impl View for PkgDir {
    type V = Seq<u64>;

    closed spec fn view(&self) -> Seq<u64> {
        self.words@
    }
}

/// What [`PkgDir::address`] and friends compute as the word index of the pair
/// of component `idx`, for a directory of `len` words.
pub open spec fn spec_entry_word_index(len: nat, idx: usize) -> Result<usize> {
    if (idx + 1) * PKG_DIR_ENT_LEN > usize::MAX {
        Err(CpdError::ArithmeticOverflow)
    } else if (idx + 1) * PKG_DIR_ENT_LEN + 1 >= len {
        Err(CpdError::PkgDirIndexOutOfRange { index: idx, entries: (len / PKG_DIR_ENT_LEN as nat) as usize })
    } else {
        Ok(((idx + 1) * PKG_DIR_ENT_LEN) as usize)
    }
}

impl PkgDir {
    /// A directory holds at least its header pair.
    pub closed spec fn wf(&self) -> bool {
        self.words@.len() >= PKG_DIR_ENT_LEN
    }

    /// A directory over the words `words`, as handed back by the firmware
    /// loader.
    pub fn from_words(words: Vec<u64>) -> (r: PkgDir)
        ensures
            r@ == words@,
            r.wf() == (words@.len() >= PKG_DIR_ENT_LEN),
    {
        PkgDir { words }
    }

    /// The raw 64-bit words backing this directory.
    pub fn words(&self) -> (r: &[u64])
        ensures
            r@ == self@,
    {
        self.words.as_slice()
    }

    /// Consume the directory and return its words.
    pub fn into_words(self) -> (r: Vec<u64>)
        ensures
            r@ == self@,
    {
        self.words
    }

    /// Number of entries recorded in the header (`pkg_dir[1]`).
    pub fn num_entries(&self) -> (r: u64)
        requires
            self.wf(),
        ensures
            r == self@[1],
    {
        self.words[1]
    }

    fn entry_word_index(&self, pkg_dir_idx: usize) -> (r: Result<usize>)
        ensures
            r == spec_entry_word_index(self@.len(), pkg_dir_idx),
    {
        let base = match pkg_dir_idx.checked_add(1) {
            Some(v) => match v.checked_mul(PKG_DIR_ENT_LEN) {
                Some(b) => b,
                None => return Err(CpdError::ArithmeticOverflow),
            },
            None => return Err(CpdError::ArithmeticOverflow),
        };
        if base + 1 >= self.words.len() {
            return Err(CpdError::PkgDirIndexOutOfRange {
                index: pkg_dir_idx,
                entries: self.words.len() / PKG_DIR_ENT_LEN,
            });
        }
        Ok(base)
    }

    /// The device address of component `pkg_dir_idx`.
    pub fn address(&self, pkg_dir_idx: usize) -> (r: Result<u64>)
        ensures
            r == (match spec_entry_word_index(self@.len(), pkg_dir_idx) {
                Ok(b) => Ok::<u64, CpdError>(self@[b as int]),
                Err(e) => Err(e),
            }),
    {
        let base = self.entry_word_index(pkg_dir_idx)?;
        Ok(self.words[base])
    }

    /// The size field (`& PKG_DIR_SIZE_MASK`) of component `pkg_dir_idx`.
    pub fn size(&self, pkg_dir_idx: usize) -> (r: Result<u64>)
        ensures
            r == (match spec_entry_word_index(self@.len(), pkg_dir_idx) {
                Ok(b) => Ok::<u64, CpdError>(self@[b + 1] & PKG_DIR_SIZE_MASK),
                Err(e) => Err(e),
            }),
    {
        let base = self.entry_word_index(pkg_dir_idx)?;
        Ok(self.words[base + 1] & PKG_DIR_SIZE_MASK)
    }

    /// The type (component id) field of component `pkg_dir_idx`.
    pub fn type_of(&self, pkg_dir_idx: usize) -> (r: Result<u64>)
        ensures
            r == (match spec_entry_word_index(self@.len(), pkg_dir_idx) {
                Ok(b) => Ok::<u64, CpdError>((self@[b + 1] >> PKG_DIR_ID_SHIFT) & PKG_DIR_ID_MASK),
                Err(e) => Err(e),
            }),
    {
        let base = self.entry_word_index(pkg_dir_idx)?;
        Ok((self.words[base + 1] >> PKG_DIR_ID_SHIFT) & PKG_DIR_ID_MASK)
    }
}

/// The embedded directory region that follows the moduledata header.
pub open spec fn spec_dir_region(m: Seq<u8>) -> Result<Seq<u8>> {
    match spec_slice(m, 0, SIZEOF_MODULE_DATA_HDR) {
        Err(e) => Err(e),
        Ok(_) => {
            let hdr_len = le32(m, 0) as usize;
            let dir_len: usize = if m.len() >= hdr_len { (m.len() - hdr_len) as usize } else { 0 };
            spec_slice(m, hdr_len, dir_len)
        },
    }
}

/// The entry table of the embedded directory (whose header is already known to fit).
pub open spec fn spec_dir_entries(dir: Seq<u8>) -> Result<Seq<u8>> {
    spec_slice(dir, SIZEOF_CPD_HDR, (le32(dir, 4) * SIZEOF_CPD_ENT) as usize)
}

/// `id` field of metadata component `i`.
pub open spec fn component_id_at(md: Seq<u8>, i: int) -> u32 {
    le32(md, SIZEOF_METADATA_EXTN + 68 * i)
}

/// `ver` field of metadata component `i`.
pub open spec fn component_ver_at(md: Seq<u8>, i: int) -> u32 {
    le32(md, SIZEOF_METADATA_EXTN + 68 * i + 8)
}

/// The first failing component is unique.
pub proof fn lemma_first_bad_component_unique(ents: Seq<u8>, md: Seq<u8>, base: u64, n: int, i: int)
    requires
        is_first_bad_component(ents, md, base, n, i),
    ensures
        (choose|k: int| is_first_bad_component(ents, md, base, n, k)) == i,
{
    let k = choose|k: int| is_first_bad_component(ents, md, base, n, k);
    assert(is_first_bad_component(ents, md, base, n, k));
    if k < i {
        assert(component_error(ents, md, base, k) is None);
    } else if k > i {
        assert(component_error(ents, md, base, i) is None);
    }
}

/// Component `i` of the directory: the first check it fails, if any.
pub open spec fn component_error(ents: Seq<u8>, md: Seq<u8>, base: u64, i: int) -> Option<CpdError> {
    match Metadata::spec_component(md, i as u32) {
        Err(e) => Some(e),
        Ok(_) => if component_id_at(md, i) > MAX_COMPONENT_ID {
            Some(CpdError::ComponentIdOutOfRange { id: component_id_at(md, i), max: MAX_COMPONENT_ID })
        } else if component_ver_at(md, i) > MAX_COMPONENT_VERSION {
            Some(CpdError::ComponentVersionOutOfRange { ver: component_ver_at(md, i), max: MAX_COMPONENT_VERSION })
        } else if base + le32(ents, SIZEOF_CPD_ENT * i + 12) > u64::MAX {
            Some(CpdError::ArithmeticOverflow)
        } else {
            None
        },
    }
}

/// `i` is the first failing component among `n`.
pub open spec fn is_first_bad_component(ents: Seq<u8>, md: Seq<u8>, base: u64, n: int, i: int) -> bool {
    &&& 0 <= i < n
    &&& component_error(ents, md, base, i) is Some
    &&& forall|j: int| 0 <= j < i ==> component_error(ents, md, base, j) is None
}

/// The words of a package directory for `n` components with entry table
/// `ents`, metadata section `md` and device base address `base`.
pub open spec fn pkg_dir_words(words: Seq<u64>, ents: Seq<u8>, md: Seq<u8>, base: u64, n: int) -> bool {
    &&& words.len() == (1 + n) * PKG_DIR_ENT_LEN
    &&& words[0] == PKG_DIR_HDR_MARK
    &&& words[1] == n + 1
    &&& forall|i: int| #![trigger words[2 + 2 * i]] 0 <= i < n ==> words[2 + 2 * i] == base + le32(ents, SIZEOF_CPD_ENT * i + 12)
    &&& forall|i: int| #![trigger words[3 + 2 * i]] 0 <= i < n ==> words[3 + 2 * i]
        == (le32(ents, SIZEOF_CPD_ENT * i + 16) as u64 | (component_id_at(md, i) as u64) << PKG_DIR_ID_SHIFT
            | (component_ver_at(md, i) as u64) << PKG_DIR_VERSION_SHIFT)
}

/// The fields packed into a directory entry's second word read back: the
/// low 32 bits are the size, bits 32..48 the version and bits 48..55 the
/// component id, when the id fits 7 bits and the version 16.
proof fn lemma_entry_word_fields(len: u32, id: u32, ver: u32)
    requires
        id <= 127,
        ver <= 0xffff,
    ensures
        ({
            let w = len as u64 | (id as u64) << 48u32 | (ver as u64) << 32u32;
            &&& w & 0xffff_ffff == len as u64
            &&& (w >> 32u64) & 0xffff == ver as u64
            &&& (w >> 48u64) & 0x7f == id as u64
            &&& w >> 55u64 == 0
        }),
{
    assert({
        let w = len as u64 | (id as u64) << 48u32 | (ver as u64) << 32u32;
        &&& w & 0xffff_ffff == len as u64
        &&& (w >> 32u64) & 0xffff == ver as u64
        &&& (w >> 48u64) & 0x7f == id as u64
        &&& w >> 55u64 == 0
    }) by (bit_vector)
        requires
            id <= 127,
            ver <= 0xffff,
    ;
}

/// A package directory built for `n` components with no failing component:
/// the header pair holds the mark and `n + 1`; component `i`'s pair (words
/// `2 + 2 * i` and `3 + 2 * i`) holds the base address plus the entry's
/// offset, and a word whose low 32 bits are the entry's length, bits 32..48
/// the component's version and bits 48..55 its id, nothing above.
pub proof fn lemma_pkg_dir_entries(words: Seq<u64>, ents: Seq<u8>, md: Seq<u8>, base: u64, n: int)
    requires
        pkg_dir_words(words, ents, md, base, n),
        0 <= n,
        forall|i: int| 0 <= i < n ==> (#[trigger] component_error(ents, md, base, i)) is None,
    ensures
        words.len() == 2 * (n + 1),
        words[0] == 0x5f49_5550_4b44_525f,
        words[1] == n + 1,
        forall|i: int|
            0 <= i < n ==> {
                &&& #[trigger] words[2 + 2 * i] == base + le32(ents, 24 * i + 12)
                &&& words[3 + 2 * i] & 0xffff_ffff == le32(ents, 24 * i + 16)
                &&& (words[3 + 2 * i] >> 32u64) & 0xffff == le32(md, 28 + 68 * i + 8)
                &&& (words[3 + 2 * i] >> 48u64) & 0x7f == le32(md, 28 + 68 * i)
                &&& words[3 + 2 * i] >> 55u64 == 0
            },
{
    assert forall|i: int| 0 <= i < n implies {
        &&& #[trigger] words[2 + 2 * i] == base + le32(ents, 24 * i + 12)
        &&& words[3 + 2 * i] & 0xffff_ffff == le32(ents, 24 * i + 16)
        &&& (words[3 + 2 * i] >> 32u64) & 0xffff == le32(md, 28 + 68 * i + 8)
        &&& (words[3 + 2 * i] >> 48u64) & 0x7f == le32(md, 28 + 68 * i)
        &&& words[3 + 2 * i] >> 55u64 == 0
    } by {
        assert(component_error(ents, md, base, i) is None);
        assert(words[3 + 2 * i] == words[3 + 2 * i]);
        lemma_entry_word_fields(le32(ents, SIZEOF_CPD_ENT * i + 16), component_id_at(md, i), component_ver_at(md, i));
    }
}

/// The outcome of [`build_pkg_dir`]: `Ok(())` when a directory is built (its
/// words are then given by [`pkg_dir_words`]), or the first error met.
pub open spec fn spec_build_pkg_dir(m: Seq<u8>, md: Seq<u8>, base: u64) -> Result<()> {
    match spec_dir_region(m) {
        Err(e) => Err(e),
        Ok(dir) => match spec_slice(dir, 0, SIZEOF_CPD_HDR) {
            Err(e) => Err(e),
            Ok(_) => if le32(dir, 4) > MAX_PKG_DIR_ENT_CNT - 1 {
                Err(CpdError::TooManyComponents { count: le32(dir, 4), max: (MAX_PKG_DIR_ENT_CNT - 1) as usize })
            } else {
                match spec_dir_entries(dir) {
                    Err(e) => Err(e),
                    Ok(ents) => if md.len() < SIZEOF_METADATA_EXTN {
                        Err(CpdError::InvalidMetadataSize { size: md.len() as u32 })
                    } else if exists|i: int| 0 <= i < le32(dir, 4) && component_error(ents, md, base, i) is Some {
                        let i = choose|i: int| is_first_bad_component(ents, md, base, le32(dir, 4) as int, i);
                        Err(component_error(ents, md, base, i)->0)
                    } else {
                        Ok(())
                    },
                }
            },
        },
    }
}

/// Build a package directory from a moduledata section and its metadata
/// section; `base_addr` is the device address of the moduledata section.
pub fn build_pkg_dir(module_data: &[u8], metadata: &[u8], base_addr: u64) -> (r: Result<PkgDir>)
    ensures
        r matches Err(e) ==> spec_build_pkg_dir(module_data@, metadata@, base_addr) == Err::<(), CpdError>(e),
        r matches Ok(p) ==> {
            &&& spec_build_pkg_dir(module_data@, metadata@, base_addr) == Ok::<(), CpdError>(())
            &&& spec_dir_region(module_data@) matches Ok(dir)
            &&& spec_dir_entries(dir) matches Ok(ents)
            &&& pkg_dir_words(p@, ents, metadata@, base_addr, le32(dir, 4) as int)
            &&& p.wf()
        },
{
    let mod_hdr = ModuleDataHeader::parse(module_data)?;
    proof {
        lemma_le32_subrange(module_data@, 0, SIZEOF_MODULE_DATA_HDR as int, 0);
    }
    let hdr_len = mod_hdr.hdr_len() as usize;
    let dir_region = slice(module_data, hdr_len, module_data.len().saturating_sub(hdr_len))?;
    let dir_hdr = CpdHeader::parse(dir_region)?;
    proof {
        lemma_le32_subrange(dir_region@, 0, SIZEOF_CPD_HDR as int, 4);
    }
    let ent_cnt = dir_hdr.ent_cnt();
    let max_components = MAX_PKG_DIR_ENT_CNT - 1;
    if ent_cnt as usize > max_components {
        return Err(CpdError::TooManyComponents { count: ent_cnt, max: max_components });
    }
    let entries = slice(dir_region, SIZEOF_CPD_HDR, ent_cnt as usize * SIZEOF_CPD_ENT)?;
    let meta = Metadata::parse(metadata)?;
    let n = ent_cnt as usize;
    let mut words: Vec<u64> = vec![0u64; (1 + n) * PKG_DIR_ENT_LEN];
    words.set(0, PKG_DIR_HDR_MARK);
    words.set(1, ent_cnt as u64 + 1);
    let mut i: usize = 0;
    while i < n
        invariant
            n == ent_cnt,
            n <= 15,
            spec_dir_region(module_data@) == Ok::<Seq<u8>, CpdError>(dir_region@),
            dir_region@.len() >= SIZEOF_CPD_HDR,
            le32(dir_region@, 4) == n,
            spec_dir_entries(dir_region@) == Ok::<Seq<u8>, CpdError>(entries@),
            metadata@.len() >= SIZEOF_METADATA_EXTN,
            meta@ == metadata@,
            entries@.len() == n * SIZEOF_CPD_ENT,
            words@.len() == (1 + n) * PKG_DIR_ENT_LEN,
            words@[0] == PKG_DIR_HDR_MARK,
            words@[1] == n + 1,
            i <= n,
            forall|j: int| 0 <= j < i ==> component_error(entries@, metadata@, base_addr, j) is None,
            forall|j: int| #![trigger words@[2 + 2 * j]] 0 <= j < i ==> words@[2 + 2 * j] == base_addr + le32(entries@, SIZEOF_CPD_ENT * j + 12),
            forall|j: int| #![trigger words@[3 + 2 * j]] 0 <= j < i ==> words@[3 + 2 * j]
                == (le32(entries@, SIZEOF_CPD_ENT * j + 16) as u64 | (component_id_at(metadata@, j) as u64) << PKG_DIR_ID_SHIFT
                    | (component_ver_at(metadata@, j) as u64) << PKG_DIR_VERSION_SHIFT),
        decreases n - i,
    {
        let ent = CpdEntry::parse_at(entries, i)?;
        proof {
            lemma_le32_subrange(entries@, SIZEOF_CPD_ENT * i, SIZEOF_CPD_ENT * i + SIZEOF_CPD_ENT, 12);
            lemma_le32_subrange(entries@, SIZEOF_CPD_ENT * i, SIZEOF_CPD_ENT * i + SIZEOF_CPD_ENT, 16);
        }
        let c = meta.component(i as u32);
        let id = match c {
            Ok(c) => {
                proof {
                    lemma_le32_subrange(metadata@, SIZEOF_METADATA_EXTN + 68 * i, SIZEOF_METADATA_EXTN + 68 * i + 68, 0);
                }
                c.id()
            },
            Err(e) => {
                proof { lemma_first_bad_component_unique(entries@, metadata@, base_addr, n as int, i as int); }
                return Err(e);
            },
        };
        if id > MAX_COMPONENT_ID {
            proof { lemma_first_bad_component_unique(entries@, metadata@, base_addr, n as int, i as int); }
            return Err(CpdError::ComponentIdOutOfRange { id, max: MAX_COMPONENT_ID });
        }
        let ver = meta.component(i as u32)?.ver();
        proof {
            lemma_le32_subrange(metadata@, SIZEOF_METADATA_EXTN + 68 * i, SIZEOF_METADATA_EXTN + 68 * i + 68, 8);
        }
        if ver > MAX_COMPONENT_VERSION {
            proof { lemma_first_bad_component_unique(entries@, metadata@, base_addr, n as int, i as int); }
            return Err(CpdError::ComponentVersionOutOfRange { ver, max: MAX_COMPONENT_VERSION });
        }
        let addr = match base_addr.checked_add(ent.offset().get() as u64) {
            Some(a) => a,
            None => {
                proof { lemma_first_bad_component_unique(entries@, metadata@, base_addr, n as int, i as int); }
                return Err(CpdError::ArithmeticOverflow);
            },
        };
        let pair = PKG_DIR_ENT_LEN + i * PKG_DIR_ENT_LEN;
        words.set(pair, addr);
        words.set(pair + 1, ent.len().get() as u64 | (id as u64) << PKG_DIR_ID_SHIFT
            | (ver as u64) << PKG_DIR_VERSION_SHIFT);
        i = i + 1;
    }
    Ok(PkgDir { words })
}

} // verus!
