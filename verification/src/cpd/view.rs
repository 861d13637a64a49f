//! Zero-copy views over the packed CPD structures.
//!
//! Each view borrows exactly the bytes of one on-wire structure (its length is
//! the view's type invariant) and decodes fields on demand. The view of a view
//! (`@`) is those bytes.

use vstd::prelude::*;
use crate::cpd::bytes::{le32, slice, spec_slice, u32_at, u8_at};
use crate::cpd::consts::{INTEL_NAME_LEN, SIZEOF_CPD_ENT, SIZEOF_CPD_HDR, SIZEOF_METADATA_CMPNT, SIZEOF_METADATA_EXTN, SIZEOF_MODULE_DATA_HDR};
use crate::cpd::error::{CpdError, Result};
use crate::cpd::types::{Offset, Size};

verus! {

/// What `parse_at` of a `size`-byte record returns for record `index` of `buf`.
pub open spec fn spec_record_at(buf: Seq<u8>, index: usize, size: usize) -> Result<Seq<u8>> {
    if index * size > usize::MAX {
        Err(CpdError::ArithmeticOverflow)
    } else {
        spec_slice(buf, (index * size) as usize, size)
    }
}

/// View over `struct intel_ipu4_cpd_hdr` (16 bytes).
#[derive(Debug, Clone, Copy)]
pub struct CpdHeader<'a> {
    raw: &'a [u8],
}

impl<'a> View for CpdHeader<'a> {
    type V = Seq<u8>;

    closed spec fn view(&self) -> Seq<u8> {
        self.raw@
    }
}

impl<'a> CpdHeader<'a> {
    #[verifier::type_invariant]
    spec fn inv(self) -> bool {
        self.raw@.len() == SIZEOF_CPD_HDR
    }

    /// Borrow a CPD header from the front of `buf`.
    pub fn parse(buf: &'a [u8]) -> (r: Result<Self>)
        ensures
            r matches Ok(h) ==> spec_slice(buf@, 0, SIZEOF_CPD_HDR) == Ok::<Seq<u8>, CpdError>(h@),
            r matches Err(e) ==> spec_slice(buf@, 0, SIZEOF_CPD_HDR) == Err::<Seq<u8>, CpdError>(e),
    {
        let raw = slice(buf, 0, SIZEOF_CPD_HDR)?;
        Ok(CpdHeader { raw })
    }

    pub fn hdr_mark(&self) -> (r: u32)
        ensures
            r == le32(self@, 0),
    {
        proof { use_type_invariant(self); }
        u32_at(self.raw, 0).unwrap()
    }

    pub fn ent_cnt(&self) -> (r: u32)
        ensures
            r == le32(self@, 4),
    {
        proof { use_type_invariant(self); }
        u32_at(self.raw, 4).unwrap()
    }

    pub fn hdr_ver(&self) -> (r: u8)
        ensures
            r == self@[8],
    {
        proof { use_type_invariant(self); }
        u8_at(self.raw, 8).unwrap()
    }

    pub fn ent_ver(&self) -> (r: u8)
        ensures
            r == self@[9],
    {
        proof { use_type_invariant(self); }
        u8_at(self.raw, 9).unwrap()
    }

    pub fn hdr_len(&self) -> (r: u8)
        ensures
            r == self@[10],
    {
        proof { use_type_invariant(self); }
        u8_at(self.raw, 10).unwrap()
    }

    pub fn chksm(&self) -> (r: u8)
        ensures
            r == self@[11],
    {
        proof { use_type_invariant(self); }
        u8_at(self.raw, 11).unwrap()
    }

    pub fn name(&self) -> (r: u32)
        ensures
            r == le32(self@, 12),
    {
        proof { use_type_invariant(self); }
        u32_at(self.raw, 12).unwrap()
    }
}

/// View over `struct intel_ipu4_cpd_ent` (24 bytes).
#[derive(Debug, Clone, Copy)]
pub struct CpdEntry<'a> {
    raw: &'a [u8],
}

impl<'a> View for CpdEntry<'a> {
    type V = Seq<u8>;

    closed spec fn view(&self) -> Seq<u8> {
        self.raw@
    }
}

impl<'a> CpdEntry<'a> {
    #[verifier::type_invariant]
    spec fn inv(self) -> bool {
        self.raw@.len() == SIZEOF_CPD_ENT
    }

    /// Borrow the CPD entry at `index` of the entry array `buf`.
    pub fn parse_at(buf: &'a [u8], index: usize) -> (r: Result<Self>)
        ensures
            r matches Ok(e) ==> spec_record_at(buf@, index, SIZEOF_CPD_ENT) == Ok::<Seq<u8>, CpdError>(e@),
            r matches Err(e) ==> spec_record_at(buf@, index, SIZEOF_CPD_ENT) == Err::<Seq<u8>, CpdError>(e),
    {
        let base = match index.checked_mul(SIZEOF_CPD_ENT) {
            Some(b) => b,
            None => return Err(CpdError::ArithmeticOverflow),
        };
        let raw = slice(buf, base, SIZEOF_CPD_ENT)?;
        Ok(CpdEntry { raw })
    }

    /// The 12-byte component name (may be unterminated).
    pub fn name(&self) -> (r: &'a [u8])
        ensures
            r@ == self@.subrange(0, INTEL_NAME_LEN as int),
    {
        proof { use_type_invariant(self); }
        vstd::slice::slice_subrange(self.raw, 0, INTEL_NAME_LEN)
    }

    pub fn offset(&self) -> (r: Offset)
        ensures
            r.0 == le32(self@, 12),
    {
        proof { use_type_invariant(self); }
        Offset(u32_at(self.raw, 12).unwrap())
    }

    /// The `len` field of the entry: the byte count of the referenced region.
    #[allow(clippy::len_without_is_empty)]
    pub fn len(&self) -> (r: Size)
        ensures
            r.0 == le32(self@, 16),
    {
        proof { use_type_invariant(self); }
        Size(u32_at(self.raw, 16).unwrap())
    }
}

/// View over `struct intel_ipu_cpd_metadata_extn` (28 bytes).
#[derive(Debug, Clone, Copy)]
pub struct MetadataExtn<'a> {
    raw: &'a [u8],
}

impl<'a> View for MetadataExtn<'a> {
    type V = Seq<u8>;

    closed spec fn view(&self) -> Seq<u8> {
        self.raw@
    }
}

impl<'a> MetadataExtn<'a> {
    #[verifier::type_invariant]
    spec fn inv(self) -> bool {
        self.raw@.len() == SIZEOF_METADATA_EXTN
    }

    pub fn parse(buf: &'a [u8]) -> (r: Result<Self>)
        ensures
            r matches Ok(h) ==> spec_slice(buf@, 0, SIZEOF_METADATA_EXTN) == Ok::<Seq<u8>, CpdError>(h@),
            r matches Err(e) ==> spec_slice(buf@, 0, SIZEOF_METADATA_EXTN) == Err::<Seq<u8>, CpdError>(e),
    {
        let raw = slice(buf, 0, SIZEOF_METADATA_EXTN)?;
        Ok(MetadataExtn { raw })
    }

    pub fn extn_type(&self) -> (r: u32)
        ensures
            r == le32(self@, 0),
    {
        proof { use_type_invariant(self); }
        u32_at(self.raw, 0).unwrap()
    }

    /// The `len` field of the extension header.
    #[allow(clippy::len_without_is_empty)]
    pub fn len(&self) -> (r: u32)
        ensures
            r == le32(self@, 4),
    {
        proof { use_type_invariant(self); }
        u32_at(self.raw, 4).unwrap()
    }

    pub fn img_type(&self) -> (r: u32)
        ensures
            r == le32(self@, 8),
    {
        proof { use_type_invariant(self); }
        u32_at(self.raw, 8).unwrap()
    }
}

/// View over `struct intel_ipu4_cpd_metadata_cmpnt` (68 bytes).
#[derive(Debug, Clone, Copy)]
pub struct MetadataComponent<'a> {
    raw: &'a [u8],
}

impl<'a> View for MetadataComponent<'a> {
    type V = Seq<u8>;

    closed spec fn view(&self) -> Seq<u8> {
        self.raw@
    }
}

impl<'a> MetadataComponent<'a> {
    #[verifier::type_invariant]
    spec fn inv(self) -> bool {
        self.raw@.len() == SIZEOF_METADATA_CMPNT
    }

    /// Borrow the component at `index` of the component array `buf`.
    pub fn parse_at(buf: &'a [u8], index: usize) -> (r: Result<Self>)
        ensures
            r matches Ok(e) ==> spec_record_at(buf@, index, SIZEOF_METADATA_CMPNT) == Ok::<Seq<u8>, CpdError>(e@),
            r matches Err(e) ==> spec_record_at(buf@, index, SIZEOF_METADATA_CMPNT) == Err::<Seq<u8>, CpdError>(e),
    {
        let base = match index.checked_mul(SIZEOF_METADATA_CMPNT) {
            Some(b) => b,
            None => return Err(CpdError::ArithmeticOverflow),
        };
        let raw = slice(buf, base, SIZEOF_METADATA_CMPNT)?;
        Ok(MetadataComponent { raw })
    }

    pub fn id(&self) -> (r: u32)
        ensures
            r == le32(self@, 0),
    {
        proof { use_type_invariant(self); }
        u32_at(self.raw, 0).unwrap()
    }

    pub fn size(&self) -> (r: u32)
        ensures
            r == le32(self@, 4),
    {
        proof { use_type_invariant(self); }
        u32_at(self.raw, 4).unwrap()
    }

    pub fn ver(&self) -> (r: u32)
        ensures
            r == le32(self@, 8),
    {
        proof { use_type_invariant(self); }
        u32_at(self.raw, 8).unwrap()
    }

    /// The 32-byte SHA-2 hash of the component.
    pub fn sha2_hash(&self) -> (r: &'a [u8])
        ensures
            r@ == self@.subrange(12, 44),
    {
        proof { use_type_invariant(self); }
        vstd::slice::slice_subrange(self.raw, 12, 44)
    }

    pub fn entry_point(&self) -> (r: u32)
        ensures
            r == le32(self@, 44),
    {
        proof { use_type_invariant(self); }
        u32_at(self.raw, 44).unwrap()
    }

    pub fn icache_base_offs(&self) -> (r: u32)
        ensures
            r == le32(self@, 48),
    {
        proof { use_type_invariant(self); }
        u32_at(self.raw, 48).unwrap()
    }
}

/// View over `struct intel_ipu4_cpd_module_data_hdr` (44 bytes).
#[derive(Debug, Clone, Copy)]
pub struct ModuleDataHeader<'a> {
    raw: &'a [u8],
}

impl<'a> View for ModuleDataHeader<'a> {
    type V = Seq<u8>;

    closed spec fn view(&self) -> Seq<u8> {
        self.raw@
    }
}

impl<'a> ModuleDataHeader<'a> {
    #[verifier::type_invariant]
    spec fn inv(self) -> bool {
        self.raw@.len() == SIZEOF_MODULE_DATA_HDR
    }

    pub fn parse(buf: &'a [u8]) -> (r: Result<Self>)
        ensures
            r matches Ok(h) ==> spec_slice(buf@, 0, SIZEOF_MODULE_DATA_HDR) == Ok::<Seq<u8>, CpdError>(h@),
            r matches Err(e) ==> spec_slice(buf@, 0, SIZEOF_MODULE_DATA_HDR) == Err::<Seq<u8>, CpdError>(e),
    {
        let raw = slice(buf, 0, SIZEOF_MODULE_DATA_HDR)?;
        Ok(ModuleDataHeader { raw })
    }

    pub fn hdr_len(&self) -> (r: u32)
        ensures
            r == le32(self@, 0),
    {
        proof { use_type_invariant(self); }
        u32_at(self.raw, 0).unwrap()
    }

    pub fn fw_pkg_date(&self) -> (r: u32)
        ensures
            r == le32(self@, 8),
    {
        proof { use_type_invariant(self); }
        u32_at(self.raw, 8).unwrap()
    }
}

} // verus!
