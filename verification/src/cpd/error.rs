//! Error type of the CPD parser.
//!
//! Every validation site of the firmware-package format reports a typed
//! [`CpdError`] that says which check failed and with which values; the kernel
//! convention of a single `-EINVAL` is still available through
//! [`CpdError::to_errno`].

use vstd::prelude::*;
use crate::text::{decimal, hex, push_decimal, push_hex, push_str};

verus! {

/// All the ways CPD parsing and validation can fail.
#[derive(Debug, Clone, PartialEq, Eq)]
#[non_exhaustive]
#[allow(inconsistent_fields)]
pub enum CpdError {
    /// A read of `need` bytes at `offset` would exceed the `len`-byte buffer.
    OutOfBounds { offset: usize, need: usize, len: usize },
    /// The buffer is smaller than the fixed-size header it must contain.
    BufferTooSmall { need: usize, len: usize },
    /// The CPD header marker (`$CPD`) did not match.
    BadHeaderMark { found: u32, expected: u32 },
    /// The declared entry count does not fit in the buffer.
    BadEntryCount { ent_cnt: u32, capacity: u32 },
    /// A fixed CPD entry index (manifest/metadata/moduledata) is absent.
    MissingEntry { index: usize, ent_cnt: u32 },
    /// A CPD entry points outside the backing data region.
    EntryOutOfRange { index: usize, offset: u32, len: u32, data_size: u32 },
    /// The manifest section exceeds `MAX_MANIFEST_SIZE`.
    ManifestTooLarge { len: u32, max: u32 },
    /// The metadata section size is invalid.
    InvalidMetadataSize { size: u32 },
    /// The metadata extension/image type is not IUNIT / main firmware.
    InvalidMetadataType { extn_type: u32, img_type: u32 },
    /// The moduledata header is inconsistent with the moduledata size.
    InvalidModuleDataSize { size: u32, hdr_len: u32 },
    /// The moduledata firmware-package date does not match the expected release.
    FwPkgReleaseMismatch { found: u32, expected: u32 },
    /// A metadata component index is out of range.
    ComponentOutOfRange { idx: u32, count: u32 },
    /// A parsed component id exceeds `MAX_COMPONENT_ID`.
    ComponentIdOutOfRange { id: u32, max: u32 },
    /// A parsed component version exceeds `MAX_COMPONENT_VERSION`.
    ComponentVersionOutOfRange { ver: u32, max: u32 },
    /// Integer overflow while computing an offset or a size.
    ArithmeticOverflow,
    /// The package directory does not contain the requested index.
    PkgDirIndexOutOfRange { index: usize, entries: usize },
    /// More components than the package directory can hold.
    TooManyComponents { count: u32, max: usize },
}

/// Result alias used throughout the CPD parser.
pub type Result<T> = core::result::Result<T, CpdError>;

impl CpdError {
    /// The human-readable description of the error.
    pub open spec fn message(&self) -> Seq<char> {
        match self {
            CpdError::OutOfBounds { offset, need, len } => "out-of-bounds read: "@ + decimal(*need as nat) + " bytes at offset "@ + decimal(*offset as nat) + " exceeds buffer of "@ + decimal(*len as nat),
            CpdError::BufferTooSmall { need, len } => "buffer too small: need "@ + decimal(*need as nat) + " bytes, have "@ + decimal(*len as nat),
            CpdError::BadHeaderMark { found, expected } => "invalid CPD header mark: "@ + hex(*found as nat) + " != "@ + hex(*expected as nat),
            CpdError::BadEntryCount { ent_cnt, capacity } => "invalid CPD header: entry count "@ + decimal(*ent_cnt as nat) + " exceeds capacity "@ + decimal(*capacity as nat),
            CpdError::MissingEntry { index, ent_cnt } => "missing CPD entry "@ + decimal(*index as nat) + ": only "@ + decimal(*ent_cnt as nat) + " present"@,
            CpdError::EntryOutOfRange { index, offset, len, data_size } => "CPD entry "@ + decimal(*index as nat) + " (offset "@ + decimal(*offset as nat) + ", len "@ + decimal(*len as nat) + ") out of range for data size "@ + decimal(*data_size as nat),
            CpdError::ManifestTooLarge { len, max } => "invalid manifest size: "@ + decimal(*len as nat) + " > "@ + decimal(*max as nat),
            CpdError::InvalidMetadataSize { size } => "invalid metadata size: "@ + decimal(*size as nat),
            CpdError::InvalidMetadataType { extn_type, img_type } => "invalid metadata descriptor: extn_type="@ + decimal(*extn_type as nat) + ", img_type="@ + decimal(*img_type as nat),
            CpdError::InvalidModuleDataSize { size, hdr_len } => "invalid moduledata size: size="@ + decimal(*size as nat) + ", hdr_len="@ + decimal(*hdr_len as nat),
            CpdError::FwPkgReleaseMismatch { found, expected } => "moduledata and library version mismatch ("@ + hex(*found as nat) + " != "@ + hex(*expected as nat) + ")"@,
            CpdError::ComponentOutOfRange { idx, count } => "component index out of range ("@ + decimal(*idx as nat) + " >= "@ + decimal(*count as nat) + ")"@,
            CpdError::ComponentIdOutOfRange { id, max } => "component id out of range ("@ + decimal(*id as nat) + " > "@ + decimal(*max as nat) + ")"@,
            CpdError::ComponentVersionOutOfRange { ver, max } => "component version out of range ("@ + decimal(*ver as nat) + " > "@ + decimal(*max as nat) + ")"@,
            CpdError::ArithmeticOverflow => "arithmetic overflow in offset/size math"@,
            CpdError::PkgDirIndexOutOfRange { index, entries } => "pkg_dir index "@ + decimal(*index as nat) + " out of range ("@ + decimal(*entries as nat) + " entries)"@,
            CpdError::TooManyComponents { count, max } => "too many components: "@ + decimal(*count as nat) + " > "@ + decimal(*max as nat),
        }
    }

    /// The human-readable description of the error.
    pub fn to_string(&self) -> (r: String)
        ensures
            r@ == self.message(),
    {
        let mut s = String::new();
        match self {
            CpdError::OutOfBounds { offset, need, len } => {
                push_str(&mut s, "out-of-bounds read: ");
                push_decimal(&mut s, *need as u64);
                push_str(&mut s, " bytes at offset ");
                push_decimal(&mut s, *offset as u64);
                push_str(&mut s, " exceeds buffer of ");
                push_decimal(&mut s, *len as u64);
            },
            CpdError::BufferTooSmall { need, len } => {
                push_str(&mut s, "buffer too small: need ");
                push_decimal(&mut s, *need as u64);
                push_str(&mut s, " bytes, have ");
                push_decimal(&mut s, *len as u64);
            },
            CpdError::BadHeaderMark { found, expected } => {
                push_str(&mut s, "invalid CPD header mark: ");
                push_hex(&mut s, *found as u64);
                push_str(&mut s, " != ");
                push_hex(&mut s, *expected as u64);
            },
            CpdError::BadEntryCount { ent_cnt, capacity } => {
                push_str(&mut s, "invalid CPD header: entry count ");
                push_decimal(&mut s, *ent_cnt as u64);
                push_str(&mut s, " exceeds capacity ");
                push_decimal(&mut s, *capacity as u64);
            },
            CpdError::MissingEntry { index, ent_cnt } => {
                push_str(&mut s, "missing CPD entry ");
                push_decimal(&mut s, *index as u64);
                push_str(&mut s, ": only ");
                push_decimal(&mut s, *ent_cnt as u64);
                push_str(&mut s, " present");
            },
            CpdError::EntryOutOfRange { index, offset, len, data_size } => {
                push_str(&mut s, "CPD entry ");
                push_decimal(&mut s, *index as u64);
                push_str(&mut s, " (offset ");
                push_decimal(&mut s, *offset as u64);
                push_str(&mut s, ", len ");
                push_decimal(&mut s, *len as u64);
                push_str(&mut s, ") out of range for data size ");
                push_decimal(&mut s, *data_size as u64);
            },
            CpdError::ManifestTooLarge { len, max } => {
                push_str(&mut s, "invalid manifest size: ");
                push_decimal(&mut s, *len as u64);
                push_str(&mut s, " > ");
                push_decimal(&mut s, *max as u64);
            },
            CpdError::InvalidMetadataSize { size } => {
                push_str(&mut s, "invalid metadata size: ");
                push_decimal(&mut s, *size as u64);
            },
            CpdError::InvalidMetadataType { extn_type, img_type } => {
                push_str(&mut s, "invalid metadata descriptor: extn_type=");
                push_decimal(&mut s, *extn_type as u64);
                push_str(&mut s, ", img_type=");
                push_decimal(&mut s, *img_type as u64);
            },
            CpdError::InvalidModuleDataSize { size, hdr_len } => {
                push_str(&mut s, "invalid moduledata size: size=");
                push_decimal(&mut s, *size as u64);
                push_str(&mut s, ", hdr_len=");
                push_decimal(&mut s, *hdr_len as u64);
            },
            CpdError::FwPkgReleaseMismatch { found, expected } => {
                push_str(&mut s, "moduledata and library version mismatch (");
                push_hex(&mut s, *found as u64);
                push_str(&mut s, " != ");
                push_hex(&mut s, *expected as u64);
                push_str(&mut s, ")");
            },
            CpdError::ComponentOutOfRange { idx, count } => {
                push_str(&mut s, "component index out of range (");
                push_decimal(&mut s, *idx as u64);
                push_str(&mut s, " >= ");
                push_decimal(&mut s, *count as u64);
                push_str(&mut s, ")");
            },
            CpdError::ComponentIdOutOfRange { id, max } => {
                push_str(&mut s, "component id out of range (");
                push_decimal(&mut s, *id as u64);
                push_str(&mut s, " > ");
                push_decimal(&mut s, *max as u64);
                push_str(&mut s, ")");
            },
            CpdError::ComponentVersionOutOfRange { ver, max } => {
                push_str(&mut s, "component version out of range (");
                push_decimal(&mut s, *ver as u64);
                push_str(&mut s, " > ");
                push_decimal(&mut s, *max as u64);
                push_str(&mut s, ")");
            },
            CpdError::ArithmeticOverflow => {
                push_str(&mut s, "arithmetic overflow in offset/size math");
            },
            CpdError::PkgDirIndexOutOfRange { index, entries } => {
                push_str(&mut s, "pkg_dir index ");
                push_decimal(&mut s, *index as u64);
                push_str(&mut s, " out of range (");
                push_decimal(&mut s, *entries as u64);
                push_str(&mut s, " entries)");
            },
            CpdError::TooManyComponents { count, max } => {
                push_str(&mut s, "too many components: ");
                push_decimal(&mut s, *count as u64);
                push_str(&mut s, " > ");
                push_decimal(&mut s, *max as u64);
            },
        }
        assert(s@ =~= self.message());
        s
    }

    /// The kernel `-EINVAL` convention: every validation failure maps to it.
    pub fn to_errno(&self) -> (r: i32)
        ensures
            r == -22,
    {
        -22
    }
}

} // verus!
