//! Bounds-checked little-endian readers over byte slices.
//!
//! Every multi-byte field of the CPD format is little-endian. These readers
//! can never run past the end of the slice: a read that does not fit is a
//! typed [`CpdError::OutOfBounds`], an offset computation that wraps is a
//! [`CpdError::ArithmeticOverflow`].

use vstd::prelude::*;
use vstd::bytes::spec_u32_from_le_bytes;
use crate::cpd::error::{CpdError, Result};

verus! {

/// The little-endian `u32` stored at `off` in `s`.
pub open spec fn le32(s: Seq<u8>, off: int) -> u32 {
    spec_u32_from_le_bytes(s.subrange(off, off + 4))
}

/// What [`slice`] returns for a buffer `buf`, an offset and a length.
pub open spec fn spec_slice(buf: Seq<u8>, offset: usize, len: usize) -> Result<Seq<u8>> {
    if offset + len > usize::MAX {
        Err(CpdError::ArithmeticOverflow)
    } else if offset + len > buf.len() {
        Err(CpdError::OutOfBounds { offset, need: len, len: buf.len() as usize })
    } else {
        Ok(buf.subrange(offset as int, offset + len))
    }
}

/// Borrow `len` bytes starting at `offset`, or fail if they do not fit.
pub fn slice(buf: &[u8], offset: usize, len: usize) -> (r: Result<&[u8]>)
    ensures
        r matches Ok(s) ==> spec_slice(buf@, offset, len) == Ok::<Seq<u8>, CpdError>(s@),
        r matches Err(e) ==> spec_slice(buf@, offset, len) == Err::<Seq<u8>, CpdError>(e),
{
    let end = match offset.checked_add(len) {
        Some(e) => e,
        None => return Err(CpdError::ArithmeticOverflow),
    };
    if end > buf.len() {
        return Err(CpdError::OutOfBounds { offset, need: len, len: buf.len() });
    }
    Ok(vstd::slice::slice_subrange(buf, offset, end))
}

/// Read the byte at `offset`.
pub fn u8_at(buf: &[u8], offset: usize) -> (r: Result<u8>)
    ensures
        offset < buf@.len() ==> r == Ok::<u8, CpdError>(buf@[offset as int]),
        offset >= buf@.len() ==> r == Err::<u8, CpdError>(
            CpdError::OutOfBounds { offset, need: 1, len: buf@.len() as usize },
        ),
{
    if offset < buf.len() {
        Ok(buf[offset])
    } else {
        Err(CpdError::OutOfBounds { offset, need: 1, len: buf.len() })
    }
}

/// Read the little-endian `u32` at `offset`.
pub fn u32_at(buf: &[u8], offset: usize) -> (r: Result<u32>)
    ensures
        r == (match spec_slice(buf@, offset, 4) {
            Ok(_) => Ok::<u32, CpdError>(le32(buf@, offset as int)),
            Err(e) => Err::<u32, CpdError>(e),
        }),
{
    let b = slice(buf, offset, 4)?;
    Ok(vstd::bytes::u32_from_le_bytes(b))
}

} // verus!
