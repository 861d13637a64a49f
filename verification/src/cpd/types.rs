//! Strong newtypes for byte offsets and byte sizes of CPD regions.
//!
//! Offsets and lengths are kept distinct, and their sum is computed only
//! through the overflow-checked [`end_of`].

use vstd::prelude::*;
use crate::cpd::error::{CpdError, Result};

verus! {

/// A byte offset into a CPD buffer.
#[derive(Debug, Clone, Copy, PartialEq, Eq, PartialOrd, Ord, Hash)]
pub struct Offset(pub u32);

/// A byte size/length of a CPD region.
#[derive(Debug, Clone, Copy, PartialEq, Eq, PartialOrd, Ord, Hash)]
pub struct Size(pub u32);

impl Offset {
    pub fn get(self) -> (r: u32)
        ensures
            r == self.0,
    {
        self.0
    }

    pub fn as_usize(self) -> (r: usize)
        ensures
            r == self.0,
    {
        self.0 as usize
    }
}

impl Size {
    pub fn get(self) -> (r: u32)
        ensures
            r == self.0,
    {
        self.0
    }

    pub fn as_usize(self) -> (r: usize)
        ensures
            r == self.0,
    {
        self.0 as usize
    }
}

impl From<u32> for Offset {
    fn from(v: u32) -> (r: Offset) {
        Offset(v)
    }
}

impl vstd::std_specs::convert::FromSpecImpl<u32> for Offset {
    open spec fn obeys_from_spec() -> bool {
        true
    }

    open spec fn from_spec(v: u32) -> Offset {
        Offset(v)
    }
}

impl From<u32> for Size {
    fn from(v: u32) -> (r: Size) {
        Size(v)
    }
}

impl vstd::std_specs::convert::FromSpecImpl<u32> for Size {
    open spec fn obeys_from_spec() -> bool {
        true
    }

    open spec fn from_spec(v: u32) -> Size {
        Size(v)
    }
}

/// Compute `offset + len` as a `usize`, failing with
/// [`CpdError::ArithmeticOverflow`] when the sum does not fit.
pub fn end_of(offset: Offset, len: Size) -> (r: Result<usize>)
    ensures
        offset.0 + len.0 <= usize::MAX ==> r == Ok::<usize, CpdError>((offset.0 + len.0) as usize),
        offset.0 + len.0 > usize::MAX ==> r == Err::<usize, CpdError>(CpdError::ArithmeticOverflow),
{
    match offset.as_usize().checked_add(len.as_usize()) {
        Some(e) => Ok(e),
        None => Err(CpdError::ArithmeticOverflow),
    }
}

} // verus!
