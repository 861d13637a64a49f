//! Strongly-typed newtypes for pin, stream and buffer indices.
//!
//! Pin indices and stream handles are range-checked on construction, so an
//! out-of-range index can never reach a fixed-size ABI array.

use vstd::prelude::*;
use crate::fw_msgs::error::{Error, Result};
use crate::fw_msgs::layout::{INTEL_IPU4_MAX_IPINS, INTEL_IPU4_MAX_OPINS, INTEL_IPU4_STREAM_ID_MAX};

verus! {

/// Index of an input pin within a stream configuration (`< INTEL_IPU4_MAX_IPINS`).
#[derive(Debug, Clone, Copy, PartialEq, Eq, PartialOrd, Ord, Hash)]
pub struct InputPinId(u8);

impl InputPinId {
    #[verifier::type_invariant]
    spec fn inv(self) -> bool {
        (self.0 as usize) < INTEL_IPU4_MAX_IPINS
    }

    /// The raw index.
    pub closed spec fn spec_get(self) -> u8 {
        self.0
    }

    /// Create an input-pin id, validating it against the ABI maximum.
    pub fn new(index: u8) -> (r: Result<Self>)
        ensures
            (index as usize) < INTEL_IPU4_MAX_IPINS ==> (r matches Ok(id) && id.spec_get() == index),
            (index as usize) >= INTEL_IPU4_MAX_IPINS ==> r == Err::<Self, Error>(
                Error::IndexOutOfRange { field: "input_pin", index: index as usize, len: INTEL_IPU4_MAX_IPINS },
            ),
    {
        if (index as usize) < INTEL_IPU4_MAX_IPINS {
            Ok(InputPinId(index))
        } else {
            Err(Error::IndexOutOfRange { field: "input_pin", index: index as usize, len: INTEL_IPU4_MAX_IPINS })
        }
    }

    /// The raw index value.
    pub fn get(self) -> (r: u8)
        ensures
            r == self.spec_get(),
            (r as usize) < INTEL_IPU4_MAX_IPINS,
    {
        proof { use_type_invariant(&self); }
        self.0
    }
}

/// Index of an output pin (`< INTEL_IPU4_MAX_OPINS`).
#[derive(Debug, Clone, Copy, PartialEq, Eq, PartialOrd, Ord, Hash)]
pub struct OutputPinId(u8);

impl OutputPinId {
    /// The raw index.
    pub closed spec fn spec_get(self) -> u8 {
        self.0
    }

    #[verifier::type_invariant]
    spec fn inv(self) -> bool {
        (self.0 as usize) < INTEL_IPU4_MAX_OPINS
    }

    /// Create an output-pin id, validating it against the ABI maximum.
    pub fn new(index: u8) -> (r: Result<Self>)
        ensures
            (index as usize) < INTEL_IPU4_MAX_OPINS ==> (r matches Ok(id) && id.spec_get() == index),
            (index as usize) >= INTEL_IPU4_MAX_OPINS ==> r == Err::<Self, Error>(
                Error::IndexOutOfRange { field: "output_pin", index: index as usize, len: INTEL_IPU4_MAX_OPINS },
            ),
    {
        if (index as usize) < INTEL_IPU4_MAX_OPINS {
            Ok(OutputPinId(index))
        } else {
            Err(Error::IndexOutOfRange { field: "output_pin", index: index as usize, len: INTEL_IPU4_MAX_OPINS })
        }
    }

    /// The raw index value.
    pub fn get(self) -> (r: u8)
        ensures
            r == self.spec_get(),
            (r as usize) < INTEL_IPU4_MAX_OPINS,
    {
        proof { use_type_invariant(&self); }
        self.0
    }
}

/// Handle of a virtual stream (`< INTEL_IPU4_STREAM_ID_MAX`).
#[derive(Debug, Clone, Copy, PartialEq, Eq, PartialOrd, Ord, Hash)]
pub struct StreamHandle(u8);

impl StreamHandle {
    #[verifier::type_invariant]
    spec fn inv(self) -> bool {
        (self.0 as usize) < INTEL_IPU4_STREAM_ID_MAX
    }

    /// The raw handle.
    pub closed spec fn spec_get(self) -> u8 {
        self.0
    }

    /// Create a stream handle, validating it against the ABI maximum.
    pub fn new(handle: u8) -> (r: Result<Self>)
        ensures
            (handle as usize) < INTEL_IPU4_STREAM_ID_MAX ==> (r matches Ok(h) && h.spec_get() == handle),
            (handle as usize) >= INTEL_IPU4_STREAM_ID_MAX ==> r == Err::<Self, Error>(
                Error::IndexOutOfRange { field: "stream_handle", index: handle as usize, len: INTEL_IPU4_STREAM_ID_MAX },
            ),
    {
        if (handle as usize) < INTEL_IPU4_STREAM_ID_MAX {
            Ok(StreamHandle(handle))
        } else {
            Err(Error::IndexOutOfRange { field: "stream_handle", index: handle as usize, len: INTEL_IPU4_STREAM_ID_MAX })
        }
    }

    /// The raw handle value.
    pub fn get(self) -> (r: u8)
        ensures
            r == self.spec_get(),
            (r as usize) < INTEL_IPU4_STREAM_ID_MAX,
    {
        proof { use_type_invariant(&self); }
        self.0
    }
}

/// Opaque firmware buffer identifier, echoed back verbatim by the firmware.
#[derive(Debug, Clone, Copy, PartialEq, Eq, PartialOrd, Ord, Hash, Default)]
pub struct BufferId(pub u64);

impl BufferId {
    /// The raw 64-bit identifier.
    pub fn get(self) -> (r: u64)
        ensures
            r == self.0,
    {
        self.0
    }
}

/// A CSS virtual address (DMA-mapped payload pointer) as seen by the firmware.
#[derive(Debug, Clone, Copy, PartialEq, Eq, PartialOrd, Ord, Hash, Default)]
pub struct CssVirtualAddress(pub u32);

impl CssVirtualAddress {
    /// The raw 32-bit address.
    pub fn get(self) -> (r: u32)
        ensures
            r == self.0,
    {
        self.0
    }
}

} // verus!
