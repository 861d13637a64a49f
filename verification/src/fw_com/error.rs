//! Errors of the firmware communication layer.
//!
//! Each failure is an explicit variant; [`FwComError::to_errno`] gives the
//! negative errno (`-EIO`, `-EBUSY`) that the kernel interface reports.

use vstd::prelude::*;
use crate::text::{decimal, push_decimal, push_str};

verus! {

/// Errors produced by the firmware communication layer.
#[derive(Debug, Clone, PartialEq, Eq)]
pub enum FwComError {
    /// The send queue has no free slot for another token.
    QueueFull,
    /// The receive queue has no pending token.
    QueueEmpty,
    /// A dmem index read back from shared memory is out of range.
    IndexOutOfRange { index: u32, size: u32 },
    /// The requested queue number does not exist.
    QueueIndexOutOfRange { index: usize, count: usize },
    /// A caller-supplied token buffer does not match the queue's token size.
    TokenSizeMismatch { expected: usize, actual: usize },
    /// A queue was configured with a zero `queue_size`.
    ZeroQueueSize,
    /// A queue was configured with a zero `token_size`.
    ZeroTokenSize,
    /// The total shared allocation size overflowed.
    SizeOverflow,
    /// The firmware cell is not ready (reported as `-EIO`).
    CellNotReady,
    /// The syscom is not in the `READY` state (reported as `-EBUSY`).
    Busy,
}

impl FwComError {
    /// The human-readable description of the error.
    pub open spec fn message(&self) -> Seq<char> {
        match self {
            FwComError::QueueFull => "send queue is full"@,
            FwComError::QueueEmpty => "receive queue is empty"@,
            FwComError::IndexOutOfRange { index, size } => "dmem index "@ + decimal(*index as nat) + " out of range for queue size "@ + decimal(*size as nat),
            FwComError::QueueIndexOutOfRange { index, count } => "queue index "@ + decimal(*index as nat) + " out of range (have "@ + decimal(*count as nat) + " queues)"@,
            FwComError::TokenSizeMismatch { expected, actual } => "token size mismatch: expected "@ + decimal(*expected as nat) + ", got "@ + decimal(*actual as nat),
            FwComError::ZeroQueueSize => "queue_size must be non-zero"@,
            FwComError::ZeroTokenSize => "token_size must be non-zero"@,
            FwComError::SizeOverflow => "shared allocation size overflow"@,
            FwComError::CellNotReady => "firmware cell is not ready"@,
            FwComError::Busy => "syscom is busy / not ready"@,
        }
    }

    /// The human-readable description of the error.
    pub fn to_string(&self) -> (r: String)
        ensures
            r@ == self.message(),
    {
        let mut s = String::new();
        match self {
            FwComError::QueueFull => {
                push_str(&mut s, "send queue is full");
            },
            FwComError::QueueEmpty => {
                push_str(&mut s, "receive queue is empty");
            },
            FwComError::IndexOutOfRange { index, size } => {
                push_str(&mut s, "dmem index ");
                push_decimal(&mut s, *index as u64);
                push_str(&mut s, " out of range for queue size ");
                push_decimal(&mut s, *size as u64);
            },
            FwComError::QueueIndexOutOfRange { index, count } => {
                push_str(&mut s, "queue index ");
                push_decimal(&mut s, *index as u64);
                push_str(&mut s, " out of range (have ");
                push_decimal(&mut s, *count as u64);
                push_str(&mut s, " queues)");
            },
            FwComError::TokenSizeMismatch { expected, actual } => {
                push_str(&mut s, "token size mismatch: expected ");
                push_decimal(&mut s, *expected as u64);
                push_str(&mut s, ", got ");
                push_decimal(&mut s, *actual as u64);
            },
            FwComError::ZeroQueueSize => {
                push_str(&mut s, "queue_size must be non-zero");
            },
            FwComError::ZeroTokenSize => {
                push_str(&mut s, "token_size must be non-zero");
            },
            FwComError::SizeOverflow => {
                push_str(&mut s, "shared allocation size overflow");
            },
            FwComError::CellNotReady => {
                push_str(&mut s, "firmware cell is not ready");
            },
            FwComError::Busy => {
                push_str(&mut s, "syscom is busy / not ready");
            },
        }
        assert(s@ =~= self.message());
        s
    }

    /// Negative errno of the error: `-EIO`
    /// for a cell that is not ready, `-EBUSY` for everything else.
    pub fn to_errno(&self) -> (r: i32)
        ensures
            *self == FwComError::CellNotReady ==> r == -5,
            *self != FwComError::CellNotReady ==> r == -16,
    {
        match self {
            FwComError::CellNotReady => -5,
            _ => -16,
        }
    }
}

/// Result alias of the firmware communication layer.
pub type Result<T> = core::result::Result<T, FwComError>;

} // verus!
