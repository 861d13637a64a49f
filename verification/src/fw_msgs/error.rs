//! Error type of message construction, validation and (de)serialization.

use vstd::prelude::*;
use crate::text::{decimal, push_decimal, push_str};

verus! {

/// Errors produced while building, serializing or parsing firmware messages.
#[derive(Debug, Clone, PartialEq, Eq)]
pub enum Error {
    /// A destination/source byte buffer was too small: `expected` bytes were
    /// needed, `actual` were available.
    BufferTooSmall { expected: usize, actual: usize },
    /// A count exceeded the fixed ABI capacity of an array field.
    TooMany { field: &'static str, value: usize, max: usize },
    /// An index addressed an element outside the fixed ABI array bounds.
    IndexOutOfRange { field: &'static str, index: usize, len: usize },
    /// A scalar value was outside the range permitted by the ABI.
    ValueOutOfRange { field: &'static str, value: u64, max: u64 },
    /// A serialized enum discriminant did not match any known variant.
    InvalidEnum { field: &'static str, value: u32 },
}

impl Error {
    /// The human-readable description of the error.
    pub open spec fn message(&self) -> Seq<char> {
        match self {
            Error::BufferTooSmall { expected, actual } => "buffer too small: needed "@ + decimal(*expected as nat) + " bytes, had "@ + decimal(*actual as nat),
            Error::TooMany { field, value, max } => "too many "@ + (*field)@ + ": "@ + decimal(*value as nat) + " exceeds maximum "@ + decimal(*max as nat),
            Error::IndexOutOfRange { field, index, len } => "index "@ + decimal(*index as nat) + " out of range for "@ + (*field)@ + " (len "@ + decimal(*len as nat) + ")"@,
            Error::ValueOutOfRange { field, value, max } => "value "@ + decimal(*value as nat) + " out of range for "@ + (*field)@ + " (max "@ + decimal(*max as nat) + ")"@,
            Error::InvalidEnum { field, value } => "invalid discriminant "@ + decimal(*value as nat) + " for "@ + (*field)@,
        }
    }

    /// The human-readable description of the error.
    pub fn to_string(&self) -> (r: String)
        ensures
            r@ == self.message(),
    {
        let mut s = String::new();
        match self {
            Error::BufferTooSmall { expected, actual } => {
                push_str(&mut s, "buffer too small: needed ");
                push_decimal(&mut s, *expected as u64);
                push_str(&mut s, " bytes, had ");
                push_decimal(&mut s, *actual as u64);
            },
            Error::TooMany { field, value, max } => {
                push_str(&mut s, "too many ");
                push_str(&mut s, *field);
                push_str(&mut s, ": ");
                push_decimal(&mut s, *value as u64);
                push_str(&mut s, " exceeds maximum ");
                push_decimal(&mut s, *max as u64);
            },
            Error::IndexOutOfRange { field, index, len } => {
                push_str(&mut s, "index ");
                push_decimal(&mut s, *index as u64);
                push_str(&mut s, " out of range for ");
                push_str(&mut s, *field);
                push_str(&mut s, " (len ");
                push_decimal(&mut s, *len as u64);
                push_str(&mut s, ")");
            },
            Error::ValueOutOfRange { field, value, max } => {
                push_str(&mut s, "value ");
                push_decimal(&mut s, *value as u64);
                push_str(&mut s, " out of range for ");
                push_str(&mut s, *field);
                push_str(&mut s, " (max ");
                push_decimal(&mut s, *max as u64);
                push_str(&mut s, ")");
            },
            Error::InvalidEnum { field, value } => {
                push_str(&mut s, "invalid discriminant ");
                push_decimal(&mut s, *value as u64);
                push_str(&mut s, " for ");
                push_str(&mut s, *field);
            },
        }
        assert(s@ =~= self.message());
        s
    }
}

/// Status returned through the ABI entry points for a missing pointer or an
/// invalid value.
pub const RET_ERR_NULL: isize = -1;
/// Status returned through the ABI entry points for a destination or source
/// buffer that is too small.
pub const RET_ERR_BUFFER: isize = -2;

/// The negative status an ABI entry point reports for `e`: a buffer that is
/// too small is [`RET_ERR_BUFFER`], every other error [`RET_ERR_NULL`].
pub fn err_to_ret(e: &Error) -> (r: isize)
    ensures
        e is BufferTooSmall ==> r == RET_ERR_BUFFER,
        !(e is BufferTooSmall) ==> r == RET_ERR_NULL,
{
    match e {
        Error::BufferTooSmall { .. } => RET_ERR_BUFFER,
        _ => RET_ERR_NULL,
    }
}

/// Result alias used throughout the message layer.
pub type Result<T> = core::result::Result<T, Error>;

} // verus!
