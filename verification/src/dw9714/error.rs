//! Errors of the DW9714 driver, each with the negated kernel errno that
//! reports it to the V4L2 core.

use vstd::prelude::*;
use crate::text::{decimal, push_decimal, push_str};
use crate::dw9714::consts::{DW9714_MAX_FOCUS_POS, EINVAL, EIO, ENODEV, ENOMEM};

verus! {

/// Errors returned by the driver.
#[derive(Debug, Clone, Copy, PartialEq, Eq)]
#[non_exhaustive]
pub enum DW9714Error {
    /// The I2C transfer failed even after the single retry (`-EIO`).
    Io,
    /// An invalid argument, such as an unsupported control id (`-EINVAL`).
    InvalidArgument,
    /// Allocation failed (`-ENOMEM`).
    OutOfMemory,
    /// The underlying device is missing (`-ENODEV`).
    NoDevice,
    /// A lens position above the maximum (`-EINVAL`).
    PositionOutOfRange { requested: u16, max: u16 },
    /// Initialisation was attempted on an initialised device.
    AlreadyInitialized,
    /// An operation needing an initialised device came before it.
    NotInitialized,
}

impl DW9714Error {
    /// The human-readable description of the error.
    pub open spec fn message(&self) -> Seq<char> {
        match self {
            DW9714Error::Io => "i2c transfer failed"@,
            DW9714Error::InvalidArgument => "invalid argument"@,
            DW9714Error::OutOfMemory => "out of memory"@,
            DW9714Error::NoDevice => "no such device"@,
            DW9714Error::PositionOutOfRange { requested, max } => "lens position "@ + decimal(*requested as nat) + " out of range (max "@ + decimal(*max as nat) + ")"@,
            DW9714Error::AlreadyInitialized => "device already initialized"@,
            DW9714Error::NotInitialized => "device not initialized"@,
        }
    }

    /// The human-readable description of the error.
    pub fn to_string(&self) -> (r: String)
        ensures
            r@ == self.message(),
    {
        let mut s = String::new();
        match self {
            DW9714Error::Io => {
                push_str(&mut s, "i2c transfer failed");
            },
            DW9714Error::InvalidArgument => {
                push_str(&mut s, "invalid argument");
            },
            DW9714Error::OutOfMemory => {
                push_str(&mut s, "out of memory");
            },
            DW9714Error::NoDevice => {
                push_str(&mut s, "no such device");
            },
            DW9714Error::PositionOutOfRange { requested, max } => {
                push_str(&mut s, "lens position ");
                push_decimal(&mut s, *requested as u64);
                push_str(&mut s, " out of range (max ");
                push_decimal(&mut s, *max as u64);
                push_str(&mut s, ")");
            },
            DW9714Error::AlreadyInitialized => {
                push_str(&mut s, "device already initialized");
            },
            DW9714Error::NotInitialized => {
                push_str(&mut s, "device not initialized");
            },
        }
        assert(s@ =~= self.message());
        s
    }

    /// The negated kernel errno of the error: `-EIO` for I/O, `-ENOMEM`,
    /// `-ENODEV`, and `-EINVAL` for every argument or state error.
    pub fn to_errno(self) -> (r: i32)
        ensures
            r == (match self {
                DW9714Error::Io => -EIO,
                DW9714Error::OutOfMemory => -ENOMEM,
                DW9714Error::NoDevice => -ENODEV,
                _ => -EINVAL,
            }),
            r < 0,
    {
        match self {
            DW9714Error::Io => -EIO,
            DW9714Error::InvalidArgument | DW9714Error::PositionOutOfRange { .. } => -EINVAL,
            DW9714Error::OutOfMemory => -ENOMEM,
            DW9714Error::NoDevice => -ENODEV,
            DW9714Error::AlreadyInitialized | DW9714Error::NotInitialized => -EINVAL,
        }
    }
}

/// Result alias of the driver.
pub type Result<T> = core::result::Result<T, DW9714Error>;

/// The maximum lens position.
pub const MAX_FOCUS_POS: u16 = DW9714_MAX_FOCUS_POS;

} // verus!
