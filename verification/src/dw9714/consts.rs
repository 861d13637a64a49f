//! Register, control and errno constants of the DW9714 driver.

use vstd::prelude::*;

verus! {

/// Maximum lens position (10-bit DAC).
pub const DW9714_MAX_FOCUS_POS: u16 = 1023;
/// Default mode/step nibble of the register word.
pub const VCM_DEFAULT_S: u16 = 0;
/// Lens positions moved per ramp step during power transitions.
pub const DW9714_CTRL_STEPS: u16 = 16;
/// Delay after each ramp step, in microseconds.
pub const DW9714_CTRL_DELAY_US: u32 = 1000;
/// The V4L2 absolute-focus control id.
pub const V4L2_CID_FOCUS_ABSOLUTE: u32 = 0x009a_090a;

/// Kernel errno: I/O error.
pub const EIO: i32 = 5;
/// Kernel errno: out of memory.
pub const ENOMEM: i32 = 12;
/// Kernel errno: no such device.
pub const ENODEV: i32 = 19;
/// Kernel errno: invalid argument.
pub const EINVAL: i32 = 22;

} // verus!
