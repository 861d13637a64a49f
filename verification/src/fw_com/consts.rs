//! Syscom register file and state values shared with the firmware.

use vstd::prelude::*;

verus! {

/// State register value: the SP has not initialised the syscom yet.
pub const SYSCOM_STATE_UNINIT: u32 = 0x57A7_E000;
/// State register value: the SP is ready to handle messages.
pub const SYSCOM_STATE_READY: u32 = 0x57A7_E001;
/// State register value: the SP has stopped handling messages.
pub const SYSCOM_STATE_INACTIVE: u32 = 0x57A7_E002;
/// Command register value: no command issued yet.
pub const SYSCOM_COMMAND_UNINIT: u32 = 0x57A7_F000;
/// Command register value: the host asks the SP to stop.
pub const SYSCOM_COMMAND_INACTIVE: u32 = 0x57A7_F001;

/// Dmem register of the package directory address.
pub const PKG_DIR_ADDR_REG: u32 = 0;
/// Dmem register of the syscom configuration address.
pub const SYSCOM_CONFIG_REG: u32 = 1;
/// Dmem register of the SP state.
pub const SYSCOM_STATE_REG: u32 = 2;
/// Dmem register of the host command.
pub const SYSCOM_COMMAND_REG: u32 = 3;
/// First dmem register of the queue pointer pairs.
pub const SYSCOM_QPR_BASE_REG: u32 = 4;

} // verus!
