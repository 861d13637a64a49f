//! Driver logic of the DW9714 voice-coil-motor lens actuator: validated
//! position types, the bus abstraction with its record of hardware actions,
//! the device state machine with its ramp-down / ramp-up power sequences,
//! and an in-memory bus.

pub mod bus;
pub mod consts;
pub mod device;
pub mod error;
pub mod mock;
pub mod types;

pub use bus::{BusError, Dw9714Bus};
pub use device::{DeviceConfig, Dw9714, PowerGuard};
pub use error::{DW9714Error, Result, MAX_FOCUS_POS};
pub use types::{LensPosition, RegisterValue, VcmStep};
