//! Host side of the IPU4 firmware communication layer (syscom): token ring
//! buffers, the byte layout of the structures shared with the firmware, and
//! the context lifecycle.

pub mod consts;
pub mod error;
pub mod index;
pub mod ring;
pub mod serialize;
pub mod context;

pub use context::{Cell, FwComConfig, FwComContext, MockCell, QueueConfig};
pub use error::{FwComError, Result};
pub use ring::{RecvToken, SendToken, SharedRing};
pub use serialize::{serialize_token, SyscomConfigFw, SysQueue};
