//! Verified host-side logic of Intel IPU4 camera components.

pub mod cpd;
pub mod dw9714;
pub mod fw_com;
pub mod fw_msgs;
pub mod text;
