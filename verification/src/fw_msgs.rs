//! Marshaling of the IPU4 ISYS firmware messages: typed message structures,
//! their builders, and byte-exact serialization to and from the firmware ABI
//! layout.

pub mod bytes;
pub mod enums;
pub mod error;
pub mod frame_buff;
pub mod ids;
pub mod layout;
pub mod messages;
pub mod slots;
pub mod stream_cfg;
pub mod tables;

pub use enums::{IslUse, IsysError, ProxyError, RespType, SendType};
pub use error::{err_to_ret, Error, Result, RET_ERR_BUFFER, RET_ERR_NULL};
pub use frame_buff::{FrameBuffSet, FrameBuffSetBuilder};
pub use ids::{BufferId, CssVirtualAddress, InputPinId, OutputPinId, StreamHandle};
pub use messages::{
    message_queue_index, proxy_queue_index, Cropping, ErrorInfo, InputPinInfo, IsaConfig, Marshal,
    OutputPinInfo, OutputPinPayload, ParamPin, ProxyErrorInfo, ProxyRespInfo, ProxySendQueueToken,
    Resolution, RespInfo, SendQueueToken,
};
pub use stream_cfg::{StreamCfgBuilder, StreamCfgData};
pub use tables::{bits_per_pixel, EXTRACTED_BITS_PER_PIXEL_PER_MIPI_DATA_TYPE};
