//! ABI layout constants of the ISYS firmware messages: array capacities, queue
//! indices, and the serialized size of every message structure.

use vstd::prelude::*;

verus! {

pub const INTEL_IPU4_MAX_IPINS: usize = 4;
pub const INTEL_IPU4_MAX_OPINS: usize = INTEL_IPU4_MAX_IPINS + 2;
pub const INTEL_IPU4_STREAM_ID_MAX: usize = 8;
pub const N_IPU_FW_ISYS_RESOLUTION_INFO: usize = 2;
pub const N_IPU_FW_ISYS_CROPPING_LOCATION: usize = 4;
pub const N_IPU_FW_ISYS_MIPI_DATA_TYPE: usize = 0x40;

pub const ISYS_FW_NBR_QUEUES: usize = 2;
pub const ISYS_NBR_PROXY_QUEUES: usize = 1;
pub const ISYS_PROXY_INDEX: usize = 0;
pub const ISYS_MSG_INDEX: usize = 1;

pub const SIZEOF_RESOLUTION: usize = 8;
pub const SIZEOF_OUTPUT_PIN_PAYLOAD: usize = 16;
pub const SIZEOF_OUTPUT_PIN_INFO: usize = 24;
pub const SIZEOF_PARAM_PIN: usize = 16;
pub const SIZEOF_INPUT_PIN_INFO: usize = 12;
pub const SIZEOF_ISA_CFG: usize = 20;
pub const SIZEOF_CROPPING: usize = 16;
pub const SIZEOF_STREAM_CFG_DATA: usize = 292;
pub const SIZEOF_FRAME_BUFF_SET: usize = 120;
pub const SIZEOF_ERROR_INFO: usize = 8;
pub const SIZEOF_RESP_INFO: usize = 64;
pub const SIZEOF_PROXY_ERROR_INFO: usize = 8;
pub const SIZEOF_PROXY_RESP_INFO: usize = 12;
pub const SIZEOF_SEND_QUEUE_TOKEN: usize = 16;
pub const SIZEOF_PROXY_SEND_QUEUE_TOKEN: usize = 16;

} // verus!
