//! The serialized sizes of the message structures match the `sizeof` of the
//! kernel ABI structs.

use lib::fw_msgs::{
    Cropping, ErrorInfo, FrameBuffSet, InputPinInfo, IsaConfig, Marshal, OutputPinInfo,
    OutputPinPayload, ParamPin, ProxyErrorInfo, ProxyRespInfo, ProxySendQueueToken, Resolution,
    RespInfo, SendQueueToken, StreamCfgData,
};

#[test]
fn struct_sizes_match_c_abi() {
    assert_eq!(Resolution::SERIALIZED_SIZE, 8);
    assert_eq!(OutputPinPayload::SERIALIZED_SIZE, 16);
    assert_eq!(OutputPinInfo::SERIALIZED_SIZE, 24);
    assert_eq!(ParamPin::SERIALIZED_SIZE, 16);
    assert_eq!(InputPinInfo::SERIALIZED_SIZE, 12);
    assert_eq!(IsaConfig::SERIALIZED_SIZE, 20);
    assert_eq!(Cropping::SERIALIZED_SIZE, 16);
    assert_eq!(StreamCfgData::SERIALIZED_SIZE, 292);
    assert_eq!(FrameBuffSet::SERIALIZED_SIZE, 120);
    assert_eq!(ErrorInfo::SERIALIZED_SIZE, 8);
    assert_eq!(RespInfo::SERIALIZED_SIZE, 64);
    assert_eq!(ProxyErrorInfo::SERIALIZED_SIZE, 8);
    assert_eq!(ProxyRespInfo::SERIALIZED_SIZE, 12);
    assert_eq!(SendQueueToken::SERIALIZED_SIZE, 16);
    assert_eq!(ProxySendQueueToken::SERIALIZED_SIZE, 16);
}
