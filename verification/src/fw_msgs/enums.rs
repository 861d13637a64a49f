//! Enumerations of the firmware ABI.
//!
//! Each variant has the discriminant of its ABI counterpart (its position in the
//! declaration) and is serialized as that number. Parsing an unknown
//! discriminant is an [`Error::InvalidEnum`].

use vstd::prelude::*;
use crate::fw_msgs::error::{Error, Result};

verus! {

/// `enum ipu_fw_isys_send_type` — command message kinds.
#[derive(Debug, Clone, Copy, PartialEq, Eq, Hash)]
pub enum SendType {
    StreamOpen,
    StreamStart,
    StreamStartAndCapture,
    StreamCapture,
    StreamStop,
    StreamFlush,
    StreamClose,
}

impl SendType {
    /// The ABI discriminant of a variant.
    pub open spec fn spec_as_u32(self) -> u32 {
        match self {
            SendType::StreamOpen => 0,
            SendType::StreamStart => 1,
            SendType::StreamStartAndCapture => 2,
            SendType::StreamCapture => 3,
            SendType::StreamStop => 4,
            SendType::StreamFlush => 5,
            SendType::StreamClose => 6,
        }
    }

    /// The variant with ABI discriminant `value`, if any.
    pub open spec fn spec_from_u32(value: u32) -> Result<Self> {
        if value == 0 {
            Ok(SendType::StreamOpen)
        } else if value == 1 {
            Ok(SendType::StreamStart)
        } else if value == 2 {
            Ok(SendType::StreamStartAndCapture)
        } else if value == 3 {
            Ok(SendType::StreamCapture)
        } else if value == 4 {
            Ok(SendType::StreamStop)
        } else if value == 5 {
            Ok(SendType::StreamFlush)
        } else if value == 6 {
            Ok(SendType::StreamClose)
        } else {
            Err(Error::InvalidEnum { field: "send_type", value })
        }
    }

    /// The raw ABI discriminant value.
    pub fn as_u32(self) -> (r: u32)
        ensures
            r == self.spec_as_u32(),
            r < 7,
    {
        match self {
            SendType::StreamOpen => 0,
            SendType::StreamStart => 1,
            SendType::StreamStartAndCapture => 2,
            SendType::StreamCapture => 3,
            SendType::StreamStop => 4,
            SendType::StreamFlush => 5,
            SendType::StreamClose => 6,
        }
    }

    /// Parse from a raw discriminant, rejecting unknown values.
    pub fn from_u32(value: u32) -> (r: Result<Self>)
        ensures
            r == Self::spec_from_u32(value),
            r matches Ok(v) ==> v.spec_as_u32() == value,
            r is Err <==> value >= 7,
    {
        match value {
            0 => Ok(SendType::StreamOpen),
            1 => Ok(SendType::StreamStart),
            2 => Ok(SendType::StreamStartAndCapture),
            3 => Ok(SendType::StreamCapture),
            4 => Ok(SendType::StreamStop),
            5 => Ok(SendType::StreamFlush),
            6 => Ok(SendType::StreamClose),
            _ => Err(Error::InvalidEnum { field: "send_type", value }),
        }
    }

    /// Every variant is recovered from its discriminant.
    pub broadcast proof fn lemma_from_as_u32(self)
        ensures
            #[trigger] Self::spec_from_u32(self.spec_as_u32()) == Ok::<Self, Error>(self),
    {
    }
}

/// `enum ipu_fw_isys_resp_type` — response message kinds.
#[derive(Debug, Clone, Copy, PartialEq, Eq, Hash)]
pub enum RespType {
    StreamOpenDone,
    StreamStartAck,
    StreamStartAndCaptureAck,
    StreamCaptureAck,
    StreamStopAck,
    StreamFlushAck,
    StreamCloseAck,
    PinDataReady,
    PinDataWatermark,
    FrameSof,
    FrameEof,
    StreamStartAndCaptureDone,
    StreamCaptureDone,
    PinDataSkipped,
    StreamCaptureSkipped,
    FrameSofDiscarded,
    FrameEofDiscarded,
    StatsDataReady,
}

impl RespType {
    /// The ABI discriminant of a variant.
    pub open spec fn spec_as_u32(self) -> u32 {
        match self {
            RespType::StreamOpenDone => 0,
            RespType::StreamStartAck => 1,
            RespType::StreamStartAndCaptureAck => 2,
            RespType::StreamCaptureAck => 3,
            RespType::StreamStopAck => 4,
            RespType::StreamFlushAck => 5,
            RespType::StreamCloseAck => 6,
            RespType::PinDataReady => 7,
            RespType::PinDataWatermark => 8,
            RespType::FrameSof => 9,
            RespType::FrameEof => 10,
            RespType::StreamStartAndCaptureDone => 11,
            RespType::StreamCaptureDone => 12,
            RespType::PinDataSkipped => 13,
            RespType::StreamCaptureSkipped => 14,
            RespType::FrameSofDiscarded => 15,
            RespType::FrameEofDiscarded => 16,
            RespType::StatsDataReady => 17,
        }
    }

    /// The variant with ABI discriminant `value`, if any.
    pub open spec fn spec_from_u32(value: u32) -> Result<Self> {
        if value == 0 {
            Ok(RespType::StreamOpenDone)
        } else if value == 1 {
            Ok(RespType::StreamStartAck)
        } else if value == 2 {
            Ok(RespType::StreamStartAndCaptureAck)
        } else if value == 3 {
            Ok(RespType::StreamCaptureAck)
        } else if value == 4 {
            Ok(RespType::StreamStopAck)
        } else if value == 5 {
            Ok(RespType::StreamFlushAck)
        } else if value == 6 {
            Ok(RespType::StreamCloseAck)
        } else if value == 7 {
            Ok(RespType::PinDataReady)
        } else if value == 8 {
            Ok(RespType::PinDataWatermark)
        } else if value == 9 {
            Ok(RespType::FrameSof)
        } else if value == 10 {
            Ok(RespType::FrameEof)
        } else if value == 11 {
            Ok(RespType::StreamStartAndCaptureDone)
        } else if value == 12 {
            Ok(RespType::StreamCaptureDone)
        } else if value == 13 {
            Ok(RespType::PinDataSkipped)
        } else if value == 14 {
            Ok(RespType::StreamCaptureSkipped)
        } else if value == 15 {
            Ok(RespType::FrameSofDiscarded)
        } else if value == 16 {
            Ok(RespType::FrameEofDiscarded)
        } else if value == 17 {
            Ok(RespType::StatsDataReady)
        } else {
            Err(Error::InvalidEnum { field: "resp_type", value })
        }
    }

    /// The raw ABI discriminant value.
    pub fn as_u32(self) -> (r: u32)
        ensures
            r == self.spec_as_u32(),
            r < 18,
    {
        match self {
            RespType::StreamOpenDone => 0,
            RespType::StreamStartAck => 1,
            RespType::StreamStartAndCaptureAck => 2,
            RespType::StreamCaptureAck => 3,
            RespType::StreamStopAck => 4,
            RespType::StreamFlushAck => 5,
            RespType::StreamCloseAck => 6,
            RespType::PinDataReady => 7,
            RespType::PinDataWatermark => 8,
            RespType::FrameSof => 9,
            RespType::FrameEof => 10,
            RespType::StreamStartAndCaptureDone => 11,
            RespType::StreamCaptureDone => 12,
            RespType::PinDataSkipped => 13,
            RespType::StreamCaptureSkipped => 14,
            RespType::FrameSofDiscarded => 15,
            RespType::FrameEofDiscarded => 16,
            RespType::StatsDataReady => 17,
        }
    }

    /// Parse from a raw discriminant, rejecting unknown values.
    pub fn from_u32(value: u32) -> (r: Result<Self>)
        ensures
            r == Self::spec_from_u32(value),
            r matches Ok(v) ==> v.spec_as_u32() == value,
            r is Err <==> value >= 18,
    {
        match value {
            0 => Ok(RespType::StreamOpenDone),
            1 => Ok(RespType::StreamStartAck),
            2 => Ok(RespType::StreamStartAndCaptureAck),
            3 => Ok(RespType::StreamCaptureAck),
            4 => Ok(RespType::StreamStopAck),
            5 => Ok(RespType::StreamFlushAck),
            6 => Ok(RespType::StreamCloseAck),
            7 => Ok(RespType::PinDataReady),
            8 => Ok(RespType::PinDataWatermark),
            9 => Ok(RespType::FrameSof),
            10 => Ok(RespType::FrameEof),
            11 => Ok(RespType::StreamStartAndCaptureDone),
            12 => Ok(RespType::StreamCaptureDone),
            13 => Ok(RespType::PinDataSkipped),
            14 => Ok(RespType::StreamCaptureSkipped),
            15 => Ok(RespType::FrameSofDiscarded),
            16 => Ok(RespType::FrameEofDiscarded),
            17 => Ok(RespType::StatsDataReady),
            _ => Err(Error::InvalidEnum { field: "resp_type", value }),
        }
    }

    /// Every variant is recovered from its discriminant.
    pub broadcast proof fn lemma_from_as_u32(self)
        ensures
            #[trigger] Self::spec_from_u32(self.spec_as_u32()) == Ok::<Self, Error>(self),
    {
    }
}

/// `enum ipu_fw_isys_isl_use` — ISL/ISA usage of a stream.
#[derive(Debug, Clone, Copy, PartialEq, Eq, Hash)]
pub enum IslUse {
    NoIslNoIsa,
    SingleDualIsl,
    SingleIsa,
}

impl IslUse {
    /// The ABI discriminant of a variant.
    pub open spec fn spec_as_u32(self) -> u32 {
        match self {
            IslUse::NoIslNoIsa => 0,
            IslUse::SingleDualIsl => 1,
            IslUse::SingleIsa => 2,
        }
    }

    /// The variant with ABI discriminant `value`, if any.
    pub open spec fn spec_from_u32(value: u32) -> Result<Self> {
        if value == 0 {
            Ok(IslUse::NoIslNoIsa)
        } else if value == 1 {
            Ok(IslUse::SingleDualIsl)
        } else if value == 2 {
            Ok(IslUse::SingleIsa)
        } else {
            Err(Error::InvalidEnum { field: "isl_use", value })
        }
    }

    /// The raw ABI discriminant value.
    pub fn as_u32(self) -> (r: u32)
        ensures
            r == self.spec_as_u32(),
            r < 3,
    {
        match self {
            IslUse::NoIslNoIsa => 0,
            IslUse::SingleDualIsl => 1,
            IslUse::SingleIsa => 2,
        }
    }

    /// Parse from a raw discriminant, rejecting unknown values.
    pub fn from_u32(value: u32) -> (r: Result<Self>)
        ensures
            r == Self::spec_from_u32(value),
            r matches Ok(v) ==> v.spec_as_u32() == value,
            r is Err <==> value >= 3,
    {
        match value {
            0 => Ok(IslUse::NoIslNoIsa),
            1 => Ok(IslUse::SingleDualIsl),
            2 => Ok(IslUse::SingleIsa),
            _ => Err(Error::InvalidEnum { field: "isl_use", value }),
        }
    }

    /// Every variant is recovered from its discriminant.
    pub broadcast proof fn lemma_from_as_u32(self)
        ensures
            #[trigger] Self::spec_from_u32(self.spec_as_u32()) == Ok::<Self, Error>(self),
    {
    }
}

/// `enum ipu_fw_isys_error` — firmware-reported error codes.
#[derive(Debug, Clone, Copy, PartialEq, Eq, Hash)]
pub enum IsysError {
    NoError,
    FwInternalConsistency,
    HwConsistency,
    DriverInvalidCommandSequence,
    DriverInvalidDeviceConfiguration,
    DriverInvalidStreamConfiguration,
    DriverInvalidFrameConfiguration,
    InsufficientResources,
    HwReportedStr2mmio,
    HwReportedSig2cio,
    SensorFwSync,
    StreamInSuspension,
    ResponseQueueFull,
}

impl IsysError {
    /// The ABI discriminant of a variant.
    pub open spec fn spec_as_u32(self) -> u32 {
        match self {
            IsysError::NoError => 0,
            IsysError::FwInternalConsistency => 1,
            IsysError::HwConsistency => 2,
            IsysError::DriverInvalidCommandSequence => 3,
            IsysError::DriverInvalidDeviceConfiguration => 4,
            IsysError::DriverInvalidStreamConfiguration => 5,
            IsysError::DriverInvalidFrameConfiguration => 6,
            IsysError::InsufficientResources => 7,
            IsysError::HwReportedStr2mmio => 8,
            IsysError::HwReportedSig2cio => 9,
            IsysError::SensorFwSync => 10,
            IsysError::StreamInSuspension => 11,
            IsysError::ResponseQueueFull => 12,
        }
    }

    /// The variant with ABI discriminant `value`, if any.
    pub open spec fn spec_from_u32(value: u32) -> Result<Self> {
        if value == 0 {
            Ok(IsysError::NoError)
        } else if value == 1 {
            Ok(IsysError::FwInternalConsistency)
        } else if value == 2 {
            Ok(IsysError::HwConsistency)
        } else if value == 3 {
            Ok(IsysError::DriverInvalidCommandSequence)
        } else if value == 4 {
            Ok(IsysError::DriverInvalidDeviceConfiguration)
        } else if value == 5 {
            Ok(IsysError::DriverInvalidStreamConfiguration)
        } else if value == 6 {
            Ok(IsysError::DriverInvalidFrameConfiguration)
        } else if value == 7 {
            Ok(IsysError::InsufficientResources)
        } else if value == 8 {
            Ok(IsysError::HwReportedStr2mmio)
        } else if value == 9 {
            Ok(IsysError::HwReportedSig2cio)
        } else if value == 10 {
            Ok(IsysError::SensorFwSync)
        } else if value == 11 {
            Ok(IsysError::StreamInSuspension)
        } else if value == 12 {
            Ok(IsysError::ResponseQueueFull)
        } else {
            Err(Error::InvalidEnum { field: "isys_error", value })
        }
    }

    /// The raw ABI discriminant value.
    pub fn as_u32(self) -> (r: u32)
        ensures
            r == self.spec_as_u32(),
            r < 13,
    {
        match self {
            IsysError::NoError => 0,
            IsysError::FwInternalConsistency => 1,
            IsysError::HwConsistency => 2,
            IsysError::DriverInvalidCommandSequence => 3,
            IsysError::DriverInvalidDeviceConfiguration => 4,
            IsysError::DriverInvalidStreamConfiguration => 5,
            IsysError::DriverInvalidFrameConfiguration => 6,
            IsysError::InsufficientResources => 7,
            IsysError::HwReportedStr2mmio => 8,
            IsysError::HwReportedSig2cio => 9,
            IsysError::SensorFwSync => 10,
            IsysError::StreamInSuspension => 11,
            IsysError::ResponseQueueFull => 12,
        }
    }

    /// Parse from a raw discriminant, rejecting unknown values.
    pub fn from_u32(value: u32) -> (r: Result<Self>)
        ensures
            r == Self::spec_from_u32(value),
            r matches Ok(v) ==> v.spec_as_u32() == value,
            r is Err <==> value >= 13,
    {
        match value {
            0 => Ok(IsysError::NoError),
            1 => Ok(IsysError::FwInternalConsistency),
            2 => Ok(IsysError::HwConsistency),
            3 => Ok(IsysError::DriverInvalidCommandSequence),
            4 => Ok(IsysError::DriverInvalidDeviceConfiguration),
            5 => Ok(IsysError::DriverInvalidStreamConfiguration),
            6 => Ok(IsysError::DriverInvalidFrameConfiguration),
            7 => Ok(IsysError::InsufficientResources),
            8 => Ok(IsysError::HwReportedStr2mmio),
            9 => Ok(IsysError::HwReportedSig2cio),
            10 => Ok(IsysError::SensorFwSync),
            11 => Ok(IsysError::StreamInSuspension),
            12 => Ok(IsysError::ResponseQueueFull),
            _ => Err(Error::InvalidEnum { field: "isys_error", value }),
        }
    }

    /// Every variant is recovered from its discriminant.
    pub broadcast proof fn lemma_from_as_u32(self)
        ensures
            #[trigger] Self::spec_from_u32(self.spec_as_u32()) == Ok::<Self, Error>(self),
    {
    }
}

/// `enum ipu_fw_proxy_error` — proxy-write error codes.
#[derive(Debug, Clone, Copy, PartialEq, Eq, Hash)]
pub enum ProxyError {
    NoError,
    InvalidWriteRegion,
    InvalidWriteOffset,
}

impl ProxyError {
    /// The ABI discriminant of a variant.
    pub open spec fn spec_as_u32(self) -> u32 {
        match self {
            ProxyError::NoError => 0,
            ProxyError::InvalidWriteRegion => 1,
            ProxyError::InvalidWriteOffset => 2,
        }
    }

    /// The variant with ABI discriminant `value`, if any.
    pub open spec fn spec_from_u32(value: u32) -> Result<Self> {
        if value == 0 {
            Ok(ProxyError::NoError)
        } else if value == 1 {
            Ok(ProxyError::InvalidWriteRegion)
        } else if value == 2 {
            Ok(ProxyError::InvalidWriteOffset)
        } else {
            Err(Error::InvalidEnum { field: "proxy_error", value })
        }
    }

    /// The raw ABI discriminant value.
    pub fn as_u32(self) -> (r: u32)
        ensures
            r == self.spec_as_u32(),
            r < 3,
    {
        match self {
            ProxyError::NoError => 0,
            ProxyError::InvalidWriteRegion => 1,
            ProxyError::InvalidWriteOffset => 2,
        }
    }

    /// Parse from a raw discriminant, rejecting unknown values.
    pub fn from_u32(value: u32) -> (r: Result<Self>)
        ensures
            r == Self::spec_from_u32(value),
            r matches Ok(v) ==> v.spec_as_u32() == value,
            r is Err <==> value >= 3,
    {
        match value {
            0 => Ok(ProxyError::NoError),
            1 => Ok(ProxyError::InvalidWriteRegion),
            2 => Ok(ProxyError::InvalidWriteOffset),
            _ => Err(Error::InvalidEnum { field: "proxy_error", value }),
        }
    }

    /// Every variant is recovered from its discriminant.
    pub broadcast proof fn lemma_from_as_u32(self)
        ensures
            #[trigger] Self::spec_from_u32(self.spec_as_u32()) == Ok::<Self, Error>(self),
    {
    }
}

/// Every variant of every ABI enum is recovered from its discriminant.
pub broadcast group group_enum_roundtrip {
    SendType::lemma_from_as_u32,
    RespType::lemma_from_as_u32,
    IslUse::lemma_from_as_u32,
    IsysError::lemma_from_as_u32,
    ProxyError::lemma_from_as_u32,
}

/// The ABI discriminant of every variant, as the firmware interface numbers
/// them.
pub proof fn lemma_abi_discriminants()
    ensures
        SendType::StreamOpen.spec_as_u32() == 0,
        SendType::StreamStart.spec_as_u32() == 1,
        SendType::StreamStartAndCapture.spec_as_u32() == 2,
        SendType::StreamCapture.spec_as_u32() == 3,
        SendType::StreamStop.spec_as_u32() == 4,
        SendType::StreamFlush.spec_as_u32() == 5,
        SendType::StreamClose.spec_as_u32() == 6,
        RespType::StreamOpenDone.spec_as_u32() == 0,
        RespType::StreamStartAck.spec_as_u32() == 1,
        RespType::StreamStartAndCaptureAck.spec_as_u32() == 2,
        RespType::StreamCaptureAck.spec_as_u32() == 3,
        RespType::StreamStopAck.spec_as_u32() == 4,
        RespType::StreamFlushAck.spec_as_u32() == 5,
        RespType::StreamCloseAck.spec_as_u32() == 6,
        RespType::PinDataReady.spec_as_u32() == 7,
        RespType::PinDataWatermark.spec_as_u32() == 8,
        RespType::FrameSof.spec_as_u32() == 9,
        RespType::FrameEof.spec_as_u32() == 10,
        RespType::StreamStartAndCaptureDone.spec_as_u32() == 11,
        RespType::StreamCaptureDone.spec_as_u32() == 12,
        RespType::PinDataSkipped.spec_as_u32() == 13,
        RespType::StreamCaptureSkipped.spec_as_u32() == 14,
        RespType::FrameSofDiscarded.spec_as_u32() == 15,
        RespType::FrameEofDiscarded.spec_as_u32() == 16,
        RespType::StatsDataReady.spec_as_u32() == 17,
        IslUse::NoIslNoIsa.spec_as_u32() == 0,
        IslUse::SingleDualIsl.spec_as_u32() == 1,
        IslUse::SingleIsa.spec_as_u32() == 2,
        IsysError::NoError.spec_as_u32() == 0,
        IsysError::FwInternalConsistency.spec_as_u32() == 1,
        IsysError::HwConsistency.spec_as_u32() == 2,
        IsysError::DriverInvalidCommandSequence.spec_as_u32() == 3,
        IsysError::DriverInvalidDeviceConfiguration.spec_as_u32() == 4,
        IsysError::DriverInvalidStreamConfiguration.spec_as_u32() == 5,
        IsysError::DriverInvalidFrameConfiguration.spec_as_u32() == 6,
        IsysError::InsufficientResources.spec_as_u32() == 7,
        IsysError::HwReportedStr2mmio.spec_as_u32() == 8,
        IsysError::HwReportedSig2cio.spec_as_u32() == 9,
        IsysError::SensorFwSync.spec_as_u32() == 10,
        IsysError::StreamInSuspension.spec_as_u32() == 11,
        IsysError::ResponseQueueFull.spec_as_u32() == 12,
        ProxyError::NoError.spec_as_u32() == 0,
        ProxyError::InvalidWriteRegion.spec_as_u32() == 1,
        ProxyError::InvalidWriteOffset.spec_as_u32() == 2,
{
}

} // verus!
