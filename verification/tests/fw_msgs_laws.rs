//! Concrete instances of what the message layer promises for every input:
//! enum discriminants, the cfg bit packing, partial writes into short
//! buffers, queue routing and the error reporting.

use lib::fw_msgs::layout::INTEL_IPU4_STREAM_ID_MAX;
use lib::fw_msgs::{
    err_to_ret, message_queue_index, proxy_queue_index, Error, FrameBuffSet, IslUse, IsaConfig, IsysError, Marshal,
    ProxyError, Resolution, RespInfo, RespType, SendType, StreamCfgData, StreamHandle, RET_ERR_BUFFER,
    RET_ERR_NULL,
};

#[test]
fn enum_discriminants_round_trip_and_unknown_ones_are_rejected() {
    for v in 0u32..64 {
        match SendType::from_u32(v) {
            Ok(t) => assert_eq!(t.as_u32(), v),
            Err(e) => {
                assert!(v >= 7);
                assert_eq!(e, Error::InvalidEnum { field: "send_type", value: v });
            }
        }
        if let Ok(t) = RespType::from_u32(v) {
            assert_eq!(t.as_u32(), v);
        } else {
            assert!(matches!(RespType::from_u32(v), Err(Error::InvalidEnum { field: "resp_type", .. })));
        }
        if let Ok(t) = IslUse::from_u32(v) {
            assert_eq!(t.as_u32(), v);
        }
        if let Ok(t) = IsysError::from_u32(v) {
            assert_eq!(t.as_u32(), v);
        } else {
            assert!(matches!(IsysError::from_u32(v), Err(Error::InvalidEnum { field: "isys_error", .. })));
        }
        if let Ok(t) = ProxyError::from_u32(v) {
            assert_eq!(t.as_u32(), v);
        } else {
            assert!(matches!(ProxyError::from_u32(v), Err(Error::InvalidEnum { field: "proxy_error", .. })));
        }
    }
    assert_eq!(SendType::StreamClose.as_u32(), 6);
    assert_eq!(IsysError::NoError.as_u32(), 0);
    assert_eq!(ProxyError::NoError.as_u32(), 0);
}

fn cfg_with(bits: u32, paf: u8) -> IsaConfig {
    IsaConfig {
        isa_res: [Resolution::new(1, 2), Resolution::new(3, 4)],
        blc: bits & 1 != 0,
        lsc: bits & 2 != 0,
        dpc: bits & 4 != 0,
        downscaler: bits & 8 != 0,
        awb: bits & 16 != 0,
        af: bits & 32 != 0,
        ae: bits & 64 != 0,
        paf,
        send_irq_stats_ready: bits & 128 != 0,
        send_resp_stats_ready: bits & 256 != 0,
    }
}

#[test]
fn cfg_word_packs_flags_and_paf_and_unpacks_back() {
    for bits in 0u32..512 {
        for paf in [0u8, 1, 0x5a, 0xff] {
            let cfg = cfg_with(bits, paf);
            let bytes = cfg.serialize();
            // The cfg word follows the two resolutions.
            let word = u32::from_le_bytes([bytes[16], bytes[17], bytes[18], bytes[19]]);
            let expected = (bits & 0x7f) | ((paf as u32) << 7) | ((bits >> 7) & 1) << 15 | ((bits >> 8) & 1) << 16;
            assert_eq!(word, expected);
            assert_eq!(IsaConfig::deserialize(&bytes).unwrap(), cfg);
        }
    }
}

#[test]
fn short_buffer_receives_the_fields_that_fit() {
    let r = Resolution::new(0x0102_0304, 0x0506_0708);
    let mut buf = [0xEEu8; 6];
    // The width fits; the height would end at offset 8.
    assert_eq!(
        r.serialize_into(&mut buf),
        Err(Error::BufferTooSmall {
            expected: 8,
            actual: 6
        })
    );
    assert_eq!(buf, [0x04, 0x03, 0x02, 0x01, 0xEE, 0xEE]);

    let mut big = [0xEEu8; 10];
    assert_eq!(r.serialize_into(&mut big), Ok(8));
    assert_eq!(big, [0x04, 0x03, 0x02, 0x01, 0x08, 0x07, 0x06, 0x05, 0xEE, 0xEE]);
    assert_eq!(Resolution::deserialize(&big).unwrap(), r);
}

#[test]
fn queue_routing_is_offset_by_stream() {
    for s in 0..INTEL_IPU4_STREAM_ID_MAX as u8 {
        let h = StreamHandle::new(s).unwrap();
        assert_eq!(message_queue_index(h), message_queue_index(StreamHandle::new(0).unwrap()) + s as usize);
        assert!(proxy_queue_index() < message_queue_index(StreamHandle::new(0).unwrap()));
    }
}

#[test]
fn error_messages_name_the_field() {
    let cases = [
        (
            Error::BufferTooSmall {
                expected: 16,
                actual: 10,
            },
            "buffer too small: needed 16 bytes, had 10",
        ),
        (
            Error::TooMany {
                field: "input_pins",
                value: 5,
                max: 4,
            },
            "too many input_pins: 5 exceeds maximum 4",
        ),
        (
            Error::IndexOutOfRange {
                field: "output_pins",
                index: 9,
                len: 2,
            },
            "index 9 out of range for output_pins (len 2)",
        ),
        (
            Error::ValueOutOfRange {
                field: "stream_handle",
                value: 300,
                max: 7,
            },
            "value 300 out of range for stream_handle (max 7)",
        ),
        (
            Error::InvalidEnum {
                field: "send_type",
                value: 255,
            },
            "invalid discriminant 255 for send_type",
        ),
    ];
    for (err, text) in cases {
        assert_eq!(err.to_string(), text);
    }
}

#[test]
fn abi_status_codes_of_errors() {
    assert_eq!(RET_ERR_NULL, -1);
    assert_eq!(RET_ERR_BUFFER, -2);
    assert_eq!(err_to_ret(&Error::BufferTooSmall { expected: 8, actual: 6 }), -2);
    assert_eq!(err_to_ret(&Error::InvalidEnum { field: "send_type", value: 9 }), -1);
    assert_eq!(err_to_ret(&Error::TooMany { field: "input_pins", value: 5, max: 4 }), -1);
    assert_eq!(
        err_to_ret(&Error::IndexOutOfRange {
            field: "crop",
            index: 4,
            len: 4
        }),
        -1
    );
}

#[test]
fn short_buffers_are_too_small_before_any_field_is_checked() {
    // A bad isl_use byte inside a buffer one byte short of a stream config.
    let mut buf = vec![0u8; 291];
    buf[288] = 0xff;
    assert_eq!(
        StreamCfgData::deserialize(&buf),
        Err(Error::BufferTooSmall { expected: 292, actual: 291 })
    );
    // A bad isys_error and resp_type inside a short response.
    let mut buf = vec![0u8; 60];
    buf[40] = 0xff;
    buf[57] = 200;
    assert_eq!(
        RespInfo::deserialize(&buf),
        Err(Error::BufferTooSmall { expected: 64, actual: 60 })
    );
}

#[test]
fn bits_per_pixel_table_matches_lookup() {
    use_table();
}

fn use_table() {
    let table = lib::fw_msgs::EXTRACTED_BITS_PER_PIXEL_PER_MIPI_DATA_TYPE;
    assert_eq!(table.len(), 64);
    for dt in 0u8..64 {
        assert_eq!(table[dt as usize], lib::fw_msgs::bits_per_pixel(dt), "dt {:#x}", dt);
    }
    assert_eq!(table[0x2B], 10);
    assert_eq!(table[0x24], 24);
    assert_eq!(table[0x10], 0);
}

#[test]
fn stream_cfg_read_checks_isl_use_then_input_then_output_counts() {
    let mut buf = vec![0u8; StreamCfgData::SERIALIZED_SIZE];
    buf[280] = 9;
    buf[281] = 9;
    buf[288] = 3;
    assert_eq!(
        StreamCfgData::deserialize(&buf),
        Err(Error::InvalidEnum { field: "isl_use", value: 3 })
    );
    buf[288] = 2;
    assert_eq!(
        StreamCfgData::deserialize(&buf),
        Err(Error::TooMany { field: "nof_input_pins", value: 9, max: 4 })
    );
    buf[280] = 4;
    assert_eq!(
        StreamCfgData::deserialize(&buf),
        Err(Error::TooMany { field: "nof_output_pins", value: 9, max: 6 })
    );
    buf[281] = 6;
    buf[276..280].copy_from_slice(&0x1234_5678u32.to_le_bytes());
    let d = StreamCfgData::deserialize(&buf).unwrap();
    assert_eq!(d.input_pins.len(), 4);
    assert_eq!(d.output_pins.len(), 6);
    assert_eq!(d.compfmt, 0x1234_5678);
    assert_eq!(d.isl_use, IslUse::SingleIsa);
    assert_eq!(
        StreamCfgData::deserialize(&buf[..291]),
        Err(Error::BufferTooSmall { expected: 292, actual: 291 })
    );
}

#[test]
fn resp_info_read_checks_isys_error_then_resp_type() {
    let mut buf = vec![0u8; RespInfo::SERIALIZED_SIZE];
    buf[40..44].copy_from_slice(&13u32.to_le_bytes());
    buf[57] = 200;
    assert_eq!(RespInfo::deserialize(&buf), Err(Error::InvalidEnum { field: "isys_error", value: 13 }));
    buf[40..44].copy_from_slice(&12u32.to_le_bytes());
    assert_eq!(RespInfo::deserialize(&buf), Err(Error::InvalidEnum { field: "resp_type", value: 200 }));
    buf[57] = 17;
    buf[56] = 5;
    buf[58] = 3;
    let d = RespInfo::deserialize(&buf).unwrap();
    assert_eq!(d.stream_handle, 5);
    assert_eq!(d.pin_id, 3);
    assert_eq!(d.resp_type.as_u32(), 17);
    assert_eq!(d.error_info.error.as_u32(), 12);
    assert_eq!(RespInfo::deserialize(&buf[..63]), Err(Error::BufferTooSmall { expected: 64, actual: 63 }));
}

#[test]
fn frame_buff_set_reads_back_padded_to_every_slot() {
    let buf = vec![0u8; FrameBuffSet::SERIALIZED_SIZE];
    assert_eq!(FrameBuffSet::deserialize(&buf).unwrap().output_pins.len(), 6);
    assert_eq!(
        FrameBuffSet::deserialize(&buf[..119]),
        Err(Error::BufferTooSmall { expected: 120, actual: 119 })
    );
    let f = FrameBuffSet::default();
    let bytes = f.serialize();
    let g = FrameBuffSet::deserialize(&bytes).unwrap();
    assert_eq!(g.output_pins.len(), 6);
    assert_ne!(g, f);
    assert_eq!(g.serialize(), bytes);
}
