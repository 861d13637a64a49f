//! Byte-level layout of the structures shared with the firmware.

use lib::fw_com::{serialize_token, SyscomConfigFw, SysQueue};

/// The little-endian bytes of the fields of a `struct sys_queue`, laid out
/// in ABI order (no padding).
fn sys_queue_c_bytes(q: &SysQueue) -> Vec<u8> {
    let mut v = Vec::new();
    v.extend_from_slice(&q.host_address.to_le_bytes());
    v.extend_from_slice(&q.vied_address.to_le_bytes());
    v.extend_from_slice(&q.size.to_le_bytes());
    v.extend_from_slice(&q.token_size.to_le_bytes());
    v.extend_from_slice(&q.wr_reg.to_le_bytes());
    v.extend_from_slice(&q.rd_reg.to_le_bytes());
    v.extend_from_slice(&q.align.to_le_bytes());
    v
}

/// The little-endian bytes of the fields of a `struct ia_css_syscom_config_fw`.
fn config_fw_c_bytes(c: &SyscomConfigFw) -> Vec<u8> {
    let mut v = Vec::new();
    for x in [
        c.firmware_address,
        c.num_input_queues,
        c.num_output_queues,
        c.input_queue,
        c.output_queue,
        c.specific_addr,
        c.specific_size,
    ] {
        v.extend_from_slice(&x.to_le_bytes());
    }
    v
}

#[test]
fn sys_queue_matches_golden_bytes() {
    let q = SysQueue {
        host_address: 0x0011_2233_4455_6677,
        vied_address: 0x8899_AABB,
        size: 0x0000_0004,
        token_size: 0x0000_0020,
        wr_reg: 0x0000_0004,
        rd_reg: 0x0000_0005,
        align: 0,
    };

    let golden: [u8; 32] = [
        0x77, 0x66, 0x55, 0x44, 0x33, 0x22, 0x11, 0x00, // host_address (u64 LE)
        0xBB, 0xAA, 0x99, 0x88, // vied_address
        0x04, 0x00, 0x00, 0x00, // size
        0x20, 0x00, 0x00, 0x00, // token_size
        0x04, 0x00, 0x00, 0x00, // wr_reg
        0x05, 0x00, 0x00, 0x00, // rd_reg
        0x00, 0x00, 0x00, 0x00, // _align
    ];

    assert_eq!(q.to_le_bytes(), golden, "serializer drifted from golden bytes");
}

#[test]
fn sys_queue_matches_ffi_struct_layout() {
    let q = SysQueue {
        host_address: 0xDEAD_BEEF_CAFE_F00D,
        vied_address: 0x1234_5678,
        size: 4,
        token_size: 32,
        wr_reg: 4,
        rd_reg: 5,
        align: 0,
    };
    assert_eq!(q.to_le_bytes().to_vec(), sys_queue_c_bytes(&q));
    assert_eq!(SysQueue::SERIALIZED_LEN, 32);
}

#[test]
fn config_fw_matches_golden_bytes() {
    let cfg = SyscomConfigFw {
        firmware_address: 0,
        num_input_queues: 2,
        num_output_queues: 3,
        input_queue: 0x20,
        output_queue: 0x60,
        specific_addr: 0xC0,
        specific_size: 16,
    };

    let golden: [u8; 28] = [
        0x00, 0x00, 0x00, 0x00, // firmware_address
        0x02, 0x00, 0x00, 0x00, // num_input_queues
        0x03, 0x00, 0x00, 0x00, // num_output_queues
        0x20, 0x00, 0x00, 0x00, // input_queue
        0x60, 0x00, 0x00, 0x00, // output_queue
        0xC0, 0x00, 0x00, 0x00, // specific_addr
        0x10, 0x00, 0x00, 0x00, // specific_size
    ];

    assert_eq!(cfg.to_le_bytes(), golden);
}

#[test]
fn config_fw_matches_ffi_struct_layout() {
    let cfg = SyscomConfigFw {
        firmware_address: 0xAABB_CCDD,
        num_input_queues: 2,
        num_output_queues: 3,
        input_queue: 0x20,
        output_queue: 0x60,
        specific_addr: 0xC0,
        specific_size: 16,
    };
    assert_eq!(cfg.to_le_bytes().to_vec(), config_fw_c_bytes(&cfg));
    assert_eq!(SyscomConfigFw::SERIALIZED_LEN, 28);
}

#[test]
fn token_serialization_round_trips() {
    let payload = [0xDEu8, 0xAD, 0xBE, 0xEF];
    let bytes = serialize_token(&payload, 4).unwrap();
    assert_eq!(bytes, payload.to_vec());
    // Mismatched size is rejected rather than truncating/overrunning.
    assert!(serialize_token(&payload, 8).is_err());
}

#[test]
fn sys_queue_layout_is_stable() {
    // u64 + 6 * u32 = 8 + 24 = 32 bytes, 8-byte aligned, no padding.
    assert_eq!(core::mem::size_of::<SysQueue>(), 32);
    assert_eq!(core::mem::align_of::<SysQueue>(), 8);
    assert_eq!(SysQueue::SERIALIZED_LEN, 32);
}

#[test]
fn config_fw_layout_is_stable() {
    // 7 * u32 = 28 bytes.
    assert_eq!(core::mem::size_of::<SyscomConfigFw>(), 28);
    assert_eq!(core::mem::align_of::<SyscomConfigFw>(), 4);
    assert_eq!(SyscomConfigFw::SERIALIZED_LEN, 28);
}

#[test]
fn queue_config_layout_is_stable() {
    assert_eq!(core::mem::size_of::<lib::fw_com::QueueConfig>(), 8);
}
