//! Concrete instances of what the firmware communication layer promises for
//! every input: FIFO order, the occupancy bound, the index arithmetic, the
//! shared-memory layout and the error reporting.

use std::collections::VecDeque;

use lib::fw_com::consts::{SYSCOM_COMMAND_UNINIT, SYSCOM_STATE_READY, SYSCOM_STATE_UNINIT};
use lib::fw_com::index::{inc_index, is_index_valid, num_free, num_messages};
use lib::fw_com::{
    serialize_token, Cell, FwComConfig, FwComContext, FwComError, MockCell, QueueConfig, SharedRing,
    SysQueue,
};

/// Drive a ring and a plain FIFO model with the same operations; every
/// outcome and every received token must agree.
#[test]
fn ring_behaves_as_a_bounded_fifo() {
    let mut ring = SharedRing::new(5, 2).unwrap();
    let mut model: VecDeque<[u8; 2]> = VecDeque::new();
    let capacity = ring.capacity() as usize;
    assert_eq!(capacity, 4);
    let mut next = 0u8;
    // A fixed pattern of sends (true) and receives (false) that fills,
    // drains and wraps the ring several times.
    let pattern = [
        true, true, true, true, true, false, false, true, false, true, true, true, false, false,
        false, false, false, true, false, true, true, false, true, true, true, true, true, false,
    ];
    for round in 0..20 {
        for &send in pattern.iter() {
            if send {
                let token = [next, round as u8];
                let r = ring.try_send(&token);
                if model.len() < capacity {
                    assert_eq!(r, Ok(()));
                    model.push_back(token);
                    next = next.wrapping_add(1);
                } else {
                    assert_eq!(r, Err(FwComError::QueueFull));
                }
            } else {
                let mut out = [0u8; 2];
                let r = ring.try_recv(&mut out);
                match model.pop_front() {
                    Some(expected) => {
                        assert_eq!(r, Ok(()));
                        assert_eq!(out, expected);
                    }
                    None => assert_eq!(r, Err(FwComError::QueueEmpty)),
                }
            }
            assert_eq!(ring.len() as usize, model.len());
            assert!(ring.len() <= ring.capacity());
            assert_eq!(ring.is_empty(), model.is_empty());
            assert_eq!(ring.is_full(), model.len() == capacity);
        }
    }
}

#[test]
fn peek_then_advance_equals_recv() {
    let mut a = SharedRing::new(3, 4).unwrap();
    let mut b = SharedRing::new(3, 4).unwrap();
    a.try_send(&[1, 2, 3, 4]).unwrap();
    a.try_send(&[5, 6, 7, 8]).unwrap();
    b.try_send(&[1, 2, 3, 4]).unwrap();
    b.try_send(&[5, 6, 7, 8]).unwrap();
    let mut peeked = [0u8; 4];
    a.peek_front(&mut peeked).unwrap();
    // Peeking does not consume.
    assert_eq!(a.len(), 2);
    a.advance_read().unwrap();
    let mut received = [0u8; 4];
    b.try_recv(&mut received).unwrap();
    assert_eq!(peeked, received);
    assert_eq!(a.len(), b.len());
    // Both now hold the second token.
    a.peek_front(&mut peeked).unwrap();
    assert_eq!(peeked, [5, 6, 7, 8]);
    // Advancing an empty ring is an error and changes nothing.
    a.advance_read().unwrap();
    assert_eq!(a.advance_read(), Err(FwComError::QueueEmpty));
    assert!(a.is_empty());
}

#[test]
fn index_arithmetic_laws() {
    for size in 1u32..=9 {
        for wr in 0..size {
            for rd in 0..size {
                let queued = num_messages(wr, rd, size);
                assert!(queued < size);
                assert_eq!(queued, (wr + size - rd) % size);
                assert_eq!(num_free(wr, rd, size) + queued, size);
            }
            let next = inc_index(wr, size);
            assert!(next < size);
            assert!(is_index_valid(next, size));
            assert_eq!(next, (wr + 1) % size);
        }
        assert!(!is_index_valid(size, size));
        // Corrupt indices at or past the end restart at zero.
        assert_eq!(inc_index(size, size), 0);
        assert_eq!(inc_index(u32::MAX, size), 0);
    }
}

#[test]
fn token_serialization_takes_exactly_one_slot() {
    assert_eq!(serialize_token(&[1, 2, 3], 3).unwrap(), vec![1, 2, 3]);
    assert_eq!(serialize_token(&[], 0).unwrap(), Vec::<u8>::new());
    assert_eq!(
        serialize_token(&[1, 2, 3], 6),
        Err(FwComError::TokenSizeMismatch {
            expected: 6,
            actual: 3
        })
    );
    assert_eq!(
        serialize_token(&[1, 2, 3], 2),
        Err(FwComError::TokenSizeMismatch {
            expected: 2,
            actual: 3
        })
    );
}

fn two_in_one_out() -> FwComConfig {
    FwComConfig {
        input: vec![
            QueueConfig {
                queue_size: 4,
                token_size: 8,
            },
            QueueConfig {
                queue_size: 2,
                token_size: 16,
            },
        ],
        output: vec![QueueConfig {
            queue_size: 3,
            token_size: 4,
        }],
        dmem_addr: 0x1000,
        specific: vec![1, 2, 3, 4, 5],
    }
}

#[test]
fn prepare_lays_out_the_shared_allocation() {
    let ctx = FwComContext::prepare(&two_in_one_out(), MockCell::new(true)).unwrap();

    let fw = ctx.config_fw();
    assert_eq!(fw.firmware_address, 0);
    assert_eq!(fw.num_input_queues, 2);
    assert_eq!(fw.num_output_queues, 1);
    // 28 bytes of configuration, rounded up to 8.
    assert_eq!(fw.input_queue, 32);
    // Two 32-byte input descriptors, then one output descriptor.
    assert_eq!(fw.output_queue, 96);
    assert_eq!(fw.specific_addr, 128);
    assert_eq!(fw.specific_size, 5);
    assert_eq!(ctx.specific(), &[1, 2, 3, 4, 5]);

    // Input buffers follow the specific blob; output buffers follow them.
    assert_eq!(
        ctx.input_descriptors(),
        &[
            SysQueue::init(0, 4, 8, 133, 133),
            SysQueue::init(1, 2, 16, 165, 165),
        ]
    );
    assert_eq!(ctx.output_descriptors(), &[SysQueue::init(2, 3, 4, 197, 197)]);
    assert_eq!(ctx.input_descriptors()[1].wr_reg, 6);
    assert_eq!(ctx.input_descriptors()[1].rd_reg, 7);
    assert_eq!(ctx.output_descriptors()[0].wr_reg, 8);
    assert_eq!(ctx.output_descriptors()[0].rd_reg, 9);

    // 32 + 2*32 + 32 + roundup(5, 8) + (32 + 32) + 12.
    assert_eq!(ctx.total_size(), 212);
    assert_eq!(ctx.num_input_queues(), 2);
    assert_eq!(ctx.num_output_queues(), 1);
    assert_eq!(ctx.input_token_size(1), Ok(16));
    assert_eq!(ctx.output_token_size(0), Ok(4));
    assert_eq!(
        ctx.output_token_size(1),
        Err(FwComError::QueueIndexOutOfRange { index: 1, count: 1 })
    );
    assert_eq!(ctx.state(), SYSCOM_STATE_UNINIT);
    assert_eq!(ctx.command(), SYSCOM_COMMAND_UNINIT);
}

#[test]
fn prepare_reports_the_first_misconfigured_queue() {
    let mut cfg = two_in_one_out();
    cfg.input[1].queue_size = 0;
    cfg.output[0].token_size = 0;
    assert!(matches!(
        FwComContext::prepare(&cfg, MockCell::new(true)),
        Err(FwComError::ZeroQueueSize)
    ));
    let mut cfg = two_in_one_out();
    cfg.output[0].token_size = 0;
    assert!(matches!(
        FwComContext::prepare(&cfg, MockCell::new(true)),
        Err(FwComError::ZeroTokenSize)
    ));
}

#[test]
fn prepare_rejects_an_allocation_that_overflows() {
    let cfg = FwComConfig {
        input: vec![
            QueueConfig {
                queue_size: 65536,
                token_size: 65536,
            },
            QueueConfig {
                queue_size: 1,
                token_size: 1,
            },
        ],
        output: vec![],
        dmem_addr: 0,
        specific: vec![],
    };
    assert!(matches!(
        FwComContext::prepare(&cfg, MockCell::new(true)),
        Err(FwComError::SizeOverflow)
    ));
    // The payload size of one queue saturates instead of wrapping.
    assert_eq!(cfg.input[0].token_queue_size(), u32::MAX);
    assert_eq!(cfg.input[1].token_queue_size(), 1);
}

#[test]
fn context_queues_are_fifo_per_direction() {
    let mut ctx = FwComContext::prepare(&two_in_one_out(), MockCell::new(true)).unwrap();
    ctx.send(1, &[7u8; 16]).unwrap();
    // Queue 1 holds queue_size - 1 = 1 token.
    assert_eq!(ctx.send(1, &[8u8; 16]), Err(FwComError::QueueFull));
    ctx.send(0, &[1u8; 8]).unwrap();
    ctx.send(0, &[2u8; 8]).unwrap();
    {
        let tok = ctx.send_get_token(0).unwrap();
        tok.commit();
    }
    let mut out = [0u8; 4];
    assert_eq!(ctx.recv(0, &mut out), Err(FwComError::QueueEmpty));
    assert_eq!(ctx.recv_peek(0, &mut out), Err(FwComError::QueueEmpty));
    assert_eq!(ctx.recv_advance(0), Err(FwComError::QueueEmpty));
    assert!(matches!(
        ctx.recv_get_token(3),
        Err(FwComError::QueueIndexOutOfRange { index: 3, count: 1 })
    ));
}

#[test]
fn lifecycle_follows_the_state_register() {
    let mut ctx = FwComContext::prepare(&two_in_one_out(), MockCell::new(true)).unwrap();
    ctx.open().unwrap();
    assert_eq!(ctx.state(), SYSCOM_STATE_UNINIT);
    assert_eq!(ctx.ready(), Err(FwComError::Busy));
    ctx.simulate_sp_state(SYSCOM_STATE_READY);
    assert_eq!(ctx.state(), SYSCOM_STATE_READY);
    assert_eq!(ctx.ready(), Ok(()));
    ctx.close().unwrap();
    // A ready cell lets the context go without force.
    ctx.release(false).unwrap();
}

#[test]
fn fw_com_error_messages_and_errnos() {
    let cases: Vec<(FwComError, &str, i32)> = vec![
        (FwComError::QueueFull, "send queue is full", -16),
        (FwComError::QueueEmpty, "receive queue is empty", -16),
        (
            FwComError::IndexOutOfRange { index: 9, size: 4 },
            "dmem index 9 out of range for queue size 4",
            -16,
        ),
        (
            FwComError::QueueIndexOutOfRange { index: 5, count: 1 },
            "queue index 5 out of range (have 1 queues)",
            -16,
        ),
        (
            FwComError::TokenSizeMismatch {
                expected: 8,
                actual: 3,
            },
            "token size mismatch: expected 8, got 3",
            -16,
        ),
        (FwComError::ZeroQueueSize, "queue_size must be non-zero", -16),
        (FwComError::ZeroTokenSize, "token_size must be non-zero", -16),
        (FwComError::SizeOverflow, "shared allocation size overflow", -16),
        (FwComError::CellNotReady, "firmware cell is not ready", -5),
        (FwComError::Busy, "syscom is busy / not ready", -16),
    ];
    for (err, text, errno) in cases {
        assert_eq!(err.to_string(), text);
        assert_eq!(err.to_errno(), errno);
    }
}

#[test]
fn mock_cell_records_readiness_and_start() {
    let mut cell = MockCell::new(false);
    assert!(!Cell::ready(&cell));
    assert!(!cell.was_started());
    cell.set_ready(true);
    assert!(Cell::ready(&cell));
    cell.start();
    assert!(cell.was_started());
}

#[test]
fn committed_send_tokens_queue_in_order_and_abandoned_ones_leave_no_trace() {
    let mut ring = SharedRing::new(3, 2).unwrap();
    for (i, d) in [[1u8, 2], [3, 4]].iter().enumerate() {
        let mut tok = ring.acquire_send().unwrap();
        tok.data_mut().copy_from_slice(d);
        tok.commit();
        assert_eq!(ring.len() as usize, i + 1);
    }
    assert_eq!(ring.acquire_send().err(), Some(FwComError::QueueFull));
    let mut out = [0u8; 2];
    ring.try_recv(&mut out).unwrap();
    assert_eq!(out, [1, 2]);
    {
        let mut tok = ring.acquire_send().unwrap();
        tok.data_mut().copy_from_slice(&[9, 9]);
    }
    assert_eq!(ring.len(), 1);
    ring.try_recv(&mut out).unwrap();
    assert_eq!(out, [3, 4]);
    assert!(ring.is_empty());
}
