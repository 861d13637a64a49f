//! Context lifecycle and routing.

use lib::fw_com::consts::{SYSCOM_COMMAND_INACTIVE, SYSCOM_STATE_READY};
use lib::fw_com::{FwComConfig, FwComContext, FwComError, MockCell, QueueConfig};

fn basic_config() -> FwComConfig {
    FwComConfig {
        input: vec![QueueConfig {
            queue_size: 4,
            token_size: 8,
        }],
        output: vec![QueueConfig {
            queue_size: 4,
            token_size: 8,
        }],
        dmem_addr: 0,
        specific: vec![1, 2, 3, 4],
    }
}

#[test]
fn lifecycle_open_ready_close() {
    let cell = Box::new(MockCell::new(true));
    let mut ctx = FwComContext::prepare(&basic_config(), cell).unwrap();

    // open() succeeds when the cell is ready and starts the cell.
    ctx.open().unwrap();

    // ready()/close() require the SP to have published READY.
    assert_eq!(ctx.ready(), Err(FwComError::Busy));
    assert_eq!(ctx.close(), Err(FwComError::Busy));

    ctx.simulate_sp_state(SYSCOM_STATE_READY);
    ctx.ready().unwrap();
    ctx.close().unwrap();
    assert_eq!(ctx.command(), SYSCOM_COMMAND_INACTIVE);

    // Release after force succeeds and consumes the context.
    ctx.release(true).unwrap();
}

#[test]
fn open_fails_when_cell_not_ready() {
    let cell = Box::new(MockCell::new(false));
    let mut ctx = FwComContext::prepare(&basic_config(), cell).unwrap();
    assert_eq!(ctx.open(), Err(FwComError::CellNotReady));
}

#[test]
fn release_without_force_blocks_when_cell_busy() {
    let cell = Box::new(MockCell::new(false));
    let ctx = FwComContext::prepare(&basic_config(), cell).unwrap();
    assert_eq!(ctx.release(false), Err(FwComError::Busy));
}

#[test]
fn context_send_recv_roundtrip() {
    let cell = Box::new(MockCell::new(true));
    let mut ctx = FwComContext::prepare(&basic_config(), cell).unwrap();
    ctx.send(0, &[1, 2, 3, 4, 5, 6, 7, 8]).unwrap();
    let mut out = [0u8; 8];
    // Input and output are independent queues: what was sent on the input
    // queue is not received from the output queue.
    assert_eq!(ctx.recv(0, &mut out), Err(FwComError::QueueEmpty));
}

#[test]
fn malformed_inputs_are_rejected() {
    let cell = Box::new(MockCell::new(true));
    let mut ctx = FwComContext::prepare(&basic_config(), cell).unwrap();

    // Out-of-range queue index.
    assert_eq!(
        ctx.send(5, &[0u8; 8]),
        Err(FwComError::QueueIndexOutOfRange { index: 5, count: 1 })
    );
    // Wrong token size.
    assert_eq!(
        ctx.send(0, &[0u8; 3]),
        Err(FwComError::TokenSizeMismatch {
            expected: 8,
            actual: 3
        })
    );
}

#[test]
fn prepare_rejects_zero_sized_queue() {
    let mut cfg = basic_config();
    cfg.input[0].token_size = 0;
    let cell = Box::new(MockCell::new(true));
    assert!(matches!(
        FwComContext::prepare(&cfg, cell),
        Err(FwComError::ZeroTokenSize)
    ));
}
