//! The firmware communication context: its queues, the layout of the shared
//! memory handed to the firmware, and the prepare / open / ready / close /
//! release lifecycle.
//!
//! The context owns its queues and buffers. The offsets of the single shared
//! allocation (configuration, queue descriptors, specific blob, queue
//! buffers) are computed exactly as the firmware expects to find them.

use vstd::prelude::*;
use crate::fw_com::consts::{
    SYSCOM_COMMAND_INACTIVE, SYSCOM_COMMAND_UNINIT, SYSCOM_STATE_READY, SYSCOM_STATE_UNINIT,
};
use crate::fw_com::error::{FwComError, Result};
use crate::fw_com::ring::{counter_add, recv_outcome, send_outcome, RecvToken, RingState, SendToken, SharedRing};
use crate::fw_com::serialize::{spec_sys_queue_init, SysQueue, SyscomConfigFw};

verus! {

/// Per-queue configuration (`struct ia_css_syscom_queue_config`).
#[derive(Debug, Clone, Copy, PartialEq, Eq)]
pub struct QueueConfig {
    /// Tokens per queue.
    pub queue_size: u32,
    /// Bytes per token.
    pub token_size: u32,
}

/// Payload bytes of a queue, saturating at `u32::MAX`.
pub open spec fn spec_token_queue_size(q: QueueConfig) -> u32 {
    if q.queue_size * q.token_size > u32::MAX {
        u32::MAX
    } else {
        (q.queue_size * q.token_size) as u32
    }
}

impl QueueConfig {
    /// Total payload bytes of this queue (`token_queue_size()`), saturating.
    pub fn token_queue_size(&self) -> (r: u32)
        ensures
            r == spec_token_queue_size(*self),
    {
        match self.queue_size.checked_mul(self.token_size) {
            Some(v) => v,
            None => u32::MAX,
        }
    }
}

/// Configuration of a context (`struct intel_ipu4_fw_com_cfg`).
#[derive(Debug, Clone, Default)]
pub struct FwComConfig {
    /// Host-to-SP (input) queues.
    pub input: Vec<QueueConfig>,
    /// SP-to-host (output) queues.
    pub output: Vec<QueueConfig>,
    /// Dmem base offset of the register file (informational).
    pub dmem_addr: u32,
    /// Firmware-specific configuration blob.
    pub specific: Vec<u8>,
}

/// The firmware cell (SP): real hardware, or a stand-in.
///
/// Whether the cell is ready is the cell's own answer; the context's
/// contracts speak of it through `call_ensures` of [`Cell::ready`].
pub trait Cell {
    /// Whether the SP is in a valid state (`cell_ready`).
    fn ready(&self) -> bool;

    /// Whether the SP has been started.
    spec fn started(&self) -> bool;

    /// Start the SP (`cell_start`).
    fn start(&mut self)
        ensures
            final(self).started(),
    ;
}

impl<C: Cell> Cell for Box<C> {
    /// What the boxed cell answers.
    fn ready(&self) -> (r: bool)
        ensures
            call_ensures(C::ready, (&**self,), r),
    {
        (**self).ready()
    }

    closed spec fn started(&self) -> bool {
        (**self).started()
    }

    /// Start the boxed cell.
    fn start(&mut self) {
        (**self).start()
    }
}

/// `value` rounded up to a multiple of `align`.
pub open spec fn spec_roundup(value: int, align: int) -> int {
    ((value + align - 1) / align) * align
}

/// Round `value` up to a multiple of `align` (the kernel `roundup()`).
fn roundup(value: u32, align: u32) -> (r: u32)
    requires
        align > 0,
        spec_roundup(value as int, align as int) <= u32::MAX,
    ensures
        r == spec_roundup(value as int, align as int),
{
    let q: u64 = (value as u64 + align as u64 - 1) / align as u64;
    (q * align as u64) as u32
}

/// The configuration error of one queue: a zero queue size, else a zero token size.
pub open spec fn queue_error(q: QueueConfig) -> Option<FwComError> {
    if q.queue_size == 0 {
        Some(FwComError::ZeroQueueSize)
    } else if q.token_size == 0 {
        Some(FwComError::ZeroTokenSize)
    } else {
        None
    }
}

/// The error of the first misconfigured queue of `qs`, if any.
pub open spec fn zero_size_error(qs: Seq<QueueConfig>) -> Option<FwComError>
    decreases qs.len(),
{
    if qs.len() == 0 {
        None
    } else {
        match zero_size_error(qs.drop_last()) {
            Some(e) => Some(e),
            None => queue_error(qs.last()),
        }
    }
}

/// Payload bytes of the queues `qs`.
pub open spec fn queues_bytes(qs: Seq<QueueConfig>) -> int
    decreases qs.len(),
{
    if qs.len() == 0 {
        0
    } else {
        queues_bytes(qs.drop_last()) + spec_token_queue_size(qs.last())
    }
}

/// Size of a serialized queue descriptor.
pub open spec fn descriptor_size() -> int {
    32
}

/// Where the input descriptors start: right after the syscom configuration,
/// rounded up to 8 bytes.
pub open spec fn input_queue_addr() -> int {
    spec_roundup(28, 8)
}

/// Where the output descriptors start.
pub open spec fn output_queue_addr(cfg: FwComConfig) -> int {
    input_queue_addr() + descriptor_size() * cfg.input@.len()
}

/// Where the firmware-specific blob starts.
pub open spec fn specific_addr(cfg: FwComConfig) -> int {
    output_queue_addr(cfg) + descriptor_size() * cfg.output@.len()
}

/// Where the input queue buffers start: right after the specific blob.
pub open spec fn ibuf_addr(cfg: FwComConfig) -> int {
    specific_addr(cfg) + cfg.specific@.len()
}

/// Where the output queue buffers start: right after the input buffers.
pub open spec fn obuf_addr(cfg: FwComConfig) -> int {
    ibuf_addr(cfg) + queues_bytes(cfg.input@)
}

/// Size of the shared allocation: configuration, descriptors, the specific
/// blob rounded up to 8 bytes, and all queue buffers.
pub open spec fn total_size(cfg: FwComConfig) -> int {
    input_queue_addr() + descriptor_size() * cfg.input@.len() + descriptor_size() * cfg.output@.len()
        + spec_roundup(cfg.specific@.len() as int, 8) + queues_bytes(cfg.input@) + queues_bytes(cfg.output@)
}

/// The descriptor of input queue `i`: dmem position `i`, buffer at the input
/// buffers plus the bytes of the queues before it.
pub open spec fn input_descriptor(cfg: FwComConfig, i: int) -> SysQueue {
    let q = cfg.input@[i];
    let addr = ibuf_addr(cfg) + queues_bytes(cfg.input@.take(i));
    spec_sys_queue_init(i as u32, q.queue_size, q.token_size, addr as u64, addr as u32)
}

/// The descriptor of output queue `j`: dmem position after all input queues,
/// buffer at the output buffers plus the bytes of the queues before it.
pub open spec fn output_descriptor(cfg: FwComConfig, j: int) -> SysQueue {
    let q = cfg.output@[j];
    let addr = obuf_addr(cfg) + queues_bytes(cfg.output@.take(j));
    spec_sys_queue_init((cfg.input@.len() + j) as u32, q.queue_size, q.token_size, addr as u64, addr as u32)
}

/// The syscom configuration handed to the firmware.
pub open spec fn config_fw_of(cfg: FwComConfig) -> SyscomConfigFw {
    SyscomConfigFw {
        firmware_address: 0,
        num_input_queues: cfg.input@.len() as u32,
        num_output_queues: cfg.output@.len() as u32,
        input_queue: input_queue_addr() as u32,
        output_queue: output_queue_addr(cfg) as u32,
        specific_addr: specific_addr(cfg) as u32,
        specific_size: cfg.specific@.len() as u32,
    }
}

/// An empty queue with zero-filled slots.
pub open spec fn fresh_ring(q: QueueConfig) -> RingState {
    RingState {
        queue_size: q.queue_size,
        token_size: q.token_size,
        wr: 0,
        rd: 0,
        slots: Seq::new(q.queue_size as nat, |i: int| Seq::new(q.token_size as nat, |j: int| 0u8)),
    }
}

/// The state of a context.
#[verifier::ext_equal]
pub struct ContextState<C> {
    pub inputs: Seq<RingState>,
    pub outputs: Seq<RingState>,
    pub input_descriptors: Seq<SysQueue>,
    pub output_descriptors: Seq<SysQueue>,
    pub config_fw: SyscomConfigFw,
    pub specific: Seq<u8>,
    pub total_size: u32,
    /// The SP-owned state register.
    pub state: u32,
    /// The host-owned command register.
    pub command: u32,
    pub cell: C,
}

impl<C> ContextState<C> {
    /// Every queue is well formed.
    pub open spec fn wf(self) -> bool {
        &&& forall|i: int| 0 <= i < self.inputs.len() ==> (#[trigger] self.inputs[i]).wf()
        &&& forall|i: int| 0 <= i < self.outputs.len() ==> (#[trigger] self.outputs[i]).wf()
    }
}

/// The context freshly prepared from `cfg` with `cell`.
pub open spec fn prepared_state<C>(cfg: FwComConfig, cell: C) -> ContextState<C> {
    ContextState {
        inputs: Seq::new(cfg.input@.len(), |i: int| fresh_ring(cfg.input@[i])),
        outputs: Seq::new(cfg.output@.len(), |j: int| fresh_ring(cfg.output@[j])),
        input_descriptors: Seq::new(cfg.input@.len(), |i: int| input_descriptor(cfg, i)),
        output_descriptors: Seq::new(cfg.output@.len(), |j: int| output_descriptor(cfg, j)),
        config_fw: config_fw_of(cfg),
        specific: cfg.specific@,
        total_size: total_size(cfg) as u32,
        state: SYSCOM_STATE_UNINIT,
        command: SYSCOM_COMMAND_UNINIT,
        cell,
    }
}

/// Firmware communication context.
pub struct FwComContext<C: Cell> {
    input_queues: Vec<SharedRing>,
    output_queues: Vec<SharedRing>,
    input_descriptors: Vec<SysQueue>,
    output_descriptors: Vec<SysQueue>,
    config_fw: SyscomConfigFw,
    specific: Vec<u8>,
    total_size: u32,
    state: u32,
    command: u32,
    cell: C,
}

impl<C: Cell> View for FwComContext<C> {
    type V = ContextState<C>;

    closed spec fn view(&self) -> ContextState<C> {
        ContextState {
            inputs: Seq::new(self.input_queues@.len(), |i: int| self.input_queues@[i]@),
            outputs: Seq::new(self.output_queues@.len(), |i: int| self.output_queues@[i]@),
            input_descriptors: self.input_descriptors@,
            output_descriptors: self.output_descriptors@,
            config_fw: self.config_fw,
            specific: self.specific@,
            total_size: self.total_size,
            state: self.state,
            command: self.command,
            cell: self.cell,
        }
    }
}

// ---------------------------------------------------------------------------
// Facts about the layout sums.

proof fn lemma_zero_prefix(qs: Seq<QueueConfig>, i: int)
    requires
        0 <= i < qs.len(),
    ensures
        zero_size_error(qs.take(i + 1)) == (match zero_size_error(qs.take(i)) {
            Some(e) => Some(e),
            None => queue_error(qs[i]),
        }),
{
    assert(qs.take(i + 1).drop_last() =~= qs.take(i));
}

/// Once a prefix holds a misconfigured queue, so does every longer prefix.
proof fn lemma_zero_extends(qs: Seq<QueueConfig>, i: int, n: int)
    requires
        0 <= i <= n <= qs.len(),
        zero_size_error(qs.take(i)) is Some,
    ensures
        zero_size_error(qs.take(n)) == zero_size_error(qs.take(i)),
    decreases n - i,
{
    if n > i {
        lemma_zero_extends(qs, i, n - 1);
        lemma_zero_prefix(qs, n - 1);
    }
}

proof fn lemma_bytes_prefix(qs: Seq<QueueConfig>, i: int)
    requires
        0 <= i < qs.len(),
    ensures
        queues_bytes(qs.take(i + 1)) == queues_bytes(qs.take(i)) + spec_token_queue_size(qs[i]),
{
    assert(qs.take(i + 1).drop_last() =~= qs.take(i));
}

/// The bytes of a prefix never exceed the bytes of the whole.
proof fn lemma_bytes_monotone(qs: Seq<QueueConfig>, i: int, n: int)
    requires
        0 <= i <= n <= qs.len(),
    ensures
        0 <= queues_bytes(qs.take(i)) <= queues_bytes(qs.take(n)),
    decreases n - i,
{
    if n > i {
        lemma_bytes_monotone(qs, i, n - 1);
        lemma_bytes_prefix(qs, n - 1);
    } else {
        lemma_bytes_nonneg(qs.take(i));
    }
}

proof fn lemma_bytes_nonneg(qs: Seq<QueueConfig>)
    ensures
        queues_bytes(qs) >= 0,
    decreases qs.len(),
{
    if qs.len() > 0 {
        lemma_bytes_nonneg(qs.drop_last());
    }
}

/// Layout of a prepared context (the shared allocation as `prepare` lays it
/// out): the syscom configuration takes the first 32 bytes, then one 32-byte
/// descriptor per input queue, then one per output queue, then the specific
/// blob. The queue buffers follow the blob, packed back to back: the inputs
/// first, each queue's buffer `queue_size * token_size` bytes after the one
/// before it, then the outputs, all inside the allocation. Input queue `i`
/// uses dmem position `i`, output queue `j` position `inputs + j`; host and
/// firmware addresses agree.
pub proof fn lemma_prepared_layout<C>(cfg: FwComConfig, cell: C)
    requires
        zero_size_error(cfg.input@ + cfg.output@) is None,
        total_size(cfg) <= u32::MAX,
    ensures
        prepared_state(cfg, cell).config_fw.input_queue == 32,
        prepared_state(cfg, cell).config_fw.output_queue == 32 + 32 * cfg.input@.len(),
        prepared_state(cfg, cell).config_fw.specific_addr == 32 + 32 * cfg.input@.len() + 32 * cfg.output@.len(),
        prepared_state(cfg, cell).config_fw.specific_size == cfg.specific@.len(),
        cfg.input@.len() > 0 ==> prepared_state(cfg, cell).input_descriptors[0].vied_address == 32 + 32
            * cfg.input@.len() + 32 * cfg.output@.len() + cfg.specific@.len(),
        forall|i: int|
            0 <= i < cfg.input@.len() - 1 ==> (#[trigger] prepared_state(cfg, cell).input_descriptors[i + 1]).vied_address
                == prepared_state(cfg, cell).input_descriptors[i].vied_address + cfg.input@[i].queue_size
                * cfg.input@[i].token_size,
        cfg.output@.len() > 0 && cfg.input@.len() > 0 ==> prepared_state(cfg, cell).output_descriptors[0].vied_address
            == prepared_state(cfg, cell).input_descriptors[cfg.input@.len() - 1].vied_address + cfg.input@.last().queue_size
            * cfg.input@.last().token_size,
        cfg.output@.len() > 0 && cfg.input@.len() == 0 ==> prepared_state(cfg, cell).output_descriptors[0].vied_address
            == 32 + 32 * cfg.output@.len() + cfg.specific@.len(),
        forall|j: int|
            0 <= j < cfg.output@.len() - 1 ==> (#[trigger] prepared_state(cfg, cell).output_descriptors[j + 1]).vied_address
                == prepared_state(cfg, cell).output_descriptors[j].vied_address + cfg.output@[j].queue_size
                * cfg.output@[j].token_size,
        cfg.output@.len() > 0 ==> prepared_state(cfg, cell).output_descriptors[cfg.output@.len() - 1].vied_address
            + cfg.output@.last().queue_size * cfg.output@.last().token_size <= prepared_state(cfg, cell).total_size,
        forall|i: int|
            0 <= i < cfg.input@.len() ==> {
                let d = #[trigger] prepared_state(cfg, cell).input_descriptors[i];
                &&& d.host_address == d.vied_address
                &&& d.size == cfg.input@[i].queue_size
                &&& d.token_size == cfg.input@[i].token_size
                &&& d.wr_reg == 4 + 2 * i
                &&& d.rd_reg == 5 + 2 * i
            },
        forall|j: int|
            0 <= j < cfg.output@.len() ==> {
                let d = #[trigger] prepared_state(cfg, cell).output_descriptors[j];
                &&& d.host_address == d.vied_address
                &&& d.size == cfg.output@[j].queue_size
                &&& d.token_size == cfg.output@[j].token_size
                &&& d.wr_reg == 4 + 2 * (cfg.input@.len() + j)
                &&& d.rd_reg == 5 + 2 * (cfg.input@.len() + j)
            },
{
    let n = cfg.input@.len() as int;
    let m = cfg.output@.len() as int;
    let ins = cfg.input@;
    let outs = cfg.output@;
    lemma_bytes_nonneg(ins);
    lemma_bytes_nonneg(outs);
    assert(spec_roundup(28, 8) == 32);
    assert(spec_roundup(cfg.specific@.len() as int, 8) >= cfg.specific@.len()) by (nonlinear_arith);
    assert(ins.take(n) =~= ins);
    assert(outs.take(m) =~= outs);
    assert forall|k: int| 0 <= k < n implies spec_token_queue_size(#[trigger] ins[k]) == ins[k].queue_size * ins[k].token_size
        && queues_bytes(ins.take(k)) + ins[k].queue_size * ins[k].token_size <= queues_bytes(ins) by {
        lemma_bytes_prefix(ins, k);
        lemma_bytes_monotone(ins, k + 1, n);
        lemma_bytes_monotone(ins, 0, k);
        lemma_bytes_nonneg(outs);
    }
    assert forall|k: int| 0 <= k < m implies spec_token_queue_size(#[trigger] outs[k]) == outs[k].queue_size * outs[k].token_size
        && queues_bytes(outs.take(k)) + outs[k].queue_size * outs[k].token_size <= queues_bytes(outs) by {
        lemma_bytes_prefix(outs, k);
        lemma_bytes_monotone(outs, k + 1, m);
        lemma_bytes_monotone(outs, 0, k);
        lemma_bytes_nonneg(ins);
    }
    if n > 0 {
        lemma_bytes_prefix(ins, n - 1);
        assert(ins.take(0) =~= Seq::<QueueConfig>::empty());
    }
    if m > 0 {
        lemma_bytes_prefix(outs, m - 1);
        assert(outs.take(0) =~= Seq::<QueueConfig>::empty());
    }
    let st = prepared_state(cfg, cell);
    assert forall|i: int|
        0 <= i < n - 1 implies (#[trigger] st.input_descriptors[i + 1]).vied_address
            == st.input_descriptors[i].vied_address + cfg.input@[i].queue_size * cfg.input@[i].token_size by {
        lemma_bytes_prefix(ins, i);
        lemma_bytes_monotone(ins, i + 1, n);
        lemma_bytes_monotone(ins, 0, i);
        assert(spec_token_queue_size(ins[i]) == ins[i].queue_size * ins[i].token_size);
    }
    assert forall|j: int|
        0 <= j < m - 1 implies (#[trigger] st.output_descriptors[j + 1]).vied_address
            == st.output_descriptors[j].vied_address + cfg.output@[j].queue_size * cfg.output@[j].token_size by {
        lemma_bytes_prefix(outs, j);
        lemma_bytes_monotone(outs, j + 1, m);
        lemma_bytes_monotone(outs, 0, j);
        assert(spec_token_queue_size(outs[j]) == outs[j].queue_size * outs[j].token_size);
    }
    if n > 0 {
        assert(spec_token_queue_size(ins[n - 1]) == ins[n - 1].queue_size * ins[n - 1].token_size);
        lemma_bytes_monotone(ins, n - 1, n);
        assert(ins.last() == ins[n - 1]);
        assert(queues_bytes(ins) == queues_bytes(ins.take(n - 1)) + spec_token_queue_size(ins[n - 1]));
    }
    assert(32 * n + 32 * m <= total_size(cfg));
    assert forall|i: int| 0 <= i < n implies {
        let d = #[trigger] st.input_descriptors[i];
        &&& d.host_address == d.vied_address
        &&& d.size == cfg.input@[i].queue_size
        &&& d.token_size == cfg.input@[i].token_size
        &&& d.wr_reg == 4 + 2 * i
        &&& d.rd_reg == 5 + 2 * i
    } by {
        lemma_bytes_monotone(ins, i, n);
    }
    assert forall|j: int| 0 <= j < m implies {
        let d = #[trigger] st.output_descriptors[j];
        &&& d.host_address == d.vied_address
        &&& d.size == cfg.output@[j].queue_size
        &&& d.token_size == cfg.output@[j].token_size
        &&& d.wr_reg == 4 + 2 * (n + j)
        &&& d.rd_reg == 5 + 2 * (n + j)
    } by {
        lemma_bytes_monotone(outs, j, m);
    }
    if m > 0 {
        assert(spec_token_queue_size(outs[m - 1]) == outs[m - 1].queue_size * outs[m - 1].token_size);
        lemma_bytes_monotone(outs, m - 1, m);
        assert(outs.last() == outs[m - 1]);
        assert(queues_bytes(outs) == queues_bytes(outs.take(m - 1)) + spec_token_queue_size(outs[m - 1]));
        assert(obuf_addr(cfg) + queues_bytes(outs) <= total_size(cfg));
    }
}

/// Check every queue of `qs` for a zero size, in order.
fn check_queue_sizes(qs: &Vec<QueueConfig>) -> (r: Option<FwComError>)
    ensures
        r == zero_size_error(qs@),
{
    let mut i: usize = 0;
    assert(qs@.take(0) =~= Seq::<QueueConfig>::empty());
    while i < qs.len()
        invariant
            i <= qs@.len(),
            zero_size_error(qs@.take(i as int)) is None,
        decreases qs@.len() - i,
    {
        proof { lemma_zero_prefix(qs@, i as int); }
        let q = qs[i];
        if q.queue_size == 0 {
            proof {
                lemma_zero_extends(qs@, i + 1, qs@.len() as int);
                assert(qs@.take(qs@.len() as int) =~= qs@);
            }
            return Some(FwComError::ZeroQueueSize);
        }
        if q.token_size == 0 {
            proof {
                lemma_zero_extends(qs@, i + 1, qs@.len() as int);
                assert(qs@.take(qs@.len() as int) =~= qs@);
            }
            return Some(FwComError::ZeroTokenSize);
        }
        i += 1;
    }
    assert(qs@.take(qs@.len() as int) =~= qs@);
    None
}

/// The payload bytes of all queues of `qs`, or `None` when they exceed
/// `u32::MAX`.
fn sum_queue_bytes(qs: &Vec<QueueConfig>) -> (r: Option<u32>)
    ensures
        r matches Some(v) ==> v == queues_bytes(qs@),
        r is None ==> queues_bytes(qs@) > u32::MAX,
{
    let mut total: u32 = 0;
    let mut i: usize = 0;
    assert(qs@.take(0) =~= Seq::<QueueConfig>::empty());
    while i < qs.len()
        invariant
            i <= qs@.len(),
            total == queues_bytes(qs@.take(i as int)),
        decreases qs@.len() - i,
    {
        proof { lemma_bytes_prefix(qs@, i as int); }
        match total.checked_add(qs[i].token_queue_size()) {
            Some(t) => {
                total = t;
            },
            None => {
                proof {
                    lemma_bytes_monotone(qs@, i + 1, qs@.len() as int);
                    assert(qs@.take(qs@.len() as int) =~= qs@);
                }
                return None;
            },
        }
        i += 1;
    }
    assert(qs@.take(qs@.len() as int) =~= qs@);
    Some(total)
}

/// Zero-size checks cover the input queues, then the output queues.
proof fn lemma_zero_concat(a: Seq<QueueConfig>, b: Seq<QueueConfig>)
    requires
        zero_size_error(a) is None,
    ensures
        zero_size_error(a + b) == zero_size_error(b),
    decreases b.len(),
{
    if b.len() == 0 {
        assert(a + b =~= a);
    } else {
        lemma_zero_concat(a, b.drop_last());
        assert((a + b).drop_last() =~= a + b.drop_last());
    }
}

proof fn lemma_zero_concat_err(a: Seq<QueueConfig>, b: Seq<QueueConfig>)
    requires
        zero_size_error(a) is Some,
    ensures
        zero_size_error(a + b) == zero_size_error(a),
    decreases b.len(),
{
    if b.len() == 0 {
        assert(a + b =~= a);
    } else {
        lemma_zero_concat_err(a, b.drop_last());
        assert((a + b).drop_last() =~= a + b.drop_last());
    }
}

/// A queue list free of zero sizes has only well-sized queues.
proof fn lemma_no_zero(qs: Seq<QueueConfig>, i: int)
    requires
        zero_size_error(qs) is None,
        0 <= i < qs.len(),
    ensures
        qs[i].queue_size != 0,
        qs[i].token_size != 0,
    decreases qs.len(),
{
    if i < qs.len() - 1 {
        lemma_no_zero(qs.drop_last(), i);
    }
}

impl<C: Cell> FwComContext<C> {
    /// Lay out and allocate a context (`intel_ipu4_fw_com_prepare`).
    ///
    /// A queue with a zero queue or token size is rejected first (inputs,
    /// then outputs, in order); then a shared allocation larger than
    /// `u32::MAX` bytes. Otherwise every queue starts empty, the descriptors
    /// and the syscom configuration carry the layout addresses, and the
    /// state and command registers are uninitialised.
    pub fn prepare(cfg: &FwComConfig, cell: C) -> (r: Result<Self>)
        requires
            cfg.input@.len() <= u32::MAX,
            cfg.output@.len() <= u32::MAX,
            cfg.specific@.len() + 7 <= u32::MAX,
        ensures
            zero_size_error(cfg.input@ + cfg.output@) matches Some(e) ==> r == Err::<Self, FwComError>(e),
            zero_size_error(cfg.input@ + cfg.output@) is None && total_size(*cfg) > u32::MAX ==> r == Err::<
                Self,
                FwComError,
            >(FwComError::SizeOverflow),
            zero_size_error(cfg.input@ + cfg.output@) is None && total_size(*cfg) <= u32::MAX ==> (r matches Ok(
                ctx,
            ) && ctx@ == prepared_state(*cfg, cell) && ctx@.wf()),
    {
        match check_queue_sizes(&cfg.input) {
            Some(e) => {
                proof { lemma_zero_concat_err(cfg.input@, cfg.output@); }
                return Err(e);
            },
            None => {},
        }
        proof { lemma_zero_concat(cfg.input@, cfg.output@); }
        match check_queue_sizes(&cfg.output) {
            Some(e) => {
                return Err(e);
            },
            None => {},
        }
        let num_in = cfg.input.len() as u32;
        let num_out = cfg.output.len() as u32;
        let specific_size = cfg.specific.len() as u32;
        proof {
            lemma_bytes_nonneg(cfg.input@);
            lemma_bytes_nonneg(cfg.output@);
            assert(spec_roundup(specific_size as int, 8) <= specific_size + 7) by (nonlinear_arith);
            assert(spec_roundup(specific_size as int, 8) >= specific_size) by (nonlinear_arith);
            assert(spec_roundup(28, 8) == 32);
        }
        let size_input = match sum_queue_bytes(&cfg.input) {
            Some(v) => v,
            None => {
                return Err(FwComError::SizeOverflow);
            },
        };
        let size_output = match sum_queue_bytes(&cfg.output) {
            Some(v) => v,
            None => {
                return Err(FwComError::SizeOverflow);
            },
        };
        let sq: u32 = 32;
        let head = roundup(28, 8);
        let size_all = match num_in.checked_mul(sq) {
            None => None,
            Some(a) => match head.checked_add(a) {
                None => None,
                Some(t) => match num_out.checked_mul(sq) {
                    None => None,
                    Some(b) => match t.checked_add(b) {
                        None => None,
                        Some(t) => match t.checked_add(roundup(specific_size, 8)) {
                            None => None,
                            Some(t) => match t.checked_add(size_input) {
                                None => None,
                                Some(t) => t.checked_add(size_output),
                            },
                        },
                    },
                },
            },
        };
        let size_all = match size_all {
            Some(v) => v,
            None => {
                return Err(FwComError::SizeOverflow);
            },
        };
        let input_queue_addr = head;
        let output_queue_addr = input_queue_addr + num_in * sq;
        let specific_addr = output_queue_addr + num_out * sq;
        let ibuf = specific_addr + specific_size;
        let obuf = ibuf + size_input;

        let mut input_queues: Vec<SharedRing> = Vec::new();
        let mut input_descriptors: Vec<SysQueue> = Vec::new();
        let mut queue_offset: u32 = 0;
        let mut dmem_index: u32 = 0;
        let mut i: usize = 0;
        assert(cfg.input@.take(0) =~= Seq::<QueueConfig>::empty());
        while i < cfg.input.len()
            invariant
                i <= cfg.input@.len(),
                cfg.input@.len() <= u32::MAX,
                cfg.output@.len() <= u32::MAX,
                zero_size_error(cfg.input@) is None,
                dmem_index == i,
                queue_offset == queues_bytes(cfg.input@.take(i as int)),
                ibuf == ibuf_addr(*cfg),
                ibuf + queues_bytes(cfg.input@) <= u32::MAX,
                num_in == cfg.input@.len(),
                num_in * 32 + 5 <= u32::MAX,
                input_queues@.len() == i,
                input_descriptors@.len() == i,
                forall|k: int| 0 <= k < i ==> (#[trigger] input_queues@[k])@ == fresh_ring(cfg.input@[k]),
                forall|k: int| 0 <= k < i ==> (#[trigger] input_queues@[k])@.wf(),
                forall|k: int| 0 <= k < i ==> (#[trigger] input_descriptors@[k]) == input_descriptor(*cfg, k),
            decreases cfg.input@.len() - i,
        {
            let q = cfg.input[i];
            proof {
                lemma_no_zero(cfg.input@, i as int);
                lemma_bytes_prefix(cfg.input@, i as int);
                lemma_bytes_monotone(cfg.input@, i + 1, cfg.input@.len() as int);
                assert(cfg.input@.take(cfg.input@.len() as int) =~= cfg.input@);
            }
            let ring = match SharedRing::new(q.queue_size, q.token_size) {
                Ok(ring) => ring,
                Err(e) => {
                    return Err(e);
                },
            };
            input_queues.push(ring);
            let addr = ibuf + queue_offset;
            input_descriptors.push(SysQueue::init(dmem_index, q.queue_size, q.token_size, addr as u64, addr));
            queue_offset = queue_offset + q.token_queue_size();
            dmem_index = dmem_index + 1;
            i += 1;
        }

        let mut output_queues: Vec<SharedRing> = Vec::new();
        let mut output_descriptors: Vec<SysQueue> = Vec::new();
        queue_offset = 0;
        let mut j: usize = 0;
        assert(cfg.output@.take(0) =~= Seq::<QueueConfig>::empty());
        while j < cfg.output.len()
            invariant
                j <= cfg.output@.len(),
                cfg.input@.len() <= u32::MAX,
                cfg.output@.len() <= u32::MAX,
                zero_size_error(cfg.output@) is None,
                dmem_index == cfg.input@.len() + j,
                queue_offset == queues_bytes(cfg.output@.take(j as int)),
                obuf == obuf_addr(*cfg),
                obuf + queues_bytes(cfg.output@) <= u32::MAX,
                (num_in + num_out) * 32 + 5 <= u32::MAX,
                num_in == cfg.input@.len(),
                num_out == cfg.output@.len(),
                output_queues@.len() == j,
                output_descriptors@.len() == j,
                forall|k: int| 0 <= k < j ==> (#[trigger] output_queues@[k])@ == fresh_ring(cfg.output@[k]),
                forall|k: int| 0 <= k < j ==> (#[trigger] output_queues@[k])@.wf(),
                forall|k: int| 0 <= k < j ==> (#[trigger] output_descriptors@[k]) == output_descriptor(*cfg, k),
            decreases cfg.output@.len() - j,
        {
            let q = cfg.output[j];
            proof {
                lemma_no_zero(cfg.output@, j as int);
                lemma_bytes_prefix(cfg.output@, j as int);
                lemma_bytes_monotone(cfg.output@, j + 1, cfg.output@.len() as int);
                assert(cfg.output@.take(cfg.output@.len() as int) =~= cfg.output@);
            }
            let ring = match SharedRing::new(q.queue_size, q.token_size) {
                Ok(ring) => ring,
                Err(e) => {
                    return Err(e);
                },
            };
            output_queues.push(ring);
            let addr = obuf + queue_offset;
            output_descriptors.push(SysQueue::init(dmem_index, q.queue_size, q.token_size, addr as u64, addr));
            queue_offset = queue_offset + q.token_queue_size();
            dmem_index = dmem_index + 1;
            j += 1;
        }

        let config_fw = SyscomConfigFw {
            firmware_address: 0,
            num_input_queues: num_in,
            num_output_queues: num_out,
            input_queue: input_queue_addr,
            output_queue: output_queue_addr,
            specific_addr,
            specific_size,
        };
        let specific = copy_blob(&cfg.specific);
        let ctx = FwComContext {
            input_queues,
            output_queues,
            input_descriptors,
            output_descriptors,
            config_fw,
            specific,
            total_size: size_all,
            state: SYSCOM_STATE_UNINIT,
            command: SYSCOM_COMMAND_UNINIT,
            cell,
        };
        proof {
            assert(ctx@.inputs =~= prepared_state(*cfg, cell).inputs);
            assert(ctx@.outputs =~= prepared_state(*cfg, cell).outputs);
            assert(ctx@.input_descriptors =~= prepared_state(*cfg, cell).input_descriptors);
            assert(ctx@.output_descriptors =~= prepared_state(*cfg, cell).output_descriptors);
            assert(ctx@.config_fw == prepared_state(*cfg, cell).config_fw);
            assert(ctx@.total_size == prepared_state(*cfg, cell).total_size);
            assert(ctx@.specific == prepared_state(*cfg, cell).specific);
            assert(ctx@.wf());
        }
        Ok(ctx)
    }
}

/// A copy of the bytes of `v`.
fn copy_blob(v: &Vec<u8>) -> (r: Vec<u8>)
    ensures
        r@ == v@,
{
    let mut out: Vec<u8> = Vec::new();
    let mut i: usize = 0;
    while i < v.len()
        invariant
            i <= v@.len(),
            out@ == v@.subrange(0, i as int),
        decreases v@.len() - i,
    {
        out.push(v[i]);
        i += 1;
    }
    out
}

impl<C: Cell> FwComContext<C> {
    /// Number of host-to-SP (input) queues.
    pub fn num_input_queues(&self) -> (r: usize)
        ensures
            r == self@.inputs.len(),
    {
        self.input_queues.len()
    }

    /// Number of SP-to-host (output) queues.
    pub fn num_output_queues(&self) -> (r: usize)
        ensures
            r == self@.outputs.len(),
    {
        self.output_queues.len()
    }

    /// The syscom configuration handed to the firmware.
    pub fn config_fw(&self) -> (r: &SyscomConfigFw)
        ensures
            *r == self@.config_fw,
    {
        &self.config_fw
    }

    /// The input queue descriptors handed to the firmware.
    pub fn input_descriptors(&self) -> (r: &[SysQueue])
        ensures
            r@ == self@.input_descriptors,
    {
        self.input_descriptors.as_slice()
    }

    /// The output queue descriptors handed to the firmware.
    pub fn output_descriptors(&self) -> (r: &[SysQueue])
        ensures
            r@ == self@.output_descriptors,
    {
        self.output_descriptors.as_slice()
    }

    /// The firmware-specific blob copied at prepare time.
    pub fn specific(&self) -> (r: &[u8])
        ensures
            r@ == self@.specific,
    {
        self.specific.as_slice()
    }

    /// Size of the equivalent shared allocation.
    pub fn total_size(&self) -> (r: u32)
        ensures
            r == self@.total_size,
    {
        self.total_size
    }

    /// Open the syscom channel (`intel_ipu4_fw_com_open`): ask the cell
    /// whether it is ready; if it is, reset the state and command registers
    /// and start the cell, otherwise fail with `CellNotReady`.
    pub fn open(&mut self) -> (r: Result<()>)
        ensures
            r is Err ==> {
                &&& r == Err::<(), FwComError>(FwComError::CellNotReady)
                &&& call_ensures(C::ready, (&old(self)@.cell,), false)
                &&& final(self)@ == old(self)@
            },
            r is Ok ==> {
                &&& call_ensures(C::ready, (&old(self)@.cell,), true)
                &&& final(self)@.cell.started()
                &&& final(self)@ == (ContextState {
                    state: SYSCOM_STATE_UNINIT,
                    command: SYSCOM_COMMAND_UNINIT,
                    cell: final(self)@.cell,
                    ..old(self)@
                })
            },
    {
        if !self.cell.ready() {
            return Err(FwComError::CellNotReady);
        }
        self.state = SYSCOM_STATE_UNINIT;
        self.command = SYSCOM_COMMAND_UNINIT;
        self.cell.start();
        Ok(())
    }

    /// Whether the SP has published `READY` (`intel_ipu4_fw_com_ready`).
    pub fn ready(&self) -> (r: Result<()>)
        ensures
            self@.state == SYSCOM_STATE_READY ==> r is Ok,
            self@.state != SYSCOM_STATE_READY ==> r == Err::<(), FwComError>(FwComError::Busy),
    {
        if self.state != SYSCOM_STATE_READY {
            return Err(FwComError::Busy);
        }
        Ok(())
    }

    /// Ask the SP to stop (`intel_ipu4_fw_com_close`): allowed only once it
    /// is `READY`.
    pub fn close(&mut self) -> (r: Result<()>)
        ensures
            old(self)@.state == SYSCOM_STATE_READY ==> r is Ok && final(self)@ == (ContextState {
                command: SYSCOM_COMMAND_INACTIVE,
                ..old(self)@
            }),
            old(self)@.state != SYSCOM_STATE_READY ==> r == Err::<(), FwComError>(FwComError::Busy) && final(self)@
                == old(self)@,
    {
        if self.state != SYSCOM_STATE_READY {
            return Err(FwComError::Busy);
        }
        self.command = SYSCOM_COMMAND_INACTIVE;
        Ok(())
    }

    /// Tear the context down (`intel_ipu4_fw_com_release`): forced, it
    /// always succeeds without asking the cell; otherwise the cell is asked
    /// whether it is ready, and a cell that is not refuses it with `Busy`.
    pub fn release(self, force: bool) -> (r: Result<()>)
        ensures
            force ==> r is Ok,
            !force ==> {
                ||| r is Ok && call_ensures(C::ready, (&self@.cell,), true)
                ||| r == Err::<(), FwComError>(FwComError::Busy) && call_ensures(C::ready, (&self@.cell,), false)
            },
    {
        if !force && !self.cell.ready() {
            return Err(FwComError::Busy);
        }
        Ok(())
    }

    /// Send a token on input queue `q_nbr` (host to SP). A queue number past
    /// the input queues is rejected; otherwise the queue does what
    /// [`SharedRing::try_send`] does.
    pub fn send(&mut self, q_nbr: usize, token: &[u8]) -> (r: Result<()>)
        requires
            old(self)@.wf(),
        ensures
            final(self)@.wf(),
            q_nbr >= old(self)@.inputs.len() ==> r == Err::<(), FwComError>(
                FwComError::QueueIndexOutOfRange { index: q_nbr, count: old(self)@.inputs.len() as usize },
            ) && final(self)@ == old(self)@,
            q_nbr < old(self)@.inputs.len() ==> {
                let (ring, res) = send_outcome(old(self)@.inputs[q_nbr as int], token@);
                &&& r == res
                &&& final(self)@ == (ContextState { inputs: old(self)@.inputs.update(q_nbr as int, ring), ..old(self)@ })
            },
    {
        if q_nbr >= self.input_queues.len() {
            return Err(FwComError::QueueIndexOutOfRange { index: q_nbr, count: self.input_queues.len() });
        }
        assert(self@.inputs[q_nbr as int].wf());
        let r = self.input_queues[q_nbr].try_send(token);
        proof {
            assert(self@.inputs =~= old(self)@.inputs.update(q_nbr as int, send_outcome(old(self)@.inputs[q_nbr as int], token@).0));
        }
        r
    }

    /// Receive a token from output queue `q_nbr` (SP to host). A queue number
    /// past the output queues is rejected; otherwise the queue does what
    /// [`SharedRing::try_recv`] does.
    pub fn recv(&mut self, q_nbr: usize, out: &mut [u8]) -> (r: Result<()>)
        requires
            old(self)@.wf(),
        ensures
            final(self)@.wf(),
            q_nbr >= old(self)@.outputs.len() ==> r == Err::<(), FwComError>(
                FwComError::QueueIndexOutOfRange { index: q_nbr, count: old(self)@.outputs.len() as usize },
            ) && final(self)@ == old(self)@ && final(out)@ == old(out)@,
            q_nbr < old(self)@.outputs.len() ==> {
                let (ring, res) = recv_outcome(old(self)@.outputs[q_nbr as int], old(out)@.len());
                &&& final(self)@ == (ContextState { outputs: old(self)@.outputs.update(q_nbr as int, ring), ..old(self)@ })
                &&& match res {
                    Ok(t) => r is Ok && final(out)@ == t,
                    Err(e) => r == Err::<(), FwComError>(e) && final(out)@ == old(out)@,
                }
            },
    {
        if q_nbr >= self.output_queues.len() {
            return Err(FwComError::QueueIndexOutOfRange { index: q_nbr, count: self.output_queues.len() });
        }
        assert(self@.outputs[q_nbr as int].wf());
        let r = self.output_queues[q_nbr].try_recv(out);
        proof {
            assert(self@.outputs =~= old(self)@.outputs.update(
                q_nbr as int,
                recv_outcome(old(self)@.outputs[q_nbr as int], old(out)@.len()).0,
            ));
        }
        r
    }

    /// Take the next free slot of input queue `q_nbr` for writing
    /// (`intel_ipu4_send_get_token`).
    pub fn send_get_token(&mut self, q_nbr: usize) -> (r: Result<SendToken<'_>>)
        requires
            old(self)@.wf(),
        ensures
            q_nbr >= old(self)@.inputs.len() ==> r == Err::<SendToken, FwComError>(
                FwComError::QueueIndexOutOfRange { index: q_nbr, count: old(self)@.inputs.len() as usize },
            ) && final(self)@ == old(self)@,
            q_nbr < old(self)@.inputs.len() && old(self)@.inputs[q_nbr as int].len()
                >= old(self)@.inputs[q_nbr as int].capacity() ==> r == Err::<SendToken, FwComError>(
                FwComError::QueueFull,
            ) && final(self)@ == old(self)@,
            q_nbr < old(self)@.inputs.len() && old(self)@.inputs[q_nbr as int].len()
                < old(self)@.inputs[q_nbr as int].capacity() ==> (r matches Ok(tok) && {
                &&& tok.ring@ == old(self)@.inputs[q_nbr as int]
                &&& tok.counter == old(self)@.inputs[q_nbr as int].wr
                &&& final(self)@ == (ContextState {
                    inputs: old(self)@.inputs.update(q_nbr as int, final(tok.ring)@),
                    ..old(self)@
                })
            }),
    {
        if q_nbr >= self.input_queues.len() {
            return Err(FwComError::QueueIndexOutOfRange { index: q_nbr, count: self.input_queues.len() });
        }
        assert(self@.inputs[q_nbr as int].wf());
        self.input_queues[q_nbr].acquire_send()
    }

    /// Take the oldest token of output queue `q_nbr` for reading
    /// (`intel_ipu4_recv_get_token`).
    pub fn recv_get_token(&mut self, q_nbr: usize) -> (r: Result<RecvToken<'_>>)
        requires
            old(self)@.wf(),
        ensures
            q_nbr >= old(self)@.outputs.len() ==> r == Err::<RecvToken, FwComError>(
                FwComError::QueueIndexOutOfRange { index: q_nbr, count: old(self)@.outputs.len() as usize },
            ) && final(self)@ == old(self)@,
            q_nbr < old(self)@.outputs.len() && old(self)@.outputs[q_nbr as int].len() == 0 ==> r == Err::<
                RecvToken,
                FwComError,
            >(FwComError::QueueEmpty) && final(self)@ == old(self)@,
            q_nbr < old(self)@.outputs.len() && old(self)@.outputs[q_nbr as int].len() > 0 ==> (r matches Ok(tok) && {
                &&& tok.ring@ == old(self)@.outputs[q_nbr as int]
                &&& tok.counter == old(self)@.outputs[q_nbr as int].rd
                &&& tok.payload() == old(self)@.outputs[q_nbr as int].contents()[0]
                &&& final(self)@ == (ContextState {
                    outputs: old(self)@.outputs.update(q_nbr as int, final(tok.ring)@),
                    ..old(self)@
                })
            }),
    {
        if q_nbr >= self.output_queues.len() {
            return Err(FwComError::QueueIndexOutOfRange { index: q_nbr, count: self.output_queues.len() });
        }
        assert(self@.outputs[q_nbr as int].wf());
        self.output_queues[q_nbr].acquire_recv()
    }

    /// Copy the oldest token of output queue `q_nbr` into `out` without
    /// consuming it.
    pub fn recv_peek(&self, q_nbr: usize, out: &mut [u8]) -> (r: Result<()>)
        requires
            self@.wf(),
        ensures
            q_nbr >= self@.outputs.len() ==> r == Err::<(), FwComError>(
                FwComError::QueueIndexOutOfRange { index: q_nbr, count: self@.outputs.len() as usize },
            ) && final(out)@ == old(out)@,
            q_nbr < self@.outputs.len() ==> match recv_outcome(self@.outputs[q_nbr as int], old(out)@.len()).1 {
                Ok(t) => r is Ok && final(out)@ == t,
                Err(e) => r == Err::<(), FwComError>(e) && final(out)@ == old(out)@,
            },
    {
        if q_nbr >= self.output_queues.len() {
            return Err(FwComError::QueueIndexOutOfRange { index: q_nbr, count: self.output_queues.len() });
        }
        assert(self@.outputs[q_nbr as int].wf());
        self.output_queues[q_nbr].peek_front(out)
    }

    /// Release the oldest token of output queue `q_nbr` without reading it.
    pub fn recv_advance(&mut self, q_nbr: usize) -> (r: Result<()>)
        requires
            old(self)@.wf(),
        ensures
            final(self)@.wf(),
            q_nbr >= old(self)@.outputs.len() ==> r == Err::<(), FwComError>(
                FwComError::QueueIndexOutOfRange { index: q_nbr, count: old(self)@.outputs.len() as usize },
            ) && final(self)@ == old(self)@,
            q_nbr < old(self)@.outputs.len() && old(self)@.outputs[q_nbr as int].len() == 0 ==> r == Err::<
                (),
                FwComError,
            >(FwComError::QueueEmpty) && final(self)@ == old(self)@,
            q_nbr < old(self)@.outputs.len() && old(self)@.outputs[q_nbr as int].len() > 0 ==> r is Ok
                && final(self)@ == (ContextState {
                outputs: old(self)@.outputs.update(
                    q_nbr as int,
                    RingState { rd: counter_add(old(self)@.outputs[q_nbr as int].rd, 1), ..old(self)@.outputs[q_nbr as int] },
                ),
                ..old(self)@
            }),
    {
        if q_nbr >= self.output_queues.len() {
            return Err(FwComError::QueueIndexOutOfRange { index: q_nbr, count: self.output_queues.len() });
        }
        assert(self@.outputs[q_nbr as int].wf());
        let r = self.output_queues[q_nbr].advance_read();
        proof {
            if old(self)@.outputs[q_nbr as int].len() > 0 {
                assert(self@.outputs =~= old(self)@.outputs.update(
                    q_nbr as int,
                    RingState { rd: counter_add(old(self)@.outputs[q_nbr as int].rd, 1), ..old(self)@.outputs[q_nbr as int] },
                ));
            } else {
                assert(self@.outputs =~= old(self)@.outputs);
            }
        }
        r
    }

    /// Token size of input queue `q_nbr`.
    pub fn input_token_size(&self, q_nbr: usize) -> (r: Result<u32>)
        ensures
            q_nbr >= self@.inputs.len() ==> r == Err::<u32, FwComError>(
                FwComError::QueueIndexOutOfRange { index: q_nbr, count: self@.inputs.len() as usize },
            ),
            q_nbr < self@.inputs.len() ==> r == Ok::<u32, FwComError>(self@.inputs[q_nbr as int].token_size),
    {
        if q_nbr >= self.input_queues.len() {
            return Err(FwComError::QueueIndexOutOfRange { index: q_nbr, count: self.input_queues.len() });
        }
        Ok(self.input_queues[q_nbr].token_size())
    }

    /// Token size of output queue `q_nbr`.
    pub fn output_token_size(&self, q_nbr: usize) -> (r: Result<u32>)
        ensures
            q_nbr >= self@.outputs.len() ==> r == Err::<u32, FwComError>(
                FwComError::QueueIndexOutOfRange { index: q_nbr, count: self@.outputs.len() as usize },
            ),
            q_nbr < self@.outputs.len() ==> r == Ok::<u32, FwComError>(self@.outputs[q_nbr as int].token_size),
    {
        if q_nbr >= self.output_queues.len() {
            return Err(FwComError::QueueIndexOutOfRange { index: q_nbr, count: self.output_queues.len() });
        }
        Ok(self.output_queues[q_nbr].token_size())
    }

    /// Stand in for the SP writing `state` into its state register.
    pub fn simulate_sp_state(&mut self, state: u32)
        ensures
            final(self)@ == (ContextState { state, ..old(self)@ }),
    {
        self.state = state;
    }

    /// The SP-owned state register.
    pub fn state(&self) -> (r: u32)
        ensures
            r == self@.state,
    {
        self.state
    }

    /// The host-owned command register.
    pub fn command(&self) -> (r: u32)
        ensures
            r == self@.command,
    {
        self.command
    }
}

/// A cell whose readiness is set by hand, for driving the lifecycle off
/// hardware.
#[derive(Debug, Default)]
pub struct MockCell {
    ready: bool,
    started: bool,
}

impl MockCell {
    /// The readiness this cell reports.
    pub closed spec fn spec_ready(&self) -> bool {
        self.ready
    }

    /// Whether `start` has been called.
    pub closed spec fn spec_started(&self) -> bool {
        self.started
    }

    /// A cell with the given readiness, not started.
    pub fn new(ready: bool) -> (r: Self)
        ensures
            r.spec_ready() == ready,
            !r.spec_started(),
    {
        MockCell { ready, started: false }
    }

    /// Set the readiness (the SP coming up or going down).
    pub fn set_ready(&mut self, ready: bool)
        ensures
            final(self).spec_ready() == ready,
            final(self).spec_started() == old(self).spec_started(),
    {
        self.ready = ready;
    }

    /// Whether `start` has been called.
    pub fn was_started(&self) -> (r: bool)
        ensures
            r == self.spec_started(),
    {
        self.started
    }
}

impl Cell for MockCell {
    fn ready(&self) -> (r: bool)
        ensures
            r == self.spec_ready(),
    {
        self.ready
    }

    open spec fn started(&self) -> bool {
        self.spec_started()
    }

    fn start(&mut self)
        ensures
            final(self).spec_started(),
            final(self).spec_ready() == old(self).spec_ready(),
    {
        self.started = true;
    }
}

} // verus!
