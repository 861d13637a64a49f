//! Byte-exact serialization of the structures shared with the firmware:
//! `struct sys_queue` and `struct ia_css_syscom_config_fw`, field by field
//! in little-endian order (the IPU4 is little-endian).

use vstd::prelude::*;
use crate::fw_com::consts::SYSCOM_QPR_BASE_REG;
use crate::fw_com::error::{FwComError, Result};
use crate::fw_msgs::bytes::{chunk_u32, chunk_u64, le_u32_bytes, le_u64_bytes};

verus! {

/// Queue descriptor (`struct sys_queue`).
#[derive(Debug, Clone, Copy, PartialEq, Eq, Default)]
pub struct SysQueue {
    /// Host-visible base address of the token buffer.
    pub host_address: u64,
    /// ISP-visible base address of the token buffer.
    pub vied_address: u32,
    /// Number of slots in the queue.
    pub size: u32,
    /// Bytes per token.
    pub token_size: u32,
    /// Dmem register of the write index.
    pub wr_reg: u32,
    /// Dmem register of the read index.
    pub rd_reg: u32,
    /// Padding field of the ABI layout.
    pub align: u32,
}

/// The 32 bytes of a queue descriptor.
pub open spec fn sys_queue_bytes(q: SysQueue) -> Seq<u8> {
    le_u64_bytes(q.host_address) + le_u32_bytes(q.vied_address) + le_u32_bytes(q.size) + le_u32_bytes(
        q.token_size,
    ) + le_u32_bytes(q.wr_reg) + le_u32_bytes(q.rd_reg) + le_u32_bytes(q.align)
}

/// The descriptor `sys_queue_init` builds for the queue at dmem position
/// `dmem_index`: its index registers are the pair at
/// `SYSCOM_QPR_BASE_REG + 2 * dmem_index`.
pub open spec fn spec_sys_queue_init(dmem_index: u32, size: u32, token_size: u32, host_address: u64, vied_address: u32) -> SysQueue {
    SysQueue {
        host_address,
        vied_address,
        size,
        token_size,
        wr_reg: (SYSCOM_QPR_BASE_REG + dmem_index * 2) as u32,
        rd_reg: (SYSCOM_QPR_BASE_REG + 1 + dmem_index * 2) as u32,
        align: 0,
    }
}

/// Copy the bytes of `v` into a fixed-size array.
fn to_array<const N: usize>(v: &Vec<u8>) -> (r: [u8; N])
    requires
        v@.len() == N,
    ensures
        r@ == v@,
{
    let mut out = [0u8; N];
    let mut i: usize = 0;
    while i < N
        invariant
            i <= N,
            v@.len() == N,
            forall|k: int| 0 <= k < i ==> out@[k] == v@[k],
        decreases N - i,
    {
        out[i] = v[i];
        i += 1;
    }
    assert(out@ =~= v@);
    out
}

/// Append the bytes of `b` to `v`.
fn push_bytes(v: &mut Vec<u8>, b: Vec<u8>)
    ensures
        final(v)@ == old(v)@ + b@,
{
    let mut b = b;
    v.append(&mut b);
}

impl SysQueue {
    /// Serialized length in bytes.
    pub const SERIALIZED_LEN: usize = 32;

    /// Build a queue descriptor as `sys_queue_init` does. The register
    /// numbers must fit in 32 bits.
    pub fn init(dmem_index: u32, size: u32, token_size: u32, host_address: u64, vied_address: u32) -> (r: Self)
        requires
            SYSCOM_QPR_BASE_REG + 1 + dmem_index * 2 <= u32::MAX,
        ensures
            r == spec_sys_queue_init(dmem_index, size, token_size, host_address, vied_address),
    {
        SysQueue {
            host_address,
            vied_address,
            size,
            token_size,
            wr_reg: SYSCOM_QPR_BASE_REG + dmem_index * 2,
            rd_reg: SYSCOM_QPR_BASE_REG + 1 + dmem_index * 2,
            align: 0,
        }
    }

    /// The 32-byte little-endian layout of `struct sys_queue`.
    pub fn to_le_bytes(&self) -> (r: [u8; 32])
        ensures
            r@ == sys_queue_bytes(*self),
    {
        let mut v = chunk_u64(self.host_address);
        push_bytes(&mut v, chunk_u32(self.vied_address));
        push_bytes(&mut v, chunk_u32(self.size));
        push_bytes(&mut v, chunk_u32(self.token_size));
        push_bytes(&mut v, chunk_u32(self.wr_reg));
        push_bytes(&mut v, chunk_u32(self.rd_reg));
        push_bytes(&mut v, chunk_u32(self.align));
        to_array(&v)
    }
}

/// Syscom configuration (`struct ia_css_syscom_config_fw`).
#[derive(Debug, Clone, Copy, PartialEq, Eq, Default)]
pub struct SyscomConfigFw {
    /// Firmware load address.
    pub firmware_address: u32,
    /// Number of host-to-SP queues.
    pub num_input_queues: u32,
    /// Number of SP-to-host queues.
    pub num_output_queues: u32,
    /// ISP-visible address of the input queue descriptors.
    pub input_queue: u32,
    /// ISP-visible address of the output queue descriptors.
    pub output_queue: u32,
    /// ISP-visible address of the firmware-specific blob.
    pub specific_addr: u32,
    /// Size in bytes of the firmware-specific blob.
    pub specific_size: u32,
}

/// The 28 bytes of a syscom configuration.
pub open spec fn config_fw_bytes(c: SyscomConfigFw) -> Seq<u8> {
    le_u32_bytes(c.firmware_address) + le_u32_bytes(c.num_input_queues) + le_u32_bytes(c.num_output_queues)
        + le_u32_bytes(c.input_queue) + le_u32_bytes(c.output_queue) + le_u32_bytes(c.specific_addr)
        + le_u32_bytes(c.specific_size)
}

/// Layout of a queue descriptor and of the syscom configuration, field by
/// field at fixed offsets: descriptor host address at 0..8, firmware address
/// at 8..12, size at 12..16, token size at 16..20, write register at 20..24,
/// read register at 24..28, padding word at 28..32; configuration firmware
/// address, input count, output count, input descriptors, output
/// descriptors, specific address and specific size at 0, 4, 8, 12, 16, 20
/// and 24.
pub proof fn lemma_descriptor_layouts(q: SysQueue, c: SyscomConfigFw)
    ensures
        sys_queue_bytes(q).len() == 32,
        sys_queue_bytes(q).subrange(0, 8) == le_u64_bytes(q.host_address),
        sys_queue_bytes(q).subrange(8, 12) == le_u32_bytes(q.vied_address),
        sys_queue_bytes(q).subrange(12, 16) == le_u32_bytes(q.size),
        sys_queue_bytes(q).subrange(16, 20) == le_u32_bytes(q.token_size),
        sys_queue_bytes(q).subrange(20, 24) == le_u32_bytes(q.wr_reg),
        sys_queue_bytes(q).subrange(24, 28) == le_u32_bytes(q.rd_reg),
        sys_queue_bytes(q).subrange(28, 32) == le_u32_bytes(q.align),
        config_fw_bytes(c).len() == 28,
        config_fw_bytes(c).subrange(0, 4) == le_u32_bytes(c.firmware_address),
        config_fw_bytes(c).subrange(4, 8) == le_u32_bytes(c.num_input_queues),
        config_fw_bytes(c).subrange(8, 12) == le_u32_bytes(c.num_output_queues),
        config_fw_bytes(c).subrange(12, 16) == le_u32_bytes(c.input_queue),
        config_fw_bytes(c).subrange(16, 20) == le_u32_bytes(c.output_queue),
        config_fw_bytes(c).subrange(20, 24) == le_u32_bytes(c.specific_addr),
        config_fw_bytes(c).subrange(24, 28) == le_u32_bytes(c.specific_size),
{
    let b = sys_queue_bytes(q);
    assert(b.subrange(0, 8) =~= le_u64_bytes(q.host_address));
    assert(b.subrange(8, 12) =~= le_u32_bytes(q.vied_address));
    assert(b.subrange(12, 16) =~= le_u32_bytes(q.size));
    assert(b.subrange(16, 20) =~= le_u32_bytes(q.token_size));
    assert(b.subrange(20, 24) =~= le_u32_bytes(q.wr_reg));
    assert(b.subrange(24, 28) =~= le_u32_bytes(q.rd_reg));
    assert(b.subrange(28, 32) =~= le_u32_bytes(q.align));
    let d = config_fw_bytes(c);
    assert(d.subrange(0, 4) =~= le_u32_bytes(c.firmware_address));
    assert(d.subrange(4, 8) =~= le_u32_bytes(c.num_input_queues));
    assert(d.subrange(8, 12) =~= le_u32_bytes(c.num_output_queues));
    assert(d.subrange(12, 16) =~= le_u32_bytes(c.input_queue));
    assert(d.subrange(16, 20) =~= le_u32_bytes(c.output_queue));
    assert(d.subrange(20, 24) =~= le_u32_bytes(c.specific_addr));
    assert(d.subrange(24, 28) =~= le_u32_bytes(c.specific_size));
}

impl SyscomConfigFw {
    /// Serialized length in bytes.
    pub const SERIALIZED_LEN: usize = 28;

    /// The 28-byte little-endian layout of `struct ia_css_syscom_config_fw`.
    pub fn to_le_bytes(&self) -> (r: [u8; 28])
        ensures
            r@ == config_fw_bytes(*self),
    {
        let mut v = chunk_u32(self.firmware_address);
        push_bytes(&mut v, chunk_u32(self.num_input_queues));
        push_bytes(&mut v, chunk_u32(self.num_output_queues));
        push_bytes(&mut v, chunk_u32(self.input_queue));
        push_bytes(&mut v, chunk_u32(self.output_queue));
        push_bytes(&mut v, chunk_u32(self.specific_addr));
        push_bytes(&mut v, chunk_u32(self.specific_size));
        to_array(&v)
    }
}

/// The bytes of a queue slot for `payload`: exactly the payload, which must
/// be `token_size` bytes long.
pub fn serialize_token(payload: &[u8], token_size: usize) -> (r: Result<Vec<u8>>)
    ensures
        payload@.len() == token_size ==> (r matches Ok(v) && v@ == payload@),
        payload@.len() != token_size ==> r == Err::<Vec<u8>, FwComError>(
            FwComError::TokenSizeMismatch { expected: token_size, actual: payload@.len() as usize },
        ),
{
    if payload.len() != token_size {
        return Err(FwComError::TokenSizeMismatch { expected: token_size, actual: payload.len() });
    }
    let mut v: Vec<u8> = Vec::new();
    let mut i: usize = 0;
    while i < payload.len()
        invariant
            i <= payload@.len(),
            v@ == payload@.subrange(0, i as int),
        decreases payload@.len() - i,
    {
        v.push(payload[i]);
        i += 1;
    }
    Ok(v)
}

} // verus!
