//! Index arithmetic of the firmware queues, as the firmware keeps the write
//! and read indices in dmem: wrapped into `0..size`.

use vstd::prelude::*;

verus! {

/// Number of tokens queued between the write index `wr` and the read index
/// `rd` of a queue of `size` slots.
pub open spec fn spec_num_messages(wr: u32, rd: u32, size: u32) -> int {
    if wr < rd {
        wr + size - rd
    } else {
        wr - rd
    }
}

/// Number of tokens queued between `wr` and `rd` (`wr` behind `rd` means the
/// writer has wrapped). A write index so far behind that even a wrap does not
/// reach the read index has no count.
pub fn num_messages(wr: u32, rd: u32, size: u32) -> (r: u32)
    requires
        spec_num_messages(wr, rd, size) >= 0,
    ensures
        r == spec_num_messages(wr, rd, size),
        wr < size && rd < size ==> r < size,
{
    let mut w = wr as u64;
    let d = rd as u64;
    if w < d {
        w = w + size as u64;
    }
    (w - d) as u32
}

/// Number of free slots: the queue size less the queued tokens. An index
/// pair that claims more tokens than slots has no free count.
pub fn num_free(wr: u32, rd: u32, size: u32) -> (r: u32)
    requires
        0 <= spec_num_messages(wr, rd, size) <= size,
    ensures
        r == size - spec_num_messages(wr, rd, size),
{
    size - num_messages(wr, rd, size)
}

/// For indices inside the queue, the free slots and the queued tokens add up
/// to the queue size.
pub proof fn lemma_free_and_queued(wr: u32, rd: u32, size: u32)
    requires
        wr < size,
        rd < size,
    ensures
        0 <= spec_num_messages(wr, rd, size) < size,
        (size - spec_num_messages(wr, rd, size)) + spec_num_messages(wr, rd, size) == size,
{
}

/// For indices inside the queue, the queued count is the distance from the
/// read index forward to the write index, modulo the queue size; a write
/// that advances the write index by one slot (wrapping at `size`) on a queue
/// that is not full adds exactly one token.
pub proof fn lemma_num_messages_distance(wr: u32, rd: u32, size: u32)
    requires
        wr < size,
        rd < size,
    ensures
        spec_num_messages(wr, rd, size) == (wr - rd) % (size as int),
        spec_num_messages(wr, rd, size) < size - 1 ==> spec_num_messages(
            (if wr + 1 == size { 0 } else { wr + 1 }) as u32,
            rd,
            size,
        ) == spec_num_messages(wr, rd, size) + 1,
{
    let m = size as int;
    let d = wr - rd;
    if d >= 0 {
        vstd::arithmetic::div_mod::lemma_small_mod(d as nat, m as nat);
    } else {
        vstd::arithmetic::div_mod::lemma_small_mod((d + m) as nat, m as nat);
        vstd::arithmetic::div_mod::lemma_mod_add_multiples_vanish(d, m);
    }
}

/// The index after `index`, wrapping to zero at `size`; an index at or past
/// the end (a corrupt dmem value included) also yields zero.
pub fn inc_index(index: u32, size: u32) -> (r: u32)
    ensures
        r == (if index as int + 1 >= size as int || index == u32::MAX { 0 } else { index + 1 }),
        size > 0 ==> r < size,
{
    let next = index.wrapping_add(1);
    if next >= size {
        0
    } else {
        next
    }
}

/// Whether `index` addresses a slot of a queue of `size` slots.
pub fn is_index_valid(index: u32, size: u32) -> (r: bool)
    ensures
        r == (index < size),
{
    index < size
}

} // verus!
