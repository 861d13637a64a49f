//! A single syscom token queue.
//!
//! Slots are addressed by `counter % queue_size`, which is always in range.
//! The read and write positions are free-running `u32` counters that wrap
//! only at `u32::MAX`; the dmem form of an index (`counter % queue_size`) is
//! available through [`SharedRing::write_index`] and
//! [`SharedRing::read_index`]. One slot is always kept free, so a queue of
//! `queue_size` slots holds at most `queue_size - 1` tokens.

use vstd::prelude::*;
use crate::fw_com::error::{FwComError, Result};

verus! {

/// The distance from counter `rd` forward to counter `wr`, modulo 2^32.
pub open spec fn counter_distance(wr: u32, rd: u32) -> nat {
    if wr >= rd {
        (wr - rd) as nat
    } else {
        (wr + 0x1_0000_0000int - rd) as nat
    }
}

/// Counter `c` advanced by `n` (`0 <= n < 2^32`), modulo 2^32.
pub open spec fn counter_add(c: u32, n: int) -> u32 {
    if c + n > u32::MAX {
        (c + n - 0x1_0000_0000int) as u32
    } else {
        (c + n) as u32
    }
}

/// The state of a queue: its geometry, both counters and the slot contents.
pub struct RingState {
    pub queue_size: u32,
    pub token_size: u32,
    pub wr: u32,
    pub rd: u32,
    pub slots: Seq<Seq<u8>>,
}

impl RingState {
    /// Number of queued tokens.
    pub open spec fn len(self) -> nat {
        counter_distance(self.wr, self.rd)
    }

    /// Maximum number of queued tokens.
    pub open spec fn capacity(self) -> int {
        self.queue_size - 1
    }

    /// The slot that a counter addresses.
    pub open spec fn slot_of(self, counter: u32) -> int {
        counter as int % self.queue_size as int
    }

    /// The queued tokens, oldest first.
    pub open spec fn contents(self) -> Seq<Seq<u8>> {
        Seq::new(self.len(), |i: int| self.slots[self.slot_of(counter_add(self.rd, i))])
    }

    /// At least one slot, non-empty tokens, one slot of `token_size` bytes per
    /// queue position, and never more than `capacity` tokens queued.
    pub open spec fn wf(self) -> bool {
        &&& 1 <= self.queue_size
        &&& 1 <= self.token_size
        &&& self.slots.len() == self.queue_size
        &&& forall|i: int| 0 <= i < self.slots.len() ==> (#[trigger] self.slots[i]).len() == self.token_size
        &&& self.len() <= self.capacity()
    }

    /// The live counters do not straddle the `u32` wrap of the counters.
    pub open spec fn unwrapped(self) -> bool {
        self.rd <= self.wr
    }

    /// The queue size divides 2^32 (a power of two), so a counter addresses
    /// the same slot before and after the `u32` wrap.
    pub open spec fn wrap_aligned(self) -> bool {
        0x1_0000_0000int % (self.queue_size as int) == 0
    }
}

/// Adding 2^32 to a counter does not change its slot when the queue size
/// divides 2^32.
proof fn lemma_mod_wrap(x: int, m: int)
    requires
        0 < m,
        0x1_0000_0000int % m == 0,
    ensures
        (x + 0x1_0000_0000int) % m == x % m,
{
    vstd::arithmetic::div_mod::lemma_fundamental_div_mod(0x1_0000_0000int, m);
    let k = 0x1_0000_0000int / m;
    assert(0x1_0000_0000int == m * k);
    vstd::arithmetic::div_mod::lemma_mod_multiples_vanish(k, x, m);
}

/// A queued token and the write counter address distinct slots, when the
/// counters do not straddle the wrap or the queue size divides 2^32.
proof fn lemma_queued_slot_distinct(s: RingState, i: int)
    requires
        s.wf(),
        s.unwrapped() || s.wrap_aligned(),
        0 <= i < s.len(),
    ensures
        s.slot_of(counter_add(s.rd, i)) != s.slot_of(s.wr),
{
    let m = s.queue_size as int;
    let a = s.rd + i;
    let b = s.rd + s.len();
    lemma_mod_distinct(a, b, m);
    if s.wr >= s.rd {
        assert(b == s.wr);
        assert(counter_add(s.rd, i) == a);
    } else {
        assert(s.wrap_aligned());
        assert(b == s.wr + 0x1_0000_0000int);
        lemma_mod_wrap(s.wr as int, m);
        if a > u32::MAX {
            assert(counter_add(s.rd, i) == a - 0x1_0000_0000int);
            lemma_mod_wrap(a - 0x1_0000_0000int, m);
        } else {
            assert(counter_add(s.rd, i) == a);
        }
    }
}

/// What sending `token` does to a queue in state `s`: a token of the wrong
/// size is rejected first, then a full queue; otherwise the token fills the
/// slot of the write counter, which advances.
pub open spec fn send_outcome(s: RingState, token: Seq<u8>) -> (RingState, Result<()>) {
    if token.len() != s.token_size {
        (s, Err(FwComError::TokenSizeMismatch { expected: s.token_size as usize, actual: token.len() as usize }))
    } else if s.len() >= s.capacity() {
        (s, Err(FwComError::QueueFull))
    } else {
        (RingState { wr: counter_add(s.wr, 1), slots: s.slots.update(s.slot_of(s.wr), token), ..s }, Ok(()))
    }
}

/// What receiving into a buffer of `out_len` bytes does to a queue in state
/// `s`: a buffer of the wrong size is rejected first, then an empty queue;
/// otherwise the oldest token comes out and the read counter advances.
pub open spec fn recv_outcome(s: RingState, out_len: nat) -> (RingState, Result<Seq<u8>>) {
    if out_len != s.token_size {
        (s, Err(FwComError::TokenSizeMismatch { expected: s.token_size as usize, actual: out_len as usize }))
    } else if s.len() == 0 {
        (s, Err(FwComError::QueueEmpty))
    } else {
        (RingState { rd: counter_add(s.rd, 1), ..s }, Ok(s.slots[s.slot_of(s.rd)]))
    }
}

/// FIFO: sending a token of the right size to a queue with a free slot
/// appends it to the queued tokens, whenever the counters do not straddle the
/// `u32` wrap or the queue size divides 2^32.
pub proof fn lemma_send_fifo(s: RingState, token: Seq<u8>)
    requires
        s.wf(),
        s.unwrapped() || s.wrap_aligned(),
        token.len() == s.token_size,
        s.len() < s.capacity(),
    ensures
        send_outcome(s, token).1 is Ok,
        send_outcome(s, token).0.contents() == s.contents().push(token),
        send_outcome(s, token).0.wf(),
{
    let n = send_outcome(s, token).0;
    assert forall|i: int| 0 <= i < s.len() implies n.slot_of(counter_add(n.rd, i)) != s.slot_of(s.wr) by {
        lemma_queued_slot_distinct(s, i);
    }
    assert(n.contents() =~= s.contents().push(token));
}

/// Send-token law: committing a token acquired from a queue with a free
/// slot, with a payload `d` of the token size (what [`SendToken::commit`]
/// does, `send_outcome`), appends `d` to the queued tokens, one more token
/// queued, whenever the counters do not straddle the `u32` wrap or the queue
/// size divides 2^32.
pub proof fn lemma_token_commit(s: RingState, d: Seq<u8>)
    requires
        s.wf(),
        s.unwrapped() || s.wrap_aligned(),
        s.len() < s.capacity(),
        d.len() == s.token_size,
    ensures
        send_outcome(s, d).0.contents() == s.contents().push(d),
        send_outcome(s, d).0.len() == s.len() + 1,
        send_outcome(s, d).0.wf(),
{
    lemma_send_fifo(s, d);
    assert(send_outcome(s, d).0.contents().len() == s.len() + 1);
}

/// A token queue with bounds-checked slot storage.
#[derive(Debug)]
pub struct SharedRing {
    queue_size: u32,
    token_size: u32,
    wr: u32,
    rd: u32,
    slots: Vec<Vec<u8>>,
}

impl View for SharedRing {
    type V = RingState;

    closed spec fn view(&self) -> RingState {
        RingState {
            queue_size: self.queue_size,
            token_size: self.token_size,
            wr: self.wr,
            rd: self.rd,
            slots: Seq::new(self.slots@.len(), |i: int| self.slots@[i]@),
        }
    }
}

/// Two distinct counters closer than the queue size address distinct slots.
proof fn lemma_mod_distinct(a: int, b: int, m: int)
    requires
        0 <= a < b,
        b - a < m,
    ensures
        a % m != b % m,
{
    vstd::arithmetic::div_mod::lemma_fundamental_div_mod(a, m);
    vstd::arithmetic::div_mod::lemma_fundamental_div_mod(b, m);
    let qa = a / m;
    let qb = b / m;
    if a % m == b % m {
        assert(b - a == m * (qb - qa)) by (nonlinear_arith)
            requires
                a == m * qa + a % m,
                b == m * qb + b % m,
                a % m == b % m,
        ;
        assert(false) by (nonlinear_arith)
            requires
                b - a == m * (qb - qa),
                0 < b - a < m,
        ;
    }
}

/// A copy of the bytes of `src`.
fn copy_bytes(src: &[u8]) -> (r: Vec<u8>)
    ensures
        r@ == src@,
{
    let mut v: Vec<u8> = Vec::new();
    let mut i: usize = 0;
    while i < src.len()
        invariant
            i <= src@.len(),
            v@ == src@.subrange(0, i as int),
        decreases src@.len() - i,
    {
        v.push(src[i]);
        i += 1;
    }
    v
}

/// Copy `src` into `dst`, which has the same length.
fn copy_into(dst: &mut [u8], src: &[u8])
    requires
        old(dst)@.len() == src@.len(),
    ensures
        final(dst)@ == src@,
{
    let mut i: usize = 0;
    while i < src.len()
        invariant
            i <= src@.len(),
            dst@.len() == src@.len(),
            forall|k: int| 0 <= k < i ==> dst@[k] == src@[k],
        decreases src@.len() - i,
    {
        dst[i] = src[i];
        i += 1;
    }
    assert(dst@ =~= src@);
}

impl SharedRing {
    /// A queue of `queue_size` zero-filled slots of `token_size` bytes each,
    /// with both counters at zero. Zero sizes are rejected, the queue size
    /// first.
    pub fn new(queue_size: u32, token_size: u32) -> (r: Result<Self>)
        ensures
            queue_size == 0 ==> r == Err::<Self, FwComError>(FwComError::ZeroQueueSize),
            queue_size != 0 && token_size == 0 ==> r == Err::<Self, FwComError>(FwComError::ZeroTokenSize),
            queue_size != 0 && token_size != 0 ==> (r matches Ok(ring) && ring@ == (RingState {
                queue_size,
                token_size,
                wr: 0,
                rd: 0,
                slots: Seq::new(queue_size as nat, |i: int| Seq::new(token_size as nat, |j: int| 0u8)),
            }) && ring@.wf()),
    {
        if queue_size == 0 {
            return Err(FwComError::ZeroQueueSize);
        }
        if token_size == 0 {
            return Err(FwComError::ZeroTokenSize);
        }
        let mut slots: Vec<Vec<u8>> = Vec::new();
        let mut i: u32 = 0;
        while i < queue_size
            invariant
                i <= queue_size,
                slots@.len() == i,
                forall|k: int| 0 <= k < i ==> (#[trigger] slots@[k])@ == Seq::new(token_size as nat, |j: int| 0u8),
            decreases queue_size - i,
        {
            let slot = vec![0u8; token_size as usize];
            assert(slot@ =~= Seq::new(token_size as nat, |j: int| 0u8));
            slots.push(slot);
            i += 1;
        }
        let ring = SharedRing { queue_size, token_size, wr: 0, rd: 0, slots };
        assert(ring@.slots =~= Seq::new(queue_size as nat, |i: int| Seq::new(token_size as nat, |j: int| 0u8)));
        Ok(ring)
    }

    /// Number of slots in the queue.
    pub fn queue_size(&self) -> (r: u32)
        ensures
            r == self@.queue_size,
    {
        self.queue_size
    }

    /// Bytes per token.
    pub fn token_size(&self) -> (r: u32)
        ensures
            r == self@.token_size,
    {
        self.token_size
    }

    /// Maximum number of tokens the queue holds at once: one less than its slots.
    pub fn capacity(&self) -> (r: u32)
        requires
            self@.wf(),
        ensures
            r == self@.capacity(),
    {
        self.queue_size - 1
    }

    /// The write index in dmem form.
    pub fn write_index(&self) -> (r: u32)
        requires
            self@.wf(),
        ensures
            r == self@.slot_of(self@.wr),
            r < self@.queue_size,
    {
        self.wr % self.queue_size
    }

    /// The read index in dmem form.
    pub fn read_index(&self) -> (r: u32)
        requires
            self@.wf(),
        ensures
            r == self@.slot_of(self@.rd),
            r < self@.queue_size,
    {
        self.rd % self.queue_size
    }

    /// The slot that a counter addresses.
    fn slot(&self, counter: u32) -> (r: usize)
        requires
            self@.wf(),
        ensures
            r == self@.slot_of(counter),
            r < self@.queue_size,
    {
        (counter % self.queue_size) as usize
    }

    /// Occupancy from a pair of counters.
    fn occupancy(wr: u32, rd: u32) -> (r: u32)
        ensures
            r == counter_distance(wr, rd),
    {
        wr.wrapping_sub(rd)
    }

    /// Number of queued tokens.
    pub fn len(&self) -> (r: u32)
        ensures
            r == self@.len(),
    {
        Self::occupancy(self.wr, self.rd)
    }

    /// Whether no token is queued.
    pub fn is_empty(&self) -> (r: bool)
        ensures
            r == (self@.len() == 0),
    {
        self.len() == 0
    }

    /// Whether the queue cannot take another token.
    pub fn is_full(&self) -> (r: bool)
        requires
            self@.wf(),
        ensures
            r == (self@.len() >= self@.capacity()),
    {
        self.len() >= self.capacity()
    }

    /// Copy a token into the next free slot and publish it. A token of the
    /// wrong size is rejected first, then a full queue.
    ///
    /// The token joins the back of the queue whenever the live counters do
    /// not straddle the `u32` wrap.
    pub fn try_send(&mut self, token: &[u8]) -> (r: Result<()>)
        requires
            old(self)@.wf(),
        ensures
            final(self)@.wf(),
            (final(self)@, r) == send_outcome(old(self)@, token@),
            token@.len() != old(self)@.token_size ==> r == Err::<(), FwComError>(
                FwComError::TokenSizeMismatch { expected: old(self)@.token_size as usize, actual: token@.len() as usize },
            ) && final(self)@ == old(self)@,
            token@.len() == old(self)@.token_size && old(self)@.len() >= old(self)@.capacity() ==> r == Err::<(), FwComError>(
                FwComError::QueueFull,
            ) && final(self)@ == old(self)@,
            token@.len() == old(self)@.token_size && old(self)@.len() < old(self)@.capacity() ==> {
                &&& r is Ok
                &&& final(self)@ == (RingState {
                    wr: counter_add(old(self)@.wr, 1),
                    slots: old(self)@.slots.update(old(self)@.slot_of(old(self)@.wr), token@),
                    ..old(self)@
                })
                &&& final(self)@.len() == old(self)@.len() + 1
                &&& old(self)@.unwrapped() || old(self)@.wrap_aligned() ==> final(self)@.contents() == old(
                    self,
                )@.contents().push(token@)
            },
    {
        if token.len() != self.token_size as usize {
            return Err(FwComError::TokenSizeMismatch { expected: self.token_size as usize, actual: token.len() });
        }
        let wr = self.wr;
        let rd = self.rd;
        if Self::occupancy(wr, rd) >= self.queue_size - 1 {
            return Err(FwComError::QueueFull);
        }
        let idx = self.slot(wr);
        let bytes = copy_bytes(token);
        self.slots.set(idx, bytes);
        self.wr = wr.wrapping_add(1);
        proof {
            let o = old(self)@;
            let n = self@;
            assert(n.slots =~= o.slots.update(o.slot_of(o.wr), token@));
            if o.unwrapped() || o.wrap_aligned() {
                assert forall|i: int| 0 <= i < o.len() implies n.slot_of(counter_add(n.rd, i)) != o.slot_of(o.wr) by {
                    lemma_queued_slot_distinct(o, i);
                }
                assert(n.contents() =~= o.contents().push(token@));
            }
        }
        Ok(())
    }

    /// Copy the oldest token into `out` and release its slot. A buffer of the
    /// wrong size is rejected first, then an empty queue.
    pub fn try_recv(&mut self, out: &mut [u8]) -> (r: Result<()>)
        requires
            old(self)@.wf(),
        ensures
            final(self)@.wf(),
            final(self)@ == recv_outcome(old(self)@, old(out)@.len()).0,
            match recv_outcome(old(self)@, old(out)@.len()).1 {
                Ok(t) => r is Ok && final(out)@ == t,
                Err(e) => r == Err::<(), FwComError>(e) && final(out)@ == old(out)@,
            },
            old(out)@.len() != old(self)@.token_size ==> r == Err::<(), FwComError>(
                FwComError::TokenSizeMismatch { expected: old(self)@.token_size as usize, actual: old(out)@.len() as usize },
            ) && final(self)@ == old(self)@ && final(out)@ == old(out)@,
            old(out)@.len() == old(self)@.token_size && old(self)@.len() == 0 ==> r == Err::<(), FwComError>(
                FwComError::QueueEmpty,
            ) && final(self)@ == old(self)@ && final(out)@ == old(out)@,
            old(out)@.len() == old(self)@.token_size && old(self)@.len() > 0 ==> {
                &&& r is Ok
                &&& final(out)@ == old(self)@.contents()[0]
                &&& final(self)@ == (RingState { rd: counter_add(old(self)@.rd, 1), ..old(self)@ })
                &&& final(self)@.contents() == old(self)@.contents().drop_first()
            },
    {
        if out.len() != self.token_size as usize {
            return Err(FwComError::TokenSizeMismatch { expected: self.token_size as usize, actual: out.len() });
        }
        let rd = self.rd;
        let wr = self.wr;
        if Self::occupancy(wr, rd) == 0 {
            return Err(FwComError::QueueEmpty);
        }
        let idx = self.slot(rd);
        assert(self@.slots[idx as int].len() == self.token_size);
        copy_into(out, self.slots[idx].as_slice());
        self.rd = rd.wrapping_add(1);
        proof {
            let o = old(self)@;
            assert(self@.contents() =~= o.contents().drop_first());
        }
        Ok(())
    }

    /// Copy the oldest token into `out` without consuming it. A buffer of the
    /// wrong size is rejected first, then an empty queue.
    pub fn peek_front(&self, out: &mut [u8]) -> (r: Result<()>)
        requires
            self@.wf(),
        ensures
            old(out)@.len() != self@.token_size ==> r == Err::<(), FwComError>(
                FwComError::TokenSizeMismatch { expected: self@.token_size as usize, actual: old(out)@.len() as usize },
            ) && final(out)@ == old(out)@,
            old(out)@.len() == self@.token_size && self@.len() == 0 ==> r == Err::<(), FwComError>(
                FwComError::QueueEmpty,
            ) && final(out)@ == old(out)@,
            old(out)@.len() == self@.token_size && self@.len() > 0 ==> r is Ok && final(out)@ == self@.contents()[0],
    {
        if out.len() != self.token_size as usize {
            return Err(FwComError::TokenSizeMismatch { expected: self.token_size as usize, actual: out.len() });
        }
        if Self::occupancy(self.wr, self.rd) == 0 {
            return Err(FwComError::QueueEmpty);
        }
        let idx = self.slot(self.rd);
        assert(self@.slots[idx as int].len() == self.token_size);
        copy_into(out, self.slots[idx].as_slice());
        Ok(())
    }

    /// Release the oldest token without reading it.
    pub fn advance_read(&mut self) -> (r: Result<()>)
        requires
            old(self)@.wf(),
        ensures
            final(self)@.wf(),
            old(self)@.len() == 0 ==> r == Err::<(), FwComError>(FwComError::QueueEmpty) && final(self)@ == old(self)@,
            old(self)@.len() > 0 ==> {
                &&& r is Ok
                &&& final(self)@ == (RingState { rd: counter_add(old(self)@.rd, 1), ..old(self)@ })
                &&& final(self)@.contents() == old(self)@.contents().drop_first()
            },
    {
        let rd = self.rd;
        if Self::occupancy(self.wr, rd) == 0 {
            return Err(FwComError::QueueEmpty);
        }
        self.rd = rd.wrapping_add(1);
        proof {
            assert(self@.contents() =~= old(self)@.contents().drop_first());
        }
        Ok(())
    }

    /// Take the next free slot for writing without publishing it; the token
    /// becomes visible only on [`SendToken::commit`], and dropping the handle
    /// abandons the slot.
    pub fn acquire_send(&mut self) -> (r: Result<SendToken<'_>>)
        requires
            old(self)@.wf(),
        ensures
            old(self)@.len() >= old(self)@.capacity() ==> r == Err::<SendToken, FwComError>(FwComError::QueueFull)
                && *final(self) == *old(self),
            old(self)@.len() < old(self)@.capacity() ==> (r matches Ok(tok) && {
                &&& *tok.ring == *old(self)
                &&& tok.counter == old(self)@.wr
                &&& tok.payload() == old(self)@.slots[old(self)@.slot_of(old(self)@.wr)]
                &&& *final(self) == *final(tok.ring)
            }),
    {
        let wr = self.wr;
        if Self::occupancy(wr, self.rd) >= self.queue_size - 1 {
            return Err(FwComError::QueueFull);
        }
        let idx = self.slot(wr);
        let data = copy_bytes(self.slots[idx].as_slice());
        Ok(SendToken { ring: self, counter: wr, data })
    }

    /// Take the oldest queued token for reading without consuming it; its
    /// slot is released only on [`RecvToken::commit`].
    pub fn acquire_recv(&mut self) -> (r: Result<RecvToken<'_>>)
        requires
            old(self)@.wf(),
        ensures
            old(self)@.len() == 0 ==> r == Err::<RecvToken, FwComError>(FwComError::QueueEmpty)
                && *final(self) == *old(self),
            old(self)@.len() > 0 ==> (r matches Ok(tok) && {
                &&& *tok.ring == *old(self)
                &&& tok.counter == old(self)@.rd
                &&& tok.payload() == old(self)@.contents()[0]
                &&& *final(self) == *final(tok.ring)
            }),
    {
        let rd = self.rd;
        if Self::occupancy(self.wr, rd) == 0 {
            return Err(FwComError::QueueEmpty);
        }
        let idx = self.slot(rd);
        let data = copy_bytes(self.slots[idx].as_slice());
        Ok(RecvToken { ring: self, counter: rd, data })
    }
}

/// Write handle to a single queue slot, from [`SharedRing::acquire_send`].
#[derive(Debug)]
pub struct SendToken<'a> {
    /// The queue the slot belongs to.
    pub ring: &'a mut SharedRing,
    /// The counter of the slot.
    pub counter: u32,
    /// The payload bytes.
    pub data: Vec<u8>,
}

impl<'a> SendToken<'a> {
    /// The payload bytes.
    pub open spec fn payload(&self) -> Seq<u8> {
        self.data@
    }

    /// Mutable view of the payload bytes.
    pub fn data_mut(&mut self) -> (r: &mut [u8])
        ensures
            r@ == old(self).payload(),
            final(self).payload() == final(r)@,
            final(self).counter == old(self).counter,
            *final(self).ring == *old(self).ring,
            *final(final(self).ring) == *final(old(self).ring),
    {
        self.data.as_mut_slice()
    }

    /// Publish the token: write the payload into its slot and advance the
    /// write counter past it. A payload resized away from the token size is
    /// not published.
    pub fn commit(self)
        requires
            old(self.ring)@.wf(),
            self.counter == old(self.ring)@.wr,
            old(self.ring)@.len() < old(self.ring)@.capacity(),
        ensures
            self.payload().len() == old(self.ring)@.token_size ==> final(self.ring)@ == (RingState {
                wr: counter_add(old(self.ring)@.wr, 1),
                slots: old(self.ring)@.slots.update(old(self.ring)@.slot_of(old(self.ring)@.wr), self.payload()),
                ..old(self.ring)@
            }),
            self.payload().len() != old(self.ring)@.token_size ==> final(self.ring)@ == old(self.ring)@,
            self.payload().len() == old(self.ring)@.token_size && (old(self.ring)@.unwrapped() || old(
                self.ring,
            )@.wrap_aligned()) ==> final(self.ring)@.contents() == old(self.ring)@.contents().push(self.payload()),
            final(self.ring)@ == send_outcome(old(self.ring)@, self.payload()).0,
            final(self.ring)@.wf(),
    {
        proof {
            if self.payload().len() == old(self.ring)@.token_size && (old(self.ring)@.unwrapped() || old(
                self.ring,
            )@.wrap_aligned()) {
                lemma_send_fifo(old(self.ring)@, self.payload());
            }
        }
        let SendToken { ring, counter, data } = self;
        if data.len() == ring.token_size as usize {
            let idx = ring.slot(counter);
            ring.slots.set(idx, data);
            ring.wr = counter.wrapping_add(1);
            proof {
                assert(ring@.slots =~= old(self.ring)@.slots.update(old(self.ring)@.slot_of(old(self.ring)@.wr), self.payload()));
            }
        }
    }
}

/// Read handle to the oldest queued token, from [`SharedRing::acquire_recv`].
#[derive(Debug)]
pub struct RecvToken<'a> {
    /// The queue the slot belongs to.
    pub ring: &'a mut SharedRing,
    /// The counter of the slot.
    pub counter: u32,
    /// The payload bytes.
    pub data: Vec<u8>,
}

impl<'a> RecvToken<'a> {
    /// The payload bytes.
    pub open spec fn payload(&self) -> Seq<u8> {
        self.data@
    }

    /// Read-only view of the payload bytes.
    pub fn data(&self) -> (r: &[u8])
        ensures
            r@ == self.payload(),
    {
        self.data.as_slice()
    }

    /// Release the slot and advance the read counter past it.
    pub fn commit(self)
        requires
            old(self.ring)@.wf(),
            self.counter == old(self.ring)@.rd,
            old(self.ring)@.len() > 0,
        ensures
            final(self.ring)@ == (RingState { rd: counter_add(old(self.ring)@.rd, 1), ..old(self.ring)@ }),
            final(self.ring)@.contents() == old(self.ring)@.contents().drop_first(),
            final(self.ring)@.wf(),
    {
        let RecvToken { ring, counter, data } = self;
        ring.rd = counter.wrapping_add(1);
        proof {
            assert(ring@.contents() =~= old(self.ring)@.contents().drop_first());
        }
    }
}

} // verus!
