//! Fixed-capacity record arrays of the ABI layout: `n` slots, the first ones
//! holding records and the rest zero-filled, as a zero-initialised ABI
//! structure leaves them.

use vstd::prelude::*;
use crate::fw_msgs::bytes::{
    c_pad, chunk_pad, chunks_view, flat, holds_at, lemma_flat_append, lemma_flat_single,
    lemma_holds_chunks_split,
};
use crate::fw_msgs::error::{Error, Result};
use crate::fw_msgs::messages::{view_read, Marshal};

verus! {

/// The field chunks of `n` slots with `items` in front; every slot past the
/// items is one zero-filled chunk of the record size.
pub open spec fn slot_chunks<T: Marshal>(items: Seq<T>, n: nat) -> Seq<Seq<u8>>
    decreases n,
{
    if n == 0 {
        Seq::empty()
    } else {
        let k = (n - 1) as nat;
        slot_chunks(items, k) + (if k < items.len() {
            items[k as int].spec_chunks()
        } else {
            seq![c_pad(T::SERIALIZED_SIZE as nat)]
        })
    }
}

/// Reading `n` consecutive records from `pos`: their views and the position
/// after them, or the first error met.
pub open spec fn read_seq<T: Marshal>(s: Seq<u8>, pos: usize, n: nat) -> Result<(Seq<T::V>, usize)>
    decreases n,
{
    if n == 0 {
        Ok((Seq::empty(), pos))
    } else {
        match read_seq::<T>(s, pos, (n - 1) as nat) {
            Err(e) => Err(e),
            Ok((vs, p)) => match T::spec_read(s, p) {
                Err(e) => Err(e),
                Ok((v, q)) => Ok((vs.push(v), q)),
            },
        }
    }
}

/// What reading `n` slots back yields: each record normalized, and the
/// normalized `zero` record for every empty slot.
pub open spec fn slot_values<T: Marshal>(items: Seq<T>, n: nat, zero: T) -> Seq<T::V> {
    Seq::new(n, |i: int| if i < items.len() { items[i].spec_normalize() } else { zero.spec_normalize() })
}

/// The record that an all-zero slot reads as: valid, and serialized to zeros.
pub open spec fn is_zero_record<T: Marshal>(zero: T) -> bool {
    &&& zero.spec_validate() is Ok
    &&& flat(zero.spec_chunks()) == c_pad(T::SERIALIZED_SIZE as nat)
}

/// Every record of `items` is valid.
pub open spec fn all_valid<T: Marshal>(items: Seq<T>) -> bool {
    forall|i: int| 0 <= i < items.len() ==> (#[trigger] items[i]).spec_validate() is Ok
}

proof fn lemma_mul_step(k: nat, n: nat, size: nat)
    requires
        k < n,
    ensures
        (k + 1) * size == k * size + size,
        (k + 1) * size <= n * size,
{
    assert((k + 1) * size == k * size + size) by (nonlinear_arith);
    assert((k + 1) * size <= n * size) by (nonlinear_arith)
        requires
            k + 1 <= n,
    ;
}

/// `n` slots serialize to `n` record sizes.
pub proof fn lemma_slots_len<T: Marshal>(items: Seq<T>, n: nat)
    requires
        all_valid(items),
    ensures
        flat(slot_chunks(items, n)).len() == n * T::SERIALIZED_SIZE,
    decreases n,
{
    if n == 0 {
        assert(flat(slot_chunks(items, n)) =~= Seq::<u8>::empty());
    } else {
        let k = (n - 1) as nat;
        let size = T::SERIALIZED_SIZE as nat;
        lemma_slots_len(items, k);
        lemma_mul_step(k, n, size);
        let last = if k < items.len() { items[k as int].spec_chunks() } else { seq![c_pad(size)] };
        assert(slot_chunks(items, n) == slot_chunks(items, k) + last);
        lemma_flat_append(slot_chunks(items, k), last);
        if k < items.len() {
            items[k as int].lemma_size();
        } else {
            lemma_flat_single(c_pad(size));
        }
    }
}

/// Slot `i` of `n` serialized slots holds, at `i` record sizes from the
/// start, the serialization of item `i`, or zeros past the items.
pub proof fn lemma_slot_bytes<T: Marshal>(items: Seq<T>, n: nat, i: int)
    requires
        all_valid(items),
        0 <= i < n,
    ensures
        flat(slot_chunks(items, n)).subrange(i * T::SERIALIZED_SIZE, i * T::SERIALIZED_SIZE + T::SERIALIZED_SIZE) == (
        if i < items.len() {
            flat(items[i].spec_chunks())
        } else {
            c_pad(T::SERIALIZED_SIZE as nat)
        }),
    decreases n,
{
    let k = (n - 1) as nat;
    let size = T::SERIALIZED_SIZE as nat;
    lemma_slots_len(items, k);
    lemma_mul_step(k, n, size);
    let last = if k < items.len() { items[k as int].spec_chunks() } else { seq![c_pad(size)] };
    assert(slot_chunks(items, n) == slot_chunks(items, k) + last);
    lemma_flat_append(slot_chunks(items, k), last);
    let a = flat(slot_chunks(items, k));
    let b = flat(last);
    if k < items.len() {
        items[k as int].lemma_size();
    } else {
        lemma_flat_single(c_pad(size));
    }
    if i < k {
        lemma_slot_bytes(items, k, i);
        assert(i * size + size <= k * size) by (nonlinear_arith)
            requires
                i < k,
                0 <= i,
        ;
        assert(i * size >= 0) by (nonlinear_arith)
            requires
                0 <= i,
        ;
        assert((a + b).subrange(i * size, i * size + size) =~= a.subrange(i * size, i * size + size));
    } else {
        assert(i == k);
        assert((a + b).subrange(i * size, i * size + size) =~= b);
    }
}

/// Reading back `n` serialized slots yields the records, normalized, and the
/// zero record for each empty slot.
pub proof fn lemma_read_slots<T: Marshal>(items: Seq<T>, n: nat, zero: T, s: Seq<u8>, pos: usize)
    requires
        all_valid(items),
        is_zero_record(zero),
        pos + n * T::SERIALIZED_SIZE <= usize::MAX,
        holds_at(s, pos as int, flat(slot_chunks(items, n))),
    ensures
        read_seq::<T>(s, pos, n) == Ok::<(Seq<T::V>, usize), Error>(
            (slot_values(items, n, zero), (pos + n * T::SERIALIZED_SIZE) as usize),
        ),
    decreases n,
{
    if n == 0 {
        assert(slot_values(items, n, zero) =~= Seq::<T::V>::empty());
    } else {
        let k = (n - 1) as nat;
        let size = T::SERIALIZED_SIZE as nat;
        lemma_mul_step(k, n, size);
        lemma_slots_len(items, k);
        let last = if k < items.len() { items[k as int].spec_chunks() } else { seq![c_pad(size)] };
        assert(slot_chunks(items, n) == slot_chunks(items, k) + last);
        lemma_holds_chunks_split(s, pos as int, slot_chunks(items, k), last);
        lemma_read_slots(items, k, zero, s, pos);
        let p = (pos + k * size) as usize;
        if k < items.len() {
            items[k as int].lemma_read_back(s, p);
        } else {
            lemma_flat_single(c_pad(size));
            zero.lemma_read_back(s, p);
        }
        let v = if k < items.len() { items[k as int].spec_normalize() } else { zero.spec_normalize() };
        assert(p + size == pos + n * size);
        assert(T::spec_read(s, p) == Ok::<(T::V, usize), Error>((v, (p + size) as usize)));
        assert(read_seq::<T>(s, pos, k) == Ok::<(Seq<T::V>, usize), Error>((slot_values(items, k, zero), p)));
        assert(slot_values(items, k, zero).push(
            if k < items.len() { items[k as int].spec_normalize() } else { zero.spec_normalize() },
        ) =~= slot_values(items, n, zero));
    }
}

/// A successful read of `n` records yields `n` views.
pub proof fn lemma_read_seq_len<T: Marshal>(s: Seq<u8>, pos: usize, n: nat)
    ensures
        read_seq::<T>(s, pos, n) matches Ok((vs, _)) ==> vs.len() == n,
    decreases n,
{
    if n > 0 {
        lemma_read_seq_len::<T>(s, pos, (n - 1) as nat);
    }
}

/// Full slots holding, by view, what reading back `n` slots of `items`
/// yields are valid and serialize to the same bytes as those slots.
pub proof fn lemma_slots_reserialize<T: Marshal>(items: Seq<T>, n: nat, zero: T, other: Seq<T>)
    requires
        all_valid(items),
        is_zero_record(zero),
        items.len() <= n,
        other.len() == n,
        forall|i: int| 0 <= i < n ==> (#[trigger] other[i])@ == slot_values(items, n, zero)[i],
    ensures
        all_valid(other),
        flat(slot_chunks(other, n)) == flat(slot_chunks(items, n)),
    decreases n,
{
    assert forall|i: int| 0 <= i < other.len() implies (#[trigger] other[i]).spec_validate() is Ok by {
        if i < items.len() {
            items[i].lemma_reserialize(&other[i]);
        } else {
            zero.lemma_reserialize(&other[i]);
        }
    }
    if n > 0 {
        let k = (n - 1) as nat;
        let prefix = other.take(k as int);
        assert forall|i: int| 0 <= i < k implies (#[trigger] prefix[i])@ == slot_values(items, k, zero)[i] by {
            assert(prefix[i] == other[i]);
        }
        if items.len() <= k {
            lemma_slots_reserialize(items, k, zero, prefix);
        } else {
            lemma_slots_reserialize(items.take(k as int), k, zero, prefix);
            lemma_slot_chunks_prefix(items, k);
        }
        lemma_slot_chunks_prefix(other, k);
        let last_other = other[k as int].spec_chunks();
        let last = if k < items.len() { items[k as int].spec_chunks() } else { seq![c_pad(T::SERIALIZED_SIZE as nat)] };
        assert(slot_chunks(other, n) == slot_chunks(other, k) + last_other);
        assert(slot_chunks(items, n) == slot_chunks(items, k) + last);
        lemma_flat_append(slot_chunks(other, k), last_other);
        lemma_flat_append(slot_chunks(items, k), last);
        if k < items.len() {
            items[k as int].lemma_reserialize(&other[k as int]);
        } else {
            zero.lemma_reserialize(&other[k as int]);
            lemma_flat_single(c_pad(T::SERIALIZED_SIZE as nat));
        }
    }
}

/// The first `k` slots only depend on the first `k` items.
pub proof fn lemma_slot_chunks_prefix<T: Marshal>(items: Seq<T>, k: nat)
    requires
        k <= items.len(),
    ensures
        slot_chunks(items.take(k as int), k) == slot_chunks(items, k),
        slot_chunks(items.take(k as int), k) == slot_chunks(items, k),
    decreases k,
{
    if k > 0 {
        let j = (k - 1) as nat;
        lemma_slot_chunks_prefix(items, j);
        lemma_slot_chunks_take(items, k, j);
    }
}

/// Slots below `j` see the same items in `items` and in any longer prefix.
proof fn lemma_slot_chunks_take<T: Marshal>(items: Seq<T>, k: nat, j: nat)
    requires
        j <= k <= items.len(),
    ensures
        slot_chunks(items.take(k as int), j) == slot_chunks(items, j),
    decreases j,
{
    if j > 0 {
        lemma_slot_chunks_take(items, k, (j - 1) as nat);
    }
}

/// Once reading `m` records fails, reading more fails with the same error.
pub proof fn lemma_read_seq_err<T: Marshal>(s: Seq<u8>, pos: usize, m: nat, n: nat, e: Error)
    requires
        m <= n,
        read_seq::<T>(s, pos, m) == Err::<(Seq<T::V>, usize), Error>(e),
    ensures
        read_seq::<T>(s, pos, n) == Err::<(Seq<T::V>, usize), Error>(e),
    decreases n,
{
    if n > m {
        lemma_read_seq_err::<T>(s, pos, m, (n - 1) as nat, e);
    }
}

/// The field chunks of `n` slots holding `items` in front.
pub fn slot_chunks_of<T: Marshal>(items: &[T], n: usize) -> (r: Vec<Vec<u8>>)
    requires
        items@.len() <= n,
        all_valid(items@),
    ensures
        chunks_view(r@) == slot_chunks(items@, n as nat),
{
    let mut v: Vec<Vec<u8>> = Vec::new();
    let mut i: usize = 0;
    while i < n
        invariant
            i <= n,
            items@.len() <= n,
            all_valid(items@),
            chunks_view(v@) == slot_chunks(items@, i as nat),
        decreases n - i,
    {
        let ghost before = v@;
        if i < items.len() {
            let mut c = items[i].chunks();
            let ghost added = c@;
            v.append(&mut c);
            proof { assert(v@ == before + added); }
            assert(chunks_view(v@) =~= chunks_view(before) + chunks_view(added));
        } else {
            v.push(chunk_pad(T::SERIALIZED_SIZE));
            assert(chunks_view(v@) =~= chunks_view(before) + seq![c_pad(T::SERIALIZED_SIZE as nat)]);
        }
        i += 1;
    }
    v
}

/// Read `n` consecutive records starting at `pos` of `buf`.
pub fn read_items<T: Marshal>(buf: &[u8], pos: usize, n: usize) -> (r: Result<(Vec<T>, usize)>)
    requires
        pos + n * T::SERIALIZED_SIZE <= usize::MAX,
    ensures
        match r {
            Ok((v, p)) => {
                &&& read_seq::<T>(buf@, pos, n as nat) == Ok::<(Seq<T::V>, usize), Error>(
                    (v@.map_values(|x: T| x@), p),
                )
                &&& p == pos + n * T::SERIALIZED_SIZE
            },
            Err(e) => read_seq::<T>(buf@, pos, n as nat) == Err::<(Seq<T::V>, usize), Error>(e),
        },
        r matches Ok((v, _)) ==> v@.len() == n,
{
    let mut v: Vec<T> = Vec::new();
    let mut p: usize = pos;
    let mut i: usize = 0;
    assert(v@.map_values(|x: T| x@) =~= Seq::<T::V>::empty());
    while i < n
        invariant
            i <= n,
            pos + n * T::SERIALIZED_SIZE <= usize::MAX,
            p == pos + i * T::SERIALIZED_SIZE,
            read_seq::<T>(buf@, pos, i as nat) == Ok::<(Seq<T::V>, usize), Error>((v@.map_values(|x: T| x@), p)),
        decreases n - i,
    {
        proof { lemma_mul_step(i as nat, n as nat, T::SERIALIZED_SIZE as nat); }
        let ghost before = v@;
        match T::read_at(buf, p) {
            Err(e) => {
                proof { lemma_read_seq_err::<T>(buf@, pos, (i + 1) as nat, n as nat, e); }
                return Err(e);
            },
            Ok((x, q)) => {
                v.push(x);
                p = q;
                assert(v@.map_values(|x: T| x@) =~= before.map_values(|x: T| x@).push(x@));
            },
        }
        i += 1;
    }
    proof { lemma_read_seq_len::<T>(buf@, pos, n as nat); }
    Ok((v, p))
}

} // verus!
