//! Byte-level model of serialization: fields ("chunks") written in order into
//! a buffer, and bounds-checked little-endian reads at a position.
//!
//! A serialized message is a sequence of chunks, one per field (padding
//! included). Writing stops at the first chunk that does not fit, reporting
//! the end offset that chunk would have needed; reading does the same.

use vstd::prelude::*;
use crate::fw_msgs::error::{Error, Result};

verus! {

/// The bytes of a chunk sequence laid end to end.
pub open spec fn flat(cs: Seq<Seq<u8>>) -> Seq<u8>
    decreases cs.len(),
{
    if cs.len() == 0 {
        Seq::empty()
    } else {
        flat(cs.drop_last()) + cs.last()
    }
}

/// Flattening distributes over concatenation.
pub broadcast proof fn lemma_flat_append(a: Seq<Seq<u8>>, b: Seq<Seq<u8>>)
    ensures
        #[trigger] flat(a + b) == flat(a) + flat(b),
    decreases b.len(),
{
    if b.len() == 0 {
        assert(a + b =~= a);
        assert(flat(b) =~= Seq::<u8>::empty());
        assert(flat(a) + flat(b) =~= flat(a));
    } else {
        lemma_flat_append(a, b.drop_last());
        assert((a + b).drop_last() =~= a + b.drop_last());
        assert((a + b).last() == b.last());
        assert(flat(a + b) =~= flat(a) + flat(b));
    }
}

/// Appending a chunk appends its bytes.
pub broadcast proof fn lemma_flat_push(cs: Seq<Seq<u8>>, c: Seq<u8>)
    ensures
        #[trigger] flat(cs.push(c)) == flat(cs) + c,
{
    assert(cs.push(c).drop_last() =~= cs);
}

/// No chunks, no bytes.
pub broadcast proof fn lemma_flat_empty(cs: Seq<Seq<u8>>)
    requires
        cs.len() == 0,
    ensures
        #[trigger] flat(cs) == Seq::<u8>::empty(),
{
}

/// Nothing followed by `x` is `x`.
pub broadcast proof fn lemma_empty_concat(x: Seq<u8>)
    ensures
        #[trigger] (Seq::<u8>::empty() + x) == x,
{
    assert(Seq::<u8>::empty() + x =~= x);
}

/// A single chunk flattens to itself.
pub proof fn lemma_flat_single(c: Seq<u8>)
    ensures
        flat(seq![c]) == c,
{
    let s1 = seq![c];
    assert(s1.drop_last() =~= Seq::<Seq<u8>>::empty());
    assert(flat(s1.drop_last()) =~= Seq::<u8>::empty());
    assert(s1.last() == c);
    assert(flat(s1) =~= c);
}

/// The byte contents of a vector of chunks.
pub open spec fn chunks_view(v: Seq<Vec<u8>>) -> Seq<Seq<u8>> {
    Seq::new(v.len(), |i: int| v[i]@)
}

/// `buf` with `c` written at `pos`.
pub open spec fn splice(buf: Seq<u8>, pos: int, c: Seq<u8>) -> Seq<u8> {
    buf.subrange(0, pos) + c + buf.subrange(pos + c.len(), buf.len() as int)
}

/// Writing the chunks `cs` into `buf` from `pos`, one after the other: the
/// final buffer, and either the end position or the `BufferTooSmall` error of
/// the first chunk that does not fit (the chunks before it are written).
pub open spec fn write_chunks(cs: Seq<Seq<u8>>, buf: Seq<u8>, pos: int) -> (Seq<u8>, Result<usize>)
    decreases cs.len(),
{
    if cs.len() == 0 {
        (buf, Ok(pos as usize))
    } else if pos + cs[0].len() > buf.len() {
        (buf, Err(Error::BufferTooSmall { expected: (pos + cs[0].len()) as usize, actual: buf.len() as usize }))
    } else {
        write_chunks(cs.drop_first(), splice(buf, pos, cs[0]), pos + cs[0].len())
    }
}

/// When every chunk fits, writing lays the chunks down end to end at `pos`.
pub proof fn lemma_write_chunks_fit(cs: Seq<Seq<u8>>, buf: Seq<u8>, pos: int)
    requires
        0 <= pos,
        pos + flat(cs).len() <= buf.len(),
        pos + flat(cs).len() <= usize::MAX,
    ensures
        write_chunks(cs, buf, pos) == (splice(buf, pos, flat(cs)), Ok::<usize, Error>((pos + flat(cs).len()) as usize)),
    decreases cs.len(),
{
    if cs.len() == 0 {
        assert(splice(buf, pos, flat(cs)) =~= buf);
    } else {
        let c0 = cs[0];
        let rest = cs.drop_first();
        assert(cs =~= seq![c0] + rest);
        lemma_flat_append(seq![c0], rest);
        lemma_flat_single(c0);
        lemma_write_chunks_fit(rest, splice(buf, pos, c0), pos + c0.len());
        assert(splice(splice(buf, pos, c0), pos + c0.len(), flat(rest)) =~= splice(buf, pos, flat(cs)));
    }
}

/// Write the chunks `chunks` into `buf` from offset 0, stopping at the first
/// chunk that does not fit.
pub fn write_chunks_into(chunks: &Vec<Vec<u8>>, buf: &mut [u8]) -> (r: Result<usize>)
    requires
        flat(chunks_view(chunks@)).len() <= usize::MAX,
    ensures
        (final(buf)@, r) == write_chunks(chunks_view(chunks@), old(buf)@, 0),
{
    let ghost cs = chunks_view(chunks@);
    let blen = buf.len();
    let mut pos: usize = 0;
    let mut i: usize = 0;
    proof {
        assert(cs.skip(0) =~= cs);
        assert(cs.take(0) =~= Seq::<Seq<u8>>::empty());
    }
    while i < chunks.len()
        invariant
            cs == chunks_view(chunks@),
            flat(cs).len() <= usize::MAX,
            0 <= i <= cs.len(),
            pos == flat(cs.take(i as int)).len(),
            pos <= buf@.len(),
            buf@.len() == blen,
            write_chunks(cs, old(buf)@, 0) == write_chunks(cs.skip(i as int), buf@, pos as int),
        decreases cs.len() - i,
    {
        let c = &chunks[i];
        proof {
            assert(cs.take(i + 1) =~= cs.take(i as int) + seq![c@]);
            lemma_flat_append(cs.take(i as int), seq![c@]);
            lemma_flat_single(c@);
            assert(cs =~= cs.take(i + 1) + cs.skip(i + 1));
            lemma_flat_append(cs.take(i + 1), cs.skip(i + 1));
            assert(cs.skip(i as int)[0] == c@);
            assert(cs.skip(i as int).drop_first() =~= cs.skip(i + 1));
        }
        if c.len() > buf.len() - pos {
            return Err(Error::BufferTooSmall { expected: pos + c.len(), actual: buf.len() });
        }
        let ghost before = buf@;
        let mut j: usize = 0;
        while j < c.len()
            invariant
                pos + c@.len() <= buf@.len(),
                buf@.len() == blen,
                buf@.len() == before.len(),
                0 <= j <= c@.len(),
                forall|k: int| 0 <= k < pos ==> buf@[k] == before[k],
                forall|k: int| pos + c@.len() <= k < buf@.len() ==> buf@[k] == before[k],
                forall|k: int| 0 <= k < j ==> buf@[pos + k] == c@[k],
                forall|k: int| pos + j <= k < pos + c@.len() ==> buf@[k] == before[k],
            decreases c@.len() - j,
        {
            buf[pos + j] = c[j];
            j = j + 1;
        }
        proof {
            assert(buf@ =~= splice(before, pos as int, c@));
        }
        pos = pos + c.len();
        i = i + 1;
    }
    proof {
        assert(cs.skip(i as int) =~= Seq::<Seq<u8>>::empty());
    }
    Ok(pos)
}

/// Flatten chunks into one byte vector.
pub fn flatten(chunks: &Vec<Vec<u8>>) -> (r: Vec<u8>)
    ensures
        r@ == flat(chunks_view(chunks@)),
{
    let ghost cs = chunks_view(chunks@);
    let mut out: Vec<u8> = Vec::new();
    let mut i: usize = 0;
    proof {
        assert(cs.take(0) =~= Seq::<Seq<u8>>::empty());
    }
    while i < chunks.len()
        invariant
            cs == chunks_view(chunks@),
            0 <= i <= cs.len(),
            out@ == flat(cs.take(i as int)),
        decreases cs.len() - i,
    {
        let c = &chunks[i];
        proof {
            assert(cs.take(i + 1) =~= cs.take(i as int) + seq![c@]);
            lemma_flat_append(cs.take(i as int), seq![c@]);
            lemma_flat_single(c@);
        }
        let mut j: usize = 0;
        let ghost start = out@;
        proof { assert(c@.take(0) =~= Seq::<u8>::empty()); }
        while j < c.len()
            invariant
                0 <= j <= c@.len(),
                out@ == start + c@.take(j as int),
            decreases c@.len() - j,
        {
            out.push(c[j]);
            proof { assert(c@.take(j + 1) =~= c@.take(j as int).push(c@[j as int])); }
            j = j + 1;
        }
        proof { assert(c@.take(j as int) =~= c@); }
        i = i + 1;
    }
    proof { assert(cs.take(i as int) =~= cs); }
    out
}

// ---------------------------------------------------------------------------
// Little-endian encoding.

/// The four little-endian bytes of `v`.
pub open spec fn le_u32_bytes(v: u32) -> Seq<u8> {
    seq![(v & 0xff) as u8].push(((v >> 8) & 0xff) as u8).push(((v >> 16) & 0xff) as u8).push(
        ((v >> 24) & 0xff) as u8,
    )
}

/// The `u32` whose little-endian bytes start `s`.
pub open spec fn le_u32_value(s: Seq<u8>) -> u32 {
    (s[0] as u32) | ((s[1] as u32) << 8) | ((s[2] as u32) << 16) | ((s[3] as u32) << 24)
}

/// The eight little-endian bytes of `v`.
pub open spec fn le_u64_bytes(v: u64) -> Seq<u8> {
    seq![(v & 0xff) as u8].push(((v >> 8) & 0xff) as u8).push(((v >> 16) & 0xff) as u8).push(
        ((v >> 24) & 0xff) as u8,
    ).push(((v >> 32) & 0xff) as u8).push(((v >> 40) & 0xff) as u8).push(((v >> 48) & 0xff) as u8).push(
        ((v >> 56) & 0xff) as u8,
    )
}

/// The `u64` whose little-endian bytes start `s`.
pub open spec fn le_u64_value(s: Seq<u8>) -> u64 {
    (s[0] as u64) | ((s[1] as u64) << 8) | ((s[2] as u64) << 16) | ((s[3] as u64) << 24) | ((s[4] as u64)
        << 32) | ((s[5] as u64) << 40) | ((s[6] as u64) << 48) | ((s[7] as u64) << 56)
}

/// Decoding the encoding of a `u32` gives it back.
pub proof fn lemma_le_u32(v: u32)
    ensures
        le_u32_value(le_u32_bytes(v)) == v,
        le_u32_bytes(v).len() == 4,
{
    let b = le_u32_bytes(v);
    let b0 = (v & 0xff) as u8;
    let b1 = ((v >> 8) & 0xff) as u8;
    let b2 = ((v >> 16) & 0xff) as u8;
    let b3 = ((v >> 24) & 0xff) as u8;
    assert(b[0] == b0 && b[1] == b1 && b[2] == b2 && b[3] == b3);
    assert((b0 as u32) | ((b1 as u32) << 8) | ((b2 as u32) << 16) | ((b3 as u32) << 24) == v) by (bit_vector)
        requires
            b0 == (v & 0xff) as u8,
            b1 == ((v >> 8) & 0xff) as u8,
            b2 == ((v >> 16) & 0xff) as u8,
            b3 == ((v >> 24) & 0xff) as u8,
    ;
}

/// Decoding the encoding of a `u64` gives it back.
pub proof fn lemma_le_u64(v: u64)
    ensures
        le_u64_value(le_u64_bytes(v)) == v,
        le_u64_bytes(v).len() == 8,
{
    let b = le_u64_bytes(v);
    let b0 = (v & 0xff) as u8;
    let b1 = ((v >> 8) & 0xff) as u8;
    let b2 = ((v >> 16) & 0xff) as u8;
    let b3 = ((v >> 24) & 0xff) as u8;
    let b4 = ((v >> 32) & 0xff) as u8;
    let b5 = ((v >> 40) & 0xff) as u8;
    let b6 = ((v >> 48) & 0xff) as u8;
    let b7 = ((v >> 56) & 0xff) as u8;
    assert(b[0] == b0 && b[1] == b1 && b[2] == b2 && b[3] == b3);
    assert(b[4] == b4 && b[5] == b5 && b[6] == b6 && b[7] == b7);
    assert((b0 as u64) | ((b1 as u64) << 8) | ((b2 as u64) << 16) | ((b3 as u64) << 24) | ((b4 as u64)
        << 32) | ((b5 as u64) << 40) | ((b6 as u64) << 48) | ((b7 as u64) << 56) == v) by (bit_vector)
        requires
            b0 == (v & 0xff) as u8,
            b1 == ((v >> 8) & 0xff) as u8,
            b2 == ((v >> 16) & 0xff) as u8,
            b3 == ((v >> 24) & 0xff) as u8,
            b4 == ((v >> 32) & 0xff) as u8,
            b5 == ((v >> 40) & 0xff) as u8,
            b6 == ((v >> 48) & 0xff) as u8,
            b7 == ((v >> 56) & 0xff) as u8,
    ;
}

/// Little-endian order: the encoding of a `u32` (a `u64`) starts with its
/// least significant byte, and each byte is the next 8 bits.
pub proof fn lemma_le_byte_order(v: u32, w: u64)
    ensures
        le_u32_bytes(v).len() == 4,
        le_u32_bytes(v)[0] == v % 0x100,
        le_u32_bytes(v)[1] == (v / 0x100) % 0x100,
        le_u32_bytes(v)[2] == (v / 0x1_0000) % 0x100,
        le_u32_bytes(v)[3] == v / 0x100_0000,
        le_u64_bytes(w).len() == 8,
        le_u64_bytes(w)[0] == w % 0x100,
        le_u64_bytes(w)[1] == (w / 0x100) % 0x100,
        le_u64_bytes(w)[2] == (w / 0x1_0000) % 0x100,
        le_u64_bytes(w)[3] == (w / 0x100_0000) % 0x100,
        le_u64_bytes(w)[4] == (w / 0x1_0000_0000) % 0x100,
        le_u64_bytes(w)[5] == (w / 0x100_0000_0000) % 0x100,
        le_u64_bytes(w)[6] == (w / 0x1_0000_0000_0000) % 0x100,
        le_u64_bytes(w)[7] == w / 0x100_0000_0000_0000,
{
    assert((v & 0xff) as u8 == v % 0x100 && ((v >> 8) & 0xff) as u8 == (v / 0x100) % 0x100 && ((v >> 16) & 0xff) as u8
        == (v / 0x1_0000) % 0x100 && ((v >> 24) & 0xff) as u8 == v / 0x100_0000) by (bit_vector);
    assert((w & 0xff) as u8 == w % 0x100 && ((w >> 8) & 0xff) as u8 == (w / 0x100) % 0x100 && ((w >> 16) & 0xff) as u8
        == (w / 0x1_0000) % 0x100 && ((w >> 24) & 0xff) as u8 == (w / 0x100_0000) % 0x100) by (bit_vector);
    assert(((w >> 32) & 0xff) as u8 == (w / 0x1_0000_0000) % 0x100 && ((w >> 40) & 0xff) as u8 == (w / 0x100_0000_0000)
        % 0x100 && ((w >> 48) & 0xff) as u8 == (w / 0x1_0000_0000_0000) % 0x100 && ((w >> 56) & 0xff) as u8 == w
        / 0x100_0000_0000_0000) by (bit_vector);
}

/// Zero encodes to zero bytes.
pub proof fn lemma_le_zero()
    ensures
        le_u32_bytes(0) == c_pad(4),
        le_u64_bytes(0) == c_pad(8),
{
    assert(((0u32 & 0xff) as u8) == 0u8 && (((0u32 >> 8) & 0xff) as u8) == 0u8 && (((0u32 >> 16) & 0xff) as u8) == 0u8
        && (((0u32 >> 24) & 0xff) as u8) == 0u8) by (bit_vector);
    assert(((0u64 & 0xff) as u8) == 0u8 && (((0u64 >> 8) & 0xff) as u8) == 0u8 && (((0u64 >> 16) & 0xff) as u8) == 0u8
        && (((0u64 >> 24) & 0xff) as u8) == 0u8 && (((0u64 >> 32) & 0xff) as u8) == 0u8 && (((0u64 >> 40) & 0xff)
        as u8) == 0u8 && (((0u64 >> 48) & 0xff) as u8) == 0u8 && (((0u64 >> 56) & 0xff) as u8) == 0u8) by (bit_vector);
    assert(le_u32_bytes(0) =~= c_pad(4));
    assert(le_u64_bytes(0) =~= c_pad(8));
}

// ---------------------------------------------------------------------------
// Field chunks.

/// The chunk of a byte field.
pub open spec fn c_u8(v: u8) -> Seq<u8> {
    seq![v]
}

/// The chunk of a little-endian `u32` field.
pub open spec fn c_u32(v: u32) -> Seq<u8> {
    le_u32_bytes(v)
}

/// The chunk of a little-endian `i32` field (two's complement).
pub open spec fn c_i32(v: i32) -> Seq<u8> {
    le_u32_bytes(v as u32)
}

/// The chunk of a little-endian `u64` field.
pub open spec fn c_u64(v: u64) -> Seq<u8> {
    le_u64_bytes(v)
}

/// A chunk of `n` zero padding bytes.
pub open spec fn c_pad(n: nat) -> Seq<u8> {
    Seq::new(n, |i: int| 0u8)
}

/// Field chunks have the width of their field.
pub broadcast proof fn lemma_len_u8(v: u8)
    ensures
        #[trigger] c_u8(v).len() == 1,
{
}

pub broadcast proof fn lemma_len_u32(v: u32)
    ensures
        #[trigger] c_u32(v).len() == 4,
{
}

pub broadcast proof fn lemma_len_i32(v: i32)
    ensures
        #[trigger] c_i32(v).len() == 4,
{
}

pub broadcast proof fn lemma_len_u64(v: u64)
    ensures
        #[trigger] c_u64(v).len() == 8,
{
}

pub broadcast proof fn lemma_len_pad(n: nat)
    ensures
        #[trigger] c_pad(n).len() == n,
{
}

pub fn chunk_u8(v: u8) -> (r: Vec<u8>)
    ensures
        r@ == c_u8(v),
{
    let mut r: Vec<u8> = Vec::new();
    r.push(v);
    proof { assert(r@ =~= c_u8(v)); }
    r
}

pub fn chunk_u32(v: u32) -> (r: Vec<u8>)
    ensures
        r@ == c_u32(v),
{
    let mut r: Vec<u8> = Vec::new();
    r.push((v & 0xff) as u8);
    r.push(((v >> 8) & 0xff) as u8);
    r.push(((v >> 16) & 0xff) as u8);
    r.push(((v >> 24) & 0xff) as u8);
    proof { assert(r@ =~= c_u32(v)); }
    r
}

pub fn chunk_i32(v: i32) -> (r: Vec<u8>)
    ensures
        r@ == c_i32(v),
{
    chunk_u32(v as u32)
}

pub fn chunk_u64(v: u64) -> (r: Vec<u8>)
    ensures
        r@ == c_u64(v),
{
    let mut r: Vec<u8> = Vec::new();
    r.push((v & 0xff) as u8);
    r.push(((v >> 8) & 0xff) as u8);
    r.push(((v >> 16) & 0xff) as u8);
    r.push(((v >> 24) & 0xff) as u8);
    r.push(((v >> 32) & 0xff) as u8);
    r.push(((v >> 40) & 0xff) as u8);
    r.push(((v >> 48) & 0xff) as u8);
    r.push(((v >> 56) & 0xff) as u8);
    proof { assert(r@ =~= c_u64(v)); }
    r
}

pub fn chunk_pad(n: usize) -> (r: Vec<u8>)
    ensures
        r@ == c_pad(n as nat),
{
    let r = vec![0u8; n];
    proof { assert(r@ =~= c_pad(n as nat)); }
    r
}

// ---------------------------------------------------------------------------
// Bounds-checked reads.

/// Consume `n` bytes at `pos`: the next position, or the `BufferTooSmall`
/// error naming the end offset the field needed.
pub open spec fn rd_take(s: Seq<u8>, pos: usize, n: usize) -> Result<usize> {
    if pos + n > s.len() {
        Err(Error::BufferTooSmall { expected: (pos + n) as usize, actual: s.len() as usize })
    } else {
        Ok((pos + n) as usize)
    }
}

pub open spec fn rd_u8(s: Seq<u8>, pos: usize) -> Result<(u8, usize)> {
    match rd_take(s, pos, 1) {
        Err(e) => Err(e),
        Ok(p) => Ok((s[pos as int], p)),
    }
}

pub open spec fn rd_u32(s: Seq<u8>, pos: usize) -> Result<(u32, usize)> {
    match rd_take(s, pos, 4) {
        Err(e) => Err(e),
        Ok(p) => Ok((le_u32_value(s.subrange(pos as int, pos + 4)), p)),
    }
}

pub open spec fn rd_i32(s: Seq<u8>, pos: usize) -> Result<(i32, usize)> {
    match rd_take(s, pos, 4) {
        Err(e) => Err(e),
        Ok(p) => Ok((le_u32_value(s.subrange(pos as int, pos + 4)) as i32, p)),
    }
}

pub open spec fn rd_u64(s: Seq<u8>, pos: usize) -> Result<(u64, usize)> {
    match rd_take(s, pos, 8) {
        Err(e) => Err(e),
        Ok(p) => Ok((le_u64_value(s.subrange(pos as int, pos + 8)), p)),
    }
}

/// Skip `n` padding bytes.
pub fn skip(buf: &[u8], pos: usize, n: usize) -> (r: Result<usize>)
    requires
        pos + n <= usize::MAX,
    ensures
        r == rd_take(buf@, pos, n),
{
    if pos + n > buf.len() {
        return Err(Error::BufferTooSmall { expected: pos + n, actual: buf.len() });
    }
    Ok(pos + n)
}

pub fn read_u8(buf: &[u8], pos: usize) -> (r: Result<(u8, usize)>)
    requires
        pos + 1 <= usize::MAX,
    ensures
        r == rd_u8(buf@, pos),
{
    let p = skip(buf, pos, 1)?;
    Ok((buf[pos], p))
}

pub fn read_u32(buf: &[u8], pos: usize) -> (r: Result<(u32, usize)>)
    requires
        pos + 4 <= usize::MAX,
    ensures
        r == rd_u32(buf@, pos),
{
    let p = skip(buf, pos, 4)?;
    let v = (buf[pos] as u32) | ((buf[pos + 1] as u32) << 8) | ((buf[pos + 2] as u32) << 16) | ((buf[pos
        + 3] as u32) << 24);
    proof {
        let w = buf@.subrange(pos as int, pos + 4);
        assert(w[0] == buf@[pos as int] && w[1] == buf@[pos + 1] && w[2] == buf@[pos + 2] && w[3] == buf@[pos + 3]);
    }
    Ok((v, p))
}

pub fn read_i32(buf: &[u8], pos: usize) -> (r: Result<(i32, usize)>)
    requires
        pos + 4 <= usize::MAX,
    ensures
        r == rd_i32(buf@, pos),
{
    let (v, p) = read_u32(buf, pos)?;
    Ok((v as i32, p))
}

pub fn read_u64(buf: &[u8], pos: usize) -> (r: Result<(u64, usize)>)
    requires
        pos + 8 <= usize::MAX,
    ensures
        r == rd_u64(buf@, pos),
{
    let p = skip(buf, pos, 8)?;
    let v = (buf[pos] as u64) | ((buf[pos + 1] as u64) << 8) | ((buf[pos + 2] as u64) << 16) | ((buf[pos
        + 3] as u64) << 24) | ((buf[pos + 4] as u64) << 32) | ((buf[pos + 5] as u64) << 40) | ((buf[pos
        + 6] as u64) << 48) | ((buf[pos + 7] as u64) << 56);
    proof {
        let w = buf@.subrange(pos as int, pos + 8);
        assert(w[0] == buf@[pos as int] && w[1] == buf@[pos + 1] && w[2] == buf@[pos + 2] && w[3] == buf@[pos + 3]);
        assert(w[4] == buf@[pos + 4] && w[5] == buf@[pos + 5] && w[6] == buf@[pos + 6] && w[7] == buf@[pos + 7]);
    }
    Ok((v, p))
}

// ---------------------------------------------------------------------------
// Reading back what was written.

/// `s` holds the chunk `c` at `pos`.
pub open spec fn holds_at(s: Seq<u8>, pos: int, c: Seq<u8>) -> bool {
    0 <= pos && pos + c.len() <= s.len() && s.subrange(pos, pos + c.len()) == c
}

/// If `s` holds `a + b` at `pos`, it holds `a` at `pos` and `b` right after it.
pub broadcast proof fn lemma_holds_split(s: Seq<u8>, pos: int, a: Seq<u8>, b: Seq<u8>)
    requires
        #[trigger] holds_at(s, pos, a + b),
    ensures
        holds_at(s, pos, a),
        holds_at(s, pos + a.len(), b),
{
    assert(s.subrange(pos, pos + a.len()) =~= (a + b).subrange(0, a.len() as int));
    assert((a + b).subrange(0, a.len() as int) =~= a);
    assert(s.subrange(pos + a.len(), pos + a.len() + b.len()) =~= (a + b).subrange(a.len() as int, (a.len() + b.len()) as int));
    assert((a + b).subrange(a.len() as int, (a.len() + b.len()) as int) =~= b);
}

/// If `s` holds the chunks `a + b` at `pos`, it holds those of `a` at `pos` and
/// those of `b` right after them.
pub proof fn lemma_holds_chunks_split(s: Seq<u8>, pos: int, a: Seq<Seq<u8>>, b: Seq<Seq<u8>>)
    requires
        holds_at(s, pos, flat(a + b)),
    ensures
        holds_at(s, pos, flat(a)),
        holds_at(s, pos + flat(a).len(), flat(b)),
{
    lemma_flat_append(a, b);
    lemma_holds_split(s, pos, flat(a), flat(b));
}

pub broadcast proof fn lemma_rd_u8(s: Seq<u8>, pos: usize, v: u8)
    requires
        #[trigger] holds_at(s, pos as int, c_u8(v)),
        pos + 1 <= usize::MAX,
    ensures
        rd_u8(s, pos) == Ok::<(u8, usize), Error>((v, (pos + 1) as usize)),
{
    assert(s.subrange(pos as int, pos + 1)[0] == s[pos as int]);
}

pub broadcast proof fn lemma_rd_u32(s: Seq<u8>, pos: usize, v: u32)
    requires
        #[trigger] holds_at(s, pos as int, c_u32(v)),
        pos + 4 <= usize::MAX,
    ensures
        rd_u32(s, pos) == Ok::<(u32, usize), Error>((v, (pos + 4) as usize)),
{
    lemma_le_u32(v);
}

pub broadcast proof fn lemma_rd_i32(s: Seq<u8>, pos: usize, v: i32)
    requires
        #[trigger] holds_at(s, pos as int, c_i32(v)),
        pos + 4 <= usize::MAX,
    ensures
        rd_i32(s, pos) == Ok::<(i32, usize), Error>((v, (pos + 4) as usize)),
{
    lemma_le_u32(v as u32);
    assert(((v as u32) as i32) == v) by (bit_vector);
}

pub broadcast proof fn lemma_rd_u64(s: Seq<u8>, pos: usize, v: u64)
    requires
        #[trigger] holds_at(s, pos as int, c_u64(v)),
        pos + 8 <= usize::MAX,
    ensures
        rd_u64(s, pos) == Ok::<(u64, usize), Error>((v, (pos + 8) as usize)),
{
    lemma_le_u64(v);
}

pub broadcast proof fn lemma_rd_pad(s: Seq<u8>, pos: usize, n: usize)
    requires
        #[trigger] holds_at(s, pos as int, c_pad(n as nat)),
        pos + n <= usize::MAX,
    ensures
        rd_take(s, pos, n) == Ok::<usize, Error>((pos + n) as usize),
{
}

/// The facts that let serialized chunks be measured and read back.
pub broadcast group group_chunks {
    lemma_flat_append,
    lemma_flat_push,
    lemma_flat_empty,
    lemma_empty_concat,
    lemma_holds_split,
    lemma_rd_u8,
    lemma_rd_u32,
    lemma_rd_i32,
    lemma_rd_u64,
    lemma_rd_pad,
    lemma_len_u8,
    lemma_len_u32,
    lemma_len_i32,
    lemma_len_u64,
    lemma_len_pad,
}

} // verus!
