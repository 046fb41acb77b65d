//! Little-endian framing of integers and fixed byte arrays.
use vstd::bytes::*;
use vstd::prelude::*;
use vstd::slice::slice_subrange;

verus! {

/// The two-byte array that holds the first two bytes of a sequence.
pub open spec fn array2(s: Seq<u8>) -> [u8; 2] {
    [s[0], s[1]]
}

/// The three-byte array that holds the first three bytes of a sequence.
pub open spec fn array3(s: Seq<u8>) -> [u8; 3] {
    [s[0], s[1], s[2]]
}

/// The four-byte array that holds the first four bytes of a sequence.
pub open spec fn array4(s: Seq<u8>) -> [u8; 4] {
    [s[0], s[1], s[2], s[3]]
}

/// The eight-byte array that holds the first eight bytes of a sequence.
pub open spec fn array8(s: Seq<u8>) -> [u8; 8] {
    [s[0], s[1], s[2], s[3], s[4], s[5], s[6], s[7]]
}

/// The 16-bit integer stored little-endian at `at`.
pub open spec fn u16_at(bytes: Seq<u8>, at: int) -> u16 {
    spec_u16_from_le_bytes(bytes.subrange(at, at + 2))
}

/// The 32-bit integer stored little-endian at `at`.
pub open spec fn u32_at(bytes: Seq<u8>, at: int) -> u32 {
    spec_u32_from_le_bytes(bytes.subrange(at, at + 4))
}

/// The 64-bit integer stored little-endian at `at`.
pub open spec fn u64_at(bytes: Seq<u8>, at: int) -> u64 {
    spec_u64_from_le_bytes(bytes.subrange(at, at + 8))
}

/// `n` zero bytes.
pub open spec fn zeros(n: nat) -> Seq<u8> {
    Seq::new(n, |i: int| 0u8)
}

/// The arrays built from a sequence hold that sequence.
pub proof fn lemma_arrays(s: Seq<u8>)
    ensures
        s.len() == 2 ==> array2(s)@ == s,
        s.len() == 3 ==> array3(s)@ == s,
        s.len() == 4 ==> array4(s)@ == s,
        s.len() == 8 ==> array8(s)@ == s,
{
    if s.len() == 2 {
        assert(array2(s)@ =~= s);
    }
    if s.len() == 3 {
        assert(array3(s)@ =~= s);
    }
    if s.len() == 4 {
        assert(array4(s)@ =~= s);
    }
    if s.len() == 8 {
        assert(array8(s)@ =~= s);
    }
}

/// A two-byte array is the array built from the sequence it holds.
pub proof fn lemma_array2_back(a: [u8; 2])
    ensures
        array2(a@) == a,
{
    assert(array2(a@) =~= a);
}

/// A three-byte array is the array built from the sequence it holds.
pub proof fn lemma_array3_back(a: [u8; 3])
    ensures
        array3(a@) == a,
{
    assert(array3(a@) =~= a);
}

/// A four-byte array is the array built from the sequence it holds.
pub proof fn lemma_array4_back(a: [u8; 4])
    ensures
        array4(a@) == a,
{
    assert(array4(a@) =~= a);
}

/// An eight-byte array is the array built from the sequence it holds.
pub proof fn lemma_array8_back(a: [u8; 8])
    ensures
        array8(a@) == a,
{
    assert(array8(a@) =~= a);
}

/// Reading back what was framed gives the integer, and framing what was
/// read gives the bytes.
pub proof fn lemma_le_round_trip()
    ensures
        forall|x: u16| #[trigger]
            spec_u16_to_le_bytes(x).len() == 2 && spec_u16_from_le_bytes(spec_u16_to_le_bytes(x))
                == x,
        forall|x: u32| #[trigger]
            spec_u32_to_le_bytes(x).len() == 4 && spec_u32_from_le_bytes(spec_u32_to_le_bytes(x))
                == x,
        forall|x: u64| #[trigger]
            spec_u64_to_le_bytes(x).len() == 8 && spec_u64_from_le_bytes(spec_u64_to_le_bytes(x))
                == x,
        forall|s: Seq<u8>|
            s.len() == 2 ==> #[trigger] spec_u16_to_le_bytes(spec_u16_from_le_bytes(s)) == s,
        forall|s: Seq<u8>|
            s.len() == 4 ==> #[trigger] spec_u32_to_le_bytes(spec_u32_from_le_bytes(s)) == s,
        forall|s: Seq<u8>|
            s.len() == 8 ==> #[trigger] spec_u64_to_le_bytes(spec_u64_from_le_bytes(s)) == s,
{
    lemma_auto_spec_u16_to_from_le_bytes();
    lemma_auto_spec_u32_to_from_le_bytes();
    lemma_auto_spec_u64_to_from_le_bytes();
}

/// Appends a 16-bit integer, little-endian.
pub fn put_u16(out: &mut Vec<u8>, value: u16)
    ensures
        final(out)@ == old(out)@ + spec_u16_to_le_bytes(value),
{
    let mut bytes = u16_to_le_bytes(value);
    out.append(&mut bytes);
}

/// Appends a 32-bit integer, little-endian.
pub fn put_u32(out: &mut Vec<u8>, value: u32)
    ensures
        final(out)@ == old(out)@ + spec_u32_to_le_bytes(value),
{
    let mut bytes = u32_to_le_bytes(value);
    out.append(&mut bytes);
}

/// Appends a 64-bit integer, little-endian.
pub fn put_u64(out: &mut Vec<u8>, value: u64)
    ensures
        final(out)@ == old(out)@ + spec_u64_to_le_bytes(value),
{
    let mut bytes = u64_to_le_bytes(value);
    out.append(&mut bytes);
}

/// Appends the bytes of a slice.
pub fn put_bytes(out: &mut Vec<u8>, bytes: &[u8])
    ensures
        final(out)@ == old(out)@ + bytes@,
{
    out.extend_from_slice(bytes);
}

/// Appends `count` zero bytes.
pub fn put_zeros(out: &mut Vec<u8>, count: usize)
    ensures
        final(out)@ == old(out)@ + zeros(count as nat),
{
    let mut done: usize = 0;
    while done < count
        invariant
            done <= count,
            out@ == old(out)@ + zeros(done as nat),
        decreases count - done,
    {
        out.push(0u8);
        done = done + 1;
        assert(out@ =~= old(out)@ + zeros(done as nat));
    }
}

/// Reads the 16-bit integer stored little-endian at `at`.
pub fn get_u16(bytes: &[u8], at: usize) -> (value: u16)
    requires
        at + 2 <= bytes.len(),
    ensures
        value == u16_at(bytes@, at as int),
{
    u16_from_le_bytes(slice_subrange(bytes, at, at + 2))
}

/// Reads the 32-bit integer stored little-endian at `at`.
pub fn get_u32(bytes: &[u8], at: usize) -> (value: u32)
    requires
        at + 4 <= bytes.len(),
    ensures
        value == u32_at(bytes@, at as int),
{
    u32_from_le_bytes(slice_subrange(bytes, at, at + 4))
}

/// Reads the 64-bit integer stored little-endian at `at`.
pub fn get_u64(bytes: &[u8], at: usize) -> (value: u64)
    requires
        at + 8 <= bytes.len(),
    ensures
        value == u64_at(bytes@, at as int),
{
    u64_from_le_bytes(slice_subrange(bytes, at, at + 8))
}

/// Copies the two bytes at `at`.
pub fn take2(bytes: &[u8], at: usize) -> (a: [u8; 2])
    requires
        at + 2 <= bytes.len(),
    ensures
        a == array2(bytes@.subrange(at as int, at + 2)),
{
    let a = [bytes[at], bytes[at + 1]];
    assert(a =~= array2(bytes@.subrange(at as int, at + 2)));
    a
}

/// Copies the three bytes at `at`.
pub fn take3(bytes: &[u8], at: usize) -> (a: [u8; 3])
    requires
        at + 3 <= bytes.len(),
    ensures
        a == array3(bytes@.subrange(at as int, at + 3)),
{
    let a = [bytes[at], bytes[at + 1], bytes[at + 2]];
    assert(a =~= array3(bytes@.subrange(at as int, at + 3)));
    a
}

/// Copies the four bytes at `at`.
pub fn take4(bytes: &[u8], at: usize) -> (a: [u8; 4])
    requires
        at + 4 <= bytes.len(),
    ensures
        a == array4(bytes@.subrange(at as int, at + 4)),
{
    let a = [bytes[at], bytes[at + 1], bytes[at + 2], bytes[at + 3]];
    assert(a =~= array4(bytes@.subrange(at as int, at + 4)));
    a
}

/// Copies the eight bytes at `at`.
pub fn take8(bytes: &[u8], at: usize) -> (a: [u8; 8])
    requires
        at + 8 <= bytes.len(),
    ensures
        a == array8(bytes@.subrange(at as int, at + 8)),
{
    let a = [
        bytes[at],
        bytes[at + 1],
        bytes[at + 2],
        bytes[at + 3],
        bytes[at + 4],
        bytes[at + 5],
        bytes[at + 6],
        bytes[at + 7],
    ];
    assert(a =~= array8(bytes@.subrange(at as int, at + 8)));
    a
}


/// The chunks of a sequence of byte strings, one after the other.
pub open spec fn join(chunks: Seq<Seq<u8>>) -> Seq<u8>
    decreases chunks.len(),
{
    if chunks.len() == 0 {
        Seq::empty()
    } else {
        join(chunks.drop_last()) + chunks.last()
    }
}

/// Where all chunks have the same length `n`, the joined sequence holds
/// chunk `i` at offset `i * n`.
pub proof fn lemma_join_chunk(chunks: Seq<Seq<u8>>, n: nat, i: int)
    requires
        forall|k: int| 0 <= k < chunks.len() ==> (#[trigger] chunks[k]).len() == n,
        0 <= i < chunks.len(),
    ensures
        join(chunks).len() == chunks.len() * n,
        i * n + n <= join(chunks).len(),
        join(chunks).subrange(i * n, i * n + n) == chunks[i],
    decreases chunks.len(),
{
    let front = chunks.drop_last();
    let m = front.len() as int;
    lemma_join_len(chunks, n);
    lemma_join_len(front, n);
    assert(chunks.len() * n == m * n + n) by (nonlinear_arith)
        requires
            chunks.len() == m + 1,
    ;
    if i == m {
        assert(join(chunks).subrange(i * n, i * n + n) =~= chunks[i]);
    } else {
        lemma_join_chunk(front, n, i);
        assert(i * n + n <= m * n) by (nonlinear_arith)
            requires
                0 <= i < m,
        ;
        assert(join(chunks).subrange(i * n, i * n + n) =~= join(front).subrange(
            i * n,
            i * n + n,
        ));
    }
}

/// Where all chunks have the same length `n`, the joined sequence has
/// `n` bytes for each chunk.
pub proof fn lemma_join_len(chunks: Seq<Seq<u8>>, n: nat)
    requires
        forall|k: int| 0 <= k < chunks.len() ==> (#[trigger] chunks[k]).len() == n,
    ensures
        join(chunks).len() == chunks.len() * n,
    decreases chunks.len(),
{
    if chunks.len() == 0 {
        assert(chunks.len() * n == 0) by (nonlinear_arith)
            requires
                chunks.len() == 0,
        ;
    } else {
        let front = chunks.drop_last();
        let m = front.len() as int;
        lemma_join_len(front, n);
        assert(chunks.len() * n == m * n + n) by (nonlinear_arith)
            requires
                chunks.len() == m + 1,
        ;
    }
}


/// A sequence with `bytes` written over it from `at` on.
pub open spec fn overlay(under: Seq<u8>, at: int, bytes: Seq<u8>) -> Seq<u8> {
    Seq::new(
        under.len(),
        |i: int|
            if at <= i < at + bytes.len() {
                bytes[i - at]
            } else {
                under[i]
            },
    )
}

/// Writes `bytes` over the buffer from `at` on.
pub fn write_over(buf: &mut Vec<u8>, at: usize, bytes: &[u8])
    requires
        at + bytes.len() <= old(buf).len(),
    ensures
        final(buf)@ == overlay(old(buf)@, at as int, bytes@),
{
    let mut i: usize = 0;
    while i < bytes.len()
        invariant
            i <= bytes.len(),
            at + bytes.len() <= buf.len(),
            buf.len() == old(buf).len(),
            buf@ == overlay(old(buf)@, at as int, bytes@.take(i as int)),
        decreases bytes.len() - i,
    {
        let ghost before = buf@;
        buf[at + i] = bytes[i];
        assert(buf@ =~= overlay(old(buf)@, at as int, bytes@.take(i + 1)));
        i = i + 1;
    }
    assert(bytes@.take(bytes.len() as int) =~= bytes@);
}

/// What was written over a sequence can be read from it, and what lies
/// beside it is as before.
pub proof fn lemma_overlay(under: Seq<u8>, at: int, bytes: Seq<u8>, from: int, to: int)
    requires
        0 <= at,
        at + bytes.len() <= under.len(),
        0 <= from <= to <= under.len(),
    ensures
        overlay(under, at, bytes).len() == under.len(),
        at <= from && to <= at + bytes.len() ==> overlay(under, at, bytes).subrange(from, to)
            == bytes.subrange(from - at, to - at),
        to <= at || at + bytes.len() <= from ==> overlay(under, at, bytes).subrange(from, to)
            == under.subrange(from, to),
{
    if at <= from && to <= at + bytes.len() {
        assert(overlay(under, at, bytes).subrange(from, to) =~= bytes.subrange(from - at, to - at));
    }
    if to <= at || at + bytes.len() <= from {
        assert(overlay(under, at, bytes).subrange(from, to) =~= under.subrange(from, to));
    }
}

} // verus!
