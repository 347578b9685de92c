//! Big-endian integers as they appear in font files, stated over byte sequences.

use vstd::prelude::*;

verus! {

/// The unsigned 16-bit value stored big-endian at `s[i..i + 2]`.
pub open spec fn be_u16(s: Seq<u8>, i: int) -> int {
    s[i] as int * 0x100 + s[i + 1] as int
}

/// The unsigned 24-bit value stored big-endian at `s[i..i + 3]`.
pub open spec fn be_u24(s: Seq<u8>, i: int) -> int {
    be_u16(s, i) * 0x100 + s[i + 2] as int
}

/// The unsigned 32-bit value stored big-endian at `s[i..i + 4]`.
pub open spec fn be_u32(s: Seq<u8>, i: int) -> int {
    be_u16(s, i) * 0x1_0000 + be_u16(s, i + 2)
}

/// The unsigned 64-bit value stored big-endian at `s[i..i + 8]`.
pub open spec fn be_u64(s: Seq<u8>, i: int) -> int {
    be_u32(s, i) * 0x1_0000_0000 + be_u32(s, i + 4)
}

/// Two's-complement reading of an unsigned value of `bits` bits, given `half == 2^(bits-1)`.
pub open spec fn signed(v: int, half: int) -> int {
    if v >= half {
        v - 2 * half
    } else {
        v
    }
}

/// Inverse of [`signed`]: the unsigned value whose two's-complement reading is `v`.
pub open spec fn unsigned(v: int, half: int) -> int {
    if v < 0 {
        v + 2 * half
    } else {
        v
    }
}

pub open spec fn be_i16(s: Seq<u8>, i: int) -> int {
    signed(be_u16(s, i), 0x8000)
}

pub open spec fn be_i32(s: Seq<u8>, i: int) -> int {
    signed(be_u32(s, i), 0x8000_0000)
}

pub open spec fn be_i64(s: Seq<u8>, i: int) -> int {
    signed(be_u64(s, i), 0x8000_0000_0000_0000)
}

/// Big-endian encoding of `v` in two bytes.
pub open spec fn u16_bytes(v: int) -> Seq<u8> {
    seq![(v / 0x100) as u8, (v % 0x100) as u8]
}

/// Big-endian encoding of `v` in three bytes.
pub open spec fn u24_bytes(v: int) -> Seq<u8> {
    seq![(v / 0x1_0000) as u8, (v / 0x100 % 0x100) as u8, (v % 0x100) as u8]
}

/// Big-endian encoding of `v` in four bytes.
pub open spec fn u32_bytes(v: int) -> Seq<u8> {
    u16_bytes(v / 0x1_0000) + u16_bytes(v % 0x1_0000)
}

/// Big-endian encoding of `v` in eight bytes.
pub open spec fn u64_bytes(v: int) -> Seq<u8> {
    u32_bytes(v / 0x1_0000_0000) + u32_bytes(v % 0x1_0000_0000)
}

/// The big-endian encoding of the first `n` of the 16-bit values `vs`, back to back.
pub open spec fn u16s_bytes(vs: Seq<u16>, n: int) -> Seq<u8>
    decreases n,
{
    if n <= 0 {
        Seq::empty()
    } else {
        u16s_bytes(vs, n - 1) + u16_bytes(vs[n - 1] as int)
    }
}

/// The big-endian encoding of the first `n` of the signed 16-bit values `vs`, back to back.
pub open spec fn i16s_bytes(vs: Seq<i16>, n: int) -> Seq<u8>
    decreases n,
{
    if n <= 0 {
        Seq::empty()
    } else {
        i16s_bytes(vs, n - 1) + u16_bytes(unsigned(vs[n - 1] as int, 0x8000))
    }
}

/// `n` zero bytes.
pub open spec fn zeros(n: nat) -> Seq<u8> {
    Seq::new(n, |i: int| 0u8)
}

/// Encoding a byte and reading it back, unsigned or signed, gives the value written.
pub proof fn lemma_round_trip_8(s: Seq<u8>, i: int, u: u8, v: i8)
    ensures
        0 <= i < s.len() && s[i] == u ==> s[i] == u,
        0 <= i < s.len() && s[i] == unsigned(v as int, 0x80) ==> signed(s[i] as int, 0x80) == v,
{
}

/// Where the two bytes at `i` are the encoding of `v`, a 16-bit read at `i` yields `v`.
pub proof fn lemma_round_trip_u16(s: Seq<u8>, i: int, v: u16)
    requires
        0 <= i,
        i + 2 <= s.len(),
        s.subrange(i, i + 2) == u16_bytes(v as int),
    ensures
        be_u16(s, i) == v,
{
    let b = s.subrange(i, i + 2);
    assert(s[i] == b[0] && s[i + 1] == b[1]);
}

/// The signed 16-bit form of [`lemma_round_trip_u16`].
pub proof fn lemma_round_trip_i16(s: Seq<u8>, i: int, v: i16)
    requires
        0 <= i,
        i + 2 <= s.len(),
        s.subrange(i, i + 2) == u16_bytes(unsigned(v as int, 0x8000)),
    ensures
        be_i16(s, i) == v,
{
    lemma_round_trip_u16(s, i, unsigned(v as int, 0x8000) as u16);
}

/// Where the three bytes at `i` are the encoding of `v`, a 24-bit read at `i` yields `v`.
pub proof fn lemma_round_trip_u24(s: Seq<u8>, i: int, v: u32)
    requires
        0 <= i,
        i + 3 <= s.len(),
        v < 0x100_0000,
        s.subrange(i, i + 3) == u24_bytes(v as int),
    ensures
        be_u24(s, i) == v,
{
    let b = s.subrange(i, i + 3);
    assert(s[i] == b[0] && s[i + 1] == b[1] && s[i + 2] == b[2]);
}

/// Where the four bytes at `i` are the encoding of `v`, a 32-bit read at `i` yields `v`.
pub proof fn lemma_round_trip_u32(s: Seq<u8>, i: int, v: u32)
    requires
        0 <= i,
        i + 4 <= s.len(),
        s.subrange(i, i + 4) == u32_bytes(v as int),
    ensures
        be_u32(s, i) == v,
{
    let b = s.subrange(i, i + 4);
    assert(s.subrange(i, i + 2) =~= b.subrange(0, 2));
    assert(s.subrange(i + 2, i + 4) =~= b.subrange(2, 4));
    assert(b.subrange(0, 2) =~= u16_bytes(v as int / 0x1_0000));
    assert(b.subrange(2, 4) =~= u16_bytes(v as int % 0x1_0000));
    lemma_round_trip_u16(s, i, (v / 0x1_0000) as u16);
    lemma_round_trip_u16(s, i + 2, (v % 0x1_0000) as u16);
}

/// The signed 32-bit form of [`lemma_round_trip_u32`].
pub proof fn lemma_round_trip_i32(s: Seq<u8>, i: int, v: i32)
    requires
        0 <= i,
        i + 4 <= s.len(),
        s.subrange(i, i + 4) == u32_bytes(unsigned(v as int, 0x8000_0000)),
    ensures
        be_i32(s, i) == v,
{
    lemma_round_trip_u32(s, i, unsigned(v as int, 0x8000_0000) as u32);
}

/// Where the eight bytes at `i` are the encoding of `v`, a 64-bit read at `i` yields `v`.
pub proof fn lemma_round_trip_u64(s: Seq<u8>, i: int, v: u64)
    requires
        0 <= i,
        i + 8 <= s.len(),
        s.subrange(i, i + 8) == u64_bytes(v as int),
    ensures
        be_u64(s, i) == v,
{
    let b = s.subrange(i, i + 8);
    assert(s.subrange(i, i + 4) =~= b.subrange(0, 4));
    assert(s.subrange(i + 4, i + 8) =~= b.subrange(4, 8));
    assert(u32_bytes(v as int / 0x1_0000_0000).len() == 4);
    assert(b.subrange(0, 4) =~= u32_bytes(v as int / 0x1_0000_0000));
    assert(b.subrange(4, 8) =~= u32_bytes(v as int % 0x1_0000_0000));
    lemma_round_trip_u32(s, i, (v / 0x1_0000_0000) as u32);
    lemma_round_trip_u32(s, i + 4, (v % 0x1_0000_0000) as u32);
}

/// The signed 64-bit form of [`lemma_round_trip_u64`].
pub proof fn lemma_round_trip_i64(s: Seq<u8>, i: int, v: i64)
    requires
        0 <= i,
        i + 8 <= s.len(),
        s.subrange(i, i + 8) == u64_bytes(unsigned(v as int, 0x8000_0000_0000_0000)),
    ensures
        be_i64(s, i) == v,
{
    lemma_round_trip_u64(s, i, unsigned(v as int, 0x8000_0000_0000_0000) as u64);
}

/// The encoding of `n` 16-bit values takes `2 * n` bytes, and a 16-bit read at twice an index
/// yields the value at that index.
pub proof fn lemma_u16s_bytes(vs: Seq<u16>, n: int)
    requires
        0 <= n <= vs.len(),
    ensures
        u16s_bytes(vs, n).len() == 2 * n,
        forall|i: int| 0 <= i < n ==> be_u16(u16s_bytes(vs, n), 2 * i) == #[trigger] vs[i],
    decreases n,
{
    if n > 0 {
        lemma_u16s_bytes(vs, n - 1);
        let before = u16s_bytes(vs, n - 1);
        let all = u16s_bytes(vs, n);
        assert forall|i: int| 0 <= i < n implies be_u16(all, 2 * i) == #[trigger] vs[i] by {
            if i < n - 1 {
                assert(all[2 * i] == before[2 * i] && all[2 * i + 1] == before[2 * i + 1]);
                assert(be_u16(before, 2 * i) == vs[i]);
            } else {
                assert(all.subrange(2 * i, 2 * i + 2) =~= u16_bytes(vs[i] as int));
                lemma_round_trip_u16(all, 2 * i, vs[i]);
            }
        }
    }
}

/// The signed form of [`lemma_u16s_bytes`].
pub proof fn lemma_i16s_bytes(vs: Seq<i16>, n: int)
    requires
        0 <= n <= vs.len(),
    ensures
        i16s_bytes(vs, n).len() == 2 * n,
        forall|i: int| 0 <= i < n ==> be_i16(i16s_bytes(vs, n), 2 * i) == #[trigger] vs[i],
    decreases n,
{
    if n > 0 {
        lemma_i16s_bytes(vs, n - 1);
        let before = i16s_bytes(vs, n - 1);
        let all = i16s_bytes(vs, n);
        assert forall|i: int| 0 <= i < n implies be_i16(all, 2 * i) == #[trigger] vs[i] by {
            if i < n - 1 {
                assert(all[2 * i] == before[2 * i] && all[2 * i + 1] == before[2 * i + 1]);
                assert(be_i16(before, 2 * i) == vs[i]);
            } else {
                assert(all.subrange(2 * i, 2 * i + 2) =~= u16_bytes(unsigned(vs[i] as int, 0x8000)));
                lemma_round_trip_i16(all, 2 * i, vs[i]);
            }
        }
    }
}

/// A 16-bit read inside the middle part of three parts is a read in that part.
pub proof fn lemma_be_u16_in_part(before: Seq<u8>, part: Seq<u8>, after: Seq<u8>, k: int)
    requires
        0 <= k,
        k + 2 <= part.len(),
    ensures
        be_u16(before + part + after, before.len() + k) == be_u16(part, k),
{
    let all = before + part + after;
    assert(all[before.len() + k] == part[k]);
    assert(all[before.len() + k + 1] == part[k + 1]);
}

} // verus!
