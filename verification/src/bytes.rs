//! Fixed-width integers as bytes: little-endian for wire fields, big-endian
//! for the 16 bytes of a UUID.

use vstd::prelude::*;

verus! {

/// The two little-endian bytes of a `u16`.
pub open spec fn le_u16(x: u16) -> Seq<u8> {
    seq![(x & 0xff) as u8, (x >> 8) as u8]
}

/// The four little-endian bytes of a `u32`.
pub open spec fn le_u32(x: u32) -> Seq<u8> {
    seq![(x & 0xff) as u8, ((x >> 8) & 0xff) as u8, ((x >> 16) & 0xff) as u8, (x >> 24) as u8]
}

/// The eight little-endian bytes of a `u64`.
pub open spec fn le_u64(x: u64) -> Seq<u8> {
    seq![
        (x & 0xff) as u8,
        ((x >> 8) & 0xff) as u8,
        ((x >> 16) & 0xff) as u8,
        ((x >> 24) & 0xff) as u8,
        ((x >> 32) & 0xff) as u8,
        ((x >> 40) & 0xff) as u8,
        ((x >> 48) & 0xff) as u8,
        (x >> 56) as u8,
    ]
}

/// The `u16` whose little-endian bytes start at `at`.
pub open spec fn read_le_u16_spec(b: Seq<u8>, at: int) -> u16 {
    (b[at] as u16) | ((b[at + 1] as u16) << 8)
}

/// The `u32` whose little-endian bytes start at `at`.
pub open spec fn read_le_u32_spec(b: Seq<u8>, at: int) -> u32 {
    (b[at] as u32) | ((b[at + 1] as u32) << 8) | ((b[at + 2] as u32) << 16) | ((b[at + 3] as u32) << 24)
}

/// The `u64` whose little-endian bytes start at `at`.
pub open spec fn read_le_u64_spec(b: Seq<u8>, at: int) -> u64 {
    (b[at] as u64) | ((b[at + 1] as u64) << 8) | ((b[at + 2] as u64) << 16) | ((b[at + 3] as u64) << 24)
        | ((b[at + 4] as u64) << 32) | ((b[at + 5] as u64) << 40) | ((b[at + 6] as u64) << 48)
        | ((b[at + 7] as u64) << 56)
}

/// Appends the little-endian bytes of a `u16`.
pub fn push_le_u16(out: &mut Vec<u8>, x: u16)
    ensures
        final(out)@ == old(out)@ + le_u16(x),
{
    out.push((x & 0xff) as u8);
    out.push((x >> 8) as u8);
    assert(final(out)@ =~= old(out)@ + le_u16(x));
}

/// Appends the little-endian bytes of a `u32`.
pub fn push_le_u32(out: &mut Vec<u8>, x: u32)
    ensures
        final(out)@ == old(out)@ + le_u32(x),
{
    out.push((x & 0xff) as u8);
    out.push(((x >> 8) & 0xff) as u8);
    out.push(((x >> 16) & 0xff) as u8);
    out.push((x >> 24) as u8);
    assert(final(out)@ =~= old(out)@ + le_u32(x));
}

/// Appends the little-endian bytes of a `u64`.
pub fn push_le_u64(out: &mut Vec<u8>, x: u64)
    ensures
        final(out)@ == old(out)@ + le_u64(x),
{
    out.push((x & 0xff) as u8);
    out.push(((x >> 8) & 0xff) as u8);
    out.push(((x >> 16) & 0xff) as u8);
    out.push(((x >> 24) & 0xff) as u8);
    out.push(((x >> 32) & 0xff) as u8);
    out.push(((x >> 40) & 0xff) as u8);
    out.push(((x >> 48) & 0xff) as u8);
    out.push((x >> 56) as u8);
    assert(final(out)@ =~= old(out)@ + le_u64(x));
}

/// Reads a little-endian `u16` at `at`.
pub fn read_le_u16(b: &[u8], at: usize) -> (r: u16)
    requires
        at + 2 <= b@.len(),
    ensures
        r == read_le_u16_spec(b@, at as int),
{
    (b[at] as u16) | ((b[at + 1] as u16) << 8)
}

/// Reads a little-endian `u32` at `at`.
pub fn read_le_u32(b: &[u8], at: usize) -> (r: u32)
    requires
        at + 4 <= b@.len(),
    ensures
        r == read_le_u32_spec(b@, at as int),
{
    (b[at] as u32) | ((b[at + 1] as u32) << 8) | ((b[at + 2] as u32) << 16) | ((b[at + 3] as u32) << 24)
}

/// Reads a little-endian `u64` at `at`.
pub fn read_le_u64(b: &[u8], at: usize) -> (r: u64)
    requires
        at + 8 <= b@.len(),
    ensures
        r == read_le_u64_spec(b@, at as int),
{
    (b[at] as u64) | ((b[at + 1] as u64) << 8) | ((b[at + 2] as u64) << 16) | ((b[at + 3] as u64) << 24)
        | ((b[at + 4] as u64) << 32) | ((b[at + 5] as u64) << 40) | ((b[at + 6] as u64) << 48)
        | ((b[at + 7] as u64) << 56)
}

/// Reading back the bytes of a `u16` gives the number.
pub proof fn lemma_le_u16_roundtrip(x: u16, b: Seq<u8>, at: int)
    requires
        0 <= at,
        at + 2 <= b.len(),
        b.subrange(at, at + 2) == le_u16(x),
    ensures
        read_le_u16_spec(b, at) == x,
{
    assert(b[at] == b.subrange(at, at + 2)[0]);
    assert(b[at + 1] == b.subrange(at, at + 2)[1]);
    let b0 = b[at];
    let b1 = b[at + 1];
    assert(b0 == (x & 0xff) as u8 && b1 == (x >> 8) as u8 ==> ((b0 as u16) | ((b1 as u16) << 8)) == x)
        by (bit_vector);
}

/// Reading back the bytes of a `u32` gives the number.
pub proof fn lemma_le_u32_roundtrip(x: u32, b: Seq<u8>, at: int)
    requires
        0 <= at,
        at + 4 <= b.len(),
        b.subrange(at, at + 4) == le_u32(x),
    ensures
        read_le_u32_spec(b, at) == x,
{
    let s = b.subrange(at, at + 4);
    assert(b[at] == s[0] && b[at + 1] == s[1] && b[at + 2] == s[2] && b[at + 3] == s[3]);
    let b0 = b[at];
    let b1 = b[at + 1];
    let b2 = b[at + 2];
    let b3 = b[at + 3];
    assert(b0 == (x & 0xff) as u8 && b1 == ((x >> 8) & 0xff) as u8 && b2 == ((x >> 16) & 0xff) as u8
        && b3 == (x >> 24) as u8 ==> ((b0 as u32) | ((b1 as u32) << 8) | ((b2 as u32) << 16) | ((b3 as u32)
        << 24)) == x) by (bit_vector);
}

/// Reading back the bytes of a `u64` gives the number.
pub proof fn lemma_le_u64_roundtrip(x: u64, b: Seq<u8>, at: int)
    requires
        0 <= at,
        at + 8 <= b.len(),
        b.subrange(at, at + 8) == le_u64(x),
    ensures
        read_le_u64_spec(b, at) == x,
{
    let s = b.subrange(at, at + 8);
    assert(b[at] == s[0] && b[at + 1] == s[1] && b[at + 2] == s[2] && b[at + 3] == s[3]);
    assert(b[at + 4] == s[4] && b[at + 5] == s[5] && b[at + 6] == s[6] && b[at + 7] == s[7]);
    let b0 = b[at];
    let b1 = b[at + 1];
    let b2 = b[at + 2];
    let b3 = b[at + 3];
    let b4 = b[at + 4];
    let b5 = b[at + 5];
    let b6 = b[at + 6];
    let b7 = b[at + 7];
    assert(b0 == (x & 0xff) as u8 && b1 == ((x >> 8) & 0xff) as u8 && b2 == ((x >> 16) & 0xff) as u8
        && b3 == ((x >> 24) & 0xff) as u8 && b4 == ((x >> 32) & 0xff) as u8 && b5 == ((x >> 40) & 0xff) as u8
        && b6 == ((x >> 48) & 0xff) as u8 && b7 == (x >> 56) as u8 ==> ((b0 as u64) | ((b1 as u64) << 8) | ((
    b2 as u64) << 16) | ((b3 as u64) << 24) | ((b4 as u64) << 32) | ((b5 as u64) << 40) | ((b6 as u64) << 48)
        | ((b7 as u64) << 56)) == x) by (bit_vector);
}

/// The byte of a 128-bit value at position `k` of its 16 big-endian bytes.
pub open spec fn be_byte(x: u128, k: int) -> u8 {
    ((x >> ((15 - k) * 8) as u128) & 0xff) as u8
}

/// The 16 big-endian bytes of a 128-bit value, as a UUID holds them.
pub open spec fn be_u128(x: u128) -> Seq<u8> {
    Seq::new(16, |k: int| be_byte(x, k))
}

/// The 128-bit value of 16 big-endian bytes: the fold of the first `n`.
pub open spec fn be_value(b: Seq<u8>, n: nat) -> u128
    decreases n,
{
    if n == 0 {
        0
    } else {
        ((be_value(b, (n - 1) as nat) << 8u128) | (b[n - 1] as u128)) as u128
    }
}

/// The 16 big-endian bytes of a 128-bit value.
pub fn u128_to_be_bytes(x: u128) -> (r: [u8; 16])
    ensures
        r@ == be_u128(x),
{
    let mut out = [0u8; 16];
    let mut k: usize = 0;
    while k < 16
        invariant
            k <= 16,
            out@.len() == 16,
            forall|j: int| 0 <= j < k ==> out@[j] == be_byte(x, j),
        decreases 16 - k,
    {
        let shift: u128 = ((15 - k) * 8) as u128;
        out.set(k, ((x >> shift) & 0xff) as u8);
        k = k + 1;
    }
    assert(out@ =~= be_u128(x));
    out
}

/// The 128-bit value of 16 big-endian bytes.
pub fn u128_from_be_bytes(b: &[u8; 16]) -> (r: u128)
    ensures
        r == be_value(b@, 16),
{
    let mut acc: u128 = 0;
    let mut k: usize = 0;
    while k < 16
        invariant
            k <= 16,
            b@.len() == 16,
            acc == be_value(b@, k as nat),
        decreases 16 - k,
    {
        acc = (acc << 8u128) | (b[k] as u128);
        k = k + 1;
    }
    acc
}

proof fn lemma_be_prefix(x: u128, n: nat)
    requires
        n <= 16,
    ensures
        be_value(be_u128(x), n) == x >> ((16 - n) * 8) as u128,
    decreases n,
{
    if n == 0 {
        assert(x >> 128u128 == 0) by (bit_vector);
    } else {
        lemma_be_prefix(x, (n - 1) as nat);
        let prev = be_value(be_u128(x), (n - 1) as nat);
        let byte = be_u128(x)[n - 1];
        assert(byte == be_byte(x, n - 1));
        let s: u128 = ((16 - n) * 8) as u128;
        assert(s <= 120);
        assert(prev == x >> (s + 8));
        assert(byte == ((x >> s) & 0xff) as u8);
        assert(s <= 120 ==> (((x >> (s + 8)) << 8u128) | ((((x >> s) & 0xff) as u8) as u128)) == x >> s)
            by (bit_vector);
    }
}

/// Reading the 16 big-endian bytes of a value gives the value back.
pub proof fn lemma_be_u128_roundtrip(x: u128)
    ensures
        be_value(be_u128(x), 16) == x,
{
    lemma_be_prefix(x, 16);
    assert(x >> 0u128 == x) by (bit_vector);
}

} // verus!
