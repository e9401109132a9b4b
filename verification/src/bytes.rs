//! Encoding of fixed-width integers as bytes.
//!
//! The kernel lays the records that it shares with user space out in the
//! byte order of the machine, which on the machines this crate is for is
//! little-endian. Socket addresses carry their port and their address in
//! network order, which is big-endian.

use vstd::prelude::*;

verus! {

/// The two bytes of `x`, least significant first.
pub open spec fn le_u16(x: u16) -> Seq<u8> {
    seq![(x % 256) as u8, (x / 256) as u8]
}

/// The four bytes of `x`, least significant first.
pub open spec fn le_u32(x: u32) -> Seq<u8> {
    seq![
        (x % 256) as u8,
        ((x / 256) % 256) as u8,
        ((x / 65536) % 256) as u8,
        (x / 16777216) as u8,
    ]
}

/// The eight bytes of `x`, least significant first.
pub open spec fn le_u64(x: u64) -> Seq<u8> {
    le_u32((x % 4294967296) as u32) + le_u32((x / 4294967296) as u32)
}

/// The unsigned 32-bit number with the same bits as `x` in two's complement.
pub open spec fn twos_u32(x: i32) -> u32 {
    if x >= 0 {
        x as u32
    } else {
        (x + 4294967296) as u32
    }
}

/// The signed number whose two's complement bits are `u`.
pub open spec fn twos_i32(u: u32) -> i32 {
    if u < 2147483648 {
        u as i32
    } else {
        (u - 4294967296) as i32
    }
}

/// The four bytes of `x` in two's complement, least significant first.
pub open spec fn le_i32(x: i32) -> Seq<u8> {
    le_u32(twos_u32(x))
}

/// The number whose little-endian bytes are the first two of `s`.
pub open spec fn u16_at(s: Seq<u8>, at: int) -> u16 {
    (s[at] + 256 * s[at + 1]) as u16
}

/// The number whose little-endian bytes are the four of `s` from `at` on.
pub open spec fn u32_at(s: Seq<u8>, at: int) -> u32 {
    (s[at] + 256 * s[at + 1] + 65536 * s[at + 2] + 16777216 * s[at + 3]) as u32
}

/// The number whose little-endian bytes are the eight of `s` from `at` on.
pub open spec fn u64_at(s: Seq<u8>, at: int) -> u64 {
    (u32_at(s, at) + 4294967296 * u32_at(s, at + 4)) as u64
}

/// The signed number whose two's complement little-endian bytes are the four
/// of `s` from `at` on.
pub open spec fn i32_at(s: Seq<u8>, at: int) -> i32 {
    twos_i32(u32_at(s, at))
}

/// The two bytes of `x`, most significant first.
pub open spec fn be_u16(x: u16) -> Seq<u8> {
    seq![(x / 256) as u8, (x % 256) as u8]
}

/// The four bytes of `x`, most significant first.
pub open spec fn be_u32(x: u32) -> Seq<u8> {
    seq![
        (x / 16777216) as u8,
        ((x / 65536) % 256) as u8,
        ((x / 256) % 256) as u8,
        (x % 256) as u8,
    ]
}

/// The eight bytes of `x`, most significant first.
pub open spec fn be_u64(x: u64) -> Seq<u8> {
    be_u32((x / 0x1_0000_0000) as u32) + be_u32((x % 0x1_0000_0000) as u32)
}

/// The sixteen bytes of `x`, most significant first.
pub open spec fn be_u128(x: u128) -> Seq<u8> {
    be_u64((x / 0x1_0000_0000_0000_0000) as u64) + be_u64((x % 0x1_0000_0000_0000_0000) as u64)
}

/// The number whose big-endian bytes are the two of `s` from `at` on.
pub open spec fn be_u16_at(s: Seq<u8>, at: int) -> u16 {
    (256 * s[at] + s[at + 1]) as u16
}

/// The number whose big-endian bytes are the four of `s` from `at` on.
pub open spec fn be_u32_at(s: Seq<u8>, at: int) -> u32 {
    (16777216 * s[at] + 65536 * s[at + 1] + 256 * s[at + 2] + s[at + 3]) as u32
}

/// The number whose big-endian bytes are the eight of `s` from `at` on.
pub open spec fn be_u64_at(s: Seq<u8>, at: int) -> u64 {
    (0x1_0000_0000 * be_u32_at(s, at) + be_u32_at(s, at + 4)) as u64
}

/// The number whose big-endian bytes are the sixteen of `s` from `at` on.
pub open spec fn be_u128_at(s: Seq<u8>, at: int) -> u128 {
    (0x1_0000_0000_0000_0000 * be_u64_at(s, at) + be_u64_at(s, at + 8)) as u128
}

/// `n` zero bytes.
pub open spec fn zeros(n: nat) -> Seq<u8> {
    Seq::new(n, |i: int| 0u8)
}

/// Reading back what `le_u16` wrote gives the number that was written.
pub proof fn lemma_u16_round_trip(prefix: Seq<u8>, x: u16, suffix: Seq<u8>)
    ensures
        u16_at(prefix + le_u16(x) + suffix, prefix.len() as int) == x,
{
    let s = prefix + le_u16(x) + suffix;
    let at = prefix.len() as int;
    assert(s[at] == le_u16(x)[0]);
    assert(s[at + 1] == le_u16(x)[1]);
}

/// Reading back what `le_u32` wrote gives the number that was written.
pub proof fn lemma_u32_round_trip(prefix: Seq<u8>, x: u32, suffix: Seq<u8>)
    ensures
        u32_at(prefix + le_u32(x) + suffix, prefix.len() as int) == x,
{
    let s = prefix + le_u32(x) + suffix;
    let at = prefix.len() as int;
    assert(s[at] == le_u32(x)[0]);
    assert(s[at + 1] == le_u32(x)[1]);
    assert(s[at + 2] == le_u32(x)[2]);
    assert(s[at + 3] == le_u32(x)[3]);
}

/// Reading back what `le_u64` wrote gives the number that was written.
pub proof fn lemma_u64_round_trip(prefix: Seq<u8>, x: u64, suffix: Seq<u8>)
    ensures
        u64_at(prefix + le_u64(x) + suffix, prefix.len() as int) == x,
{
    let lo = (x % 4294967296) as u32;
    let hi = (x / 4294967296) as u32;
    let s = prefix + le_u64(x) + suffix;
    let at = prefix.len() as int;
    assert(s =~= prefix + le_u32(lo) + (le_u32(hi) + suffix));
    lemma_u32_round_trip(prefix, lo, le_u32(hi) + suffix);
    assert(s =~= (prefix + le_u32(lo)) + le_u32(hi) + suffix);
    lemma_u32_round_trip(prefix + le_u32(lo), hi, suffix);
}

/// Reading back what `le_i32` wrote gives the number that was written.
pub proof fn lemma_i32_round_trip(prefix: Seq<u8>, x: i32, suffix: Seq<u8>)
    ensures
        i32_at(prefix + le_i32(x) + suffix, prefix.len() as int) == x,
{
    lemma_u32_round_trip(prefix, twos_u32(x), suffix);
}

/// A number is read back from wherever its two bytes stand.
pub proof fn lemma_u16_found(s: Seq<u8>, at: int, x: u16)
    requires
        0 <= at,
        at + 2 <= s.len(),
        s.subrange(at, at + 2) == le_u16(x),
    ensures
        u16_at(s, at) == x,
{
    assert(s[at] == s.subrange(at, at + 2)[0]);
    assert(s[at + 1] == s.subrange(at, at + 2)[1]);
}

/// A number is read back from wherever its four bytes stand.
pub proof fn lemma_u32_found(s: Seq<u8>, at: int, x: u32)
    requires
        0 <= at,
        at + 4 <= s.len(),
        s.subrange(at, at + 4) == le_u32(x),
    ensures
        u32_at(s, at) == x,
{
    assert(s[at] == s.subrange(at, at + 4)[0]);
    assert(s[at + 1] == s.subrange(at, at + 4)[1]);
    assert(s[at + 2] == s.subrange(at, at + 4)[2]);
    assert(s[at + 3] == s.subrange(at, at + 4)[3]);
}

/// A number is read back from wherever its eight bytes stand.
pub proof fn lemma_u64_found(s: Seq<u8>, at: int, x: u64)
    requires
        0 <= at,
        at + 8 <= s.len(),
        s.subrange(at, at + 8) == le_u64(x),
    ensures
        u64_at(s, at) == x,
{
    let lo = (x % 4294967296) as u32;
    let hi = (x / 4294967296) as u32;
    assert(s.subrange(at, at + 4) =~= s.subrange(at, at + 8).subrange(0, 4));
    assert(s.subrange(at + 4, at + 8) =~= s.subrange(at, at + 8).subrange(4, 8));
    assert(le_u64(x).subrange(0, 4) =~= le_u32(lo));
    assert(le_u64(x).subrange(4, 8) =~= le_u32(hi));
    lemma_u32_found(s, at, lo);
    lemma_u32_found(s, at + 4, hi);
}

/// A signed number is read back from wherever its four bytes stand.
pub proof fn lemma_i32_found(s: Seq<u8>, at: int, x: i32)
    requires
        0 <= at,
        at + 4 <= s.len(),
        s.subrange(at, at + 4) == le_i32(x),
    ensures
        i32_at(s, at) == x,
{
    lemma_u32_found(s, at, twos_u32(x));
}

/// A number is read back from wherever its two big-endian bytes stand.
pub proof fn lemma_be_u16_found(s: Seq<u8>, at: int, x: u16)
    requires
        0 <= at,
        at + 2 <= s.len(),
        s.subrange(at, at + 2) == be_u16(x),
    ensures
        be_u16_at(s, at) == x,
{
    assert(s[at] == s.subrange(at, at + 2)[0]);
    assert(s[at + 1] == s.subrange(at, at + 2)[1]);
}

/// A number is read back from wherever its four big-endian bytes stand.
pub proof fn lemma_be_u32_found(s: Seq<u8>, at: int, x: u32)
    requires
        0 <= at,
        at + 4 <= s.len(),
        s.subrange(at, at + 4) == be_u32(x),
    ensures
        be_u32_at(s, at) == x,
{
    assert(s[at] == s.subrange(at, at + 4)[0]);
    assert(s[at + 1] == s.subrange(at, at + 4)[1]);
    assert(s[at + 2] == s.subrange(at, at + 4)[2]);
    assert(s[at + 3] == s.subrange(at, at + 4)[3]);
}

/// A number is read back from wherever its eight big-endian bytes stand.
pub proof fn lemma_be_u64_found(s: Seq<u8>, at: int, x: u64)
    requires
        0 <= at,
        at + 8 <= s.len(),
        s.subrange(at, at + 8) == be_u64(x),
    ensures
        be_u64_at(s, at) == x,
{
    let hi = (x / 0x1_0000_0000) as u32;
    let lo = (x % 0x1_0000_0000) as u32;
    let image = s.subrange(at, at + 8);
    assert(be_u32(hi).len() == 4 && be_u32(lo).len() == 4);
    assert(be_u32_at(s, at) == hi) by {
        assert(s.subrange(at, at + 4) =~= image.subrange(0, 4));
        assert(be_u64(x).subrange(0, 4) =~= be_u32(hi));
        lemma_be_u32_found(s, at, hi);
    }
    assert(be_u32_at(s, at + 4) == lo) by {
        assert(s.subrange(at + 4, at + 8) =~= image.subrange(4, 8));
        assert(be_u64(x).subrange(4, 8) =~= be_u32(lo));
        lemma_be_u32_found(s, at + 4, lo);
    }
}

/// A number is read back from wherever its sixteen big-endian bytes stand.
pub proof fn lemma_be_u128_found(s: Seq<u8>, at: int, x: u128)
    requires
        0 <= at,
        at + 16 <= s.len(),
        s.subrange(at, at + 16) == be_u128(x),
    ensures
        be_u128_at(s, at) == x,
{
    let hi = (x / 0x1_0000_0000_0000_0000) as u64;
    let lo = (x % 0x1_0000_0000_0000_0000) as u64;
    let image = s.subrange(at, at + 16);
    assert(be_u64(hi).len() == 8 && be_u64(lo).len() == 8);
    assert(be_u64_at(s, at) == hi) by {
        assert(s.subrange(at, at + 8) =~= image.subrange(0, 8));
        assert(be_u128(x).subrange(0, 8) =~= be_u64(hi));
        lemma_be_u64_found(s, at, hi);
    }
    assert(be_u64_at(s, at + 8) == lo) by {
        assert(s.subrange(at + 8, at + 16) =~= image.subrange(8, 16));
        assert(be_u128(x).subrange(8, 16) =~= be_u64(lo));
        lemma_be_u64_found(s, at + 8, lo);
    }
}

/// Writing what `u32_at` read gives the bytes that were read.
pub proof fn lemma_u32_bytes_back(s: Seq<u8>, at: int)
    requires
        0 <= at,
        at + 4 <= s.len(),
    ensures
        le_u32(u32_at(s, at)) == s.subrange(at, at + 4),
{
    let b0 = s[at] as int;
    let b1 = s[at + 1] as int;
    let b2 = s[at + 2] as int;
    let b3 = s[at + 3] as int;
    let x = u32_at(s, at);
    assert(x == b0 + 256 * (b1 + 256 * (b2 + 256 * b3)));
    assert(x % 256 == b0);
    assert(x / 256 == b1 + 256 * (b2 + 256 * b3));
    assert((x / 256) % 256 == b1);
    assert(x / 65536 == b2 + 256 * b3);
    assert((x / 65536) % 256 == b2);
    assert(x / 16777216 == b3);
    assert(le_u32(x) =~= s.subrange(at, at + 4));
}

/// Writing what `u64_at` read gives the bytes that were read.
pub proof fn lemma_u64_bytes_back(s: Seq<u8>, at: int)
    requires
        0 <= at,
        at + 8 <= s.len(),
    ensures
        le_u64(u64_at(s, at)) == s.subrange(at, at + 8),
{
    let lo = u32_at(s, at);
    let hi = u32_at(s, at + 4);
    let x = u64_at(s, at);
    assert(x == lo + 4294967296 * hi);
    assert((x % 4294967296) as u32 == lo && (x / 4294967296) as u32 == hi) by {
        assert(x == lo + 4294967296 * hi);
    }
    assert(le_u64(x) == le_u32(lo) + le_u32(hi));
    assert(le_u32(lo) == s.subrange(at, at + 4)) by {
        lemma_u32_bytes_back(s, at);
    }
    assert(le_u32(hi) == s.subrange(at + 4, at + 8)) by {
        lemma_u32_bytes_back(s, at + 4);
    }
    assert(s.subrange(at, at + 4) + s.subrange(at + 4, at + 8) =~= s.subrange(at, at + 8));
}

/// Writing what `i32_at` read gives the bytes that were read.
pub proof fn lemma_i32_bytes_back(s: Seq<u8>, at: int)
    requires
        0 <= at,
        at + 4 <= s.len(),
    ensures
        le_i32(i32_at(s, at)) == s.subrange(at, at + 4),
{
    lemma_u32_bytes_back(s, at);
}

/// Bytes appended to nothing are the bytes.
pub proof fn lemma_empty_prefix(s: Seq<u8>)
    ensures
        Seq::<u8>::empty() + s == s,
{
    assert(Seq::<u8>::empty() + s =~= s);
}

/// Appends the little-endian bytes of `x` to `out`.
pub fn put_u16(out: &mut Vec<u8>, x: u16)
    ensures
        final(out)@ == old(out)@ + le_u16(x),
{
    out.push((x % 256) as u8);
    out.push((x / 256) as u8);
    assert(out@ =~= old(out)@ + le_u16(x));
}

/// Appends the little-endian bytes of `x` to `out`.
pub fn put_u32(out: &mut Vec<u8>, x: u32)
    ensures
        final(out)@ == old(out)@ + le_u32(x),
{
    out.push((x % 256) as u8);
    out.push(((x / 256) % 256) as u8);
    out.push(((x / 65536) % 256) as u8);
    out.push((x / 16777216) as u8);
    assert(out@ =~= old(out)@ + le_u32(x));
}

/// Appends the little-endian bytes of `x` to `out`.
pub fn put_u64(out: &mut Vec<u8>, x: u64)
    ensures
        final(out)@ == old(out)@ + le_u64(x),
{
    put_u32(out, (x % 4294967296) as u32);
    put_u32(out, (x / 4294967296) as u32);
    assert(out@ =~= old(out)@ + le_u64(x));
}

/// Appends the two's complement little-endian bytes of `x` to `out`.
pub fn put_i32(out: &mut Vec<u8>, x: i32)
    ensures
        final(out)@ == old(out)@ + le_i32(x),
{
    let bits: u32 = if x >= 0 {
        x as u32
    } else {
        (x as i64 + 4294967296) as u32
    };
    put_u32(out, bits);
}

/// Appends the big-endian bytes of `x` to `out`.
pub fn put_be_u16(out: &mut Vec<u8>, x: u16)
    ensures
        final(out)@ == old(out)@ + be_u16(x),
{
    out.push((x / 256) as u8);
    out.push((x % 256) as u8);
    assert(out@ =~= old(out)@ + be_u16(x));
}

/// Appends the big-endian bytes of `x` to `out`.
pub fn put_be_u32(out: &mut Vec<u8>, x: u32)
    ensures
        final(out)@ == old(out)@ + be_u32(x),
{
    out.push((x / 16777216) as u8);
    out.push(((x / 65536) % 256) as u8);
    out.push(((x / 256) % 256) as u8);
    out.push((x % 256) as u8);
    assert(out@ =~= old(out)@ + be_u32(x));
}

/// Appends the big-endian bytes of `x` to `out`.
pub fn put_be_u64(out: &mut Vec<u8>, x: u64)
    ensures
        final(out)@ == old(out)@ + be_u64(x),
{
    put_be_u32(out, (x / 0x1_0000_0000) as u32);
    put_be_u32(out, (x % 0x1_0000_0000) as u32);
    assert(out@ =~= old(out)@ + be_u64(x));
}

/// Appends the big-endian bytes of `x` to `out`.
pub fn put_be_u128(out: &mut Vec<u8>, x: u128)
    ensures
        final(out)@ == old(out)@ + be_u128(x),
{
    put_be_u64(out, (x / 0x1_0000_0000_0000_0000) as u64);
    put_be_u64(out, (x % 0x1_0000_0000_0000_0000) as u64);
    assert(out@ =~= old(out)@ + be_u128(x));
}

/// Appends `n` zero bytes to `out`.
pub fn put_zeros(out: &mut Vec<u8>, n: usize)
    ensures
        final(out)@ == old(out)@ + zeros(n as nat),
{
    let mut i: usize = 0;
    while i < n
        invariant
            i <= n,
            out@ == old(out)@ + zeros(i as nat),
        decreases n - i,
    {
        out.push(0u8);
        i = i + 1;
        assert(out@ =~= old(out)@ + zeros(i as nat));
    }
}

/// Reads the little-endian number in the two bytes of `bytes` from `at` on.
pub fn get_u16(bytes: &[u8], at: usize) -> (x: u16)
    requires
        at + 2 <= bytes@.len(),
    ensures
        x == u16_at(bytes@, at as int),
{
    bytes[at] as u16 + 256 * (bytes[at + 1] as u16)
}

/// Reads the little-endian number in the four bytes of `bytes` from `at` on.
pub fn get_u32(bytes: &[u8], at: usize) -> (x: u32)
    requires
        at + 4 <= bytes@.len(),
    ensures
        x == u32_at(bytes@, at as int),
{
    bytes[at] as u32 + 256 * (bytes[at + 1] as u32) + 65536 * (bytes[at + 2] as u32) + 16777216
        * (bytes[at + 3] as u32)
}

/// Reads the little-endian number in the eight bytes of `bytes` from `at` on.
pub fn get_u64(bytes: &[u8], at: usize) -> (x: u64)
    requires
        at + 8 <= bytes@.len(),
    ensures
        x == u64_at(bytes@, at as int),
{
    let n: usize = bytes.len();
    let lo: u32 = get_u32(bytes, at);
    let hi: u32 = get_u32(bytes, at + 4);
    lo as u64 + 4294967296 * (hi as u64)
}

/// Reads the two's complement little-endian number in the four bytes of
/// `bytes` from `at` on.
pub fn get_i32(bytes: &[u8], at: usize) -> (x: i32)
    requires
        at + 4 <= bytes@.len(),
    ensures
        x == i32_at(bytes@, at as int),
{
    let bits: u32 = get_u32(bytes, at);
    if bits < 2147483648 {
        bits as i32
    } else {
        (bits as i64 - 4294967296) as i32
    }
}

/// Reads the big-endian number in the two bytes of `bytes` from `at` on.
pub fn get_be_u16(bytes: &[u8], at: usize) -> (x: u16)
    requires
        at + 2 <= bytes@.len(),
    ensures
        x == be_u16_at(bytes@, at as int),
{
    256 * (bytes[at] as u16) + bytes[at + 1] as u16
}

/// Reads the big-endian number in the four bytes of `bytes` from `at` on.
pub fn get_be_u32(bytes: &[u8], at: usize) -> (x: u32)
    requires
        at + 4 <= bytes@.len(),
    ensures
        x == be_u32_at(bytes@, at as int),
{
    16777216 * (bytes[at] as u32) + 65536 * (bytes[at + 1] as u32) + 256 * (bytes[at + 2] as u32)
        + bytes[at + 3] as u32
}

/// Reads the big-endian number in the eight bytes of `bytes` from `at` on.
pub fn get_be_u64(bytes: &[u8], at: usize) -> (x: u64)
    requires
        at + 8 <= bytes@.len(),
    ensures
        x == be_u64_at(bytes@, at as int),
{
    let n: usize = bytes.len();
    let hi: u32 = get_be_u32(bytes, at);
    let lo: u32 = get_be_u32(bytes, at + 4);
    0x1_0000_0000 * (hi as u64) + lo as u64
}

/// Reads the big-endian number in the sixteen bytes of `bytes` from `at`
/// on.
pub fn get_be_u128(bytes: &[u8], at: usize) -> (x: u128)
    requires
        at + 16 <= bytes@.len(),
    ensures
        x == be_u128_at(bytes@, at as int),
{
    let n: usize = bytes.len();
    let hi: u64 = get_be_u64(bytes, at);
    let lo: u64 = get_be_u64(bytes, at + 8);
    0x1_0000_0000_0000_0000 * (hi as u128) + lo as u128
}

} // verus!
