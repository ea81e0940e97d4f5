//! Numbers as bytes, and the outcome of reading a message from a buffer
//! that may not hold all of it yet.

use vstd::prelude::*;

verus! {

/// The two bytes of `x`, least significant first.
pub open spec fn le16(x: u16) -> Seq<u8> {
    seq![(x % 256) as u8, (x / 256) as u8]
}

/// The four bytes of `x`, least significant first.
pub open spec fn le32(x: u32) -> Seq<u8> {
    seq![
        (x % 256) as u8,
        ((x / 256) % 256) as u8,
        ((x / 65536) % 256) as u8,
        (x / 16777216) as u8,
    ]
}

/// The number whose little-endian bytes are `b0`, `b1`.
pub open spec fn from_le16(b0: u8, b1: u8) -> u16 {
    (b0 as int + 256 * b1 as int) as u16
}

/// The number whose little-endian bytes are `b0` to `b3`.
pub open spec fn from_le32(b0: u8, b1: u8, b2: u8, b3: u8) -> u32 {
    (b0 as int + 256 * b1 as int + 65536 * b2 as int + 16777216 * b3 as int) as u32
}

/// Writing a 16-bit number and reading it back gives the number.
pub proof fn lemma_le16_roundtrip(x: u16)
    ensures
        le16(x).len() == 2,
        from_le16(le16(x)[0], le16(x)[1]) == x,
{
}

/// Reading two bytes and writing the number back gives the bytes.
pub proof fn lemma_from_le16_roundtrip(b0: u8, b1: u8)
    ensures
        le16(from_le16(b0, b1)) == seq![b0, b1],
{
    assert(le16(from_le16(b0, b1)) =~= seq![b0, b1]);
}

/// Writing a 32-bit number and reading it back gives the number.
pub proof fn lemma_le32_roundtrip(x: u32)
    ensures
        le32(x).len() == 4,
        from_le32(le32(x)[0], le32(x)[1], le32(x)[2], le32(x)[3]) == x,
{
    let n: int = x as int;
    let hi: int = n / 256;
    let top: int = hi / 256;
    vstd::arithmetic::div_mod::lemma_fundamental_div_mod(n, 256);
    vstd::arithmetic::div_mod::lemma_fundamental_div_mod(hi, 256);
    vstd::arithmetic::div_mod::lemma_fundamental_div_mod(top, 256);
    assert(n == 256 * hi + n % 256);
    assert(hi == 256 * top + hi % 256);
    assert(top == 256 * (top / 256) + top % 256);
    assert(n / 65536 == top) by {
        assert(n == 65536 * top + (256 * (hi % 256) + n % 256));
        lemma_split_wide(n, top, 256 * (hi % 256) + n % 256, 65536);
    }
    assert(n / 16777216 == top / 256) by {
        assert(n == 16777216 * (top / 256) + (65536 * (top % 256) + 256 * (hi % 256) + n % 256));
        lemma_split_wide(
            n,
            top / 256,
            65536 * (top % 256) + 256 * (hi % 256) + n % 256,
            16777216,
        );
    }
    assert(0 <= top / 256 < 256);
}

/// Reading four bytes and writing the number back gives the bytes.
pub proof fn lemma_from_le32_roundtrip(b0: u8, b1: u8, b2: u8, b3: u8)
    ensures
        le32(from_le32(b0, b1, b2, b3)) == seq![b0, b1, b2, b3],
{
    let x: int = b0 as int + 256 * b1 as int + 65536 * b2 as int + 16777216 * b3 as int;
    let hi: int = b1 as int + 256 * b2 as int + 65536 * b3 as int;
    let top: int = b2 as int + 256 * b3 as int;
    assert(x == 256 * hi + b0 as int);
    assert(x % 256 == b0 as int && x / 256 == hi) by {
        lemma_split(x, hi, b0 as int);
    }
    assert(hi == 256 * top + b1 as int);
    assert(hi % 256 == b1 as int && hi / 256 == top) by {
        lemma_split(hi, top, b1 as int);
    }
    assert(top % 256 == b2 as int && top / 256 == b3 as int) by {
        lemma_split(top, b3 as int, b2 as int);
    }
    assert(x / 65536 == top) by {
        assert(x == 65536 * top + (256 * b1 as int + b0 as int));
        lemma_split_wide(x, top, 256 * b1 as int + b0 as int, 65536);
    }
    assert(x / 16777216 == b3 as int) by {
        assert(x == 16777216 * b3 as int + (65536 * b2 as int + 256 * b1 as int + b0 as int));
        lemma_split_wide(
            x,
            b3 as int,
            65536 * b2 as int + 256 * b1 as int + b0 as int,
            16777216,
        );
    }
    assert(from_le32(b0, b1, b2, b3) as int == x);
    assert(le32(from_le32(b0, b1, b2, b3)) =~= seq![b0, b1, b2, b3]);
}

/// A number written as `256 * q + r` with a byte `r` has quotient `q` and
/// remainder `r`.
proof fn lemma_split(x: int, q: int, r: int)
    requires
        x == 256 * q + r,
        0 <= r < 256,
    ensures
        x / 256 == q,
        x % 256 == r,
{
    lemma_split_wide(x, q, r, 256);
}

/// A number written as `d * q + r` with `0 <= r < d` has quotient `q` and
/// remainder `r`.
proof fn lemma_split_wide(x: int, q: int, r: int, d: int)
    requires
        d > 0,
        x == d * q + r,
        0 <= r < d,
    ensures
        x / d == q,
        x % d == r,
{
    assert(d * q == q * d) by (nonlinear_arith);
    vstd::arithmetic::div_mod::lemma_fundamental_div_mod_converse(x, d, q, r);
}

pub fn u16_to_le(x: u16) -> (b: [u8; 2])
    ensures
        b@ == le16(x),
{
    let b: [u8; 2] = [(x % 256) as u8, (x / 256) as u8];
    assert(b@ =~= le16(x));
    b
}

pub fn u16_from_le(b0: u8, b1: u8) -> (x: u16)
    ensures
        x == from_le16(b0, b1),
{
    b0 as u16 + 256 * (b1 as u16)
}

pub fn u32_to_le(x: u32) -> (b: [u8; 4])
    ensures
        b@ == le32(x),
{
    let b: [u8; 4] = [
        (x % 256) as u8,
        ((x / 256) % 256) as u8,
        ((x / 65536) % 256) as u8,
        (x / 16777216) as u8,
    ];
    assert(b@ =~= le32(x));
    b
}

pub fn u32_from_le(b0: u8, b1: u8, b2: u8, b3: u8) -> (x: u32)
    ensures
        x == from_le32(b0, b1, b2, b3),
{
    b0 as u32 + 256 * (b1 as u32) + 65536 * (b2 as u32) + 16777216 * (b3 as u32)
}

/// The eight bytes of `x`, least significant first.
pub open spec fn le64(x: u64) -> Seq<u8> {
    le32((x % 0x1_0000_0000) as u32) + le32((x / 0x1_0000_0000) as u32)
}

/// The number whose little-endian bytes are the first eight of `b`.
pub open spec fn from_le64(b: Seq<u8>) -> u64
    recommends
        b.len() >= 8,
{
    (from_le32(b[0], b[1], b[2], b[3]) as int + 0x1_0000_0000 * from_le32(
        b[4],
        b[5],
        b[6],
        b[7],
    ) as int) as u64
}

/// Writing a 64-bit number and reading it back gives the number.
pub proof fn lemma_le64_roundtrip(x: u64)
    ensures
        le64(x).len() == 8,
        from_le64(le64(x)) == x,
{
    let lo = (x % 0x1_0000_0000) as u32;
    let hi = (x / 0x1_0000_0000) as u32;
    lemma_le32_roundtrip(lo);
    lemma_le32_roundtrip(hi);
    assert(x as int == 0x1_0000_0000 * (x as int / 0x1_0000_0000) + x as int % 0x1_0000_0000) by {
        vstd::arithmetic::div_mod::lemma_fundamental_div_mod(x as int, 0x1_0000_0000);
    }
    let b = le64(x);
    assert(b[0] == le32(lo)[0] && b[1] == le32(lo)[1] && b[2] == le32(lo)[2] && b[3] == le32(
        lo,
    )[3]);
    assert(b[4] == le32(hi)[0] && b[5] == le32(hi)[1] && b[6] == le32(hi)[2] && b[7] == le32(
        hi,
    )[3]);
}

/// Reading eight bytes and writing the number back gives the bytes.
pub proof fn lemma_from_le64_roundtrip(b: Seq<u8>)
    requires
        b.len() == 8,
    ensures
        le64(from_le64(b)) == b,
{
    lemma_from_le32_roundtrip(b[0], b[1], b[2], b[3]);
    lemma_from_le32_roundtrip(b[4], b[5], b[6], b[7]);
    let lo = from_le32(b[0], b[1], b[2], b[3]);
    let hi = from_le32(b[4], b[5], b[6], b[7]);
    let x = from_le64(b);
    assert(x as int == 0x1_0000_0000 * hi as int + lo as int);
    lemma_split_wide(x as int, hi as int, lo as int, 0x1_0000_0000);
    assert((x % 0x1_0000_0000) as u32 == lo);
    assert((x / 0x1_0000_0000) as u32 == hi);
    assert(le64(x) =~= b);
}

pub fn u64_to_le(x: u64) -> (b: [u8; 8])
    ensures
        b@ == le64(x),
{
    let lo: [u8; 4] = u32_to_le((x % 0x1_0000_0000) as u32);
    let hi: [u8; 4] = u32_to_le((x / 0x1_0000_0000) as u32);
    let b: [u8; 8] = [lo[0], lo[1], lo[2], lo[3], hi[0], hi[1], hi[2], hi[3]];
    assert(b@ =~= le64(x));
    b
}

/// Reads a 64-bit number from the eight bytes at `at`.
pub fn u64_from_le(b: &[u8], at: usize) -> (x: u64)
    requires
        at + 8 <= b@.len(),
    ensures
        x == from_le64(b@.subrange(at as int, at + 8)),
{
    let lo: u32 = u32_from_le(b[at], b[at + 1], b[at + 2], b[at + 3]);
    let hi: u32 = u32_from_le(b[at + 4], b[at + 5], b[at + 6], b[at + 7]);
    lo as u64 + 0x1_0000_0000 * (hi as u64)
}

/// The two bytes of `x`, most significant first.
pub open spec fn be16(x: u16) -> Seq<u8> {
    seq![(x / 256) as u8, (x % 256) as u8]
}

/// The number whose big-endian bytes are `b0`, `b1`.
pub open spec fn from_be16(b0: u8, b1: u8) -> u16 {
    (256 * b0 as int + b1 as int) as u16
}

/// Writing a 16-bit number most significant byte first and reading it back
/// gives the number, and the other way round.
pub proof fn lemma_be16_roundtrip(x: u16, b0: u8, b1: u8)
    ensures
        be16(x).len() == 2,
        from_be16(be16(x)[0], be16(x)[1]) == x,
        be16(from_be16(b0, b1)) == seq![b0, b1],
{
    assert(be16(from_be16(b0, b1)) =~= seq![b0, b1]);
}

pub fn u16_to_be(x: u16) -> (b: [u8; 2])
    ensures
        b@ == be16(x),
{
    let b: [u8; 2] = [(x / 256) as u8, (x % 256) as u8];
    assert(b@ =~= be16(x));
    b
}

pub fn u16_from_be(b0: u8, b1: u8) -> (x: u16)
    ensures
        x == from_be16(b0, b1),
{
    256 * (b0 as u16) + b1 as u16
}

/// What reading a message from the start of a buffer finds, the message
/// itself left aside.
pub enum Reading<E> {
    /// The message is not all there. It is at least this many bytes long.
    Incomplete(nat),
    /// A message of this many bytes.
    Complete(nat),
    /// No message starts like this.
    Invalid(E),
}

/// Whether what was read agrees with what is to be found.
pub open spec fn read_as<T, E>(r: Result<Parsed<T>, E>, reading: Reading<E>) -> bool {
    match reading {
        Reading::Incomplete(n) => r matches Ok(Parsed::Incomplete(m)) && m == n,
        Reading::Complete(n) => r matches Ok(Parsed::Complete(m, _)) && m == n,
        Reading::Invalid(e) => r matches Err(f) && f == e,
    }
}

/// What reading a message from the start of a buffer gives.
#[derive(Debug, PartialEq, Eq)]
pub enum Parsed<T> {
    /// The message is not all there. It is at least this many bytes long.
    Incomplete(usize),
    /// The message, and the number of bytes it took.
    Complete(usize, T),
}

} // verus!
