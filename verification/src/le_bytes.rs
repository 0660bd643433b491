//! Little-endian encoding of 32-bit integers, as the container format uses it.

use vstd::prelude::*;

verus! {

/// The integer that four bytes stand for, least significant byte first.
pub open spec fn le32(b0: u8, b1: u8, b2: u8, b3: u8) -> int {
    b0 as int + 256 * (b1 as int) + 65536 * (b2 as int) + 16777216 * (b3 as int)
}

/// The little-endian integer held by the four bytes of `s` that start at `at`.
pub open spec fn le32_at(s: Seq<u8>, at: int) -> int
    recommends
        0 <= at,
        at + 4 <= s.len(),
{
    le32(s[at], s[at + 1], s[at + 2], s[at + 3])
}

/// The four bytes that stand for `x`, least significant byte first.
pub open spec fn le32_bytes(x: u32) -> Seq<u8> {
    seq![
        (x as int % 256) as u8,
        ((x as int / 256) % 256) as u8,
        ((x as int / 65536) % 256) as u8,
        (x as int / 16777216) as u8,
    ]
}

/// Decoding the encoding of `x` gives `x` back.
pub proof fn lemma_le32_of_bytes(x: u32)
    ensures
        le32_bytes(x).len() == 4,
        le32_at(le32_bytes(x), 0) == x,
{
    let v = x as int;
    assert(v == (v % 256) + 256 * ((v / 256) % 256) + 65536 * ((v / 65536) % 256) + 16777216 * (v
        / 16777216)) by (nonlinear_arith)
        requires
            0 <= v < 0x1_0000_0000,
    ;
    assert(0 <= v / 16777216 < 256) by (nonlinear_arith)
        requires
            0 <= v < 0x1_0000_0000,
    ;
}

/// Four bytes always decode to a value that fits in 32 bits, and encoding that
/// value gives the same four bytes.
pub proof fn lemma_bytes_of_le32(b0: u8, b1: u8, b2: u8, b3: u8)
    ensures
        0 <= le32(b0, b1, b2, b3) < 0x1_0000_0000,
        le32_bytes(le32(b0, b1, b2, b3) as u32) =~= seq![b0, b1, b2, b3],
{
    let v = le32(b0, b1, b2, b3);
    let (a, b, c, d) = (b0 as int, b1 as int, b2 as int, b3 as int);
    assert(v % 256 == a && (v / 256) % 256 == b && (v / 65536) % 256 == c && v / 16777216 == d)
        by (nonlinear_arith)
        requires
            v == a + 256 * b + 65536 * c + 16777216 * d,
            0 <= a < 256,
            0 <= b < 256,
            0 <= c < 256,
            0 <= d < 256,
    ;
}

/// Encodes `x` as four bytes, least significant first.
pub fn u32_to_le(x: u32) -> (bytes: [u8; 4])
    ensures
        bytes@ == le32_bytes(x),
{
    let b0: u8 = (x % 256) as u8;
    let b1: u8 = ((x / 256) % 256) as u8;
    let b2: u8 = ((x / 65536) % 256) as u8;
    let b3: u8 = (x / 16777216) as u8;
    let bytes = [b0, b1, b2, b3];
    assert(bytes@ =~= le32_bytes(x));
    bytes
}

/// Decodes the four bytes of `s` that start at `at`.
pub fn u32_from_le(s: &[u8], at: usize) -> (x: u32)
    requires
        at + 4 <= s@.len(),
    ensures
        x == le32_at(s@, at as int),
{
    proof {
        lemma_bytes_of_le32(s@[at as int], s@[at + 1], s@[at + 2], s@[at + 3]);
    }
    let b0: u32 = s[at] as u32;
    let b1: u32 = s[at + 1] as u32;
    let b2: u32 = s[at + 2] as u32;
    let b3: u32 = s[at + 3] as u32;
    b0 + 256 * b1 + 65536 * b2 + 16777216 * b3
}

} // verus!
