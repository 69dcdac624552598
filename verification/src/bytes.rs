//! Reading big-endian integers out of byte sequences.

use vstd::prelude::*;

verus! {

/// The 16-bit big-endian value at offset `i`.
pub open spec fn be_u16(b: Seq<u8>, i: int) -> u16 {
    (((b[i] as u16) << 8u16) | (b[i + 1] as u16)) as u16
}

/// The 32-bit big-endian value at offset `i`.
pub open spec fn be_u32(b: Seq<u8>, i: int) -> u32 {
    (((b[i] as u32) << 24u32) | ((b[i + 1] as u32) << 16u32) | ((b[i + 2] as u32) << 8u32) | (b[i
        + 3] as u32)) as u32
}

/// The `n`-byte big-endian value starting at offset `i`, for `n <= 16`.
pub open spec fn be_u128_at(b: Seq<u8>, i: int, n: int) -> u128
    decreases n when n >= 0
{
    if n <= 0 {
        0
    } else {
        ((be_u128_at(b, i, n - 1) << 8u32) | (b[i + n - 1] as u128)) as u128
    }
}

/// Reads the 16-bit big-endian value at offset `i`.
pub fn read_be_u16(b: &[u8], i: usize) -> (r: u16)
    requires
        i + 2 <= b@.len(),
    ensures
        r == be_u16(b@, i as int),
{
    ((b[i] as u16) << 8u16) | (b[i + 1] as u16)
}

/// Reads the 32-bit big-endian value at offset `i`.
pub fn read_be_u32(b: &[u8], i: usize) -> (r: u32)
    requires
        i + 4 <= b@.len(),
    ensures
        r == be_u32(b@, i as int),
{
    ((b[i] as u32) << 24u32) | ((b[i + 1] as u32) << 16u32) | ((b[i + 2] as u32) << 8u32) | (b[i
        + 3] as u32)
}

/// Reads the `n`-byte big-endian value starting at offset `i`.
pub fn read_be_u128(b: &[u8], i: usize, n: usize) -> (r: u128)
    requires
        n <= 16,
        i + n <= b@.len(),
    ensures
        r == be_u128_at(b@, i as int, n as int),
{
    let total = b.len();
    let mut v: u128 = 0;
    let mut j: usize = 0;
    while j < n
        invariant
            j <= n,
            i + n <= total,
            total == b@.len(),
            v == be_u128_at(b@, i as int, j as int),
        decreases n - j,
    {
        v = (v << 8u32) | (b[i + j] as u128);
        j = j + 1;
    }
    v
}

} // verus!
