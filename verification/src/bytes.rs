//! Little-endian field extraction from byte payloads.

use vstd::prelude::*;

verus! {

/// The 16-bit little-endian value stored at offset `i` of `b`.
pub open spec fn le16(b: Seq<u8>, i: int) -> u16
    recommends
        0 <= i,
        i + 2 <= b.len(),
{
    (b[i] + 256 * b[i + 1]) as u16
}

/// Reads the 16-bit little-endian value at offset `i`.
pub fn read_le16(b: &[u8], i: usize) -> (r: u16)
    requires
        i + 2 <= b@.len(),
    ensures
        r == le16(b@, i as int),
{
    let lo = b[i];
    let hi = b[i + 1];
    (lo as u16) + 256 * (hi as u16)
}

} // verus!
