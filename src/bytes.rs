use vstd::prelude::*;

verus! {

/// The big-endian 32-bit value stored in `b[off..off + 4]`.
pub open spec fn be_u32_at(b: Seq<u8>, off: int) -> int {
    b[off] as int * 0x1000000 + b[off + 1] as int * 0x10000 + b[off + 2] as int * 0x100
        + b[off + 3] as int
}

/// Reads the big-endian 32-bit value at `off`.
pub fn read_be_u32(b: &[u8], off: usize) -> (r: u32)
    requires
        off + 4 <= b@.len(),
    ensures
        r as int == be_u32_at(b@, off as int),
{
    let b0 = b[off] as u32;
    let b1 = b[off + 1] as u32;
    let b2 = b[off + 2] as u32;
    let b3 = b[off + 3] as u32;
    b0 * 0x1000000 + b1 * 0x10000 + b2 * 0x100 + b3
}

/// `v` rounded up to a multiple of four.
pub open spec fn align4(v: int) -> int {
    if v % 4 == 0 { v } else { v + (4 - v % 4) }
}

} // verus!
