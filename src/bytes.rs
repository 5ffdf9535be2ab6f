use vstd::prelude::*;

verus! {

/// Little-endian 16-bit value of the two bytes at `i`.
pub open spec fn le_u16(b: Seq<u8>, i: int) -> int {
    b[i] as int + b[i + 1] as int * 0x100
}

/// Little-endian 32-bit value of the four bytes at `i`.
pub open spec fn le_u32(b: Seq<u8>, i: int) -> int {
    le_u16(b, i) + le_u16(b, i + 2) * 0x1_0000
}

/// Little-endian 64-bit value of the eight bytes at `i`.
pub open spec fn le_u64(b: Seq<u8>, i: int) -> int {
    le_u32(b, i) + le_u32(b, i + 4) * 0x1_0000_0000
}

pub fn read_u16(b: &[u8], i: usize) -> (r: u16)
    requires
        i + 2 <= b@.len(),
    ensures
        r == le_u16(b@, i as int),
{
    (b[i] as u16) + (b[i + 1] as u16) * 0x100
}

pub fn read_u32(b: &[u8], i: usize) -> (r: u32)
    requires
        i + 4 <= b@.len(),
    ensures
        r == le_u32(b@, i as int),
{
    let _n: usize = b.len();
    (read_u16(b, i) as u32) + (read_u16(b, i + 2) as u32) * 0x1_0000
}

pub fn read_u64(b: &[u8], i: usize) -> (r: u64)
    requires
        i + 8 <= b@.len(),
    ensures
        r == le_u64(b@, i as int),
{
    let _n: usize = b.len();
    (read_u32(b, i) as u64) + (read_u32(b, i + 4) as u64) * 0x1_0000_0000
}

/// The bytes `[offset, offset + n)` of `b`, or `OutOfBounds` where they do not all exist.
pub fn window(b: &[u8], offset: usize, n: usize) -> (r: Option<&[u8]>)
    ensures
        offset + n <= b@.len() <==> r is Some,
        r matches Some(w) ==> w@ == b@.subrange(offset as int, offset + n),
{
    if offset > b.len() || b.len() - offset < n {
        None
    } else {
        Some(vstd::slice::slice_subrange(b, offset, offset + n))
    }
}

} // verus!
