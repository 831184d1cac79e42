use vstd::prelude::*;

verus! {

/// Little-endian 16-bit value at `i`.
pub open spec fn u16_le(b: Seq<u8>, i: int) -> int {
    b[i] as int + b[i + 1] as int * 0x100
}

/// Little-endian 32-bit value at `i`.
pub open spec fn u32_le(b: Seq<u8>, i: int) -> int {
    b[i] as int + b[i + 1] as int * 0x100 + b[i + 2] as int * 0x1_0000 + b[i + 3] as int
        * 0x100_0000
}

/// Little-endian 64-bit value at `i`.
pub open spec fn u64_le(b: Seq<u8>, i: int) -> int {
    u32_le(b, i) + u32_le(b, i + 4) * 0x1_0000_0000
}

pub fn read_u16(b: &[u8], i: usize) -> (r: u16)
    requires
        i + 2 <= b@.len(),
    ensures
        r as int == u16_le(b@, i as int),
{
    b[i] as u16 + b[i + 1] as u16 * 0x100
}

pub fn read_u32(b: &[u8], i: usize) -> (r: u32)
    requires
        i + 4 <= b@.len(),
    ensures
        r as int == u32_le(b@, i as int),
{
    b[i] as u32 + b[i + 1] as u32 * 0x100 + b[i + 2] as u32 * 0x1_0000 + b[i + 3] as u32
        * 0x100_0000
}

pub fn read_u64(b: &[u8], i: usize) -> (r: u64)
    requires
        i + 8 <= b@.len(),
    ensures
        r as int == u64_le(b@, i as int),
{
    let n = b.len();
    assert(i + 4 < n);
    let lo = read_u32(b, i);
    let hi = read_u32(b, i + 4);
    lo as u64 + hi as u64 * 0x1_0000_0000
}

} // verus!
