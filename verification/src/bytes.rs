//! Big-endian integer reads out of a byte buffer.

use vstd::prelude::*;

verus! {

/// The big-endian 16-bit value stored at `pos`.
pub open spec fn be_u16(b: Seq<u8>, pos: int) -> int {
    b[pos] * 256 + b[pos + 1]
}

/// The big-endian 32-bit value stored at `pos`.
pub open spec fn be_u32(b: Seq<u8>, pos: int) -> int {
    be_u16(b, pos) * 65536 + be_u16(b, pos + 2)
}

/// The big-endian 64-bit value stored at `pos`, as an unsigned number.
pub open spec fn be_u64(b: Seq<u8>, pos: int) -> int {
    be_u32(b, pos) * 0x100000000 + be_u32(b, pos + 4)
}

/// The big-endian 64-bit value stored at `pos`, read as a signed
/// two's-complement number.
pub open spec fn be_i64(b: Seq<u8>, pos: int) -> int {
    if be_u64(b, pos) < 0x8000000000000000 {
        be_u64(b, pos)
    } else {
        be_u64(b, pos) - 0x10000000000000000
    }
}

pub fn read_be_u16(b: &Vec<u8>, pos: usize) -> (r: u16)
    requires
        pos + 2 <= b.len(),
    ensures
        r == be_u16(b@, pos as int),
{
    (b[pos] as u16) * 256 + (b[pos + 1] as u16)
}

pub fn read_be_u32(b: &Vec<u8>, pos: usize) -> (r: u32)
    requires
        pos + 4 <= b.len(),
    ensures
        r == be_u32(b@, pos as int),
{
    let hi = read_be_u16(b, pos);
    let lo = read_be_u16(b, pos + 2);
    (hi as u32) * 65536 + (lo as u32)
}

pub fn read_be_i64(b: &Vec<u8>, pos: usize) -> (r: i64)
    requires
        pos + 8 <= b.len(),
    ensures
        r == be_i64(b@, pos as int),
{
    let hi = read_be_u32(b, pos);
    let lo = read_be_u32(b, pos + 4);
    let n: u64 = (hi as u64) * 0x100000000 + (lo as u64);
    let r = #[verifier::truncate] (n as i64);
    proof {
        if n < 0x8000000000000000 {
            assert(r == n as int) by (bit_vector)
                requires
                    n < 0x8000000000000000,
                    r == n as i64,
            ;
        } else {
            assert(r == n as int - 0x10000000000000000) by (bit_vector)
                requires
                    n >= 0x8000000000000000,
                    r == n as i64,
            ;
        }
    }
    r
}

} // verus!
