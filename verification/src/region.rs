//! Region locator: maps chunk coordinates to a region file and a local slot,
//! and extracts one chunk's compressed record out of a region file's bytes
//! through the 4096-byte offset table at its start.

use vstd::prelude::*;
use crate::bytes::{be_u32, read_be_u32};

verus! {

/// The region holding chunk coordinate `v`: the floor of `v / 32`.
pub open spec fn spec_region_coord(v: int) -> int {
    v / 32
}

/// The coordinate of `v` inside its region, always in `[0, 32)`.
pub open spec fn spec_local_coord(v: int) -> int {
    v % 32
}

/// Splits an absolute chunk coordinate into a region coordinate (floor
/// division by 32, also for negative values) and a local coordinate,
/// always in `[0, 32)`.
pub fn split_region_coord(value: i32) -> (r: (i32, i32))
    ensures
        value == r.0 * 32 + r.1,
        0 <= r.1 < 32,
        r.0 == spec_region_coord(value as int),
        r.1 == spec_local_coord(value as int),
{
    let r = if value >= 0 {
        let region: i32 = value / 32;
        let local: i32 = value % 32;
        (region, local)
    } else {
        let m: i32 = -(value + 1);
        let region: i32 = -1 - m / 32;
        let local: i32 = 31 - m % 32;
        (region, local)
    };
    proof {
        vstd::arithmetic::div_mod::lemma_fundamental_div_mod_converse(
            value as int,
            32,
            r.0 as int,
            r.1 as int,
        );
    }
    r
}

/// The slot of the header table that a chunk at the given local coordinates
/// occupies.
pub open spec fn spec_slot_index(local_x: int, local_z: int) -> int {
    local_z * 32 + local_x
}

/// What the region file's bytes hold for the chunk in the given slot:
/// `None` when the header table is truncated, the slot is empty, or the
/// record's claimed length does not fit its sector count or the file;
/// otherwise the compression-scheme byte and the `length - 1` payload bytes.
pub open spec fn spec_chunk_payload(region: Seq<u8>, local_x: int, local_z: int) -> Option<
    (u8, Seq<u8>),
> {
    let index = spec_slot_index(local_x, local_z);
    if region.len() < 4096 {
        None
    } else {
        let loc = be_u32(region, index * 4);
        let offset = (loc / 256) * 4096;
        let sectors = loc % 256;
        if loc == 0 || offset == 0 || sectors == 0 {
            None
        } else if offset + 4 > region.len() {
            None
        } else {
            let length = be_u32(region, offset);
            if length == 0 || length > sectors * 4096 {
                None
            } else if offset + 4 + length > region.len() {
                None
            } else {
                Some((region[offset + 4], region.subrange(offset + 5, offset + 4 + length)))
            }
        }
    }
}

/// Reads the header slot for the given local chunk coordinates and returns
/// the record's compression scheme and compressed payload, or `None` for an
/// absent or malformed slot.
pub fn chunk_payload(region: &Vec<u8>, local_x: i32, local_z: i32) -> (r: Option<(u8, Vec<u8>)>)
    requires
        0 <= local_x < 32,
        0 <= local_z < 32,
    ensures
        (r is Some) == (spec_chunk_payload(region@, local_x as int, local_z as int) is Some),
        r is Some ==> r->Some_0.0 == spec_chunk_payload(
            region@,
            local_x as int,
            local_z as int,
        )->Some_0.0,
        r is Some ==> r->Some_0.1@ == spec_chunk_payload(
            region@,
            local_x as int,
            local_z as int,
        )->Some_0.1,
{
    if region.len() < 4096 {
        return None;
    }
    let index: usize = (local_z as usize) * 32 + (local_x as usize);
    let loc = read_be_u32(region, index * 4);
    if loc == 0 {
        return None;
    }
    let offset_u: u64 = ((loc / 256) as u64) * 4096;
    let sectors: u32 = loc % 256;
    if offset_u == 0 || sectors == 0 {
        return None;
    }
    let rlen: u64 = region.len() as u64;
    if offset_u + 4 > rlen {
        return None;
    }
    let offset: usize = offset_u as usize;
    let length: u64 = read_be_u32(region, offset) as u64;
    if length == 0 || length > (sectors as u64) * 4096 {
        return None;
    }
    if offset_u + 4 + length > rlen {
        return None;
    }
    let scheme: u8 = region[offset + 4];
    let n: usize = (length - 1) as usize;
    assert(offset + 5 + n == offset_u + 4 + length);
    let base: usize = offset + 5;
    let mut payload: Vec<u8> = Vec::new();
    let mut i: usize = 0;
    while i < n
        invariant
            i <= n,
            payload@.len() == i,
            base + n <= region@.len(),
            region@.len() <= usize::MAX,
            forall|j: int| 0 <= j < i ==> payload@[j] == region@[base + j],
        decreases n - i,
    {
        payload.push(region[base + i]);
        i = i + 1;
    }
    proof {
        assert(payload@ =~= region@.subrange(offset + 5, offset as int + 4 + length as int));
    }
    Some((scheme, payload))
}

/// The decimal digits of `n`, as ASCII bytes.
pub open spec fn spec_digits(n: nat) -> Seq<u8>
    decreases n,
{
    if n < 10 {
        seq![(48 + n) as u8]
    } else {
        spec_digits(n / 10).push((48 + n % 10) as u8)
    }
}

/// The decimal writing of `v`, as ASCII bytes, with a leading minus sign
/// for negative values.
pub open spec fn spec_int_str(v: int) -> Seq<u8> {
    if v < 0 {
        seq![45u8] + spec_digits((-v) as nat)
    } else {
        spec_digits(v as nat)
    }
}

/// The name of the region file holding the given region coordinates:
/// `r.<x>.<z>.mca`, as ASCII bytes.
pub open spec fn spec_region_name(x: int, z: int) -> Seq<u8> {
    seq![114u8, 46u8] + spec_int_str(x) + seq![46u8] + spec_int_str(z) + seq![
        46u8,
        109u8,
        99u8,
        97u8,
    ]
}

/// Appends the decimal digits of `n`.
fn push_digits(out: &mut Vec<u8>, n: u32)
    ensures
        final(out)@ == old(out)@ + spec_digits(n as nat),
    decreases n,
{
    if n < 10 {
        out.push((48 + n) as u8);
        proof {
            assert(out@ =~= old(out)@ + spec_digits(n as nat));
        }
    } else {
        push_digits(out, n / 10);
        out.push((48 + n % 10) as u8);
        proof {
            assert(out@ =~= old(out)@ + spec_digits(n as nat));
        }
    }
}

/// Appends the decimal writing of `v`.
fn push_int(out: &mut Vec<u8>, v: i32)
    ensures
        final(out)@ == old(out)@ + spec_int_str(v as int),
{
    if v < 0 {
        out.push(45);
        let m: u32 = (-(v as i64)) as u32;
        push_digits(out, m);
        proof {
            assert(out@ =~= old(out)@ + spec_int_str(v as int));
        }
    } else {
        push_digits(out, v as u32);
    }
}

/// Builds the region file's name, `r.<x>.<z>.mca`, as ASCII bytes.
pub fn region_file_name(region_x: i32, region_z: i32) -> (r: Vec<u8>)
    ensures
        r@ == spec_region_name(region_x as int, region_z as int),
{
    let mut out: Vec<u8> = Vec::new();
    out.push(114);
    out.push(46);
    push_int(&mut out, region_x);
    out.push(46);
    push_int(&mut out, region_z);
    out.push(46);
    out.push(109);
    out.push(99);
    out.push(97);
    proof {
        assert(out@ =~= spec_region_name(region_x as int, region_z as int));
    }
    out
}

} // verus!
