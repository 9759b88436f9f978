//! Big-endian byte-level helpers shared by the section codecs.

use vstd::prelude::*;

verus! {

/// The unsigned 24-bit big-endian integer held in bytes `i .. i + 3`.
pub open spec fn u24_at(b: Seq<u8>, i: int) -> int {
    b[i] * 0x10000 + b[i + 1] * 0x100 + b[i + 2]
}

/// The unsigned 16-bit big-endian integer held in bytes `i .. i + 2`.
pub open spec fn u16_at(b: Seq<u8>, i: int) -> int {
    b[i] * 0x100 + b[i + 1]
}

/// The three bytes of `x` in big-endian order.
pub open spec fn u24_bytes(x: u32) -> Seq<u8> {
    seq![(x >> 16) as u8, (x >> 8) as u8, x as u8]
}

/// The two bytes of `x` in big-endian order.
pub open spec fn u16_bytes(x: u16) -> Seq<u8> {
    seq![(x >> 8) as u8, x as u8]
}

/// Reads the 24-bit big-endian integer at byte offset `i`.
pub fn read_u24(buf: &[u8], i: usize) -> (r: u32)
    requires
        i + 3 <= buf@.len(),
    ensures
        r == u24_at(buf@, i as int),
        r < 0x1000000,
{
    (buf[i] as u32) * 0x10000 + (buf[i + 1] as u32) * 0x100 + (buf[i + 2] as u32)
}

/// Reads the 16-bit big-endian integer at byte offset `i`.
pub fn read_u16(buf: &[u8], i: usize) -> (r: u16)
    requires
        i + 2 <= buf@.len(),
    ensures
        r == u16_at(buf@, i as int),
{
    (buf[i] as u16) * 0x100 + (buf[i + 1] as u16)
}

/// Appends the three big-endian bytes of `x` to `wtr`.
pub fn push_u24(wtr: &mut Vec<u8>, x: u32) -> (n: usize)
    requires
        x < 0x1000000,
    ensures
        n == 3,
        final(wtr)@ == old(wtr)@ + u24_bytes(x),
{
    wtr.push((x >> 16) as u8);
    wtr.push((x >> 8) as u8);
    wtr.push(x as u8);
    proof {
        assert(wtr@ =~= old(wtr)@ + u24_bytes(x));
    }
    3
}

/// Appends the two big-endian bytes of `x` to `wtr`.
pub fn push_u16(wtr: &mut Vec<u8>, x: u16) -> (n: usize)
    ensures
        n == 2,
        final(wtr)@ == old(wtr)@ + u16_bytes(x),
{
    wtr.push((x >> 8) as u8);
    wtr.push(x as u8);
    proof {
        assert(wtr@ =~= old(wtr)@ + u16_bytes(x));
    }
    2
}

} // verus!
