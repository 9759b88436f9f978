//! Descriptor identity: the (F, X, Y) triple and its two-byte wire form.
//!
//! F (2 bits) selects the kind: 0 element, 1 replication, 2 operator,
//! 3 sequence. X (6 bits) and Y (8 bits) identify the entry within the kind.
//! On the wire, byte 0 holds F in its top two bits and X in its low six;
//! byte 1 holds Y.

use vstd::prelude::*;

verus! {

/// A descriptor from a data-description section: the (F, X, Y) triple.
#[derive(Debug, Clone, Copy, PartialEq, Eq, Structural)]
pub struct Descriptor {
    pub f: u8,
    pub x: u8,
    pub y: u8,
}

/// A descriptor is well formed when each field fits its wire width.
pub open spec fn desc_wf(d: Descriptor) -> bool {
    d.f < 4 && d.x < 64
}

/// The (F, X, Y) triple that a two-byte wire encoding denotes.
pub open spec fn spec_parse_descriptor(b0: u8, b1: u8) -> Descriptor {
    Descriptor {
        f: (b0 >> 6) as u8,
        x: (b0 & 0x3f) as u8,
        y: b1,
    }
}

/// The two-byte wire encoding of a descriptor.
pub open spec fn spec_encode_descriptor(d: Descriptor) -> (u8, u8) {
    (((d.f << 6) | d.x) as u8, d.y)
}

/// Parses a descriptor from its two-byte wire form: F is the top two bits
/// of byte 0, X its low six bits, and Y is byte 1.
pub fn parse_descriptor(buf: [u8; 2]) -> (d: Descriptor)
    ensures
        d == spec_parse_descriptor(buf[0], buf[1]),
        desc_wf(d),
{
    let b0 = buf[0];
    let f = (b0 & 0b1100_0000) >> 6;
    let x = b0 & 0b0011_1111;
    let y = buf[1];
    proof {
        assert((b0 & 0b1100_0000) >> 6 == b0 >> 6 && b0 >> 6 < 4 && (b0 & 0x3f) < 64)
            by (bit_vector);
    }
    Descriptor { f, x, y }
}

impl Descriptor {
    /// The two-byte wire form of this descriptor.
    pub fn encode_descriptor(&self) -> (buf: [u8; 2])
        requires
            desc_wf(*self),
        ensures
            (buf[0], buf[1]) == spec_encode_descriptor(*self),
    {
        proof {
            let f = self.f;
            let x = self.x;
            assert(f < 4 && x < 64 ==> (f << 6) as u8 <= 192
                && ((f << 6) as u8 as int) + (x as int) == (((f << 6) | x) as u8 as int))
                by (bit_vector);
        }
        let b0 = (self.f << 6) + self.x;
        [b0, self.y]
    }

    /// Appends the two-byte wire form of this descriptor to `wtr` and
    /// returns the number of bytes written.
    pub fn encode(&self, wtr: &mut Vec<u8>) -> (n: usize)
        requires
            desc_wf(*self),
        ensures
            n == 2,
            final(wtr)@ == old(wtr)@.push(spec_encode_descriptor(*self).0)
                .push(spec_encode_descriptor(*self).1),
    {
        let b = self.encode_descriptor();
        wtr.push(b[0]);
        wtr.push(b[1]);
        2
    }
}

/// Encoding inverts parsing: for every two-byte input, parsing and then
/// encoding the descriptor gives the bytes back.
pub proof fn lemma_descriptor_round_trip(b0: u8, b1: u8)
    ensures
        spec_encode_descriptor(spec_parse_descriptor(b0, b1)) == (b0, b1),
{
    assert(((b0 >> 6) << 6) | (b0 & 0x3f) == b0) by (bit_vector);
}

} // verus!
