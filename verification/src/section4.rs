//! Data section (section 4) of the BUFR format, and the optional local-use
//! section (section 2) that is carried through unparsed.

use vstd::prelude::*;
use vstd::slice::{slice_subrange, slice_to_vec};

use crate::error::Error;
use crate::wire::{read_u24, u24_at};

verus! {

/// Optional local-use section of a BUFR message; its payload is preserved
/// without interpretation.
pub struct Section2 {
    pub length: usize,
    pub data: Vec<u8>,
}

/// The declared length of the section starting at `off`.
pub open spec fn sec2_length(b: Seq<u8>, off: int) -> int {
    u24_at(b, off)
}

/// A section 2 starting at `off` decodes without error.
pub open spec fn sec2_ok(b: Seq<u8>, off: int) -> bool {
    &&& off + 4 <= b.len()
    &&& off + sec2_length(b, off) <= b.len()
    &&& sec2_length(b, off) >= 4
}

/// The error a section 2 decode reports, in check order.
pub open spec fn sec2_err(b: Seq<u8>, off: int) -> Error {
    if off + 4 > b.len() {
        Error::MessageTooShort
    } else if off + sec2_length(b, off) > b.len() {
        Error::TruncatedMessage
    } else {
        Error::InvalidSectionLayout
    }
}

/// The preserved payload: everything past the length and reserved byte.
pub open spec fn sec2_data(b: Seq<u8>, off: int) -> Seq<u8> {
    b.subrange(off + 4, off + sec2_length(b, off))
}

impl Section2 {
    /// Decodes a section 2 from the bytes starting at `off`, preserving its
    /// payload unparsed.
    pub fn decode(buf: &[u8], off: usize) -> (r: Result<Section2, Error>)
        ensures
            match r {
                Ok(s) => {
                    &&& sec2_ok(buf@, off as int)
                    &&& s.length == sec2_length(buf@, off as int)
                    &&& s.data@ == sec2_data(buf@, off as int)
                },
                Err(e) => !sec2_ok(buf@, off as int) && e == sec2_err(buf@, off as int),
            },
    {
        if buf.len() < 4 || off > buf.len() - 4 {
            return Err(Error::MessageTooShort);
        }
        let length = read_u24(buf, off) as usize;
        if length > buf.len() - off {
            return Err(Error::TruncatedMessage);
        }
        if length < 4 {
            return Err(Error::InvalidSectionLayout);
        }
        let data = slice_to_vec(slice_subrange(buf, off + 4, off + length));
        Ok(Section2 { length, data })
    }

    /// Length in bytes of this section.
    pub fn length(&self) -> (r: usize)
        ensures
            r == self.length,
    {
        self.length
    }

    /// A copy of the preserved payload bytes.
    pub fn data(&self) -> (r: Vec<u8>)
        ensures
            r@ == self.data@,
    {
        copy_bytes(&self.data)
    }
}

/// Data section of a BUFR message: the continuous bit stream the
/// descriptor program reads values from.
pub struct Section4 {
    pub length: usize,
    pub data: Vec<u8>,
}

/// The declared length of the section starting at `off`.
pub open spec fn sec4_length(b: Seq<u8>, off: int) -> int {
    u24_at(b, off)
}

/// A section 4 starting at `off` decodes without error: room for the
/// header, a length that fits the buffer, and a zero reserved byte.
pub open spec fn sec4_ok(b: Seq<u8>, off: int) -> bool {
    &&& off + 4 <= b.len()
    &&& off + sec4_length(b, off) <= b.len()
    &&& sec4_length(b, off) >= 4
    &&& b[off + 3] == 0
}

/// The error a section 4 decode reports, in check order.
pub open spec fn sec4_err(b: Seq<u8>, off: int) -> Error {
    if off + 4 > b.len() {
        Error::MessageTooShort
    } else if off + sec4_length(b, off) > b.len() {
        Error::TruncatedMessage
    } else {
        Error::InvalidSectionLayout
    }
}

/// The bit-stream payload: everything past the length and reserved byte.
pub open spec fn sec4_data(b: Seq<u8>, off: int) -> Seq<u8> {
    b.subrange(off + 4, off + sec4_length(b, off))
}

impl Section4 {
    /// Decodes a section 4 from the bytes starting at `off`.
    pub fn decode(buf: &[u8], off: usize) -> (r: Result<Section4, Error>)
        ensures
            match r {
                Ok(s) => {
                    &&& sec4_ok(buf@, off as int)
                    &&& s.length == sec4_length(buf@, off as int)
                    &&& s.data@ == sec4_data(buf@, off as int)
                },
                Err(e) => !sec4_ok(buf@, off as int) && e == sec4_err(buf@, off as int),
            },
    {
        if buf.len() < 4 || off > buf.len() - 4 {
            return Err(Error::MessageTooShort);
        }
        let length = read_u24(buf, off) as usize;
        if length > buf.len() - off {
            return Err(Error::TruncatedMessage);
        }
        if length < 4 || buf[off + 3] != 0 {
            return Err(Error::InvalidSectionLayout);
        }
        let data = slice_to_vec(slice_subrange(buf, off + 4, off + length));
        Ok(Section4 { length, data })
    }

    /// Length in bytes of this section.
    pub fn length(&self) -> (r: usize)
        ensures
            r == self.length,
    {
        self.length
    }

    /// A copy of the bit-stream payload bytes.
    pub fn data(&self) -> (r: Vec<u8>)
        ensures
            r@ == self.data@,
    {
        copy_bytes(&self.data)
    }
}

/// An element-for-element copy of a byte vector.
pub(crate) fn copy_bytes(v: &Vec<u8>) -> (r: Vec<u8>)
    ensures
        r@ == v@,
{
    let mut out: Vec<u8> = Vec::new();
    let mut i: usize = 0;
    while i < v.len()
        invariant
            i <= v@.len(),
            out@ == v@.take(i as int),
        decreases v@.len() - i,
    {
        out.push(v[i]);
        proof {
            assert(v@.take(i + 1) =~= v@.take(i as int).push(v@[i as int]));
        }
        i = i + 1;
    }
    proof {
        assert(v@.take(v@.len() as int) =~= v@);
    }
    out
}

} // verus!
