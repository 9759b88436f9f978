//! Data-description section (section 3) of the BUFR format: subset count,
//! flags, and the descriptor program that drives data decoding.

use vstd::prelude::*;

use crate::descriptor::{
    desc_wf, spec_encode_descriptor, spec_parse_descriptor, Descriptor,
};
use crate::error::{BuilderError, Error};
use crate::wire::{push_u16, push_u24, read_u16, read_u24, u16_at, u16_bytes, u24_at, u24_bytes};

verus! {

/// Data-description section of a BUFR message.
pub struct Section3 {
    pub length: usize,
    pub n_subsets: u16,
    pub is_observed: bool,
    pub is_compressed: bool,
    pub descriptors: Vec<Descriptor>,
}

/// The declared length of the section starting at `off`.
pub open spec fn sec3_length(b: Seq<u8>, off: int) -> int {
    u24_at(b, off)
}

/// The subset count held in the section starting at `off`.
pub open spec fn sec3_n_subsets(b: Seq<u8>, off: int) -> int {
    u16_at(b, off + 4)
}

/// The observed flag: bit 7 of the flags byte.
pub open spec fn sec3_observed(b: Seq<u8>, off: int) -> bool {
    b[off + 6] & 0x80 != 0
}

/// The compressed flag: bit 6 of the flags byte.
pub open spec fn sec3_compressed(b: Seq<u8>, off: int) -> bool {
    b[off + 6] & 0x40 != 0
}

/// A section 3 starting at `off` decodes without error: room for the
/// 7-byte header, a length that fits the buffer and holds a whole number
/// of 2-byte descriptors, a zero reserved byte, and no stray flag bits.
pub open spec fn sec3_ok(b: Seq<u8>, off: int) -> bool {
    &&& off + 8 <= b.len()
    &&& off + sec3_length(b, off) <= b.len()
    &&& sec3_length(b, off) >= 7
    &&& b[off + 3] == 0
    &&& b[off + 6] & 0x3f == 0
    &&& (sec3_length(b, off) - 7) % 2 == 0
}

/// The error a section 3 decode reports, in check order.
pub open spec fn sec3_err(b: Seq<u8>, off: int) -> Error {
    if off + 8 > b.len() {
        Error::MessageTooShort
    } else if off + sec3_length(b, off) > b.len() {
        Error::TruncatedMessage
    } else if sec3_length(b, off) < 7 {
        Error::InvalidSection3Length(sec3_length(b, off) as usize)
    } else if b[off + 3] != 0 {
        Error::InvalidSectionLayout
    } else if b[off + 6] & 0x3f != 0 {
        Error::InvalidSectionLayout
    } else {
        Error::InvalidSection3Length(sec3_length(b, off) as usize)
    }
}

/// The descriptor program: the 2-byte groups between the header and the
/// end of the section, in order.
pub open spec fn sec3_descriptors(b: Seq<u8>, off: int) -> Seq<Descriptor> {
    Seq::new(
        (((sec3_length(b, off) - 7) / 2) as nat),
        |k: int| spec_parse_descriptor(b[off + 7 + 2 * k], b[off + 8 + 2 * k]),
    )
}

/// The flags byte encoding the observed and compressed bits.
pub open spec fn sec3_flags_byte(observed: bool, compressed: bool) -> u8 {
    ((if observed {
        0x80int
    } else {
        0int
    }) + (if compressed {
        0x40int
    } else {
        0int
    })) as u8
}

/// The byte images of a descriptor list, in order.
pub open spec fn descs_bytes(ds: Seq<Descriptor>) -> Seq<u8>
    decreases ds.len(),
{
    if ds.len() == 0 {
        Seq::empty()
    } else {
        descs_bytes(ds.drop_last()) + seq![
            spec_encode_descriptor(ds.last()).0,
            spec_encode_descriptor(ds.last()).1,
        ]
    }
}

/// The byte image of a section 3, as `encode` writes it.
pub open spec fn sec3_bytes(s: Section3) -> Seq<u8> {
    u24_bytes(s.length as u32) + seq![0u8] + u16_bytes(s.n_subsets) + seq![
        sec3_flags_byte(s.is_observed, s.is_compressed),
    ] + descs_bytes(s.descriptors@)
}

impl Section3 {
    /// Decodes a section 3 from the bytes starting at `off`.
    pub fn decode(buf: &[u8], off: usize) -> (r: Result<Section3, Error>)
        ensures
            match r {
                Ok(s) => {
                    &&& sec3_ok(buf@, off as int)
                    &&& s.length == sec3_length(buf@, off as int)
                    &&& s.n_subsets == sec3_n_subsets(buf@, off as int)
                    &&& s.is_observed == sec3_observed(buf@, off as int)
                    &&& s.is_compressed == sec3_compressed(buf@, off as int)
                    &&& s.descriptors@ == sec3_descriptors(buf@, off as int)
                },
                Err(e) => !sec3_ok(buf@, off as int) && e == sec3_err(buf@, off as int),
            },
    {
        if buf.len() < 8 || off > buf.len() - 8 {
            return Err(Error::MessageTooShort);
        }
        let length = read_u24(buf, off) as usize;
        if length > buf.len() - off {
            return Err(Error::TruncatedMessage);
        }
        if length < 7 {
            return Err(Error::InvalidSection3Length(length));
        }
        if buf[off + 3] != 0 {
            return Err(Error::InvalidSectionLayout);
        }
        let n_subsets = read_u16(buf, off + 4);
        let flags = buf[off + 6];
        if flags & 0x3f != 0 {
            return Err(Error::InvalidSectionLayout);
        }
        let is_observed = flags & 0x80 != 0;
        let is_compressed = flags & 0x40 != 0;
        if (length - 7) % 2 != 0 {
            return Err(Error::InvalidSection3Length(length));
        }
        let n_descs = (length - 7) / 2;
        let mut descriptors: Vec<Descriptor> = Vec::new();
        let mut k: usize = 0;
        while k < n_descs
            invariant
                k <= n_descs,
                n_descs == (sec3_length(buf@, off as int) - 7) / 2,
                off + sec3_length(buf@, off as int) <= buf@.len(),
                buf@.len() <= usize::MAX,
                sec3_length(buf@, off as int) >= 7,
                (sec3_length(buf@, off as int) - 7) % 2 == 0,
                descriptors@.len() == k,
                forall|j: int|
                    0 <= j < k ==> descriptors@[j] == sec3_descriptors(buf@, off as int)[j],
            decreases n_descs - k,
        {
            proof {
                assert(2 * ((sec3_length(buf@, off as int) - 7) / 2) == sec3_length(
                    buf@,
                    off as int,
                ) - 7);
                assert(off + 8 + 2 * k < buf@.len());
            }
            let d = crate::descriptor::parse_descriptor([buf[off + 7 + 2 * k], buf[off + 8 + 2
                * k]]);
            descriptors.push(d);
            k = k + 1;
        }
        proof {
            assert(descriptors@ =~= sec3_descriptors(buf@, off as int));
        }
        Ok(Section3 { length, n_subsets, is_observed, is_compressed, descriptors })
    }

    /// Appends the byte image of this section to `wtr` and returns how many
    /// bytes the section occupies.
    pub fn encode(&self, wtr: &mut Vec<u8>) -> (r: Result<usize, Error>)
        requires
            self.length < 0x1000000,
            forall|j: int| 0 <= j < self.descriptors@.len() ==> desc_wf(#[trigger] self.descriptors@[j]),
            7 + 2 * self.descriptors@.len() <= usize::MAX,
        ensures
            r == Ok::<usize, Error>((7 + 2 * self.descriptors@.len()) as usize),
            final(wtr)@ == old(wtr)@ + sec3_bytes(*self),
    {
        push_u24(wtr, self.length as u32);
        wtr.push(0);
        push_u16(wtr, self.n_subsets);
        if self.is_observed {
            if self.is_compressed {
                wtr.push(0xc0);
            } else {
                wtr.push(0x80);
            }
        } else {
            if self.is_compressed {
                wtr.push(0x40);
            } else {
                wtr.push(0);
            }
        }
        proof {
            lemma_descs_bytes_len(self.descriptors@);
            assert(wtr@ =~= old(wtr)@ + sec3_bytes(*self).take(7));
        }
        let mut n: usize = 0;
        let mut k: usize = 0;
        while k < self.descriptors.len()
            invariant
                k <= self.descriptors@.len(),
                2 * self.descriptors@.len() <= usize::MAX - 7,
                n == 2 * k,
                forall|j: int|
                    0 <= j < self.descriptors@.len() ==> desc_wf(#[trigger] self.descriptors@[j]),
                wtr@ == old(wtr)@ + sec3_bytes(*self).take(7 + 2 * k),
                sec3_bytes(*self).len() == 7 + 2 * self.descriptors@.len(),
            decreases self.descriptors@.len() - k,
        {
            let m = self.descriptors[k].encode(wtr);
            proof {
                let full = sec3_bytes(*self);
                let ds = self.descriptors@;
                lemma_descs_bytes_index(ds, k as int);
                assert(full[7 + 2 * k] == spec_encode_descriptor(ds[k as int]).0);
                assert(full[7 + 2 * k + 1] == spec_encode_descriptor(ds[k as int]).1);
                assert(full.take(7 + 2 * (k + 1)) =~= full.take(7 + 2 * k).push(
                    spec_encode_descriptor(ds[k as int]).0,
                ).push(spec_encode_descriptor(ds[k as int]).1));
            }
            n = n + m;
            k = k + 1;
        }
        proof {
            let full = sec3_bytes(*self);
            assert(full.take(full.len() as int) =~= full);
        }
        Ok(7 + n)
    }

    /// Length in bytes of this section.
    pub fn length(&self) -> (r: usize)
        ensures
            r == self.length,
    {
        self.length
    }

    /// Number of data subsets in the message.
    pub fn n_subsets(&self) -> (r: u16)
        ensures
            r == self.n_subsets,
    {
        self.n_subsets
    }

    /// Whether the data are observed (flag bit 7).
    pub fn is_observed(&self) -> (r: bool)
        ensures
            r == self.is_observed,
    {
        self.is_observed
    }

    /// Whether section 4 uses the compressed encoding (flag bit 6).
    pub fn is_compressed(&self) -> (r: bool)
        ensures
            r == self.is_compressed,
    {
        self.is_compressed
    }

    /// A copy of the descriptor program.
    pub fn descriptors(&self) -> (r: Vec<Descriptor>)
        ensures
            r@ == self.descriptors@,
    {
        let mut out: Vec<Descriptor> = Vec::new();
        let mut k: usize = 0;
        while k < self.descriptors.len()
            invariant
                k <= self.descriptors@.len(),
                out@ == self.descriptors@.take(k as int),
            decreases self.descriptors@.len() - k,
        {
            out.push(self.descriptors[k]);
            proof {
                assert(self.descriptors@.take(k + 1) =~= self.descriptors@.take(k as int).push(
                    self.descriptors@[k as int],
                ));
            }
            k = k + 1;
        }
        proof {
            assert(self.descriptors@.take(self.descriptors@.len() as int) =~= self.descriptors@);
        }
        out
    }
}

/// The byte image of a descriptor list is two bytes per descriptor.
pub proof fn lemma_descs_bytes_len(ds: Seq<Descriptor>)
    ensures
        descs_bytes(ds).len() == 2 * ds.len(),
    decreases ds.len(),
{
    if ds.len() > 0 {
        lemma_descs_bytes_len(ds.drop_last());
    }
}

/// Descriptor `j` of the list owns bytes `2j` and `2j + 1` of the image.
pub proof fn lemma_descs_bytes_index(ds: Seq<Descriptor>, j: int)
    requires
        0 <= j < ds.len(),
    ensures
        descs_bytes(ds).len() == 2 * ds.len(),
        descs_bytes(ds)[2 * j] == spec_encode_descriptor(ds[j]).0,
        descs_bytes(ds)[2 * j + 1] == spec_encode_descriptor(ds[j]).1,
    decreases ds.len(),
{
    lemma_descs_bytes_len(ds);
    if j == ds.len() - 1 {
        lemma_descs_bytes_len(ds.drop_last());
    } else {
        lemma_descs_bytes_index(ds.drop_last(), j);
    }
}

/// Builds a section 3 from its fields; the length follows from the
/// descriptor count, the subset count defaults to one, and the compressed
/// flag defaults to off.
pub struct Section3Builder {
    pub n_subsets: Option<u16>,
    pub is_observed: Option<bool>,
    pub is_compressed: Option<bool>,
    pub descriptors: Option<Vec<Descriptor>>,
}

impl Default for Section3Builder {
    /// A builder with every field still unset.
    fn default() -> (r: Section3Builder)
        ensures
            r.n_subsets is None,
            r.is_observed is None,
            r.is_compressed is None,
            r.descriptors is None,
    {
        Section3Builder { n_subsets: None, is_observed: None, is_compressed: None, descriptors: None }
    }
}

impl Section3Builder {
    /// Sets the subset count.
    pub fn n_subsets(self, v: u16) -> (r: Self)
        ensures
            r == (Section3Builder { n_subsets: Some(v), ..self }),
    {
        Section3Builder { n_subsets: Some(v), ..self }
    }

    /// Sets the observed flag.
    pub fn is_observed(self, v: bool) -> (r: Self)
        ensures
            r == (Section3Builder { is_observed: Some(v), ..self }),
    {
        Section3Builder { is_observed: Some(v), ..self }
    }

    /// Sets the compressed flag.
    pub fn is_compressed(self, v: bool) -> (r: Self)
        ensures
            r == (Section3Builder { is_compressed: Some(v), ..self }),
    {
        Section3Builder { is_compressed: Some(v), ..self }
    }

    /// Sets the descriptor program.
    pub fn descriptors(self, v: Vec<Descriptor>) -> (r: Self)
        ensures
            r == (Section3Builder { descriptors: Some(v), ..self }),
    {
        Section3Builder { descriptors: Some(v), ..self }
    }

    /// Finishes the build: the observed flag and the descriptors must have
    /// been set, and the length is the 7-byte header plus two bytes per
    /// descriptor.
    pub fn build(self) -> (r: Result<Section3, BuilderError>)
        ensures
            match r {
                Ok(s) => {
                    &&& self.is_observed is Some
                    &&& self.descriptors is Some
                    &&& s.length == 7 + 2 * self.descriptors->0@.len()
                    &&& s.n_subsets == (if self.n_subsets is Some {
                        self.n_subsets->0
                    } else {
                        1u16
                    })
                    &&& s.is_observed == self.is_observed->0
                    &&& s.is_compressed == (if self.is_compressed is Some {
                        self.is_compressed->0
                    } else {
                        false
                    })
                    &&& s.descriptors@ == self.descriptors->0@
                },
                Err(e) => (self.is_observed is None || self.descriptors is None
                    || self.descriptors->0@.len() > (usize::MAX - 7) / 2) && e
                    == BuilderError::UninitializedField,
            },
    {
        let Section3Builder { n_subsets, is_observed, is_compressed, descriptors } = self;
        let is_observed = match is_observed {
            Some(v) => v,
            None => {
                return Err(BuilderError::UninitializedField);
            },
        };
        let descriptors = match descriptors {
            Some(v) => v,
            None => {
                return Err(BuilderError::UninitializedField);
            },
        };
        if descriptors.len() > (usize::MAX - 7) / 2 {
            return Err(BuilderError::UninitializedField);
        }
        Ok(
            Section3 {
                length: 7 + 2 * descriptors.len(),
                n_subsets: match n_subsets {
                    Some(v) => v,
                    None => 1,
                },
                is_observed,
                is_compressed: match is_compressed {
                    Some(v) => v,
                    None => false,
                },
                descriptors,
            },
        )
    }
}

} // verus!
