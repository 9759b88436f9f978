//! Identification section (section 1) of the BUFR format.

use vstd::prelude::*;
use vstd::slice::{slice_subrange, slice_to_vec};

use crate::error::{BuilderError, Error};
use crate::wire::{push_u16, push_u24, read_u16, read_u24, u16_at, u16_bytes, u24_at, u24_bytes};

verus! {

/// Identification section of a BUFR message, by edition.
pub enum Section1 {
    /// Edition 3 layout.
    V3(Section1v3),
    /// Edition 4 layout.
    V4(Section1v4),
}

/// Edition 3 layout of section 1. Decoding it is out of scope: the decoder
/// targets edition 4 and reports edition 3 as unsupported.
pub struct Section1v3 {
    pub length: usize,
    pub master_table: u8,
    pub sub_center: u8,
    pub center: u8,
    pub update_version: u8,
    pub optional_section: bool,
    pub data_category: u8,
    pub data_subcategory: u8,
    pub master_table_version: u8,
    pub local_table_version: u8,
    pub year: u8,
    pub month: u8,
    pub day: u8,
    pub hour: u8,
    pub minute: u8,
    pub local_use: Vec<u8>,
}

/// Edition 4 layout of section 1.
pub struct Section1v4 {
    pub length: usize,
    pub master_table: u8,
    pub sub_center: u16,
    pub center: u16,
    pub update_version: u8,
    pub optional_section: bool,
    pub data_category: u8,
    pub data_subcategory: u8,
    pub local_subcategory: u8,
    pub master_table_version: u8,
    pub local_table_version: u8,
    pub year: u16,
    pub month: u8,
    pub day: u8,
    pub hour: u8,
    pub minute: u8,
    pub second: u8,
    pub local_use: Vec<u8>,
}

/// The declared length of the edition 4 section starting at `off`.
pub open spec fn sec1v4_length(b: Seq<u8>, off: int) -> int {
    u24_at(b, off)
}

/// The byte that flags an optional section 2 is one the format allows:
/// absent (0), or present under either accepted flag bit.
pub open spec fn sec1v4_opt_byte_ok(v: u8) -> bool {
    v == 0 || v == 0x40 || v == 0x80
}

/// An edition 4 section 1 starting at `off` decodes without error.
pub open spec fn sec1v4_ok(b: Seq<u8>, off: int) -> bool {
    &&& off + 22 <= b.len()
    &&& off + sec1v4_length(b, off) <= b.len()
    &&& sec1v4_opt_byte_ok(b[off + 9])
}

/// The error an edition 4 section 1 decode reports, in check order.
pub open spec fn sec1v4_err(b: Seq<u8>, off: int) -> Error {
    if off + 22 > b.len() {
        Error::MessageTooShort
    } else if off + sec1v4_length(b, off) > b.len() {
        Error::TruncatedMessage
    } else {
        Error::InvalidSectionLayout
    }
}

/// The local-use bytes: whatever the declared length holds past the fixed
/// 22-byte prefix.
pub open spec fn sec1v4_local_use(b: Seq<u8>, off: int) -> Seq<u8> {
    if sec1v4_length(b, off) > 21 {
        b.subrange(off + 22, off + sec1v4_length(b, off))
    } else {
        Seq::empty()
    }
}

/// Field-by-field: `s` holds exactly what the bytes at `off` say.
pub open spec fn sec1v4_fields(s: Section1v4, b: Seq<u8>, off: int) -> bool {
    &&& s.length == sec1v4_length(b, off)
    &&& s.master_table == b[off + 3]
    &&& s.center == u16_at(b, off + 4)
    &&& s.sub_center == u16_at(b, off + 6)
    &&& s.update_version == b[off + 8]
    &&& s.optional_section == (b[off + 9] == 0x40 || b[off + 9] == 0x80)
    &&& s.data_category == b[off + 10]
    &&& s.data_subcategory == b[off + 11]
    &&& s.local_subcategory == b[off + 12]
    &&& s.master_table_version == b[off + 13]
    &&& s.local_table_version == b[off + 14]
    &&& s.year == u16_at(b, off + 15)
    &&& s.month == b[off + 17]
    &&& s.day == b[off + 18]
    &&& s.hour == b[off + 19]
    &&& s.minute == b[off + 20]
    &&& s.second == b[off + 21]
    &&& s.local_use@ == sec1v4_local_use(b, off)
}

/// The byte image of an edition 4 section 1, as `encode` writes it.
pub open spec fn sec1v4_bytes(s: Section1v4) -> Seq<u8> {
    u24_bytes(s.length as u32) + seq![s.master_table] + u16_bytes(s.center) + u16_bytes(
        s.sub_center,
    ) + seq![
        s.update_version,
        (if s.optional_section {
            0x80u8
        } else {
            0u8
        }),
        s.data_category,
        s.data_subcategory,
        s.local_subcategory,
        s.master_table_version,
        s.local_table_version,
    ] + u16_bytes(s.year) + seq![s.month, s.day, s.hour, s.minute, s.second] + s.local_use@
}

impl Section1v4 {
    /// Decodes an edition 4 section 1 from the bytes starting at `off`.
    pub fn decode(buf: &[u8], off: usize) -> (r: Result<Section1v4, Error>)
        ensures
            match r {
                Ok(s) => sec1v4_ok(buf@, off as int) && sec1v4_fields(s, buf@, off as int),
                Err(e) => !sec1v4_ok(buf@, off as int) && e == sec1v4_err(buf@, off as int),
            },
    {
        if buf.len() < 22 || off > buf.len() - 22 {
            return Err(Error::MessageTooShort);
        }
        let length = read_u24(buf, off) as usize;
        if length > buf.len() - off {
            return Err(Error::TruncatedMessage);
        }
        let opt_byte = buf[off + 9];
        if !(opt_byte == 0 || opt_byte == 0x40 || opt_byte == 0x80) {
            return Err(Error::InvalidSectionLayout);
        }
        let local_use: Vec<u8> = if length > 21 {
            slice_to_vec(slice_subrange(buf, off + 22, off + length))
        } else {
            Vec::new()
        };
        Ok(
            Section1v4 {
                length,
                master_table: buf[off + 3],
                center: read_u16(buf, off + 4),
                sub_center: read_u16(buf, off + 6),
                update_version: buf[off + 8],
                optional_section: opt_byte == 0x40 || opt_byte == 0x80,
                data_category: buf[off + 10],
                data_subcategory: buf[off + 11],
                local_subcategory: buf[off + 12],
                master_table_version: buf[off + 13],
                local_table_version: buf[off + 14],
                year: read_u16(buf, off + 15),
                month: buf[off + 17],
                day: buf[off + 18],
                hour: buf[off + 19],
                minute: buf[off + 20],
                second: buf[off + 21],
                local_use,
            },
        )
    }

    /// Appends the byte image of this section to `wtr` and returns how
    /// many bytes it wrote: the fixed 22-byte layout plus the local-use
    /// bytes.
    pub fn encode(&self, wtr: &mut Vec<u8>) -> (r: Result<usize, Error>)
        requires
            self.length < 0x1000000,
            self.local_use@.len() + 22 <= usize::MAX,
        ensures
            r == Ok::<usize, Error>((22 + self.local_use@.len()) as usize),
            final(wtr)@ == old(wtr)@ + sec1v4_bytes(*self),
    {
        push_u24(wtr, self.length as u32);
        wtr.push(self.master_table);
        push_u16(wtr, self.center);
        push_u16(wtr, self.sub_center);
        wtr.push(self.update_version);
        if self.optional_section {
            wtr.push(0x80);
        } else {
            wtr.push(0);
        }
        wtr.push(self.data_category);
        wtr.push(self.data_subcategory);
        wtr.push(self.local_subcategory);
        wtr.push(self.master_table_version);
        wtr.push(self.local_table_version);
        push_u16(wtr, self.year);
        wtr.push(self.month);
        wtr.push(self.day);
        wtr.push(self.hour);
        wtr.push(self.minute);
        wtr.push(self.second);
        let mut i: usize = 0;
        while i < self.local_use.len()
            invariant
                i <= self.local_use@.len(),
                wtr@ == old(wtr)@ + sec1v4_bytes(*self).take(
                    sec1v4_bytes(*self).len() - self.local_use@.len() + i,
                ),
                sec1v4_bytes(*self).len() == 22 + self.local_use@.len(),
            decreases self.local_use@.len() - i,
        {
            wtr.push(self.local_use[i]);
            proof {
                let full = sec1v4_bytes(*self);
                assert(full.take(22 + i + 1) =~= full.take(22 + i).push(self.local_use@[i as int]));
            }
            i = i + 1;
        }
        proof {
            let full = sec1v4_bytes(*self);
            assert(full.take(full.len() as int) =~= full);
        }
        Ok(22 + self.local_use.len())
    }

    /// Length in bytes of this section.
    pub fn length(&self) -> (r: usize)
        ensures
            r == self.length,
    {
        self.length
    }

    /// BUFR master table in use.
    pub fn master_table(&self) -> (r: u8)
        ensures
            r == self.master_table,
    {
        self.master_table
    }

    /// Identification of the originating sub-centre.
    pub fn sub_center(&self) -> (r: u16)
        ensures
            r == self.sub_center,
    {
        self.sub_center
    }

    /// Identification of the originating centre.
    pub fn center(&self) -> (r: u16)
        ensures
            r == self.center,
    {
        self.center
    }

    /// Update sequence number of this message.
    pub fn update_version(&self) -> (r: u8)
        ensures
            r == self.update_version,
    {
        self.update_version
    }

    /// Whether an optional section 2 follows.
    pub fn optional_section(&self) -> (r: bool)
        ensures
            r == self.optional_section,
    {
        self.optional_section
    }

    /// Data category (Table A).
    pub fn data_category(&self) -> (r: u8)
        ensures
            r == self.data_category,
    {
        self.data_category
    }

    /// International data sub-category.
    pub fn data_subcategory(&self) -> (r: u8)
        ensures
            r == self.data_subcategory,
    {
        self.data_subcategory
    }

    /// Local data sub-category.
    pub fn local_subcategory(&self) -> (r: u8)
        ensures
            r == self.local_subcategory,
    {
        self.local_subcategory
    }

    /// Version number of the master table.
    pub fn master_table_version(&self) -> (r: u8)
        ensures
            r == self.master_table_version,
    {
        self.master_table_version
    }

    /// Version number of the local table.
    pub fn local_table_version(&self) -> (r: u8)
        ensures
            r == self.local_table_version,
    {
        self.local_table_version
    }

    /// Year of the typical date of the content.
    pub fn year(&self) -> (r: u16)
        ensures
            r == self.year,
    {
        self.year
    }

    /// Month of the typical date.
    pub fn month(&self) -> (r: u8)
        ensures
            r == self.month,
    {
        self.month
    }

    /// Day of the typical date.
    pub fn day(&self) -> (r: u8)
        ensures
            r == self.day,
    {
        self.day
    }

    /// Hour of the typical time.
    pub fn hour(&self) -> (r: u8)
        ensures
            r == self.hour,
    {
        self.hour
    }

    /// Minute of the typical time.
    pub fn minute(&self) -> (r: u8)
        ensures
            r == self.minute,
    {
        self.minute
    }

    /// Second of the typical time.
    pub fn second(&self) -> (r: u8)
        ensures
            r == self.second,
    {
        self.second
    }

    /// Bytes reserved for local use by the originating centre.
    pub fn local_use(&self) -> (r: &Vec<u8>)
        ensures
            r == &self.local_use,
    {
        &self.local_use
    }
}

impl Section1v3 {
    /// Edition 3 decoding is out of scope; reports the edition as
    /// unsupported on every input.
    pub fn decode(buf: &[u8], off: usize) -> (r: Result<Section1v3, Error>)
        ensures
            r == Err::<Section1v3, Error>(Error::VersionNotSupported(3)),
    {
        let _ = buf;
        let _ = off;
        Err(Error::VersionNotSupported(3))
    }

    /// Length in bytes of this section.
    pub fn length(&self) -> (r: usize)
        ensures
            r == self.length,
    {
        self.length
    }

    /// BUFR master table in use.
    pub fn master_table(&self) -> (r: u8)
        ensures
            r == self.master_table,
    {
        self.master_table
    }

    /// Identification of the originating sub-centre.
    pub fn sub_center(&self) -> (r: u8)
        ensures
            r == self.sub_center,
    {
        self.sub_center
    }

    /// Identification of the originating centre.
    pub fn center(&self) -> (r: u8)
        ensures
            r == self.center,
    {
        self.center
    }

    /// Update sequence number of this message.
    pub fn update_version(&self) -> (r: u8)
        ensures
            r == self.update_version,
    {
        self.update_version
    }

    /// Whether an optional section 2 follows.
    pub fn optional_section(&self) -> (r: bool)
        ensures
            r == self.optional_section,
    {
        self.optional_section
    }

    /// Data category (Table A).
    pub fn data_category(&self) -> (r: u8)
        ensures
            r == self.data_category,
    {
        self.data_category
    }

    /// International data sub-category.
    pub fn data_subcategory(&self) -> (r: u8)
        ensures
            r == self.data_subcategory,
    {
        self.data_subcategory
    }

    /// Version number of the master table.
    pub fn master_table_version(&self) -> (r: u8)
        ensures
            r == self.master_table_version,
    {
        self.master_table_version
    }

    /// Version number of the local table.
    pub fn local_table_version(&self) -> (r: u8)
        ensures
            r == self.local_table_version,
    {
        self.local_table_version
    }

    /// Year of the typical date, within its century.
    pub fn year(&self) -> (r: u8)
        ensures
            r == self.year,
    {
        self.year
    }

    /// Month of the typical date.
    pub fn month(&self) -> (r: u8)
        ensures
            r == self.month,
    {
        self.month
    }

    /// Day of the typical date.
    pub fn day(&self) -> (r: u8)
        ensures
            r == self.day,
    {
        self.day
    }

    /// Hour of the typical time.
    pub fn hour(&self) -> (r: u8)
        ensures
            r == self.hour,
    {
        self.hour
    }

    /// Minute of the typical time.
    pub fn minute(&self) -> (r: u8)
        ensures
            r == self.minute,
    {
        self.minute
    }

    /// Bytes reserved for local use by the originating centre.
    pub fn local_use(&self) -> (r: &Vec<u8>)
        ensures
            r == &self.local_use,
    {
        &self.local_use
    }
}

impl Section1 {
    /// Decodes section 1 at `off` in the layout of the given edition.
    pub fn decode(buf: &[u8], off: usize, version: u8) -> (r: Result<Section1, Error>)
        requires
            version == 3 || version == 4,
        ensures
            match r {
                Ok(s) => version == 4 && s is V4 && sec1v4_ok(buf@, off as int) && sec1v4_fields(
                    s->V4_0,
                    buf@,
                    off as int,
                ),
                Err(e) => if version == 3 {
                    e == Error::VersionNotSupported(3)
                } else {
                    !sec1v4_ok(buf@, off as int) && e == sec1v4_err(buf@, off as int)
                },
            },
    {
        if version == 3 {
            match Section1v3::decode(buf, off) {
                Ok(s) => Ok(Section1::V3(s)),
                Err(e) => Err(e),
            }
        } else {
            match Section1v4::decode(buf, off) {
                Ok(s) => Ok(Section1::V4(s)),
                Err(e) => Err(e),
            }
        }
    }

    /// Appends the byte image of this section to `wtr`; only the edition 4
    /// layout can be encoded.
    pub fn encode(&self, wtr: &mut Vec<u8>) -> (r: Result<usize, Error>)
        requires
            self is V4 ==> self->V4_0.length < 0x1000000 && self->V4_0.local_use@.len() + 22
                <= usize::MAX,
        ensures
            match r {
                Ok(n) => self is V4 && n == 22 + self->V4_0.local_use@.len() && final(wtr)@ == old(
                    wtr,
                )@ + sec1v4_bytes(self->V4_0),
                Err(e) => self is V3 && e == Error::VersionNotSupported(3) && final(wtr)@ == old(
                    wtr,
                )@,
            },
    {
        match self {
            Section1::V4(v) => v.encode(wtr),
            Section1::V3(_) => Err(Error::VersionNotSupported(3)),
        }
    }

    /// Length in bytes of this section.
    pub fn length(&self) -> (r: usize)
        ensures
            r == (match self {
                Section1::V3(v) => v.length,
                Section1::V4(v) => v.length,
            }),
    {
        match self {
            Section1::V3(v) => v.length(),
            Section1::V4(v) => v.length(),
        }
    }

    /// Whether an optional section 2 follows.
    pub fn optional_section(&self) -> (r: bool)
        ensures
            r == (match self {
                Section1::V3(v) => v.optional_section,
                Section1::V4(v) => v.optional_section,
            }),
    {
        match self {
            Section1::V3(v) => v.optional_section(),
            Section1::V4(v) => v.optional_section(),
        }
    }
}

/// Builds an edition 4 section 1 field by field; the section length is
/// fixed at the 22-byte layout and local-use bytes default to none.
pub struct Section1v4Builder {
    pub master_table: Option<u8>,
    pub sub_center: Option<u16>,
    pub center: Option<u16>,
    pub update_version: Option<u8>,
    pub optional_section: Option<bool>,
    pub data_category: Option<u8>,
    pub data_subcategory: Option<u8>,
    pub local_subcategory: Option<u8>,
    pub master_table_version: Option<u8>,
    pub local_table_version: Option<u8>,
    pub year: Option<u16>,
    pub month: Option<u8>,
    pub day: Option<u8>,
    pub hour: Option<u8>,
    pub minute: Option<u8>,
    pub second: Option<u8>,
    pub local_use: Option<Vec<u8>>,
}

impl Default for Section1v4Builder {
    /// A builder with every field still unset.
    fn default() -> (r: Section1v4Builder)
        ensures
            r.master_table is None,
            r.sub_center is None,
            r.center is None,
            r.update_version is None,
            r.optional_section is None,
            r.data_category is None,
            r.data_subcategory is None,
            r.local_subcategory is None,
            r.master_table_version is None,
            r.local_table_version is None,
            r.year is None,
            r.month is None,
            r.day is None,
            r.hour is None,
            r.minute is None,
            r.second is None,
            r.local_use is None,
    {
        Section1v4Builder {
            master_table: None,
            sub_center: None,
            center: None,
            update_version: None,
            optional_section: None,
            data_category: None,
            data_subcategory: None,
            local_subcategory: None,
            master_table_version: None,
            local_table_version: None,
            year: None,
            month: None,
            day: None,
            hour: None,
            minute: None,
            second: None,
            local_use: None,
        }
    }
}

impl Section1v4Builder {
    /// Sets the master table.
    pub fn master_table(self, v: u8) -> (r: Self)
        ensures
            r == (Section1v4Builder { master_table: Some(v), ..self }),
    {
        Section1v4Builder { master_table: Some(v), ..self }
    }

    /// Sets the originating sub-centre.
    pub fn sub_center(self, v: u16) -> (r: Self)
        ensures
            r == (Section1v4Builder { sub_center: Some(v), ..self }),
    {
        Section1v4Builder { sub_center: Some(v), ..self }
    }

    /// Sets the originating centre.
    pub fn center(self, v: u16) -> (r: Self)
        ensures
            r == (Section1v4Builder { center: Some(v), ..self }),
    {
        Section1v4Builder { center: Some(v), ..self }
    }

    /// Sets the update sequence number.
    pub fn update_version(self, v: u8) -> (r: Self)
        ensures
            r == (Section1v4Builder { update_version: Some(v), ..self }),
    {
        Section1v4Builder { update_version: Some(v), ..self }
    }

    /// Sets whether an optional section 2 follows.
    pub fn optional_section(self, v: bool) -> (r: Self)
        ensures
            r == (Section1v4Builder { optional_section: Some(v), ..self }),
    {
        Section1v4Builder { optional_section: Some(v), ..self }
    }

    /// Sets the data category.
    pub fn data_category(self, v: u8) -> (r: Self)
        ensures
            r == (Section1v4Builder { data_category: Some(v), ..self }),
    {
        Section1v4Builder { data_category: Some(v), ..self }
    }

    /// Sets the international data sub-category.
    pub fn data_subcategory(self, v: u8) -> (r: Self)
        ensures
            r == (Section1v4Builder { data_subcategory: Some(v), ..self }),
    {
        Section1v4Builder { data_subcategory: Some(v), ..self }
    }

    /// Sets the local data sub-category.
    pub fn local_subcategory(self, v: u8) -> (r: Self)
        ensures
            r == (Section1v4Builder { local_subcategory: Some(v), ..self }),
    {
        Section1v4Builder { local_subcategory: Some(v), ..self }
    }

    /// Sets the master table version.
    pub fn master_table_version(self, v: u8) -> (r: Self)
        ensures
            r == (Section1v4Builder { master_table_version: Some(v), ..self }),
    {
        Section1v4Builder { master_table_version: Some(v), ..self }
    }

    /// Sets the local table version.
    pub fn local_table_version(self, v: u8) -> (r: Self)
        ensures
            r == (Section1v4Builder { local_table_version: Some(v), ..self }),
    {
        Section1v4Builder { local_table_version: Some(v), ..self }
    }

    /// Sets the year.
    pub fn year(self, v: u16) -> (r: Self)
        ensures
            r == (Section1v4Builder { year: Some(v), ..self }),
    {
        Section1v4Builder { year: Some(v), ..self }
    }

    /// Sets the month.
    pub fn month(self, v: u8) -> (r: Self)
        ensures
            r == (Section1v4Builder { month: Some(v), ..self }),
    {
        Section1v4Builder { month: Some(v), ..self }
    }

    /// Sets the day.
    pub fn day(self, v: u8) -> (r: Self)
        ensures
            r == (Section1v4Builder { day: Some(v), ..self }),
    {
        Section1v4Builder { day: Some(v), ..self }
    }

    /// Sets the hour.
    pub fn hour(self, v: u8) -> (r: Self)
        ensures
            r == (Section1v4Builder { hour: Some(v), ..self }),
    {
        Section1v4Builder { hour: Some(v), ..self }
    }

    /// Sets the minute.
    pub fn minute(self, v: u8) -> (r: Self)
        ensures
            r == (Section1v4Builder { minute: Some(v), ..self }),
    {
        Section1v4Builder { minute: Some(v), ..self }
    }

    /// Sets the second.
    pub fn second(self, v: u8) -> (r: Self)
        ensures
            r == (Section1v4Builder { second: Some(v), ..self }),
    {
        Section1v4Builder { second: Some(v), ..self }
    }

    /// Sets the local-use bytes.
    pub fn local_use(self, v: Vec<u8>) -> (r: Self)
        ensures
            r == (Section1v4Builder { local_use: Some(v), ..self }),
    {
        Section1v4Builder { local_use: Some(v), ..self }
    }

    /// Every field a finished section needs has been set; local-use bytes
    /// are optional.
    pub open spec fn complete(&self) -> bool {
        &&& self.master_table is Some
        &&& self.sub_center is Some
        &&& self.center is Some
        &&& self.update_version is Some
        &&& self.optional_section is Some
        &&& self.data_category is Some
        &&& self.data_subcategory is Some
        &&& self.local_subcategory is Some
        &&& self.master_table_version is Some
        &&& self.local_table_version is Some
        &&& self.year is Some
        &&& self.month is Some
        &&& self.day is Some
        &&& self.hour is Some
        &&& self.minute is Some
        &&& self.second is Some
    }

    /// Finishes the build: fails when a required field was never set; the
    /// length is the fixed 22-byte layout without local-use bytes.
    pub fn build(self) -> (r: Result<Section1v4, BuilderError>)
        ensures
            match r {
                Ok(s) => {
                    &&& self.complete()
                    &&& s.length == 22
                    &&& s.master_table == self.master_table->0
                    &&& s.sub_center == self.sub_center->0
                    &&& s.center == self.center->0
                    &&& s.update_version == self.update_version->0
                    &&& s.optional_section == self.optional_section->0
                    &&& s.data_category == self.data_category->0
                    &&& s.data_subcategory == self.data_subcategory->0
                    &&& s.local_subcategory == self.local_subcategory->0
                    &&& s.master_table_version == self.master_table_version->0
                    &&& s.local_table_version == self.local_table_version->0
                    &&& s.year == self.year->0
                    &&& s.month == self.month->0
                    &&& s.day == self.day->0
                    &&& s.hour == self.hour->0
                    &&& s.minute == self.minute->0
                    &&& s.second == self.second->0
                    &&& s.local_use@ == (if self.local_use is Some {
                        self.local_use->0@
                    } else {
                        Seq::<u8>::empty()
                    })
                },
                Err(e) => !self.complete() && e == BuilderError::UninitializedField,
            },
    {
        let Section1v4Builder {
            master_table,
            sub_center,
            center,
            update_version,
            optional_section,
            data_category,
            data_subcategory,
            local_subcategory,
            master_table_version,
            local_table_version,
            year,
            month,
            day,
            hour,
            minute,
            second,
            local_use,
        } = self;
        match (master_table, sub_center, center, update_version, optional_section) {
            (Some(master_table), Some(sub_center), Some(center), Some(update_version), Some(
                optional_section,
            )) => match (data_category, data_subcategory, local_subcategory, master_table_version,
                local_table_version) {
                (Some(data_category), Some(data_subcategory), Some(local_subcategory), Some(
                    master_table_version,
                ), Some(local_table_version)) => match (year, month, day, hour, minute, second) {
                    (Some(year), Some(month), Some(day), Some(hour), Some(minute), Some(second)) =>
                        Ok(
                            Section1v4 {
                                length: 22,
                                master_table,
                                sub_center,
                                center,
                                update_version,
                                optional_section,
                                data_category,
                                data_subcategory,
                                local_subcategory,
                                master_table_version,
                                local_table_version,
                                year,
                                month,
                                day,
                                hour,
                                minute,
                                second,
                                local_use: match local_use {
                                    Some(v) => v,
                                    None => Vec::new(),
                                },
                            },
                        ),
                    _ => Err(BuilderError::UninitializedField),
                },
                _ => Err(BuilderError::UninitializedField),
            },
            _ => Err(BuilderError::UninitializedField),
        }
    }
}

} // verus!
