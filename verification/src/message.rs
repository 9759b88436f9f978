//! Message framing: section 0 (magic, total length, edition), the framed
//! sections 1 to 4, and the end marker of section 5.

use vstd::prelude::*;

use crate::error::Error;
use crate::identification::{
    sec1v4_bytes, sec1v4_err, sec1v4_fields, sec1v4_length, sec1v4_ok, Section1,
};
use crate::section3::{
    sec3_compressed, sec3_descriptors, sec3_err, sec3_length, sec3_n_subsets, sec3_observed,
    sec3_ok, Section3,
};
use crate::section4::{
    sec2_data, sec2_err, sec2_length, sec2_ok, sec4_data, sec4_err, sec4_length, sec4_ok,
    Section2, Section4,
};
use crate::wire::{push_u24, read_u24, u24_at, u24_bytes};

verus! {

/// A parsed BUFR message: the framing fields and the four framed sections.
pub struct Message {
    pub total_length: u32,
    pub version: u8,
    pub section1: Section1,
    pub section2: Option<Section2>,
    pub section3: Section3,
    pub section4: Section4,
}

/// The message starts with the ASCII magic `BUFR`.
pub open spec fn msg_magic_ok(b: Seq<u8>) -> bool {
    b[0] == 0x42 && b[1] == 0x55 && b[2] == 0x46 && b[3] == 0x52
}

/// The declared total length of the message.
pub open spec fn msg_total(b: Seq<u8>) -> int {
    u24_at(b, 4)
}

/// Where section 2 starts when present: right after section 1.
pub open spec fn msg_off2(b: Seq<u8>) -> int {
    8 + sec1v4_length(b, 8)
}

/// Whether section 1 announces an optional section 2.
pub open spec fn msg_has_sec2(b: Seq<u8>) -> bool {
    b[17int] == 0x40 || b[17int] == 0x80
}

/// Where section 3 starts: after section 2 when present, else after
/// section 1.
pub open spec fn msg_off3(b: Seq<u8>) -> int {
    msg_off2(b) + if msg_has_sec2(b) {
        sec2_length(b, msg_off2(b))
    } else {
        0
    }
}

/// Where section 4 starts: right after section 3.
pub open spec fn msg_off4(b: Seq<u8>) -> int {
    msg_off3(b) + sec3_length(b, msg_off3(b))
}

/// Where the end marker starts: right after section 4.
pub open spec fn msg_end(b: Seq<u8>) -> int {
    msg_off4(b) + sec4_length(b, msg_off4(b))
}

/// The whole message decodes without error: magic and declared length
/// hold, the edition is 4, every section decodes, and the four-byte end
/// marker `7777` sits where the declared total length says it must.
pub open spec fn msg_ok(b: Seq<u8>) -> bool {
    &&& b.len() >= 8
    &&& msg_magic_ok(b)
    &&& msg_total(b) <= b.len()
    &&& b[7] == 4
    &&& sec1v4_ok(b, 8)
    &&& (msg_has_sec2(b) ==> sec2_ok(b, msg_off2(b)))
    &&& sec3_ok(b, msg_off3(b))
    &&& sec4_ok(b, msg_off4(b))
    &&& msg_total(b) == msg_end(b) + 4
    &&& b[msg_end(b)] == 0x37
    &&& b[msg_end(b) + 1] == 0x37
    &&& b[msg_end(b) + 2] == 0x37
    &&& b[msg_end(b) + 3] == 0x37
}

/// The error the decoder reports, in check order.
pub open spec fn msg_err(b: Seq<u8>) -> Error {
    if b.len() < 8 {
        Error::MessageTooShort
    } else if !msg_magic_ok(b) {
        Error::MagicNumber
    } else if msg_total(b) > b.len() {
        Error::TruncatedMessage
    } else if b[7] != 3 && b[7] != 4 {
        Error::VersionNotSupported(b[7])
    } else if b[7] == 3 {
        Error::VersionNotSupported(3)
    } else if !sec1v4_ok(b, 8) {
        sec1v4_err(b, 8)
    } else if msg_has_sec2(b) && !sec2_ok(b, msg_off2(b)) {
        sec2_err(b, msg_off2(b))
    } else if !sec3_ok(b, msg_off3(b)) {
        sec3_err(b, msg_off3(b))
    } else if !sec4_ok(b, msg_off4(b)) {
        sec4_err(b, msg_off4(b))
    } else {
        Error::EndSection
    }
}

/// The decoded message holds exactly what the bytes say, section by
/// section.
pub open spec fn msg_fields(m: Message, b: Seq<u8>) -> bool {
    &&& m.total_length == msg_total(b)
    &&& m.version == 4
    &&& m.section1 is V4
    &&& sec1v4_fields(m.section1->V4_0, b, 8)
    &&& (m.section2 is Some <==> msg_has_sec2(b))
    &&& (m.section2 is Some ==> m.section2->0.length == sec2_length(b, msg_off2(b))
        && m.section2->0.data@ == sec2_data(b, msg_off2(b)))
    &&& m.section3.length == sec3_length(b, msg_off3(b))
    &&& m.section3.n_subsets == sec3_n_subsets(b, msg_off3(b))
    &&& m.section3.is_observed == sec3_observed(b, msg_off3(b))
    &&& m.section3.is_compressed == sec3_compressed(b, msg_off3(b))
    &&& m.section3.descriptors@ == sec3_descriptors(b, msg_off3(b))
    &&& m.section4.length == sec4_length(b, msg_off4(b))
    &&& m.section4.data@ == sec4_data(b, msg_off4(b))
}

/// Decodes a BUFR message: checks the magic, the declared total length,
/// and the edition, decodes each framed section in order, and checks that
/// the end marker closes the message exactly at the declared length.
///
/// On success the declared total length is the sum of the framed parts:
/// the 8-byte section 0, each decoded section, and the 4-byte end marker.
pub fn decode(buf: &[u8]) -> (r: Result<Message, Error>)
    ensures
        match r {
            Ok(m) => {
                &&& msg_ok(buf@)
                &&& msg_fields(m, buf@)
                &&& m.total_length as int == 8 + m.section1->V4_0.length + (match m.section2 {
                    Some(s2) => s2.length as int,
                    None => 0int,
                }) + m.section3.length + m.section4.length + 4
            },
            Err(e) => !msg_ok(buf@) && e == msg_err(buf@),
        },
{
    if buf.len() < 8 {
        return Err(Error::MessageTooShort);
    }
    if !(buf[0] == 0x42 && buf[1] == 0x55 && buf[2] == 0x46 && buf[3] == 0x52) {
        return Err(Error::MagicNumber);
    }
    let total_length = read_u24(buf, 4);
    if (total_length as usize) > buf.len() {
        return Err(Error::TruncatedMessage);
    }
    let version = buf[7];
    if version != 3 && version != 4 {
        return Err(Error::VersionNotSupported(version));
    }
    let section1 = match Section1::decode(buf, 8, version) {
        Ok(s) => s,
        Err(e) => {
            return Err(e);
        },
    };
    let off2 = 8 + section1.length();
    let section2 = if section1.optional_section() {
        match Section2::decode(buf, off2) {
            Ok(s) => Some(s),
            Err(e) => {
                return Err(e);
            },
        }
    } else {
        None
    };
    let off3 = match &section2 {
        Some(s2) => off2 + s2.length(),
        None => off2,
    };
    let section3 = match Section3::decode(buf, off3) {
        Ok(s) => s,
        Err(e) => {
            return Err(e);
        },
    };
    let off4 = off3 + section3.length();
    let section4 = match Section4::decode(buf, off4) {
        Ok(s) => s,
        Err(e) => {
            return Err(e);
        },
    };
    let end = off4 + section4.length();
    if (total_length as usize) != end + 4 {
        return Err(Error::EndSection);
    }
    if !(buf[end] == 0x37 && buf[end + 1] == 0x37 && buf[end + 2] == 0x37 && buf[end + 3]
        == 0x37) {
        return Err(Error::EndSection);
    }
    Ok(Message { total_length, version, section1, section2, section3, section4 })
}

impl Message {
    /// Total length in bytes of the message including all sections.
    pub fn total_length(&self) -> (r: u32)
        ensures
            r == self.total_length,
    {
        self.total_length
    }

    /// BUFR edition of the message.
    pub fn version(&self) -> (r: u8)
        ensures
            r == self.version,
    {
        self.version
    }

    /// Section 1 of the message.
    pub fn section1(&self) -> (r: &Section1)
        ensures
            r == &self.section1,
    {
        &self.section1
    }

    /// Section 2 of the message, when the optional section is present.
    pub fn section2(&self) -> (r: &Option<Section2>)
        ensures
            r == &self.section2,
    {
        &self.section2
    }

    /// Section 3 of the message.
    pub fn section3(&self) -> (r: &Section3)
        ensures
            r == &self.section3,
    {
        &self.section3
    }

    /// Section 4 of the message.
    pub fn section4(&self) -> (r: &Section4)
        ensures
            r == &self.section4,
    {
        &self.section4
    }

    /// Appends section 0 and section 1 of this message to `wtr` and returns
    /// how many bytes it wrote. Encoding of the remaining sections is done
    /// section by section by the caller.
    pub fn encode(&self, wtr: &mut Vec<u8>) -> (r: Result<usize, Error>)
        requires
            self.total_length < 0x1000000,
            self.section1 is V4 ==> self.section1->V4_0.length < 0x1000000
                && self.section1->V4_0.local_use@.len() + 30 <= usize::MAX,
        ensures
            match r {
                Ok(n) => self.section1 is V4 && n == 30 + self.section1->V4_0.local_use@.len()
                    && final(wtr)@ == old(wtr)@ + seq![0x42u8, 0x55u8, 0x46u8, 0x52u8] + u24_bytes(
                    self.total_length,
                ) + seq![self.version] + sec1v4_bytes(self.section1->V4_0),
                Err(e) => self.section1 is V3 && e == Error::VersionNotSupported(3) && final(wtr)@
                    == old(wtr)@ + seq![0x42u8, 0x55u8, 0x46u8, 0x52u8] + u24_bytes(
                    self.total_length,
                ) + seq![self.version],
            },
{
        wtr.push(0x42);
        wtr.push(0x55);
        wtr.push(0x46);
        wtr.push(0x52);
        push_u24(wtr, self.total_length);
        wtr.push(self.version);
        proof {
            assert(wtr@ =~= old(wtr)@ + seq![0x42u8, 0x55u8, 0x46u8, 0x52u8] + u24_bytes(
                self.total_length,
            ) + seq![self.version]);
        }
        match self.section1.encode(wtr) {
            Ok(n) => Ok(8 + n),
            Err(e) => Err(e),
        }
    }
}

} // verus!
