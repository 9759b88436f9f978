//! Errors raised while decoding a BUFR message.

use vstd::prelude::*;

verus! {

/// Possible errors when decoding BUFR messages.
#[derive(Debug, Clone, Copy, PartialEq, Eq, Structural)]
pub enum Error {
    /// Message too short to even contain the total size.
    MessageTooShort,
    /// Wrong magic number: the message does not start with `BUFR`.
    MagicNumber,
    /// Wrong end section: the message does not end with `7777`.
    EndSection,
    /// Message shorter than specified on section 0.
    TruncatedMessage,
    /// BUFR version not supported.
    VersionNotSupported(u8),
    /// Section 3 length must be 7 plus an even number of descriptor bytes.
    InvalidSection3Length(usize),
    /// A reserved byte or flag field holds a value the format forbids.
    InvalidSectionLayout,
    /// An element descriptor (F=0) missing from Table B during expansion.
    UnknownElement(u8, u8),
    /// A sequence descriptor (F=3) missing from Table D during expansion.
    UnknownSequence(u8, u8),
    /// The bit reader was asked for more bits than section 4 holds.
    BitStreamExhausted,
    /// Sequence expansion nested deeper than the fixed cap.
    RecursionTooDeep,
    /// More elements were emitted for one subset than the fixed ceiling.
    ElementLimitExceeded,
    /// An operator descriptor (F=2) in a position the format forbids.
    OperatorMisuse,
    /// The message uses the compressed section 4 encoding, which this
    /// decoder does not support.
    CompressedNotSupported,
}

/// Errors raised while finishing a builder.
#[derive(Debug, Clone, Copy, PartialEq, Eq, Structural)]
pub enum BuilderError {
    /// A required field was never set.
    UninitializedField,
}

impl Error {
    /// A one-line human-readable description of the error.
    pub fn message(&self) -> (r: &'static str)
        ensures
            r@.len() > 0,
    {
        proof {
            reveal_strlit("BUFR message is too short, less than 8 bytes");
            reveal_strlit("BUFR message should start with BUFR");
            reveal_strlit("BUFR message should end with 7777");
            reveal_strlit("Message shorter than expected, is it truncated?");
            reveal_strlit("BUFR version not supported");
            reveal_strlit("Section 3 length must be 7 plus an even descriptor size");
            reveal_strlit("A reserved byte or flag field holds a forbidden value");
            reveal_strlit("Element descriptor not found in Table B");
            reveal_strlit("Sequence descriptor not found in Table D");
            reveal_strlit("Bit stream exhausted before the read completed");
            reveal_strlit("Sequence expansion nested too deep");
            reveal_strlit("Element count ceiling exceeded");
            reveal_strlit("Operator descriptor used in a forbidden position");
            reveal_strlit("Compressed section 4 encoding is not supported");
        }
        match self {
            Error::MessageTooShort => "BUFR message is too short, less than 8 bytes",
            Error::MagicNumber => "BUFR message should start with BUFR",
            Error::EndSection => "BUFR message should end with 7777",
            Error::TruncatedMessage => "Message shorter than expected, is it truncated?",
            Error::VersionNotSupported(_) => "BUFR version not supported",
            Error::InvalidSection3Length(_) => "Section 3 length must be 7 plus an even descriptor size",
            Error::InvalidSectionLayout => "A reserved byte or flag field holds a forbidden value",
            Error::UnknownElement(_, _) => "Element descriptor not found in Table B",
            Error::UnknownSequence(_, _) => "Sequence descriptor not found in Table D",
            Error::BitStreamExhausted => "Bit stream exhausted before the read completed",
            Error::RecursionTooDeep => "Sequence expansion nested too deep",
            Error::ElementLimitExceeded => "Element count ceiling exceeded",
            Error::OperatorMisuse => "Operator descriptor used in a forbidden position",
            Error::CompressedNotSupported => "Compressed section 4 encoding is not supported",
        }
    }
}

} // verus!
