//! Decoder for the WMO FM 94 BUFR binary data format.
//!
//! A BUFR message carries meteorological observations as a sequence of
//! framed sections; section 3 holds a program of descriptors that dictates
//! how the bit stream in section 4 is interpreted.

mod bits;
mod decode;
mod descriptor;
mod error;
mod identification;
mod message;
mod operators;
mod value;
mod section3;
mod section4;
pub mod tables;
mod tree;
mod units;
mod wire;

pub use bits::BufferReader;
pub use decode::decode_data;
pub use decode::decode_subsets;
pub use decode::DecodedData;
pub use descriptor::parse_descriptor;
pub use descriptor::Descriptor;
pub use error::BuilderError;
pub use error::Error;
pub use identification::Section1;
pub use identification::Section1v3;
pub use identification::Section1v4;
pub use identification::Section1v4Builder;
pub use message::decode;
pub use operators::OperatorContext;
pub use value::Event;
pub use value::ExtractedValue;
pub use value::Value;
pub use tree::assemble_tree;
pub use tree::Node;
pub use tree::ValueTree;
pub use message::Message;
pub use section3::Section3;
pub use section3::Section3Builder;
pub use tables::ElementDescriptor;
pub use tables::Registry;
pub use tables::F3;
pub use tables::RecordF0;
pub use tables::RecordF3;
pub use tables::width_value_from_table;
pub use units::BUFRUnit;
pub use section4::Section2;
pub use section4::Section4;
