//! Typed values extracted from the bit stream, and the events the
//! descriptor expander emits while walking a descriptor program.

use vstd::prelude::*;

use crate::descriptor::Descriptor;

verus! {

/// A decoded element value.
///
/// `Numeric(m, s)` stands for the decimal value `m * 10^(-s)`: the decoder
/// works in the integer domain and leaves the floating division to the
/// caller, so the mantissa and scale are carried exactly.
#[derive(Debug, Clone, PartialEq)]
pub enum Value {
    /// The all-ones bit pattern at the element's effective width.
    Missing,
    /// A raw integer after reference addition, for counts, dates and times.
    Integer(i64),
    /// A scaled decimal: mantissa and base-10 scale.
    Numeric(i64, i32),
    /// A CCITT IA5 text, right-trimmed of spaces and NULs.
    Text(Vec<u8>),
    /// A code-table entry.
    Code(u32),
    /// A flag-table bit field, never shifted by the reference.
    Flag(u32),
}

/// The mathematical shape of a `Value`.
pub enum ValueV {
    Missing,
    Integer(int),
    Numeric(int, int),
    Text(Seq<u8>),
    Code(u32),
    Flag(u32),
}

impl View for Value {
    type V = ValueV;

    open spec fn view(&self) -> ValueV {
        match self {
            Value::Missing => ValueV::Missing,
            Value::Integer(i) => ValueV::Integer(*i as int),
            Value::Numeric(m, s) => ValueV::Numeric(*m as int, *s as int),
            Value::Text(t) => ValueV::Text(t@),
            Value::Code(c) => ValueV::Code(*c),
            Value::Flag(f) => ValueV::Flag(*f),
        }
    }
}

/// An element value together with the associated-field bits read just
/// before it, when an add-associated-field operator is in force.
#[derive(Debug, Clone, PartialEq)]
pub struct ExtractedValue {
    pub value: Value,
    pub associated: Option<u64>,
}

/// An event of the expansion stream. The expander linearizes a descriptor
/// program into these; the tree assembler folds them back up.
#[derive(Debug, Clone, PartialEq)]
pub enum Event {
    /// A sequence descriptor (F=3) opens.
    EnterSequence(Descriptor),
    /// The open sequence closes.
    LeaveSequence(Descriptor),
    /// A replication descriptor (F=1) opens with its resolved factor.
    EnterReplication(Descriptor, u64),
    /// Iteration `k` of the open replication begins, counted from one.
    EnterIteration(u64),
    /// The open iteration ends.
    LeaveIteration,
    /// The open replication closes.
    LeaveReplication,
    /// An element descriptor (F=0) was read, with its value.
    Element(Descriptor, ExtractedValue),
    /// An operator descriptor (F=2) was applied.
    Operator(Descriptor),
}

/// The mathematical shape of an `Event`.
pub enum EventV {
    EnterSequence(Descriptor),
    LeaveSequence(Descriptor),
    EnterReplication(Descriptor, u64),
    EnterIteration(u64),
    LeaveIteration,
    LeaveReplication,
    Element(Descriptor, ValueV, Option<u64>),
    Operator(Descriptor),
}

impl View for Event {
    type V = EventV;

    open spec fn view(&self) -> EventV {
        match self {
            Event::EnterSequence(d) => EventV::EnterSequence(*d),
            Event::LeaveSequence(d) => EventV::LeaveSequence(*d),
            Event::EnterReplication(d, n) => EventV::EnterReplication(*d, *n),
            Event::EnterIteration(k) => EventV::EnterIteration(*k),
            Event::LeaveIteration => EventV::LeaveIteration,
            Event::LeaveReplication => EventV::LeaveReplication,
            Event::Element(d, v) => EventV::Element(*d, v.value@, v.associated),
            Event::Operator(d) => EventV::Operator(*d),
        }
    }
}

/// The shapes of a list of events.
pub open spec fn events_view(s: Seq<Event>) -> Seq<EventV> {
    s.map_values(|e: Event| e@)
}

/// A byte sequence without its trailing spaces and NULs.
pub open spec fn spec_rtrim(s: Seq<u8>) -> Seq<u8>
    decreases s.len(),
{
    if s.len() == 0 {
        s
    } else if s.last() == 0x20 || s.last() == 0x00 {
        spec_rtrim(s.drop_last())
    } else {
        s
    }
}

/// Copies a byte vector without its trailing spaces and NULs.
pub fn rtrim_bytes(v: &Vec<u8>) -> (r: Vec<u8>)
    ensures
        r@ == spec_rtrim(v@),
{
    let mut end = v.len();
    proof {
        assert(v@.take(end as int) =~= v@);
    }
    while end > 0 && (v[end - 1] == 0x20 || v[end - 1] == 0x00)
        invariant
            end <= v@.len(),
            spec_rtrim(v@.take(end as int)) == spec_rtrim(v@),
        decreases end,
    {
        proof {
            assert(v@.take(end as int).drop_last() =~= v@.take(end - 1));
            assert(v@.take(end as int).last() == v@[end - 1]);
        }
        end = end - 1;
    }
    proof {
        if end > 0 {
            assert(v@.take(end as int).last() == v@[end - 1]);
            assert(spec_rtrim(v@.take(end as int)) == v@.take(end as int));
        }
    }
    let mut out: Vec<u8> = Vec::new();
    let mut i: usize = 0;
    while i < end
        invariant
            i <= end <= v@.len(),
            out@ == v@.take(end as int).take(i as int),
        decreases end - i,
    {
        out.push(v[i]);
        proof {
            assert(v@.take(end as int).take(i + 1) =~= v@.take(end as int).take(i as int).push(
                v@[i as int],
            ));
        }
        i = i + 1;
    }
    proof {
        assert(v@.take(end as int).take(end as int) =~= v@.take(end as int));
    }
    out
}

} // verus!
