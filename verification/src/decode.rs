//! The descriptor-driven bit codec: walks a descriptor program against the
//! section 4 bit stream, resolving replication, operator state and
//! sequence inlining, and emits the event stream the value tree is built
//! from.
//!
//! The whole walk is mirrored by a specification-level interpreter
//! (`sp_expand_range`); the executable decoder returns exactly what the
//! interpreter says, which makes the emitted event sequence a function of
//! the descriptor program, the registry and the data bytes alone.

use vstd::prelude::*;
use vstd::arithmetic::power2::{pow2, lemma_pow2_strictly_increases, lemma2_to64, lemma2_to64_rest};
use vstd::bits::lemma_u64_shl_is_mul;

use crate::bits::{bits_uint, lemma_bits_uint_bound, BufferReader};
use crate::descriptor::Descriptor;
use crate::error::Error;
use crate::operators::{
    apply_op, ref_override, spec_apply_op, spec_ctx_wf, spec_ref_override, CtxV,
    OperatorContext,
};
use crate::tables::{spec_enum_to_triple, spec_key, ElementDescriptor, Registry, F3};
use crate::tree::{
    idx_floor, lemma_group_end_shift, lemma_iters_end_shift, sp_group_end, sp_iters_end,
};
use crate::units::BUFRUnit;
use crate::value::{events_view, spec_rtrim, Event, EventV, ExtractedValue, Value, ValueV};

verus! {

/// The registry as the interpreter sees it: the two tables as maps.
pub struct RegV {
    pub elems: Map<u16, ElementDescriptor>,
    pub seqs: Map<u16, F3>,
}

/// The view of a registry.
pub open spec fn regv(reg: &Registry) -> RegV {
    RegV { elems: reg.elements_map(), seqs: reg.sequences_map() }
}

/// The interpreter state: the bit cursor, the operator context, and the
/// remaining work budget.
pub struct SpState {
    pub pos: int,
    pub ctx: CtxV,
    pub fuel: nat,
}

/// What the interpreter returns for a descriptor range: the emitted events
/// and the state after, or the error that aborted the walk.
pub enum SpOut {
    Done(Seq<EventV>, SpState),
    Fail(Error),
}

/// What the interpreter returns for one element read.
pub enum SpElemOut {
    Done(Seq<EventV>, int, CtxV),
    Fail(Error),
}

/// The smaller of two budgets.
pub open spec fn cap(a: nat, b: nat) -> nat {
    if a <= b {
        a
    } else {
        b
    }
}

/// Ten to the `n`.
pub open spec fn spec_pow10(n: nat) -> int
    decreases n,
{
    if n == 0 {
        1
    } else {
        10 * spec_pow10((n - 1) as nat)
    }
}

/// The extra width the increase-scale-reference-width operator adds.
pub open spec fn spec_incw(increase: u32) -> int {
    if increase > 0 {
        (10 * increase + 2) / 3
    } else {
        0
    }
}

/// The value an element read yields, by unit: counts, dates and times stay
/// integers, code and flag tables keep their raw table space, everything
/// else is a scaled decimal.
pub open spec fn sp_unit_value(u: BUFRUnit, vi: int, raw: nat, scale: int) -> ValueV {
    match u {
        BUFRUnit::Numeric => if scale == 0 {
            ValueV::Integer(vi)
        } else {
            ValueV::Numeric(vi, scale)
        },
        BUFRUnit::Year => if scale == 0 {
            ValueV::Integer(vi)
        } else {
            ValueV::Numeric(vi, scale)
        },
        BUFRUnit::Month => if scale == 0 {
            ValueV::Integer(vi)
        } else {
            ValueV::Numeric(vi, scale)
        },
        BUFRUnit::Day => if scale == 0 {
            ValueV::Integer(vi)
        } else {
            ValueV::Numeric(vi, scale)
        },
        BUFRUnit::Hour => if scale == 0 {
            ValueV::Integer(vi)
        } else {
            ValueV::Numeric(vi, scale)
        },
        BUFRUnit::Minute => if scale == 0 {
            ValueV::Integer(vi)
        } else {
            ValueV::Numeric(vi, scale)
        },
        BUFRUnit::Second => if scale == 0 {
            ValueV::Integer(vi)
        } else {
            ValueV::Numeric(vi, scale)
        },
        BUFRUnit::Degree => if scale == 0 {
            ValueV::Integer(vi)
        } else {
            ValueV::Numeric(vi, scale)
        },
        BUFRUnit::CodeTable => ValueV::Code(vi as u32),
        BUFRUnit::CodeTableOriginator => ValueV::Code(vi as u32),
        BUFRUnit::CC1 => ValueV::Code(vi as u32),
        BUFRUnit::CC11 => ValueV::Code(vi as u32),
        BUFRUnit::CC12 => ValueV::Code(vi as u32),
        BUFRUnit::CC14 => ValueV::Code(vi as u32),
        BUFRUnit::FlagTable => ValueV::Flag(raw as u32),
        _ => ValueV::Numeric(vi, scale),
    }
}

/// What reading one element descriptor does, given the cursor and the
/// operator context. In order: an unknown element fails the walk; under a
/// data-not-present operator the element is expanded without a read; inside
/// a change-reference block the element defines its new reference
/// (sign-magnitude at the block's bit width) instead of yielding a value;
/// a text element reads its (possibly overridden) width in whole bytes; any
/// other element reads its effective width as a raw integer, maps the
/// all-ones pattern to `Missing`, and otherwise applies reference, scale
/// and unit. A width override for the next element is consumed by the read
/// that follows it.
pub open spec fn sp_element(reg: RegV, d: Descriptor, data: Seq<u8>, pos: int, ctx: CtxV) -> SpElemOut {
    let k = spec_key(d.x, d.y);
    if !reg.elems.contains_key(k) {
        SpElemOut::Fail(Error::UnknownElement(d.x, d.y))
    } else {
        let e = reg.elems[k];
        if ctx.skip_data > 0 {
            SpElemOut::Done(
                seq![EventV::Element(d, ValueV::Missing, None)],
                pos,
                CtxV { skip_data: (ctx.skip_data - 1) as u32, ..ctx },
            )
        } else if ctx.new_reference_bits is Some {
            let b = ctx.new_reference_bits->0 as int;
            if b < 1 || b > 63 {
                SpElemOut::Fail(Error::OperatorMisuse)
            } else if pos + b > 8 * data.len() {
                SpElemOut::Fail(Error::BitStreamExhausted)
            } else {
                let raw = bits_uint(data, pos, b as nat);
                let newref: int = if b >= 2 && raw >= pow2((b - 1) as nat) {
                    -((raw - pow2((b - 1) as nat)) as int)
                } else {
                    raw as int
                };
                SpElemOut::Done(
                    Seq::empty(),
                    pos + b,
                    CtxV { refs: ctx.refs.push((k, newref as i64)), ..ctx },
                )
            }
        } else if e.unit is CCITTIA5 {
            sp_elem_text(e, d, data, pos, ctx)
        } else {
            sp_elem_num(e, k, d, data, pos, ctx)
        }
    }
}

/// What reading a text element does: the width comes from the character
/// override, else the next-element override, else the catalogue width as
/// modified; whole bytes are read and right-trimmed.
pub open spec fn sp_elem_text(
    e: ElementDescriptor,
    d: Descriptor,
    data: Seq<u8>,
    pos: int,
    ctx: CtxV,
) -> SpElemOut {
    let w: int = if ctx.char_field_bits is Some {
        ctx.char_field_bits->0 as int
    } else if ctx.local_width is Some {
        ctx.local_width->0 as int
    } else {
        e.data_width + ctx.add_width + spec_incw(ctx.increase)
    };
    let ctx1 = CtxV {
        char_field_bits: None,
        local_width: None,
        ..ctx
    };
    if w <= 0 || w % 8 != 0 {
        SpElemOut::Fail(Error::OperatorMisuse)
    } else if ctx1.add_assoc_bits > 64 {
        SpElemOut::Fail(Error::OperatorMisuse)
    } else if ctx1.add_assoc_bits > 0 && pos + ctx1.add_assoc_bits > 8 * data.len() {
        SpElemOut::Fail(Error::BitStreamExhausted)
    } else {
        let assoc: Option<u64> = if ctx1.add_assoc_bits > 0 {
            Some(bits_uint(data, pos, ctx1.add_assoc_bits as nat) as u64)
        } else {
            None
        };
        let pos1 = pos + ctx1.add_assoc_bits;
        if pos1 + w > 8 * data.len() {
            SpElemOut::Fail(Error::BitStreamExhausted)
        } else {
            let bytes = Seq::new((w / 8) as nat, |j: int| bits_uint(data, pos1 + 8 * j, 8) as u8);
            SpElemOut::Done(
                seq![EventV::Element(d, ValueV::Text(spec_rtrim(bytes)), assoc)],
                pos1 + w,
                ctx1,
            )
        }
    }
}

/// What reading a non-text element does: the effective width, scale and
/// reference are the catalogue values as modified by the context; the
/// all-ones raw pattern is `Missing`, anything else maps by unit.
pub open spec fn sp_elem_num(
    e: ElementDescriptor,
    k: u16,
    d: Descriptor,
    data: Seq<u8>,
    pos: int,
    ctx: CtxV,
) -> SpElemOut {
    let w: int = if ctx.local_width is Some {
        ctx.local_width->0 as int
    } else {
        e.data_width + ctx.add_width + spec_incw(ctx.increase)
    };
    let ctx1 = CtxV { local_width: None, ..ctx };
    let scale: int = e.scale + ctx1.scale_delta + ctx1.increase;
    if w < 1 || w > 63 {
        SpElemOut::Fail(Error::OperatorMisuse)
    } else if scale < i32::MIN || scale > i32::MAX {
        SpElemOut::Fail(Error::OperatorMisuse)
    } else if ctx1.increase > 0 && spec_ref_override(ctx1.refs, k) is None && spec_pow10(
        ctx1.increase as nat,
    ) > i64::MAX {
        SpElemOut::Fail(Error::OperatorMisuse)
    } else {
        let r0: int = match spec_ref_override(ctx1.refs, k) {
            Some(r) => r as int,
            None => e.reference_value * spec_pow10(ctx1.increase as nat),
        };
        if r0 < i64::MIN || r0 > i64::MAX {
            SpElemOut::Fail(Error::OperatorMisuse)
        } else if ctx1.add_assoc_bits > 64 {
            SpElemOut::Fail(Error::OperatorMisuse)
        } else if ctx1.add_assoc_bits > 0 && pos + ctx1.add_assoc_bits > 8 * data.len() {
            SpElemOut::Fail(Error::BitStreamExhausted)
        } else {
            let assoc: Option<u64> = if ctx1.add_assoc_bits > 0 {
                Some(bits_uint(data, pos, ctx1.add_assoc_bits as nat) as u64)
            } else {
                None
            };
            let pos1 = pos + ctx1.add_assoc_bits;
            if pos1 + w > 8 * data.len() {
                SpElemOut::Fail(Error::BitStreamExhausted)
            } else {
                let raw = bits_uint(data, pos1, w as nat);
                if raw == pow2(w as nat) - 1 {
                    SpElemOut::Done(
                        seq![EventV::Element(d, ValueV::Missing, assoc)],
                        pos1 + w,
                        ctx1,
                    )
                } else {
                    let vi: int = raw + r0;
                    if vi < i64::MIN || vi > i64::MAX {
                        SpElemOut::Fail(Error::OperatorMisuse)
                    } else {
                        SpElemOut::Done(
                            seq![
                                EventV::Element(d, sp_unit_value(e.unit, vi, raw, scale), assoc),
                            ],
                            pos1 + w,
                            ctx1,
                        )
                    }
                }
            }
        }
    }
}

/// The replication factor an element read supplies: its single event must
/// carry a non-negative integer value.
pub open spec fn sp_count_of(events: Seq<EventV>) -> Option<i64> {
    if events.len() == 1 && (events[0] matches EventV::Element(_, ValueV::Integer(v), _)) && {
        let vv = (match events[0] {
            EventV::Element(_, ValueV::Integer(v), _) => v,
            _ => 0int,
        });
        0 <= vv <= i64::MAX
    } {
        match events[0] {
            EventV::Element(_, ValueV::Integer(v), _) => Some(v as i64),
            _ => None,
        }
    } else {
        None
    }
}

/// What walking the descriptors `lo .. hi` emits, and the state it leaves.
/// Every descriptor processed burns one unit of budget, as does every
/// replication iteration; an exhausted budget fails the walk. Elements
/// read values; a replication resolves its factor (reading a delayed count
/// element when Y is zero) and replays its block; operators update the
/// context, the signify-character operator reading its text in place; and
/// sequences inline their registry children one level deeper, down to the
/// fixed depth floor.
pub open spec fn sp_expand_range(
    reg: RegV,
    descs: Seq<Descriptor>,
    lo: int,
    hi: int,
    data: Seq<u8>,
    st: SpState,
    depth: int,
) -> SpOut
    decreases st.fuel, 1int, hi - lo,
{
    if lo < 0 || hi > descs.len() {
        SpOut::Fail(Error::OperatorMisuse)
    } else if lo >= hi {
        SpOut::Done(Seq::empty(), st)
    } else if st.fuel == 0 {
        SpOut::Fail(Error::ElementLimitExceeded)
    } else {
        let st0 = SpState { fuel: (st.fuel - 1) as nat, ..st };
        let d = descs[lo];
        if d.f == 0 {
            match sp_element(reg, d, data, st0.pos, st0.ctx) {
                SpElemOut::Fail(e) => SpOut::Fail(e),
                SpElemOut::Done(ev1, pos1, ctx1) => {
                    let st1 = SpState { pos: pos1, ctx: ctx1, fuel: st0.fuel };
                    match sp_expand_range(reg, descs, lo + 1, hi, data, st1, depth) {
                        SpOut::Fail(e) => SpOut::Fail(e),
                        SpOut::Done(ev2, st2) => SpOut::Done(ev1 + ev2, st2),
                    }
                },
            }
        } else if d.f == 1 {
            let x = d.x as int;
            if d.y == 0 {
                if lo + 1 >= hi {
                    SpOut::Fail(Error::OperatorMisuse)
                } else if descs[lo + 1].f != 0 {
                    SpOut::Fail(Error::OperatorMisuse)
                } else {
                    match sp_element(reg, descs[lo + 1], data, st0.pos, st0.ctx) {
                        SpElemOut::Fail(e) => SpOut::Fail(e),
                        SpElemOut::Done(ev1, pos1, ctx1) => match sp_count_of(ev1) {
                            None => SpOut::Fail(Error::OperatorMisuse),
                            Some(n) => if lo + 2 + x > hi {
                                SpOut::Fail(Error::OperatorMisuse)
                            } else {
                                let st1 = SpState { pos: pos1, ctx: ctx1, fuel: st0.fuel };
                                match sp_iters(
                                    reg,
                                    descs,
                                    lo + 2,
                                    lo + 2 + x,
                                    data,
                                    st1,
                                    depth,
                                    0,
                                    n as nat,
                                ) {
                                    SpOut::Fail(e) => SpOut::Fail(e),
                                    SpOut::Done(ev2, st2) => {
                                        let st3 = SpState { fuel: cap(st2.fuel, st0.fuel), ..st2 };
                                        match sp_expand_range(
                                            reg,
                                            descs,
                                            lo + 2 + x,
                                            hi,
                                            data,
                                            st3,
                                            depth,
                                        ) {
                                            SpOut::Fail(e) => SpOut::Fail(e),
                                            SpOut::Done(ev3, st4) => SpOut::Done(
                                                ev1 + seq![
                                                    EventV::EnterReplication(d, n as u64),
                                                ] + ev2 + seq![EventV::LeaveReplication] + ev3,
                                                st4,
                                            ),
                                        }
                                    },
                                }
                            },
                        },
                    }
                }
            } else {
                if lo + 1 + x > hi {
                    SpOut::Fail(Error::OperatorMisuse)
                } else {
                    match sp_iters(
                        reg,
                        descs,
                        lo + 1,
                        lo + 1 + x,
                        data,
                        st0,
                        depth,
                        0,
                        d.y as nat,
                    ) {
                        SpOut::Fail(e) => SpOut::Fail(e),
                        SpOut::Done(ev2, st2) => {
                            let st3 = SpState { fuel: cap(st2.fuel, st0.fuel), ..st2 };
                            match sp_expand_range(reg, descs, lo + 1 + x, hi, data, st3, depth) {
                                SpOut::Fail(e) => SpOut::Fail(e),
                                SpOut::Done(ev3, st4) => SpOut::Done(
                                    seq![EventV::EnterReplication(d, d.y as u64)] + ev2 + seq![
                                        EventV::LeaveReplication,
                                    ] + ev3,
                                    st4,
                                ),
                            }
                        },
                    }
                }
            }
        } else if d.f == 2 {
            if d.x == 5 {
                let w = 8 * d.y as int;
                if st0.pos + w > 8 * data.len() {
                    SpOut::Fail(Error::BitStreamExhausted)
                } else {
                    let bytes = Seq::new(
                        d.y as nat,
                        |j: int| bits_uint(data, st0.pos + 8 * j, 8) as u8,
                    );
                    let st1 = SpState { pos: st0.pos + w, ..st0 };
                    match sp_expand_range(reg, descs, lo + 1, hi, data, st1, depth) {
                        SpOut::Fail(e) => SpOut::Fail(e),
                        SpOut::Done(ev2, st2) => SpOut::Done(
                            seq![
                                EventV::Element(d, ValueV::Text(spec_rtrim(bytes)), None),
                            ] + ev2,
                            st2,
                        ),
                    }
                }
            } else {
                match spec_apply_op(st0.ctx, d.x, d.y) {
                    Err(e) => SpOut::Fail(e),
                    Ok(ctx1) => {
                        let st1 = SpState { ctx: ctx1, ..st0 };
                        match sp_expand_range(reg, descs, lo + 1, hi, data, st1, depth) {
                            SpOut::Fail(e) => SpOut::Fail(e),
                            SpOut::Done(ev2, st2) => SpOut::Done(
                                seq![EventV::Operator(d)] + ev2,
                                st2,
                            ),
                        }
                    },
                }
            }
        } else {
            let k = spec_key(d.x, d.y);
            if !reg.seqs.contains_key(k) {
                SpOut::Fail(Error::UnknownSequence(d.x, d.y))
            } else if depth <= 0 {
                SpOut::Fail(Error::RecursionTooDeep)
            } else {
                let children = reg.seqs[k].descriptors@.map_values(
                    |c: crate::tables::Descriptor| spec_enum_to_triple(c),
                );
                match sp_expand_range(
                    reg,
                    children,
                    0,
                    children.len() as int,
                    data,
                    st0,
                    depth - 1,
                ) {
                    SpOut::Fail(e) => SpOut::Fail(e),
                    SpOut::Done(ev1, st1) => {
                        let st2 = SpState { fuel: cap(st1.fuel, st0.fuel), ..st1 };
                        match sp_expand_range(reg, descs, lo + 1, hi, data, st2, depth) {
                            SpOut::Fail(e) => SpOut::Fail(e),
                            SpOut::Done(ev2, st3) => SpOut::Done(
                                seq![EventV::EnterSequence(d)] + ev1 + seq![
                                    EventV::LeaveSequence(d),
                                ] + ev2,
                                st3,
                            ),
                        }
                    },
                }
            }
        }
    }
}

/// What replaying a replication block for iterations `k .. n` emits: each
/// iteration is framed by its enter and leave events and burns one unit of
/// budget before replaying the block.
pub open spec fn sp_iters(
    reg: RegV,
    descs: Seq<Descriptor>,
    lo: int,
    hi: int,
    data: Seq<u8>,
    st: SpState,
    depth: int,
    k: nat,
    n: nat,
) -> SpOut
    decreases st.fuel, 0int, n - k,
{
    if k >= n {
        SpOut::Done(Seq::empty(), st)
    } else if st.fuel == 0 {
        SpOut::Fail(Error::ElementLimitExceeded)
    } else {
        let st0 = SpState { fuel: (st.fuel - 1) as nat, ..st };
        match sp_expand_range(reg, descs, lo, hi, data, st0, depth) {
            SpOut::Fail(e) => SpOut::Fail(e),
            SpOut::Done(ev1, st1) => {
                let st2 = SpState { fuel: cap(st1.fuel, st0.fuel), ..st1 };
                match sp_iters(reg, descs, lo, hi, data, st2, depth, (k + 1) as nat, n) {
                    SpOut::Fail(e) => SpOut::Fail(e),
                    SpOut::Done(ev2, st3) => SpOut::Done(
                        seq![EventV::EnterIteration((k + 1) as u64)] + ev1 + seq![
                            EventV::LeaveIteration,
                        ] + ev2,
                        st3,
                    ),
                }
            },
        }
    }
}

/// A finished walk never ends with more budget than it began with, and a
/// non-empty range burns at least one unit.
pub proof fn lemma_sp_fuel(
    reg: RegV,
    descs: Seq<Descriptor>,
    lo: int,
    hi: int,
    data: Seq<u8>,
    st: SpState,
    depth: int,
)
    ensures
        sp_expand_range(reg, descs, lo, hi, data, st, depth) matches SpOut::Done(_, st2) ==> st2.fuel
            <= st.fuel && (lo < hi ==> st2.fuel < st.fuel),
    decreases st.fuel, 1int, hi - lo,
{
    if lo < 0 || hi > descs.len() || lo >= hi || st.fuel == 0 {
    } else {
        let st0 = SpState { fuel: (st.fuel - 1) as nat, ..st };
        let d = descs[lo];
        if d.f == 0 {
            match sp_element(reg, d, data, st0.pos, st0.ctx) {
                SpElemOut::Fail(_) => {},
                SpElemOut::Done(ev1, pos1, ctx1) => {
                    let st1 = SpState { pos: pos1, ctx: ctx1, fuel: st0.fuel };
                    lemma_sp_fuel(reg, descs, lo + 1, hi, data, st1, depth);
                },
            }
        } else if d.f == 1 {
            let x = d.x as int;
            if d.y == 0 {
                if lo + 1 >= hi || descs[lo + 1].f != 0 {
                } else {
                    match sp_element(reg, descs[lo + 1], data, st0.pos, st0.ctx) {
                        SpElemOut::Fail(_) => {},
                        SpElemOut::Done(ev1, pos1, ctx1) => match sp_count_of(ev1) {
                            None => {},
                            Some(n) => if lo + 2 + x > hi {
                            } else {
                                let st1 = SpState { pos: pos1, ctx: ctx1, fuel: st0.fuel };
                                lemma_sp_iters_fuel(
                                    reg,
                                    descs,
                                    lo + 2,
                                    lo + 2 + x,
                                    data,
                                    st1,
                                    depth,
                                    0,
                                    n as nat,
                                );
                                match sp_iters(
                                    reg,
                                    descs,
                                    lo + 2,
                                    lo + 2 + x,
                                    data,
                                    st1,
                                    depth,
                                    0,
                                    n as nat,
                                ) {
                                    SpOut::Fail(_) => {},
                                    SpOut::Done(ev2, st2) => {
                                        let st3 = SpState { fuel: cap(st2.fuel, st0.fuel), ..st2 };
                                        lemma_sp_fuel(reg, descs, lo + 2 + x, hi, data, st3, depth);
                                    },
                                }
                            },
                        },
                    }
                }
            } else {
                if lo + 1 + x > hi {
                } else {
                    lemma_sp_iters_fuel(
                        reg,
                        descs,
                        lo + 1,
                        lo + 1 + x,
                        data,
                        st0,
                        depth,
                        0,
                        d.y as nat,
                    );
                    match sp_iters(reg, descs, lo + 1, lo + 1 + x, data, st0, depth, 0, d.y as nat) {
                        SpOut::Fail(_) => {},
                        SpOut::Done(ev2, st2) => {
                            let st3 = SpState { fuel: cap(st2.fuel, st0.fuel), ..st2 };
                            lemma_sp_fuel(reg, descs, lo + 1 + x, hi, data, st3, depth);
                        },
                    }
                }
            }
        } else if d.f == 2 {
            if d.x == 5 {
                let w = 8 * d.y as int;
                if st0.pos + w > 8 * data.len() {
                } else {
                    let st1 = SpState { pos: st0.pos + w, ..st0 };
                    lemma_sp_fuel(reg, descs, lo + 1, hi, data, st1, depth);
                }
            } else {
                match spec_apply_op(st0.ctx, d.x, d.y) {
                    Err(_) => {},
                    Ok(ctx1) => {
                        let st1 = SpState { ctx: ctx1, ..st0 };
                        lemma_sp_fuel(reg, descs, lo + 1, hi, data, st1, depth);
                    },
                }
            }
        } else {
            let k = spec_key(d.x, d.y);
            if !reg.seqs.contains_key(k) || depth <= 0 {
            } else {
                let children = reg.seqs[k].descriptors@.map_values(
                    |c: crate::tables::Descriptor| spec_enum_to_triple(c),
                );
                lemma_sp_fuel(reg, children, 0, children.len() as int, data, st0, depth - 1);
                match sp_expand_range(reg, children, 0, children.len() as int, data, st0, depth
                    - 1) {
                    SpOut::Fail(_) => {},
                    SpOut::Done(ev1, st1) => {
                        let st2 = SpState { fuel: cap(st1.fuel, st0.fuel), ..st1 };
                        lemma_sp_fuel(reg, descs, lo + 1, hi, data, st2, depth);
                    },
                }
            }
        }
    }
}

/// Ten to the `n` is positive and grows with `n`.
pub proof fn lemma_pow10_mono(a: nat, b: nat)
    requires
        a <= b,
    ensures
        1 <= spec_pow10(a) <= spec_pow10(b),
    decreases b,
{
    if b > 0 {
        if a == b {
            lemma_pow10_mono(0, (b - 1) as nat);
        } else {
            lemma_pow10_mono(a, (b - 1) as nat);
        }
    }
}

/// Computes ten to the `n` when it fits a signed 64-bit integer.
fn pow10_i64(n: u32) -> (r: Option<i64>)
    ensures
        match r {
            Some(p) => p == spec_pow10(n as nat) && spec_pow10(n as nat) <= i64::MAX,
            None => spec_pow10(n as nat) > i64::MAX,
        },
{
    let mut acc: i64 = 1;
    let mut i: u32 = 0;
    while i < n
        invariant
            i <= n,
            acc == spec_pow10(i as nat),
            1 <= acc <= i64::MAX,
        decreases n - i,
    {
        if acc > i64::MAX / 10 {
            proof {
                lemma_pow10_mono((i + 1) as nat, n as nat);
            }
            return None;
        }
        acc = acc * 10;
        i = i + 1;
    }
    Some(acc)
}

/// Reads one element descriptor off the bit stream, exactly as the
/// specification-level interpreter describes, appending its events; the
/// returned value is the replication factor the read supplies, when it
/// supplies one.
#[verifier::rlimit(80)]
fn run_element(
    reg: &Registry,
    d: Descriptor,
    rdr: &mut BufferReader,
    ctx: &mut OperatorContext,
    out: &mut Vec<Event>,
) -> (r: Result<Option<i64>, Error>)
    requires
        old(rdr).wf(),
        spec_ctx_wf(old(ctx)@),
    ensures
        final(rdr).wf(),
        final(rdr).data() == old(rdr).data(),
        r is Ok ==> spec_ctx_wf(final(ctx)@),
        ({
            let o = sp_element(regv(reg), d, old(rdr).data(), old(rdr).pos(), old(ctx)@);
            match r {
                Ok(cv) => o matches SpElemOut::Done(ev, pos1, ctx1) && events_view(final(out)@)
                    == events_view(old(out)@) + ev && final(rdr).pos() == pos1 && final(ctx)@
                    == ctx1 && cv == sp_count_of(ev),
                Err(e) => o == SpElemOut::Fail(e),
            }
        }),
{
    let ghost o = sp_element(regv(reg), d, rdr.data(), rdr.pos(), ctx@);
    let key: u16 = 256 * (d.x as u16) + (d.y as u16);
    let e = match reg.element(d.x, d.y) {
        Some(e) => e,
        None => {
            return Err(Error::UnknownElement(d.x, d.y));
        },
    };
    if ctx.skip_data > 0 {
        ctx.skip_data = ctx.skip_data - 1;
        let ghost pre = out@;
        out.push(Event::Element(d, ExtractedValue { value: Value::Missing, associated: None }));
        proof {
            assert(events_view(out@) =~= events_view(pre) + seq![
                EventV::Element(d, ValueV::Missing, None),
            ]);
            assert(ctx@ =~= (o->Done_2));
        }
        return Ok(None);
    }
    let nrb = ctx.new_reference_bits;
    match nrb {
        Some(b32) => {
            let b = b32 as usize;
            if b < 1 || b > 63 {
                return Err(Error::OperatorMisuse);
            }
            let raw = match rdr.read_uint(b) {
                Ok(v) => v,
                Err(er) => {
                    return Err(er);
                },
            };
            proof {
                vstd::bits::lemma_u64_pow2_no_overflow((b - 1) as nat);
                lemma_u64_shl_is_mul(1u64, (b - 1) as u64);
                lemma_bits_uint_bound(rdr.data(), old(rdr).pos(), b as nat);
                vstd::arithmetic::power2::lemma_pow2_adds(1, (b - 1) as nat);
                lemma2_to64();
            }
            let half: u64 = 1u64 << ((b - 1) as u64);
            let newref: i64 = if b >= 2 && raw >= half {
                proof {
                    lemma_pow2_strictly_increases((b - 1) as nat, 63);
                    lemma2_to64_rest();
                    assert(raw < 2 * (half as nat));
                }
                -((raw - half) as i64)
            } else {
                proof {
                    if b < 63 {
                        lemma_pow2_strictly_increases(b as nat, 63);
                    }
                    lemma2_to64_rest();
                }
                raw as i64
            };
            ctx.references_override.push((key, newref));
            proof {
                assert(events_view(out@) =~= events_view(old(out)@) + Seq::<EventV>::empty());
                assert(ctx@ =~= (o->Done_2));
            }
            return Ok(None);
        },
        None => {},
    }
    let is_text = match &e.unit {
        BUFRUnit::CCITTIA5 => true,
        _ => false,
    };
    if is_text {
        run_elem_text(d, e, rdr, ctx, out)
    } else {
        run_elem_num(d, key, e, rdr, ctx, out)
    }
}

/// Reads one text element off the bit stream, exactly as the
/// specification-level interpreter describes.
#[verifier::rlimit(60)]
fn run_elem_text(
    d: Descriptor,
    e: &ElementDescriptor,
    rdr: &mut BufferReader,
    ctx: &mut OperatorContext,
    out: &mut Vec<Event>,
) -> (r: Result<Option<i64>, Error>)
    requires
        old(rdr).wf(),
        spec_ctx_wf(old(ctx)@),
        e.unit is CCITTIA5,
    ensures
        final(rdr).wf(),
        final(rdr).data() == old(rdr).data(),
        r is Ok ==> spec_ctx_wf(final(ctx)@),
        ({
            let o = sp_elem_text(*e, d, old(rdr).data(), old(rdr).pos(), old(ctx)@);
            match r {
                Ok(cv) => o matches SpElemOut::Done(ev, pos1, ctx1) && events_view(final(out)@)
                    == events_view(old(out)@) + ev && final(rdr).pos() == pos1 && final(ctx)@
                    == ctx1 && cv == sp_count_of(ev),
                Err(er) => o == SpElemOut::Fail(er),
            }
        }),
{
    let ghost o = sp_elem_text(*e, d, rdr.data(), rdr.pos(), ctx@);
    let ghost data0 = rdr.data();
    let w: usize = match ctx.char_field_bits {
        Some(cb) => {
            ctx.char_field_bits = None;
            ctx.local_width = None;
            cb as usize
        },
        None => match ctx.local_width {
            Some(lw) => {
                ctx.local_width = None;
                lw as usize
            },
            None => {
                ctx.local_width = None;
                let incw: u64 = if ctx.increase > 0 {
                    (10 * (ctx.increase as u64) + 2) / 3
                } else {
                    0
                };
                let wd: i64 = (e.data_width as i64) + (ctx.add_width as i64) + (incw as i64);
                if wd <= 0 {
                    proof {
                        assert(old(ctx)@.char_field_bits is None);
                        assert(old(ctx)@.local_width is None);
                    }
                    return Err(Error::OperatorMisuse);
                }
                wd as usize
            },
        },
    };
    proof {
        let c0 = old(ctx)@;
        assert(w as int == (if c0.char_field_bits is Some {
            c0.char_field_bits->0 as int
        } else if c0.local_width is Some {
            c0.local_width->0 as int
        } else {
            e.data_width + c0.add_width + spec_incw(c0.increase)
        }));
        assert(ctx@ =~= (CtxV { char_field_bits: None, local_width: None, ..c0 }));
    }
    if w == 0 || w % 8 != 0 {
        return Err(Error::OperatorMisuse);
    }
    let ab = ctx.add_assoc_bits;
    if ab > 64 {
        return Err(Error::OperatorMisuse);
    }
    let assoc: Option<u64> = if ab > 0 {
        match rdr.read_uint(ab as usize) {
            Ok(v) => Some(v),
            Err(er) => {
                return Err(er);
            },
        }
    } else {
        None
    };
    let ghost pos1 = rdr.pos();
    let bytes = match rdr.read_text(w / 8) {
        Ok(v) => v,
        Err(er) => {
            proof {
                assert(8 * ((w as int) / 8) == w as int);
            }
            return Err(er);
        },
    };
    proof {
        assert(8 * ((w as int) / 8) == w as int);
        let sbytes = Seq::new(
            ((w as int) / 8) as nat,
            |j: int| bits_uint(data0, pos1 + 8 * j, 8) as u8,
        );
        assert forall|j: int| 0 <= j < sbytes.len() implies bytes@[j] == sbytes[j] by {
            lemma_bits_uint_bound(data0, pos1 + 8 * j, 8);
            lemma2_to64();
        }
        assert(bytes@ =~= sbytes);
    }
    let trimmed = crate::value::rtrim_bytes(&bytes);
    let ev = Event::Element(d, ExtractedValue { value: Value::Text(trimmed), associated: assoc });
    let ghost evv = ev@;
    let ghost pre = out@;
    out.push(ev);
    proof {
        assert(events_view(out@) =~= events_view(pre) + seq![evv]);
        assert(ctx@ =~= (o->Done_2));
    }
    Ok(None)
}

/// Reads one non-text element off the bit stream, exactly as the
/// specification-level interpreter describes; the returned value is the
/// replication factor the read supplies, when it supplies one.
#[verifier::rlimit(60)]
fn run_elem_num(
    d: Descriptor,
    key: u16,
    e: &ElementDescriptor,
    rdr: &mut BufferReader,
    ctx: &mut OperatorContext,
    out: &mut Vec<Event>,
) -> (r: Result<Option<i64>, Error>)
    requires
        old(rdr).wf(),
        spec_ctx_wf(old(ctx)@),
        !(e.unit is CCITTIA5),
    ensures
        final(rdr).wf(),
        final(rdr).data() == old(rdr).data(),
        r is Ok ==> spec_ctx_wf(final(ctx)@),
        ({
            let o = sp_elem_num(*e, key, d, old(rdr).data(), old(rdr).pos(), old(ctx)@);
            match r {
                Ok(cv) => o matches SpElemOut::Done(ev, pos1, ctx1) && events_view(final(out)@)
                    == events_view(old(out)@) + ev && final(rdr).pos() == pos1 && final(ctx)@
                    == ctx1 && cv == sp_count_of(ev),
                Err(er) => o == SpElemOut::Fail(er),
            }
        }),
{
    let ghost o = sp_elem_num(*e, key, d, rdr.data(), rdr.pos(), ctx@);
    let ghost data0 = rdr.data();
    let w: usize = match ctx.local_width {
        Some(lw) => {
            ctx.local_width = None;
            lw as usize
        },
        None => {
            ctx.local_width = None;
            let incw: u64 = if ctx.increase > 0 {
                (10 * (ctx.increase as u64) + 2) / 3
            } else {
                0
            };
            let wd: i64 = (e.data_width as i64) + (ctx.add_width as i64) + (incw as i64);
            if wd < 0 {
                proof {
                    assert(old(ctx)@.local_width is None);
                }
                return Err(Error::OperatorMisuse);
            }
            wd as usize
        },
    };
    proof {
        let c0 = old(ctx)@;
        assert(w as int == (if c0.local_width is Some {
            c0.local_width->0 as int
        } else {
            e.data_width + c0.add_width + spec_incw(c0.increase)
        }));
        assert(ctx@ =~= (CtxV { local_width: None, ..c0 }));
    }
    if w < 1 || w > 63 {
        return Err(Error::OperatorMisuse);
    }
    let sc: i64 = (e.scale as i64) + (ctx.scale_delta as i64) + (ctx.increase as i64);
    if sc < (i32::MIN as i64) || sc > (i32::MAX as i64) {
        return Err(Error::OperatorMisuse);
    }
    let r0: i64 = match ref_override(&ctx.references_override, key) {
        Some(rv) => rv,
        None => {
            if ctx.increase > 0 {
                let p = match pow10_i64(ctx.increase) {
                    Some(p) => p,
                    None => {
                        return Err(Error::OperatorMisuse);
                    },
                };
                match (e.reference_value as i64).checked_mul(p) {
                    Some(rv) => rv,
                    None => {
                        return Err(Error::OperatorMisuse);
                    },
                }
            } else {
                proof {
                    assert(spec_pow10(0) == 1);
                    assert((e.reference_value as int) * 1 == e.reference_value as int);
                }
                e.reference_value as i64
            }
        },
    };
    let ab = ctx.add_assoc_bits;
    if ab > 64 {
        return Err(Error::OperatorMisuse);
    }
    let assoc: Option<u64> = if ab > 0 {
        match rdr.read_uint(ab as usize) {
            Ok(v) => Some(v),
            Err(er) => {
                return Err(er);
            },
        }
    } else {
        None
    };
    let raw = match rdr.read_uint(w) {
        Ok(v) => v,
        Err(er) => {
            return Err(er);
        },
    };
    proof {
        vstd::bits::lemma_u64_pow2_no_overflow(w as nat);
        lemma_u64_shl_is_mul(1u64, w as u64);
        lemma_bits_uint_bound(data0, rdr.pos() - w, w as nat);
        if w < 63 {
            lemma_pow2_strictly_increases(w as nat, 63);
        }
        lemma2_to64_rest();
    }
    let mask: u64 = (1u64 << (w as u64)) - 1;
    if raw == mask {
        let ev = Event::Element(d, ExtractedValue { value: Value::Missing, associated: assoc });
        let ghost evv = ev@;
        let ghost pre = out@;
        out.push(ev);
        proof {
            assert(events_view(out@) =~= events_view(pre) + seq![evv]);
            assert(ctx@ =~= (o->Done_2));
        }
        return Ok(None);
    }
    let vi: i64 = match (raw as i64).checked_add(r0) {
        Some(v) => v,
        None => {
            return Err(Error::OperatorMisuse);
        },
    };
    let value: Value = match &e.unit {
        BUFRUnit::Numeric => if sc == 0 {
            Value::Integer(vi)
        } else {
            Value::Numeric(vi, sc as i32)
        },
        BUFRUnit::Year => if sc == 0 {
            Value::Integer(vi)
        } else {
            Value::Numeric(vi, sc as i32)
        },
        BUFRUnit::Month => if sc == 0 {
            Value::Integer(vi)
        } else {
            Value::Numeric(vi, sc as i32)
        },
        BUFRUnit::Day => if sc == 0 {
            Value::Integer(vi)
        } else {
            Value::Numeric(vi, sc as i32)
        },
        BUFRUnit::Hour => if sc == 0 {
            Value::Integer(vi)
        } else {
            Value::Numeric(vi, sc as i32)
        },
        BUFRUnit::Minute => if sc == 0 {
            Value::Integer(vi)
        } else {
            Value::Numeric(vi, sc as i32)
        },
        BUFRUnit::Second => if sc == 0 {
            Value::Integer(vi)
        } else {
            Value::Numeric(vi, sc as i32)
        },
        BUFRUnit::Degree => if sc == 0 {
            Value::Integer(vi)
        } else {
            Value::Numeric(vi, sc as i32)
        },
        BUFRUnit::CodeTable => Value::Code(#[verifier::truncate] (vi as u32)),
        BUFRUnit::CodeTableOriginator => Value::Code(#[verifier::truncate] (vi as u32)),
        BUFRUnit::CC1 => Value::Code(#[verifier::truncate] (vi as u32)),
        BUFRUnit::CC11 => Value::Code(#[verifier::truncate] (vi as u32)),
        BUFRUnit::CC12 => Value::Code(#[verifier::truncate] (vi as u32)),
        BUFRUnit::CC14 => Value::Code(#[verifier::truncate] (vi as u32)),
        BUFRUnit::FlagTable => Value::Flag(#[verifier::truncate] (raw as u32)),
        _ => Value::Numeric(vi, sc as i32),
    };
    let counts = match &value {
        Value::Integer(v) => if *v >= 0 {
            Some(*v)
        } else {
            None
        },
        _ => None,
    };
    let ev = Event::Element(d, ExtractedValue { value, associated: assoc });
    let ghost evv = ev@;
    let ghost pre = out@;
    out.push(ev);
    proof {
        assert(events_view(out@) =~= events_view(pre) + seq![evv]);
        assert(ctx@ =~= (o->Done_2));
    }
    Ok(counts)
}

/// A finished replay never ends with more budget than it began with.
pub proof fn lemma_sp_iters_fuel(
    reg: RegV,
    descs: Seq<Descriptor>,
    lo: int,
    hi: int,
    data: Seq<u8>,
    st: SpState,
    depth: int,
    k: nat,
    n: nat,
)
    ensures
        sp_iters(reg, descs, lo, hi, data, st, depth, k, n) matches SpOut::Done(_, st2)
            ==> st2.fuel <= st.fuel,
    decreases st.fuel, 0int, n - k,
{
    if k >= n || st.fuel == 0 {
    } else {
        let st0 = SpState { fuel: (st.fuel - 1) as nat, ..st };
        lemma_sp_fuel(reg, descs, lo, hi, data, st0, depth);
        match sp_expand_range(reg, descs, lo, hi, data, st0, depth) {
            SpOut::Fail(_) => {},
            SpOut::Done(ev1, st1) => {
                let st2 = SpState { fuel: cap(st1.fuel, st0.fuel), ..st1 };
                lemma_sp_iters_fuel(reg, descs, lo, hi, data, st2, depth, (k + 1) as nat, n);
            },
        }
    }
}


/// The ceiling on expansion work per subset: elements, iterations and
/// other descriptors each burn one unit.
pub const ELEMENT_LIMIT: u64 = 1000000;

/// The ceiling on sequence nesting during expansion.
pub const MAX_DEPTH: usize = 20;

/// The context a subset starts from.
pub open spec fn sp_ctx_fresh() -> CtxV {
    CtxV {
        add_width: 0,
        scale_delta: 0,
        new_reference_bits: None,
        refs: Seq::empty(),
        add_assoc_bits: 0,
        char_field_bits: None,
        local_width: None,
        increase: 0,
        skip_data: 0,
    }
}

/// What decoding one subset from bit position `pos` emits: the whole
/// program walked under a fresh context with a full budget; a
/// change-reference block left open at the end of the subset is an error.
pub open spec fn sp_subset(reg: RegV, descs: Seq<Descriptor>, data: Seq<u8>, pos: int) -> SpOut {
    match sp_expand_range(
        reg,
        descs,
        0,
        descs.len() as int,
        data,
        SpState { pos, ctx: sp_ctx_fresh(), fuel: ELEMENT_LIMIT as nat },
        MAX_DEPTH as int,
    ) {
        SpOut::Done(ev, st) => if st.ctx.new_reference_bits is Some {
            SpOut::Fail(Error::OperatorMisuse)
        } else {
            SpOut::Done(ev, st)
        },
        SpOut::Fail(e) => SpOut::Fail(e),
    }
}

/// What decoding `count` subsets in index order emits: each subset replays
/// the whole program, reading on from where the one before stopped.
pub enum SpSubs {
    Done(Seq<Seq<EventV>>, int),
    Fail(Error),
}

/// The event streams of `count` subsets decoded from `pos` on, and the bit
/// position after the last one.
pub open spec fn sp_subsets(
    reg: RegV,
    descs: Seq<Descriptor>,
    data: Seq<u8>,
    pos: int,
    count: nat,
) -> SpSubs
    decreases count,
{
    if count == 0 {
        SpSubs::Done(Seq::empty(), pos)
    } else {
        match sp_subset(reg, descs, data, pos) {
            SpOut::Fail(e) => SpSubs::Fail(e),
            SpOut::Done(ev, st) => match sp_subsets(reg, descs, data, st.pos, (count - 1) as nat) {
                SpSubs::Fail(e) => SpSubs::Fail(e),
                SpSubs::Done(rest, endp) => SpSubs::Done(seq![ev] + rest, endp),
            },
        }
    }
}

/// Expansion determinism: for a given descriptor program, registry and
/// data section, any two successful decodes emit identical event streams
/// and stop at the same bit position. The emitted events are a function of
/// the program, the registry and the bytes alone.
pub proof fn lemma_expansion_deterministic(
    reg: RegV,
    descs: Seq<Descriptor>,
    data: Seq<u8>,
    count: nat,
    a: Seq<Seq<EventV>>,
    pa: int,
    b: Seq<Seq<EventV>>,
    pb: int,
)
    requires
        sp_subsets(reg, descs, data, 0, count) == SpSubs::Done(a, pa),
        sp_subsets(reg, descs, data, 0, count) == SpSubs::Done(b, pb),
    ensures
        a == b,
        pa == pb,
{
}

/// A raw integer never maps to `Missing` through the unit table: only the
/// all-ones pattern is missing.
pub proof fn lemma_unit_value_not_missing(u: BUFRUnit, vi: int, raw: nat, scale: int)
    ensures
        !(sp_unit_value(u, vi, raw, scale) is Missing),
{
}

/// For every effective width from one to sixty-three: a read whose raw
/// integer is the all-ones pattern at that width yields `Missing`, and
/// every other raw integer yields a value that is not `Missing`.
pub proof fn lemma_missing_iff_all_ones(
    e: ElementDescriptor,
    k: u16,
    d: Descriptor,
    data: Seq<u8>,
    pos: int,
    ctx: CtxV,
    ev: Seq<EventV>,
    pos1: int,
    ctx1: CtxV,
)
    requires
        !(e.unit is CCITTIA5),
        sp_elem_num(e, k, d, data, pos, ctx) == SpElemOut::Done(ev, pos1, ctx1),
    ensures
        ({
            let w: int = if ctx.local_width is Some {
                ctx.local_width->0 as int
            } else {
                e.data_width + ctx.add_width + spec_incw(ctx.increase)
            };
            let rpos = pos + (if ctx.add_assoc_bits > 0 {
                ctx.add_assoc_bits as int
            } else {
                0
            });
            &&& 1 <= w <= 63
            &&& ev.len() == 1
            &&& (ev[0] matches EventV::Element(dd, v, _) && dd == d && ((v is Missing) <==> bits_uint(
                data,
                rpos,
                w as nat,
            ) == pow2(w as nat) - 1))
        }),
{
    let w: int = if ctx.local_width is Some {
        ctx.local_width->0 as int
    } else {
        e.data_width + ctx.add_width + spec_incw(ctx.increase)
    };
    let rpos = pos + (if ctx.add_assoc_bits > 0 {
        ctx.add_assoc_bits as int
    } else {
        0
    });
    let raw = bits_uint(data, rpos, w as nat);
    if raw != pow2(w as nat) - 1 {
        let r0: int = match spec_ref_override(ctx.refs, k) {
            Some(r) => r as int,
            None => e.reference_value * spec_pow10(ctx.increase as nat),
        };
        let scale: int = e.scale + ctx.scale_delta + ctx.increase;
        lemma_unit_value_not_missing(e.unit, raw + r0, raw, scale);
    }
}

/// One element read emits at most one event, and that event is an element
/// event.
proof fn lemma_sp_element_shape(reg: RegV, d: Descriptor, data: Seq<u8>, pos: int, ctx: CtxV)
    ensures
        sp_element(reg, d, data, pos, ctx) matches SpElemOut::Done(ev, p2, c2) ==> (ev.len() == 0
            || (ev.len() == 1 && ev[0] is Element)),
{
}

/// Walking one element event off the front of a stream: a group parse
/// steps over it.
proof fn lemma_parse_step_one(e1: Seq<EventV>, e2: Seq<EventV>, rest: Seq<EventV>)
    requires
        e1.len() == 0 || (e1.len() == 1 && (e1[0] is Element || e1[0] is Operator)),
        sp_group_end(e2 + rest, 0) == sp_group_end(e2 + rest, e2.len() as int),
    ensures
        sp_group_end((e1 + e2) + rest, 0) == sp_group_end(
            (e1 + e2) + rest,
            (e1 + e2).len() as int,
        ),
{
    let s = (e1 + e2) + rest;
    if e1.len() == 0 {
        assert(s =~= e2 + rest);
        assert((e1 + e2).len() == e2.len());
    } else {
        assert(s =~= e1 + (e2 + rest));
        assert(s[0] == e1[0]);
        assert(s.len() == 1 + e2.len() + rest.len());
        assert(sp_group_end(s, 0) == sp_group_end(s, 1));
        lemma_group_end_shift(e1, e2 + rest, 0);
        lemma_group_end_shift(e1, e2 + rest, e2.len() as int);
        assert((e1 + e2).len() == 1 + e2.len());
    }
}

/// A sequence frame parses as one item when its children parse as a group
/// and the stream after the frame parses.
proof fn lemma_parse_frame_seq(d: Descriptor, ev1: Seq<EventV>, ev2: Seq<EventV>, rest: Seq<EventV>)
    requires
        sp_group_end(ev1 + (seq![EventV::LeaveSequence(d)] + ev2 + rest), 0) == sp_group_end(
            ev1 + (seq![EventV::LeaveSequence(d)] + ev2 + rest),
            ev1.len() as int,
        ),
        sp_group_end(ev2 + rest, 0) == sp_group_end(ev2 + rest, ev2.len() as int),
    ensures
        ({
            let ev = seq![EventV::EnterSequence(d)] + ev1 + seq![EventV::LeaveSequence(d)] + ev2;
            sp_group_end(ev + rest, 0) == sp_group_end(ev + rest, ev.len() as int)
        }),
{
    let ev = seq![EventV::EnterSequence(d)] + ev1 + seq![EventV::LeaveSequence(d)] + ev2;
    let s = ev + rest;
    let p1 = seq![EventV::EnterSequence(d)];
    let u = ev1 + (seq![EventV::LeaveSequence(d)] + ev2 + rest);
    assert(s =~= p1 + u);
    assert(s[0] == EventV::EnterSequence(d));
    assert(u[ev1.len() as int] == EventV::LeaveSequence(d));
    assert(sp_group_end(u, ev1.len() as int) == Some(ev1.len() as int));
    lemma_group_end_shift(p1, u, 0);
    assert(sp_group_end(s, 1) == Some(1 + ev1.len() as int));
    assert(s[1 + ev1.len() as int] == EventV::LeaveSequence(d));
    let p2 = seq![EventV::EnterSequence(d)] + ev1 + seq![EventV::LeaveSequence(d)];
    assert(s =~= p2 + (ev2 + rest));
    assert(idx_floor(1 + ev1.len() as int + 1, 2) == 2 + ev1.len());
    assert(sp_group_end(s, 0) == sp_group_end(s, 2 + ev1.len() as int));
    lemma_group_end_shift(p2, ev2 + rest, 0);
    lemma_group_end_shift(p2, ev2 + rest, ev2.len() as int);
    assert(ev.len() == 2 + ev1.len() + ev2.len());
}

/// A replication frame parses as one item when its iterations parse and
/// the stream after the frame parses.
proof fn lemma_parse_frame_rep(
    d: Descriptor,
    n: u64,
    evi: Seq<EventV>,
    ev2: Seq<EventV>,
    rest: Seq<EventV>,
)
    requires
        sp_iters_end(evi + (seq![EventV::LeaveReplication] + ev2 + rest), 0, 1) == Some(
            evi.len() as int,
        ),
        sp_group_end(ev2 + rest, 0) == sp_group_end(ev2 + rest, ev2.len() as int),
    ensures
        ({
            let ev = seq![EventV::EnterReplication(d, n)] + evi + seq![EventV::LeaveReplication]
                + ev2;
            sp_group_end(ev + rest, 0) == sp_group_end(ev + rest, ev.len() as int)
        }),
{
    let ev = seq![EventV::EnterReplication(d, n)] + evi + seq![EventV::LeaveReplication] + ev2;
    let s = ev + rest;
    let p1 = seq![EventV::EnterReplication(d, n)];
    let u = evi + (seq![EventV::LeaveReplication] + ev2 + rest);
    assert(s =~= p1 + u);
    assert(s[0] == EventV::EnterReplication(d, n));
    lemma_iters_end_shift(p1, u, 0, 1);
    assert(sp_iters_end(s, 1, 1) == Some(1 + evi.len() as int));
    assert(u[evi.len() as int] == EventV::LeaveReplication);
    assert(s[1 + evi.len() as int] == EventV::LeaveReplication);
    let p2 = seq![EventV::EnterReplication(d, n)] + evi + seq![EventV::LeaveReplication];
    assert(s =~= p2 + (ev2 + rest));
    assert(idx_floor(1 + evi.len() as int + 1, 2) == 2 + evi.len());
    assert(sp_group_end(s, 0) == sp_group_end(s, 2 + evi.len() as int));
    lemma_group_end_shift(p2, ev2 + rest, 0);
    lemma_group_end_shift(p2, ev2 + rest, ev2.len() as int);
    assert(ev.len() == 2 + evi.len() + ev2.len());
}

/// An iteration frame parses as one step of an iteration list when its
/// body parses as a group and the following iterations parse.
proof fn lemma_parse_frame_iter(
    k: int,
    kend: int,
    evb: Seq<EventV>,
    evi2: Seq<EventV>,
    rest: Seq<EventV>,
)
    requires
        0 <= k,
        k + 1 <= u64::MAX,
        sp_group_end(evb + (seq![EventV::LeaveIteration] + evi2 + rest), 0) == sp_group_end(
            evb + (seq![EventV::LeaveIteration] + evi2 + rest),
            evb.len() as int,
        ),
        sp_iters_end(evi2 + rest, 0, k + 2) == sp_iters_end(evi2 + rest, evi2.len() as int, kend),
    ensures
        ({
            let ev = seq![EventV::EnterIteration((k + 1) as u64)] + evb + seq![
                EventV::LeaveIteration,
            ] + evi2;
            sp_iters_end(ev + rest, 0, k + 1) == sp_iters_end(ev + rest, ev.len() as int, kend)
        }),
{
    let ev = seq![EventV::EnterIteration((k + 1) as u64)] + evb + seq![EventV::LeaveIteration]
        + evi2;
    let s = ev + rest;
    let p1 = seq![EventV::EnterIteration((k + 1) as u64)];
    let u = evb + (seq![EventV::LeaveIteration] + evi2 + rest);
    assert(s =~= p1 + u);
    assert(s[0] == EventV::EnterIteration((k + 1) as u64));
    assert(u[evb.len() as int] == EventV::LeaveIteration);
    assert(sp_group_end(u, evb.len() as int) == Some(evb.len() as int));
    lemma_group_end_shift(p1, u, 0);
    assert(sp_group_end(s, 1) == Some(1 + evb.len() as int));
    assert(s[1 + evb.len() as int] == EventV::LeaveIteration);
    let p2 = seq![EventV::EnterIteration((k + 1) as u64)] + evb + seq![EventV::LeaveIteration];
    assert(s =~= p2 + (evi2 + rest));
    assert(idx_floor(1 + evb.len() as int + 1, 2) == 2 + evb.len());
    assert(sp_iters_end(s, 0, k + 1) == sp_iters_end(s, 2 + evb.len() as int, k + 2));
    lemma_iters_end_shift(p2, evi2 + rest, 0, k + 2);
    lemma_iters_end_shift(p2, evi2 + rest, evi2.len() as int, kend);
    assert(ev.len() == 2 + evb.len() + evi2.len());
}

/// Every event stream the interpreter emits parses as a group: walking a
/// descriptor range appends events that a group parse steps over exactly,
/// whatever follows them.
proof fn lemma_interp_group(
    reg: RegV,
    descs: Seq<Descriptor>,
    lo: int,
    hi: int,
    data: Seq<u8>,
    st: SpState,
    depth: int,
    rest: Seq<EventV>,
)
    ensures
        sp_expand_range(reg, descs, lo, hi, data, st, depth) matches SpOut::Done(ev, _)
            ==> sp_group_end(ev + rest, 0) == sp_group_end(ev + rest, ev.len() as int),
    decreases st.fuel, 1int, hi - lo,
{
    if lo < 0 || hi > descs.len() || lo >= hi || st.fuel == 0 {
    } else {
        let st0 = SpState { fuel: (st.fuel - 1) as nat, ..st };
        let d = descs[lo];
        if d.f == 0 {
            match sp_element(reg, d, data, st0.pos, st0.ctx) {
                SpElemOut::Fail(_) => {},
                SpElemOut::Done(ev1, pos1, ctx1) => {
                    let st1 = SpState { pos: pos1, ctx: ctx1, fuel: st0.fuel };
                    lemma_interp_group(reg, descs, lo + 1, hi, data, st1, depth, rest);
                    match sp_expand_range(reg, descs, lo + 1, hi, data, st1, depth) {
                        SpOut::Fail(_) => {},
                        SpOut::Done(ev2, _) => {
                            lemma_sp_element_shape(reg, d, data, st0.pos, st0.ctx);
                            lemma_parse_step_one(ev1, ev2, rest);
                        },
                    }
                },
            }
        } else if d.f == 1 {
            let x = d.x as int;
            if d.y == 0 {
                if lo + 1 >= hi || descs[lo + 1].f != 0 {
                } else {
                    match sp_element(reg, descs[lo + 1], data, st0.pos, st0.ctx) {
                        SpElemOut::Fail(_) => {},
                        SpElemOut::Done(ev1, pos1, ctx1) => match sp_count_of(ev1) {
                            None => {},
                            Some(nn) => if lo + 2 + x > hi {
                            } else {
                                let st1 = SpState { pos: pos1, ctx: ctx1, fuel: st0.fuel };
                                match sp_iters(
                                    reg,
                                    descs,
                                    lo + 2,
                                    lo + 2 + x,
                                    data,
                                    st1,
                                    depth,
                                    0,
                                    nn as nat,
                                ) {
                                    SpOut::Fail(_) => {},
                                    SpOut::Done(evi, st2) => {
                                        let st3 = SpState { fuel: cap(st2.fuel, st0.fuel), ..st2 };
                                        match sp_expand_range(
                                            reg,
                                            descs,
                                            lo + 2 + x,
                                            hi,
                                            data,
                                            st3,
                                            depth,
                                        ) {
                                            SpOut::Fail(_) => {},
                                            SpOut::Done(ev3, _) => {
                                                let n = nn as nat;
                                                let rest1 = seq![EventV::LeaveReplication] + ev3
                                                    + rest;
                                                lemma_interp_iters(
                                                    reg,
                                                    descs,
                                                    lo + 2,
                                                    lo + 2 + x,
                                                    data,
                                                    st1,
                                                    depth,
                                                    0,
                                                    n,
                                                    rest1,
                                                );
                                                assert((evi + rest1)[evi.len() as int]
                                                    == EventV::LeaveReplication);
                                                assert(sp_iters_end(
                                                    evi + rest1,
                                                    evi.len() as int,
                                                    (n + 1) as int,
                                                ) == Some(evi.len() as int));
                                                lemma_interp_group(
                                                    reg,
                                                    descs,
                                                    lo + 2 + x,
                                                    hi,
                                                    data,
                                                    st3,
                                                    depth,
                                                    rest,
                                                );
                                                lemma_parse_frame_rep(
                                                    d,
                                                    nn as u64,
                                                    evi,
                                                    ev3,
                                                    rest,
                                                );
                                                let evr = seq![
                                                    EventV::EnterReplication(d, nn as u64),
                                                ] + evi + seq![EventV::LeaveReplication] + ev3;
                                                lemma_parse_step_one(ev1, evr, rest);
                                                let ev = ev1 + seq![
                                                    EventV::EnterReplication(d, nn as u64),
                                                ] + evi + seq![EventV::LeaveReplication] + ev3;
                                                assert(ev =~= ev1 + evr);
                                                assert(ev + rest =~= (ev1 + evr) + rest);
                                            },
                                        }
                                    },
                                }
                            },
                        },
                    }
                }
            } else {
                if lo + 1 + x > hi {
                } else {
                    match sp_iters(reg, descs, lo + 1, lo + 1 + x, data, st0, depth, 0, d.y as nat) {
                        SpOut::Fail(_) => {},
                        SpOut::Done(evi, st2) => {
                            let st3 = SpState { fuel: cap(st2.fuel, st0.fuel), ..st2 };
                            match sp_expand_range(reg, descs, lo + 1 + x, hi, data, st3, depth) {
                                SpOut::Fail(_) => {},
                                SpOut::Done(ev3, _) => {
                                    let n = d.y as nat;
                                    let rest1 = seq![EventV::LeaveReplication] + ev3 + rest;
                                    lemma_interp_iters(
                                        reg,
                                        descs,
                                        lo + 1,
                                        lo + 1 + x,
                                        data,
                                        st0,
                                        depth,
                                        0,
                                        n,
                                        rest1,
                                    );
                                    assert((evi + rest1)[evi.len() as int]
                                        == EventV::LeaveReplication);
                                    assert(sp_iters_end(
                                        evi + rest1,
                                        evi.len() as int,
                                        (n + 1) as int,
                                    ) == Some(evi.len() as int));
                                    lemma_interp_group(
                                        reg,
                                        descs,
                                        lo + 1 + x,
                                        hi,
                                        data,
                                        st3,
                                        depth,
                                        rest,
                                    );
                                    lemma_parse_frame_rep(d, d.y as u64, evi, ev3, rest);
                                },
                            }
                        },
                    }
                }
            }
        } else if d.f == 2 {
            if d.x == 5 {
                let w = 8 * d.y as int;
                if st0.pos + w > 8 * data.len() {
                } else {
                    let bytes = Seq::new(
                        d.y as nat,
                        |j: int| bits_uint(data, st0.pos + 8 * j, 8) as u8,
                    );
                    let st1 = SpState { pos: st0.pos + w, ..st0 };
                    lemma_interp_group(reg, descs, lo + 1, hi, data, st1, depth, rest);
                    match sp_expand_range(reg, descs, lo + 1, hi, data, st1, depth) {
                        SpOut::Fail(_) => {},
                        SpOut::Done(ev2, _) => {
                            lemma_parse_step_one(
                                seq![
                                    EventV::Element(d, ValueV::Text(spec_rtrim(bytes)), None),
                                ],
                                ev2,
                                rest,
                            );
                        },
                    }
                }
            } else {
                match spec_apply_op(st0.ctx, d.x, d.y) {
                    Err(_) => {},
                    Ok(ctx1) => {
                        let st1 = SpState { ctx: ctx1, ..st0 };
                        lemma_interp_group(reg, descs, lo + 1, hi, data, st1, depth, rest);
                        match sp_expand_range(reg, descs, lo + 1, hi, data, st1, depth) {
                            SpOut::Fail(_) => {},
                            SpOut::Done(ev2, _) => {
                                lemma_parse_step_one(seq![EventV::Operator(d)], ev2, rest);
                            },
                        }
                    },
                }
            }
        } else {
            let k = spec_key(d.x, d.y);
            if !reg.seqs.contains_key(k) || depth <= 0 {
            } else {
                let children = reg.seqs[k].descriptors@.map_values(
                    |c: crate::tables::Descriptor| spec_enum_to_triple(c),
                );
                match sp_expand_range(reg, children, 0, children.len() as int, data, st0, depth
                    - 1) {
                    SpOut::Fail(_) => {},
                    SpOut::Done(ev1, st1) => {
                        let st2 = SpState { fuel: cap(st1.fuel, st0.fuel), ..st1 };
                        match sp_expand_range(reg, descs, lo + 1, hi, data, st2, depth) {
                            SpOut::Fail(_) => {},
                            SpOut::Done(ev2, _) => {
                                let rest1 = seq![EventV::LeaveSequence(d)] + ev2 + rest;
                                lemma_interp_group(
                                    reg,
                                    children,
                                    0,
                                    children.len() as int,
                                    data,
                                    st0,
                                    depth - 1,
                                    rest1,
                                );
                                lemma_interp_group(reg, descs, lo + 1, hi, data, st2, depth, rest);
                                lemma_parse_frame_seq(d, ev1, ev2, rest);
                            },
                        }
                    },
                }
            }
        }
    }
}

/// Every iteration list the interpreter emits parses as an iteration list
/// numbered on from where it stands.
proof fn lemma_interp_iters(
    reg: RegV,
    descs: Seq<Descriptor>,
    lo: int,
    hi: int,
    data: Seq<u8>,
    st: SpState,
    depth: int,
    k: nat,
    n: nat,
    rest: Seq<EventV>,
)
    requires
        k <= n,
        n + 1 <= u64::MAX,
    ensures
        sp_iters(reg, descs, lo, hi, data, st, depth, k, n) matches SpOut::Done(ev, _)
            ==> sp_iters_end(ev + rest, 0, (k + 1) as int) == sp_iters_end(
            ev + rest,
            ev.len() as int,
            (n + 1) as int,
        ),
    decreases st.fuel, 0int, n - k,
{
    if k >= n || st.fuel == 0 {
    } else {
        let st0 = SpState { fuel: (st.fuel - 1) as nat, ..st };
        match sp_expand_range(reg, descs, lo, hi, data, st0, depth) {
            SpOut::Fail(_) => {},
            SpOut::Done(evb, st1) => {
                let st2 = SpState { fuel: cap(st1.fuel, st0.fuel), ..st1 };
                match sp_iters(reg, descs, lo, hi, data, st2, depth, (k + 1) as nat, n) {
                    SpOut::Fail(_) => {},
                    SpOut::Done(evi2, _) => {
                        let rest1 = seq![EventV::LeaveIteration] + evi2 + rest;
                        lemma_interp_group(reg, descs, lo, hi, data, st0, depth, rest1);
                        lemma_interp_iters(
                            reg,
                            descs,
                            lo,
                            hi,
                            data,
                            st2,
                            depth,
                            (k + 1) as nat,
                            n,
                            rest,
                        );
                        lemma_parse_frame_iter(k as int, (n + 1) as int, evb, evi2, rest);
                    },
                }
            },
        }
    }
}

/// The events of one decoded subset parse as one whole group.
pub proof fn lemma_subset_events_parse(reg: RegV, descs: Seq<Descriptor>, data: Seq<u8>, pos: int)
    ensures
        sp_subset(reg, descs, data, pos) matches SpOut::Done(ev, _) ==> sp_group_end(ev, 0)
            == Some(ev.len() as int),
{
    let st = SpState { pos, ctx: sp_ctx_fresh(), fuel: ELEMENT_LIMIT as nat };
    match sp_expand_range(reg, descs, 0, descs.len() as int, data, st, MAX_DEPTH as int) {
        SpOut::Fail(_) => {},
        SpOut::Done(ev, _) => {
            lemma_interp_group(
                reg,
                descs,
                0,
                descs.len() as int,
                data,
                st,
                MAX_DEPTH as int,
                Seq::empty(),
            );
            assert(ev + Seq::<EventV>::empty() =~= ev);
            assert(sp_group_end(ev, ev.len() as int) == Some(ev.len() as int));
        },
    }
}

/// The events of every decoded subset parse as one whole group each.
pub proof fn lemma_subsets_events_parse(
    reg: RegV,
    descs: Seq<Descriptor>,
    data: Seq<u8>,
    pos: int,
    count: nat,
)
    ensures
        sp_subsets(reg, descs, data, pos, count) matches SpSubs::Done(evs, endp) ==> forall|i: int|
            0 <= i < evs.len() ==> #[trigger] sp_group_end(evs[i], 0) == Some(evs[i].len() as int),
    decreases count,
{
    if count > 0 {
        match sp_subset(reg, descs, data, pos) {
            SpOut::Fail(_) => {},
            SpOut::Done(ev, st) => {
                lemma_subset_events_parse(reg, descs, data, pos);
                lemma_subsets_events_parse(reg, descs, data, st.pos, (count - 1) as nat);
            },
        }
    }
}

/// Prefixes the events of an outcome.
pub open spec fn sp_prepend(pre: Seq<EventV>, o: SpOut) -> SpOut {
    match o {
        SpOut::Done(ev, st) => SpOut::Done(pre + ev, st),
        SpOut::Fail(e) => SpOut::Fail(e),
    }
}

/// Walks the descriptors `lo .. hi` against the bit stream, exactly as the
/// specification-level interpreter describes, appending the emitted events
/// and returning the remaining work budget.
fn run_range(
    reg: &Registry,
    descs: &Vec<Descriptor>,
    lo: usize,
    hi: usize,
    rdr: &mut BufferReader,
    ctx: &mut OperatorContext,
    fuel: u64,
    depth: usize,
    out: &mut Vec<Event>,
) -> (r: Result<u64, Error>)
    requires
        old(rdr).wf(),
        spec_ctx_wf(old(ctx)@),
        lo <= hi <= descs@.len(),
    ensures
        final(rdr).wf(),
        final(rdr).data() == old(rdr).data(),
        r is Ok ==> spec_ctx_wf(final(ctx)@),
        ({
            let o = sp_expand_range(
                regv(reg),
                descs@,
                lo as int,
                hi as int,
                old(rdr).data(),
                SpState { pos: old(rdr).pos(), ctx: old(ctx)@, fuel: fuel as nat },
                depth as int,
            );
            match r {
                Ok(f2) => o matches SpOut::Done(ev, st) && events_view(final(out)@) == events_view(
                    old(out)@,
                ) + ev && final(rdr).pos() == st.pos && final(ctx)@ == st.ctx && f2 as nat
                    == st.fuel,
                Err(e) => o == SpOut::Fail(e),
            }
        }),
    decreases fuel, 0int, 0int,
{
    if lo >= hi {
        proof {
            assert(events_view(out@) =~= events_view(out@) + Seq::<EventV>::empty());
        }
        return Ok(fuel);
    }
    if fuel == 0 {
        return Err(Error::ElementLimitExceeded);
    }
    let d = descs[lo];
    let r = if d.f == 0 {
        run_step_element(reg, descs, lo, hi, rdr, ctx, fuel - 1, depth, out)
    } else if d.f == 1 {
        run_step_replication(reg, descs, lo, hi, rdr, ctx, fuel - 1, depth, out)
    } else if d.f == 2 {
        run_step_operator(reg, descs, lo, hi, rdr, ctx, fuel - 1, depth, out)
    } else {
        run_step_sequence(reg, descs, lo, hi, rdr, ctx, fuel - 1, depth, out)
    };
    proof {
        assert(((fuel - 1) + 1) as nat == fuel as nat);
    }
    r
}

/// Walks an element descriptor at `lo` and the range after it.
#[verifier::rlimit(60)]
fn run_step_element(
    reg: &Registry,
    descs: &Vec<Descriptor>,
    lo: usize,
    hi: usize,
    rdr: &mut BufferReader,
    ctx: &mut OperatorContext,
    fuel0: u64,
    depth: usize,
    out: &mut Vec<Event>,
) -> (r: Result<u64, Error>)
    requires
        old(rdr).wf(),
        spec_ctx_wf(old(ctx)@),
        lo < hi <= descs@.len(),
        fuel0 < u64::MAX,
        descs@[lo as int].f == 0,
    ensures
        final(rdr).wf(),
        final(rdr).data() == old(rdr).data(),
        r is Ok ==> spec_ctx_wf(final(ctx)@),
        ({
            let o = sp_expand_range(
                regv(reg),
                descs@,
                lo as int,
                hi as int,
                old(rdr).data(),
                SpState {
                    pos: old(rdr).pos(),
                    ctx: old(ctx)@,
                    fuel: (fuel0 + 1) as nat,
                },
                depth as int,
            );
            match r {
                Ok(f2) => o matches SpOut::Done(ev, st) && events_view(final(out)@) == events_view(
                    old(out)@,
                ) + ev && final(rdr).pos() == st.pos && final(ctx)@ == st.ctx && f2 as nat
                    == st.fuel,
                Err(e) => o == SpOut::Fail(e),
            }
        }),
    decreases fuel0, 1int, 0int,
{
    let ghost reg_v = regv(reg);
    let ghost data0 = rdr.data();
    let ghost st_in = SpState { pos: rdr.pos(), ctx: ctx@, fuel: (fuel0 + 1) as nat };
    let ghost o = sp_expand_range(
        reg_v,
        descs@,
        lo as int,
        hi as int,
        data0,
        st_in,
        depth as int,
    );
    let ghost ev_pre = events_view(out@);
    let ghost st0 = SpState { fuel: fuel0 as nat, ..st_in };
    let d = descs[lo];
        let ghost oe = sp_element(reg_v, d, data0, st0.pos, st0.ctx);
        match run_element(reg, d, rdr, ctx, out) {
            Err(e) => {
                return Err(e);
            },
            Ok(_) => {},
        }
        let ghost ev1 = oe->Done_0;
        let ghost st1 = SpState { pos: oe->Done_1, ctx: oe->Done_2, fuel: fuel0 as nat };
        let ghost o_rest = sp_expand_range(
            reg_v,
            descs@,
            lo + 1,
            hi as int,
            data0,
            st1,
            depth as int,
        );
        match run_range(reg, descs, lo + 1, hi, rdr, ctx, fuel0, depth, out) {
            Err(e) => Err(e),
            Ok(f2) => {
                proof {
                    assert(events_view(out@) =~= ev_pre + (ev1 + o_rest->Done_0));
                }
                Ok(f2)
            },
        }
}

/// Walks a replication descriptor at `lo`, its block, and the range after.
#[verifier::rlimit(80)]
fn run_step_replication(
    reg: &Registry,
    descs: &Vec<Descriptor>,
    lo: usize,
    hi: usize,
    rdr: &mut BufferReader,
    ctx: &mut OperatorContext,
    fuel0: u64,
    depth: usize,
    out: &mut Vec<Event>,
) -> (r: Result<u64, Error>)
    requires
        old(rdr).wf(),
        spec_ctx_wf(old(ctx)@),
        lo < hi <= descs@.len(),
        fuel0 < u64::MAX,
        descs@[lo as int].f == 1,
    ensures
        final(rdr).wf(),
        final(rdr).data() == old(rdr).data(),
        r is Ok ==> spec_ctx_wf(final(ctx)@),
        ({
            let o = sp_expand_range(
                regv(reg),
                descs@,
                lo as int,
                hi as int,
                old(rdr).data(),
                SpState {
                    pos: old(rdr).pos(),
                    ctx: old(ctx)@,
                    fuel: (fuel0 + 1) as nat,
                },
                depth as int,
            );
            match r {
                Ok(f2) => o matches SpOut::Done(ev, st) && events_view(final(out)@) == events_view(
                    old(out)@,
                ) + ev && final(rdr).pos() == st.pos && final(ctx)@ == st.ctx && f2 as nat
                    == st.fuel,
                Err(e) => o == SpOut::Fail(e),
            }
        }),
    decreases fuel0, 1int, 0int,
{
    let ghost reg_v = regv(reg);
    let ghost data0 = rdr.data();
    let ghost st_in = SpState { pos: rdr.pos(), ctx: ctx@, fuel: (fuel0 + 1) as nat };
    let ghost o = sp_expand_range(
        reg_v,
        descs@,
        lo as int,
        hi as int,
        data0,
        st_in,
        depth as int,
    );
    let ghost ev_pre = events_view(out@);
    let ghost st0 = SpState { fuel: fuel0 as nat, ..st_in };
    let d = descs[lo];
        let x = d.x as usize;
        let (n, bstart): (u64, usize) = if d.y == 0 {
            if lo + 1 >= hi {
                return Err(Error::OperatorMisuse);
            }
            let dc = descs[lo + 1];
            if dc.f != 0 {
                return Err(Error::OperatorMisuse);
            }
            let cv = match run_element(reg, dc, rdr, ctx, out) {
                Err(e) => {
                    return Err(e);
                },
                Ok(v) => v,
            };
            let nn: i64 = match cv {
                Some(v) => v,
                None => {
                    return Err(Error::OperatorMisuse);
                },
            };
            if x > hi - (lo + 2) {
                return Err(Error::OperatorMisuse);
            }
            (nn as u64, lo + 2)
        } else {
            if x > hi - (lo + 1) {
                return Err(Error::OperatorMisuse);
            }
            (d.y as u64, lo + 1)
        };
        let bend = bstart + x;
        let ghost oe = sp_element(reg_v, descs@[lo + 1], data0, st0.pos, st0.ctx);
        let ghost ev1: Seq<EventV> = if d.y == 0 {
            oe->Done_0
        } else {
            Seq::empty()
        };
        let ev_rep = Event::EnterReplication(d, n);
        let ghost ev_repv = ev_rep@;
        out.push(ev_rep);
        proof {
            assert(events_view(out@) =~= ev_pre + ev1 + seq![ev_repv]);
        }
        let ghost st1 = SpState { pos: rdr.pos(), ctx: ctx@, fuel: fuel0 as nat };
        let ghost o_iters = sp_iters(
            reg_v,
            descs@,
            bstart as int,
            bend as int,
            data0,
            st1,
            depth as int,
            0,
            n as nat,
        );
        let f_it = match run_iters(reg, descs, bstart, bend, rdr, ctx, fuel0, depth, n, out) {
            Err(e) => {
                return Err(e);
            },
            Ok(f) => f,
        };
        let ghost st2 = SpState { pos: rdr.pos(), ctx: ctx@, fuel: f_it as nat };
        proof {
            lemma_sp_iters_fuel(
                reg_v,
                descs@,
                bstart as int,
                bend as int,
                data0,
                st1,
                depth as int,
                0,
                n as nat,
            );
            assert(cap(st2.fuel, st0.fuel) == st2.fuel);
        }
        let ev_lv = Event::LeaveReplication;
        out.push(ev_lv);
        let ghost ev_mid = events_view(out@);
        proof {
            assert(ev_mid =~= ev_pre + ev1 + seq![ev_repv] + o_iters->Done_0 + seq![
                EventV::LeaveReplication,
            ]);
        }
        let ghost o_rest = sp_expand_range(
            reg_v,
            descs@,
            bend as int,
            hi as int,
            data0,
            st2,
            depth as int,
        );
        match run_range(reg, descs, bend, hi, rdr, ctx, f_it, depth, out) {
            Err(e) => Err(e),
            Ok(f2) => {
                proof {
                    if d.y == 0 {
                        assert(events_view(out@) =~= ev_pre + (ev1 + seq![ev_repv]
                            + o_iters->Done_0 + seq![EventV::LeaveReplication] + o_rest->Done_0));
                    } else {
                        assert(events_view(out@) =~= ev_pre + (seq![ev_repv] + o_iters->Done_0
                            + seq![EventV::LeaveReplication] + o_rest->Done_0));
                    }
                }
                Ok(f2)
            },
        }
}

/// Walks an operator descriptor at `lo` and the range after it.
#[verifier::rlimit(100)]
fn run_step_operator(
    reg: &Registry,
    descs: &Vec<Descriptor>,
    lo: usize,
    hi: usize,
    rdr: &mut BufferReader,
    ctx: &mut OperatorContext,
    fuel0: u64,
    depth: usize,
    out: &mut Vec<Event>,
) -> (r: Result<u64, Error>)
    requires
        old(rdr).wf(),
        spec_ctx_wf(old(ctx)@),
        lo < hi <= descs@.len(),
        fuel0 < u64::MAX,
        descs@[lo as int].f == 2,
    ensures
        final(rdr).wf(),
        final(rdr).data() == old(rdr).data(),
        r is Ok ==> spec_ctx_wf(final(ctx)@),
        ({
            let o = sp_expand_range(
                regv(reg),
                descs@,
                lo as int,
                hi as int,
                old(rdr).data(),
                SpState {
                    pos: old(rdr).pos(),
                    ctx: old(ctx)@,
                    fuel: (fuel0 + 1) as nat,
                },
                depth as int,
            );
            match r {
                Ok(f2) => o matches SpOut::Done(ev, st) && events_view(final(out)@) == events_view(
                    old(out)@,
                ) + ev && final(rdr).pos() == st.pos && final(ctx)@ == st.ctx && f2 as nat
                    == st.fuel,
                Err(e) => o == SpOut::Fail(e),
            }
        }),
    decreases fuel0, 1int, 0int,
{
    let ghost reg_v = regv(reg);
    let ghost data0 = rdr.data();
    let ghost st_in = SpState { pos: rdr.pos(), ctx: ctx@, fuel: (fuel0 + 1) as nat };
    let ghost o = sp_expand_range(
        reg_v,
        descs@,
        lo as int,
        hi as int,
        data0,
        st_in,
        depth as int,
    );
    let ghost ev_pre = events_view(out@);
    let ghost st0 = SpState { fuel: fuel0 as nat, ..st_in };
    let d = descs[lo];
        if d.x == 5 {
            let ghost pos_a = rdr.pos();
            let bytes = match rdr.read_text(d.y as usize) {
                Ok(v) => v,
                Err(e) => {
                    return Err(e);
                },
            };
            proof {
                let sbytes = Seq::new(
                    d.y as nat,
                    |j: int| bits_uint(data0, pos_a + 8 * j, 8) as u8,
                );
                assert forall|j: int| 0 <= j < sbytes.len() implies bytes@[j] == sbytes[j] by {
                    lemma_bits_uint_bound(data0, pos_a + 8 * j, 8);
                    lemma2_to64();
                }
                assert(bytes@ =~= sbytes);
            }
            let trimmed = crate::value::rtrim_bytes(&bytes);
            let ev = Event::Element(
                d,
                ExtractedValue { value: Value::Text(trimmed), associated: None },
            );
            let ghost evv = ev@;
            out.push(ev);
            proof {
                assert(events_view(out@) =~= ev_pre + seq![evv]);
            }
            let ghost st1 = SpState { pos: rdr.pos(), ctx: ctx@, fuel: fuel0 as nat };
            let ghost o_rest = sp_expand_range(
                reg_v,
                descs@,
                lo + 1,
                hi as int,
                data0,
                st1,
                depth as int,
            );
            match run_range(reg, descs, lo + 1, hi, rdr, ctx, fuel0, depth, out) {
                Err(e) => Err(e),
                Ok(f2) => {
                    proof {
                        assert(events_view(out@) =~= ev_pre + (seq![evv] + o_rest->Done_0));
                    }
                    Ok(f2)
                },
            }
        } else {
            match apply_op(ctx, d.x, d.y) {
                Err(e) => {
                    return Err(e);
                },
                Ok(()) => {},
            }
            proof {
                crate::operators::lemma_apply_op_wf(st_in.ctx, d.x, d.y);
            }
            let ev = Event::Operator(d);
            out.push(ev);
            proof {
                assert(events_view(out@) =~= ev_pre + seq![EventV::Operator(d)]);
            }
            let ghost st1 = SpState { pos: rdr.pos(), ctx: ctx@, fuel: fuel0 as nat };
            let ghost o_rest = sp_expand_range(
                reg_v,
                descs@,
                lo + 1,
                hi as int,
                data0,
                st1,
                depth as int,
            );
            match run_range(reg, descs, lo + 1, hi, rdr, ctx, fuel0, depth, out) {
                Err(e) => Err(e),
                Ok(f2) => {
                    proof {
                        assert(events_view(out@) =~= ev_pre + (seq![EventV::Operator(d)]
                            + o_rest->Done_0));
                    }
                    Ok(f2)
                },
            }
        }
}

/// Walks a sequence descriptor at `lo`, its inlined children, and the
/// range after it.
#[verifier::rlimit(80)]
fn run_step_sequence(
    reg: &Registry,
    descs: &Vec<Descriptor>,
    lo: usize,
    hi: usize,
    rdr: &mut BufferReader,
    ctx: &mut OperatorContext,
    fuel0: u64,
    depth: usize,
    out: &mut Vec<Event>,
) -> (r: Result<u64, Error>)
    requires
        old(rdr).wf(),
        spec_ctx_wf(old(ctx)@),
        lo < hi <= descs@.len(),
        fuel0 < u64::MAX,
        !(descs@[lo as int].f == 0 || descs@[lo as int].f == 1 || descs@[lo as int].f == 2),
    ensures
        final(rdr).wf(),
        final(rdr).data() == old(rdr).data(),
        r is Ok ==> spec_ctx_wf(final(ctx)@),
        ({
            let o = sp_expand_range(
                regv(reg),
                descs@,
                lo as int,
                hi as int,
                old(rdr).data(),
                SpState {
                    pos: old(rdr).pos(),
                    ctx: old(ctx)@,
                    fuel: (fuel0 + 1) as nat,
                },
                depth as int,
            );
            match r {
                Ok(f2) => o matches SpOut::Done(ev, st) && events_view(final(out)@) == events_view(
                    old(out)@,
                ) + ev && final(rdr).pos() == st.pos && final(ctx)@ == st.ctx && f2 as nat
                    == st.fuel,
                Err(e) => o == SpOut::Fail(e),
            }
        }),
    decreases fuel0, 1int, 0int,
{
    let ghost reg_v = regv(reg);
    let ghost data0 = rdr.data();
    let ghost st_in = SpState { pos: rdr.pos(), ctx: ctx@, fuel: (fuel0 + 1) as nat };
    let ghost o = sp_expand_range(
        reg_v,
        descs@,
        lo as int,
        hi as int,
        data0,
        st_in,
        depth as int,
    );
    let ghost ev_pre = events_view(out@);
    let ghost st0 = SpState { fuel: fuel0 as nat, ..st_in };
    let d = descs[lo];
        let f3 = match reg.sequence(d.x, d.y) {
            Some(s) => s,
            None => {
                return Err(Error::UnknownSequence(d.x, d.y));
            },
        };
        if depth == 0 {
            return Err(Error::RecursionTooDeep);
        }
        let mut kids: Vec<Descriptor> = Vec::new();
        let mut j: usize = 0;
        let nf3 = f3.descriptors.len();
        while j < nf3
            invariant
                j <= nf3,
                nf3 == f3.descriptors@.len(),
                kids@ == f3.descriptors@.map_values(
                    |c: crate::tables::Descriptor| spec_enum_to_triple(c),
                ).take(j as int),
            decreases nf3 - j,
        {
            let k = f3.descriptors[j].to_triple();
            kids.push(k);
            proof {
                let full = f3.descriptors@.map_values(
                    |c: crate::tables::Descriptor| spec_enum_to_triple(c),
                );
                assert(full.take(j + 1) =~= full.take(j as int).push(full[j as int]));
            }
            j = j + 1;
        }
        proof {
            let full = f3.descriptors@.map_values(
                |c: crate::tables::Descriptor| spec_enum_to_triple(c),
            );
            assert(full.take(full.len() as int) =~= full);
        }
        let ev_en = Event::EnterSequence(d);
        out.push(ev_en);
        proof {
            assert(events_view(out@) =~= ev_pre + seq![EventV::EnterSequence(d)]);
        }
        let ghost children = kids@;
        let ghost o_kids = sp_expand_range(
            reg_v,
            children,
            0,
            children.len() as int,
            data0,
            st0,
            depth - 1,
        );
        let f_k = match run_range(reg, &kids, 0, kids.len(), rdr, ctx, fuel0, depth - 1, out) {
            Err(e) => {
                return Err(e);
            },
            Ok(f) => f,
        };
        proof {
            lemma_sp_fuel(reg_v, children, 0, children.len() as int, data0, st0, depth - 1);
        }
        let ev_lv = Event::LeaveSequence(d);
        out.push(ev_lv);
        proof {
            assert(events_view(out@) =~= ev_pre + seq![EventV::EnterSequence(d)]
                + o_kids->Done_0 + seq![EventV::LeaveSequence(d)]);
        }
        let ghost st2 = SpState { pos: rdr.pos(), ctx: ctx@, fuel: f_k as nat };
        let ghost o_rest = sp_expand_range(
            reg_v,
            descs@,
            lo + 1,
            hi as int,
            data0,
            st2,
            depth as int,
        );
        match run_range(reg, descs, lo + 1, hi, rdr, ctx, f_k, depth, out) {
            Err(e) => Err(e),
            Ok(f2) => {
                proof {
                    assert(events_view(out@) =~= ev_pre + (seq![EventV::EnterSequence(d)]
                        + o_kids->Done_0 + seq![EventV::LeaveSequence(d)] + o_rest->Done_0));
                }
                Ok(f2)
            },
        }
}

/// Replays a replication block for `n` iterations, exactly as the
/// specification-level interpreter describes, appending the emitted events
/// and returning the remaining work budget.
#[verifier::rlimit(100)]
fn run_iters(
    reg: &Registry,
    descs: &Vec<Descriptor>,
    bstart: usize,
    bend: usize,
    rdr: &mut BufferReader,
    ctx: &mut OperatorContext,
    fuel: u64,
    depth: usize,
    n: u64,
    out: &mut Vec<Event>,
) -> (r: Result<u64, Error>)
    requires
        old(rdr).wf(),
        spec_ctx_wf(old(ctx)@),
        bstart <= bend <= descs@.len(),
    ensures
        final(rdr).wf(),
        final(rdr).data() == old(rdr).data(),
        r is Ok ==> spec_ctx_wf(final(ctx)@),
        ({
            let o = sp_iters(
                regv(reg),
                descs@,
                bstart as int,
                bend as int,
                old(rdr).data(),
                SpState { pos: old(rdr).pos(), ctx: old(ctx)@, fuel: fuel as nat },
                depth as int,
                0,
                n as nat,
            );
            match r {
                Ok(f2) => o matches SpOut::Done(ev, st) && events_view(final(out)@) == events_view(
                    old(out)@,
                ) + ev && final(rdr).pos() == st.pos && final(ctx)@ == st.ctx && f2 as nat
                    == st.fuel,
                Err(e) => o == SpOut::Fail(e),
            }
        }),
    decreases fuel, 0int, 0int,
{
    let ghost reg_v = regv(reg);
    let ghost data0 = rdr.data();
    let ghost st_in = SpState { pos: rdr.pos(), ctx: ctx@, fuel: fuel as nat };
    let ghost o = sp_iters(
        reg_v,
        descs@,
        bstart as int,
        bend as int,
        data0,
        st_in,
        depth as int,
        0,
        n as nat,
    );
    let ghost ev_pre = events_view(out@);
    let mut k: u64 = 0;
    let mut cur: u64 = fuel;
    while k < n
        invariant
            rdr.wf(),
            rdr.data() == data0,
            spec_ctx_wf(ctx@),
            k <= n,
            cur <= fuel,
            bstart <= bend <= descs@.len(),
            reg_v == regv(reg),
            st_in == (SpState { pos: old(rdr).pos(), ctx: old(ctx)@, fuel: fuel as nat }),
            data0 == old(rdr).data(),
            o == sp_iters(
                reg_v,
                descs@,
                bstart as int,
                bend as int,
                data0,
                st_in,
                depth as int,
                0,
                n as nat,
            ),
            ev_pre == events_view(old(out)@),
            events_view(out@).len() >= ev_pre.len(),
            events_view(out@).take(ev_pre.len() as int) == ev_pre,
            o == sp_prepend(
                events_view(out@).skip(ev_pre.len() as int),
                sp_iters(
                    reg_v,
                    descs@,
                    bstart as int,
                    bend as int,
                    data0,
                    SpState { pos: rdr.pos(), ctx: ctx@, fuel: cur as nat },
                    depth as int,
                    k as nat,
                    n as nat,
                ),
            ),
        decreases n - k,
    {
        let ghost st_k = SpState { pos: rdr.pos(), ctx: ctx@, fuel: cur as nat };
        let ghost delta = events_view(out@).skip(ev_pre.len() as int);
        if cur == 0 {
            return Err(Error::ElementLimitExceeded);
        }
        let cur0 = cur - 1;
        let ghost st_k0 = SpState { fuel: cur0 as nat, ..st_k };
        let ev_en = Event::EnterIteration(k + 1);
        out.push(ev_en);
        let ghost ev_after_en = events_view(out@);
        proof {
            assert(ev_after_en =~= (ev_pre + delta).push(EventV::EnterIteration((k + 1) as u64)));
            assert(ev_after_en.take(ev_pre.len() as int) =~= ev_pre);
        }
        let ghost o_block = sp_expand_range(
            reg_v,
            descs@,
            bstart as int,
            bend as int,
            data0,
            st_k0,
            depth as int,
        );
        let f_b = match run_range(reg, descs, bstart, bend, rdr, ctx, cur0, depth, out) {
            Err(e) => {
                return Err(e);
            },
            Ok(f) => f,
        };
        proof {
            lemma_sp_fuel(
                reg_v,
                descs@,
                bstart as int,
                bend as int,
                data0,
                st_k0,
                depth as int,
            );
        }
        let ghost ev_after_blk = events_view(out@);
        let ev_lv = Event::LeaveIteration;
        out.push(ev_lv);
        proof {
            let st_b = SpState { pos: rdr.pos(), ctx: ctx@, fuel: f_b as nat };
            assert(cap(st_b.fuel, st_k0.fuel) == st_b.fuel);
            assert(ev_after_blk == ev_after_en + o_block->Done_0);
            assert(events_view(out@) =~= ev_after_blk.push(EventV::LeaveIteration));
            assert(events_view(out@) =~= ev_pre + (delta + seq![
                EventV::EnterIteration((k + 1) as u64),
            ] + o_block->Done_0 + seq![EventV::LeaveIteration]));
            assert(events_view(out@).skip(ev_pre.len() as int) =~= delta + seq![
                EventV::EnterIteration((k + 1) as u64),
            ] + o_block->Done_0 + seq![EventV::LeaveIteration]);
            assert(events_view(out@).take(ev_pre.len() as int) =~= ev_pre);
            let inner_next = sp_iters(
                reg_v,
                descs@,
                bstart as int,
                bend as int,
                data0,
                st_b,
                depth as int,
                (k + 1) as nat,
                n as nat,
            );
            match inner_next {
                SpOut::Done(ev2, st3) => {
                    assert((delta + (seq![EventV::EnterIteration((k + 1) as u64)]
                        + o_block->Done_0 + seq![EventV::LeaveIteration] + ev2)) =~= (delta + seq![
                        EventV::EnterIteration((k + 1) as u64),
                    ] + o_block->Done_0 + seq![EventV::LeaveIteration] + ev2));
                },
                SpOut::Fail(_) => {},
            }
        }
        cur = f_b;
        k = k + 1;
    }
    proof {
        let st_end = SpState { pos: rdr.pos(), ctx: ctx@, fuel: cur as nat };
        let delta = events_view(out@).skip(ev_pre.len() as int);
        assert(events_view(out@) =~= ev_pre + delta);
    }
    Ok(cur)
}


/// Prefixing the subset lists of an empty finished decode gives the prefix
/// itself.
proof fn lemma_subs_prepend_empty(o: SpSubs, sv: Seq<Seq<EventV>>, p: int)
    requires
        o == subs_prepend(sv, SpSubs::Done(Seq::<Seq<EventV>>::empty(), p)),
    ensures
        o == SpSubs::Done(sv, p),
{
    assert(sv + Seq::<Seq<EventV>>::empty() =~= sv);
}

/// The shapes of each subset's event list.
pub open spec fn subs_views(s: Seq<Vec<Event>>) -> Seq<Seq<EventV>> {
    s.map_values(|v: Vec<Event>| events_view(v@))
}

/// Prefixes the subset event lists of an outcome.
pub open spec fn subs_prepend(pre: Seq<Seq<EventV>>, o: SpSubs) -> SpSubs {
    match o {
        SpSubs::Done(evs, p) => SpSubs::Done(pre + evs, p),
        SpSubs::Fail(e) => SpSubs::Fail(e),
    }
}

/// Decodes the event streams of every subset from the section 4 payload,
/// returning them with the total number of bits consumed: the whole
/// descriptor program is replayed once per subset, each replay starting
/// from a fresh operator context and reading on from where the one before
/// stopped. On success the total number of bits consumed never exceeds
/// what the payload holds.
#[verifier::rlimit(100)]
pub fn decode_subsets(
    reg: &Registry,
    descriptors: &Vec<Descriptor>,
    n_subsets: u16,
    data: &[u8],
) -> (r: Result<(Vec<Vec<Event>>, usize), Error>)
    requires
        8 * data@.len() <= usize::MAX,
    ensures
        ({
            let o = sp_subsets(regv(reg), descriptors@, data@, 0, n_subsets as nat);
            match r {
                Ok((subs, consumed)) => o matches SpSubs::Done(evs, endp) && subs@.len()
                    == n_subsets as int && subs_views(subs@) == evs && consumed == endp && 0 <= endp
                    <= 8 * data@.len(),
                Err(e) => o == SpSubs::Fail(e),
            }
        }),
{
    let ghost reg_v = regv(reg);
    let ghost o = sp_subsets(reg_v, descriptors@, data@, 0, n_subsets as nat);
    let mut rdr = BufferReader::new(data);
    let mut subs: Vec<Vec<Event>> = Vec::new();
    let mut s: u16 = 0;
    proof {
        assert(subs_views(subs@) =~= Seq::<Seq<EventV>>::empty());
    }
    while s < n_subsets
        invariant
            rdr.wf(),
            rdr.data() == data@,
            reg_v == regv(reg),
            s <= n_subsets,
            subs@.len() == s as int,
            o == sp_subsets(reg_v, descriptors@, data@, 0, n_subsets as nat),
            o == subs_prepend(
                subs_views(subs@),
                sp_subsets(reg_v, descriptors@, data@, rdr.pos(), (n_subsets - s) as nat),
            ),
        decreases n_subsets - s,
    {
        let ghost pos_k = rdr.pos();
        let ghost o_sub = sp_subset(reg_v, descriptors@, data@, pos_k);
        let mut ctx = OperatorContext::fresh();
        proof {
            assert(ctx@ =~= sp_ctx_fresh());
        }
        let mut out: Vec<Event> = Vec::new();
        let ghost o_run = sp_expand_range(
            reg_v,
            descriptors@,
            0,
            descriptors@.len() as int,
            data@,
            SpState { pos: pos_k, ctx: sp_ctx_fresh(), fuel: ELEMENT_LIMIT as nat },
            MAX_DEPTH as int,
        );
        match run_range(
            reg,
            descriptors,
            0,
            descriptors.len(),
            &mut rdr,
            &mut ctx,
            ELEMENT_LIMIT,
            MAX_DEPTH,
            &mut out,
        ) {
            Err(e) => {
                return Err(e);
            },
            Ok(_) => {},
        }
        let dangling = match ctx.new_reference_bits {
            Some(_) => true,
            None => false,
        };
        if dangling {
            return Err(Error::OperatorMisuse);
        }
        proof {
            assert(events_view(out@) =~= Seq::<EventV>::empty() + o_run->Done_0);
            assert(o_sub == SpOut::Done(events_view(out@), o_run->Done_1));
        }
        let ghost pre_views = subs_views(subs@);
        let ghost outv = events_view(out@);
        subs.push(out);
        s = s + 1;
        proof {
            assert(subs_views(subs@) =~= pre_views + seq![outv]);
            match sp_subsets(reg_v, descriptors@, data@, rdr.pos(), (n_subsets - s) as nat) {
                SpSubs::Done(rest, endp) => {
                    assert((pre_views + seq![outv]) + rest =~= pre_views + (seq![outv] + rest));
                },
                SpSubs::Fail(_) => {},
            }
        }
    }
    proof {
        assert(sp_subsets(reg_v, descriptors@, data@, rdr.pos(), (n_subsets - s) as nat)
            == SpSubs::Done(Seq::<Seq<EventV>>::empty(), rdr.pos()));
        assert(o == subs_prepend(
            subs_views(subs@),
            SpSubs::Done(Seq::<Seq<EventV>>::empty(), rdr.pos()),
        ));
        lemma_subs_prepend_empty(o, subs_views(subs@), rdr.pos());
        assert(rdr.pos() <= 8 * data@.len());
    }
    let consumed = 8 * data.len() - rdr.remaining_bits();
    Ok((subs, consumed))
}


/// The decoded data section: one value tree per subset, in subset order,
/// with the warnings the decode gathered.
pub struct DecodedData {
    pub subsets: Vec<crate::tree::ValueTree>,
    pub warnings: Vec<String>,
}

/// Decodes the data section into one value tree per subset. Compressed
/// messages are not supported and are reported as such; every other input
/// succeeds exactly when the specification-level interpreter does. On
/// success each tree carries exactly the events of its subset's walk,
/// operator events aside.
pub fn decode_data(
    reg: &Registry,
    descriptors: &Vec<Descriptor>,
    n_subsets: u16,
    compressed: bool,
    data: &[u8],
) -> (r: Result<DecodedData, Error>)
    requires
        8 * data@.len() <= usize::MAX,
    ensures
        compressed ==> r == Err::<DecodedData, Error>(Error::CompressedNotSupported),
        !compressed ==> match r {
            Ok(dd) => sp_subsets(regv(reg), descriptors@, data@, 0, n_subsets as nat) matches
                SpSubs::Done(evs, endp) && dd.subsets@.len() == n_subsets as int && (forall|i: int|
                0 <= i < dd.subsets@.len() ==> crate::tree::nodes_events(
                    #[trigger] dd.subsets@[i].nodes@,
                ) == crate::tree::strip_ops(evs[i])) && 0 <= endp <= 8 * data@.len()
                && dd.warnings@.len() == (if 8 * data@.len() - endp >= 8 {
                1int
            } else {
                0int
            }),
            Err(e) => sp_subsets(regv(reg), descriptors@, data@, 0, n_subsets as nat) == SpSubs::Fail(
                e,
            ),
        },
        !compressed ==> ((sp_subsets(regv(reg), descriptors@, data@, 0, n_subsets as nat) matches
            SpSubs::Done(evs, endp)) ==> r is Ok),
{
    if compressed {
        return Err(Error::CompressedNotSupported);
    }
    let ghost o = sp_subsets(regv(reg), descriptors@, data@, 0, n_subsets as nat);
    let (subs, consumed) = match decode_subsets(reg, descriptors, n_subsets, data) {
        Ok(s) => s,
        Err(e) => {
            return Err(e);
        },
    };
    let mut trees: Vec<crate::tree::ValueTree> = Vec::new();
    let mut i: usize = 0;
    while i < subs.len()
        invariant
            !compressed,
            i <= subs@.len(),
            trees@.len() == i,
            subs@.len() == n_subsets as int,
            o matches SpSubs::Done(evs, endp) && subs_views(subs@) == evs && 0 <= endp <= 8
                * data@.len(),
            o == sp_subsets(regv(reg), descriptors@, data@, 0, n_subsets as nat),
            forall|j: int|
                0 <= j < i ==> crate::tree::nodes_events(#[trigger] trees@[j].nodes@)
                    == crate::tree::strip_ops(subs_views(subs@)[j]),
        decreases subs@.len() - i,
    {
        proof {
            lemma_subsets_events_parse(regv(reg), descriptors@, data@, 0, n_subsets as nat);
            assert(subs_views(subs@)[i as int] == events_view(subs@[i as int]@));
        }
        let t = match crate::tree::assemble_tree(&subs[i]) {
            Ok(t) => t,
            Err(e) => {
                proof {
                    assert(sp_group_end(events_view(subs@[i as int]@), 0) == Some(
                        subs@[i as int]@.len() as int,
                    ));
                    assert(false);
                }
                return Err(e);
            },
        };
        trees.push(t);
        i = i + 1;
    }
    let mut warnings: Vec<String> = Vec::new();
    if 8 * data.len() - consumed >= 8 {
        warnings.push("whole unread bytes trail the last subset".to_owned());
    }
    proof {
        assert(consumed == o->Done_1);
    }
    Ok(DecodedData { subsets: trees, warnings })
}

} // verus!
