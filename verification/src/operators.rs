//! Operator state: the running decoding modifiers that operator
//! descriptors (F=2) impose on the elements that follow them.

use vstd::prelude::*;

use crate::error::Error;

verus! {

/// The running decoding modifiers, applied to every element in scope.
#[derive(Debug, Clone, PartialEq)]
pub struct OperatorContext {
    /// Added to each element's data width (change-data-width operator).
    pub add_width: i32,
    /// Added to each element's scale (change-scale operator).
    pub scale_delta: i32,
    /// Inside a change-reference block: the bit width each element uses to
    /// define its new reference.
    pub new_reference_bits: Option<u32>,
    /// Reference overrides defined so far, keyed by `256 * X + Y`; a later
    /// entry for the same key wins.
    pub references_override: Vec<(u16, i64)>,
    /// Extra bits read before each element as an associated field
    /// (add-associated-field operator); zero means none.
    pub add_assoc_bits: u32,
    /// Overriding width in bits for the next text read
    /// (change-character-width operator).
    pub char_field_bits: Option<u32>,
    /// Overriding width in bits for the next element read
    /// (signify-data-width operator).
    pub local_width: Option<u32>,
    /// The increase-scale-reference-width parameter; zero means off.
    pub increase: u32,
    /// How many of the next elements are expanded without reading data
    /// (data-not-present operator).
    pub skip_data: u32,
}

/// The mathematical shape of an `OperatorContext`.
#[verifier::ext_equal]
pub struct CtxV {
    pub add_width: int,
    pub scale_delta: int,
    pub new_reference_bits: Option<u32>,
    pub refs: Seq<(u16, i64)>,
    pub add_assoc_bits: u32,
    pub char_field_bits: Option<u32>,
    pub local_width: Option<u32>,
    pub increase: u32,
    pub skip_data: u32,
}

impl View for OperatorContext {
    type V = CtxV;

    open spec fn view(&self) -> CtxV {
        CtxV {
            add_width: self.add_width as int,
            scale_delta: self.scale_delta as int,
            new_reference_bits: self.new_reference_bits,
            refs: self.references_override@,
            add_assoc_bits: self.add_assoc_bits,
            char_field_bits: self.char_field_bits,
            local_width: self.local_width,
            increase: self.increase,
            skip_data: self.skip_data,
        }
    }
}

/// The context a fresh decode starts from: no modifier in force.
pub open spec fn spec_ctx_fresh(c: CtxV) -> bool {
    &&& c.add_width == 0
    &&& c.scale_delta == 0
    &&& c.new_reference_bits is None
    &&& c.refs == Seq::<(u16, i64)>::empty()
    &&& c.add_assoc_bits == 0
    &&& c.char_field_bits is None
    &&& c.local_width is None
    &&& c.increase == 0
    &&& c.skip_data == 0
}

impl OperatorContext {
    /// A context with no modifier in force.
    pub fn fresh() -> (r: OperatorContext)
        ensures
            spec_ctx_fresh(r@),
    {
        OperatorContext {
            add_width: 0,
            scale_delta: 0,
            new_reference_bits: None,
            references_override: Vec::new(),
            add_assoc_bits: 0,
            char_field_bits: None,
            local_width: None,
            increase: 0,
            skip_data: 0,
        }
    }
}

/// The bounds every reachable context obeys: each modifier came from an
/// operator's one-byte parameter, so it is small.
pub open spec fn spec_ctx_wf(c: CtxV) -> bool {
    &&& -128 <= c.add_width <= 127
    &&& -128 <= c.scale_delta <= 127
    &&& (c.new_reference_bits is Some ==> c.new_reference_bits->0 <= 255)
    &&& c.add_assoc_bits <= 255
    &&& (c.char_field_bits is Some ==> c.char_field_bits->0 <= 2040)
    &&& (c.local_width is Some ==> c.local_width->0 <= 255)
    &&& c.increase <= 255
}

/// A fresh context obeys the bounds, and applying any operator keeps them.
pub proof fn lemma_apply_op_wf(c: CtxV, x: u8, y: u8)
    requires
        spec_ctx_wf(c),
    ensures
        spec_apply_op(c, x, y) matches Ok(c1) ==> spec_ctx_wf(c1),
{
}

/// The reference override in force for key `k`: the latest definition wins.
pub open spec fn spec_ref_override(refs: Seq<(u16, i64)>, k: u16) -> Option<i64>
    decreases refs.len(),
{
    if refs.len() == 0 {
        None
    } else if refs.last().0 == k {
        Some(refs.last().1)
    } else {
        spec_ref_override(refs.drop_last(), k)
    }
}

/// Looks up the reference override in force for key `k`.
pub fn ref_override(refs: &Vec<(u16, i64)>, k: u16) -> (r: Option<i64>)
    ensures
        r == spec_ref_override(refs@, k),
{
    let mut i = refs.len();
    proof {
        assert(refs@.take(i as int) =~= refs@);
    }
    while i > 0
        invariant
            i <= refs@.len(),
            spec_ref_override(refs@, k) == spec_ref_override(refs@.take(i as int), k),
        decreases i,
    {
        let (kk, v) = refs[i - 1];
        proof {
            assert(refs@.take(i as int).last() == refs@[i - 1]);
            assert(refs@.take(i as int).drop_last() =~= refs@.take(i - 1));
        }
        if kk == k {
            return Some(v);
        }
        i = i - 1;
    }
    proof {
        assert(refs@.take(0) =~= Seq::<(u16, i64)>::empty());
    }
    None
}

/// What applying the operator with parameters (X, Y) does to the context:
/// the new context, or the error for an operator the format forbids.
/// Operators the decoder only passes through leave the context unchanged.
pub open spec fn spec_apply_op(c: CtxV, x: u8, y: u8) -> Result<CtxV, Error> {
    if x == 1 {
        Ok(CtxV { add_width: if y == 0 { 0int } else { y - 128 }, ..c })
    } else if x == 2 {
        Ok(CtxV { scale_delta: if y == 0 { 0int } else { y - 128 }, ..c })
    } else if x == 3 {
        if y == 255 {
            Ok(CtxV { new_reference_bits: None, ..c })
        } else if y == 0 {
            Ok(CtxV { new_reference_bits: None, refs: Seq::empty(), ..c })
        } else {
            Ok(CtxV { new_reference_bits: Some(y as u32), ..c })
        }
    } else if x == 4 {
        Ok(CtxV { add_assoc_bits: y as u32, ..c })
    } else if x == 6 {
        Ok(CtxV { local_width: Some(y as u32), ..c })
    } else if x == 7 {
        Ok(CtxV { increase: y as u32, ..c })
    } else if x == 8 {
        Ok(
            CtxV {
                char_field_bits: if y == 0 {
                    None
                } else {
                    Some((8 * y as u32) as u32)
                },
                ..c
            },
        )
    } else if x == 21 {
        Ok(CtxV { skip_data: y as u32, ..c })
    } else if 22 <= x <= 37 {
        Ok(c)
    } else {
        Err(Error::OperatorMisuse)
    }
}

/// Applies the operator with parameters (X, Y) to the context. The
/// signify-character operator (X=5) is not handled here: it reads data and
/// the expander treats it in place.
pub fn apply_op(ctx: &mut OperatorContext, x: u8, y: u8) -> (r: Result<(), Error>)
    ensures
        match r {
            Ok(()) => spec_apply_op(old(ctx)@, x, y) == Ok::<CtxV, Error>(final(ctx)@),
            Err(e) => spec_apply_op(old(ctx)@, x, y) == Err::<CtxV, Error>(e) && *final(ctx)
                == *old(ctx),
        },
{
    if x == 1 {
        ctx.add_width = if y == 0 {
            0
        } else {
            (y as i32) - 128
        };
        Ok(())
    } else if x == 2 {
        ctx.scale_delta = if y == 0 {
            0
        } else {
            (y as i32) - 128
        };
        Ok(())
    } else if x == 3 {
        if y == 255 {
            ctx.new_reference_bits = None;
        } else if y == 0 {
            ctx.new_reference_bits = None;
            ctx.references_override = Vec::new();
        } else {
            ctx.new_reference_bits = Some(y as u32);
        }
        Ok(())
    } else if x == 4 {
        ctx.add_assoc_bits = y as u32;
        Ok(())
    } else if x == 6 {
        ctx.local_width = Some(y as u32);
        Ok(())
    } else if x == 7 {
        ctx.increase = y as u32;
        Ok(())
    } else if x == 8 {
        ctx.char_field_bits = if y == 0 {
            None
        } else {
            Some(8 * (y as u32))
        };
        Ok(())
    } else if x == 21 {
        ctx.skip_data = y as u32;
        Ok(())
    } else if 22 <= x && x <= 37 {
        Ok(())
    } else {
        Err(Error::OperatorMisuse)
    }
}

} // verus!
