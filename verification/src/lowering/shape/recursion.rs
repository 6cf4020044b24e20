//! Sequences of statements keep graphs well formed.

use vstd::prelude::*;

use crate::hir::Type;
use crate::lowering::builder::{spec_is_open, spec_new_block, State};
use crate::lowering::context::Context;
use crate::lowering::recursion::{lowering, spec_lower_sequence, spec_reopen, Lowering};
use crate::lowering::shape::base::{
    bounds_of, fits, group_shape, grows, is_sound, is_sound_lowering, lemma_grows_itself,
    lemma_grows_on, lemma_new_block, lemma_set_current, optional_value_fits,
};
use crate::lowering::shape::expressions::lemma_lower_expression_range;
use crate::lowering::shape::kinds::group_kinds;
use crate::lowering::shape::statements::lemma_lower_statement;
use crate::syntax::TokenKind;

verus! {

pub proof fn lemma_reopen(st: State)
    ensures
        ({
            let after = spec_reopen(st);
            &&& grows(st, after)
            &&& fits(after) && is_sound(st)
                ==> is_sound(after)
        }),
{
    broadcast use {group_shape, group_kinds};

    reveal(spec_reopen);
    let given = st;
    lemma_grows_itself(st);
    if !spec_is_open(st) {
        lemma_new_block(st);
        let (next_st, block) = spec_new_block(st);
        lemma_grows_on(given, st, next_st);
        let st = next_st;
        lemma_set_current(st, block);
        let next_st = State { current: block, ..st };
        lemma_grows_on(given, st, next_st);
        let st = next_st;
    }
}

pub proof fn lemma_lower_sequence(cx: &Context, st: State, end: Option<TokenKind>, low: Lowering)
    requires
        is_sound_lowering(low),
    ensures
        ({
            let after = spec_lower_sequence(cx, st, end, low);
            &&& grows(st, after)
            &&& fits(after) && is_sound(st) ==> is_sound(after)
        }),
    decreases cx.body_limit.saturating_sub(st.index),
{
    broadcast use {group_shape, group_kinds};

    lemma_grows_itself(st);
    if st.index < cx.body_limit && cx.kind(st.index) is Some && cx.kind(st.index) != end {
        lemma_reopen(st);
        let opened = spec_reopen(st);
        let lowered = (low.statement)(cx, opened);
        lemma_grows_on(st, opened, lowered);
        if lowered.index > st.index {
            lemma_lower_sequence(cx, lowered, end, low);
            lemma_grows_on(st, lowered, spec_lower_sequence(cx, lowered, end, low));
        }
    }
}

/// However deep code is nested, lowering it keeps graphs sound.
pub proof fn lemma_lowering(limit: nat)
    ensures
        is_sound_lowering(lowering(limit)),
    decreases limit,
{
    reveal_with_fuel(lowering, 2);
    let whole = lowering(limit);
    if limit > 0 {
        let low = lowering((limit - 1) as nat);
        lemma_lowering((limit - 1) as nat);
        assert forall|cx: &Context, st: State, start: usize, end: usize, expected: Option<&Type>|
            {
                let after = #[trigger] (whole.expression)(cx, st, start, end, expected);
                &&& grows(st, after.0)
                &&& fits(after.0) && is_sound(st) ==> is_sound(after.0) && optional_value_fits(
                    after.1,
                    bounds_of(after.0),
                )
            } by {
            lemma_lower_expression_range(cx, st, start, end, expected, low);
        }
        assert forall|cx: &Context, st: State|
            {
                let after = #[trigger] (whole.statement)(cx, st);
                grows(st, after) && (fits(after) && is_sound(st) ==> is_sound(after))
            } by {
            lemma_lower_statement(cx, st, low);
        }
    } else {
        assert forall|cx: &Context, st: State, start: usize, end: usize, expected: Option<&Type>|
            {
                let after = #[trigger] (whole.expression)(cx, st, start, end, expected);
                &&& grows(st, after.0)
                &&& fits(after.0) && is_sound(st) ==> is_sound(after.0) && optional_value_fits(
                    after.1,
                    bounds_of(after.0),
                )
            } by {
            lemma_grows_itself(st);
        }
        assert forall|cx: &Context, st: State|
            {
                let after = #[trigger] (whole.statement)(cx, st);
                grows(st, after) && (fits(after) && is_sound(st) ==> is_sound(after))
            } by {
            lemma_grows_itself(st);
        }
    }
}

} // verus!
