//! Sequences of statements leave the other blocks of a graph as they are.

use vstd::prelude::*;

use crate::hir::Type;
use crate::lowering::builder::{spec_is_open, spec_new_block, State};
use crate::lowering::context::Context;
use crate::lowering::frames::base::{
    continues, frame_new_block, frame_set_current, group_frames, is_framed_lowering,
    lemma_continues_itself, lemma_continues_on,
};
use crate::lowering::frames::expressions::frame_lower_expression_range;
use crate::lowering::frames::statements::frame_lower_statement;
use crate::lowering::recursion::{lowering, spec_lower_sequence, spec_reopen, Lowering};
use crate::lowering::shape::base::{
    fits, is_sound_lowering, lemma_grows_itself, lemma_grows_on, lemma_growth, lemma_new_block,
    lemma_set_current,
};
use crate::lowering::shape::recursion::{lemma_lower_sequence, lemma_lowering, lemma_reopen};
use crate::syntax::TokenKind;

verus! {

pub proof fn frame_reopen(base: State, st: State)
    ensures
        ({
            let after = spec_reopen(st);
            fits(after) && continues(base, st) ==> continues(base, after)
        }),
{
    broadcast use {lemma_growth, group_frames};

    reveal(spec_reopen);
    let given = st;
    lemma_grows_itself(st);
    if !spec_is_open(st) {
        lemma_new_block(st);
        frame_new_block(base, st);
        let (next_st, block) = spec_new_block(st);
        lemma_grows_on(given, st, next_st);
        let st = next_st;
        lemma_set_current(st, block);
        frame_set_current(base, st, block);
        let next_st = State { current: block, ..st };
        lemma_grows_on(given, st, next_st);
        let st = next_st;
    }
}


pub proof fn frame_lower_sequence(
    base: State,
    cx: &Context,
    st: State,
    end: Option<TokenKind>,
    low: Lowering,
)
    requires
        is_sound_lowering(low),
        is_framed_lowering(low),
    ensures
        ({
            let after = spec_lower_sequence(cx, st, end, low);
            fits(after) && continues(base, st) ==> continues(base, after)
        }),
    decreases cx.body_limit.saturating_sub(st.index),
{
    broadcast use lemma_growth;

    if st.index < cx.body_limit && cx.kind(st.index) is Some && cx.kind(st.index) != end {
        lemma_reopen(st);
        frame_reopen(base, st);
        let opened = spec_reopen(st);
        let lowered = (low.statement)(cx, opened);
        lemma_continues_on(base, opened, lowered);
        if lowered.index > st.index {
            lemma_lower_sequence(cx, lowered, end, low);
            frame_lower_sequence(base, cx, lowered, end, low);
        }
    }
}

/// However deep code is nested, lowering it continues graphs.
pub proof fn lowering_continues_graphs(limit: nat)
    ensures
        is_framed_lowering(lowering(limit)),
    decreases limit,
{
    reveal_with_fuel(lowering, 2);
    let whole = lowering(limit);
    if limit > 0 {
        let low = lowering((limit - 1) as nat);
        lowering_continues_graphs((limit - 1) as nat);
        lemma_lowering((limit - 1) as nat);
        assert forall|cx: &Context, st: State, start: usize, end: usize, expected: Option<&Type>|
            {
                let after = #[trigger] (whole.expression)(cx, st, start, end, expected);
                fits(after.0) ==> continues(st, after.0)
            } by {
            lemma_continues_itself(st);
            frame_lower_expression_range(st, cx, st, start, end, expected, low);
        }
        assert forall|cx: &Context, st: State|
            {
                let after = #[trigger] (whole.statement)(cx, st);
                fits(after) ==> continues(st, after)
            } by {
            lemma_continues_itself(st);
            frame_lower_statement(st, cx, st, low);
        }
    } else {
        assert forall|cx: &Context, st: State, start: usize, end: usize, expected: Option<&Type>|
            {
                let after = #[trigger] (whole.expression)(cx, st, start, end, expected);
                fits(after.0) ==> continues(st, after.0)
            } by {
            lemma_continues_itself(st);
        }
        assert forall|cx: &Context, st: State|
            {
                let after = #[trigger] (whole.statement)(cx, st);
                fits(after) ==> continues(st, after)
            } by {
            lemma_continues_itself(st);
        }
    }
}

} // verus!
