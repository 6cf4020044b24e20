//! Switches leave the other blocks of a graph as they are.

use vstd::prelude::*;

use crate::hir::Type;
use crate::list::List;
use crate::lowering::bindings::{spec_bind_match_payload, undefined};
use crate::lowering::builder::{spec_is_open, spec_new_block, spec_terminate, State};
use crate::lowering::calls::checked_type;
use crate::lowering::context::{next, Context, TokenRange};
use crate::lowering::emit::{
    converted, spec_assign, spec_branch, spec_continue_at, spec_materialize_operand,
    spec_result_local,
};
use crate::lowering::frames::base::{
    are_new, continues, frame_new_block, frame_same, frame_set_current, frame_terminate,
    group_frames, is_framed_lowering, is_new_plan, lemma_continues_on,
};
use crate::lowering::frames::bindings::frame_bind_match_payload;
use crate::lowering::frames::emit::{
    frame_assign, frame_branch, frame_continue_at, frame_materialize_operand, frame_result_local,
};
use crate::lowering::frames::loops::frame_condition;
use crate::lowering::loops::spec_condition;
use crate::lowering::recursion::Lowering;
use crate::lowering::shape::base::{
    fits, grows, is_sound_lowering, lemma_grows_itself, lemma_grows_on, lemma_growth,
    lemma_new_block, lemma_set_current, lemma_set_index, lemma_terminate,
};
use crate::lowering::shape::bindings::lemma_bind_match_payload;
use crate::lowering::shape::emit::{
    lemma_assign, lemma_branch, lemma_continue_at, lemma_materialize_operand, lemma_result_local,
};
use crate::lowering::shape::loops::lemma_condition;
use crate::lowering::shape::switches::{
    lemma_arm_blocks, lemma_bind_arm, lemma_lower_arm_value, lemma_lower_arms, lemma_lower_guard,
};
use crate::lowering::switches::{
    match_pattern_value, spec_arm_blocks, spec_arm_targets, spec_bind_arm, spec_default_block,
    spec_lower_arm_value, spec_lower_arms, spec_lower_guard, spec_lower_match, spec_match_fallback,
    switch_arms, MatchArm, SwitchPlan,
};
use crate::mir::{whole, BasicBlockId, Operand, TerminatorKind};
use crate::syntax::TokenKind;

verus! {

pub proof fn frame_arm_blocks(base: State, st: State, arms: &List<MatchArm>)
    ensures
        ({
            let after = spec_arm_blocks(st, arms);
            fits(after.0) && continues(base, st)
                ==> continues(base, after.0) && are_new(after.1, base)
        }),
    decreases arms,
{
    broadcast use {lemma_growth, group_frames};

    reveal_with_fuel(spec_arm_blocks, 2);
    let given = st;
    lemma_grows_itself(st);
    match arms {
        List::Nil => {},
        List::Cons(_, tail) => {
            lemma_new_block(st);
            frame_new_block(base, st);
            let (next_st, block) = spec_new_block(st);
            lemma_grows_on(given, st, next_st);
            let st = next_st;
            lemma_arm_blocks(st, tail);
            frame_arm_blocks(base, st, tail);
            let (next_st, rest) = spec_arm_blocks(st, tail);
            lemma_grows_on(given, st, next_st);
            let st = next_st;
        },
    }
}

pub proof fn frame_bind_arm(base: State, cx: &Context, st: State, arm: MatchArm, plan: &SwitchPlan)
    ensures
        ({
            let after = spec_bind_arm(cx, st, arm, plan);
            fits(after) && continues(base, st) && is_new_plan(*plan, base)
                ==> continues(base, after)
        }),
{
    broadcast use {lemma_growth, group_frames};

    reveal(spec_bind_arm);
    let given = st;
    lemma_grows_itself(st);
    match arm.pattern {
        Some(index) => {
            if index < cx.hir.patterns.len() {
                let pattern = &cx.hir.patterns[index as int];
                lemma_bind_match_payload(
                    cx,
                    st,
                    &pattern.bindings,
                    0,
                    &plan.scrutinee,
                    &plan.scrutinee_type,
                );
                frame_bind_match_payload(
                    base,
                    cx,
                    st,
                    &pattern.bindings,
                    0,
                    &plan.scrutinee,
                    &plan.scrutinee_type,
                );
                let next_st = spec_bind_match_payload(
                    cx,
                    st,
                    &pattern.bindings,
                    0,
                    &plan.scrutinee,
                    &plan.scrutinee_type,
                );
                lemma_grows_on(given, st, next_st);
                let st = next_st;
            }
        },
        _ => {},
    }
}

pub proof fn frame_lower_guard(
    base: State,
    cx: &Context,
    st: State,
    guard: Option<TokenRange>,
    fallback: BasicBlockId,
    low: Lowering,
)
    requires
        is_sound_lowering(low),
        is_framed_lowering(low),
    ensures
        ({
            let after = spec_lower_guard(cx, st, guard, fallback, low);
            fits(after) && continues(base, st) ==> continues(base, after)
        }),
{
    broadcast use {lemma_growth, group_frames};

    reveal(spec_lower_guard);
    let given = st;
    lemma_grows_itself(st);
    match guard {
        Some(range) => {
            lemma_condition(cx, st, range.start, range.end, low);
            frame_condition(base, cx, st, range.start, range.end, low);
            let (next_st, condition) = spec_condition(cx, st, range.start, range.end, low);
            lemma_grows_on(given, st, next_st);
            let st = next_st;
            lemma_new_block(st);
            frame_new_block(base, st);
            let (next_st, value_block) = spec_new_block(st);
            lemma_grows_on(given, st, next_st);
            let st = next_st;
            lemma_branch(st, condition, value_block, fallback, cx.span_at(range.start));
            frame_branch(base, st, condition, value_block, fallback, cx.span_at(range.start));
            let next_st = spec_branch(
                st,
                condition,
                value_block,
                fallback,
                cx.span_at(range.start),
            );
            lemma_grows_on(given, st, next_st);
            let st = next_st;
            lemma_set_current(st, value_block);
            frame_set_current(base, st, value_block);
            let next_st = State { current: value_block, ..st };
            lemma_grows_on(given, st, next_st);
            let st = next_st;
        },
        _ => {},
    }
}

pub proof fn frame_lower_arm_value(
    base: State,
    cx: &Context,
    st: State,
    arm: MatchArm,
    plan: &SwitchPlan,
    low: Lowering,
)
    requires
        is_sound_lowering(low),
        is_framed_lowering(low),
    ensures
        ({
            let after = spec_lower_arm_value(cx, st, arm, plan, low);
            fits(after) && continues(base, st) && is_new_plan(*plan, base)
                ==> continues(base, after)
        }),
{
    broadcast use {lemma_growth, group_frames};

    reveal(spec_lower_arm_value);
    let given = st;
    lemma_grows_itself(st);
    if arm.block {
        lemma_set_index(st, arm.value_start);
        let next_st = State { index: arm.value_start, ..st };
        frame_same(base, st, next_st);
        lemma_grows_on(given, st, next_st);
        let st = next_st;
        let next_st = (low.statement)(cx, st);
        lemma_continues_on(base, st, next_st);
        lemma_grows_on(given, st, next_st);
        let st = next_st;
    } else {
        let (next_st, attempt) = (low.expression)(cx, st, arm.value_start, arm.value_end, Some(&plan.result_type));
        lemma_continues_on(base, st, next_st);
        lemma_grows_on(given, st, next_st);
        let st = next_st;
        match attempt {
            Some(value) => {
                if let Some(destination) = plan.destination {
                    lemma_assign(
                        st,
                        destination,
                        converted(value.operand, &value.ty, &plan.result_type),
                        cx.span_at(arm.value_start),
                    );
                    frame_assign(
                        base,
                        st,
                        destination,
                        converted(value.operand, &value.ty, &plan.result_type),
                        cx.span_at(arm.value_start),
                    );
                    let next_st = spec_assign(
                        st,
                        destination,
                        converted(value.operand, &value.ty, &plan.result_type),
                        cx.span_at(arm.value_start),
                    );
                    lemma_grows_on(given, st, next_st);
                    let st = next_st;
                }
            },
            _ => {},
        }
    }
}

pub proof fn frame_lower_arms(
    base: State,
    cx: &Context,
    st: State,
    arms: &List<MatchArm>,
    blocks: &List<BasicBlockId>,
    plan: &SwitchPlan,
    low: Lowering,
)
    requires
        is_sound_lowering(low),
        is_framed_lowering(low),
    ensures
        ({
            let after = spec_lower_arms(cx, st, arms, blocks, plan, low);
            fits(after) && continues(base, st) && are_new(*blocks, base) && is_new_plan(*plan, base)
                ==> continues(base, after)
        }),
    decreases arms,
{
    broadcast use {lemma_growth, group_frames};

    reveal_with_fuel(spec_lower_arms, 2);
    let given = st;
    lemma_grows_itself(st);
    match (arms, blocks) {
        (List::Cons(arm, others), List::Cons(block, rest)) => {
            lemma_set_current(st, **block);
            frame_set_current(base, st, **block);
            let next_st = State { current: **block, ..st };
            lemma_grows_on(given, st, next_st);
            let st = next_st;
            lemma_bind_arm(cx, st, **arm, plan);
            frame_bind_arm(base, cx, st, **arm, plan);
            let next_st = spec_bind_arm(cx, st, **arm, plan);
            lemma_grows_on(given, st, next_st);
            let st = next_st;
            let fallback = spec_match_fallback(
                cx,
                match_pattern_value(cx, **arm, &plan.scrutinee_type),
                others,
                rest,
                &plan.scrutinee_type,
                plan.otherwise,
            );
            lemma_lower_guard(cx, st, arm.guard, fallback, low);
            frame_lower_guard(base, cx, st, arm.guard, fallback, low);
            let next_st = spec_lower_guard(cx, st, arm.guard, fallback, low);
            lemma_grows_on(given, st, next_st);
            let st = next_st;
            lemma_lower_arm_value(cx, st, **arm, plan, low);
            frame_lower_arm_value(base, cx, st, **arm, plan, low);
            let next_st = spec_lower_arm_value(cx, st, **arm, plan, low);
            lemma_grows_on(given, st, next_st);
            let st = next_st;
            lemma_continue_at(st, plan.join, cx.span_at(arm.pattern_start));
            frame_continue_at(base, st, plan.join, cx.span_at(arm.pattern_start));
            let next_st = spec_continue_at(st, plan.join, cx.span_at(arm.pattern_start));
            lemma_grows_on(given, st, next_st);
            let st = next_st;
            lemma_lower_arms(cx, st, others, rest, plan, low);
            frame_lower_arms(base, cx, st, others, rest, plan, low);
            let next_st = spec_lower_arms(cx, st, others, rest, plan, low);
            lemma_grows_on(given, st, next_st);
            let st = next_st;
        },
        _ => {},
    }
}

pub proof fn frame_lower_match(
    base: State,
    cx: &Context,
    st: State,
    start: usize,
    end: usize,
    expected: Option<&Type>,
    low: Lowering,
)
    requires
        is_sound_lowering(low),
        is_framed_lowering(low),
    ensures
        ({
            let after = spec_lower_match(cx, st, start, end, expected, low);
            fits(after.0) && continues(base, st) ==> continues(base, after.0)
        }),
{
    broadcast use {lemma_growth, group_frames};

    reveal(spec_lower_match);
    let given = st;
    lemma_grows_itself(st);
    let span = cx.span_at(start);
    match cx.matching_token(next(start), TokenKind::LeftParen, TokenKind::RightParen) {
        Some(close) => {
            let (next_st, attempt) = (low.expression)(cx, st, next(next(start)), close, None);
            lemma_continues_on(base, st, next_st);
            lemma_grows_on(given, st, next_st);
            let st = next_st;
            match attempt {
                Some(value) => {
                    lemma_materialize_operand(st, value.operand, value.ty.dup(), span);
                    frame_materialize_operand(base, st, value.operand, value.ty.dup(), span);
                    let (next_st, scrutinee) = spec_materialize_operand(
                        st,
                        value.operand,
                        value.ty.dup(),
                        span,
                    );
                    lemma_grows_on(given, st, next_st);
                    let st = next_st;
                    match switch_arms(cx, close, end) {
                        Some(arms) => {
                            match checked_type(cx, start, end, expected) {
                                Some(result_type) => {
                                    lemma_result_local(st, &result_type, span);
                                    frame_result_local(base, st, &result_type, span);
                                    let (next_st, destination) = spec_result_local(
                                        st,
                                        &result_type,
                                        span,
                                    );
                                    lemma_grows_on(given, st, next_st);
                                    let st = next_st;
                                    lemma_arm_blocks(st, &arms);
                                    frame_arm_blocks(base, st, &arms);
                                    let (next_st, blocks) = spec_arm_blocks(st, &arms);
                                    lemma_grows_on(given, st, next_st);
                                    let st = next_st;
                                    lemma_new_block(st);
                                    frame_new_block(base, st);
                                    let (next_st, otherwise) = spec_new_block(st);
                                    lemma_grows_on(given, st, next_st);
                                    let st = next_st;
                                    lemma_new_block(st);
                                    frame_new_block(base, st);
                                    let (next_st, join) = spec_new_block(st);
                                    lemma_grows_on(given, st, next_st);
                                    let st = next_st;
                                    lemma_terminate(
                                        st, TerminatorKind::Switch {
                                            value: Operand::Copy(scrutinee.dup()),
                                            targets: spec_arm_targets(
                                                cx,
                                                &arms,
                                                &blocks,
                                                &value.ty,
                                            ),
                                            otherwise: spec_default_block(
                                                cx,
                                                &arms,
                                                &blocks,
                                                &value.ty,
                                                otherwise,
                                            ),
                                        },
                                        span,
                                    );
                                    frame_terminate(
                                        base,
                                        st,
                                        TerminatorKind::Switch {
                                            value: Operand::Copy(scrutinee.dup()),
                                            targets: spec_arm_targets(
                                                cx,
                                                &arms,
                                                &blocks,
                                                &value.ty,
                                            ),
                                            otherwise: spec_default_block(
                                                cx,
                                                &arms,
                                                &blocks,
                                                &value.ty,
                                                otherwise,
                                            ),
                                        },
                                        span,
                                    );
                                    let next_st = spec_terminate(
                                        st, TerminatorKind::Switch {
                                            value: Operand::Copy(scrutinee.dup()),
                                            targets: spec_arm_targets(
                                                cx,
                                                &arms,
                                                &blocks,
                                                &value.ty,
                                            ),
                                            otherwise: spec_default_block(
                                                cx,
                                                &arms,
                                                &blocks,
                                                &value.ty,
                                                otherwise,
                                            ),
                                        },
                                        span,
                                    );
                                    lemma_grows_on(given, st, next_st);
                                    let st = next_st;
                                    let position: usize = st.index;
                                    let plan = SwitchPlan {
                                        scrutinee,
                                        scrutinee_type: value.ty,
                                        result_type,
                                        destination,
                                        otherwise,
                                        join,
                                    };
                                    lemma_lower_arms(cx, st, &arms, &blocks, &plan, low);
                                    frame_lower_arms(base, cx, st, &arms, &blocks, &plan, low);
                                    let next_st = spec_lower_arms(
                                        cx,
                                        st,
                                        &arms,
                                        &blocks,
                                        &plan,
                                        low,
                                    );
                                    lemma_grows_on(given, st, next_st);
                                    let st = next_st;
                                    lemma_set_current(st, otherwise);
                                    frame_set_current(base, st, otherwise);
                                    let next_st = State { current: otherwise, ..st };
                                    lemma_grows_on(given, st, next_st);
                                    let st = next_st;
                                    if spec_is_open(st) {
                                        lemma_terminate(st, TerminatorKind::Unreachable, span);
                                        frame_terminate(
                                            base,
                                            st,
                                            TerminatorKind::Unreachable,
                                            span,
                                        );
                                        let next_st = spec_terminate(
                                            st,
                                            TerminatorKind::Unreachable,
                                            span,
                                        );
                                        lemma_grows_on(given, st, next_st);
                                        let st = next_st;
                                    }
                                    let next_st = if spec_is_open(st) {
                                        spec_terminate(st, TerminatorKind::Unreachable, span)
                                    } else {
                                        st
                                    };
                                    assert(grows(given, next_st));
                                    let st = next_st;
                                    lemma_set_current(st, join);
                                    frame_set_current(base, st, join);
                                    let next_st = State { current: join, ..st };
                                    lemma_grows_on(given, st, next_st);
                                    let st = next_st;
                                    lemma_set_index(st, position);
                                    let next_st = State { index: position, ..st };
                                    frame_same(base, st, next_st);
                                    lemma_grows_on(given, st, next_st);
                                    let st = next_st;
                                    let operand = match destination {
                                        Some(local) => Operand::Move(whole(local)),
                                        None => undefined(plan.result_type.dup()),
                                    };
                                },
                                _ => {},
                            }
                        },
                        _ => {},
                    }
                },
                _ => {},
            }
        },
        _ => {},
    }
}

} // verus!
