//! Switches keep graphs well formed.

use vstd::prelude::*;

use crate::hir::Type;
use crate::list::List;
use crate::lowering::bindings::{spec_bind_match_payload, undefined};
use crate::lowering::builder::{spec_is_open, spec_new_block, spec_terminate, State};
use crate::lowering::calls::checked_type;
use crate::lowering::context::{next, Context, TokenRange};
use crate::lowering::emit::{
    converted, spec_assign, spec_branch, spec_continue_at, spec_materialize_operand,
    spec_result_local,
};
use crate::lowering::loops::spec_condition;
use crate::lowering::recursion::Lowering;
use crate::lowering::shape::base::{
    blocks_fit, bounds_of, fits, group_shape, grows, is_sound, is_sound_lowering,
    lemma_grows_itself, lemma_grows_on, lemma_new_block, lemma_set_current, lemma_set_index,
    lemma_terminate, optional_value_fits, targets_fit, Bounds,
};
use crate::lowering::shape::bindings::lemma_bind_match_payload;
use crate::lowering::shape::emit::{
    lemma_assign, lemma_branch, lemma_continue_at, lemma_materialize_operand, lemma_result_local,
};
use crate::lowering::shape::kinds::{group_kinds, plan_fits};
use crate::lowering::shape::loops::lemma_condition;
use crate::lowering::switches::{
    match_pattern_value, spec_arm_blocks, spec_arm_targets, spec_bind_arm, spec_default_block,
    spec_lower_arm_value, spec_lower_arms, spec_lower_guard, spec_lower_match, spec_match_fallback,
    spec_with_target, switch_arms, MatchArm, SwitchPlan,
};
use crate::mir::{whole, BasicBlockId, Operand, SwitchTarget, TerminatorKind};
use crate::syntax::TokenKind;

verus! {

pub proof fn lemma_arm_blocks(st: State, arms: &List<MatchArm>)
    ensures
        ({
            let after = spec_arm_blocks(st, arms);
            &&& grows(st, after.0)
            &&& fits(after.0) && is_sound(st)
                ==> is_sound(after.0) && blocks_fit(after.1, bounds_of(after.0))
        }),
    decreases arms,
{
    broadcast use {group_shape, group_kinds};

    reveal_with_fuel(spec_arm_blocks, 2);
    let given = st;
    lemma_grows_itself(st);
    match arms {
        List::Nil => {},
        List::Cons(_, tail) => {
            lemma_new_block(st);
            let (next_st, block) = spec_new_block(st);
            lemma_grows_on(given, st, next_st);
            let st = next_st;
            lemma_arm_blocks(st, tail);
            let (next_st, rest) = spec_arm_blocks(st, tail);
            lemma_grows_on(given, st, next_st);
            let st = next_st;
        },
    }
}

pub proof fn lemma_with_target(targets: List<SwitchTarget>, target: SwitchTarget, bounds: Bounds)
    ensures
        ({
            let found = spec_with_target(targets, target);
            targets_fit(targets, bounds) && target.block.0 < bounds.blocks
                ==> targets_fit(found, bounds)
        }),
    decreases targets,
{
    broadcast use {group_shape, group_kinds};

    reveal_with_fuel(spec_with_target, 2);
    match targets {
        List::Nil => {},
        List::Cons(head, tail) => {
            if target.value < head.value {
            } else {
                if target.value == head.value {
                } else {
                    lemma_with_target(*tail, target, bounds);
                }
            }
        },
    }
}

pub proof fn lemma_arm_targets(
    cx: &Context,
    arms: &List<MatchArm>,
    blocks: &List<BasicBlockId>,
    scrutinee: &Type,
    bounds: Bounds,
)
    ensures
        ({
            let found = spec_arm_targets(cx, arms, blocks, scrutinee);
            blocks_fit(*blocks, bounds) ==> targets_fit(found, bounds)
        }),
    decreases arms,
{
    broadcast use {group_shape, group_kinds};

    reveal_with_fuel(spec_arm_targets, 2);
    match (arms, blocks) {
        (List::Cons(arm, others), List::Cons(block, rest)) => {
            lemma_arm_targets(cx, others, rest, scrutinee, bounds);
            let targets = spec_arm_targets(cx, others, rest, scrutinee);
            match match_pattern_value(cx, **arm, scrutinee) {
                Some(value) => {
                    lemma_with_target(targets, SwitchTarget { value, block: **block }, bounds);
                },
                None => {},
            }
        },
        _ => {},
    }
}

pub proof fn lemma_default_block(
    cx: &Context,
    arms: &List<MatchArm>,
    blocks: &List<BasicBlockId>,
    scrutinee: &Type,
    otherwise: BasicBlockId,
    bounds: Bounds,
)
    ensures
        ({
            let found = spec_default_block(cx, arms, blocks, scrutinee, otherwise);
            blocks_fit(*blocks, bounds) && otherwise.0 < bounds.blocks ==> found.0 < bounds.blocks
        }),
    decreases arms,
{
    broadcast use {group_shape, group_kinds};

    reveal_with_fuel(spec_default_block, 2);
    match (arms, blocks) {
        (List::Cons(arm, others), List::Cons(block, rest)) => {
            if match_pattern_value(cx, **arm, scrutinee).is_none() {
            } else {
                lemma_default_block(cx, others, rest, scrutinee, otherwise, bounds);
            }
        },
        _ => {},
    }
}

pub proof fn lemma_match_fallback(
    cx: &Context,
    value: Option<u128>,
    arms: &List<MatchArm>,
    blocks: &List<BasicBlockId>,
    scrutinee: &Type,
    otherwise: BasicBlockId,
    bounds: Bounds,
)
    ensures
        ({
            let found = spec_match_fallback(cx, value, arms, blocks, scrutinee, otherwise);
            blocks_fit(*blocks, bounds) && otherwise.0 < bounds.blocks ==> found.0 < bounds.blocks
        }),
    decreases arms,
{
    broadcast use {group_shape, group_kinds};

    reveal_with_fuel(spec_match_fallback, 2);
    match (arms, blocks) {
        (List::Cons(arm, others), List::Cons(block, rest)) => {
            let candidate = match_pattern_value(cx, **arm, scrutinee);
            if candidate == value || candidate.is_none() {
            } else {
                lemma_match_fallback(cx, value, others, rest, scrutinee, otherwise, bounds);
            }
        },
        _ => {},
    }
}

pub proof fn lemma_bind_arm(cx: &Context, st: State, arm: MatchArm, plan: &SwitchPlan)
    ensures
        ({
            let after = spec_bind_arm(cx, st, arm, plan);
            &&& grows(st, after)
            &&& fits(after) && is_sound(st) && plan_fits(*plan, bounds_of(st))
                ==> is_sound(after)
        }),
{
    broadcast use {group_shape, group_kinds};

    reveal(spec_bind_arm);
    let given = st;
    lemma_grows_itself(st);
    match arm.pattern {
        Some(index) => {
            if index < cx.hir.patterns.len() {
                let pattern = &cx.hir.patterns[index as int];
                lemma_bind_match_payload(
                    cx,
                    st,
                    &pattern.bindings,
                    0,
                    &plan.scrutinee,
                    &plan.scrutinee_type,
                );
                let next_st = spec_bind_match_payload(
                    cx,
                    st,
                    &pattern.bindings,
                    0,
                    &plan.scrutinee,
                    &plan.scrutinee_type,
                );
                lemma_grows_on(given, st, next_st);
                let st = next_st;
            }
        },
        _ => {},
    }
}

pub proof fn lemma_lower_guard(
    cx: &Context,
    st: State,
    guard: Option<TokenRange>,
    fallback: BasicBlockId,
    low: Lowering,
)
    requires
        is_sound_lowering(low),
    ensures
        ({
            let after = spec_lower_guard(cx, st, guard, fallback, low);
            &&& grows(st, after)
            &&& fits(after) && is_sound(st) && fallback.0 < bounds_of(st).blocks
                ==> is_sound(after)
        }),
{
    broadcast use {group_shape, group_kinds};

    reveal(spec_lower_guard);
    let given = st;
    lemma_grows_itself(st);
    match guard {
        Some(range) => {
            lemma_condition(cx, st, range.start, range.end, low);
            let (next_st, condition) = spec_condition(cx, st, range.start, range.end, low);
            lemma_grows_on(given, st, next_st);
            let st = next_st;
            lemma_new_block(st);
            let (next_st, value_block) = spec_new_block(st);
            lemma_grows_on(given, st, next_st);
            let st = next_st;
            lemma_branch(st, condition, value_block, fallback, cx.span_at(range.start));
            let next_st = spec_branch(
                st,
                condition,
                value_block,
                fallback,
                cx.span_at(range.start),
            );
            lemma_grows_on(given, st, next_st);
            let st = next_st;
            lemma_set_current(st, value_block);
            let next_st = State { current: value_block, ..st };
            lemma_grows_on(given, st, next_st);
            let st = next_st;
        },
        _ => {},
    }
}

pub proof fn lemma_lower_arm_value(
    cx: &Context,
    st: State,
    arm: MatchArm,
    plan: &SwitchPlan,
    low: Lowering,
)
    requires
        is_sound_lowering(low),
    ensures
        ({
            let after = spec_lower_arm_value(cx, st, arm, plan, low);
            &&& grows(st, after)
            &&& fits(after) && is_sound(st) && plan_fits(*plan, bounds_of(st))
                ==> is_sound(after)
        }),
{
    broadcast use {group_shape, group_kinds};

    reveal(spec_lower_arm_value);
    let given = st;
    lemma_grows_itself(st);
    if arm.block {
        lemma_set_index(st, arm.value_start);
        let next_st = State { index: arm.value_start, ..st };
        lemma_grows_on(given, st, next_st);
        let st = next_st;
        let next_st = (low.statement)(cx, st);
        lemma_grows_on(given, st, next_st);
        let st = next_st;
    } else {
        let (next_st, attempt) = (low.expression)(cx, st, arm.value_start, arm.value_end, Some(&plan.result_type));
        lemma_grows_on(given, st, next_st);
        let st = next_st;
        match attempt {
            Some(value) => {
                if let Some(destination) = plan.destination {
                    lemma_assign(
                        st,
                        destination,
                        converted(value.operand, &value.ty, &plan.result_type),
                        cx.span_at(arm.value_start),
                    );
                    let next_st = spec_assign(
                        st,
                        destination,
                        converted(value.operand, &value.ty, &plan.result_type),
                        cx.span_at(arm.value_start),
                    );
                    lemma_grows_on(given, st, next_st);
                    let st = next_st;
                }
            },
            _ => {},
        }
    }
}

pub proof fn lemma_lower_arms(
    cx: &Context,
    st: State,
    arms: &List<MatchArm>,
    blocks: &List<BasicBlockId>,
    plan: &SwitchPlan,
    low: Lowering,
)
    requires
        is_sound_lowering(low),
    ensures
        ({
            let after = spec_lower_arms(cx, st, arms, blocks, plan, low);
            &&& grows(st, after)
            &&& fits(after) && is_sound(st) && blocks_fit(*blocks, bounds_of(st))
                && plan_fits(*plan, bounds_of(st))
                ==> is_sound(after)
        }),
    decreases arms,
{
    broadcast use {group_shape, group_kinds};

    reveal_with_fuel(spec_lower_arms, 2);
    let given = st;
    lemma_grows_itself(st);
    match (arms, blocks) {
        (List::Cons(arm, others), List::Cons(block, rest)) => {
            lemma_set_current(st, **block);
            let next_st = State { current: **block, ..st };
            lemma_grows_on(given, st, next_st);
            let st = next_st;
            lemma_bind_arm(cx, st, **arm, plan);
            let next_st = spec_bind_arm(cx, st, **arm, plan);
            lemma_grows_on(given, st, next_st);
            let st = next_st;
            lemma_match_fallback(
            cx,
            match_pattern_value(cx, **arm, &plan.scrutinee_type),
            others,
            rest,
            &plan.scrutinee_type,
            plan.otherwise, bounds_of(st));
            let fallback = spec_match_fallback(
                cx,
                match_pattern_value(cx, **arm, &plan.scrutinee_type),
                others,
                rest,
                &plan.scrutinee_type,
                plan.otherwise,
            );
            lemma_lower_guard(cx, st, arm.guard, fallback, low);
            let next_st = spec_lower_guard(cx, st, arm.guard, fallback, low);
            lemma_grows_on(given, st, next_st);
            let st = next_st;
            lemma_lower_arm_value(cx, st, **arm, plan, low);
            let next_st = spec_lower_arm_value(cx, st, **arm, plan, low);
            lemma_grows_on(given, st, next_st);
            let st = next_st;
            lemma_continue_at(st, plan.join, cx.span_at(arm.pattern_start));
            let next_st = spec_continue_at(st, plan.join, cx.span_at(arm.pattern_start));
            lemma_grows_on(given, st, next_st);
            let st = next_st;
            lemma_lower_arms(cx, st, others, rest, plan, low);
            let next_st = spec_lower_arms(cx, st, others, rest, plan, low);
            lemma_grows_on(given, st, next_st);
            let st = next_st;
        },
        _ => {},
    }
}

pub proof fn lemma_lower_match(
    cx: &Context,
    st: State,
    start: usize,
    end: usize,
    expected: Option<&Type>,
    low: Lowering,
)
    requires
        is_sound_lowering(low),
    ensures
        ({
            let after = spec_lower_match(cx, st, start, end, expected, low);
            &&& grows(st, after.0)
            &&& fits(after.0) && is_sound(st)
                ==> is_sound(after.0) && optional_value_fits(after.1, bounds_of(after.0))
        }),
{
    broadcast use {group_shape, group_kinds};

    reveal(spec_lower_match);
    let given = st;
    lemma_grows_itself(st);
    let span = cx.span_at(start);
    match cx.matching_token(next(start), TokenKind::LeftParen, TokenKind::RightParen) {
        Some(close) => {
            let (next_st, attempt) = (low.expression)(cx, st, next(next(start)), close, None);
            lemma_grows_on(given, st, next_st);
            let st = next_st;
            match attempt {
                Some(value) => {
                    lemma_materialize_operand(st, value.operand, value.ty.dup(), span);
                    let (next_st, scrutinee) = spec_materialize_operand(
                        st,
                        value.operand,
                        value.ty.dup(),
                        span,
                    );
                    lemma_grows_on(given, st, next_st);
                    let st = next_st;
                    match switch_arms(cx, close, end) {
                        Some(arms) => {
                            match checked_type(cx, start, end, expected) {
                                Some(result_type) => {
                                    lemma_result_local(st, &result_type, span);
                                    let (next_st, destination) = spec_result_local(
                                        st,
                                        &result_type,
                                        span,
                                    );
                                    lemma_grows_on(given, st, next_st);
                                    let st = next_st;
                                    lemma_arm_blocks(st, &arms);
                                    let (next_st, blocks) = spec_arm_blocks(st, &arms);
                                    lemma_grows_on(given, st, next_st);
                                    let st = next_st;
                                    lemma_new_block(st);
                                    let (next_st, otherwise) = spec_new_block(st);
                                    lemma_grows_on(given, st, next_st);
                                    let st = next_st;
                                    lemma_new_block(st);
                                    let (next_st, join) = spec_new_block(st);
                                    lemma_grows_on(given, st, next_st);
                                    let st = next_st;
                                    lemma_default_block(
                                        cx,
                                        &arms,
                                        &blocks,
                                        &value.ty,
                                        otherwise,
                                        bounds_of(st),
                                    );
                                    lemma_arm_targets(cx, &arms, &blocks, &value.ty, bounds_of(st));
                                    lemma_terminate(
                                        st, TerminatorKind::Switch {
                                            value: Operand::Copy(scrutinee.dup()),
                                            targets: spec_arm_targets(
                                                cx,
                                                &arms,
                                                &blocks,
                                                &value.ty,
                                            ),
                                            otherwise: spec_default_block(
                                                cx,
                                                &arms,
                                                &blocks,
                                                &value.ty,
                                                otherwise,
                                            ),
                                        },
                                        span,
                                    );
                                    let next_st = spec_terminate(
                                        st, TerminatorKind::Switch {
                                            value: Operand::Copy(scrutinee.dup()),
                                            targets: spec_arm_targets(
                                                cx,
                                                &arms,
                                                &blocks,
                                                &value.ty,
                                            ),
                                            otherwise: spec_default_block(
                                                cx,
                                                &arms,
                                                &blocks,
                                                &value.ty,
                                                otherwise,
                                            ),
                                        },
                                        span,
                                    );
                                    lemma_grows_on(given, st, next_st);
                                    let st = next_st;
                                    let position: usize = st.index;
                                    let plan = SwitchPlan {
                                        scrutinee,
                                        scrutinee_type: value.ty,
                                        result_type,
                                        destination,
                                        otherwise,
                                        join,
                                    };
                                    lemma_lower_arms(cx, st, &arms, &blocks, &plan, low);
                                    let next_st = spec_lower_arms(
                                        cx,
                                        st,
                                        &arms,
                                        &blocks,
                                        &plan,
                                        low,
                                    );
                                    lemma_grows_on(given, st, next_st);
                                    let st = next_st;
                                    lemma_set_current(st, otherwise);
                                    let next_st = State { current: otherwise, ..st };
                                    lemma_grows_on(given, st, next_st);
                                    let st = next_st;
                                    if spec_is_open(st) {
                                        lemma_terminate(st, TerminatorKind::Unreachable, span);
                                        let next_st = spec_terminate(
                                            st,
                                            TerminatorKind::Unreachable,
                                            span,
                                        );
                                        lemma_grows_on(given, st, next_st);
                                        let st = next_st;
                                    }
                                    let next_st = if spec_is_open(st) {
                                        spec_terminate(st, TerminatorKind::Unreachable, span)
                                    } else {
                                        st
                                    };
                                    assert(grows(given, next_st));
                                    let st = next_st;
                                    lemma_set_current(st, join);
                                    let next_st = State { current: join, ..st };
                                    lemma_grows_on(given, st, next_st);
                                    let st = next_st;
                                    lemma_set_index(st, position);
                                    let next_st = State { index: position, ..st };
                                    lemma_grows_on(given, st, next_st);
                                    let st = next_st;
                                    let operand = match destination {
                                        Some(local) => Operand::Move(whole(local)),
                                        None => undefined(plan.result_type.dup()),
                                    };
                                },
                                _ => {},
                            }
                        },
                        _ => {},
                    }
                },
                _ => {},
            }
        },
        _ => {},
    }
}

} // verus!
