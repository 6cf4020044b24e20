//! Switches.

use vstd::prelude::*;

use crate::hir::{MemberId, Type};
use crate::list::{cons, one, List};
use crate::lowering::bindings::{spec_bind_match_payload, undefined};
use crate::lowering::builder::{spec_is_open, spec_new_block, spec_terminate, Builder, State};
use crate::lowering::calls::checked_type;
use crate::lowering::constants::selector;
use crate::lowering::context::{before, depth_behind, next, Context, TokenRange};
use crate::lowering::emit::{
    converted, spec_assign, spec_branch, spec_continue_at, spec_materialize_operand,
    spec_result_local, Value,
};
use crate::lowering::loops::spec_condition;
use crate::lowering::members::variant_discriminant;
use crate::lowering::recursion::{lowering, Lowering};
use crate::mir::{whole, BasicBlockId, LocalId, Operand, Place, SwitchTarget, TerminatorKind};
use crate::syntax::TokenKind;

verus! {

/// An arm of a switch. `pattern` is the position of its checked pattern.
#[derive(Clone, Copy, Debug, PartialEq, Eq, Structural)]
pub struct MatchArm {
    pub pattern_start: usize,
    pub guard: Option<TokenRange>,
    pub value_start: usize,
    pub value_end: usize,
    pub block: bool,
    pub pattern: Option<usize>,
}

/// The tokens of an arm's value, and the position behind it.
#[derive(Clone, Copy, Debug, PartialEq, Eq, Structural)]
pub struct ArmValue {
    pub end: usize,
    pub block: bool,
    pub behind: usize,
}

/// An arm and the position behind it.
#[derive(Clone, Copy, Debug, PartialEq, Eq, Structural)]
pub struct ArmAt {
    pub arm: MatchArm,
    pub behind: usize,
}

/// The value of an arm: a block, or an expression up to a comma.
#[verifier::allow_in_spec]
pub fn arm_value(cx: &Context, start: usize, end: usize) -> (r: Option<ArmValue>)
    returns
        if cx.is(start, TokenKind::LeftBrace) {
            match cx.matching_token(start, TokenKind::LeftBrace, TokenKind::RightBrace) {
                Some(close) => {
                    Some(
                        ArmValue { end: next(close), block: true, behind: next(close) },
                    )
                },
                None => None,
            }
        } else {
            match cx.find_top_level(start, end, TokenKind::Comma) {
                Some(comma) => Some(ArmValue { end: comma, block: false, behind: next(comma) }),
                None => None,
            }
        },
{
    if cx.is(start, TokenKind::LeftBrace) {
        match cx.matching_token(start, TokenKind::LeftBrace, TokenKind::RightBrace) {
            Some(close) => Some(
                ArmValue { end: next(close), block: true, behind: next(close) },
            ),
            None => None,
        }
    } else {
        match cx.find_top_level(start, end, TokenKind::Comma) {
            Some(comma) => Some(ArmValue { end: comma, block: false, behind: next(comma) }),
            None => None,
        }
    }
}

/// The position behind a pattern: a guard or a colon that stands in no bracket.
pub open spec fn spec_pattern_end(cx: &Context, index: usize, end: usize, depth: usize) -> usize
    decreases end - index,
{
    if index >= end {
        index
    } else {
        match cx.kind(index) {
            Some(kind) => {
                if depth == 0 && (kind == TokenKind::If || kind == TokenKind::Colon) {
                    index
                } else {
                    spec_pattern_end(cx, next(index), end, depth_behind(depth, kind))
                }
            },
            None => index,
        }
    }
}

/// The position behind a pattern: a guard or a colon that stands in no bracket.
#[verifier::allow_in_spec]
pub fn pattern_end(cx: &Context, index: usize, end: usize, depth: usize) -> (r: usize)
    returns
        spec_pattern_end(cx, index, end, depth),
    decreases end - index,
{
    proof {
        reveal_with_fuel(spec_pattern_end, 2);
    }
    if index >= end {
        return index;
    }
    match cx.kind(index) {
        Some(kind) => {
            if depth == 0 && (kind == TokenKind::If || kind == TokenKind::Colon) {
                return index;
            }
            pattern_end(cx, next(index), end, depth_behind(depth, kind))
        },
        None => index,
    }
}

/// The arm without a pattern whose first token behind its keyword is at a position.
#[verifier::opaque]
pub open spec fn spec_default_arm(cx: &Context, pattern_start: usize, end: usize) -> Option<ArmAt>
{
    match cx.find_top_level(pattern_start, end, TokenKind::Colon) {
        Some(colon) => {
            match arm_value(cx, next(colon), end) {
                Some(value) => {
                    Some(
                        ArmAt {
                            arm: MatchArm {
                                pattern_start,
                                guard: None,
                                value_start: next(colon),
                                value_end: value.end,
                                block: value.block,
                                pattern: None,
                            },
                            behind: value.behind,
                        },
                    )
                },
                None => None,
            }
        },
        _ => None,
    }
}

/// The arm without a pattern whose first token behind its keyword is at a position.
#[verifier::allow_in_spec]
pub fn default_arm(cx: &Context, pattern_start: usize, end: usize) -> (r: Option<ArmAt>)
    returns
        spec_default_arm(cx, pattern_start, end),
{
    proof {
        reveal(spec_default_arm);
    }
    let Some(colon) = cx.find_top_level(pattern_start, end, TokenKind::Colon) else {
        return None;
    };
    match arm_value(cx, next(colon), end) {
        Some(value) => Some(
            ArmAt {
                arm: MatchArm {
                    pattern_start,
                    guard: None,
                    value_start: next(colon),
                    value_end: value.end,
                    block: value.block,
                    pattern: None,
                },
                behind: value.behind,
            },
        ),
        None => None,
    }
}

/// The tokens of the guard behind a pattern, if there is one.
#[verifier::opaque]
pub open spec fn spec_guard_range(cx: &Context, marker: usize, end: usize) -> Option<TokenRange> {
    if !cx.is(marker, TokenKind::If) {
        None
    } else {
        match cx.find_top_level(next(marker), end, TokenKind::Colon) {
            Some(colon) => Some(TokenRange { start: next(marker), end: colon }),
            None => None,
        }
    }
}

/// The tokens of the guard behind a pattern, if there is one.
#[verifier::allow_in_spec]
pub fn guard_range(cx: &Context, marker: usize, end: usize) -> (r: Option<TokenRange>)
    returns
        spec_guard_range(cx, marker, end),
{
    proof {
        reveal(spec_guard_range);
    }
    if !cx.is(marker, TokenKind::If) {
        return None;
    }
    match cx.find_top_level(next(marker), end, TokenKind::Colon) {
        Some(colon) => Some(TokenRange { start: next(marker), end: colon }),
        None => None,
    }
}

/// The arm with a pattern that starts at a position.
#[verifier::opaque]
pub open spec fn spec_case_arm(cx: &Context, pattern_start: usize, end: usize) -> Option<ArmAt> {
    let marker: usize = spec_pattern_end(cx, pattern_start, end, 0);
    let guard = spec_guard_range(cx, marker, end);
    let colon: usize = match guard {
        Some(range) => range.end,
        None => marker,
    };
    if !cx.is(colon, TokenKind::Colon) {
        None
    } else {
        match arm_value(cx, next(colon), end) {
            Some(value) => {
                Some(
                    ArmAt {
                        arm: MatchArm {
                            pattern_start,
                            guard,
                            value_start: next(colon),
                            value_end: value.end,
                            block: value.block,
                            pattern: cx.match_pattern_at(pattern_start),
                        },
                        behind: value.behind,
                    },
                )
            },
            None => None,
        }
    }
}

/// The arm with a pattern that starts at a position.
#[verifier::allow_in_spec]
pub fn case_arm(cx: &Context, pattern_start: usize, end: usize) -> (r: Option<ArmAt>)
    returns
        spec_case_arm(cx, pattern_start, end),
{
    proof {
        reveal(spec_case_arm);
    }
    let marker: usize = pattern_end(cx, pattern_start, end, 0);
    let guard = guard_range(cx, marker, end);
    let colon: usize = match guard {
        Some(range) => range.end,
        None => marker,
    };
    if !cx.is(colon, TokenKind::Colon) {
        return None;
    }
    match arm_value(cx, next(colon), end) {
        Some(value) => Some(
            ArmAt {
                arm: MatchArm {
                    pattern_start,
                    guard,
                    value_start: next(colon),
                    value_end: value.end,
                    block: value.block,
                    pattern: cx.match_pattern_at(pattern_start),
                },
                behind: value.behind,
            },
        ),
        None => None,
    }
}

/// The arm whose keyword is at a position.
#[verifier::allow_in_spec]
pub fn match_arm(cx: &Context, cursor: usize, end: usize) -> (r: Option<ArmAt>)
    returns
        if cx.is(cursor, TokenKind::Default) {
            spec_default_arm(cx, next(cursor), end)
        } else if cx.is(cursor, TokenKind::Case) {
            spec_case_arm(cx, next(cursor), end)
        } else {
            None
        },
{
    if cx.is(cursor, TokenKind::Default) {
        default_arm(cx, next(cursor), end)
    } else if cx.is(cursor, TokenKind::Case) {
        case_arm(cx, next(cursor), end)
    } else {
        None
    }
}

/// The arms from a position on, with a comma before each or none.
pub open spec fn spec_match_arms(cx: &Context, start: usize, end: usize) -> Option<List<MatchArm>>
    decreases end.saturating_sub(start),
{
    if start >= end {
        Some(List::Nil)
    } else {
        let cursor: usize = if cx.is(start, TokenKind::Comma) {
            next(start)
        } else {
            start
        };
        if cursor >= end {
            Some(List::Nil)
        } else {
            match match_arm(cx, cursor, end) {
                Some(found) => {
                    if found.behind <= start {
                        None
                    } else {
                        match spec_match_arms(cx, found.behind, end) {
                            Some(others) => Some(cons(found.arm, others)),
                            None => None,
                        }
                    }
                },
                _ => None,
            }
        }
    }
}

/// The arms from a position on, with a comma before each or none.
#[verifier::allow_in_spec]
pub fn match_arms(cx: &Context, start: usize, end: usize) -> (r: Option<List<MatchArm>>)
    returns
        spec_match_arms(cx, start, end),
    decreases end.saturating_sub(start),
{
    proof {
        reveal_with_fuel(spec_match_arms, 2);
    }
    if start >= end {
        return Some(List::Nil);
    }
    let cursor: usize = if cx.is(start, TokenKind::Comma) {
        next(start)
    } else {
        start
    };
    if cursor >= end {
        return Some(List::Nil);
    }
    let Some(found) = match_arm(cx, cursor, end) else {
        return None;
    };
    if found.behind <= start {
        return None;
    }
    match match_arms(cx, found.behind, end) {
        Some(others) => Some(cons(found.arm, others)),
        None => None,
    }
}

/// The variant that an arm is for.
#[verifier::allow_in_spec]
pub fn arm_constructor(cx: &Context, arm: MatchArm) -> (r: Option<MemberId>)
    returns
        match arm.pattern {
            Some(index) => if index < cx.hir.patterns@.len() {
                cx.hir.patterns@[index as int].constructor
            } else {
                None
            },
            None => None,
        },
{
    match arm.pattern {
        Some(index) => if index < cx.hir.patterns.len() {
            cx.hir.patterns[index].constructor
        } else {
            None
        },
        None => None,
    }
}

/// The number that an arm is selected by. An arm for everything has none.
#[verifier::allow_in_spec]
pub fn match_pattern_value(cx: &Context, arm: MatchArm, scrutinee: &Type) -> (r: Option<u128>)
    returns
        match arm_constructor(cx, arm) {
            Some(constructor) => variant_discriminant(cx.program, scrutinee, constructor),
            None => selector(cx, arm.pattern_start),
        },
{
    match arm_constructor(cx, arm) {
        Some(constructor) => variant_discriminant(cx.program, scrutinee, constructor),
        None => selector(cx, arm.pattern_start),
    }
}

/// A block for each arm.
#[verifier::opaque]
pub open spec fn spec_arm_blocks(st: State, arms: &List<MatchArm>) -> (State, List<BasicBlockId>)
    decreases arms,
{
    match arms {
        List::Nil => (st, List::Nil),
        List::Cons(_, tail) => {
            let (st, block) = spec_new_block(st);
            let (st, rest) = spec_arm_blocks(st, tail);
            (st, cons(block, rest))
        },
    }
}

impl Builder {
    /// A block for each arm.
    pub(crate) fn arm_blocks(&mut self, arms: &List<MatchArm>) -> (r: List<BasicBlockId>)
        ensures
            (final(self)@, r) == spec_arm_blocks(old(self)@, arms),
        decreases arms,
    {
        proof {
            reveal_with_fuel(spec_arm_blocks, 2);
        }
        match arms {
            List::Nil => List::Nil,
            List::Cons(_, tail) => {
                let block = self.new_block();
                let rest = self.arm_blocks(tail);
                cons(block, rest)
            },
        }
    }
}

/// Targets in the order of their values with one more. Of two with one value the new one counts.
pub open spec fn spec_with_target(
    targets: List<SwitchTarget>,
    target: SwitchTarget,
) -> List<SwitchTarget>
    decreases targets,
{
    match targets {
        List::Nil => one(target),
        List::Cons(head, tail) => {
            if target.value < head.value {
                cons(target, List::Cons(head, tail))
            } else if target.value == head.value {
                List::Cons(Box::new(target), tail)
            } else {
                List::Cons(head, Box::new(spec_with_target(*tail, target)))
            }
        },
    }
}

/// Targets in the order of their values with one more. Of two with one value the new one counts.
#[verifier::allow_in_spec]
pub fn with_target(targets: List<SwitchTarget>, target: SwitchTarget) -> (r: List<SwitchTarget>)
    returns
        spec_with_target(targets, target),
    decreases targets,
{
    proof {
        reveal_with_fuel(spec_with_target, 2);
    }
    match targets {
        List::Nil => one(target),
        List::Cons(head, tail) => {
            if target.value < head.value {
                cons(target, List::Cons(head, tail))
            } else if target.value == head.value {
                List::Cons(Box::new(target), tail)
            } else {
                List::Cons(head, Box::new(with_target(*tail, target)))
            }
        },
    }
}

/// The blocks of the arms that have values, in the order of the values. Of two arms with one
/// value the first counts.
pub open spec fn spec_arm_targets(
    cx: &Context,
    arms: &List<MatchArm>,
    blocks: &List<BasicBlockId>,
    scrutinee: &Type,
) -> List<SwitchTarget>
    decreases arms,
{
    match (arms, blocks) {
        (List::Cons(arm, others), List::Cons(block, rest)) => {
            let targets = spec_arm_targets(cx, others, rest, scrutinee);
            match match_pattern_value(cx, **arm, scrutinee) {
                Some(value) => {
                    spec_with_target(targets, SwitchTarget { value, block: **block })
                },
                None => targets,
            }
        },
        _ => List::Nil,
    }
}

/// The blocks of the arms that have values, in the order of the values. Of two arms with one
/// value the first counts.
#[verifier::allow_in_spec]
pub fn arm_targets(
    cx: &Context,
    arms: &List<MatchArm>,
    blocks: &List<BasicBlockId>,
    scrutinee: &Type,
) -> (r: List<SwitchTarget>)
    returns
        spec_arm_targets(cx, arms, blocks, scrutinee),
    decreases arms,
{
    proof {
        reveal_with_fuel(spec_arm_targets, 2);
    }
    match (arms, blocks) {
        (List::Cons(arm, others), List::Cons(block, rest)) => {
            let targets = arm_targets(cx, others, rest, scrutinee);
            match match_pattern_value(cx, **arm, scrutinee) {
                Some(value) => with_target(targets, SwitchTarget { value, block: **block }),
                None => targets,
            }
        },
        _ => List::Nil,
    }
}

/// The block of the first arm for everything.
pub open spec fn spec_default_block(
    cx: &Context,
    arms: &List<MatchArm>,
    blocks: &List<BasicBlockId>,
    scrutinee: &Type,
    otherwise: BasicBlockId,
) -> BasicBlockId
    decreases arms,
{
    match (arms, blocks) {
        (List::Cons(arm, others), List::Cons(block, rest)) => {
            if match_pattern_value(cx, **arm, scrutinee).is_none() {
                **block
            } else {
                spec_default_block(cx, others, rest, scrutinee, otherwise)
            }
        },
        _ => otherwise,
    }
}

/// The block of the first arm for everything.
#[verifier::allow_in_spec]
pub fn default_block(
    cx: &Context,
    arms: &List<MatchArm>,
    blocks: &List<BasicBlockId>,
    scrutinee: &Type,
    otherwise: BasicBlockId,
) -> (r: BasicBlockId)
    returns
        spec_default_block(cx, arms, blocks, scrutinee, otherwise),
    decreases arms,
{
    proof {
        reveal_with_fuel(spec_default_block, 2);
    }
    match (arms, blocks) {
        (List::Cons(arm, others), List::Cons(block, rest)) => {
            if match_pattern_value(cx, **arm, scrutinee).is_none() {
                **block
            } else {
                default_block(cx, others, rest, scrutinee, otherwise)
            }
        },
        _ => otherwise,
    }
}

/// The block of the first of the following arms that is for the same value or for everything.
pub open spec fn spec_match_fallback(
    cx: &Context,
    value: Option<u128>,
    arms: &List<MatchArm>,
    blocks: &List<BasicBlockId>,
    scrutinee: &Type,
    otherwise: BasicBlockId,
) -> BasicBlockId
    decreases arms,
{
    match (arms, blocks) {
        (List::Cons(arm, others), List::Cons(block, rest)) => {
            let candidate = match_pattern_value(cx, **arm, scrutinee);
            if candidate == value || candidate.is_none() {
                **block
            } else {
                spec_match_fallback(cx, value, others, rest, scrutinee, otherwise)
            }
        },
        _ => otherwise,
    }
}

/// The block of the first of the following arms that is for the same value or for everything.
#[verifier::allow_in_spec]
pub fn match_fallback(
    cx: &Context,
    value: Option<u128>,
    arms: &List<MatchArm>,
    blocks: &List<BasicBlockId>,
    scrutinee: &Type,
    otherwise: BasicBlockId,
) -> (r: BasicBlockId)
    returns
        spec_match_fallback(cx, value, arms, blocks, scrutinee, otherwise),
    decreases arms,
{
    proof {
        reveal_with_fuel(spec_match_fallback, 2);
    }
    match (arms, blocks) {
        (List::Cons(arm, others), List::Cons(block, rest)) => {
            let candidate = match_pattern_value(cx, **arm, scrutinee);
            if candidate == value || candidate.is_none() {
                **block
            } else {
                match_fallback(cx, value, others, rest, scrutinee, otherwise)
            }
        },
        _ => otherwise,
    }
}

/// What the arms of a switch share.
pub struct SwitchPlan {
    pub scrutinee: Place,
    pub scrutinee_type: Type,
    pub result_type: Type,
    pub destination: Option<LocalId>,
    pub otherwise: BasicBlockId,
    pub join: BasicBlockId,
}

/// The names that an arm binds.
#[verifier::opaque]
pub open spec fn spec_bind_arm(cx: &Context, st: State, arm: MatchArm, plan: &SwitchPlan) -> State
{
    match arm.pattern {
        Some(index) => {
            if index < cx.hir.patterns.len() {
                let pattern = &cx.hir.patterns[index as int];
                spec_bind_match_payload(
                    cx,
                    st,
                    &pattern.bindings,
                    0,
                    &plan.scrutinee,
                    &plan.scrutinee_type,
                )
            } else {
                st
            }
        },
        _ => st,
    }
}

impl Builder {
    /// The names that an arm binds.
    pub(crate) fn bind_arm(&mut self, cx: &Context, arm: MatchArm, plan: &SwitchPlan)
        ensures
            final(self)@ == spec_bind_arm(cx, old(self)@, arm, plan),
    {
        proof {
            reveal(spec_bind_arm);
        }
        let Some(index) = arm.pattern else {
            return;
        };
        if index < cx.hir.patterns.len() {
            let pattern = &cx.hir.patterns[index];
            self.bind_match_payload(
                cx,
                &pattern.bindings,
                0,
                &plan.scrutinee,
                &plan.scrutinee_type,
            );
        }
    }
}

/// The guard of an arm, without which another arm is tried.
#[verifier::opaque]
pub open spec fn spec_lower_guard(
    cx: &Context,
    st: State,
    guard: Option<TokenRange>,
    fallback: BasicBlockId,
    low: Lowering,
) -> State {
    match guard {
        Some(range) => {
            let (st, condition) = spec_condition(cx, st, range.start, range.end, low);
            let (st, value_block) = spec_new_block(st);
            let st = spec_branch(st, condition, value_block, fallback, cx.span_at(range.start));
            let st = State { current: value_block, ..st };
            st
        },
        _ => st,
    }
}

impl Builder {
    /// The guard of an arm, without which another arm is tried.
    pub(crate) fn lower_guard(
        &mut self,
        cx: &Context,
        guard: Option<TokenRange>,
        fallback: BasicBlockId,
        limit: usize,
    )
        ensures
            final(self)@ == spec_lower_guard(
                cx,
                old(self)@,
                guard,
                fallback,
                lowering(limit as nat),
            ),
        decreases limit, 2nat, 0nat,
    {
        proof {
            reveal(spec_lower_guard);
        }
        let Some(range) = guard else {
            return;
        };
        let condition = self.condition(cx, range.start, range.end, limit);
        let value_block = self.new_block();
        self.branch(condition, value_block, fallback, cx.span_at(range.start));
        self.current = value_block;
    }
}

/// The value of an arm.
#[verifier::opaque]
pub open spec fn spec_lower_arm_value(
    cx: &Context,
    st: State,
    arm: MatchArm,
    plan: &SwitchPlan,
    low: Lowering,
) -> State {
    if arm.block {
        let st = State { index: arm.value_start, ..st };
        let st = (low.statement)(cx, st);
        st
    } else {
        let (st, attempt) = (low.expression)(cx, st, arm.value_start, arm.value_end, Some(&plan.result_type));
        match attempt {
            Some(value) => {
                if let Some(destination) = plan.destination {
                    spec_assign(
                        st,
                        destination,
                        converted(value.operand, &value.ty, &plan.result_type),
                        cx.span_at(arm.value_start),
                    )
                } else {
                    st
                }
            },
            _ => st,
        }
    }
}

impl Builder {
    /// The value of an arm.
    pub(crate) fn lower_arm_value(
        &mut self,
        cx: &Context,
        arm: MatchArm,
        plan: &SwitchPlan,
        limit: usize,
    )
        ensures
            final(self)@ == spec_lower_arm_value(
                cx,
                old(self)@,
                arm,
                plan,
                lowering(limit as nat),
            ),
        decreases limit, 1nat, 0nat,
    {
        proof {
            reveal(spec_lower_arm_value);
        }
        if arm.block {
            self.index = arm.value_start;
            self.source_statement(cx, limit);
            return;
        }
        let Some(value) = self.expression(
            cx,
            arm.value_start,
            arm.value_end,
            Some(&plan.result_type),
            limit,
        ) else {
            return;
        };
        if let Some(destination) = plan.destination {
            self.assign(
                destination,
                converted(value.operand, &value.ty, &plan.result_type),
                cx.span_at(arm.value_start),
            );
        }
    }
}

/// The arms of a switch with their blocks.
#[verifier::opaque]
pub open spec fn spec_lower_arms(
    cx: &Context,
    st: State,
    arms: &List<MatchArm>,
    blocks: &List<BasicBlockId>,
    plan: &SwitchPlan,
    low: Lowering,
) -> State
    decreases arms,
{
    match (arms, blocks) {
        (List::Cons(arm, others), List::Cons(block, rest)) => {
            let st = State { current: **block, ..st };
            let st = spec_bind_arm(cx, st, **arm, plan);
            let fallback = spec_match_fallback(
                cx,
                match_pattern_value(cx, **arm, &plan.scrutinee_type),
                others,
                rest,
                &plan.scrutinee_type,
                plan.otherwise,
            );
            let st = spec_lower_guard(cx, st, arm.guard, fallback, low);
            let st = spec_lower_arm_value(cx, st, **arm, plan, low);
            let st = spec_continue_at(st, plan.join, cx.span_at(arm.pattern_start));
            spec_lower_arms(cx, st, others, rest, plan, low)
        },
        _ => st,
    }
}

impl Builder {
    /// The arms of a switch with their blocks.
    pub(crate) fn lower_arms(
        &mut self,
        cx: &Context,
        arms: &List<MatchArm>,
        blocks: &List<BasicBlockId>,
        plan: &SwitchPlan,
        limit: usize,
    )
        ensures
            final(self)@ == spec_lower_arms(
                cx,
                old(self)@,
                arms,
                blocks,
                plan,
                lowering(limit as nat),
            ),
        decreases limit, 3nat, arms.seq().len(),
    {
        proof {
            reveal_with_fuel(spec_lower_arms, 2);
        }
        match (arms, blocks) {
            (List::Cons(arm, others), List::Cons(block, rest)) => {
                self.current = **block;
                self.bind_arm(cx, **arm, plan);
                let fallback = match_fallback(
                    cx,
                    match_pattern_value(cx, **arm, &plan.scrutinee_type),
                    others,
                    rest,
                    &plan.scrutinee_type,
                    plan.otherwise,
                );
                self.lower_guard(cx, arm.guard, fallback, limit);
                self.lower_arm_value(cx, **arm, plan, limit);
                self.continue_at(plan.join, cx.span_at(arm.pattern_start));
                self.lower_arms(cx, others, rest, plan, limit);
            },
            _ => {},
        }
    }
}

/// The arms of the switch whose scrutinee ends at a parenthesis.
#[verifier::allow_in_spec]
pub fn switch_arms(cx: &Context, close: usize, end: usize) -> (r: Option<List<MatchArm>>)
    returns
        if cx.is(next(close), TokenKind::LeftBrace) {
            spec_match_arms(cx, next(next(close)), before(end))
        } else {
            None
        },
{
    if cx.is(next(close), TokenKind::LeftBrace) {
        match_arms(cx, next(next(close)), before(end))
    } else {
        None
    }
}

/// A switch.
#[verifier::opaque]
pub open spec fn spec_lower_match(
    cx: &Context,
    st: State,
    start: usize,
    end: usize,
    expected: Option<&Type>,
    low: Lowering,
) -> (State, Option<Value>) {
    let span = cx.span_at(start);
    match cx.matching_token(next(start), TokenKind::LeftParen, TokenKind::RightParen) {
        Some(close) => {
            let (st, attempt) = (low.expression)(cx, st, next(next(start)), close, None);
            match attempt {
                Some(value) => {
                    let (st, scrutinee) = spec_materialize_operand(
                        st,
                        value.operand,
                        value.ty.dup(),
                        span,
                    );
                    match switch_arms(cx, close, end) {
                        Some(arms) => {
                            match checked_type(cx, start, end, expected) {
                                Some(result_type) => {
                                    let (st, destination) = spec_result_local(
                                        st,
                                        &result_type,
                                        span,
                                    );
                                    let (st, blocks) = spec_arm_blocks(st, &arms);
                                    let (st, otherwise) = spec_new_block(st);
                                    let (st, join) = spec_new_block(st);
                                    let st = spec_terminate(
                                        st, TerminatorKind::Switch {
                                            value: Operand::Copy(scrutinee.dup()),
                                            targets: spec_arm_targets(
                                                cx,
                                                &arms,
                                                &blocks,
                                                &value.ty,
                                            ),
                                            otherwise: spec_default_block(
                                                cx,
                                                &arms,
                                                &blocks,
                                                &value.ty,
                                                otherwise,
                                            ),
                                        },
                                        span,
                                    );
                                    let position: usize = st.index;
                                    let plan = SwitchPlan {
                                        scrutinee,
                                        scrutinee_type: value.ty,
                                        result_type,
                                        destination,
                                        otherwise,
                                        join,
                                    };
                                    let st = spec_lower_arms(cx, st, &arms, &blocks, &plan, low);
                                    let st = State { current: otherwise, ..st };
                                    let st = if spec_is_open(st) {
                                        spec_terminate(st, TerminatorKind::Unreachable, span)
                                    } else {
                                        st
                                    };
                                    let st = State { current: join, ..st };
                                    let st = State { index: position, ..st };
                                    let operand = match destination {
                                        Some(local) => Operand::Move(whole(local)),
                                        None => undefined(plan.result_type.dup()),
                                    };
                                    (st, Some(Value { operand, ty: plan.result_type }))
                                },
                                _ => (st, None),
                            }
                        },
                        _ => (st, None),
                    }
                },
                _ => (st, None),
            }
        },
        _ => (st, None),
    }
}

impl Builder {
    /// A switch.
    pub(crate) fn lower_match(
        &mut self,
        cx: &Context,
        start: usize,
        end: usize,
        expected: Option<&Type>,
        limit: usize,
    ) -> (r: Option<Value>)
        ensures
            (final(self)@, r) == spec_lower_match(
                cx,
                old(self)@,
                start,
                end,
                expected,
                lowering(limit as nat),
            ),
        decreases limit, 4nat, 0nat,
    {
        proof {
            reveal(spec_lower_match);
        }
        let span = cx.span_at(start);
        let Some(close) = cx.matching_token(
            next(start),
            TokenKind::LeftParen,
            TokenKind::RightParen,
        ) else {
            return None;
        };
        let Some(value) = self.expression(cx, next(next(start)), close, None, limit) else {
            return None;
        };
        let scrutinee = self.materialize_operand(value.operand, value.ty.dup(), span);
        let Some(arms) = switch_arms(cx, close, end) else {
            return None;
        };
        let Some(result_type) = checked_type(cx, start, end, expected) else {
            return None;
        };
        let destination = self.result_local(&result_type, span);
        let blocks = self.arm_blocks(&arms);
        let otherwise = self.new_block();
        let join = self.new_block();
        self.terminate(
            TerminatorKind::Switch {
                value: Operand::Copy(scrutinee.dup()),
                targets: arm_targets(cx, &arms, &blocks, &value.ty),
                otherwise: default_block(cx, &arms, &blocks, &value.ty, otherwise),
            },
            span,
        );
        let position: usize = self.index;
        let plan = SwitchPlan {
            scrutinee,
            scrutinee_type: value.ty,
            result_type,
            destination,
            otherwise,
            join,
        };
        self.lower_arms(cx, &arms, &blocks, &plan, limit);
        self.current = otherwise;
        if self.is_open() {
            self.terminate(TerminatorKind::Unreachable, span);
        }
        self.current = join;
        self.index = position;
        let operand = match destination {
            Some(local) => Operand::Move(whole(local)),
            None => undefined(plan.result_type.dup()),
        };
        Some(Value { operand, ty: plan.result_type })
    }
}

} // verus!
