//! Statements keep graphs well formed.

use vstd::prelude::*;

use crate::hir::{DeclarationId, HirBindingPattern, Method, PrimitiveType, Program, Type};
use crate::list::{dup_plain, one, List};
use crate::lowering::bindings::{
    spec_bind_hir_local, spec_lower_binding_pattern, spec_lower_parameter_bindings, undefined,
};
use crate::lowering::builder::{
    spec_active_disposals, spec_add_local, spec_bind_hir, spec_first_span, spec_fresh_region,
    spec_innermost_loop, spec_is_open, spec_local_count, spec_local_span, spec_local_type,
    spec_manage, spec_name_count, spec_new_block, spec_pop_handler, spec_pop_scope,
    spec_push_handler, spec_push_scope, spec_restore_names, spec_statement, spec_terminate, State,
};
use crate::lowering::constants::constant;
use crate::lowering::context::{before, behind, next, Context};
use crate::lowering::emit::{
    all_declared, converted, spec_assign, spec_branch, spec_computed, spec_continue_at,
    spec_emit_call, spec_live, spec_lower_async_disposals, type_ref, Value,
};
use crate::lowering::expressions::spec_lower_await;
use crate::lowering::loops::{
    signature_of, spec_condition, spec_lower_for, spec_lower_while, written_name,
};
use crate::lowering::members::{catch_handles, constructor_of, nominal_named};
use crate::lowering::recursion::{lowering, spec_here, spec_lower_sequence, Lowering};
use crate::lowering::shape::base::{
    blocks_fit, bounds_of, fits, group_shape, grows, is_sound, is_sound_lowering,
    lemma_active_disposals, lemma_add_local, lemma_bind_hir, lemma_fresh_region, lemma_grows_itself,
    lemma_grows_on, lemma_innermost_loop, lemma_local_count, lemma_manage, lemma_named_local,
    lemma_new_block, lemma_pop_handler, lemma_pop_scope, lemma_push_handler, lemma_push_scope,
    lemma_restore_names, lemma_set_buffer, lemma_set_current, lemma_set_finish, lemma_set_index,
    lemma_sound_fields, lemma_statement, lemma_terminate, operand_fits, optional_local_fits,
    optional_operand_fits, optional_typed_place_fits, optional_value_fits, targets_fit, Bounds,
};
use crate::lowering::shape::bindings::{
    lemma_bind_hir_local, lemma_lower_binding_pattern, lemma_lower_parameter_bindings,
};
use crate::lowering::shape::emit::{
    lemma_assign, lemma_branch, lemma_computed, lemma_continue_at, lemma_emit_call, lemma_live,
    lemma_lower_async_disposals,
};
use crate::lowering::shape::expressions::lemma_lower_await;
use crate::lowering::shape::kinds::{
    group_kinds, initializer_fits, initializer_source_fits, optional_block_fits,
};
use crate::lowering::shape::loops::{lemma_condition, lemma_lower_for, lemma_lower_while};
use crate::lowering::shape::recursion::lemma_lower_sequence;
use crate::lowering::statements::{
    annotation, assigned_value, global_declaration, is_constant_initializer, spec_assign_global,
    spec_assign_place, spec_assign_remaining_initializer, spec_assign_simple_initializer,
    spec_behind_catches, spec_borrow_initializer, spec_catch_arms, spec_catch_blocks,
    spec_catch_targets, spec_catching_block, spec_class_method, spec_complex_initializer,
    spec_construct, spec_declare_local, spec_declared_local, spec_dispose_all,
    spec_effects_of_tokens, spec_end_locals, spec_finish_generator, spec_first_equal,
    spec_generator_iterator, spec_global_left, spec_infer_initializer, spec_local_at,
    spec_lower_assignment_place, spec_lower_block, spec_lower_body, spec_lower_catches,
    spec_lower_discarded, spec_lower_explicit_move, spec_lower_expression_statement, spec_lower_if,
    spec_lower_initialized, spec_lower_local, spec_lower_loop_control, spec_lower_pointer_target,
    spec_lower_return, spec_lower_statement, spec_lower_suspend, spec_lower_throw, spec_lower_try,
    spec_lower_using, spec_lower_yield, spec_lower_yielded, spec_move_initializer,
    spec_name_initializer, spec_push_yielded, spec_returned_operand, spec_start_generator,
    spec_type_of_local, stored_value, unknown_initializer, CatchArm, Global, Initializer,
    InitializerKind, InitializerSource,
};
use crate::lowering::types::{is_void, mir_cast_kind, pointee_of, primitive};
use crate::mir::{
    operand_place, whole, BasicBlockId, BinaryOperator, CastKind, Constant, LocalId, Operand,
    RawOperation, Rvalue, StatementKind, TerminatorKind,
};
use crate::names::Name;
use crate::syntax::{File, Span, TokenKind};

verus! {

pub proof fn lemma_lower_statement(cx: &Context, st: State, low: Lowering)
    requires
        is_sound_lowering(low),
    ensures
        ({
            let after = spec_lower_statement(cx, st, low);
            &&& grows(st, after)
            &&& fits(after) && is_sound(st)
                ==> is_sound(after)
        }),
{
    broadcast use {group_shape, group_kinds};

    reveal(spec_lower_statement);
    let given = st;
    lemma_grows_itself(st);
    match spec_here(cx, st) {
        Some(TokenKind::LeftBrace) => {
            lemma_lower_block(cx, st, low);
            let next_st = spec_lower_block(cx, st, low);
            lemma_grows_on(given, st, next_st);
            let st = next_st;
        },
        Some(TokenKind::Const | TokenKind::Let) => {
            lemma_lower_local(cx, st, low);
            let next_st = spec_lower_local(cx, st, low);
            lemma_grows_on(given, st, next_st);
            let st = next_st;
        },
        Some(TokenKind::If) => {
            lemma_lower_if(cx, st, low);
            let next_st = spec_lower_if(cx, st, low);
            lemma_grows_on(given, st, next_st);
            let st = next_st;
        },
        Some(TokenKind::While) => {
            lemma_lower_while(cx, st, low);
            let next_st = spec_lower_while(cx, st, low);
            lemma_grows_on(given, st, next_st);
            let st = next_st;
        },
        Some(TokenKind::For) => {
            lemma_lower_for(cx, st, low);
            let next_st = spec_lower_for(cx, st, low);
            lemma_grows_on(given, st, next_st);
            let st = next_st;
        },
        Some(TokenKind::Yield) => {
            lemma_lower_yield(cx, st, low);
            let next_st = spec_lower_yield(cx, st, low);
            lemma_grows_on(given, st, next_st);
            let st = next_st;
        },
        Some(
            TokenKind::Switch
            | TokenKind::Identifier
            | TokenKind::This
            | TokenKind::Star
            | TokenKind::Less,
        ) => {
            lemma_lower_expression_statement(cx, st, low);
            let next_st = spec_lower_expression_statement(cx, st, low);
            lemma_grows_on(given, st, next_st);
            let st = next_st;
        },
        Some(TokenKind::Try) => {
            if cx.is(next(st.index), TokenKind::LeftBrace) {
                lemma_lower_try(cx, st, low);
                let next_st = spec_lower_try(cx, st, low);
                lemma_grows_on(given, st, next_st);
                let st = next_st;
            } else {
                if cx.is(next(st.index), TokenKind::Await) {
                    lemma_lower_suspend(cx, st, low);
                    let next_st = spec_lower_suspend(cx, st, low);
                    lemma_grows_on(given, st, next_st);
                    let st = next_st;
                } else {
                    lemma_set_index(st, next(st.index));
                    let next_st = State { index: next(st.index), ..st };
                    lemma_grows_on(given, st, next_st);
                    let st = next_st;
                }
            }
        },
        Some(TokenKind::Unsafe) => {
            lemma_set_index(st, next(st.index));
            let next_st = State { index: next(st.index), ..st };
            lemma_grows_on(given, st, next_st);
            let st = next_st;
            let next_st = (low.statement)(cx, st);
            lemma_grows_on(given, st, next_st);
            let st = next_st;
        },
        Some(TokenKind::Move) => {
            lemma_lower_explicit_move(cx, st);
            let next_st = spec_lower_explicit_move(cx, st);
            lemma_grows_on(given, st, next_st);
            let st = next_st;
        },
        Some(TokenKind::Await) => {
            if cx.is(next(st.index), TokenKind::Using) {
                lemma_lower_using(cx, st, true, low);
                let next_st = spec_lower_using(cx, st, true, low);
                lemma_grows_on(given, st, next_st);
                let st = next_st;
            } else {
                lemma_lower_suspend(cx, st, low);
                let next_st = spec_lower_suspend(cx, st, low);
                lemma_grows_on(given, st, next_st);
                let st = next_st;
            }
        },
        Some(TokenKind::Return) => {
            lemma_lower_return(cx, st, low);
            let next_st = spec_lower_return(cx, st, low);
            lemma_grows_on(given, st, next_st);
            let st = next_st;
        },
        Some(TokenKind::Throw) => {
            lemma_lower_throw(cx, st, low);
            let next_st = spec_lower_throw(cx, st, low);
            lemma_grows_on(given, st, next_st);
            let st = next_st;
        },
        Some(TokenKind::Break | TokenKind::Continue) => {
            lemma_lower_loop_control(cx, st);
            let next_st = spec_lower_loop_control(cx, st);
            lemma_grows_on(given, st, next_st);
            let st = next_st;
        },
        Some(TokenKind::Using) => {
            lemma_lower_using(cx, st, false, low);
            let next_st = spec_lower_using(cx, st, false, low);
            lemma_grows_on(given, st, next_st);
            let st = next_st;
        },
        Some(_) => {
            lemma_set_index(st, next(st.index));
            let next_st = State { index: next(st.index), ..st };
            lemma_grows_on(given, st, next_st);
            let st = next_st;
        },
        None => {},
    }
}

pub proof fn lemma_end_locals(st: State, first: usize, end: usize)
    ensures
        ({
            let after = spec_end_locals(st, first, end);
            &&& grows(st, after)
            &&& fits(after) && is_sound(st) && end <= bounds_of(st).locals
                ==> is_sound(after)
        }),
    decreases end,
{
    broadcast use {group_shape, group_kinds};

    reveal_with_fuel(spec_end_locals, 2);
    let given = st;
    lemma_grows_itself(st);
    if first < end {
        lemma_statement(
            st, StatementKind::StorageDead(LocalId(before(end))),
            spec_local_span(st, before(end)),
        );
        let next_st = spec_statement(
            st, StatementKind::StorageDead(LocalId(before(end))),
            spec_local_span(st, before(end)),
        );
        lemma_grows_on(given, st, next_st);
        let st = next_st;
        lemma_end_locals(st, first, before(end));
        let next_st = spec_end_locals(st, first, before(end));
        lemma_grows_on(given, st, next_st);
        let st = next_st;
    }
}

pub proof fn lemma_lower_block(cx: &Context, st: State, low: Lowering)
    requires
        is_sound_lowering(low),
    ensures
        ({
            let after = spec_lower_block(cx, st, low);
            &&& grows(st, after)
            &&& fits(after) && is_sound(st)
                ==> is_sound(after)
        }),
{
    broadcast use {group_shape, group_kinds};

    reveal(spec_lower_block);
    let given = st;
    lemma_grows_itself(st);
    let names: usize = spec_name_count(st);
    lemma_local_count(st);
    let first: usize = spec_local_count(st);
    lemma_push_scope(st);
    let next_st = spec_push_scope(st);
    lemma_grows_on(given, st, next_st);
    let st = next_st;
    lemma_set_index(st, next(st.index));
    let next_st = State { index: next(st.index), ..st };
    lemma_grows_on(given, st, next_st);
    let st = next_st;
    lemma_lower_sequence(cx, st, Some(TokenKind::RightBrace), low);
    let next_st = spec_lower_sequence(cx, st, Some(TokenKind::RightBrace), low);
    lemma_grows_on(given, st, next_st);
    let st = next_st;
    lemma_pop_scope(st);
    let (next_st, managed) = spec_pop_scope(st);
    lemma_grows_on(given, st, next_st);
    let st = next_st;
    if spec_is_open(st) {
        lemma_lower_async_disposals(cx, st, &managed);
        let next_st = spec_lower_async_disposals(cx, st, &managed);
        lemma_grows_on(given, st, next_st);
        let st = next_st;
    }
    let next_st = if spec_is_open(st) {
        spec_lower_async_disposals(cx, st, &managed)
    } else {
        st
    };
    assert(grows(given, next_st));
    let st = next_st;
    lemma_local_count(st);
    lemma_end_locals(st, first, spec_local_count(st));
    let next_st = spec_end_locals(st, first, spec_local_count(st));
    lemma_grows_on(given, st, next_st);
    let st = next_st;
    lemma_restore_names(st, names);
    let next_st = spec_restore_names(st, names);
    lemma_grows_on(given, st, next_st);
    let st = next_st;
    if spec_here(cx, st) == Some(TokenKind::RightBrace) {
        lemma_set_index(st, next(st.index));
        let next_st = State { index: next(st.index), ..st };
        lemma_grows_on(given, st, next_st);
        let st = next_st;
    }
}

pub proof fn lemma_lower_if(cx: &Context, st: State, low: Lowering)
    requires
        is_sound_lowering(low),
    ensures
        ({
            let after = spec_lower_if(cx, st, low);
            &&& grows(st, after)
            &&& fits(after) && is_sound(st)
                ==> is_sound(after)
        }),
{
    broadcast use {group_shape, group_kinds};

    reveal(spec_lower_if);
    let given = st;
    lemma_grows_itself(st);
    let start: usize = st.index;
    let span = cx.span_at(start);
    match cx.matching_token(next(start), TokenKind::LeftParen, TokenKind::RightParen) {
        Some(close) => {
            lemma_condition(cx, st, behind(start, 2), close, low);
            let (next_st, condition) = spec_condition(cx, st, behind(start, 2), close, low);
            lemma_grows_on(given, st, next_st);
            let st = next_st;
            lemma_set_index(st, next(close));
            let next_st = State { index: next(close), ..st };
            lemma_grows_on(given, st, next_st);
            let st = next_st;
            lemma_new_block(st);
            let (next_st, then_block) = spec_new_block(st);
            lemma_grows_on(given, st, next_st);
            let st = next_st;
            lemma_new_block(st);
            let (next_st, else_block) = spec_new_block(st);
            lemma_grows_on(given, st, next_st);
            let st = next_st;
            lemma_new_block(st);
            let (next_st, join_block) = spec_new_block(st);
            lemma_grows_on(given, st, next_st);
            let st = next_st;
            lemma_branch(st, condition, then_block, else_block, span);
            let next_st = spec_branch(st, condition, then_block, else_block, span);
            lemma_grows_on(given, st, next_st);
            let st = next_st;
            lemma_set_current(st, then_block);
            let next_st = State { current: then_block, ..st };
            lemma_grows_on(given, st, next_st);
            let st = next_st;
            let next_st = (low.statement)(cx, st);
            lemma_grows_on(given, st, next_st);
            let st = next_st;
            lemma_continue_at(st, join_block, span);
            let next_st = spec_continue_at(st, join_block, span);
            lemma_grows_on(given, st, next_st);
            let st = next_st;
            lemma_set_current(st, else_block);
            let next_st = State { current: else_block, ..st };
            lemma_grows_on(given, st, next_st);
            let st = next_st;
            if spec_here(cx, st) == Some(TokenKind::Else) {
                lemma_set_index(st, next(st.index));
                let next_st = State { index: next(st.index), ..st };
                lemma_grows_on(given, st, next_st);
                let st = next_st;
                let next_st = (low.statement)(cx, st);
                lemma_grows_on(given, st, next_st);
                let st = next_st;
            }
            let next_st = if spec_here(cx, st) == Some(TokenKind::Else) {
                let st = State { index: next(st.index), ..st };
                (low.statement)(cx, st)
            } else {
                st
            };
            assert(grows(given, next_st));
            let st = next_st;
            lemma_continue_at(st, join_block, span);
            let next_st = spec_continue_at(st, join_block, span);
            lemma_grows_on(given, st, next_st);
            let st = next_st;
            lemma_set_current(st, join_block);
            let next_st = State { current: join_block, ..st };
            lemma_grows_on(given, st, next_st);
            let st = next_st;
        },
        _ => {
            lemma_set_index(st, next(start));
            let next_st = State { index: next(start), ..st };
            lemma_grows_on(given, st, next_st);
            let st = next_st;
        },
    }
}

pub proof fn lemma_push_yielded(
    cx: &Context,
    st: State,
    buffer: LocalId,
    value: Operand,
    item_type: &Type,
    start: usize,
)
    ensures
        ({
            let after = spec_push_yielded(cx, st, buffer, value, item_type, start);
            &&& grows(st, after)
            &&& fits(after) && is_sound(st) && buffer.0 < bounds_of(st).locals
                && operand_fits(value, bounds_of(st))
                ==> is_sound(after)
        }),
{
    broadcast use {group_shape, group_kinds};

    reveal(spec_push_yielded);
    let given = st;
    lemma_grows_itself(st);
    let span = cx.span_at(start);
    match spec_local_type(st, buffer) {
        Some(Type::Nominal(array, arguments)) => {
            match spec_class_method(cx.program, array, Name::Push) {
                Some(push) => {
                    let element = match arguments {
                        List::Cons(head, _) => *head,
                        List::Nil => item_type.dup(),
                    };
                    let signature = signature_of(
                        one(element),
                        primitive(PrimitiveType::Void),
                        dup_plain(&push.function.effects),
                        false,
                        push.function.is_unsafe,
                    );
                    lemma_computed(
                        st, Type::Function(signature.dup()),
                        Rvalue::DirectMethod {
                            object: whole(buffer),
                            implementation: array,
                            member: push.id,
                            receiver: crate::hir::ReceiverMode::Mutable,
                            ty: Type::Function(signature.dup()),
                        },
                        span,
                    );
                    let (next_st, method) = spec_computed(
                        st, Type::Function(signature.dup()),
                        Rvalue::DirectMethod {
                            object: whole(buffer),
                            implementation: array,
                            member: push.id,
                            receiver: crate::hir::ReceiverMode::Mutable,
                            ty: Type::Function(signature.dup()),
                        },
                        span,
                    );
                    lemma_grows_on(given, st, next_st);
                    let st = next_st;
                    lemma_emit_call(
                        cx,
                        st,
                        method,
                        Some(Operand::Copy(whole(buffer))),
                        &signature,
                        one(value),
                        start,
                    );
                    let (next_st, _) = spec_emit_call(
                        cx,
                        st,
                        method,
                        Some(Operand::Copy(whole(buffer))),
                        &signature,
                        one(value),
                        start,
                    );
                    lemma_grows_on(given, st, next_st);
                    let st = next_st;
                },
                _ => {},
            }
        },
        _ => {},
    }
}

pub proof fn lemma_lower_yielded(cx: &Context, st: State, start: usize, end: usize, low: Lowering)
    requires
        is_sound_lowering(low),
    ensures
        ({
            let after = spec_lower_yielded(cx, st, start, end, low);
            &&& grows(st, after)
            &&& fits(after) && is_sound(st)
                ==> is_sound(after)
        }),
{
    broadcast use {group_shape, group_kinds};

    reveal(spec_lower_yielded);
    let given = st;
    lemma_grows_itself(st);
    match &cx.generator_item_type {
        Some(item_type) => {
            lemma_sound_fields(st);
            match st.buffer {
                Some(buffer) => {
                    let (next_st, attempt) = (low.expression)(cx, st, next(start), end, Some(item_type));
                    lemma_grows_on(given, st, next_st);
                    let st = next_st;
                    match attempt {
                        Some(value) => {
                            lemma_push_yielded(cx, st, buffer, value.operand, item_type, start);
                            let next_st = spec_push_yielded(
                                cx,
                                st,
                                buffer,
                                value.operand,
                                item_type,
                                start,
                            );
                            lemma_grows_on(given, st, next_st);
                            let st = next_st;
                        },
                        _ => {},
                    }
                },
                _ => {},
            }
        },
        _ => {},
    }
}

pub proof fn lemma_lower_yield(cx: &Context, st: State, low: Lowering)
    requires
        is_sound_lowering(low),
    ensures
        ({
            let after = spec_lower_yield(cx, st, low);
            &&& grows(st, after)
            &&& fits(after) && is_sound(st)
                ==> is_sound(after)
        }),
{
    broadcast use {group_shape, group_kinds};

    reveal(spec_lower_yield);
    let given = st;
    lemma_grows_itself(st);
    let start: usize = st.index;
    let end: usize = cx.statement_end(start);
    lemma_lower_yielded(cx, st, start, end, low);
    let next_st = spec_lower_yielded(cx, st, start, end, low);
    lemma_grows_on(given, st, next_st);
    let st = next_st;
    lemma_set_index(st, cx.past(end));
    let next_st = State { index: cx.past(end), ..st };
    lemma_grows_on(given, st, next_st);
    let st = next_st;
}

pub proof fn lemma_catch_blocks(st: State, catches: &List<CatchArm>)
    ensures
        ({
            let after = spec_catch_blocks(st, catches);
            &&& grows(st, after.0)
            &&& fits(after.0) && is_sound(st)
                ==> is_sound(after.0) && blocks_fit(after.1, bounds_of(after.0))
        }),
    decreases catches,
{
    broadcast use {group_shape, group_kinds};

    reveal_with_fuel(spec_catch_blocks, 2);
    let given = st;
    lemma_grows_itself(st);
    match catches {
        List::Nil => {},
        List::Cons(_, tail) => {
            lemma_new_block(st);
            let (next_st, block) = spec_new_block(st);
            lemma_grows_on(given, st, next_st);
            let st = next_st;
            lemma_catch_blocks(st, tail);
            let (next_st, rest) = spec_catch_blocks(st, tail);
            lemma_grows_on(given, st, next_st);
            let st = next_st;
        },
    }
}

pub proof fn lemma_catching_block(
    program: &Program,
    catches: &List<CatchArm>,
    blocks: &List<BasicBlockId>,
    effect: DeclarationId,
    bounds: Bounds,
)
    ensures
        ({
            let found = spec_catching_block(program, catches, blocks, effect);
            blocks_fit(*blocks, bounds) ==> optional_block_fits(found, bounds)
        }),
    decreases catches,
{
    broadcast use {group_shape, group_kinds};

    reveal_with_fuel(spec_catching_block, 2);
    match (catches, blocks) {
        (List::Cons(arm, arms), List::Cons(block, rest)) => {
            if catch_handles(program, &arm.ty, effect) {
            } else {
                lemma_catching_block(program, arms, rest, effect, bounds);
            }
        },
        _ => {},
    }
}

pub proof fn lemma_catch_targets(
    program: &Program,
    effects: &List<DeclarationId>,
    catches: &List<CatchArm>,
    blocks: &List<BasicBlockId>,
    tag: u128,
    bounds: Bounds,
)
    ensures
        ({
            let found = spec_catch_targets(program, effects, catches, blocks, tag);
            blocks_fit(*blocks, bounds) ==> targets_fit(found, bounds)
        }),
    decreases effects,
{
    broadcast use {group_shape, group_kinds};

    reveal_with_fuel(spec_catch_targets, 2);
    match effects {
        List::Nil => {},
        List::Cons(effect, tail) => {
            lemma_catch_targets(program, tail, catches, blocks, tag.saturating_add(1), bounds);
            let rest = spec_catch_targets(program, tail, catches, blocks, tag.saturating_add(1));
            lemma_catching_block(program, catches, blocks, **effect, bounds);
            match spec_catching_block(program, catches, blocks, **effect) {
                Some(block) => {},
                None => {},
            }
        },
    }
}

pub proof fn lemma_lower_catches(
    cx: &Context,
    st: State,
    catches: &List<CatchArm>,
    blocks: &List<BasicBlockId>,
    payload: LocalId,
    join: BasicBlockId,
    span: Span,
    low: Lowering,
)
    requires
        is_sound_lowering(low),
    ensures
        ({
            let after = spec_lower_catches(cx, st, catches, blocks, payload, join, span, low);
            &&& grows(st, after)
            &&& fits(after) && is_sound(st) && blocks_fit(*blocks, bounds_of(st))
                && payload.0 < bounds_of(st).locals && join.0 < bounds_of(st).blocks
                ==> is_sound(after)
        }),
    decreases catches,
{
    broadcast use {group_shape, group_kinds};

    reveal_with_fuel(spec_lower_catches, 2);
    let given = st;
    lemma_grows_itself(st);
    match (catches, blocks) {
        (List::Cons(arm, arms), List::Cons(block, rest)) => {
            lemma_set_current(st, **block);
            let next_st = State { current: **block, ..st };
            lemma_grows_on(given, st, next_st);
            let st = next_st;
            let binding = cx.span_at(arm.binding);
            lemma_add_local(
                st, written_name(cx, arm.binding),
                arm.ty.dup(),
                false,
                false,
                binding,
            );
            let (next_st, local) = spec_add_local(
                st, written_name(cx, arm.binding),
                arm.ty.dup(),
                false,
                false,
                binding,
            );
            lemma_grows_on(given, st, next_st);
            let st = next_st;
            lemma_bind_hir_local(cx, st, arm.binding, local);
            let next_st = spec_bind_hir_local(cx, st, arm.binding, local);
            lemma_grows_on(given, st, next_st);
            let st = next_st;
            lemma_statement(st, StatementKind::StorageLive(local), binding);
            let next_st = spec_statement(st, StatementKind::StorageLive(local), binding);
            lemma_grows_on(given, st, next_st);
            let st = next_st;
            lemma_assign(
                st,
                local,
                Rvalue::Cast {
                    operand: Operand::Move(whole(payload)),
                    ty: arm.ty.dup(),
                    kind: CastKind::CheckedDowncast,
                },
                binding,
            );
            let next_st = spec_assign(
                st,
                local,
                Rvalue::Cast {
                    operand: Operand::Move(whole(payload)),
                    ty: arm.ty.dup(),
                    kind: CastKind::CheckedDowncast,
                },
                binding,
            );
            lemma_grows_on(given, st, next_st);
            let st = next_st;
            lemma_set_index(st, arm.block_start);
            let next_st = State { index: arm.block_start, ..st };
            lemma_grows_on(given, st, next_st);
            let st = next_st;
            let next_st = (low.statement)(cx, st);
            lemma_grows_on(given, st, next_st);
            let st = next_st;
            lemma_continue_at(st, join, span);
            let next_st = spec_continue_at(st, join, span);
            lemma_grows_on(given, st, next_st);
            let st = next_st;
            lemma_lower_catches(cx, st, arms, rest, payload, join, span, low);
            let next_st = spec_lower_catches(cx, st, arms, rest, payload, join, span, low);
            lemma_grows_on(given, st, next_st);
            let st = next_st;
        },
        _ => {},
    }
}

pub proof fn lemma_lower_try(cx: &Context, st: State, low: Lowering)
    requires
        is_sound_lowering(low),
    ensures
        ({
            let after = spec_lower_try(cx, st, low);
            &&& grows(st, after)
            &&& fits(after) && is_sound(st)
                ==> is_sound(after)
        }),
{
    broadcast use {group_shape, group_kinds};

    reveal(spec_lower_try);
    let given = st;
    lemma_grows_itself(st);
    let start: usize = st.index;
    let span = cx.span_at(start);
    let block_start: usize = next(start);
    match cx.matching_token(block_start, TokenKind::LeftBrace, TokenKind::RightBrace) {
        Some(block_end) => {
            let catches = spec_catch_arms(cx, next(block_end));
            let effects = spec_effects_of_tokens(cx, block_start, block_end);
            lemma_live(st, Type::ErrorUnion(dup_plain(&effects)), span);
            let (next_st, payload) = spec_live(st, Type::ErrorUnion(dup_plain(&effects)), span);
            lemma_grows_on(given, st, next_st);
            let st = next_st;
            lemma_new_block(st);
            let (next_st, dispatch) = spec_new_block(st);
            lemma_grows_on(given, st, next_st);
            let st = next_st;
            lemma_new_block(st);
            let (next_st, join) = spec_new_block(st);
            lemma_grows_on(given, st, next_st);
            let st = next_st;
            lemma_catch_blocks(st, &catches);
            let (next_st, blocks) = spec_catch_blocks(st, &catches);
            lemma_grows_on(given, st, next_st);
            let st = next_st;
            lemma_push_handler(st, dispatch, payload, dup_plain(&effects));
            let next_st = spec_push_handler(st, dispatch, payload, dup_plain(&effects));
            lemma_grows_on(given, st, next_st);
            let st = next_st;
            lemma_set_index(st, block_start);
            let next_st = State { index: block_start, ..st };
            lemma_grows_on(given, st, next_st);
            let st = next_st;
            let next_st = (low.statement)(cx, st);
            lemma_grows_on(given, st, next_st);
            let st = next_st;
            lemma_pop_handler(st);
            let next_st = spec_pop_handler(st);
            lemma_grows_on(given, st, next_st);
            let st = next_st;
            lemma_continue_at(st, join, span);
            let next_st = spec_continue_at(st, join, span);
            lemma_grows_on(given, st, next_st);
            let st = next_st;
            lemma_set_current(st, dispatch);
            let next_st = State { current: dispatch, ..st };
            lemma_grows_on(given, st, next_st);
            let st = next_st;
            lemma_new_block(st);
            let (next_st, otherwise) = spec_new_block(st);
            lemma_grows_on(given, st, next_st);
            let st = next_st;
            lemma_catch_targets(cx.program, &effects, &catches, &blocks, 0, bounds_of(st));
            lemma_terminate(
                st, TerminatorKind::Switch {
                    value: Operand::Copy(whole(payload)),
                    targets: spec_catch_targets(cx.program, &effects, &catches, &blocks, 0),
                    otherwise,
                },
                span,
            );
            let next_st = spec_terminate(
                st, TerminatorKind::Switch {
                    value: Operand::Copy(whole(payload)),
                    targets: spec_catch_targets(cx.program, &effects, &catches, &blocks, 0),
                    otherwise,
                },
                span,
            );
            lemma_grows_on(given, st, next_st);
            let st = next_st;
            lemma_lower_catches(cx, st, &catches, &blocks, payload, join, span, low);
            let next_st = spec_lower_catches(cx, st, &catches, &blocks, payload, join, span, low);
            lemma_grows_on(given, st, next_st);
            let st = next_st;
            lemma_set_current(st, otherwise);
            let next_st = State { current: otherwise, ..st };
            lemma_grows_on(given, st, next_st);
            let st = next_st;
            if all_declared(cx, &effects) {
                lemma_terminate(st, TerminatorKind::Throw(Operand::Move(whole(payload))), span);
                let next_st = spec_terminate(
                    st,
                    TerminatorKind::Throw(Operand::Move(whole(payload))),
                    span,
                );
                lemma_grows_on(given, st, next_st);
                let st = next_st;
            } else {
                lemma_terminate(st, TerminatorKind::Unreachable, span);
                let next_st = spec_terminate(st, TerminatorKind::Unreachable, span);
                lemma_grows_on(given, st, next_st);
                let st = next_st;
            }
            let next_st = if all_declared(cx, &effects) {
                spec_terminate(st, TerminatorKind::Throw(Operand::Move(whole(payload))), span)
            } else {
                spec_terminate(st, TerminatorKind::Unreachable, span)
            };
            assert(grows(given, next_st));
            let st = next_st;
            lemma_set_current(st, join);
            let next_st = State { current: join, ..st };
            lemma_grows_on(given, st, next_st);
            let st = next_st;
            lemma_set_index(st, spec_behind_catches(&catches, next(block_end)));
            let next_st = State { index: spec_behind_catches(&catches, next(block_end)), ..st };
            lemma_grows_on(given, st, next_st);
            let st = next_st;
        },
        _ => {
            lemma_set_index(st, next(start));
            let next_st = State { index: next(start), ..st };
            lemma_grows_on(given, st, next_st);
            let st = next_st;
        },
    }
}

pub proof fn lemma_lower_loop_control(cx: &Context, st: State)
    ensures
        ({
            let after = spec_lower_loop_control(cx, st);
            &&& grows(st, after)
            &&& fits(after) && is_sound(st)
                ==> is_sound(after)
        }),
{
    broadcast use {group_shape, group_kinds};

    reveal(spec_lower_loop_control);
    let given = st;
    lemma_grows_itself(st);
    let start: usize = st.index;
    lemma_innermost_loop(st);
    if let Some(target) = spec_innermost_loop(st) {
        lemma_active_disposals(st, target.scope_depth);
        let managed = spec_active_disposals(st, target.scope_depth);
        lemma_lower_async_disposals(cx, st, &managed);
        let next_st = spec_lower_async_disposals(cx, st, &managed);
        lemma_grows_on(given, st, next_st);
        let st = next_st;
        let block = if cx.is(start, TokenKind::Break) {
            target.exit
        } else {
            target.next
        };
        lemma_continue_at(st, block, cx.span_at(start));
        let next_st = spec_continue_at(st, block, cx.span_at(start));
        lemma_grows_on(given, st, next_st);
        let st = next_st;
    }
    let next_st = if let Some(target) = spec_innermost_loop(st) {
        let managed = spec_active_disposals(st, target.scope_depth);
        let st = spec_lower_async_disposals(cx, st, &managed);
        let block = if cx.is(start, TokenKind::Break) {
            target.exit
        } else {
            target.next
        };
        spec_continue_at(st, block, cx.span_at(start))
    } else {
        st
    };
    assert(grows(given, next_st));
    let st = next_st;
    lemma_set_index(st, next(start));
    let next_st = State { index: next(start), ..st };
    lemma_grows_on(given, st, next_st);
    let st = next_st;
    if spec_here(cx, st) == Some(TokenKind::Semicolon) {
        lemma_set_index(st, next(st.index));
        let next_st = State { index: next(st.index), ..st };
        lemma_grows_on(given, st, next_st);
        let st = next_st;
    }
}

pub proof fn lemma_local_at(cx: &Context, st: State, index: usize)
    ensures
        ({
            let found = spec_local_at(cx, st, index);
            is_sound(st) ==> optional_local_fits(found, bounds_of(st))
        }),
{
    broadcast use {group_shape, group_kinds};

    reveal(spec_local_at);
    match cx.name_at(index) {
        Some(name) => {
            lemma_named_local(st, name);
        },
        None => {},
    }
}

pub proof fn lemma_borrow_initializer(cx: &Context, st: State, equal: usize, end: usize)
    ensures
        ({
            let found = spec_borrow_initializer(cx, st, equal, end);
            is_sound(st)
                ==> (match found { Some(some) => initializer_fits(some, bounds_of(st)), None => true })
        }),
{
    broadcast use {group_shape, group_kinds};

    reveal(spec_borrow_initializer);
    let mutable = cx.is(behind(equal, 2), TokenKind::Mut);
    let name: usize = if mutable {
        behind(equal, 3)
    } else {
        behind(equal, 2)
    };
    if next(name) != end {
    } else {
        lemma_local_at(cx, st, name);
        match spec_local_at(cx, st, name) {
            Some(local) => {},
            None => {},
        }
    }
}

pub proof fn lemma_move_initializer(cx: &Context, st: State, equal: usize, end: usize)
    ensures
        ({
            let found = spec_move_initializer(cx, st, equal, end);
            is_sound(st)
                ==> (match found { Some(some) => initializer_fits(some, bounds_of(st)), None => true })
        }),
{
    broadcast use {group_shape, group_kinds};

    reveal(spec_move_initializer);
    if behind(equal, 3) != end {
    } else {
        lemma_local_at(cx, st, behind(equal, 2));
        match spec_local_at(cx, st, behind(equal, 2)) {
            Some(local) => {},
            None => {},
        }
    }
}

pub proof fn lemma_name_initializer(cx: &Context, st: State, equal: usize, end: usize)
    ensures
        ({
            let found = spec_name_initializer(cx, st, equal, end);
            is_sound(st)
                ==> (match found { Some(some) => initializer_fits(some, bounds_of(st)), None => true })
        }),
{
    broadcast use {group_shape, group_kinds};

    reveal(spec_name_initializer);
    if behind(equal, 2) != end {
    } else {
        lemma_local_at(cx, st, next(equal));
        match spec_local_at(cx, st, next(equal)) {
            Some(local) => {
                let ty = spec_type_of_local(st, local);
                let kind = if cx.facts.is_copy(&ty) {
                    InitializerKind::Copy
                } else {
                    InitializerKind::Move
                };
            },
            None => {},
        }
    }
}

pub proof fn lemma_infer_initializer(cx: &Context, st: State, equal: usize, end: usize)
    ensures
        ({
            let found = spec_infer_initializer(cx, st, equal, end);
            is_sound(st) ==> initializer_fits(found, bounds_of(st))
        }),
{
    broadcast use {group_shape, group_kinds};

    reveal(spec_infer_initializer);
    if cx.token(next(equal)).is_none() {
    } else {
        if cx.is(next(equal), TokenKind::Amp) {
            lemma_borrow_initializer(cx, st, equal, end);
        } else {
            if cx.is(next(equal), TokenKind::Move) {
                lemma_move_initializer(cx, st, equal, end);
            }
        }
    }
    let special = if cx.token(next(equal)).is_none() {
        Some(unknown_initializer())
    } else if cx.is(next(equal), TokenKind::Amp) {
        spec_borrow_initializer(cx, st, equal, end)
    } else if cx.is(next(equal), TokenKind::Move) {
        spec_move_initializer(cx, st, equal, end)
    } else {
        None
    };
    match special {
        Some(initializer) => {},
        None => {
            lemma_name_initializer(cx, st, equal, end);
            match spec_name_initializer(cx, st, equal, end) {
                Some(initializer) => {},
                None => {},
            }
        },
    }
}

pub proof fn lemma_assign_simple_initializer(
    st: State,
    local: LocalId,
    ty: &Type,
    inferred: &Type,
    source: InitializerSource,
)
    ensures
        ({
            let after = spec_assign_simple_initializer(st, local, ty, inferred, source);
            &&& grows(st, after)
            &&& fits(after) && is_sound(st) && local.0 < bounds_of(st).locals
                && initializer_source_fits(source, bounds_of(st))
                ==> is_sound(after)
        }),
{
    broadcast use {group_shape, group_kinds};

    reveal(spec_assign_simple_initializer);
    let given = st;
    lemma_grows_itself(st);
    match source.kind {
        InitializerKind::Borrow { mutable } => {
            lemma_fresh_region(st);
            let (next_st, region) = spec_fresh_region(st);
            lemma_grows_on(given, st, next_st);
            let st = next_st;
            lemma_statement(
                st, StatementKind::Borrow {
                    destination: local,
                    kind: crate::lowering::emit::borrow_kind(mutable),
                    place: whole(source.local),
                    region,
                },
                source.span,
            );
            let next_st = spec_statement(
                st, StatementKind::Borrow {
                    destination: local,
                    kind: crate::lowering::emit::borrow_kind(mutable),
                    place: whole(source.local),
                    region,
                },
                source.span,
            );
            lemma_grows_on(given, st, next_st);
            let st = next_st;
        },
        InitializerKind::Copy => {
            lemma_assign(
                st,
                local,
                converted(Operand::Copy(whole(source.local)), inferred, ty),
                source.span,
            );
            let next_st = spec_assign(
                st,
                local,
                converted(Operand::Copy(whole(source.local)), inferred, ty),
                source.span,
            );
            lemma_grows_on(given, st, next_st);
            let st = next_st;
        },
        InitializerKind::Move => {
            lemma_assign(
                st,
                local,
                converted(Operand::Move(whole(source.local)), inferred, ty),
                source.span,
            );
            let next_st = spec_assign(
                st,
                local,
                converted(Operand::Move(whole(source.local)), inferred, ty),
                source.span,
            );
            lemma_grows_on(given, st, next_st);
            let st = next_st;
        },
    }
}

pub proof fn lemma_assign_remaining_initializer(
    cx: &Context,
    st: State,
    local: LocalId,
    ty: &Type,
    initializer: Option<usize>,
    complex: Option<Value>,
    token: usize,
)
    ensures
        ({
            let after = spec_assign_remaining_initializer(
                cx,
                st,
                local,
                ty,
                initializer,
                complex,
                token,
            );
            &&& grows(st, after)
            &&& fits(after) && is_sound(st) && local.0 < bounds_of(st).locals
                && optional_value_fits(complex, bounds_of(st))
                ==> is_sound(after)
        }),
{
    broadcast use {group_shape, group_kinds};

    reveal(spec_assign_remaining_initializer);
    let given = st;
    lemma_grows_itself(st);
    match complex {
        Some(value) => {
            lemma_assign(st, local, converted(value.operand, &value.ty, ty), cx.span_at(token));
            let next_st = spec_assign(
                st,
                local,
                converted(value.operand, &value.ty, ty),
                cx.span_at(token),
            );
            lemma_grows_on(given, st, next_st);
            let st = next_st;
        },
        None => {
            match initializer {
                Some(index) => {
                    if let Some(constant) = constant(cx, index, ty) {
                        lemma_assign(
                            st,
                            local,
                            Rvalue::Use(Operand::Constant(constant)),
                            cx.span_at(index),
                        );
                        let next_st = spec_assign(
                            st,
                            local,
                            Rvalue::Use(Operand::Constant(constant)),
                            cx.span_at(index),
                        );
                        lemma_grows_on(given, st, next_st);
                        let st = next_st;
                    }
                },
                _ => {},
            }
        },
    }
}

pub proof fn lemma_complex_initializer(
    cx: &Context,
    st: State,
    initializer: &Initializer,
    annotation: Option<&Type>,
    equal: usize,
    end: usize,
    low: Lowering,
)
    requires
        is_sound_lowering(low),
    ensures
        ({
            let after = spec_complex_initializer(cx, st, initializer, annotation, equal, end, low);
            &&& grows(st, after.0)
            &&& fits(after.0) && is_sound(st) && initializer_fits(*initializer, bounds_of(st))
                ==> is_sound(after.0) && optional_value_fits(after.1, bounds_of(after.0))
        }),
{
    broadcast use {group_shape, group_kinds};

    reveal(spec_complex_initializer);
    let given = st;
    lemma_grows_itself(st);
    if initializer.source.is_some() || is_constant_initializer(cx, equal, end, &initializer.ty) {
    } else {
        let (next_st, _) = (low.expression)(cx, st, next(equal), end, annotation);
        lemma_grows_on(given, st, next_st);
        let st = next_st;
    }
}

pub proof fn lemma_declare_local(
    cx: &Context,
    st: State,
    pattern: Option<&HirBindingPattern>,
    token: usize,
    mutable: bool,
    ty: Type,
)
    ensures
        ({
            let after = spec_declare_local(cx, st, pattern, token, mutable, ty);
            &&& grows(st, after.0)
            &&& fits(after.0) && is_sound(st)
                ==> is_sound(after.0) && after.1.0 < bounds_of(after.0).locals
        }),
{
    broadcast use {group_shape, group_kinds};

    reveal(spec_declare_local);
    let given = st;
    lemma_grows_itself(st);
    let declared = spec_declared_local(cx, pattern, token, mutable);
    lemma_add_local(st, declared.name, ty, declared.mutable, false, declared.origin);
    let (next_st, local) = spec_add_local(
        st,
        declared.name,
        ty,
        declared.mutable,
        false,
        declared.origin,
    );
    lemma_grows_on(given, st, next_st);
    let st = next_st;
    match pattern {
        Some(pattern) => {
            lemma_bind_hir(st, pattern.root, local);
            let next_st = spec_bind_hir(st, pattern.root, local);
            lemma_grows_on(given, st, next_st);
            let st = next_st;
        },
        None => {
            lemma_bind_hir_local(cx, st, token, local);
            let next_st = spec_bind_hir_local(cx, st, token, local);
            lemma_grows_on(given, st, next_st);
            let st = next_st;
        },
    }
    let next_st = match pattern {
        Some(pattern) => spec_bind_hir(st, pattern.root, local),
        None => spec_bind_hir_local(cx, st, token, local),
    };
    assert(grows(given, next_st));
    let st = next_st;
    lemma_statement(st, StatementKind::StorageLive(local), declared.origin);
    let next_st = spec_statement(st, StatementKind::StorageLive(local), declared.origin);
    lemma_grows_on(given, st, next_st);
    let st = next_st;
}

pub proof fn lemma_lower_initialized(
    cx: &Context,
    st: State,
    pattern: Option<&HirBindingPattern>,
    token: usize,
    mutable: bool,
    equal: usize,
    end: usize,
    low: Lowering,
)
    requires
        is_sound_lowering(low),
    ensures
        ({
            let after = spec_lower_initialized(cx, st, pattern, token, mutable, equal, end, low);
            &&& grows(st, after)
            &&& fits(after) && is_sound(st)
                ==> is_sound(after)
        }),
{
    broadcast use {group_shape, group_kinds};

    reveal(spec_lower_initialized);
    let given = st;
    lemma_grows_itself(st);
    let annotated = annotation(cx, token, equal);
    lemma_infer_initializer(cx, st, equal, end);
    let initializer = spec_infer_initializer(cx, st, equal, end);
    lemma_complex_initializer(
        cx,
        st,
        &initializer,
        type_ref(&annotated),
        equal,
        end,
        low,
    );
    let (next_st, complex) = spec_complex_initializer(
        cx,
        st,
        &initializer,
        type_ref(&annotated),
        equal,
        end,
        low,
    );
    lemma_grows_on(given, st, next_st);
    let st = next_st;
    let inferred = match &complex {
        Some(value) => value.ty.dup(),
        None => initializer.ty.dup(),
    };
    let ty = match annotated {
        Some(ty) => ty,
        None => inferred.dup(),
    };
    lemma_declare_local(cx, st, pattern, token, mutable, ty.dup());
    let (next_st, local) = spec_declare_local(cx, st, pattern, token, mutable, ty.dup());
    lemma_grows_on(given, st, next_st);
    let st = next_st;
    match initializer.source {
        Some(source) => {
            lemma_assign_simple_initializer(st, local, &ty, &inferred, source);
            let next_st = spec_assign_simple_initializer(st, local, &ty, &inferred, source);
            lemma_grows_on(given, st, next_st);
            let st = next_st;
        },
        None => {
            let index = if cx.token(next(equal)).is_some() {
                Some(next(equal))
            } else {
                None
            };
            lemma_assign_remaining_initializer(cx, st, local, &ty, index, complex, token);
            let next_st = spec_assign_remaining_initializer(
                cx,
                st,
                local,
                &ty,
                index,
                complex,
                token,
            );
            lemma_grows_on(given, st, next_st);
            let st = next_st;
        },
    }
}

pub proof fn lemma_lower_local(cx: &Context, st: State, low: Lowering)
    requires
        is_sound_lowering(low),
    ensures
        ({
            let after = spec_lower_local(cx, st, low);
            &&& grows(st, after)
            &&& fits(after) && is_sound(st)
                ==> is_sound(after)
        }),
{
    broadcast use {group_shape, group_kinds};

    reveal(spec_lower_local);
    let given = st;
    lemma_grows_itself(st);
    let start: usize = st.index;
    let mutable = cx.is(start, TokenKind::Let);
    let token: usize = if cx.is(next(start), TokenKind::Mut) {
        behind(start, 2)
    } else {
        next(start)
    };
    let end: usize = cx.statement_end(start);
    if cx.token(token).is_none() {
        lemma_set_index(st, next(start));
        let next_st = State { index: next(start), ..st };
        lemma_grows_on(given, st, next_st);
        let st = next_st;
    } else {
        let pattern = cx.binding_pattern_at(next(start));
        match cx.find_top_level(token, end, TokenKind::Equal) {
            Some(equal) => {
                lemma_lower_initialized(cx, st, pattern, token, mutable, equal, end, low);
                let next_st = spec_lower_initialized(
                    cx,
                    st,
                    pattern,
                    token,
                    mutable,
                    equal,
                    end,
                    low,
                );
                lemma_grows_on(given, st, next_st);
                let st = next_st;
            },
            None => {
                lemma_declare_local(cx, st, pattern, token, mutable, Type::Error);
                let (next_st, _) = spec_declare_local(cx, st, pattern, token, mutable, Type::Error);
                lemma_grows_on(given, st, next_st);
                let st = next_st;
            },
        }
        let next_st = match cx.find_top_level(token, end, TokenKind::Equal) {
            Some(equal) => {
                spec_lower_initialized(cx, st, pattern, token, mutable, equal, end, low)
            },
            None => spec_declare_local(cx, st, pattern, token, mutable, Type::Error).0,
        };
        assert(grows(given, next_st));
        let st = next_st;
        if let Some(pattern) = pattern {
            lemma_lower_binding_pattern(cx, st, pattern, low);
            let next_st = spec_lower_binding_pattern(cx, st, pattern, low);
            lemma_grows_on(given, st, next_st);
            let st = next_st;
        }
        let next_st = if let Some(pattern) = pattern {
            spec_lower_binding_pattern(cx, st, pattern, low)
        } else {
            st
        };
        assert(grows(given, next_st));
        let st = next_st;
        lemma_set_index(st, cx.past_semicolon(end));
        let next_st = State { index: cx.past_semicolon(end), ..st };
        lemma_grows_on(given, st, next_st);
        let st = next_st;
    }
}

pub proof fn lemma_lower_using(cx: &Context, st: State, awaited: bool, low: Lowering)
    requires
        is_sound_lowering(low),
    ensures
        ({
            let after = spec_lower_using(cx, st, awaited, low);
            &&& grows(st, after)
            &&& fits(after) && is_sound(st)
                ==> is_sound(after)
        }),
{
    broadcast use {group_shape, group_kinds};

    reveal(spec_lower_using);
    let given = st;
    lemma_grows_itself(st);
    let start: usize = st.index;
    let name: usize = if awaited {
        behind(start, 2)
    } else {
        next(start)
    };
    if cx.token(name).is_none() {
        lemma_set_index(st, next(start));
        let next_st = State { index: next(start), ..st };
        lemma_grows_on(given, st, next_st);
        let st = next_st;
    } else {
        let end: usize = cx.statement_end(start);
        match spec_first_equal(cx, start, end) {
            Some(equal) => {
                let (next_st, lowered) = (low.expression)(cx, st, next(equal), end, None);
                lemma_grows_on(given, st, next_st);
                let st = next_st;
                let value = match lowered {
                    Some(value) => value,
                    None => Value { operand: undefined(Type::Error), ty: Type::Error },
                };
                let span = cx.span_at(name);
                lemma_add_local(st, written_name(cx, name), value.ty, false, false, span);
                let (next_st, local) = spec_add_local(
                    st,
                    written_name(cx, name),
                    value.ty,
                    false,
                    false,
                    span,
                );
                lemma_grows_on(given, st, next_st);
                let st = next_st;
                lemma_bind_hir_local(cx, st, name, local);
                let next_st = spec_bind_hir_local(cx, st, name, local);
                lemma_grows_on(given, st, next_st);
                let st = next_st;
                lemma_statement(st, StatementKind::StorageLive(local), span);
                let next_st = spec_statement(st, StatementKind::StorageLive(local), span);
                lemma_grows_on(given, st, next_st);
                let st = next_st;
                lemma_assign(st, local, Rvalue::Use(value.operand), span);
                let next_st = spec_assign(st, local, Rvalue::Use(value.operand), span);
                lemma_grows_on(given, st, next_st);
                let st = next_st;
                if awaited {
                    lemma_manage(st, local, name);
                    let next_st = spec_manage(st, local, name);
                    lemma_grows_on(given, st, next_st);
                    let st = next_st;
                }
                let next_st = if awaited {
                    spec_manage(st, local, name)
                } else {
                    st
                };
                assert(grows(given, next_st));
                let st = next_st;
                lemma_set_index(st, cx.past(end));
                let next_st = State { index: cx.past(end), ..st };
                lemma_grows_on(given, st, next_st);
                let st = next_st;
            },
            _ => {
                lemma_set_index(st, cx.past(end));
                let next_st = State { index: cx.past(end), ..st };
                lemma_grows_on(given, st, next_st);
                let st = next_st;
            },
        }
    }
}

pub proof fn lemma_lower_explicit_move(cx: &Context, st: State)
    ensures
        ({
            let after = spec_lower_explicit_move(cx, st);
            &&& grows(st, after)
            &&& fits(after) && is_sound(st)
                ==> is_sound(after)
        }),
{
    broadcast use {group_shape, group_kinds};

    reveal(spec_lower_explicit_move);
    let given = st;
    lemma_grows_itself(st);
    let start: usize = st.index;
    lemma_local_at(cx, st, next(start));
    if let Some(source) = spec_local_at(cx, st, next(start)) {
        lemma_computed(
            st, spec_type_of_local(st, source),
            Rvalue::Use(Operand::Move(whole(source))),
            cx.span_at(start),
        );
        let (next_st, _) = spec_computed(
            st, spec_type_of_local(st, source),
            Rvalue::Use(Operand::Move(whole(source))),
            cx.span_at(start),
        );
        lemma_grows_on(given, st, next_st);
        let st = next_st;
    }
    let next_st = if let Some(source) = spec_local_at(cx, st, next(start)) {
        spec_computed(
            st, spec_type_of_local(st, source),
            Rvalue::Use(Operand::Move(whole(source))),
            cx.span_at(start),
        ).0
    } else {
        st
    };
    assert(grows(given, next_st));
    let st = next_st;
    lemma_set_index(st, behind(start, 2));
    let next_st = State { index: behind(start, 2), ..st };
    lemma_grows_on(given, st, next_st);
    let st = next_st;
}

pub proof fn lemma_global_left(
    cx: &Context,
    st: State,
    start: usize,
    assignment: usize,
    operator: Option<BinaryOperator>,
    ty: &Type,
    low: Lowering,
)
    requires
        is_sound_lowering(low),
    ensures
        ({
            let after = spec_global_left(cx, st, start, assignment, operator, ty, low);
            &&& grows(st, after.0)
            &&& fits(after.0) && is_sound(st)
                ==> is_sound(after.0) && optional_value_fits(after.1, bounds_of(after.0))
        }),
{
    broadcast use {group_shape, group_kinds};

    reveal(spec_global_left);
    let given = st;
    lemma_grows_itself(st);
    if operator.is_none() {
    } else {
        let (next_st, _) = (low.expression)(cx, st, start, assignment, Some(ty));
        lemma_grows_on(given, st, next_st);
        let st = next_st;
    }
}

pub proof fn lemma_assign_global(
    cx: &Context,
    st: State,
    global: Global,
    start: usize,
    assignment: usize,
    operator: Option<BinaryOperator>,
    end: usize,
    low: Lowering,
)
    requires
        is_sound_lowering(low),
    ensures
        ({
            let after = spec_assign_global(cx, st, global, start, assignment, operator, end, low);
            &&& grows(st, after)
            &&& fits(after) && is_sound(st)
                ==> is_sound(after)
        }),
{
    broadcast use {group_shape, group_kinds};

    reveal(spec_assign_global);
    let given = st;
    lemma_grows_itself(st);
    let span = cx.span_at(start);
    lemma_global_left(cx, st, start, assignment, operator, &global.ty, low);
    let (next_st, left) = spec_global_left(cx, st, start, assignment, operator, &global.ty, low);
    lemma_grows_on(given, st, next_st);
    let st = next_st;
    let (next_st, attempt) = (low.expression)(cx, st, next(assignment), end, Some(&global.ty));
    lemma_grows_on(given, st, next_st);
    let st = next_st;
    match attempt {
        Some(value) => {
            let stored = assigned_value(operator, left, value, &global.ty);
            lemma_computed(st, global.ty, stored, span);
            let (next_st, operand) = spec_computed(st, global.ty, stored, span);
            lemma_grows_on(given, st, next_st);
            let st = next_st;
            lemma_computed(
                st, primitive(PrimitiveType::Bool),
                Rvalue::RawOperation {
                    operation: RawOperation::GlobalStore(global.declaration),
                    operands: one(operand),
                    ty: primitive(PrimitiveType::Bool),
                },
                span,
            );
            let (next_st, _) = spec_computed(
                st, primitive(PrimitiveType::Bool),
                Rvalue::RawOperation {
                    operation: RawOperation::GlobalStore(global.declaration),
                    operands: one(operand),
                    ty: primitive(PrimitiveType::Bool),
                },
                span,
            );
            lemma_grows_on(given, st, next_st);
            let st = next_st;
        },
        _ => {},
    }
}

pub proof fn lemma_lower_pointer_target(
    cx: &Context,
    st: State,
    start: usize,
    end: usize,
    low: Lowering,
)
    requires
        is_sound_lowering(low),
    ensures
        ({
            let after = spec_lower_pointer_target(cx, st, start, end, low);
            &&& grows(st, after.0)
            &&& fits(after.0) && is_sound(st)
                ==> is_sound(after.0) && optional_typed_place_fits(after.1, bounds_of(after.0))
        }),
{
    broadcast use {group_shape, group_kinds};

    reveal(spec_lower_pointer_target);
    let given = st;
    lemma_grows_itself(st);
    let (next_st, attempt) = (low.expression)(cx, st, next(start), end, None);
    lemma_grows_on(given, st, next_st);
    let st = next_st;
    match attempt {
        Some(pointer) => {
            match (operand_place(pointer.operand), pointee_of(pointer.ty)) {
                (Some(place), Some(ty)) => {},
                _ => {},
            }
        },
        _ => {},
    }
}

pub proof fn lemma_lower_assignment_place(
    cx: &Context,
    st: State,
    start: usize,
    end: usize,
    low: Lowering,
)
    requires
        is_sound_lowering(low),
    ensures
        ({
            let after = spec_lower_assignment_place(cx, st, start, end, low);
            &&& grows(st, after.0)
            &&& fits(after.0) && is_sound(st)
                ==> is_sound(after.0) && optional_typed_place_fits(after.1, bounds_of(after.0))
        }),
{
    broadcast use {group_shape, group_kinds};

    reveal(spec_lower_assignment_place);
    let given = st;
    lemma_grows_itself(st);
    if cx.is(start, TokenKind::Star) {
        lemma_lower_pointer_target(cx, st, start, end, low);
        let (next_st, _) = spec_lower_pointer_target(cx, st, start, end, low);
        lemma_grows_on(given, st, next_st);
        let st = next_st;
    } else {
        let (next_st, attempt) = (low.expression)(cx, st, start, end, None);
        lemma_grows_on(given, st, next_st);
        let st = next_st;
        match attempt {
            Some(value) => {
                match operand_place(value.operand) {
                    Some(place) => {},
                    None => {},
                }
            },
            _ => {},
        }
    }
}

pub proof fn lemma_assign_place(
    cx: &Context,
    st: State,
    start: usize,
    assignment: usize,
    operator: Option<BinaryOperator>,
    end: usize,
    low: Lowering,
)
    requires
        is_sound_lowering(low),
    ensures
        ({
            let after = spec_assign_place(cx, st, start, assignment, operator, end, low);
            &&& grows(st, after)
            &&& fits(after) && is_sound(st)
                ==> is_sound(after)
        }),
{
    broadcast use {group_shape, group_kinds};

    reveal(spec_assign_place);
    let given = st;
    lemma_grows_itself(st);
    lemma_lower_assignment_place(cx, st, start, assignment, low);
    let (next_st, attempt) = spec_lower_assignment_place(cx, st, start, assignment, low);
    lemma_grows_on(given, st, next_st);
    let st = next_st;
    match attempt {
        Some(destination) => {
            let (next_st, attempt) = (low.expression)(cx, st, next(assignment), end, Some(&destination.ty));
            lemma_grows_on(given, st, next_st);
            let st = next_st;
            match attempt {
                Some(value) => {
                    let stored = stored_value(operator, &destination, value);
                    lemma_statement(
                        st,
                        StatementKind::Assign(destination.place, stored),
                        cx.span_at(start),
                    );
                    let next_st = spec_statement(
                        st,
                        StatementKind::Assign(destination.place, stored),
                        cx.span_at(start),
                    );
                    lemma_grows_on(given, st, next_st);
                    let st = next_st;
                },
                _ => {},
            }
        },
        _ => {},
    }
}

pub proof fn lemma_lower_discarded(
    cx: &Context,
    st: State,
    start: usize,
    end: usize,
    low: Lowering,
)
    requires
        is_sound_lowering(low),
    ensures
        ({
            let after = spec_lower_discarded(cx, st, start, end, low);
            &&& grows(st, after)
            &&& fits(after) && is_sound(st)
                ==> is_sound(after)
        }),
{
    broadcast use {group_shape, group_kinds};

    reveal(spec_lower_discarded);
    let given = st;
    lemma_grows_itself(st);
    let (next_st, attempt) = (low.expression)(cx, st, start, end, None);
    lemma_grows_on(given, st, next_st);
    let st = next_st;
    match attempt {
        Some(value) => {
            if !is_void(&value.ty) {
                lemma_computed(st, value.ty, Rvalue::Use(value.operand), cx.span_at(start));
                let (next_st, _) = spec_computed(
                    st,
                    value.ty,
                    Rvalue::Use(value.operand),
                    cx.span_at(start),
                );
                lemma_grows_on(given, st, next_st);
                let st = next_st;
            }
        },
        _ => {},
    }
}

pub proof fn lemma_lower_expression_statement(cx: &Context, st: State, low: Lowering)
    requires
        is_sound_lowering(low),
    ensures
        ({
            let after = spec_lower_expression_statement(cx, st, low);
            &&& grows(st, after)
            &&& fits(after) && is_sound(st)
                ==> is_sound(after)
        }),
{
    broadcast use {group_shape, group_kinds};

    reveal(spec_lower_expression_statement);
    let given = st;
    lemma_grows_itself(st);
    let start: usize = st.index;
    let end: usize = cx.statement_end(start);
    match cx.find_assignment(start, end) {
        Some(assignment) => {
            match global_declaration(cx, start, assignment.index) {
                Some(global) => {
                    lemma_assign_global(
                        cx,
                        st,
                        global,
                        start,
                        assignment.index,
                        assignment.operator,
                        end,
                        low,
                    );
                    let next_st = spec_assign_global(
                        cx,
                        st,
                        global,
                        start,
                        assignment.index,
                        assignment.operator,
                        end,
                        low,
                    );
                    lemma_grows_on(given, st, next_st);
                    let st = next_st;
                },
                None => {
                    lemma_assign_place(
                        cx,
                        st,
                        start,
                        assignment.index,
                        assignment.operator,
                        end,
                        low,
                    );
                    let next_st = spec_assign_place(
                        cx,
                        st,
                        start,
                        assignment.index,
                        assignment.operator,
                        end,
                        low,
                    );
                    lemma_grows_on(given, st, next_st);
                    let st = next_st;
                },
            }
        },
        None => {
            lemma_lower_discarded(cx, st, start, end, low);
            let next_st = spec_lower_discarded(cx, st, start, end, low);
            lemma_grows_on(given, st, next_st);
            let st = next_st;
        },
    }
    let next_st = match cx.find_assignment(start, end) {
        Some(assignment) => {
            match global_declaration(cx, start, assignment.index) {
                Some(global) => {
                    spec_assign_global(
                        cx,
                        st,
                        global,
                        start,
                        assignment.index,
                        assignment.operator,
                        end,
                        low,
                    )
                },
                None => {
                    spec_assign_place(
                        cx,
                        st,
                        start,
                        assignment.index,
                        assignment.operator,
                        end,
                        low,
                    )
                },
            }
        },
        None => spec_lower_discarded(cx, st, start, end, low),
    };
    assert(grows(given, next_st));
    let st = next_st;
    lemma_set_index(st, cx.past_semicolon(end));
    let next_st = State { index: cx.past_semicolon(end), ..st };
    lemma_grows_on(given, st, next_st);
    let st = next_st;
}

pub proof fn lemma_dispose_all(cx: &Context, st: State)
    ensures
        ({
            let after = spec_dispose_all(cx, st);
            &&& grows(st, after)
            &&& fits(after) && is_sound(st)
                ==> is_sound(after)
        }),
{
    broadcast use {group_shape, group_kinds};

    reveal(spec_dispose_all);
    let given = st;
    lemma_grows_itself(st);
    lemma_active_disposals(st, 0);
    let managed = spec_active_disposals(st, 0);
    lemma_lower_async_disposals(cx, st, &managed);
    let next_st = spec_lower_async_disposals(cx, st, &managed);
    lemma_grows_on(given, st, next_st);
    let st = next_st;
}

pub proof fn lemma_lower_throw(cx: &Context, st: State, low: Lowering)
    requires
        is_sound_lowering(low),
    ensures
        ({
            let after = spec_lower_throw(cx, st, low);
            &&& grows(st, after)
            &&& fits(after) && is_sound(st)
                ==> is_sound(after)
        }),
{
    broadcast use {group_shape, group_kinds};

    reveal(spec_lower_throw);
    let given = st;
    lemma_grows_itself(st);
    let start: usize = st.index;
    let end: usize = cx.statement_end(start);
    let (next_st, thrown) = (low.expression)(cx, st, next(start), end, None);
    lemma_grows_on(given, st, next_st);
    let st = next_st;
    let kind = match thrown {
        Some(value) => TerminatorKind::Throw(value.operand),
        None => TerminatorKind::Unreachable,
    };
    lemma_dispose_all(cx, st);
    let next_st = spec_dispose_all(cx, st);
    lemma_grows_on(given, st, next_st);
    let st = next_st;
    lemma_terminate(st, kind, cx.span_at(start));
    let next_st = spec_terminate(st, kind, cx.span_at(start));
    lemma_grows_on(given, st, next_st);
    let st = next_st;
    lemma_set_index(st, cx.past(end));
    let next_st = State { index: cx.past(end), ..st };
    lemma_grows_on(given, st, next_st);
    let st = next_st;
}

pub proof fn lemma_lower_suspend(cx: &Context, st: State, low: Lowering)
    requires
        is_sound_lowering(low),
    ensures
        ({
            let after = spec_lower_suspend(cx, st, low);
            &&& grows(st, after)
            &&& fits(after) && is_sound(st)
                ==> is_sound(after)
        }),
{
    broadcast use {group_shape, group_kinds};

    reveal(spec_lower_suspend);
    let given = st;
    lemma_grows_itself(st);
    let start: usize = st.index;
    let end: usize = cx.statement_end(start);
    let wait: usize = if cx.is(start, TokenKind::Try) && cx.is(next(start), TokenKind::Await) {
        next(start)
    } else {
        start
    };
    lemma_lower_await(cx, st, wait, end, low);
    let (next_st, _) = spec_lower_await(cx, st, wait, end, low);
    lemma_grows_on(given, st, next_st);
    let st = next_st;
    lemma_set_index(st, cx.past(end));
    let next_st = State { index: cx.past(end), ..st };
    lemma_grows_on(given, st, next_st);
    let st = next_st;
}

pub proof fn lemma_returned_operand(cx: &Context, st: State, value: Option<Value>, span: Span)
    ensures
        ({
            let after = spec_returned_operand(cx, st, value, span);
            &&& grows(st, after.0)
            &&& fits(after.0) && is_sound(st) && optional_value_fits(value, bounds_of(st))
                ==> is_sound(after.0) && optional_operand_fits(after.1, bounds_of(after.0))
        }),
{
    broadcast use {group_shape, group_kinds};

    reveal(spec_returned_operand);
    let given = st;
    lemma_grows_itself(st);
    match value {
        Some(value) => {
            if crate::hir::same_type(&value.ty, &cx.return_type) {
            } else {
                lemma_computed(
                    st, cx.return_type.dup(),
                    Rvalue::Cast {
                        operand: value.operand,
                        ty: cx.return_type.dup(),
                        kind: mir_cast_kind(&value.ty, &cx.return_type),
                    },
                    span,
                );
                let (next_st, operand) = spec_computed(
                    st, cx.return_type.dup(),
                    Rvalue::Cast {
                        operand: value.operand,
                        ty: cx.return_type.dup(),
                        kind: mir_cast_kind(&value.ty, &cx.return_type),
                    },
                    span,
                );
                lemma_grows_on(given, st, next_st);
                let st = next_st;
            }
        },
        _ => {},
    }
}

pub proof fn lemma_lower_return(cx: &Context, st: State, low: Lowering)
    requires
        is_sound_lowering(low),
    ensures
        ({
            let after = spec_lower_return(cx, st, low);
            &&& grows(st, after)
            &&& fits(after) && is_sound(st)
                ==> is_sound(after)
        }),
{
    broadcast use {group_shape, group_kinds};

    reveal(spec_lower_return);
    let given = st;
    lemma_grows_itself(st);
    let start: usize = st.index;
    let span = cx.span_at(start);
    let end: usize = cx.statement_end(start);
    lemma_sound_fields(st);
    if let Some(finish) = st.finish {
        lemma_terminate(st, TerminatorKind::Goto(finish), span);
        let next_st = spec_terminate(st, TerminatorKind::Goto(finish), span);
        lemma_grows_on(given, st, next_st);
        let st = next_st;
        lemma_set_index(st, cx.past(end));
        let next_st = State { index: cx.past(end), ..st };
        lemma_grows_on(given, st, next_st);
        let st = next_st;
    } else {
        let (next_st, value) = (low.expression)(cx, st, next(start), end, Some(&cx.return_type));
        lemma_grows_on(given, st, next_st);
        let st = next_st;
        lemma_returned_operand(cx, st, value, span);
        let (next_st, operand) = spec_returned_operand(cx, st, value, span);
        lemma_grows_on(given, st, next_st);
        let st = next_st;
        let kind = if operand.is_none() && !is_void(&cx.return_type) {
            TerminatorKind::Unreachable
        } else {
            TerminatorKind::Return(operand)
        };
        lemma_dispose_all(cx, st);
        let next_st = spec_dispose_all(cx, st);
        lemma_grows_on(given, st, next_st);
        let st = next_st;
        lemma_terminate(st, kind, span);
        let next_st = spec_terminate(st, kind, span);
        lemma_grows_on(given, st, next_st);
        let st = next_st;
        lemma_set_index(st, cx.past(end));
        let next_st = State { index: cx.past(end), ..st };
        lemma_grows_on(given, st, next_st);
        let st = next_st;
    }
}

pub proof fn lemma_construct(
    cx: &Context,
    st: State,
    class: DeclarationId,
    constructor: &Method,
    parameter: Type,
    result: Type,
    argument: LocalId,
)
    ensures
        ({
            let after = spec_construct(cx, st, class, constructor, parameter, result, argument);
            &&& grows(st, after.0)
            &&& fits(after.0) && is_sound(st) && argument.0 < bounds_of(st).locals
                ==> is_sound(after.0) && optional_value_fits(after.1, bounds_of(after.0))
        }),
{
    broadcast use {group_shape, group_kinds};

    reveal(spec_construct);
    let given = st;
    lemma_grows_itself(st);
    let signature = signature_of(
        one(parameter),
        result,
        dup_plain(&constructor.function.effects),
        false,
        constructor.function.is_unsafe,
    );
    let function = Operand::Constant(
        Constant::Constructor {
            owner: class,
            member: Some(constructor.id),
            ty: Type::Function(signature.dup()),
        },
    );
    lemma_emit_call(cx, st, function, None, &signature, one(Operand::Move(whole(argument))), 0);
    let (next_st, _) = spec_emit_call(
        cx,
        st,
        function,
        None,
        &signature,
        one(Operand::Move(whole(argument))),
        0,
    );
    lemma_grows_on(given, st, next_st);
    let st = next_st;
}

pub proof fn lemma_start_generator(cx: &Context, st: State)
    ensures
        ({
            let after = spec_start_generator(cx, st);
            &&& grows(st, after)
            &&& fits(after) && is_sound(st)
                ==> is_sound(after)
        }),
{
    broadcast use {group_shape, group_kinds};

    reveal(spec_start_generator);
    let given = st;
    lemma_grows_itself(st);
    match &cx.generator_item_type {
        Some(item_type) => {
            if cx.token(0).is_none() {
            } else {
                match nominal_named(cx.program, Name::Array) {
                    Some(array) => {
                        match nominal_named(cx.program, Name::ArrayOptions) {
                            Some(options) => {
                                let span = cx.span_at(0);
                                let array_type = Type::Nominal(array, one(item_type.dup()));
                                let options_type = Type::Nominal(options, List::Nil);
                                lemma_add_local(
                                    st,
                                    Name::GeneratorBuffer,
                                    array_type.dup(),
                                    true,
                                    false,
                                    span,
                                );
                                let (next_st, buffer) = spec_add_local(
                                    st,
                                    Name::GeneratorBuffer,
                                    array_type.dup(),
                                    true,
                                    false,
                                    span,
                                );
                                lemma_grows_on(given, st, next_st);
                                let st = next_st;
                                lemma_set_buffer(st, Some(buffer));
                                let next_st = State { buffer: Some(buffer), ..st };
                                lemma_grows_on(given, st, next_st);
                                let st = next_st;
                                lemma_statement(st, StatementKind::StorageLive(buffer), span);
                                let next_st = spec_statement(
                                    st,
                                    StatementKind::StorageLive(buffer),
                                    span,
                                );
                                lemma_grows_on(given, st, next_st);
                                let st = next_st;
                                lemma_live(st, options_type.dup(), span);
                                let (next_st, settings) = spec_live(st, options_type.dup(), span);
                                lemma_grows_on(given, st, next_st);
                                let st = next_st;
                                lemma_assign(
                                    st,
                                    settings,
                                    Rvalue::Aggregate {
                                        ty: options_type.dup(),
                                        variant: None,
                                        fields: one(crate::lowering::bindings::usize_constant(0)),
                                        field_types: one(primitive(PrimitiveType::Usize)),
                                    },
                                    span,
                                );
                                let next_st = spec_assign(
                                    st,
                                    settings,
                                    Rvalue::Aggregate {
                                        ty: options_type.dup(),
                                        variant: None,
                                        fields: one(crate::lowering::bindings::usize_constant(0)),
                                        field_types: one(primitive(PrimitiveType::Usize)),
                                    },
                                    span,
                                );
                                lemma_grows_on(given, st, next_st);
                                let st = next_st;
                                match constructor_of(cx.program, array) {
                                    Some(constructor) => {
                                        lemma_construct(
                                            cx,
                                            st,
                                            array,
                                            constructor,
                                            options_type,
                                            array_type,
                                            settings,
                                        );
                                        let (next_st, made) = spec_construct(
                                            cx,
                                            st,
                                            array,
                                            constructor,
                                            options_type,
                                            array_type,
                                            settings,
                                        );
                                        lemma_grows_on(given, st, next_st);
                                        let st = next_st;
                                        if let Some(value) = made {
                                            lemma_assign(
                                                st,
                                                buffer,
                                                Rvalue::Use(value.operand),
                                                span,
                                            );
                                            let next_st = spec_assign(
                                                st,
                                                buffer,
                                                Rvalue::Use(value.operand),
                                                span,
                                            );
                                            lemma_grows_on(given, st, next_st);
                                            let st = next_st;
                                        }
                                        let next_st = if let Some(value) = made {
                                            spec_assign(
                                                st,
                                                buffer,
                                                Rvalue::Use(value.operand),
                                                span,
                                            )
                                        } else {
                                            st
                                        };
                                        assert(grows(given, next_st));
                                        let st = next_st;
                                        lemma_new_block(st);
                                        let (next_st, finish) = spec_new_block(st);
                                        lemma_grows_on(given, st, next_st);
                                        let st = next_st;
                                        lemma_set_finish(st, Some(finish));
                                        let next_st = State { finish: Some(finish), ..st };
                                        lemma_grows_on(given, st, next_st);
                                        let st = next_st;
                                    },
                                    _ => {},
                                }
                            },
                            _ => {},
                        }
                    },
                    _ => {},
                }
            }
        },
        _ => {},
    }
}

pub proof fn lemma_generator_iterator(cx: &Context, st: State)
    ensures
        ({
            let after = spec_generator_iterator(cx, st);
            &&& grows(st, after.0)
            &&& fits(after.0) && is_sound(st)
                ==> is_sound(after.0) && optional_value_fits(after.1, bounds_of(after.0))
        }),
{
    broadcast use {group_shape, group_kinds};

    reveal(spec_generator_iterator);
    let given = st;
    lemma_grows_itself(st);
    match &cx.generator_item_type {
        Some(item_type) => {
            lemma_sound_fields(st);
            match st.buffer {
                Some(buffer) => {
                    let name = if cx.generator_async {
                        Name::AsyncArrayIterator
                    } else {
                        Name::ArrayIterator
                    };
                    match nominal_named(cx.program, name) {
                        Some(iterator) => {
                            match constructor_of(cx.program, iterator) {
                                Some(constructor) => {
                                    let iterator_type = Type::Nominal(
                                        iterator,
                                        one(item_type.dup()),
                                    );
                                    let buffer_type = spec_type_of_local(st, buffer);
                                    lemma_construct(
                                        cx,
                                        st,
                                        iterator,
                                        constructor,
                                        buffer_type,
                                        iterator_type,
                                        buffer,
                                    );
                                    let (next_st, _) = spec_construct(
                                        cx,
                                        st,
                                        iterator,
                                        constructor,
                                        buffer_type,
                                        iterator_type,
                                        buffer,
                                    );
                                    lemma_grows_on(given, st, next_st);
                                    let st = next_st;
                                },
                                _ => {},
                            }
                        },
                        _ => {},
                    }
                },
                _ => {},
            }
        },
        _ => {},
    }
}

pub proof fn lemma_finish_generator(cx: &Context, st: State)
    ensures
        ({
            let after = spec_finish_generator(cx, st);
            &&& grows(st, after)
            &&& fits(after) && is_sound(st)
                ==> is_sound(after)
        }),
{
    broadcast use {group_shape, group_kinds};

    reveal(spec_finish_generator);
    let given = st;
    lemma_grows_itself(st);
    if cx.generator_item_type.is_none() {
    } else {
        if cx.token(0).is_none() {
            lemma_terminate(
                st,
                TerminatorKind::Unreachable,
                crate::syntax::empty_span(File::Generator),
            );
            let next_st = spec_terminate(
                st,
                TerminatorKind::Unreachable,
                crate::syntax::empty_span(File::Generator),
            );
            lemma_grows_on(given, st, next_st);
            let st = next_st;
        } else {
            let span = cx.span_at(0);
            lemma_generator_iterator(cx, st);
            let (next_st, attempt) = spec_generator_iterator(cx, st);
            lemma_grows_on(given, st, next_st);
            let st = next_st;
            match attempt {
                Some(value) => {
                    lemma_computed(
                        st, cx.return_type.dup(),
                        Rvalue::Cast {
                            operand: value.operand,
                            ty: cx.return_type.dup(),
                            kind: CastKind::InterfaceCoercion,
                        },
                        span,
                    );
                    let (next_st, result) = spec_computed(
                        st, cx.return_type.dup(),
                        Rvalue::Cast {
                            operand: value.operand,
                            ty: cx.return_type.dup(),
                            kind: CastKind::InterfaceCoercion,
                        },
                        span,
                    );
                    lemma_grows_on(given, st, next_st);
                    let st = next_st;
                    lemma_terminate(st, TerminatorKind::Return(Some(result)), span);
                    let next_st = spec_terminate(st, TerminatorKind::Return(Some(result)), span);
                    lemma_grows_on(given, st, next_st);
                    let st = next_st;
                },
                _ => {
                    lemma_terminate(st, TerminatorKind::Unreachable, span);
                    let next_st = spec_terminate(st, TerminatorKind::Unreachable, span);
                    lemma_grows_on(given, st, next_st);
                    let st = next_st;
                },
            }
        }
    }
}

pub proof fn lemma_lower_body(cx: &Context, st: State, low: Lowering)
    requires
        is_sound_lowering(low),
    ensures
        ({
            let after = spec_lower_body(cx, st, low);
            &&& grows(st, after)
            &&& fits(after) && is_sound(st)
                ==> is_sound(after)
        }),
{
    broadcast use {group_shape, group_kinds};

    reveal(spec_lower_body);
    let given = st;
    lemma_grows_itself(st);
    if cx.generator_item_type.is_some() {
        lemma_start_generator(cx, st);
        let next_st = spec_start_generator(cx, st);
        lemma_grows_on(given, st, next_st);
        let st = next_st;
    }
    let next_st = if cx.generator_item_type.is_some() {
        spec_start_generator(cx, st)
    } else {
        st
    };
    assert(grows(given, next_st));
    let st = next_st;
    lemma_lower_parameter_bindings(cx, st, &cx.hir.binding_patterns, 0, low);
    let next_st = spec_lower_parameter_bindings(cx, st, &cx.hir.binding_patterns, 0, low);
    lemma_grows_on(given, st, next_st);
    let st = next_st;
    lemma_lower_sequence(cx, st, None, low);
    let next_st = spec_lower_sequence(cx, st, None, low);
    lemma_grows_on(given, st, next_st);
    let st = next_st;
    if spec_is_open(st) {
        lemma_dispose_all(cx, st);
        let next_st = spec_dispose_all(cx, st);
        lemma_grows_on(given, st, next_st);
        let st = next_st;
    }
    let next_st = if spec_is_open(st) {
        spec_dispose_all(cx, st)
    } else {
        st
    };
    assert(grows(given, next_st));
    let st = next_st;
    lemma_sound_fields(st);
    if let Some(finish) = st.finish {
        if st.current != finish {
            lemma_continue_at(st, finish, spec_first_span(st, File::Generator));
            let next_st = spec_continue_at(st, finish, spec_first_span(st, File::Generator));
            lemma_grows_on(given, st, next_st);
            let st = next_st;
        }
        let next_st = if st.current != finish {
            spec_continue_at(st, finish, spec_first_span(st, File::Generator))
        } else {
            st
        };
        assert(grows(given, next_st));
        let st = next_st;
        lemma_set_current(st, finish);
        let next_st = State { current: finish, ..st };
        lemma_grows_on(given, st, next_st);
        let st = next_st;
        lemma_finish_generator(cx, st);
        let next_st = spec_finish_generator(cx, st);
        lemma_grows_on(given, st, next_st);
        let st = next_st;
    }
}

} // verus!
