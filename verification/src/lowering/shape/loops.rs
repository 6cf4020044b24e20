//! Loops keep graphs well formed.

use vstd::prelude::*;

use crate::hir::{DeclarationId, IterationWitness, MemberId, PrimitiveType, ReceiverMode, Type};
use crate::list::List;
use crate::lowering::bindings::{spec_bind_hir_local, spec_lower_binding_pattern, usize_constant};
use crate::lowering::builder::{
    spec_add_local, spec_bind_hir, spec_new_block, spec_pop_loop, spec_push_loop, spec_statement,
    spec_temporary, spec_terminate, State,
};
use crate::lowering::context::{behind, next, Context};
use crate::lowering::emit::{
    spec_assign, spec_branch, spec_computed, spec_continue_at, spec_emit_call, spec_live,
    spec_materialize_operand, Value,
};
use crate::lowering::loops::{
    item_name, next_of, next_result, sequence_place, signature_of, spec_awaited_item,
    spec_condition, spec_counted_step, spec_counted_test, spec_fill_item, spec_fill_present_item,
    spec_item_local, spec_lower_builtin_for, spec_lower_counted_for, spec_lower_for,
    spec_lower_generator_for, spec_lower_into_iterator, spec_lower_iterator_for,
    spec_lower_loop_body, spec_lower_while, spec_lower_without_items, spec_lower_witness_for,
    CountedBlocks, LoopHeader,
};
use crate::lowering::recursion::Lowering;
use crate::lowering::shape::base::{
    bounds_of, fits, group_shape, grows, is_sound, is_sound_lowering, lemma_add_local,
    lemma_bind_hir, lemma_grows_itself, lemma_grows_on, lemma_new_block, lemma_pop_loop,
    lemma_push_loop, lemma_set_current, lemma_set_index, lemma_statement, lemma_temporary,
    lemma_terminate, operand_fits, optional_place_fits, optional_value_fits, place_fits,
    rvalue_fits, value_fits,
};
use crate::lowering::shape::bindings::{lemma_bind_hir_local, lemma_lower_binding_pattern};
use crate::lowering::shape::emit::{
    lemma_assign, lemma_branch, lemma_computed, lemma_continue_at, lemma_emit_call, lemma_live,
    lemma_materialize_operand,
};
use crate::lowering::shape::kinds::{counted_fit, group_kinds};
use crate::lowering::types::{builtin_iterable_item, primitive};
use crate::mir::{
    whole, BasicBlockId, BinaryOperator, LocalId, Operand, Place, Projection, Rvalue, StatementKind,
    TerminatorKind,
};
use crate::syntax::{Span, TokenKind};

verus! {

pub proof fn lemma_condition(cx: &Context, st: State, start: usize, end: usize, low: Lowering)
    requires
        is_sound_lowering(low),
    ensures
        ({
            let after = spec_condition(cx, st, start, end, low);
            &&& grows(st, after.0)
            &&& fits(after.0) && is_sound(st)
                ==> is_sound(after.0) && operand_fits(after.1, bounds_of(after.0))
        }),
{
    broadcast use {group_shape, group_kinds};

    reveal(spec_condition);
    let given = st;
    lemma_grows_itself(st);
    let bool_type = primitive(PrimitiveType::Bool);
    let (next_st, attempt) = (low.expression)(cx, st, start, end, Some(&bool_type));
    lemma_grows_on(given, st, next_st);
    let st = next_st;
    match attempt {
        Some(value) => {},
        None => {},
    }
}

pub proof fn lemma_lower_loop_body(
    cx: &Context,
    st: State,
    body: usize,
    again: BasicBlockId,
    exit: BasicBlockId,
    span: Span,
    low: Lowering,
)
    requires
        is_sound_lowering(low),
    ensures
        ({
            let after = spec_lower_loop_body(cx, st, body, again, exit, span, low);
            &&& grows(st, after)
            &&& fits(after) && is_sound(st) && again.0 < bounds_of(st).blocks
                && exit.0 < bounds_of(st).blocks
                ==> is_sound(after)
        }),
{
    broadcast use {group_shape, group_kinds};

    reveal(spec_lower_loop_body);
    let given = st;
    lemma_grows_itself(st);
    lemma_set_index(st, body);
    let next_st = State { index: body, ..st };
    lemma_grows_on(given, st, next_st);
    let st = next_st;
    lemma_push_loop(st, again, exit);
    let next_st = spec_push_loop(st, again, exit);
    lemma_grows_on(given, st, next_st);
    let st = next_st;
    let next_st = (low.statement)(cx, st);
    lemma_grows_on(given, st, next_st);
    let st = next_st;
    lemma_pop_loop(st);
    let next_st = spec_pop_loop(st);
    lemma_grows_on(given, st, next_st);
    let st = next_st;
    lemma_continue_at(st, again, span);
    let next_st = spec_continue_at(st, again, span);
    lemma_grows_on(given, st, next_st);
    let st = next_st;
}

pub proof fn lemma_lower_while(cx: &Context, st: State, low: Lowering)
    requires
        is_sound_lowering(low),
    ensures
        ({
            let after = spec_lower_while(cx, st, low);
            &&& grows(st, after)
            &&& fits(after) && is_sound(st)
                ==> is_sound(after)
        }),
{
    broadcast use {group_shape, group_kinds};

    reveal(spec_lower_while);
    let given = st;
    lemma_grows_itself(st);
    let start: usize = st.index;
    let span = cx.span_at(start);
    match cx.matching_token(next(start), TokenKind::LeftParen, TokenKind::RightParen) {
        Some(close) => {
            lemma_new_block(st);
            let (next_st, condition_block) = spec_new_block(st);
            lemma_grows_on(given, st, next_st);
            let st = next_st;
            lemma_new_block(st);
            let (next_st, body_block) = spec_new_block(st);
            lemma_grows_on(given, st, next_st);
            let st = next_st;
            lemma_new_block(st);
            let (next_st, exit_block) = spec_new_block(st);
            lemma_grows_on(given, st, next_st);
            let st = next_st;
            lemma_terminate(st, TerminatorKind::Goto(condition_block), span);
            let next_st = spec_terminate(st, TerminatorKind::Goto(condition_block), span);
            lemma_grows_on(given, st, next_st);
            let st = next_st;
            lemma_set_current(st, condition_block);
            let next_st = State { current: condition_block, ..st };
            lemma_grows_on(given, st, next_st);
            let st = next_st;
            lemma_condition(cx, st, behind(start, 2), close, low);
            let (next_st, condition) = spec_condition(cx, st, behind(start, 2), close, low);
            lemma_grows_on(given, st, next_st);
            let st = next_st;
            lemma_branch(st, condition, body_block, exit_block, span);
            let next_st = spec_branch(st, condition, body_block, exit_block, span);
            lemma_grows_on(given, st, next_st);
            let st = next_st;
            lemma_set_current(st, body_block);
            let next_st = State { current: body_block, ..st };
            lemma_grows_on(given, st, next_st);
            let st = next_st;
            lemma_lower_loop_body(cx, st, next(close), condition_block, exit_block, span, low);
            let next_st = spec_lower_loop_body(
                cx,
                st,
                next(close),
                condition_block,
                exit_block,
                span,
                low,
            );
            lemma_grows_on(given, st, next_st);
            let st = next_st;
            lemma_set_current(st, exit_block);
            let next_st = State { current: exit_block, ..st };
            lemma_grows_on(given, st, next_st);
            let st = next_st;
        },
        _ => {
            lemma_set_index(st, next(start));
            let next_st = State { index: next(start), ..st };
            lemma_grows_on(given, st, next_st);
            let st = next_st;
        },
    }
}

pub proof fn lemma_lower_without_items(cx: &Context, st: State, header: LoopHeader, low: Lowering)
    requires
        is_sound_lowering(low),
    ensures
        ({
            let after = spec_lower_without_items(cx, st, header, low);
            &&& grows(st, after)
            &&& fits(after) && is_sound(st)
                ==> is_sound(after)
        }),
{
    broadcast use {group_shape, group_kinds};

    reveal(spec_lower_without_items);
    let given = st;
    lemma_grows_itself(st);
    lemma_set_index(st, next(header.close));
    let next_st = State { index: next(header.close), ..st };
    lemma_grows_on(given, st, next_st);
    let st = next_st;
    let next_st = (low.statement)(cx, st);
    lemma_grows_on(given, st, next_st);
    let st = next_st;
}

pub proof fn lemma_item_local(cx: &Context, st: State, header: LoopHeader, ty: Type)
    ensures
        ({
            let after = spec_item_local(cx, st, header, ty);
            &&& grows(st, after.0)
            &&& fits(after.0) && is_sound(st)
                ==> is_sound(after.0) && after.1.0 < bounds_of(after.0).locals
        }),
{
    broadcast use {group_shape, group_kinds};

    reveal(spec_item_local);
    let given = st;
    lemma_grows_itself(st);
    lemma_add_local(
        st, item_name(cx, header),
        ty,
        false,
        false,
        cx.span_at(header.binding),
    );
    let (next_st, local) = spec_add_local(
        st, item_name(cx, header),
        ty,
        false,
        false,
        cx.span_at(header.binding),
    );
    lemma_grows_on(given, st, next_st);
    let st = next_st;
    match cx.for_binding_pattern(header.start) {
        Some(pattern) => {
            lemma_bind_hir(st, pattern.root, local);
            let next_st = spec_bind_hir(st, pattern.root, local);
            lemma_grows_on(given, st, next_st);
            let st = next_st;
        },
        None => {
            lemma_bind_hir_local(cx, st, header.binding, local);
            let next_st = spec_bind_hir_local(cx, st, header.binding, local);
            lemma_grows_on(given, st, next_st);
            let st = next_st;
        },
    }
    let next_st = match cx.for_binding_pattern(header.start) {
        Some(pattern) => spec_bind_hir(st, pattern.root, local),
        None => spec_bind_hir_local(cx, st, header.binding, local),
    };
    assert(grows(given, next_st));
    let st = next_st;
}

pub proof fn lemma_fill_item(
    cx: &Context,
    st: State,
    header: LoopHeader,
    local: LocalId,
    value: Rvalue,
    low: Lowering,
)
    requires
        is_sound_lowering(low),
    ensures
        ({
            let after = spec_fill_item(cx, st, header, local, value, low);
            &&& grows(st, after)
            &&& fits(after) && is_sound(st) && local.0 < bounds_of(st).locals
                && rvalue_fits(value, bounds_of(st))
                ==> is_sound(after)
        }),
{
    broadcast use {group_shape, group_kinds};

    reveal(spec_fill_item);
    let given = st;
    lemma_grows_itself(st);
    let span = cx.span_at(header.binding);
    lemma_statement(st, StatementKind::StorageLive(local), span);
    let next_st = spec_statement(st, StatementKind::StorageLive(local), span);
    lemma_grows_on(given, st, next_st);
    let st = next_st;
    lemma_assign(st, local, value, span);
    let next_st = spec_assign(st, local, value, span);
    lemma_grows_on(given, st, next_st);
    let st = next_st;
    if let Some(pattern) = cx.for_binding_pattern(header.start) {
        lemma_lower_binding_pattern(cx, st, pattern, low);
        let next_st = spec_lower_binding_pattern(cx, st, pattern, low);
        lemma_grows_on(given, st, next_st);
        let st = next_st;
    }
}

pub proof fn lemma_fill_present_item(
    cx: &Context,
    st: State,
    header: LoopHeader,
    local: LocalId,
    optional: Place,
    low: Lowering,
)
    requires
        is_sound_lowering(low),
    ensures
        ({
            let after = spec_fill_present_item(cx, st, header, local, optional, low);
            &&& grows(st, after)
            &&& fits(after) && is_sound(st) && local.0 < bounds_of(st).locals
                && place_fits(optional, bounds_of(st))
                ==> is_sound(after)
        }),
{
    broadcast use {group_shape, group_kinds};

    reveal(spec_fill_present_item);
    let given = st;
    lemma_grows_itself(st);
    lemma_fill_item(
        cx,
        st,
        header,
        local,
        Rvalue::Use(Operand::Move(optional.step(Projection::Downcast(1)))),
        low,
    );
    let next_st = spec_fill_item(
        cx,
        st,
        header,
        local,
        Rvalue::Use(Operand::Move(optional.step(Projection::Downcast(1)))),
        low,
    );
    lemma_grows_on(given, st, next_st);
    let st = next_st;
}

pub proof fn lemma_counted_test(
    st: State,
    index: LocalId,
    length: LocalId,
    blocks: CountedBlocks,
    span: Span,
)
    ensures
        ({
            let after = spec_counted_test(st, index, length, blocks, span);
            &&& grows(st, after)
            &&& fits(after) && is_sound(st) && index.0 < bounds_of(st).locals
                && length.0 < bounds_of(st).locals && counted_fit(blocks, bounds_of(st))
                ==> is_sound(after)
        }),
{
    broadcast use {group_shape, group_kinds};

    reveal(spec_counted_test);
    let given = st;
    lemma_grows_itself(st);
    lemma_set_current(st, blocks.condition);
    let next_st = State { current: blocks.condition, ..st };
    lemma_grows_on(given, st, next_st);
    let st = next_st;
    lemma_computed(
        st, primitive(PrimitiveType::Bool),
        Rvalue::CheckedBinary {
            operator: BinaryOperator::Less,
            left: Operand::Copy(whole(index)),
            right: Operand::Copy(whole(length)),
            operand_type: primitive(PrimitiveType::Usize),
            result_type: primitive(PrimitiveType::Bool),
        },
        span,
    );
    let (next_st, condition) = spec_computed(
        st, primitive(PrimitiveType::Bool),
        Rvalue::CheckedBinary {
            operator: BinaryOperator::Less,
            left: Operand::Copy(whole(index)),
            right: Operand::Copy(whole(length)),
            operand_type: primitive(PrimitiveType::Usize),
            result_type: primitive(PrimitiveType::Bool),
        },
        span,
    );
    lemma_grows_on(given, st, next_st);
    let st = next_st;
    lemma_branch(st, condition, blocks.body, blocks.exit, span);
    let next_st = spec_branch(st, condition, blocks.body, blocks.exit, span);
    lemma_grows_on(given, st, next_st);
    let st = next_st;
}

pub proof fn lemma_counted_step(st: State, index: LocalId, blocks: CountedBlocks, span: Span)
    ensures
        ({
            let after = spec_counted_step(st, index, blocks, span);
            &&& grows(st, after)
            &&& fits(after) && is_sound(st) && index.0 < bounds_of(st).locals
                && counted_fit(blocks, bounds_of(st))
                ==> is_sound(after)
        }),
{
    broadcast use {group_shape, group_kinds};

    reveal(spec_counted_step);
    let given = st;
    lemma_grows_itself(st);
    lemma_set_current(st, blocks.increment);
    let next_st = State { current: blocks.increment, ..st };
    lemma_grows_on(given, st, next_st);
    let st = next_st;
    lemma_assign(
        st,
        index,
        Rvalue::CheckedBinary {
            operator: BinaryOperator::Add,
            left: Operand::Copy(whole(index)),
            right: usize_constant(1),
            operand_type: primitive(PrimitiveType::Usize),
            result_type: primitive(PrimitiveType::Usize),
        },
        span,
    );
    let next_st = spec_assign(
        st,
        index,
        Rvalue::CheckedBinary {
            operator: BinaryOperator::Add,
            left: Operand::Copy(whole(index)),
            right: usize_constant(1),
            operand_type: primitive(PrimitiveType::Usize),
            result_type: primitive(PrimitiveType::Usize),
        },
        span,
    );
    lemma_grows_on(given, st, next_st);
    let st = next_st;
    lemma_terminate(st, TerminatorKind::Goto(blocks.condition), span);
    let next_st = spec_terminate(st, TerminatorKind::Goto(blocks.condition), span);
    lemma_grows_on(given, st, next_st);
    let st = next_st;
    lemma_set_current(st, blocks.exit);
    let next_st = State { current: blocks.exit, ..st };
    lemma_grows_on(given, st, next_st);
    let st = next_st;
}

pub proof fn lemma_lower_counted_for(
    cx: &Context,
    st: State,
    header: LoopHeader,
    iterable: Place,
    item_type: Type,
    low: Lowering,
)
    requires
        is_sound_lowering(low),
    ensures
        ({
            let after = spec_lower_counted_for(cx, st, header, iterable, item_type, low);
            &&& grows(st, after)
            &&& fits(after) && is_sound(st) && place_fits(iterable, bounds_of(st))
                ==> is_sound(after)
        }),
{
    broadcast use {group_shape, group_kinds};

    reveal(spec_lower_counted_for);
    let given = st;
    lemma_grows_itself(st);
    let span = cx.span_at(header.start);
    lemma_item_local(cx, st, header, item_type);
    let (next_st, binding) = spec_item_local(cx, st, header, item_type);
    lemma_grows_on(given, st, next_st);
    let st = next_st;
    lemma_temporary(st, primitive(PrimitiveType::Usize), span);
    let (next_st, index) = spec_temporary(st, primitive(PrimitiveType::Usize), span);
    lemma_grows_on(given, st, next_st);
    let st = next_st;
    lemma_temporary(st, primitive(PrimitiveType::Usize), span);
    let (next_st, length) = spec_temporary(st, primitive(PrimitiveType::Usize), span);
    lemma_grows_on(given, st, next_st);
    let st = next_st;
    lemma_statement(st, StatementKind::StorageLive(index), span);
    let next_st = spec_statement(st, StatementKind::StorageLive(index), span);
    lemma_grows_on(given, st, next_st);
    let st = next_st;
    lemma_statement(st, StatementKind::StorageLive(length), span);
    let next_st = spec_statement(st, StatementKind::StorageLive(length), span);
    lemma_grows_on(given, st, next_st);
    let st = next_st;
    lemma_assign(st, index, Rvalue::Use(usize_constant(0)), span);
    let next_st = spec_assign(st, index, Rvalue::Use(usize_constant(0)), span);
    lemma_grows_on(given, st, next_st);
    let st = next_st;
    lemma_assign(st, length, Rvalue::Length(iterable.dup()), span);
    let next_st = spec_assign(st, length, Rvalue::Length(iterable.dup()), span);
    lemma_grows_on(given, st, next_st);
    let st = next_st;
    lemma_new_block(st);
    let (next_st, condition_block) = spec_new_block(st);
    lemma_grows_on(given, st, next_st);
    let st = next_st;
    lemma_new_block(st);
    let (next_st, body_block) = spec_new_block(st);
    lemma_grows_on(given, st, next_st);
    let st = next_st;
    lemma_new_block(st);
    let (next_st, increment_block) = spec_new_block(st);
    lemma_grows_on(given, st, next_st);
    let st = next_st;
    lemma_new_block(st);
    let (next_st, exit_block) = spec_new_block(st);
    lemma_grows_on(given, st, next_st);
    let st = next_st;
    let blocks = CountedBlocks {
        condition: condition_block,
        body: body_block,
        increment: increment_block,
        exit: exit_block,
    };
    lemma_terminate(st, TerminatorKind::Goto(condition_block), span);
    let next_st = spec_terminate(st, TerminatorKind::Goto(condition_block), span);
    lemma_grows_on(given, st, next_st);
    let st = next_st;
    lemma_counted_test(st, index, length, blocks, span);
    let next_st = spec_counted_test(st, index, length, blocks, span);
    lemma_grows_on(given, st, next_st);
    let st = next_st;
    lemma_set_current(st, body_block);
    let next_st = State { current: body_block, ..st };
    lemma_grows_on(given, st, next_st);
    let st = next_st;
    lemma_fill_item(
        cx,
        st,
        header,
        binding,
        Rvalue::CheckedIndex { collection: iterable, index: Operand::Copy(whole(index)) },
        low,
    );
    let next_st = spec_fill_item(
        cx,
        st,
        header,
        binding,
        Rvalue::CheckedIndex { collection: iterable, index: Operand::Copy(whole(index)) },
        low,
    );
    lemma_grows_on(given, st, next_st);
    let st = next_st;
    lemma_lower_loop_body(cx, st, next(header.close), increment_block, exit_block, span, low);
    let next_st = spec_lower_loop_body(
        cx,
        st,
        next(header.close),
        increment_block,
        exit_block,
        span,
        low,
    );
    lemma_grows_on(given, st, next_st);
    let st = next_st;
    lemma_counted_step(st, index, blocks, span);
    let next_st = spec_counted_step(st, index, blocks, span);
    lemma_grows_on(given, st, next_st);
    let st = next_st;
}

pub proof fn lemma_lower_builtin_for(
    cx: &Context,
    st: State,
    header: LoopHeader,
    iterable: Value,
    low: Lowering,
)
    requires
        is_sound_lowering(low),
    ensures
        ({
            let after = spec_lower_builtin_for(cx, st, header, iterable, low);
            &&& grows(st, after)
            &&& fits(after) && is_sound(st) && value_fits(iterable, bounds_of(st))
                ==> is_sound(after)
        }),
{
    broadcast use {group_shape, group_kinds};

    reveal(spec_lower_builtin_for);
    let given = st;
    lemma_grows_itself(st);
    match (builtin_iterable_item(&iterable.ty), sequence_place(iterable)) {
        (Some(item_type), Some(place)) => {
            lemma_lower_counted_for(cx, st, header, place, item_type, low);
            let next_st = spec_lower_counted_for(cx, st, header, place, item_type, low);
            lemma_grows_on(given, st, next_st);
            let st = next_st;
        },
        _ => {
            lemma_lower_without_items(cx, st, header, low);
            let next_st = spec_lower_without_items(cx, st, header, low);
            lemma_grows_on(given, st, next_st);
            let st = next_st;
        },
    }
}

pub proof fn lemma_lower_for(cx: &Context, st: State, low: Lowering)
    requires
        is_sound_lowering(low),
    ensures
        ({
            let after = spec_lower_for(cx, st, low);
            &&& grows(st, after)
            &&& fits(after) && is_sound(st)
                ==> is_sound(after)
        }),
{
    broadcast use {group_shape, group_kinds};

    reveal(spec_lower_for);
    let given = st;
    lemma_grows_itself(st);
    let start: usize = st.index;
    let open: usize = if cx.is(next(start), TokenKind::Await) {
        behind(start, 2)
    } else {
        next(start)
    };
    match cx.matching_token(open, TokenKind::LeftParen, TokenKind::RightParen) {
        Some(close) => {
            let binding: usize = behind(open, 2);
            match cx.find_top_level(binding, close, TokenKind::Of) {
                Some(of) => {
                    let header = LoopHeader { start, binding, iterable: next(of), close };
                    let (next_st, attempt) = (low.expression)(cx, st, header.iterable, close, None);
                    lemma_grows_on(given, st, next_st);
                    let st = next_st;
                    match attempt {
                        Some(iterable) => {
                            match cx.iteration_witness(start) {
                                Some(witness) => {
                                    lemma_lower_witness_for(cx, st, header, iterable, witness, low);
                                    let next_st = spec_lower_witness_for(
                                        cx,
                                        st,
                                        header,
                                        iterable,
                                        witness,
                                        low,
                                    );
                                    lemma_grows_on(given, st, next_st);
                                    let st = next_st;
                                },
                                None => {
                                    lemma_lower_builtin_for(cx, st, header, iterable, low);
                                    let next_st = spec_lower_builtin_for(
                                        cx,
                                        st,
                                        header,
                                        iterable,
                                        low,
                                    );
                                    lemma_grows_on(given, st, next_st);
                                    let st = next_st;
                                },
                            }
                        },
                        _ => {
                            lemma_lower_without_items(cx, st, header, low);
                            let next_st = spec_lower_without_items(cx, st, header, low);
                            lemma_grows_on(given, st, next_st);
                            let st = next_st;
                        },
                    }
                },
                _ => {
                    lemma_set_index(st, next(close));
                    let next_st = State { index: next(close), ..st };
                    lemma_grows_on(given, st, next_st);
                    let st = next_st;
                },
            }
        },
        _ => {
            lemma_set_index(st, next(start));
            let next_st = State { index: next(start), ..st };
            lemma_grows_on(given, st, next_st);
            let st = next_st;
        },
    }
}

pub proof fn lemma_lower_witness_for(
    cx: &Context,
    st: State,
    header: LoopHeader,
    iterable: Value,
    witness: &IterationWitness,
    low: Lowering,
)
    requires
        is_sound_lowering(low),
    ensures
        ({
            let after = spec_lower_witness_for(cx, st, header, iterable, witness, low);
            &&& grows(st, after)
            &&& fits(after) && is_sound(st) && value_fits(iterable, bounds_of(st))
                ==> is_sound(after)
        }),
{
    broadcast use {group_shape, group_kinds};

    reveal(spec_lower_witness_for);
    let given = st;
    lemma_grows_itself(st);
    match witness {
        IterationWitness::Generator { item_type, asynchronous } => {
            lemma_lower_generator_for(cx, st, header, iterable, item_type, *asynchronous, low);
            let next_st = spec_lower_generator_for(
                cx,
                st,
                header,
                iterable,
                item_type,
                *asynchronous,
                low,
            );
            lemma_grows_on(given, st, next_st);
            let st = next_st;
        },
        IterationWitness::Declared {
            into_iterator_implementation,
            into_iterator_method,
            iterator_implementation,
            next_method,
            next_receiver,
            iterator_type,
            item_type,
        } => {
            lemma_lower_into_iterator(
                cx,
                st,
                header,
                iterable,
                *into_iterator_implementation,
                *into_iterator_method,
                iterator_type,
            );
            let (next_st, attempt) = spec_lower_into_iterator(
                cx,
                st,
                header,
                iterable,
                *into_iterator_implementation,
                *into_iterator_method,
                iterator_type,
            );
            lemma_grows_on(given, st, next_st);
            let st = next_st;
            match attempt {
                Some(iterator) => {
                    lemma_lower_iterator_for(
                        cx,
                        st,
                        header,
                        iterator,
                        *iterator_implementation,
                        *next_method,
                        *next_receiver,
                        item_type,
                        low,
                    );
                    let next_st = spec_lower_iterator_for(
                        cx,
                        st,
                        header,
                        iterator,
                        *iterator_implementation,
                        *next_method,
                        *next_receiver,
                        item_type,
                        low,
                    );
                    lemma_grows_on(given, st, next_st);
                    let st = next_st;
                },
                _ => {
                    lemma_lower_without_items(cx, st, header, low);
                    let next_st = spec_lower_without_items(cx, st, header, low);
                    lemma_grows_on(given, st, next_st);
                    let st = next_st;
                },
            }
        },
        IterationWitness::Builtin => {
            lemma_lower_without_items(cx, st, header, low);
            let next_st = spec_lower_without_items(cx, st, header, low);
            lemma_grows_on(given, st, next_st);
            let st = next_st;
        },
    }
}

pub proof fn lemma_lower_into_iterator(
    cx: &Context,
    st: State,
    header: LoopHeader,
    iterable: Value,
    implementation: DeclarationId,
    member: MemberId,
    iterator_type: &Type,
)
    ensures
        ({
            let after = spec_lower_into_iterator(
                cx,
                st,
                header,
                iterable,
                implementation,
                member,
                iterator_type,
            );
            &&& grows(st, after.0)
            &&& fits(after.0) && is_sound(st) && value_fits(iterable, bounds_of(st))
                ==> is_sound(after.0) && optional_place_fits(after.1, bounds_of(after.0))
        }),
{
    broadcast use {group_shape, group_kinds};

    reveal(spec_lower_into_iterator);
    let given = st;
    lemma_grows_itself(st);
    let span = cx.span_at(header.start);
    lemma_materialize_operand(st, iterable.operand, iterable.ty, span);
    let (next_st, source) = spec_materialize_operand(st, iterable.operand, iterable.ty, span);
    lemma_grows_on(given, st, next_st);
    let st = next_st;
    let signature = signature_of(List::Nil, iterator_type.dup(), List::Nil, false, false);
    lemma_computed(
        st, Type::Function(signature.dup()),
        Rvalue::DirectMethod {
            object: source.dup(),
            implementation,
            member,
            receiver: ReceiverMode::Move,
            ty: Type::Function(signature.dup()),
        },
        span,
    );
    let (next_st, method) = spec_computed(
        st, Type::Function(signature.dup()),
        Rvalue::DirectMethod {
            object: source.dup(),
            implementation,
            member,
            receiver: ReceiverMode::Move,
            ty: Type::Function(signature.dup()),
        },
        span,
    );
    lemma_grows_on(given, st, next_st);
    let st = next_st;
    lemma_emit_call(
        cx,
        st,
        method,
        Some(Operand::Move(source)),
        &signature,
        List::Nil,
        header.iterable,
    );
    let (next_st, attempt) = spec_emit_call(
        cx,
        st,
        method,
        Some(Operand::Move(source)),
        &signature,
        List::Nil,
        header.iterable,
    );
    lemma_grows_on(given, st, next_st);
    let st = next_st;
    match attempt {
        Some(iterator) => {
            lemma_materialize_operand(st, iterator.operand, iterator_type.dup(), span);
            let (next_st, place) = spec_materialize_operand(
                st,
                iterator.operand,
                iterator_type.dup(),
                span,
            );
            lemma_grows_on(given, st, next_st);
            let st = next_st;
        },
        _ => {},
    }
}

pub proof fn lemma_lower_iterator_for(
    cx: &Context,
    st: State,
    header: LoopHeader,
    iterator: Place,
    implementation: DeclarationId,
    member: MemberId,
    receiver: ReceiverMode,
    item_type: &Type,
    low: Lowering,
)
    requires
        is_sound_lowering(low),
    ensures
        ({
            let after = spec_lower_iterator_for(
                cx,
                st,
                header,
                iterator,
                implementation,
                member,
                receiver,
                item_type,
                low,
            );
            &&& grows(st, after)
            &&& fits(after) && is_sound(st) && place_fits(iterator, bounds_of(st))
                ==> is_sound(after)
        }),
{
    broadcast use {group_shape, group_kinds};

    reveal(spec_lower_iterator_for);
    let given = st;
    lemma_grows_itself(st);
    let span = cx.span_at(header.start);
    lemma_item_local(cx, st, header, item_type.dup());
    let (next_st, binding) = spec_item_local(cx, st, header, item_type.dup());
    lemma_grows_on(given, st, next_st);
    let st = next_st;
    assert(fits(st) && is_sound(given) && place_fits(iterator, bounds_of(given))
        ==> is_sound(st) && binding.0 < bounds_of(st).locals);
    lemma_new_block(st);
    let (next_st, condition_block) = spec_new_block(st);
    lemma_grows_on(given, st, next_st);
    let st = next_st;
    assert(fits(st) && is_sound(given) && place_fits(iterator, bounds_of(given))
        ==> is_sound(st) && condition_block.0 < bounds_of(st).blocks);
    lemma_new_block(st);
    let (next_st, body_block) = spec_new_block(st);
    lemma_grows_on(given, st, next_st);
    let st = next_st;
    assert(fits(st) && is_sound(given) && place_fits(iterator, bounds_of(given))
        ==> is_sound(st) && body_block.0 < bounds_of(st).blocks);
    lemma_new_block(st);
    let (next_st, exit_block) = spec_new_block(st);
    lemma_grows_on(given, st, next_st);
    let st = next_st;
    assert(fits(st) && is_sound(given) && place_fits(iterator, bounds_of(given))
        ==> is_sound(st) && exit_block.0 < bounds_of(st).blocks);
    lemma_terminate(st, TerminatorKind::Goto(condition_block), span);
    let next_st = spec_terminate(st, TerminatorKind::Goto(condition_block), span);
    lemma_grows_on(given, st, next_st);
    let st = next_st;
    assert(fits(st) && is_sound(given) && place_fits(iterator, bounds_of(given)) ==> is_sound(st));
    lemma_set_current(st, condition_block);
    let next_st = State { current: condition_block, ..st };
    lemma_grows_on(given, st, next_st);
    let st = next_st;
    assert(fits(st) && is_sound(given) && place_fits(iterator, bounds_of(given)) ==> is_sound(st));
    let optional_item = Type::Optional(Box::new(item_type.dup()));
    let signature = signature_of(List::Nil, optional_item.dup(), List::Nil, false, false);
    lemma_computed(
        st, Type::Function(signature.dup()),
        Rvalue::DirectMethod {
            object: iterator.dup(),
            implementation,
            member,
            receiver,
            ty: Type::Function(signature.dup()),
        },
        span,
    );
    let (next_st, method) = spec_computed(
        st, Type::Function(signature.dup()),
        Rvalue::DirectMethod {
            object: iterator.dup(),
            implementation,
            member,
            receiver,
            ty: Type::Function(signature.dup()),
        },
        span,
    );
    lemma_grows_on(given, st, next_st);
    let st = next_st;
    assert(fits(st) && is_sound(given) && place_fits(iterator, bounds_of(given))
        ==> is_sound(st) && operand_fits(method, bounds_of(st)));
    lemma_emit_call(
        cx,
        st,
        method,
        Some(Operand::Copy(iterator)),
        &signature,
        List::Nil,
        header.iterable,
    );
    let (next_st, attempt) = spec_emit_call(
        cx,
        st,
        method,
        Some(Operand::Copy(iterator)),
        &signature,
        List::Nil,
        header.iterable,
    );
    lemma_grows_on(given, st, next_st);
    let st = next_st;
    assert(fits(st) && is_sound(given) && place_fits(iterator, bounds_of(given))
        ==> is_sound(st) && optional_value_fits(attempt, bounds_of(st)));
    match attempt {
        Some(item) => {
            lemma_materialize_operand(st, item.operand, optional_item, span);
            let (next_st, optional) = spec_materialize_operand(
                st,
                item.operand,
                optional_item,
                span,
            );
            lemma_grows_on(given, st, next_st);
            let st = next_st;
            assert(fits(st) && is_sound(given) && place_fits(iterator, bounds_of(given))
                ==> is_sound(st) && place_fits(optional, bounds_of(st)));
            lemma_branch(st, Operand::Copy(optional.dup()), body_block, exit_block, span);
            let next_st = spec_branch(
                st,
                Operand::Copy(optional.dup()),
                body_block,
                exit_block,
                span,
            );
            lemma_grows_on(given, st, next_st);
            let st = next_st;
            assert(fits(st) && is_sound(given) && place_fits(iterator, bounds_of(given))
                ==> is_sound(st));
            lemma_set_current(st, body_block);
            let next_st = State { current: body_block, ..st };
            lemma_grows_on(given, st, next_st);
            let st = next_st;
            assert(fits(st) && is_sound(given) && place_fits(iterator, bounds_of(given))
                ==> is_sound(st));
            lemma_fill_present_item(cx, st, header, binding, optional, low);
            let next_st = spec_fill_present_item(cx, st, header, binding, optional, low);
            lemma_grows_on(given, st, next_st);
            let st = next_st;
            assert(fits(st) && is_sound(given) && place_fits(iterator, bounds_of(given))
                ==> is_sound(st));
            lemma_lower_loop_body(
                cx,
                st,
                next(header.close),
                condition_block,
                exit_block,
                span,
                low,
            );
            let next_st = spec_lower_loop_body(
                cx,
                st,
                next(header.close),
                condition_block,
                exit_block,
                span,
                low,
            );
            lemma_grows_on(given, st, next_st);
            let st = next_st;
            assert(fits(st) && is_sound(given) && place_fits(iterator, bounds_of(given))
                ==> is_sound(st));
            lemma_set_current(st, exit_block);
            let next_st = State { current: exit_block, ..st };
            lemma_grows_on(given, st, next_st);
            let st = next_st;
            assert(fits(st) && is_sound(given) && place_fits(iterator, bounds_of(given))
                ==> is_sound(st));
        },
        _ => {
            lemma_lower_without_items(cx, st, header, low);
            let next_st = spec_lower_without_items(cx, st, header, low);
            lemma_grows_on(given, st, next_st);
            let st = next_st;
            assert(fits(st) && is_sound(given) && place_fits(iterator, bounds_of(given))
                ==> is_sound(st));
        },
    }
}

pub proof fn lemma_awaited_item(
    st: State,
    item: Place,
    optional_item: &Type,
    asynchronous: bool,
    resume: BasicBlockId,
    exit: BasicBlockId,
    span: Span,
)
    ensures
        ({
            let after = spec_awaited_item(
                st,
                item,
                optional_item,
                asynchronous,
                resume,
                exit,
                span,
            );
            &&& grows(st, after.0)
            &&& fits(after.0) && is_sound(st) && place_fits(item, bounds_of(st))
                && resume.0 < bounds_of(st).blocks && exit.0 < bounds_of(st).blocks
                ==> is_sound(after.0) && place_fits(after.1, bounds_of(after.0))
        }),
{
    broadcast use {group_shape, group_kinds};

    reveal(spec_awaited_item);
    let given = st;
    lemma_grows_itself(st);
    if !asynchronous {
    } else {
        lemma_live(st, optional_item.dup(), span);
        let (next_st, value) = spec_live(st, optional_item.dup(), span);
        lemma_grows_on(given, st, next_st);
        let st = next_st;
        lemma_terminate(
            st, TerminatorKind::Suspend {
                value: Operand::Move(item),
                destination: Some(whole(value)),
                error_destination: None,
                resume,
                error: None,
                cancel: exit,
            },
            span,
        );
        let next_st = spec_terminate(
            st, TerminatorKind::Suspend {
                value: Operand::Move(item),
                destination: Some(whole(value)),
                error_destination: None,
                resume,
                error: None,
                cancel: exit,
            },
            span,
        );
        lemma_grows_on(given, st, next_st);
        let st = next_st;
        lemma_set_current(st, resume);
        let next_st = State { current: resume, ..st };
        lemma_grows_on(given, st, next_st);
        let st = next_st;
    }
}

pub proof fn lemma_lower_generator_for(
    cx: &Context,
    st: State,
    header: LoopHeader,
    iterable: Value,
    item_type: &Type,
    asynchronous: bool,
    low: Lowering,
)
    requires
        is_sound_lowering(low),
    ensures
        ({
            let after = spec_lower_generator_for(
                cx,
                st,
                header,
                iterable,
                item_type,
                asynchronous,
                low,
            );
            &&& grows(st, after)
            &&& fits(after) && is_sound(st) && value_fits(iterable, bounds_of(st))
                ==> is_sound(after)
        }),
{
    broadcast use {group_shape, group_kinds};

    reveal(spec_lower_generator_for);
    let given = st;
    lemma_grows_itself(st);
    let span = cx.span_at(header.start);
    match &iterable.ty {
        Type::DynamicInterface(interface, _) => {
            let interface = *interface;
            match next_of(cx.program, interface) {
                Some(method) => {
                    lemma_materialize_operand(st, iterable.operand, iterable.ty, span);
                    let (next_st, generator) = spec_materialize_operand(
                        st,
                        iterable.operand,
                        iterable.ty,
                        span,
                    );
                    lemma_grows_on(given, st, next_st);
                    let st = next_st;
                    assert(fits(st) && is_sound(given) && value_fits(iterable, bounds_of(given))
                        ==> is_sound(st) && place_fits(generator, bounds_of(st)));
                    lemma_item_local(cx, st, header, item_type.dup());
                    let (next_st, binding) = spec_item_local(cx, st, header, item_type.dup());
                    lemma_grows_on(given, st, next_st);
                    let st = next_st;
                    assert(fits(st) && is_sound(given) && value_fits(iterable, bounds_of(given))
                        ==> is_sound(st) && binding.0 < bounds_of(st).locals);
                    lemma_new_block(st);
                    let (next_st, condition_block) = spec_new_block(st);
                    lemma_grows_on(given, st, next_st);
                    let st = next_st;
                    assert(fits(st) && is_sound(given) && value_fits(iterable, bounds_of(given))
                        ==> is_sound(st) && condition_block.0 < bounds_of(st).blocks);
                    lemma_new_block(st);
                    let (next_st, resume_block) = spec_new_block(st);
                    lemma_grows_on(given, st, next_st);
                    let st = next_st;
                    assert(fits(st) && is_sound(given) && value_fits(iterable, bounds_of(given))
                        ==> is_sound(st) && resume_block.0 < bounds_of(st).blocks);
                    lemma_new_block(st);
                    let (next_st, body_block) = spec_new_block(st);
                    lemma_grows_on(given, st, next_st);
                    let st = next_st;
                    assert(fits(st) && is_sound(given) && value_fits(iterable, bounds_of(given))
                        ==> is_sound(st) && body_block.0 < bounds_of(st).blocks);
                    lemma_new_block(st);
                    let (next_st, exit_block) = spec_new_block(st);
                    lemma_grows_on(given, st, next_st);
                    let st = next_st;
                    assert(fits(st) && is_sound(given) && value_fits(iterable, bounds_of(given))
                        ==> is_sound(st) && exit_block.0 < bounds_of(st).blocks);
                    lemma_terminate(st, TerminatorKind::Goto(condition_block), span);
                    let next_st = spec_terminate(st, TerminatorKind::Goto(condition_block), span);
                    lemma_grows_on(given, st, next_st);
                    let st = next_st;
                    assert(fits(st) && is_sound(given) && value_fits(iterable, bounds_of(given))
                        ==> is_sound(st));
                    lemma_set_current(st, condition_block);
                    let next_st = State { current: condition_block, ..st };
                    lemma_grows_on(given, st, next_st);
                    let st = next_st;
                    assert(fits(st) && is_sound(given) && value_fits(iterable, bounds_of(given))
                        ==> is_sound(st));
                    let optional_item = Type::Optional(Box::new(item_type.dup()));
                    let result = next_result(&optional_item, asynchronous);
                    let signature = signature_of(
                        List::Nil,
                        result.dup(),
                        List::Nil,
                        asynchronous,
                        method.is_unsafe,
                    );
                    lemma_computed(
                        st, Type::Function(signature.dup()),
                        Rvalue::WitnessLookup {
                            object: generator.dup(),
                            interface,
                            slot: method.slot,
                            receiver: ReceiverMode::Mutable,
                            ty: Type::Function(signature.dup()),
                        },
                        span,
                    );
                    let (next_st, function) = spec_computed(
                        st, Type::Function(signature.dup()),
                        Rvalue::WitnessLookup {
                            object: generator.dup(),
                            interface,
                            slot: method.slot,
                            receiver: ReceiverMode::Mutable,
                            ty: Type::Function(signature.dup()),
                        },
                        span,
                    );
                    lemma_grows_on(given, st, next_st);
                    let st = next_st;
                    assert(fits(st) && is_sound(given) && value_fits(iterable, bounds_of(given))
                        ==> is_sound(st) && operand_fits(function, bounds_of(st)));
                    lemma_emit_call(
                        cx,
                        st,
                        function,
                        Some(Operand::Copy(generator)),
                        &signature,
                        List::Nil,
                        header.iterable,
                    );
                    let (next_st, attempt) = spec_emit_call(
                        cx,
                        st,
                        function,
                        Some(Operand::Copy(generator)),
                        &signature,
                        List::Nil,
                        header.iterable,
                    );
                    lemma_grows_on(given, st, next_st);
                    let st = next_st;
                    assert(fits(st) && is_sound(given) && value_fits(iterable, bounds_of(given))
                        ==> is_sound(st) && optional_value_fits(attempt, bounds_of(st)));
                    match attempt {
                        Some(item) => {
                            lemma_materialize_operand(st, item.operand, result, span);
                            let (next_st, returned) = spec_materialize_operand(
                                st,
                                item.operand,
                                result,
                                span,
                            );
                            lemma_grows_on(given, st, next_st);
                            let st = next_st;
                            assert(fits(st) && is_sound(given)
                                && value_fits(iterable, bounds_of(given))
                                    ==> is_sound(st) && place_fits(returned, bounds_of(st)));
                            lemma_awaited_item(
                                st,
                                returned,
                                &optional_item,
                                asynchronous,
                                resume_block,
                                exit_block,
                                span,
                            );
                            let (next_st, optional) = spec_awaited_item(
                                st,
                                returned,
                                &optional_item,
                                asynchronous,
                                resume_block,
                                exit_block,
                                span,
                            );
                            lemma_grows_on(given, st, next_st);
                            let st = next_st;
                            assert(fits(st) && is_sound(given)
                                && value_fits(iterable, bounds_of(given))
                                    ==> is_sound(st) && place_fits(optional, bounds_of(st)));
                            lemma_branch(
                                st,
                                Operand::Copy(optional.dup()),
                                body_block,
                                exit_block,
                                span,
                            );
                            let next_st = spec_branch(
                                st,
                                Operand::Copy(optional.dup()),
                                body_block,
                                exit_block,
                                span,
                            );
                            lemma_grows_on(given, st, next_st);
                            let st = next_st;
                            assert(fits(st) && is_sound(given)
                                && value_fits(iterable, bounds_of(given)) ==> is_sound(st));
                            lemma_set_current(st, body_block);
                            let next_st = State { current: body_block, ..st };
                            lemma_grows_on(given, st, next_st);
                            let st = next_st;
                            assert(fits(st) && is_sound(given)
                                && value_fits(iterable, bounds_of(given)) ==> is_sound(st));
                            lemma_fill_present_item(cx, st, header, binding, optional, low);
                            let next_st = spec_fill_present_item(
                                cx,
                                st,
                                header,
                                binding,
                                optional,
                                low,
                            );
                            lemma_grows_on(given, st, next_st);
                            let st = next_st;
                            assert(fits(st) && is_sound(given)
                                && value_fits(iterable, bounds_of(given)) ==> is_sound(st));
                            lemma_lower_loop_body(
                                cx,
                                st,
                                next(header.close),
                                condition_block,
                                exit_block,
                                span,
                                low,
                            );
                            let next_st = spec_lower_loop_body(
                                cx,
                                st,
                                next(header.close),
                                condition_block,
                                exit_block,
                                span,
                                low,
                            );
                            lemma_grows_on(given, st, next_st);
                            let st = next_st;
                            assert(fits(st) && is_sound(given)
                                && value_fits(iterable, bounds_of(given)) ==> is_sound(st));
                            lemma_set_current(st, exit_block);
                            let next_st = State { current: exit_block, ..st };
                            lemma_grows_on(given, st, next_st);
                            let st = next_st;
                            assert(fits(st) && is_sound(given)
                                && value_fits(iterable, bounds_of(given)) ==> is_sound(st));
                        },
                        _ => {
                            lemma_lower_without_items(cx, st, header, low);
                            let next_st = spec_lower_without_items(cx, st, header, low);
                            lemma_grows_on(given, st, next_st);
                            let st = next_st;
                            assert(fits(st) && is_sound(given)
                                && value_fits(iterable, bounds_of(given)) ==> is_sound(st));
                        },
                    }
                },
                _ => {
                    lemma_lower_without_items(cx, st, header, low);
                    let next_st = spec_lower_without_items(cx, st, header, low);
                    lemma_grows_on(given, st, next_st);
                    let st = next_st;
                    assert(fits(st) && is_sound(given) && value_fits(iterable, bounds_of(given))
                        ==> is_sound(st));
                },
            }
        },
        _ => {
            lemma_lower_without_items(cx, st, header, low);
            let next_st = spec_lower_without_items(cx, st, header, low);
            lemma_grows_on(given, st, next_st);
            let st = next_st;
            assert(fits(st) && is_sound(given) && value_fits(iterable, bounds_of(given))
                ==> is_sound(st));
        },
    }
}

} // verus!
