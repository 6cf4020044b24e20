//! Calls and suspensions keep graphs well formed.

use vstd::prelude::*;

use crate::hir::{DeclarationId, FunctionType, Type};
use crate::ids::sorted_ids;
use crate::list::{dup_plain, one, List};
use crate::lowering::builder::{
    spec_active_disposals, spec_fresh_region, spec_handler, spec_is_open, spec_is_temporary,
    spec_local_type, spec_new_block, spec_statement, spec_temporary, spec_terminate, Managed, State,
};
use crate::lowering::context::Context;
use crate::lowering::emit::{
    borrow_kind, disposal_signature, error_block, error_place, is_fallible, moved,
    spec_all_declared, spec_assign, spec_begin_call, spec_begin_suspension, spec_borrowed,
    spec_branch, spec_call_error, spec_computed, spec_continue_at, spec_dispose, spec_emit_call,
    spec_end_storage, spec_error_exit, spec_fail_in_disposal, spec_finish_call,
    spec_finish_suspension, spec_hand_over_error, spec_handler_depth, spec_live,
    spec_lower_async_disposals, spec_lower_await_operand, spec_materialize_operand,
    spec_result_local, spec_route_error, spec_suspension_error, spec_temporaries_of,
    spec_temporary_before, spec_wrapped, when_set, whole_local, CallSite, ErrorExit, SuspensionSite,
    Value,
};
use crate::lowering::members::{disposal_method, method_owner};
use crate::lowering::shape::base::{
    bounds_of, call_fits, exit_fits, fits, group_shape, grows, is_sound, lemma_active_disposals,
    lemma_fresh_region, lemma_grows_itself, lemma_grows_on, lemma_handler, lemma_new_block,
    lemma_set_current, lemma_statement, lemma_temporary, lemma_terminate, locals_fit, managed_fit,
    operand_fits, operands_fit, optional_local_fits, optional_operand_fits, optional_value_fits,
    place_fits, rvalue_fits, suspension_fits, value_fits,
};
use crate::lowering::shape::kinds::group_kinds;
use crate::lowering::types::is_void;
use crate::mir::{
    operand_place_ref, whole, BasicBlockId, CastKind, Constant, LocalId, Operand, Place, Rvalue,
    StatementKind, TerminatorKind,
};
use crate::syntax::Span;

verus! {

pub proof fn lemma_live(st: State, ty: Type, span: Span)
    ensures
        ({
            let after = spec_live(st, ty, span);
            &&& grows(st, after.0)
            &&& fits(after.0) && is_sound(st)
                ==> is_sound(after.0) && after.1.0 < bounds_of(after.0).locals
        }),
{
    broadcast use {group_shape, group_kinds};

    reveal(spec_live);
    let given = st;
    lemma_grows_itself(st);
    lemma_temporary(st, ty, span);
    let (next_st, local) = spec_temporary(st, ty, span);
    lemma_grows_on(given, st, next_st);
    let st = next_st;
    lemma_statement(st, StatementKind::StorageLive(local), span);
    let next_st = spec_statement(st, StatementKind::StorageLive(local), span);
    lemma_grows_on(given, st, next_st);
    let st = next_st;
}

pub proof fn lemma_assign(st: State, local: LocalId, value: Rvalue, span: Span)
    ensures
        ({
            let after = spec_assign(st, local, value, span);
            &&& grows(st, after)
            &&& fits(after) && is_sound(st) && local.0 < bounds_of(st).locals
                && rvalue_fits(value, bounds_of(st))
                ==> is_sound(after)
        }),
{
    broadcast use {group_shape, group_kinds};

    reveal(spec_assign);
    let given = st;
    lemma_grows_itself(st);
    lemma_statement(st, StatementKind::Assign(whole(local), value), span);
    let next_st = spec_statement(st, StatementKind::Assign(whole(local), value), span);
    lemma_grows_on(given, st, next_st);
    let st = next_st;
}

pub proof fn lemma_computed(st: State, ty: Type, value: Rvalue, span: Span)
    ensures
        ({
            let after = spec_computed(st, ty, value, span);
            &&& grows(st, after.0)
            &&& fits(after.0) && is_sound(st) && rvalue_fits(value, bounds_of(st))
                ==> is_sound(after.0) && operand_fits(after.1, bounds_of(after.0))
        }),
{
    broadcast use {group_shape, group_kinds};

    reveal(spec_computed);
    let given = st;
    lemma_grows_itself(st);
    lemma_live(st, ty, span);
    let (next_st, local) = spec_live(st, ty, span);
    lemma_grows_on(given, st, next_st);
    let st = next_st;
    lemma_assign(st, local, value, span);
    let next_st = spec_assign(st, local, value, span);
    lemma_grows_on(given, st, next_st);
    let st = next_st;
}

pub proof fn lemma_borrowed(st: State, ty: Type, mutable: bool, place: Place, span: Span)
    ensures
        ({
            let after = spec_borrowed(st, ty, mutable, place, span);
            &&& grows(st, after.0)
            &&& fits(after.0) && is_sound(st) && place_fits(place, bounds_of(st))
                ==> is_sound(after.0) && operand_fits(after.1, bounds_of(after.0))
        }),
{
    broadcast use {group_shape, group_kinds};

    reveal(spec_borrowed);
    let given = st;
    lemma_grows_itself(st);
    lemma_live(st, ty, span);
    let (next_st, destination) = spec_live(st, ty, span);
    lemma_grows_on(given, st, next_st);
    let st = next_st;
    lemma_fresh_region(st);
    let (next_st, region) = spec_fresh_region(st);
    lemma_grows_on(given, st, next_st);
    let st = next_st;
    lemma_statement(
        st, StatementKind::Borrow { destination, kind: borrow_kind(mutable), place, region },
        span,
    );
    let next_st = spec_statement(
        st, StatementKind::Borrow { destination, kind: borrow_kind(mutable), place, region },
        span,
    );
    lemma_grows_on(given, st, next_st);
    let st = next_st;
}

pub proof fn lemma_wrapped(
    st: State,
    local: LocalId,
    ty: Type,
    value: Operand,
    value_type: Type,
    span: Span,
)
    ensures
        ({
            let after = spec_wrapped(st, local, ty, value, value_type, span);
            &&& grows(st, after)
            &&& fits(after) && is_sound(st) && local.0 < bounds_of(st).locals
                && operand_fits(value, bounds_of(st))
                ==> is_sound(after)
        }),
{
    broadcast use {group_shape, group_kinds};

    reveal(spec_wrapped);
    let given = st;
    lemma_grows_itself(st);
    lemma_assign(
        st,
        local,
        Rvalue::Aggregate {
            ty,
            variant: Some(1),
            fields: one(value),
            field_types: one(value_type),
        },
        span,
    );
    let next_st = spec_assign(
        st,
        local,
        Rvalue::Aggregate {
            ty,
            variant: Some(1),
            fields: one(value),
            field_types: one(value_type),
        },
        span,
    );
    lemma_grows_on(given, st, next_st);
    let st = next_st;
    lemma_statement(st, StatementKind::SetDiscriminant(whole(local), 1), span);
    let next_st = spec_statement(st, StatementKind::SetDiscriminant(whole(local), 1), span);
    lemma_grows_on(given, st, next_st);
    let st = next_st;
}

pub proof fn lemma_materialize_operand(st: State, operand: Operand, ty: Type, span: Span)
    ensures
        ({
            let after = spec_materialize_operand(st, operand, ty, span);
            &&& grows(st, after.0)
            &&& fits(after.0) && is_sound(st) && operand_fits(operand, bounds_of(st))
                ==> is_sound(after.0) && place_fits(after.1, bounds_of(after.0))
        }),
{
    broadcast use {group_shape, group_kinds};

    reveal(spec_materialize_operand);
    let given = st;
    lemma_grows_itself(st);
    match operand {
        Operand::Copy(place) => {},
        Operand::Move(place) => {},
        Operand::Constant(constant) => {
            lemma_live(st, ty, span);
            let (next_st, local) = spec_live(st, ty, span);
            lemma_grows_on(given, st, next_st);
            let st = next_st;
            lemma_assign(st, local, Rvalue::Use(Operand::Constant(constant)), span);
            let next_st = spec_assign(st, local, Rvalue::Use(Operand::Constant(constant)), span);
            lemma_grows_on(given, st, next_st);
            let st = next_st;
        },
    }
}

pub proof fn lemma_continue_at(st: State, block: BasicBlockId, span: Span)
    ensures
        ({
            let after = spec_continue_at(st, block, span);
            &&& grows(st, after)
            &&& fits(after) && is_sound(st) && block.0 < bounds_of(st).blocks
                ==> is_sound(after)
        }),
{
    broadcast use {group_shape, group_kinds};

    reveal(spec_continue_at);
    let given = st;
    lemma_grows_itself(st);
    if spec_is_open(st) {
        lemma_terminate(st, TerminatorKind::Goto(block), span);
        let next_st = spec_terminate(st, TerminatorKind::Goto(block), span);
        lemma_grows_on(given, st, next_st);
        let st = next_st;
    }
}

pub proof fn lemma_branch(
    st: State,
    value: Operand,
    set: BasicBlockId,
    otherwise: BasicBlockId,
    span: Span,
)
    ensures
        ({
            let after = spec_branch(st, value, set, otherwise, span);
            &&& grows(st, after)
            &&& fits(after) && is_sound(st) && operand_fits(value, bounds_of(st))
                && set.0 < bounds_of(st).blocks && otherwise.0 < bounds_of(st).blocks
                ==> is_sound(after)
        }),
{
    broadcast use {group_shape, group_kinds};

    reveal(spec_branch);
    let given = st;
    lemma_grows_itself(st);
    lemma_terminate(st, TerminatorKind::Switch { value, targets: when_set(set), otherwise }, span);
    let next_st = spec_terminate(
        st,
        TerminatorKind::Switch { value, targets: when_set(set), otherwise },
        span,
    );
    lemma_grows_on(given, st, next_st);
    let st = next_st;
}

pub proof fn lemma_end_storage(st: State, locals: &List<LocalId>, span: Span)
    ensures
        ({
            let after = spec_end_storage(st, locals, span);
            &&& grows(st, after)
            &&& fits(after) && is_sound(st) && locals_fit(*locals, bounds_of(st))
                ==> is_sound(after)
        }),
    decreases locals,
{
    broadcast use {group_shape, group_kinds};

    reveal_with_fuel(spec_end_storage, 2);
    let given = st;
    lemma_grows_itself(st);
    match locals {
        List::Nil => {},
        List::Cons(head, tail) => {
            lemma_statement(st, StatementKind::StorageDead(**head), span);
            let next_st = spec_statement(st, StatementKind::StorageDead(**head), span);
            lemma_grows_on(given, st, next_st);
            let st = next_st;
            lemma_end_storage(st, tail, span);
            let next_st = spec_end_storage(st, tail, span);
            lemma_grows_on(given, st, next_st);
            let st = next_st;
        },
    }
}

pub proof fn lemma_temporary_before(st: State, operand: &Operand, others: List<LocalId>)
    ensures
        ({
            let found = spec_temporary_before(st, operand, others);
            is_sound(st) && operand_fits(*operand, bounds_of(st))
                && locals_fit(others, bounds_of(st)) ==> locals_fit(found, bounds_of(st))
        }),
{
    broadcast use {group_shape, group_kinds};

    reveal(spec_temporary_before);
    match operand_place_ref(operand) {
        Some(place) => {
            if place.is_whole() && spec_is_temporary(st, place.local) {
            }
        },
        None => {},
    }
}

pub proof fn lemma_temporaries_of(st: State, operands: &List<Operand>)
    ensures
        ({
            let found = spec_temporaries_of(st, operands);
            is_sound(st) && operands_fit(*operands, bounds_of(st))
                ==> locals_fit(found, bounds_of(st))
        }),
    decreases operands,
{
    broadcast use {group_shape, group_kinds};

    reveal_with_fuel(spec_temporaries_of, 2);
    match operands {
        List::Nil => {},
        List::Cons(head, tail) => {
            lemma_temporaries_of(st, tail);
            lemma_temporary_before(st, head, spec_temporaries_of(st, tail));
        },
    }
}

pub proof fn lemma_result_local(st: State, ty: &Type, span: Span)
    ensures
        ({
            let after = spec_result_local(st, ty, span);
            &&& grows(st, after.0)
            &&& fits(after.0) && is_sound(st)
                ==> is_sound(after.0) && optional_local_fits(after.1, bounds_of(after.0))
        }),
{
    broadcast use {group_shape, group_kinds};

    reveal(spec_result_local);
    let given = st;
    lemma_grows_itself(st);
    if is_void(ty) {
    } else {
        lemma_live(st, ty.dup(), span);
        let (next_st, local) = spec_live(st, ty.dup(), span);
        lemma_grows_on(given, st, next_st);
        let st = next_st;
    }
}

pub proof fn lemma_call_error(st: State, signature: &FunctionType, span: Span)
    ensures
        ({
            let after = spec_call_error(st, signature, span);
            &&& grows(st, after.0)
            &&& fits(after.0) && is_sound(st)
                ==> is_sound(after.0) && exit_fits(after.1, bounds_of(after.0))
        }),
{
    broadcast use {group_shape, group_kinds};

    reveal(spec_call_error);
    let given = st;
    lemma_grows_itself(st);
    if !is_fallible(signature) {
    } else {
        lemma_new_block(st);
        let (next_st, block) = spec_new_block(st);
        lemma_grows_on(given, st, next_st);
        let st = next_st;
        lemma_live(st, Type::ErrorUnion(sorted_ids(&signature.effects)), span);
        let (next_st, payload) = spec_live(
            st,
            Type::ErrorUnion(sorted_ids(&signature.effects)),
            span,
        );
        lemma_grows_on(given, st, next_st);
        let st = next_st;
    }
}

pub proof fn lemma_begin_call(
    st: State,
    function: Operand,
    receiver: Option<Operand>,
    signature: &FunctionType,
    arguments: List<Operand>,
    span: Span,
)
    ensures
        ({
            let after = spec_begin_call(st, function, receiver, signature, arguments, span);
            &&& grows(st, after.0)
            &&& fits(after.0) && is_sound(st) && operand_fits(function, bounds_of(st))
                && optional_operand_fits(receiver, bounds_of(st))
                    && operands_fit(arguments, bounds_of(st))
                ==> is_sound(after.0) && call_fits(after.1, bounds_of(after.0))
        }),
{
    broadcast use {group_shape, group_kinds};

    reveal(spec_begin_call);
    let given = st;
    lemma_grows_itself(st);
    lemma_temporaries_of(st, &arguments);
    lemma_temporary_before(st, &function, spec_temporaries_of(st, &arguments));
    let temporaries = spec_temporary_before(st, &function, spec_temporaries_of(st, &arguments));
    lemma_result_local(st, &signature.result, span);
    let (next_st, destination) = spec_result_local(st, &signature.result, span);
    lemma_grows_on(given, st, next_st);
    let st = next_st;
    lemma_new_block(st);
    let (next_st, success) = spec_new_block(st);
    lemma_grows_on(given, st, next_st);
    let st = next_st;
    lemma_call_error(st, signature, span);
    let (next_st, error) = spec_call_error(st, signature, span);
    lemma_grows_on(given, st, next_st);
    let st = next_st;
    lemma_terminate(
        st, TerminatorKind::Call {
            function,
            receiver,
            arguments,
            destination: whole_local(destination),
            error_destination: error_place(error),
            success,
            error: error_block(error),
        },
        span,
    );
    let next_st = spec_terminate(
        st, TerminatorKind::Call {
            function,
            receiver,
            arguments,
            destination: whole_local(destination),
            error_destination: error_place(error),
            success,
            error: error_block(error),
        },
        span,
    );
    lemma_grows_on(given, st, next_st);
    let st = next_st;
}

pub proof fn lemma_finish_call(st: State, site: CallSite, signature: &FunctionType, span: Span)
    ensures
        ({
            let after = spec_finish_call(st, site, signature, span);
            &&& grows(st, after.0)
            &&& fits(after.0) && is_sound(st) && call_fits(site, bounds_of(st))
                ==> is_sound(after.0) && optional_value_fits(after.1, bounds_of(after.0))
        }),
{
    broadcast use {group_shape, group_kinds};

    reveal(spec_finish_call);
    let given = st;
    lemma_grows_itself(st);
    lemma_set_current(st, site.success);
    let next_st = State { current: site.success, ..st };
    lemma_grows_on(given, st, next_st);
    let st = next_st;
    lemma_end_storage(st, &site.temporaries, span);
    let next_st = spec_end_storage(st, &site.temporaries, span);
    lemma_grows_on(given, st, next_st);
    let st = next_st;
    match site.destination {
        Some(local) => {},
        None => {},
    }
}

pub proof fn lemma_hand_over_error(
    cx: &Context,
    st: State,
    error: Operand,
    effects: &List<DeclarationId>,
    start: usize,
)
    ensures
        ({
            let after = spec_hand_over_error(cx, st, error, effects, start);
            &&& grows(st, after)
            &&& fits(after) && is_sound(st) && operand_fits(error, bounds_of(st))
                ==> is_sound(after)
        }),
{
    broadcast use {group_shape, group_kinds};

    reveal(spec_hand_over_error);
    let given = st;
    lemma_grows_itself(st);
    let span = cx.span_at(start);
    lemma_handler(st);
    match spec_handler(st) {
        Some(handler) => {
            lemma_assign(
                st,
                handler.payload,
                Rvalue::Cast {
                    operand: error,
                    ty: Type::ErrorUnion(handler.effects),
                    kind: CastKind::ErrorUnion,
                },
                span,
            );
            let next_st = spec_assign(
                st,
                handler.payload,
                Rvalue::Cast {
                    operand: error,
                    ty: Type::ErrorUnion(handler.effects),
                    kind: CastKind::ErrorUnion,
                },
                span,
            );
            lemma_grows_on(given, st, next_st);
            let st = next_st;
            lemma_terminate(st, TerminatorKind::Goto(handler.dispatch), span);
            let next_st = spec_terminate(st, TerminatorKind::Goto(handler.dispatch), span);
            lemma_grows_on(given, st, next_st);
            let st = next_st;
        },
        None => {
            if spec_all_declared(cx, effects) {
                lemma_terminate(st, TerminatorKind::Throw(error), span);
                let next_st = spec_terminate(st, TerminatorKind::Throw(error), span);
                lemma_grows_on(given, st, next_st);
                let st = next_st;
            } else {
                lemma_terminate(st, TerminatorKind::Unreachable, span);
                let next_st = spec_terminate(st, TerminatorKind::Unreachable, span);
                lemma_grows_on(given, st, next_st);
                let st = next_st;
            }
        },
    }
}

pub proof fn lemma_fail_in_disposal(
    cx: &Context,
    st: State,
    error: Option<ErrorExit>,
    temporaries: &List<LocalId>,
    effects: &List<DeclarationId>,
    start: usize,
)
    ensures
        ({
            let after = spec_fail_in_disposal(cx, st, error, temporaries, effects, start);
            &&& grows(st, after)
            &&& fits(after) && is_sound(st) && exit_fits(error, bounds_of(st))
                && locals_fit(*temporaries, bounds_of(st))
                ==> is_sound(after)
        }),
{
    broadcast use {group_shape, group_kinds};

    reveal(spec_fail_in_disposal);
    let given = st;
    lemma_grows_itself(st);
    match error {
        Some(exit) => {
            lemma_set_current(st, exit.block);
            let next_st = State { current: exit.block, ..st };
            lemma_grows_on(given, st, next_st);
            let st = next_st;
            lemma_end_storage(st, temporaries, cx.span_at(start));
            let next_st = spec_end_storage(st, temporaries, cx.span_at(start));
            lemma_grows_on(given, st, next_st);
            let st = next_st;
            lemma_hand_over_error(cx, st, Operand::Move(whole(exit.payload)), effects, start);
            let next_st = spec_hand_over_error(
                cx,
                st,
                Operand::Move(whole(exit.payload)),
                effects,
                start,
            );
            lemma_grows_on(given, st, next_st);
            let st = next_st;
        },
        None => {},
    }
}

pub proof fn lemma_suspension_error(st: State, effects: &List<DeclarationId>, span: Span)
    ensures
        ({
            let after = spec_suspension_error(st, effects, span);
            &&& grows(st, after.0)
            &&& fits(after.0) && is_sound(st)
                ==> is_sound(after.0) && optional_local_fits(after.1, bounds_of(after.0))
        }),
{
    broadcast use {group_shape, group_kinds};

    reveal(spec_suspension_error);
    let given = st;
    lemma_grows_itself(st);
    if effects.is_empty() {
    } else {
        lemma_live(st, Type::ErrorUnion(dup_plain(effects)), span);
        let (next_st, payload) = spec_live(st, Type::ErrorUnion(dup_plain(effects)), span);
        lemma_grows_on(given, st, next_st);
        let st = next_st;
    }
}

pub proof fn lemma_error_exit(st: State, payload: Option<LocalId>)
    ensures
        ({
            let after = spec_error_exit(st, payload);
            &&& grows(st, after.0)
            &&& fits(after.0) && is_sound(st) && optional_local_fits(payload, bounds_of(st))
                ==> is_sound(after.0) && exit_fits(after.1, bounds_of(after.0))
        }),
{
    broadcast use {group_shape, group_kinds};

    reveal(spec_error_exit);
    let given = st;
    lemma_grows_itself(st);
    match payload {
        Some(payload) => {
            lemma_new_block(st);
            let (next_st, block) = spec_new_block(st);
            lemma_grows_on(given, st, next_st);
            let st = next_st;
        },
        None => {},
    }
}

pub proof fn lemma_begin_suspension(
    st: State,
    value: Operand,
    result: &Type,
    effects: &List<DeclarationId>,
    span: Span,
)
    ensures
        ({
            let after = spec_begin_suspension(st, value, result, effects, span);
            &&& grows(st, after.0)
            &&& fits(after.0) && is_sound(st) && operand_fits(value, bounds_of(st))
                ==> is_sound(after.0) && suspension_fits(after.1, bounds_of(after.0))
        }),
{
    broadcast use {group_shape, group_kinds};

    reveal(spec_begin_suspension);
    let given = st;
    lemma_grows_itself(st);
    lemma_result_local(st, result, span);
    let (next_st, destination) = spec_result_local(st, result, span);
    lemma_grows_on(given, st, next_st);
    let st = next_st;
    lemma_suspension_error(st, effects, span);
    let (next_st, payload) = spec_suspension_error(st, effects, span);
    lemma_grows_on(given, st, next_st);
    let st = next_st;
    lemma_new_block(st);
    let (next_st, resume) = spec_new_block(st);
    lemma_grows_on(given, st, next_st);
    let st = next_st;
    lemma_error_exit(st, payload);
    let (next_st, error) = spec_error_exit(st, payload);
    lemma_grows_on(given, st, next_st);
    let st = next_st;
    lemma_new_block(st);
    let (next_st, cancel) = spec_new_block(st);
    lemma_grows_on(given, st, next_st);
    let st = next_st;
    lemma_terminate(
        st, TerminatorKind::Suspend {
            value: moved(value),
            destination: whole_local(destination),
            error_destination: error_place(error),
            resume,
            error: error_block(error),
            cancel,
        },
        span,
    );
    let next_st = spec_terminate(
        st, TerminatorKind::Suspend {
            value: moved(value),
            destination: whole_local(destination),
            error_destination: error_place(error),
            resume,
            error: error_block(error),
            cancel,
        },
        span,
    );
    lemma_grows_on(given, st, next_st);
    let st = next_st;
}

pub proof fn lemma_finish_suspension(st: State, site: SuspensionSite, result: Type, span: Span)
    ensures
        ({
            let after = spec_finish_suspension(st, site, result, span);
            &&& grows(st, after.0)
            &&& fits(after.0) && is_sound(st) && suspension_fits(site, bounds_of(st))
                ==> is_sound(after.0) && value_fits(after.1, bounds_of(after.0))
        }),
{
    broadcast use {group_shape, group_kinds};

    reveal(spec_finish_suspension);
    let given = st;
    lemma_grows_itself(st);
    if spec_is_open(st) {
        lemma_terminate(st, TerminatorKind::Unreachable, span);
        let next_st = spec_terminate(st, TerminatorKind::Unreachable, span);
        lemma_grows_on(given, st, next_st);
        let st = next_st;
    }
    let next_st = if spec_is_open(st) {
        spec_terminate(st, TerminatorKind::Unreachable, span)
    } else {
        st
    };
    assert(grows(given, next_st));
    let st = next_st;
    lemma_set_current(st, site.resume);
    let next_st = State { current: site.resume, ..st };
    lemma_grows_on(given, st, next_st);
    let st = next_st;
    match site.destination {
        Some(local) => {},
        None => {},
    }
}

pub proof fn lemma_dispose(cx: &Context, st: State, managed: Managed)
    ensures
        ({
            let after = spec_dispose(cx, st, managed);
            &&& grows(st, after)
            &&& fits(after) && is_sound(st) && managed.local.0 < bounds_of(st).locals
                ==> is_sound(after)
        }),
{
    broadcast use {group_shape, group_kinds};

    reveal(spec_dispose);
    let given = st;
    lemma_grows_itself(st);
    let span = cx.span_at(managed.token);
    match spec_local_type(st, managed.local) {
        Some(ty) => {
            match disposal_method(cx.program, &ty) {
                Some(method) => {
                    match method_owner(cx.program, method.id) {
                        Some(implementation) => {
                            let signature = disposal_signature(method);
                            let function_type = Type::Function(signature.dup());
                            lemma_computed(
                                st, function_type.dup(),
                                Rvalue::DirectMethod {
                                    object: whole(managed.local),
                                    implementation,
                                    member: method.id,
                                    receiver: method.receiver,
                                    ty: function_type,
                                },
                                span,
                            );
                            let (next_st, function) = spec_computed(
                                st, function_type.dup(),
                                Rvalue::DirectMethod {
                                    object: whole(managed.local),
                                    implementation,
                                    member: method.id,
                                    receiver: method.receiver,
                                    ty: function_type,
                                },
                                span,
                            );
                            lemma_grows_on(given, st, next_st);
                            let st = next_st;
                            lemma_begin_call(
                                st,
                                function,
                                Some(Operand::Copy(whole(managed.local))),
                                &signature,
                                List::Nil,
                                span,
                            );
                            let (next_st, call) = spec_begin_call(
                                st,
                                function,
                                Some(Operand::Copy(whole(managed.local))),
                                &signature,
                                List::Nil,
                                span,
                            );
                            lemma_grows_on(given, st, next_st);
                            let st = next_st;
                            lemma_fail_in_disposal(
                                cx,
                                st,
                                call.error,
                                &call.temporaries,
                                &signature.effects,
                                managed.token,
                            );
                            let next_st = spec_fail_in_disposal(
                                cx,
                                st,
                                call.error,
                                &call.temporaries,
                                &signature.effects,
                                managed.token,
                            );
                            lemma_grows_on(given, st, next_st);
                            let st = next_st;
                            lemma_finish_call(st, call, &signature, span);
                            let (next_st, attempt) = spec_finish_call(st, call, &signature, span);
                            lemma_grows_on(given, st, next_st);
                            let st = next_st;
                            match attempt {
                                Some(promise) => {
                                    match promise.ty {
                                        Type::Promise { result, effects, .. } => {
                                            lemma_begin_suspension(
                                                st,
                                                promise.operand,
                                                &result,
                                                &effects,
                                                span,
                                            );
                                            let (next_st, suspension) = spec_begin_suspension(
                                                st,
                                                promise.operand,
                                                &result,
                                                &effects,
                                                span,
                                            );
                                            lemma_grows_on(given, st, next_st);
                                            let st = next_st;
                                            lemma_fail_in_disposal(
                                                cx,
                                                st,
                                                suspension.error,
                                                &List::Nil,
                                                &effects,
                                                managed.token,
                                            );
                                            let next_st = spec_fail_in_disposal(
                                                cx,
                                                st,
                                                suspension.error,
                                                &List::Nil,
                                                &effects,
                                                managed.token,
                                            );
                                            lemma_grows_on(given, st, next_st);
                                            let st = next_st;
                                            lemma_set_current(st, suspension.cancel);
                                            let next_st =
                                                State { current: suspension.cancel, ..st };
                                            lemma_grows_on(given, st, next_st);
                                            let st = next_st;
                                            lemma_finish_suspension(st, suspension, *result, span);
                                            let (next_st, _) = spec_finish_suspension(
                                                st,
                                                suspension,
                                                *result,
                                                span,
                                            );
                                            lemma_grows_on(given, st, next_st);
                                            let st = next_st;
                                        },
                                        _ => {},
                                    }
                                },
                                _ => {},
                            }
                        },
                        _ => {},
                    }
                },
                _ => {},
            }
        },
        _ => {},
    }
}

pub proof fn lemma_lower_async_disposals(cx: &Context, st: State, managed: &List<Managed>)
    ensures
        ({
            let after = spec_lower_async_disposals(cx, st, managed);
            &&& grows(st, after)
            &&& fits(after) && is_sound(st) && managed_fit(*managed, bounds_of(st))
                ==> is_sound(after)
        }),
    decreases managed,
{
    broadcast use {group_shape, group_kinds};

    reveal_with_fuel(spec_lower_async_disposals, 2);
    let given = st;
    lemma_grows_itself(st);
    match managed {
        List::Nil => {},
        List::Cons(head, tail) => {
            lemma_lower_async_disposals(cx, st, tail);
            let next_st = spec_lower_async_disposals(cx, st, tail);
            lemma_grows_on(given, st, next_st);
            let st = next_st;
            lemma_dispose(cx, st, **head);
            let next_st = spec_dispose(cx, st, **head);
            lemma_grows_on(given, st, next_st);
            let st = next_st;
        },
    }
}

pub proof fn lemma_route_error(
    cx: &Context,
    st: State,
    error: Operand,
    effects: &List<DeclarationId>,
    start: usize,
)
    ensures
        ({
            let after = spec_route_error(cx, st, error, effects, start);
            &&& grows(st, after)
            &&& fits(after) && is_sound(st) && operand_fits(error, bounds_of(st))
                ==> is_sound(after)
        }),
{
    broadcast use {group_shape, group_kinds};

    reveal(spec_route_error);
    let given = st;
    lemma_grows_itself(st);
    lemma_active_disposals(st, spec_handler_depth(st));
    let managed = spec_active_disposals(st, spec_handler_depth(st));
    lemma_lower_async_disposals(cx, st, &managed);
    let next_st = spec_lower_async_disposals(cx, st, &managed);
    lemma_grows_on(given, st, next_st);
    let st = next_st;
    lemma_hand_over_error(cx, st, error, effects, start);
    let next_st = spec_hand_over_error(cx, st, error, effects, start);
    lemma_grows_on(given, st, next_st);
    let st = next_st;
}

pub proof fn lemma_emit_call(
    cx: &Context,
    st: State,
    function: Operand,
    receiver: Option<Operand>,
    signature: &FunctionType,
    arguments: List<Operand>,
    start: usize,
)
    ensures
        ({
            let after = spec_emit_call(cx, st, function, receiver, signature, arguments, start);
            &&& grows(st, after.0)
            &&& fits(after.0) && is_sound(st) && operand_fits(function, bounds_of(st))
                && optional_operand_fits(receiver, bounds_of(st))
                    && operands_fit(arguments, bounds_of(st))
                ==> is_sound(after.0) && optional_value_fits(after.1, bounds_of(after.0))
        }),
{
    broadcast use {group_shape, group_kinds};

    reveal(spec_emit_call);
    let given = st;
    lemma_grows_itself(st);
    let span = cx.span_at(start);
    lemma_begin_call(st, function, receiver, signature, arguments, span);
    let (next_st, call) = spec_begin_call(st, function, receiver, signature, arguments, span);
    lemma_grows_on(given, st, next_st);
    let st = next_st;
    if let Some(exit) = call.error {
        lemma_set_current(st, exit.block);
        let next_st = State { current: exit.block, ..st };
        lemma_grows_on(given, st, next_st);
        let st = next_st;
        lemma_end_storage(st, &call.temporaries, span);
        let next_st = spec_end_storage(st, &call.temporaries, span);
        lemma_grows_on(given, st, next_st);
        let st = next_st;
        lemma_route_error(cx, st, Operand::Move(whole(exit.payload)), &signature.effects, start);
        let next_st = spec_route_error(
            cx,
            st,
            Operand::Move(whole(exit.payload)),
            &signature.effects,
            start,
        );
        lemma_grows_on(given, st, next_st);
        let st = next_st;
    }
    let next_st = if let Some(exit) = call.error {
        let st = State { current: exit.block, ..st };
        let st = spec_end_storage(st, &call.temporaries, span);
        spec_route_error(cx, st, Operand::Move(whole(exit.payload)), &signature.effects, start)
    } else {
        st
    };
    assert(grows(given, next_st));
    let st = next_st;
    lemma_finish_call(st, call, signature, span);
    let (next_st, _) = spec_finish_call(st, call, signature, span);
    lemma_grows_on(given, st, next_st);
    let st = next_st;
}

pub proof fn lemma_lower_await_operand(cx: &Context, st: State, promise: Value, start: usize)
    ensures
        ({
            let after = spec_lower_await_operand(cx, st, promise, start);
            &&& grows(st, after.0)
            &&& fits(after.0) && is_sound(st) && value_fits(promise, bounds_of(st))
                ==> is_sound(after.0) && optional_value_fits(after.1, bounds_of(after.0))
        }),
{
    broadcast use {group_shape, group_kinds};

    reveal(spec_lower_await_operand);
    let given = st;
    lemma_grows_itself(st);
    match promise.ty {
        Type::Promise { result, effects, .. } => {
            let span = cx.span_at(start);
            lemma_begin_suspension(st, promise.operand, &result, &effects, span);
            let (next_st, suspension) = spec_begin_suspension(
                st,
                promise.operand,
                &result,
                &effects,
                span,
            );
            lemma_grows_on(given, st, next_st);
            let st = next_st;
            if let Some(exit) = suspension.error {
                lemma_set_current(st, exit.block);
                let next_st = State { current: exit.block, ..st };
                lemma_grows_on(given, st, next_st);
                let st = next_st;
                lemma_route_error(cx, st, Operand::Move(whole(exit.payload)), &effects, start);
                let next_st = spec_route_error(
                    cx,
                    st,
                    Operand::Move(whole(exit.payload)),
                    &effects,
                    start,
                );
                lemma_grows_on(given, st, next_st);
                let st = next_st;
            }
            let next_st = if let Some(exit) = suspension.error {
                let st = State { current: exit.block, ..st };
                spec_route_error(cx, st, Operand::Move(whole(exit.payload)), &effects, start)
            } else {
                st
            };
            assert(grows(given, next_st));
            let st = next_st;
            lemma_set_current(st, suspension.cancel);
            let next_st = State { current: suspension.cancel, ..st };
            lemma_grows_on(given, st, next_st);
            let st = next_st;
            lemma_active_disposals(st, 0);
            let managed = spec_active_disposals(st, 0);
            lemma_lower_async_disposals(cx, st, &managed);
            let next_st = spec_lower_async_disposals(cx, st, &managed);
            lemma_grows_on(given, st, next_st);
            let st = next_st;
            lemma_finish_suspension(st, suspension, *result, span);
            let (next_st, value) = spec_finish_suspension(st, suspension, *result, span);
            lemma_grows_on(given, st, next_st);
            let st = next_st;
        },
        _ => {},
    }
}

} // verus!
