//! Members and chains keep graphs well formed.

use vstd::prelude::*;

use crate::hir::{same_type, MemberId, PrimitiveType, Program, ReceiverMode, Type};
use crate::list::one;
use crate::lowering::access::{
    bound_mode, chained_type, field_use, indexed_type, is_plain_variant, reference_mode,
    spec_accessed_type, spec_dereferenced, spec_lower_bound_method, spec_lower_chained_call,
    spec_lower_chained_index, spec_lower_computed_member, spec_lower_field,
    spec_lower_field_member_from, spec_lower_index, spec_lower_index_operand, spec_lower_link,
    spec_lower_links, spec_lower_member_chain, spec_lower_member_from, spec_lower_optional_chain,
    spec_lower_optional_field_reborrow, spec_lower_optional_from_value, spec_lower_optional_index,
    spec_lower_optional_link, spec_lower_optional_links, spec_lower_optional_tail_present,
    spec_lower_string_byte_length, spec_lower_string_length, spec_lower_string_size,
    spec_method_lookup, spec_named_member, spec_store_chained, specialize_member_type, virtual_slot,
    ChainLink, FieldUse,
};
use crate::lowering::bindings::undefined;
use crate::lowering::builder::{
    spec_bind_receiver, spec_new_block, spec_receiver_of, spec_terminate, State,
};
use crate::lowering::calls::{spec_lower_call_arguments, spec_lower_enum_variant};
use crate::lowering::context::{behind, next, Context};
use crate::lowering::emit::{
    spec_assign, spec_borrowed, spec_branch, spec_computed, spec_continue_at, spec_emit_call,
    spec_live, spec_materialize_operand, spec_wrapped, Value,
};
use crate::lowering::members::{
    field_index, interface_witness_slot, is_static_method, resolved_field_type,
};
use crate::lowering::recursion::{lowering, Lowering};
use crate::lowering::shape::base::{
    bounds_of, fits, group_shape, grows, is_sound, is_sound_lowering, lemma_bind_receiver,
    lemma_grows_itself, lemma_grows_on, lemma_new_block, lemma_receiver_of, lemma_set_current,
    lemma_terminate, operand_fits, optional_operand_fits, optional_rvalue_fits, optional_value_fits,
    place_fits, value_fits, Bounds,
};
use crate::lowering::shape::calls::{lemma_lower_call_arguments, lemma_lower_enum_variant};
use crate::lowering::shape::emit::{
    lemma_assign, lemma_borrowed, lemma_branch, lemma_computed, lemma_continue_at, lemma_emit_call,
    lemma_live, lemma_materialize_operand, lemma_wrapped,
};
use crate::lowering::shape::kinds::{group_kinds, link_fits};
use crate::lowering::types::{primitive, reference};
use crate::mir::{operand_place, Operand, Place, Projection, RawOperation, Rvalue, TerminatorKind};
use crate::program::is_intrinsic_type;
use crate::syntax::TokenKind;

verus! {

pub proof fn lemma_method_lookup(
    program: &Program,
    access: &Type,
    object: Place,
    member: MemberId,
    receiver: ReceiverMode,
    ty: &Type,
    bounds: Bounds,
)
    ensures
        ({
            let found = spec_method_lookup(program, access, object, member, receiver, ty);
            place_fits(object, bounds) ==> optional_rvalue_fits(found, bounds)
        }),
{
    broadcast use {group_shape, group_kinds};

    reveal(spec_method_lookup);
    match access {
        Type::Nominal(class, _) => {
            match virtual_slot(program, *class, member) {
                Some(slot) => {},
                None => {},
            }
        },
        other => {
            if is_intrinsic_type(program, other) {
            } else {
                match other {
                    Type::DynamicInterface(interface, _) => {
                        match interface_witness_slot(
                            program,
                            *interface,
                            member,
                        ) {
                            Some(slot) => {},
                            None => {},
                        }
                    },
                    _ => {},
                }
            }
        },
    }
}

pub proof fn lemma_dereferenced(place: Place, is_reference: bool, bounds: Bounds)
    ensures
        ({
            let found = spec_dereferenced(place, is_reference);
            place_fits(place, bounds) ==> place_fits(found, bounds)
        }),
{
    broadcast use {group_shape, group_kinds};

    reveal(spec_dereferenced);
    if is_reference {
    }
}

pub proof fn lemma_lower_bound_method(
    cx: &Context,
    st: State,
    owner: Value,
    member: MemberId,
    receiver: ReceiverMode,
    ty: Type,
    token: usize,
)
    ensures
        ({
            let after = spec_lower_bound_method(cx, st, owner, member, receiver, ty, token);
            &&& grows(st, after.0)
            &&& fits(after.0) && is_sound(st) && value_fits(owner, bounds_of(st))
                ==> is_sound(after.0) && optional_value_fits(after.1, bounds_of(after.0))
        }),
{
    broadcast use {group_shape, group_kinds};

    reveal(spec_lower_bound_method);
    let given = st;
    lemma_grows_itself(st);
    let span = cx.span_at(token);
    let access = spec_accessed_type(&owner.ty).dup();
    let is_reference = reference_mode(&owner.ty).is_some();
    lemma_materialize_operand(st, owner.operand, owner.ty, span);
    let (next_st, held) = spec_materialize_operand(st, owner.operand, owner.ty, span);
    lemma_grows_on(given, st, next_st);
    let st = next_st;
    lemma_dereferenced(held, is_reference, bounds_of(st));
    let object = spec_dereferenced(held, is_reference);
    lemma_method_lookup(cx.program, &access, object.dup(), member, receiver, &ty, bounds_of(st));
    match spec_method_lookup(cx.program, &access, object.dup(), member, receiver, &ty) {
        Some(lookup) => {
            lemma_live(st, ty.dup(), span);
            let (next_st, local) = spec_live(st, ty.dup(), span);
            lemma_grows_on(given, st, next_st);
            let st = next_st;
            lemma_assign(st, local, lookup, span);
            let next_st = spec_assign(st, local, lookup, span);
            lemma_grows_on(given, st, next_st);
            let st = next_st;
            let bound = if receiver == ReceiverMode::Move {
                Operand::Move(object)
            } else {
                Operand::Copy(object)
            };
            lemma_bind_receiver(st, local, bound);
            let next_st = spec_bind_receiver(st, local, bound);
            lemma_grows_on(given, st, next_st);
            let st = next_st;
        },
        _ => {},
    }
}

pub proof fn lemma_lower_field_member_from(
    cx: &Context,
    st: State,
    owner: Value,
    member: MemberId,
    member_type: Type,
    token: usize,
)
    ensures
        ({
            let after = spec_lower_field_member_from(cx, st, owner, member, member_type, token);
            &&& grows(st, after.0)
            &&& fits(after.0) && is_sound(st) && value_fits(owner, bounds_of(st))
                ==> is_sound(after.0) && optional_value_fits(after.1, bounds_of(after.0))
        }),
{
    broadcast use {group_shape, group_kinds};

    reveal(spec_lower_field_member_from);
    let given = st;
    lemma_grows_itself(st);
    let mode = reference_mode(&owner.ty);
    let access = spec_accessed_type(&owner.ty).dup();
    match operand_place(owner.operand) {
        Some(place) => {
            match field_index(cx.program, &access, member) {
                Some(index) => {
                    match resolved_field_type(cx.program, &access, member) {
                        Some(field_type) => {
                            lemma_dereferenced(place, mode.is_some(), bounds_of(st));
                            let field = spec_dereferenced(place, mode.is_some()).step(
                                Projection::Field { index, ty: field_type.dup() },
                            );
                            match field_use(mode, &field_type, &member_type) {
                                FieldUse::OptionalReborrow { mutable } => {
                                    lemma_lower_optional_field_reborrow(
                                        cx,
                                        st,
                                        field,
                                        member_type,
                                        mutable,
                                        token,
                                    );
                                    let (next_st, _) = spec_lower_optional_field_reborrow(
                                        cx,
                                        st,
                                        field,
                                        member_type,
                                        mutable,
                                        token,
                                    );
                                    lemma_grows_on(given, st, next_st);
                                    let st = next_st;
                                },
                                FieldUse::Reborrow { mutable } => {
                                    lemma_borrowed(
                                        st,
                                        member_type.dup(),
                                        mutable,
                                        field,
                                        cx.span_at(token),
                                    );
                                    let (next_st, operand) = spec_borrowed(
                                        st,
                                        member_type.dup(),
                                        mutable,
                                        field,
                                        cx.span_at(token),
                                    );
                                    lemma_grows_on(given, st, next_st);
                                    let st = next_st;
                                },
                                FieldUse::Value => {
                                    let operand = if cx.facts.is_copy(&member_type) {
                                        Operand::Copy(field)
                                    } else {
                                        Operand::Move(field)
                                    };
                                },
                            }
                        },
                        _ => {},
                    }
                },
                _ => {},
            }
        },
        _ => {},
    }
}

pub proof fn lemma_lower_optional_field_reborrow(
    cx: &Context,
    st: State,
    field: Place,
    result_type: Type,
    mutable: bool,
    token: usize,
)
    ensures
        ({
            let after = spec_lower_optional_field_reborrow(
                cx,
                st,
                field,
                result_type,
                mutable,
                token,
            );
            &&& grows(st, after.0)
            &&& fits(after.0) && is_sound(st) && place_fits(field, bounds_of(st))
                ==> is_sound(after.0) && optional_value_fits(after.1, bounds_of(after.0))
        }),
{
    broadcast use {group_shape, group_kinds};

    reveal(spec_lower_optional_field_reborrow);
    let given = st;
    lemma_grows_itself(st);
    let span = cx.span_at(token);
    match &result_type {
        Type::Optional(reference) => {
            let reference_type = reference.dup();
            lemma_live(st, result_type.dup(), span);
            let (next_st, destination) = spec_live(st, result_type.dup(), span);
            lemma_grows_on(given, st, next_st);
            let st = next_st;
            lemma_new_block(st);
            let (next_st, absent) = spec_new_block(st);
            lemma_grows_on(given, st, next_st);
            let st = next_st;
            lemma_new_block(st);
            let (next_st, present) = spec_new_block(st);
            lemma_grows_on(given, st, next_st);
            let st = next_st;
            lemma_new_block(st);
            let (next_st, join) = spec_new_block(st);
            lemma_grows_on(given, st, next_st);
            let st = next_st;
            lemma_branch(st, Operand::Copy(field.dup()), present, absent, span);
            let next_st = spec_branch(st, Operand::Copy(field.dup()), present, absent, span);
            lemma_grows_on(given, st, next_st);
            let st = next_st;
            lemma_set_current(st, absent);
            let next_st = State { current: absent, ..st };
            lemma_grows_on(given, st, next_st);
            let st = next_st;
            lemma_assign(st, destination, Rvalue::Use(undefined(result_type.dup())), span);
            let next_st = spec_assign(
                st,
                destination,
                Rvalue::Use(undefined(result_type.dup())),
                span,
            );
            lemma_grows_on(given, st, next_st);
            let st = next_st;
            lemma_terminate(st, TerminatorKind::Goto(join), span);
            let next_st = spec_terminate(st, TerminatorKind::Goto(join), span);
            lemma_grows_on(given, st, next_st);
            let st = next_st;
            lemma_set_current(st, present);
            let next_st = State { current: present, ..st };
            lemma_grows_on(given, st, next_st);
            let st = next_st;
            lemma_borrowed(
                st, reference_type.dup(),
                mutable,
                field.step(Projection::Downcast(1)),
                span,
            );
            let (next_st, borrow) = spec_borrowed(
                st, reference_type.dup(),
                mutable,
                field.step(Projection::Downcast(1)),
                span,
            );
            lemma_grows_on(given, st, next_st);
            let st = next_st;
            lemma_wrapped(st, destination, result_type.dup(), borrow, reference_type, span);
            let next_st = spec_wrapped(
                st,
                destination,
                result_type.dup(),
                borrow,
                reference_type,
                span,
            );
            lemma_grows_on(given, st, next_st);
            let st = next_st;
            lemma_terminate(st, TerminatorKind::Goto(join), span);
            let next_st = spec_terminate(st, TerminatorKind::Goto(join), span);
            lemma_grows_on(given, st, next_st);
            let st = next_st;
            lemma_set_current(st, join);
            let next_st = State { current: join, ..st };
            lemma_grows_on(given, st, next_st);
            let st = next_st;
        },
        _ => {},
    }
}

pub proof fn lemma_lower_member_from(
    cx: &Context,
    st: State,
    owner: Value,
    member: MemberId,
    member_type: Type,
    token: usize,
)
    ensures
        ({
            let after = spec_lower_member_from(cx, st, owner, member, member_type, token);
            &&& grows(st, after.0)
            &&& fits(after.0) && is_sound(st) && value_fits(owner, bounds_of(st))
                ==> is_sound(after.0) && optional_value_fits(after.1, bounds_of(after.0))
        }),
{
    broadcast use {group_shape, group_kinds};

    reveal(spec_lower_member_from);
    let given = st;
    lemma_grows_itself(st);
    let ty = specialize_member_type(cx.program, spec_accessed_type(&owner.ty), member_type);
    match bound_mode(cx.program, member, &ty) {
        Some(receiver) => {
            lemma_lower_bound_method(cx, st, owner, member, receiver, ty, token);
            let (next_st, _) = spec_lower_bound_method(cx, st, owner, member, receiver, ty, token);
            lemma_grows_on(given, st, next_st);
            let st = next_st;
        },
        None => {
            lemma_lower_field_member_from(cx, st, owner, member, ty, token);
            let (next_st, _) = spec_lower_field_member_from(cx, st, owner, member, ty, token);
            lemma_grows_on(given, st, next_st);
            let st = next_st;
        },
    }
}

pub proof fn lemma_lower_field(
    cx: &Context,
    st: State,
    start: usize,
    dot: usize,
    end: usize,
    low: Lowering,
)
    requires
        is_sound_lowering(low),
    ensures
        ({
            let after = spec_lower_field(cx, st, start, dot, end, low);
            &&& grows(st, after.0)
            &&& fits(after.0) && is_sound(st)
                ==> is_sound(after.0) && optional_value_fits(after.1, bounds_of(after.0))
        }),
{
    broadcast use {group_shape, group_kinds};

    reveal(spec_lower_field);
    let given = st;
    lemma_grows_itself(st);
    match spec_named_member(cx, start, end, false) {
        Some(named) => {
            if is_static_method(cx.program, named.member) {
            } else {
                if is_plain_variant(cx.program, named.member) {
                    lemma_lower_enum_variant(cx, st, start, end, end, named.member, low);
                    let (next_st, _) = spec_lower_enum_variant(
                        cx,
                        st,
                        start,
                        end,
                        end,
                        named.member,
                        low,
                    );
                    lemma_grows_on(given, st, next_st);
                    let st = next_st;
                } else {
                    let (next_st, attempt) = (low.expression)(cx, st, start, dot, None);
                    lemma_grows_on(given, st, next_st);
                    let st = next_st;
                    match attempt {
                        Some(owner) => {
                            lemma_lower_member_from(cx, st, owner, named.member, named.ty, dot);
                            let (next_st, _) = spec_lower_member_from(
                                cx,
                                st,
                                owner,
                                named.member,
                                named.ty,
                                dot,
                            );
                            lemma_grows_on(given, st, next_st);
                            let st = next_st;
                        },
                        _ => {},
                    }
                }
            }
        },
        _ => {},
    }
}

pub proof fn lemma_lower_computed_member(
    cx: &Context,
    st: State,
    start: usize,
    open: usize,
    end: usize,
    low: Lowering,
)
    requires
        is_sound_lowering(low),
    ensures
        ({
            let after = spec_lower_computed_member(cx, st, start, open, end, low);
            &&& grows(st, after.0)
            &&& fits(after.0) && is_sound(st)
                ==> is_sound(after.0) && optional_value_fits(after.1, bounds_of(after.0))
        }),
{
    broadcast use {group_shape, group_kinds};

    reveal(spec_lower_computed_member);
    let given = st;
    lemma_grows_itself(st);
    match spec_named_member(cx, start, end, false) {
        Some(named) => {
            if is_static_method(cx.program, named.member) {
            } else {
                let (next_st, attempt) = (low.expression)(cx, st, start, open, None);
                lemma_grows_on(given, st, next_st);
                let st = next_st;
                match attempt {
                    Some(owner) => {
                        lemma_lower_member_from(
                            cx,
                            st,
                            owner,
                            named.member,
                            named.ty,
                            behind(open, 3),
                        );
                        let (next_st, _) = spec_lower_member_from(
                            cx,
                            st,
                            owner,
                            named.member,
                            named.ty,
                            behind(open, 3),
                        );
                        lemma_grows_on(given, st, next_st);
                        let st = next_st;
                    },
                    _ => {},
                }
            }
        },
        _ => {},
    }
}

pub proof fn lemma_lower_string_size(
    cx: &Context,
    st: State,
    start: usize,
    end: usize,
    operation: RawOperation,
    low: Lowering,
)
    requires
        is_sound_lowering(low),
    ensures
        ({
            let after = spec_lower_string_size(cx, st, start, end, operation, low);
            &&& grows(st, after.0)
            &&& fits(after.0) && is_sound(st)
                ==> is_sound(after.0) && optional_value_fits(after.1, bounds_of(after.0))
        }),
{
    broadcast use {group_shape, group_kinds};

    reveal(spec_lower_string_size);
    let given = st;
    lemma_grows_itself(st);
    match cx.find_top_level(start, end, TokenKind::Dot) {
        Some(dot) => {
            let (next_st, attempt) = (low.expression)(cx, st, start, dot, None);
            lemma_grows_on(given, st, next_st);
            let st = next_st;
            match attempt {
                Some(text) => {
                    lemma_materialize_operand(st, text.operand, text.ty, cx.span_at(dot));
                    let (next_st, receiver) = spec_materialize_operand(
                        st,
                        text.operand,
                        text.ty,
                        cx.span_at(dot),
                    );
                    lemma_grows_on(given, st, next_st);
                    let st = next_st;
                    lemma_computed(
                        st, primitive(PrimitiveType::Usize),
                        Rvalue::RawOperation {
                            operation,
                            operands: one(Operand::Copy(receiver)),
                            ty: primitive(PrimitiveType::Usize),
                        },
                        cx.span_at(next(dot)),
                    );
                    let (next_st, operand) = spec_computed(
                        st, primitive(PrimitiveType::Usize),
                        Rvalue::RawOperation {
                            operation,
                            operands: one(Operand::Copy(receiver)),
                            ty: primitive(PrimitiveType::Usize),
                        },
                        cx.span_at(next(dot)),
                    );
                    lemma_grows_on(given, st, next_st);
                    let st = next_st;
                },
                _ => {},
            }
        },
        _ => {},
    }
}

pub proof fn lemma_lower_string_length(
    cx: &Context,
    st: State,
    start: usize,
    end: usize,
    low: Lowering,
)
    requires
        is_sound_lowering(low),
    ensures
        ({
            let after = spec_lower_string_length(cx, st, start, end, low);
            &&& grows(st, after.0)
            &&& fits(after.0) && is_sound(st)
                ==> is_sound(after.0) && optional_value_fits(after.1, bounds_of(after.0))
        }),
{
    broadcast use {group_shape, group_kinds};

    reveal(spec_lower_string_length);
    let given = st;
    lemma_grows_itself(st);
    lemma_lower_string_size(cx, st, start, end, RawOperation::StringScalarLength, low);
    let (next_st, _) = spec_lower_string_size(
        cx,
        st,
        start,
        end,
        RawOperation::StringScalarLength,
        low,
    );
    lemma_grows_on(given, st, next_st);
    let st = next_st;
}

pub proof fn lemma_lower_string_byte_length(
    cx: &Context,
    st: State,
    start: usize,
    end: usize,
    low: Lowering,
)
    requires
        is_sound_lowering(low),
    ensures
        ({
            let after = spec_lower_string_byte_length(cx, st, start, end, low);
            &&& grows(st, after.0)
            &&& fits(after.0) && is_sound(st)
                ==> is_sound(after.0) && optional_value_fits(after.1, bounds_of(after.0))
        }),
{
    broadcast use {group_shape, group_kinds};

    reveal(spec_lower_string_byte_length);
    let given = st;
    lemma_grows_itself(st);
    lemma_lower_string_size(cx, st, start, end, RawOperation::StringByteLength, low);
    let (next_st, _) = spec_lower_string_size(
        cx,
        st,
        start,
        end,
        RawOperation::StringByteLength,
        low,
    );
    lemma_grows_on(given, st, next_st);
    let st = next_st;
}

pub proof fn lemma_lower_index_operand(
    cx: &Context,
    st: State,
    start: usize,
    end: usize,
    low: Lowering,
)
    requires
        is_sound_lowering(low),
    ensures
        ({
            let after = spec_lower_index_operand(cx, st, start, end, low);
            &&& grows(st, after.0)
            &&& fits(after.0) && is_sound(st)
                ==> is_sound(after.0) && optional_operand_fits(after.1, bounds_of(after.0))
        }),
{
    broadcast use {group_shape, group_kinds};

    reveal(spec_lower_index_operand);
    let given = st;
    lemma_grows_itself(st);
    let index_type = primitive(PrimitiveType::Usize);
    let (next_st, attempt) = (low.expression)(cx, st, start, end, Some(&index_type));
    lemma_grows_on(given, st, next_st);
    let st = next_st;
    match attempt {
        Some(value) => {},
        None => {},
    }
}

pub proof fn lemma_lower_index(
    cx: &Context,
    st: State,
    start: usize,
    open: usize,
    end: usize,
    low: Lowering,
)
    requires
        is_sound_lowering(low),
    ensures
        ({
            let after = spec_lower_index(cx, st, start, open, end, low);
            &&& grows(st, after.0)
            &&& fits(after.0) && is_sound(st)
                ==> is_sound(after.0) && optional_value_fits(after.1, bounds_of(after.0))
        }),
{
    broadcast use {group_shape, group_kinds};

    reveal(spec_lower_index);
    let given = st;
    lemma_grows_itself(st);
    let (next_st, attempt) = (low.expression)(cx, st, start, open, None);
    lemma_grows_on(given, st, next_st);
    let st = next_st;
    assert(fits(st) && is_sound(given)
        ==> is_sound(st) && optional_value_fits(attempt, bounds_of(st)));
    match attempt {
        Some(sequence) => {
            match operand_place(sequence.operand) {
                Some(place) => {
                    lemma_dereferenced(
                        place,
                        reference_mode(&sequence.ty).is_some(),
                        bounds_of(st),
                    );
                    let collection = spec_dereferenced(
                        place,
                        reference_mode(&sequence.ty).is_some(),
                    );
                    lemma_lower_index_operand(
                        cx,
                        st,
                        next(open),
                        crate::lowering::context::before(end),
                        low,
                    );
                    let (next_st, attempt) = spec_lower_index_operand(
                        cx,
                        st,
                        next(open),
                        crate::lowering::context::before(end),
                        low,
                    );
                    lemma_grows_on(given, st, next_st);
                    let st = next_st;
                    assert(fits(st) && is_sound(given)
                        ==> is_sound(st) && optional_operand_fits(attempt, bounds_of(st)));
                    match attempt {
                        Some(index) => {
                            match indexed_type(cx, start, end, spec_accessed_type(&sequence.ty)) {
                                Some(ty) => {
                                    lemma_computed(
                                        st, ty.dup(),
                                        Rvalue::CheckedIndex { collection, index },
                                        cx.span_at(open),
                                    );
                                    let (next_st, operand) = spec_computed(
                                        st, ty.dup(),
                                        Rvalue::CheckedIndex { collection, index },
                                        cx.span_at(open),
                                    );
                                    lemma_grows_on(given, st, next_st);
                                    let st = next_st;
                                    assert(fits(st) && is_sound(given)
                                        ==> is_sound(st) && operand_fits(operand, bounds_of(st)));
                                },
                                _ => {},
                            }
                        },
                        _ => {},
                    }
                },
                _ => {},
            }
        },
        _ => {},
    }
}

pub proof fn lemma_lower_chained_call(
    cx: &Context,
    st: State,
    callee: Value,
    open: usize,
    close: usize,
    low: Lowering,
)
    requires
        is_sound_lowering(low),
    ensures
        ({
            let after = spec_lower_chained_call(cx, st, callee, open, close, low);
            &&& grows(st, after.0)
            &&& fits(after.0) && is_sound(st) && value_fits(callee, bounds_of(st))
                ==> is_sound(after.0) && optional_value_fits(after.1, bounds_of(after.0))
        }),
{
    broadcast use {group_shape, group_kinds};

    reveal(spec_lower_chained_call);
    let given = st;
    lemma_grows_itself(st);
    match callee.ty {
        Type::Function(signature) => {
            lemma_lower_call_arguments(
                cx,
                st,
                &cx.argument_ranges(next(open), close),
                &signature.parameters,
                low,
            );
            let (next_st, attempt) = spec_lower_call_arguments(
                cx,
                st,
                &cx.argument_ranges(next(open), close),
                &signature.parameters,
                low,
            );
            lemma_grows_on(given, st, next_st);
            let st = next_st;
            match attempt {
                Some(arguments) => {
                    lemma_receiver_of(st, &callee.operand);
                    let receiver = spec_receiver_of(st, &callee.operand);
                    lemma_emit_call(
                        cx,
                        st,
                        callee.operand,
                        receiver,
                        &signature,
                        arguments.operands,
                        open,
                    );
                    let (next_st, _) = spec_emit_call(
                        cx,
                        st,
                        callee.operand,
                        receiver,
                        &signature,
                        arguments.operands,
                        open,
                    );
                    lemma_grows_on(given, st, next_st);
                    let st = next_st;
                },
                _ => {},
            }
        },
        _ => {},
    }
}

pub proof fn lemma_lower_chained_index(
    cx: &Context,
    st: State,
    sequence: Value,
    start: usize,
    open: usize,
    close: usize,
    low: Lowering,
)
    requires
        is_sound_lowering(low),
    ensures
        ({
            let after = spec_lower_chained_index(cx, st, sequence, start, open, close, low);
            &&& grows(st, after.0)
            &&& fits(after.0) && is_sound(st) && value_fits(sequence, bounds_of(st))
                ==> is_sound(after.0) && optional_value_fits(after.1, bounds_of(after.0))
        }),
{
    broadcast use {group_shape, group_kinds};

    reveal(spec_lower_chained_index);
    let given = st;
    lemma_grows_itself(st);
    lemma_lower_index_operand(cx, st, next(open), close, low);
    let (next_st, attempt) = spec_lower_index_operand(cx, st, next(open), close, low);
    lemma_grows_on(given, st, next_st);
    let st = next_st;
    match attempt {
        Some(index) => {
            match operand_place(sequence.operand) {
                Some(collection) => {
                    match indexed_type(cx, start, next(close), &sequence.ty) {
                        Some(ty) => {
                            lemma_computed(
                                st, ty.dup(),
                                Rvalue::CheckedIndex { collection, index },
                                cx.span_at(open),
                            );
                            let (next_st, operand) = spec_computed(
                                st, ty.dup(),
                                Rvalue::CheckedIndex { collection, index },
                                cx.span_at(open),
                            );
                            lemma_grows_on(given, st, next_st);
                            let st = next_st;
                        },
                        _ => {},
                    }
                },
                _ => {},
            }
        },
        _ => {},
    }
}

pub proof fn lemma_lower_link(
    cx: &Context,
    st: State,
    value: Value,
    start: usize,
    cursor: usize,
    low: Lowering,
)
    requires
        is_sound_lowering(low),
    ensures
        ({
            let after = spec_lower_link(cx, st, value, start, cursor, low);
            &&& grows(st, after.0)
            &&& fits(after.0) && is_sound(st) && value_fits(value, bounds_of(st))
                ==> is_sound(after.0)
                    && (match after.1 { Some(some) => link_fits(some, bounds_of(after.0)), None => true })
        }),
{
    broadcast use {group_shape, group_kinds};

    reveal(spec_lower_link);
    let given = st;
    lemma_grows_itself(st);
    match cx.kind(cursor) {
        Some(TokenKind::LeftBracket) => {
            match cx.matching_token(cursor, TokenKind::LeftBracket, TokenKind::RightBracket) {
                Some(close) => {
                    lemma_lower_chained_index(cx, st, value, start, cursor, close, low);
                    let (next_st, attempt) = spec_lower_chained_index(
                        cx,
                        st,
                        value,
                        start,
                        cursor,
                        close,
                        low,
                    );
                    lemma_grows_on(given, st, next_st);
                    let st = next_st;
                    match attempt {
                        Some(element) => {
                        },
                        _ => {},
                    }
                },
                _ => {},
            }
        },
        Some(TokenKind::Dot) => {
            match spec_named_member(cx, start, behind(cursor, 2), false) {
                Some(named) => {
                    lemma_lower_member_from(cx, st, value, named.member, named.ty, next(cursor));
                    let (next_st, attempt) = spec_lower_member_from(
                        cx,
                        st,
                        value,
                        named.member,
                        named.ty,
                        next(cursor),
                    );
                    lemma_grows_on(given, st, next_st);
                    let st = next_st;
                    match attempt {
                        Some(member) => {
                        },
                        _ => {},
                    }
                },
                _ => {},
            }
        },
        Some(TokenKind::LeftParen) => {
            match cx.matching_token(cursor, TokenKind::LeftParen, TokenKind::RightParen) {
                Some(close) => {
                    lemma_lower_chained_call(cx, st, value, cursor, close, low);
                    let (next_st, attempt) = spec_lower_chained_call(
                        cx,
                        st,
                        value,
                        cursor,
                        close,
                        low,
                    );
                    lemma_grows_on(given, st, next_st);
                    let st = next_st;
                    match attempt {
                        Some(result) => {
                        },
                        _ => {},
                    }
                },
                _ => {},
            }
        },
        _ => {},
    }
}

pub proof fn lemma_lower_links(
    cx: &Context,
    st: State,
    link: ChainLink,
    start: usize,
    end: usize,
    low: Lowering,
)
    requires
        is_sound_lowering(low),
    ensures
        ({
            let after = spec_lower_links(cx, st, link, start, end, low);
            &&& grows(st, after.0)
            &&& fits(after.0) && is_sound(st) && link_fits(link, bounds_of(st))
                ==> is_sound(after.0) && optional_value_fits(after.1, bounds_of(after.0))
        }),
    decreases end.saturating_sub(link.cursor),
{
    broadcast use {group_shape, group_kinds};

    reveal_with_fuel(spec_lower_links, 2);
    let given = st;
    lemma_grows_itself(st);
    let cursor: usize = link.cursor;
    if cursor >= end {
    } else {
        lemma_lower_link(cx, st, link.value, start, cursor, low);
        let (next_st, attempt) = spec_lower_link(cx, st, link.value, start, cursor, low);
        lemma_grows_on(given, st, next_st);
        let st = next_st;
        match attempt {
            Some(following) => {
                if following.cursor <= cursor {
                } else {
                    lemma_lower_links(cx, st, following, start, end, low);
                    let (next_st, _) = spec_lower_links(cx, st, following, start, end, low);
                    lemma_grows_on(given, st, next_st);
                    let st = next_st;
                }
            },
            _ => {},
        }
    }
}

pub proof fn lemma_lower_member_chain(
    cx: &Context,
    st: State,
    start: usize,
    end: usize,
    low: Lowering,
)
    requires
        is_sound_lowering(low),
    ensures
        ({
            let after = spec_lower_member_chain(cx, st, start, end, low);
            &&& grows(st, after.0)
            &&& fits(after.0) && is_sound(st)
                ==> is_sound(after.0) && optional_value_fits(after.1, bounds_of(after.0))
        }),
{
    broadcast use {group_shape, group_kinds};

    reveal(spec_lower_member_chain);
    let given = st;
    lemma_grows_itself(st);
    match cx.find_top_level(start, end, TokenKind::Dot) {
        Some(dot) => {
            match spec_named_member(cx, start, behind(dot, 2), false) {
                Some(named) => {
                    let (next_st, attempt) = (low.expression)(cx, st, start, dot, None);
                    lemma_grows_on(given, st, next_st);
                    let st = next_st;
                    match attempt {
                        Some(owner) => {
                            lemma_lower_member_from(
                                cx,
                                st,
                                owner,
                                named.member,
                                named.ty,
                                next(dot),
                            );
                            let (next_st, attempt) = spec_lower_member_from(
                                cx,
                                st,
                                owner,
                                named.member,
                                named.ty,
                                next(dot),
                            );
                            lemma_grows_on(given, st, next_st);
                            let st = next_st;
                            match attempt {
                                Some(value) => {
                                    lemma_lower_links(
                                        cx,
                                        st,
                                        ChainLink { value, cursor: behind(dot, 2) },
                                        start,
                                        end,
                                        low,
                                    );
                                    let (next_st, _) = spec_lower_links(
                                        cx,
                                        st,
                                        ChainLink { value, cursor: behind(dot, 2) },
                                        start,
                                        end,
                                        low,
                                    );
                                    lemma_grows_on(given, st, next_st);
                                    let st = next_st;
                                },
                                _ => {},
                            }
                        },
                        _ => {},
                    }
                },
                _ => {},
            }
        },
        _ => {},
    }
}

pub proof fn lemma_lower_optional_index(
    cx: &Context,
    st: State,
    sequence: Value,
    origin: usize,
    open: usize,
    close: usize,
    low: Lowering,
)
    requires
        is_sound_lowering(low),
    ensures
        ({
            let after = spec_lower_optional_index(cx, st, sequence, origin, open, close, low);
            &&& grows(st, after.0)
            &&& fits(after.0) && is_sound(st) && value_fits(sequence, bounds_of(st))
                ==> is_sound(after.0) && optional_value_fits(after.1, bounds_of(after.0))
        }),
{
    broadcast use {group_shape, group_kinds};

    reveal(spec_lower_optional_index);
    let given = st;
    lemma_grows_itself(st);
    lemma_lower_index_operand(cx, st, next(open), close, low);
    let (next_st, attempt) = spec_lower_index_operand(cx, st, next(open), close, low);
    lemma_grows_on(given, st, next_st);
    let st = next_st;
    match attempt {
        Some(index) => {
            lemma_materialize_operand(st, sequence.operand, sequence.ty, cx.span_at(open));
            let (next_st, collection) = spec_materialize_operand(
                st,
                sequence.operand,
                sequence.ty,
                cx.span_at(open),
            );
            lemma_grows_on(given, st, next_st);
            let st = next_st;
            match chained_type(cx, origin, next(close)) {
                Some(ty) => {
                    lemma_computed(
                        st, ty.dup(),
                        Rvalue::CheckedIndex { collection, index },
                        cx.span_at(open),
                    );
                    let (next_st, operand) = spec_computed(
                        st, ty.dup(),
                        Rvalue::CheckedIndex { collection, index },
                        cx.span_at(open),
                    );
                    lemma_grows_on(given, st, next_st);
                    let st = next_st;
                },
                _ => {},
            }
        },
        _ => {},
    }
}

pub proof fn lemma_lower_optional_link(
    cx: &Context,
    st: State,
    value: Value,
    origin: usize,
    cursor: usize,
    low: Lowering,
)
    requires
        is_sound_lowering(low),
    ensures
        ({
            let after = spec_lower_optional_link(cx, st, value, origin, cursor, low);
            &&& grows(st, after.0)
            &&& fits(after.0) && is_sound(st) && value_fits(value, bounds_of(st))
                ==> is_sound(after.0)
                    && (match after.1 { Some(some) => link_fits(some, bounds_of(after.0)), None => true })
        }),
{
    broadcast use {group_shape, group_kinds};

    reveal(spec_lower_optional_link);
    let given = st;
    lemma_grows_itself(st);
    match cx.kind(cursor) {
        Some(TokenKind::LeftParen) => {
            match cx.matching_token(cursor, TokenKind::LeftParen, TokenKind::RightParen) {
                Some(close) => {
                    lemma_lower_chained_call(cx, st, value, cursor, close, low);
                    let (next_st, attempt) = spec_lower_chained_call(
                        cx,
                        st,
                        value,
                        cursor,
                        close,
                        low,
                    );
                    lemma_grows_on(given, st, next_st);
                    let st = next_st;
                    match attempt {
                        Some(result) => {
                        },
                        _ => {},
                    }
                },
                _ => {},
            }
        },
        Some(TokenKind::Dot) => {
            match spec_named_member(cx, origin, behind(cursor, 2), true) {
                Some(named) => {
                    lemma_lower_member_from(cx, st, value, named.member, named.ty, next(cursor));
                    let (next_st, attempt) = spec_lower_member_from(
                        cx,
                        st,
                        value,
                        named.member,
                        named.ty,
                        next(cursor),
                    );
                    lemma_grows_on(given, st, next_st);
                    let st = next_st;
                    match attempt {
                        Some(member) => {
                        },
                        _ => {},
                    }
                },
                _ => {},
            }
        },
        Some(TokenKind::LeftBracket) => {
            match cx.matching_token(cursor, TokenKind::LeftBracket, TokenKind::RightBracket) {
                Some(close) => {
                    lemma_lower_optional_index(cx, st, value, origin, cursor, close, low);
                    let (next_st, attempt) = spec_lower_optional_index(
                        cx,
                        st,
                        value,
                        origin,
                        cursor,
                        close,
                        low,
                    );
                    lemma_grows_on(given, st, next_st);
                    let st = next_st;
                    match attempt {
                        Some(element) => {
                        },
                        _ => {},
                    }
                },
                _ => {},
            }
        },
        _ => {},
    }
}

pub proof fn lemma_lower_optional_links(
    cx: &Context,
    st: State,
    link: ChainLink,
    origin: usize,
    end: usize,
    low: Lowering,
)
    requires
        is_sound_lowering(low),
    ensures
        ({
            let after = spec_lower_optional_links(cx, st, link, origin, end, low);
            &&& grows(st, after.0)
            &&& fits(after.0) && is_sound(st) && link_fits(link, bounds_of(st))
                ==> is_sound(after.0)
                    && (match after.1 { Some(some) => link_fits(some, bounds_of(after.0)), None => true })
        }),
    decreases end.saturating_sub(link.cursor),
{
    broadcast use {group_shape, group_kinds};

    reveal_with_fuel(spec_lower_optional_links, 2);
    let given = st;
    lemma_grows_itself(st);
    let cursor: usize = link.cursor;
    if cursor >= end || cx.is(cursor, TokenKind::QuestionDot) {
    } else {
        lemma_lower_optional_link(cx, st, link.value, origin, cursor, low);
        let (next_st, attempt) = spec_lower_optional_link(cx, st, link.value, origin, cursor, low);
        lemma_grows_on(given, st, next_st);
        let st = next_st;
        match attempt {
            Some(following) => {
                if following.cursor <= cursor {
                } else {
                    lemma_lower_optional_links(cx, st, following, origin, end, low);
                    let (next_st, _) = spec_lower_optional_links(
                        cx,
                        st,
                        following,
                        origin,
                        end,
                        low,
                    );
                    lemma_grows_on(given, st, next_st);
                    let st = next_st;
                }
            },
            _ => {},
        }
    }
}

pub proof fn lemma_lower_optional_tail_present(
    cx: &Context,
    st: State,
    owner: Value,
    member_start: usize,
    end: usize,
    origin: usize,
    low: Lowering,
)
    requires
        is_sound_lowering(low),
    ensures
        ({
            let after = spec_lower_optional_tail_present(
                cx,
                st,
                owner,
                member_start,
                end,
                origin,
                low,
            );
            &&& grows(st, after.0)
            &&& fits(after.0) && is_sound(st) && value_fits(owner, bounds_of(st))
                ==> is_sound(after.0)
                    && (match after.1 { Some(some) => link_fits(some, bounds_of(after.0)), None => true })
        }),
{
    broadcast use {group_shape, group_kinds};

    reveal(spec_lower_optional_tail_present);
    let given = st;
    lemma_grows_itself(st);
    match spec_named_member(cx, origin, next(member_start), true) {
        Some(named) => {
            lemma_lower_member_from(cx, st, owner, named.member, named.ty, member_start);
            let (next_st, attempt) = spec_lower_member_from(
                cx,
                st,
                owner,
                named.member,
                named.ty,
                member_start,
            );
            lemma_grows_on(given, st, next_st);
            let st = next_st;
            match attempt {
                Some(value) => {
                    lemma_lower_optional_links(
                        cx,
                        st,
                        ChainLink { value, cursor: next(member_start) },
                        origin,
                        end,
                        low,
                    );
                    let (next_st, _) = spec_lower_optional_links(
                        cx,
                        st,
                        ChainLink { value, cursor: next(member_start) },
                        origin,
                        end,
                        low,
                    );
                    lemma_grows_on(given, st, next_st);
                    let st = next_st;
                },
                _ => {},
            }
        },
        _ => {},
    }
}

pub proof fn lemma_store_chained(
    st: State,
    destination: crate::mir::LocalId,
    result_type: &Type,
    value: Value,
    span: crate::syntax::Span,
)
    ensures
        ({
            let after = spec_store_chained(st, destination, result_type, value, span);
            &&& grows(st, after)
            &&& fits(after) && is_sound(st) && destination.0 < bounds_of(st).locals
                && value_fits(value, bounds_of(st))
                ==> is_sound(after)
        }),
{
    broadcast use {group_shape, group_kinds};

    reveal(spec_store_chained);
    let given = st;
    lemma_grows_itself(st);
    if same_type(&value.ty, result_type) {
        lemma_assign(st, destination, Rvalue::Use(value.operand), span);
        let next_st = spec_assign(st, destination, Rvalue::Use(value.operand), span);
        lemma_grows_on(given, st, next_st);
        let st = next_st;
    } else {
        lemma_wrapped(st, destination, result_type.dup(), value.operand, value.ty, span);
        let next_st = spec_wrapped(
            st,
            destination,
            result_type.dup(),
            value.operand,
            value.ty,
            span,
        );
        lemma_grows_on(given, st, next_st);
        let st = next_st;
    }
}

pub proof fn lemma_lower_optional_from_value(
    cx: &Context,
    st: State,
    source: Value,
    member_start: usize,
    end: usize,
    origin: usize,
    low: Lowering,
)
    requires
        is_sound_lowering(low),
    ensures
        ({
            let after = spec_lower_optional_from_value(
                cx,
                st,
                source,
                member_start,
                end,
                origin,
                low,
            );
            &&& grows(st, after.0)
            &&& fits(after.0) && is_sound(st) && value_fits(source, bounds_of(st))
                ==> is_sound(after.0) && optional_value_fits(after.1, bounds_of(after.0))
        }),
    decreases end.saturating_sub(member_start),
{
    broadcast use {group_shape, group_kinds};

    reveal_with_fuel(spec_lower_optional_from_value, 2);
    let given = st;
    lemma_grows_itself(st);
    let span = cx.span_at(member_start);
    match source.ty {
        Type::Optional(inner) => {
            match cx.type_of_range(origin, end) {
                Some(result_type) => {
                    lemma_materialize_operand(
                        st,
                        source.operand,
                        Type::Optional(Box::new(inner.dup())),
                        span,
                    );
                    let (next_st, held) = spec_materialize_operand(
                        st,
                        source.operand,
                        Type::Optional(Box::new(inner.dup())),
                        span,
                    );
                    lemma_grows_on(given, st, next_st);
                    let st = next_st;
                    lemma_live(st, result_type.dup(), span);
                    let (next_st, destination) = spec_live(st, result_type.dup(), span);
                    lemma_grows_on(given, st, next_st);
                    let st = next_st;
                    lemma_new_block(st);
                    let (next_st, absent) = spec_new_block(st);
                    lemma_grows_on(given, st, next_st);
                    let st = next_st;
                    lemma_new_block(st);
                    let (next_st, present) = spec_new_block(st);
                    lemma_grows_on(given, st, next_st);
                    let st = next_st;
                    lemma_new_block(st);
                    let (next_st, join) = spec_new_block(st);
                    lemma_grows_on(given, st, next_st);
                    let st = next_st;
                    lemma_branch(st, Operand::Copy(held.dup()), present, absent, span);
                    let next_st = spec_branch(st, Operand::Copy(held.dup()), present, absent, span);
                    lemma_grows_on(given, st, next_st);
                    let st = next_st;
                    lemma_set_current(st, absent);
                    let next_st = State { current: absent, ..st };
                    lemma_grows_on(given, st, next_st);
                    let st = next_st;
                    lemma_assign(st, destination, Rvalue::Use(undefined(result_type.dup())), span);
                    let next_st = spec_assign(
                        st,
                        destination,
                        Rvalue::Use(undefined(result_type.dup())),
                        span,
                    );
                    lemma_grows_on(given, st, next_st);
                    let st = next_st;
                    lemma_terminate(st, TerminatorKind::Goto(join), span);
                    let next_st = spec_terminate(st, TerminatorKind::Goto(join), span);
                    lemma_grows_on(given, st, next_st);
                    let st = next_st;
                    lemma_set_current(st, present);
                    let next_st = State { current: present, ..st };
                    lemma_grows_on(given, st, next_st);
                    let st = next_st;
                    let payload = Value {
                        operand: Operand::Copy(held.step(Projection::Downcast(1))),
                        ty: *inner,
                    };
                    lemma_lower_optional_tail_present(
                        cx,
                        st,
                        payload,
                        member_start,
                        end,
                        origin,
                        low,
                    );
                    let (next_st, attempt) = spec_lower_optional_tail_present(
                        cx,
                        st,
                        payload,
                        member_start,
                        end,
                        origin,
                        low,
                    );
                    lemma_grows_on(given, st, next_st);
                    let st = next_st;
                    match attempt {
                        Some(tail) => {
                            let cursor: usize = tail.cursor;
                            if cursor >= end {
                            } else {
                                if cursor < member_start {
                                } else {
                                    lemma_lower_optional_from_value(
                                        cx,
                                        st,
                                        tail.value,
                                        next(cursor),
                                        end,
                                        origin,
                                        low,
                                    );
                                    let (next_st, _) = spec_lower_optional_from_value(
                                        cx,
                                        st,
                                        tail.value,
                                        next(cursor),
                                        end,
                                        origin,
                                        low,
                                    );
                                    lemma_grows_on(given, st, next_st);
                                    let st = next_st;
                                }
                            }
                            let (next_st, rest) = if cursor >= end {
                                (st, Some(tail.value))
                            } else if cursor < member_start {
                                (st, None)
                            } else {
                                spec_lower_optional_from_value(
                                    cx,
                                    st,
                                    tail.value,
                                    next(cursor),
                                    end,
                                    origin,
                                    low,
                                )
                            };
                            assert(grows(given, next_st));
                            let st = next_st;
                            match rest {
                                Some(value) => {
                                    lemma_store_chained(st, destination, &result_type, value, span);
                                    let next_st = spec_store_chained(
                                        st,
                                        destination,
                                        &result_type,
                                        value,
                                        span,
                                    );
                                    lemma_grows_on(given, st, next_st);
                                    let st = next_st;
                                    lemma_continue_at(st, join, span);
                                    let next_st = spec_continue_at(st, join, span);
                                    lemma_grows_on(given, st, next_st);
                                    let st = next_st;
                                    lemma_set_current(st, join);
                                    let next_st = State { current: join, ..st };
                                    lemma_grows_on(given, st, next_st);
                                    let st = next_st;
                                },
                                _ => {},
                            }
                        },
                        _ => {},
                    }
                },
                _ => {},
            }
        },
        _ => {},
    }
}

pub proof fn lemma_lower_optional_chain(
    cx: &Context,
    st: State,
    start: usize,
    question_dot: usize,
    end: usize,
    low: Lowering,
)
    requires
        is_sound_lowering(low),
    ensures
        ({
            let after = spec_lower_optional_chain(cx, st, start, question_dot, end, low);
            &&& grows(st, after.0)
            &&& fits(after.0) && is_sound(st)
                ==> is_sound(after.0) && optional_value_fits(after.1, bounds_of(after.0))
        }),
{
    broadcast use {group_shape, group_kinds};

    reveal(spec_lower_optional_chain);
    let given = st;
    lemma_grows_itself(st);
    let (next_st, attempt) = (low.expression)(cx, st, start, question_dot, None);
    lemma_grows_on(given, st, next_st);
    let st = next_st;
    match attempt {
        Some(source) => {
            lemma_lower_optional_from_value(cx, st, source, next(question_dot), end, start, low);
            let (next_st, _) = spec_lower_optional_from_value(
                cx,
                st,
                source,
                next(question_dot),
                end,
                start,
                low,
            );
            lemma_grows_on(given, st, next_st);
            let st = next_st;
        },
        _ => {},
    }
}

} // verus!
