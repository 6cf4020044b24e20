//! Calls and aggregates keep graphs well formed.

use vstd::prelude::*;

use crate::hir::{Definition, DefinitionData, FunctionType, Intrinsic, MemberId, Method, Type};
use crate::list::List;
use crate::lowering::access::spec_lower_member_from;
use crate::lowering::bindings::undefined;
use crate::lowering::builder::{
    spec_is_temporary, spec_receiver_of, spec_specialize_method, spec_statement, State,
};
use crate::lowering::calls::{
    behind_colon, call_signature, called_intrinsic, called_variant, checked_type,
    constructor_member, field_type_at, field_types, intrinsic_operands, intrinsic_result,
    is_optional_of, is_run, parameter_templates, reborrow_type, replace_callable_type,
    spec_aggregate_ranges, spec_call_substitutions, spec_constructor_signature, spec_direct_member,
    spec_first_type, spec_lower_aggregate, spec_lower_aggregate_fields, spec_lower_call,
    spec_lower_call_arguments, spec_lower_callee, spec_lower_concrete_call,
    spec_lower_constructor_arguments, spec_lower_enum_variant, spec_lower_function_callee,
    spec_lower_intrinsic, spec_lower_method_callee, spec_lower_new, spec_lower_new_class,
    spec_lower_new_struct, spec_lower_payload, spec_lower_struct_fields, spec_other_types,
    spec_pass_constructor_argument, spec_pass_constructor_arguments, spec_provided_fields,
    spec_provided_for, spec_reborrow_argument, spec_reborrowed_place, spec_undefined_for,
    spec_variant_type, variant_substitutions, ConstructorArgument, DirectMember, Provided,
};
use crate::lowering::context::{before, next, Context, TokenRange};
use crate::lowering::emit::{
    spec_assign, spec_borrowed, spec_computed, spec_emit_call, spec_live, spec_wrapped, Value,
};
use crate::lowering::members::{aggregate_schema, enum_variant, SchemaField};
use crate::lowering::recursion::{lowering, Lowering};
use crate::lowering::shape::access::lemma_lower_member_from;
use crate::lowering::shape::base::{
    bounds_of, fits, group_shape, grows, is_sound, is_sound_lowering, lemma_grows_itself,
    lemma_grows_on, lemma_receiver_of, lemma_specialize_method, lemma_statement, operand_fits,
    operands_fit, optional_operands_fit, optional_place_fits, optional_value_fits, value_fits,
    Bounds,
};
use crate::lowering::shape::emit::{
    lemma_assign, lemma_borrowed, lemma_computed, lemma_emit_call, lemma_live, lemma_wrapped,
};
use crate::lowering::shape::kinds::{
    arguments_fit, callee_fits, constructor_arguments_fit, group_kinds, passed_fit,
};
use crate::lowering::types::{
    bind_generics, infer_mir_substitutions, non_consuming_operand, Bindable, Substitution,
};
use crate::mir::{whole, Constant, Operand, Projection, RawOperation, Rvalue, StatementKind};
use crate::syntax::TokenKind;

verus! {

pub proof fn lemma_reborrowed_place(st: State, operand: &Operand)
    ensures
        ({
            let found = spec_reborrowed_place(st, operand);
            is_sound(st) && operand_fits(*operand, bounds_of(st))
                ==> optional_place_fits(found, bounds_of(st))
        }),
{
    broadcast use {group_shape, group_kinds};

    reveal(spec_reborrowed_place);
    match crate::mir::operand_place_ref(operand) {
        Some(place) => {
            if place.is_whole() && spec_is_temporary(st, place.local) {
            }
        },
        None => {},
    }
}

pub proof fn lemma_reborrow_argument(
    cx: &Context,
    st: State,
    operand: Operand,
    actual: &Type,
    expected: Option<&Type>,
    token: usize,
)
    ensures
        ({
            let after = spec_reborrow_argument(cx, st, operand, actual, expected, token);
            &&& grows(st, after.0)
            &&& fits(after.0) && is_sound(st) && operand_fits(operand, bounds_of(st))
                ==> is_sound(after.0) && operand_fits(after.1, bounds_of(after.0))
        }),
{
    broadcast use {group_shape, group_kinds};

    reveal(spec_reborrow_argument);
    let given = st;
    lemma_grows_itself(st);
    lemma_reborrowed_place(st, &operand);
    match (reborrow_type(actual, expected), spec_reborrowed_place(st, &operand)) {
        (Some(ty), Some(place)) => {
            let mutable = matches!(expected, Some(Type::Reference { mutable: true, .. }));
            lemma_borrowed(st, ty, mutable, place.step(Projection::Dereference), cx.span_at(token));
            let (next_st, _) = spec_borrowed(
                st,
                ty,
                mutable,
                place.step(Projection::Dereference),
                cx.span_at(token),
            );
            lemma_grows_on(given, st, next_st);
            let st = next_st;
        },
        _ => {},
    }
}

pub proof fn lemma_lower_call_arguments(
    cx: &Context,
    st: State,
    ranges: &List<TokenRange>,
    parameters: &List<Type>,
    low: Lowering,
)
    requires
        is_sound_lowering(low),
    ensures
        ({
            let after = spec_lower_call_arguments(cx, st, ranges, parameters, low);
            &&& grows(st, after.0)
            &&& fits(after.0) && is_sound(st)
                ==> is_sound(after.0)
                    && (match after.1 { Some(some) => arguments_fit(some, bounds_of(after.0)), None => true })
        }),
    decreases ranges,
{
    broadcast use {group_shape, group_kinds};

    reveal_with_fuel(spec_lower_call_arguments, 2);
    let given = st;
    lemma_grows_itself(st);
    match ranges {
        List::Nil => {},
        List::Cons(range, rest) => {
            let expected = spec_first_type(parameters);
            let (next_st, attempt) = (low.expression)(cx, st, range.start, range.end, expected);
            lemma_grows_on(given, st, next_st);
            let st = next_st;
            match attempt {
                Some(value) => {
                    lemma_reborrow_argument(
                        cx,
                        st,
                        value.operand,
                        &value.ty,
                        expected,
                        range.start,
                    );
                    let (next_st, operand) = spec_reborrow_argument(
                        cx,
                        st,
                        value.operand,
                        &value.ty,
                        expected,
                        range.start,
                    );
                    lemma_grows_on(given, st, next_st);
                    let st = next_st;
                    lemma_lower_call_arguments(cx, st, rest, spec_other_types(parameters), low);
                    let (next_st, attempt) = spec_lower_call_arguments(
                        cx,
                        st,
                        rest,
                        spec_other_types(parameters),
                        low,
                    );
                    lemma_grows_on(given, st, next_st);
                    let st = next_st;
                    match attempt {
                        Some(others) => {
                        },
                        _ => {},
                    }
                },
                _ => {},
            }
        },
    }
}

pub proof fn lemma_lower_payload(
    cx: &Context,
    st: State,
    ranges: &List<TokenRange>,
    types: &List<Type>,
    low: Lowering,
)
    requires
        is_sound_lowering(low),
    ensures
        ({
            let after = spec_lower_payload(cx, st, ranges, types, low);
            &&& grows(st, after.0)
            &&& fits(after.0) && is_sound(st)
                ==> is_sound(after.0) && optional_operands_fit(after.1, bounds_of(after.0))
        }),
    decreases ranges,
{
    broadcast use {group_shape, group_kinds};

    reveal_with_fuel(spec_lower_payload, 2);
    let given = st;
    lemma_grows_itself(st);
    match ranges {
        List::Nil => {},
        List::Cons(range, rest) => {
            let (next_st, attempt) = (low.expression)(cx, st, range.start, range.end, spec_first_type(types));
            lemma_grows_on(given, st, next_st);
            let st = next_st;
            match attempt {
                Some(value) => {
                    lemma_lower_payload(cx, st, rest, spec_other_types(types), low);
                    let (next_st, attempt) = spec_lower_payload(
                        cx,
                        st,
                        rest,
                        spec_other_types(types),
                        low,
                    );
                    lemma_grows_on(given, st, next_st);
                    let st = next_st;
                    match attempt {
                        Some(others) => {
                        },
                        _ => {},
                    }
                },
                _ => {},
            }
        },
    }
}

pub proof fn lemma_lower_enum_variant(
    cx: &Context,
    st: State,
    start: usize,
    arguments_start: usize,
    arguments_end: usize,
    member: MemberId,
    low: Lowering,
)
    requires
        is_sound_lowering(low),
    ensures
        ({
            let after = spec_lower_enum_variant(
                cx,
                st,
                start,
                arguments_start,
                arguments_end,
                member,
                low,
            );
            &&& grows(st, after.0)
            &&& fits(after.0) && is_sound(st)
                ==> is_sound(after.0) && optional_value_fits(after.1, bounds_of(after.0))
        }),
{
    broadcast use {group_shape, group_kinds};

    reveal(spec_lower_enum_variant);
    let given = st;
    lemma_grows_itself(st);
    match enum_variant(cx.program, member) {
        Some(found) => {
            let span = cx.span_at(start);
            let ty = spec_variant_type(cx, start, arguments_start, arguments_end, found.owner);
            let types = field_types(
                &found.variant.fields,
                &variant_substitutions(cx.program, found.owner, &ty),
            );
            let ranges = cx.argument_ranges(arguments_start, arguments_end);
            lemma_lower_payload(cx, st, &ranges, &types, low);
            let (next_st, attempt) = spec_lower_payload(cx, st, &ranges, &types, low);
            lemma_grows_on(given, st, next_st);
            let st = next_st;
            match attempt {
                Some(fields) => {
                    lemma_live(st, ty.dup(), span);
                    let (next_st, local) = spec_live(st, ty.dup(), span);
                    lemma_grows_on(given, st, next_st);
                    let st = next_st;
                    lemma_assign(
                        st,
                        local,
                        Rvalue::Aggregate {
                            ty: ty.dup(),
                            variant: Some(found.index),
                            fields,
                            field_types: types,
                        },
                        span,
                    );
                    let next_st = spec_assign(
                        st,
                        local,
                        Rvalue::Aggregate {
                            ty: ty.dup(),
                            variant: Some(found.index),
                            fields,
                            field_types: types,
                        },
                        span,
                    );
                    lemma_grows_on(given, st, next_st);
                    let st = next_st;
                    lemma_statement(
                        st,
                        StatementKind::SetDiscriminant(whole(local), found.index),
                        span,
                    );
                    let next_st = spec_statement(
                        st,
                        StatementKind::SetDiscriminant(whole(local), found.index),
                        span,
                    );
                    lemma_grows_on(given, st, next_st);
                    let st = next_st;
                },
                _ => {},
            }
        },
        _ => {},
    }
}

pub proof fn lemma_lower_method_callee(
    cx: &Context,
    st: State,
    direct: DirectMember,
    start: usize,
    ranges: &List<TokenRange>,
    low: Lowering,
)
    requires
        is_sound_lowering(low),
    ensures
        ({
            let after = spec_lower_method_callee(cx, st, direct, start, ranges, low);
            &&& grows(st, after.0)
            &&& fits(after.0) && is_sound(st)
                ==> is_sound(after.0)
                    && (match after.1 { Some(some) => callee_fits(some, bounds_of(after.0)), None => true })
        }),
{
    broadcast use {group_shape, group_kinds};

    reveal(spec_lower_method_callee);
    let given = st;
    lemma_grows_itself(st);
    let (next_st, attempt) = (low.expression)(cx, st, start, direct.owner_end, None);
    lemma_grows_on(given, st, next_st);
    let st = next_st;
    match attempt {
        Some(owner) => {
            match &direct.ty {
                Type::Function(signature) => {
                    let parameters = crate::hir::dup_types(&signature.parameters);
                    lemma_lower_call_arguments(cx, st, ranges, &parameters, low);
                    let (next_st, attempt) = spec_lower_call_arguments(
                        cx,
                        st,
                        ranges,
                        &parameters,
                        low,
                    );
                    lemma_grows_on(given, st, next_st);
                    let st = next_st;
                    match attempt {
                        Some(arguments) => {
                            lemma_lower_member_from(
                                cx,
                                st,
                                owner,
                                direct.member,
                                direct.ty,
                                direct.token,
                            );
                            let (next_st, attempt) = spec_lower_member_from(
                                cx,
                                st,
                                owner,
                                direct.member,
                                direct.ty,
                                direct.token,
                            );
                            lemma_grows_on(given, st, next_st);
                            let st = next_st;
                            match attempt {
                                Some(method) => {
                                    match method.ty {
                                        Type::Function(signature) => {},
                                        _ => {},
                                    }
                                },
                                _ => {},
                            }
                        },
                        _ => {},
                    }
                },
                _ => {},
            }
        },
        _ => {},
    }
}

pub proof fn lemma_lower_function_callee(
    cx: &Context,
    st: State,
    start: usize,
    callee_end: usize,
    ranges: &List<TokenRange>,
    low: Lowering,
)
    requires
        is_sound_lowering(low),
    ensures
        ({
            let after = spec_lower_function_callee(cx, st, start, callee_end, ranges, low);
            &&& grows(st, after.0)
            &&& fits(after.0) && is_sound(st)
                ==> is_sound(after.0)
                    && (match after.1 { Some(some) => callee_fits(some, bounds_of(after.0)), None => true })
        }),
{
    broadcast use {group_shape, group_kinds};

    reveal(spec_lower_function_callee);
    let given = st;
    lemma_grows_itself(st);
    let (next_st, attempt) = (low.expression)(cx, st, start, callee_end, None);
    lemma_grows_on(given, st, next_st);
    let st = next_st;
    match attempt {
        Some(function) => {
            match function.ty {
                Type::Function(signature) => {
                    lemma_lower_call_arguments(cx, st, ranges, &signature.parameters, low);
                    let (next_st, attempt) = spec_lower_call_arguments(
                        cx,
                        st,
                        ranges,
                        &signature.parameters,
                        low,
                    );
                    lemma_grows_on(given, st, next_st);
                    let st = next_st;
                    match attempt {
                        Some(arguments) => {
                        },
                        _ => {},
                    }
                },
                _ => {},
            }
        },
        _ => {},
    }
}

pub proof fn lemma_lower_intrinsic(
    cx: &Context,
    st: State,
    intrinsic: Intrinsic,
    arguments: List<Operand>,
    substitutions: &List<Substitution>,
    result: &Type,
    start: usize,
)
    ensures
        ({
            let after = spec_lower_intrinsic(
                cx,
                st,
                intrinsic,
                arguments,
                substitutions,
                result,
                start,
            );
            &&& grows(st, after.0)
            &&& fits(after.0) && is_sound(st) && operands_fit(arguments, bounds_of(st))
                ==> is_sound(after.0) && value_fits(after.1, bounds_of(after.0))
        }),
{
    broadcast use {group_shape, group_kinds};

    reveal(spec_lower_intrinsic);
    let given = st;
    lemma_grows_itself(st);
    let ty = intrinsic_result(intrinsic, result);
    let operands = intrinsic_operands(
        intrinsic,
        arguments,
        substitutions,
        &cx.program.names,
    );
    lemma_computed(
        st, ty.dup(),
        Rvalue::RawOperation {
            operation: RawOperation::Intrinsic(intrinsic),
            operands,
            ty: ty.dup(),
        },
        cx.span_at(start),
    );
    let (next_st, operand) = spec_computed(
        st, ty.dup(),
        Rvalue::RawOperation {
            operation: RawOperation::Intrinsic(intrinsic),
            operands,
            ty: ty.dup(),
        },
        cx.span_at(start),
    );
    lemma_grows_on(given, st, next_st);
    let st = next_st;
}

pub proof fn lemma_lower_concrete_call(
    cx: &Context,
    st: State,
    function: Operand,
    direct: bool,
    signature: FunctionType,
    arguments: List<Operand>,
    start: usize,
)
    ensures
        ({
            let after = spec_lower_concrete_call(
                cx,
                st,
                function,
                direct,
                signature,
                arguments,
                start,
            );
            &&& grows(st, after.0)
            &&& fits(after.0) && is_sound(st) && operand_fits(function, bounds_of(st))
                && operands_fit(arguments, bounds_of(st))
                ==> is_sound(after.0) && optional_value_fits(after.1, bounds_of(after.0))
        }),
{
    broadcast use {group_shape, group_kinds};

    reveal(spec_lower_concrete_call);
    let given = st;
    lemma_grows_itself(st);
    let ty = Type::Function(signature.dup());
    if direct {
        lemma_specialize_method(st, &function, &ty);
        let next_st = spec_specialize_method(st, &function, &ty);
        lemma_grows_on(given, st, next_st);
        let st = next_st;
    }
    let next_st = if direct {
        spec_specialize_method(st, &function, &ty)
    } else {
        st
    };
    assert(grows(given, next_st));
    let st = next_st;
    let callable = non_consuming_operand(replace_callable_type(function, &ty));
    lemma_receiver_of(st, &callable);
    let receiver = spec_receiver_of(st, &callable);
    lemma_emit_call(cx, st, callable, receiver, &signature, arguments, start);
    let (next_st, _) = spec_emit_call(cx, st, callable, receiver, &signature, arguments, start);
    lemma_grows_on(given, st, next_st);
    let st = next_st;
}

pub proof fn lemma_lower_callee(
    cx: &Context,
    st: State,
    start: usize,
    open: usize,
    callee_end: usize,
    end: usize,
    low: Lowering,
)
    requires
        is_sound_lowering(low),
    ensures
        ({
            let after = spec_lower_callee(cx, st, start, open, callee_end, end, low);
            &&& grows(st, after.0)
            &&& fits(after.0) && is_sound(st)
                ==> is_sound(after.0)
                    && (match after.1 { Some(some) => callee_fits(some, bounds_of(after.0)), None => true })
        }),
{
    broadcast use {group_shape, group_kinds};

    reveal(spec_lower_callee);
    let given = st;
    lemma_grows_itself(st);
    let ranges = cx.argument_ranges(next(open), before(end));
    match spec_direct_member(cx, start, callee_end) {
        Some(direct) => {
            lemma_lower_method_callee(cx, st, direct, start, &ranges, low);
            let (next_st, _) = spec_lower_method_callee(cx, st, direct, start, &ranges, low);
            lemma_grows_on(given, st, next_st);
            let st = next_st;
        },
        None => {
            lemma_lower_function_callee(cx, st, start, callee_end, &ranges, low);
            let (next_st, _) = spec_lower_function_callee(cx, st, start, callee_end, &ranges, low);
            lemma_grows_on(given, st, next_st);
            let st = next_st;
        },
    }
}

pub proof fn lemma_lower_call(
    cx: &Context,
    st: State,
    start: usize,
    open: usize,
    end: usize,
    low: Lowering,
)
    requires
        is_sound_lowering(low),
    ensures
        ({
            let after = spec_lower_call(cx, st, start, open, end, low);
            &&& grows(st, after.0)
            &&& fits(after.0) && is_sound(st)
                ==> is_sound(after.0) && optional_value_fits(after.1, bounds_of(after.0))
        }),
{
    broadcast use {group_shape, group_kinds};

    reveal(spec_lower_call);
    let given = st;
    lemma_grows_itself(st);
    if let Some(member) = called_variant(cx, start, open) {
        lemma_lower_enum_variant(cx, st, start, next(open), before(end), member, low);
        let (next_st, _) = spec_lower_enum_variant(
            cx,
            st,
            start,
            next(open),
            before(end),
            member,
            low,
        );
        lemma_grows_on(given, st, next_st);
        let st = next_st;
    } else {
        let generics = cx.generic_call_bounds(start, open);
        let callee_end: usize = match generics {
            Some(bounds) => bounds.start,
            None => open,
        };
        lemma_lower_callee(cx, st, start, open, callee_end, end, low);
        let (next_st, attempt) = spec_lower_callee(cx, st, start, open, callee_end, end, low);
        lemma_grows_on(given, st, next_st);
        let st = next_st;
        match attempt {
            Some(callee) => {
                let substitutions = spec_call_substitutions(
                    cx,
                    start,
                    end,
                    generics,
                    &callee.signature,
                    &callee.arguments.types,
                );
                let signature = call_signature(
                    cx,
                    start,
                    end,
                    is_run(cx, start, callee_end),
                    &callee.signature,
                    &callee.arguments.types,
                    &substitutions,
                );
                match called_intrinsic(cx, start, callee_end) {
                    Some(intrinsic) => {
                        lemma_lower_intrinsic(
                            cx,
                            st,
                            intrinsic,
                            callee.arguments.operands,
                            &substitutions,
                            &signature.result,
                            start,
                        );
                        let (next_st, value) = spec_lower_intrinsic(
                            cx,
                            st,
                            intrinsic,
                            callee.arguments.operands,
                            &substitutions,
                            &signature.result,
                            start,
                        );
                        lemma_grows_on(given, st, next_st);
                        let st = next_st;
                    },
                    None => {
                        let direct = spec_direct_member(cx, start, callee_end).is_some();
                        lemma_lower_concrete_call(
                            cx,
                            st,
                            callee.function,
                            direct,
                            signature,
                            callee.arguments.operands,
                            start,
                        );
                        let (next_st, _) = spec_lower_concrete_call(
                            cx,
                            st,
                            callee.function,
                            direct,
                            signature,
                            callee.arguments.operands,
                            start,
                        );
                        lemma_grows_on(given, st, next_st);
                        let st = next_st;
                    },
                }
            },
            _ => {},
        }
    }
}

pub proof fn lemma_lower_struct_fields(
    cx: &Context,
    st: State,
    schema: &List<SchemaField>,
    provided: &List<Provided>,
    field: usize,
    low: Lowering,
)
    requires
        is_sound_lowering(low),
    ensures
        ({
            let after = spec_lower_struct_fields(cx, st, schema, provided, field, low);
            &&& grows(st, after.0)
            &&& fits(after.0) && is_sound(st)
                ==> is_sound(after.0)
                    && (match after.1 { Some(some) => arguments_fit(some, bounds_of(after.0)), None => true })
        }),
    decreases schema,
{
    broadcast use {group_shape, group_kinds};

    reveal_with_fuel(spec_lower_struct_fields, 2);
    let given = st;
    lemma_grows_itself(st);
    match schema {
        List::Nil => {},
        List::Cons(head, tail) => {
            match spec_provided_for(provided, field) {
                Some(range) => {
                    let (next_st, _) = (low.expression)(cx, st, range.start, range.end, Some(&head.ty));
                    lemma_grows_on(given, st, next_st);
                    let st = next_st;
                },
                None => {},
            }
            let (next_st, value) = match spec_provided_for(provided, field) {
                Some(range) => (low.expression)(cx, st, range.start, range.end, Some(&head.ty)),
                None => {
                    (st, Some(Value { operand: undefined(head.ty.dup()), ty: head.ty.dup() }))
                },
            };
            assert(grows(given, next_st));
            let st = next_st;
            match value {
                Some(value) => {
                    lemma_lower_struct_fields(
                        cx,
                        st,
                        tail,
                        provided,
                        field.saturating_add(1),
                        low,
                    );
                    let (next_st, attempt) = spec_lower_struct_fields(
                        cx,
                        st,
                        tail,
                        provided,
                        field.saturating_add(1),
                        low,
                    );
                    lemma_grows_on(given, st, next_st);
                    let st = next_st;
                    match attempt {
                        Some(others) => {
                        },
                        _ => {},
                    }
                },
                _ => {},
            }
        },
    }
}

pub proof fn lemma_lower_new_struct(
    cx: &Context,
    st: State,
    ty: Type,
    start: usize,
    open: usize,
    end: usize,
    low: Lowering,
)
    requires
        is_sound_lowering(low),
    ensures
        ({
            let after = spec_lower_new_struct(cx, st, ty, start, open, end, low);
            &&& grows(st, after.0)
            &&& fits(after.0) && is_sound(st)
                ==> is_sound(after.0) && optional_value_fits(after.1, bounds_of(after.0))
        }),
{
    broadcast use {group_shape, group_kinds};

    reveal(spec_lower_new_struct);
    let given = st;
    lemma_grows_itself(st);
    let schema = aggregate_schema(cx.program, &ty);
    let provided = spec_provided_fields(cx, next(open), before(end), &schema);
    lemma_lower_struct_fields(cx, st, &schema, &provided, 0, low);
    let (next_st, attempt) = spec_lower_struct_fields(cx, st, &schema, &provided, 0, low);
    lemma_grows_on(given, st, next_st);
    let st = next_st;
    match attempt {
        Some(fields) => {
            lemma_computed(
                st, ty.dup(),
                Rvalue::Aggregate {
                    ty: ty.dup(),
                    variant: None,
                    fields: fields.operands,
                    field_types: fields.types,
                },
                cx.span_at(start),
            );
            let (next_st, operand) = spec_computed(
                st, ty.dup(),
                Rvalue::Aggregate {
                    ty: ty.dup(),
                    variant: None,
                    fields: fields.operands,
                    field_types: fields.types,
                },
                cx.span_at(start),
            );
            lemma_grows_on(given, st, next_st);
            let st = next_st;
        },
        _ => {},
    }
}

pub proof fn lemma_lower_constructor_arguments(
    cx: &Context,
    st: State,
    ranges: &List<TokenRange>,
    parameters: &List<Type>,
    substitutions: List<Substitution>,
    low: Lowering,
)
    requires
        is_sound_lowering(low),
    ensures
        ({
            let after = spec_lower_constructor_arguments(
                cx,
                st,
                ranges,
                parameters,
                substitutions,
                low,
            );
            &&& grows(st, after.0)
            &&& fits(after.0) && is_sound(st)
                ==> is_sound(after.0)
                    && (match after.1 { Some(some) => constructor_arguments_fit(some, bounds_of(after.0)), None => true })
        }),
    decreases ranges,
{
    broadcast use {group_shape, group_kinds};

    reveal_with_fuel(spec_lower_constructor_arguments, 2);
    let given = st;
    lemma_grows_itself(st);
    match ranges {
        List::Nil => {},
        List::Cons(range, rest) => {
            let parameter = spec_first_type(parameters);
            let (next_st, attempt) = (low.expression)(cx, st, range.start, range.end, parameter);
            lemma_grows_on(given, st, next_st);
            let st = next_st;
            match attempt {
                Some(value) => {
                    let shown = match parameter {
                        Some(parameter) => {
                            infer_mir_substitutions(parameter, &value.ty, substitutions)
                        },
                        None => substitutions,
                    };
                    lemma_lower_constructor_arguments(
                        cx,
                        st,
                        rest,
                        spec_other_types(parameters),
                        shown,
                        low,
                    );
                    let (next_st, attempt) = spec_lower_constructor_arguments(
                        cx,
                        st,
                        rest,
                        spec_other_types(parameters),
                        shown,
                        low,
                    );
                    lemma_grows_on(given, st, next_st);
                    let st = next_st;
                    match attempt {
                        Some(others) => {
                        },
                        _ => {},
                    }
                },
                _ => {},
            }
        },
    }
}

pub proof fn lemma_pass_constructor_argument(
    cx: &Context,
    st: State,
    operand: Operand,
    ty: &Type,
    parameter: Option<&Type>,
    start: usize,
)
    ensures
        ({
            let after = spec_pass_constructor_argument(cx, st, operand, ty, parameter, start);
            &&& grows(st, after.0)
            &&& fits(after.0) && is_sound(st) && operand_fits(operand, bounds_of(st))
                ==> is_sound(after.0) && operand_fits(after.1, bounds_of(after.0))
        }),
{
    broadcast use {group_shape, group_kinds};

    reveal(spec_pass_constructor_argument);
    let given = st;
    lemma_grows_itself(st);
    match parameter {
        Some(optional) => {
            if !is_optional_of(parameter, ty) {
            } else {
                let span = cx.span_at(start);
                lemma_live(st, optional.dup(), span);
                let (next_st, local) = spec_live(st, optional.dup(), span);
                lemma_grows_on(given, st, next_st);
                let st = next_st;
                lemma_wrapped(st, local, optional.dup(), operand, ty.dup(), span);
                let next_st = spec_wrapped(st, local, optional.dup(), operand, ty.dup(), span);
                lemma_grows_on(given, st, next_st);
                let st = next_st;
            }
        },
        None => {},
    }
}

pub proof fn lemma_undefined_for(parameters: &List<Type>, bounds: Bounds)
    ensures
        ({
            let found = spec_undefined_for(parameters);
            operands_fit(found, bounds)
        }),
    decreases parameters,
{
    broadcast use {group_shape, group_kinds};

    reveal_with_fuel(spec_undefined_for, 2);
    match parameters {
        List::Nil => {},
        List::Cons(head, tail) => {
            if matches!(**head, Type::Optional(_)) {
                lemma_undefined_for(tail, bounds);
            } else {
                lemma_undefined_for(tail, bounds);
            }
        },
    }
}

pub proof fn lemma_pass_constructor_arguments(
    cx: &Context,
    st: State,
    arguments: List<ConstructorArgument>,
    parameters: &List<Type>,
    start: usize,
)
    ensures
        ({
            let after = spec_pass_constructor_arguments(cx, st, arguments, parameters, start);
            &&& grows(st, after.0)
            &&& fits(after.0) && is_sound(st) && passed_fit(arguments, bounds_of(st))
                ==> is_sound(after.0) && operands_fit(after.1, bounds_of(after.0))
        }),
    decreases arguments,
{
    broadcast use {group_shape, group_kinds};

    reveal_with_fuel(spec_pass_constructor_arguments, 2);
    let given = st;
    lemma_grows_itself(st);
    match arguments {
        List::Nil => {
            lemma_undefined_for(parameters, bounds_of(st));
        },
        List::Cons(head, tail) => {
            let parameter = spec_first_type(parameters);
            lemma_reborrow_argument(
                cx,
                st,
                head.value.operand,
                &head.value.ty,
                parameter,
                head.token,
            );
            let (next_st, argument) = spec_reborrow_argument(
                cx,
                st,
                head.value.operand,
                &head.value.ty,
                parameter,
                head.token,
            );
            lemma_grows_on(given, st, next_st);
            let st = next_st;
            lemma_pass_constructor_argument(
                cx,
                st,
                argument,
                &head.value.ty,
                parameter,
                start,
            );
            let (next_st, passed) = spec_pass_constructor_argument(
                cx,
                st,
                argument,
                &head.value.ty,
                parameter,
                start,
            );
            lemma_grows_on(given, st, next_st);
            let st = next_st;
            lemma_pass_constructor_arguments(
                cx,
                st,
                *tail,
                spec_other_types(parameters),
                start,
            );
            let (next_st, others) = spec_pass_constructor_arguments(
                cx,
                st,
                *tail,
                spec_other_types(parameters),
                start,
            );
            lemma_grows_on(given, st, next_st);
            let st = next_st;
        },
    }
}

pub proof fn lemma_lower_new_class(
    cx: &Context,
    st: State,
    definition: &Definition,
    constructor: &Option<Method>,
    arguments: &List<Type>,
    start: usize,
    open: usize,
    end: usize,
    low: Lowering,
)
    requires
        is_sound_lowering(low),
    ensures
        ({
            let after = spec_lower_new_class(
                cx,
                st,
                definition,
                constructor,
                arguments,
                start,
                open,
                end,
                low,
            );
            &&& grows(st, after.0)
            &&& fits(after.0) && is_sound(st)
                ==> is_sound(after.0) && optional_value_fits(after.1, bounds_of(after.0))
        }),
{
    broadcast use {group_shape, group_kinds};

    reveal(spec_lower_new_class);
    let given = st;
    lemma_grows_itself(st);
    let substitutions = bind_generics(&definition.generics, arguments, Bindable::Types, List::Nil);
    let parameters = parameter_templates(constructor, &substitutions);
    let ranges = cx.argument_ranges(next(open), before(end));
    lemma_lower_constructor_arguments(
        cx,
        st,
        &ranges,
        &parameters,
        substitutions,
        low,
    );
    let (next_st, attempt) = spec_lower_constructor_arguments(
        cx,
        st,
        &ranges,
        &parameters,
        substitutions,
        low,
    );
    lemma_grows_on(given, st, next_st);
    let st = next_st;
    match attempt {
        Some(lowered) => {
            let signature = spec_constructor_signature(
                definition,
                constructor,
                &parameters,
                &lowered.substitutions,
            );
            lemma_pass_constructor_arguments(
                cx,
                st,
                lowered.arguments,
                &signature.parameters,
                start,
            );
            let (next_st, passed) = spec_pass_constructor_arguments(
                cx,
                st,
                lowered.arguments,
                &signature.parameters,
                start,
            );
            lemma_grows_on(given, st, next_st);
            let st = next_st;
            let function = Operand::Constant(
                Constant::Constructor {
                    owner: definition.declaration,
                    member: constructor_member(constructor),
                    ty: Type::Function(signature.dup()),
                },
            );
            lemma_emit_call(cx, st, function, None, &signature, passed, start);
            let (next_st, _) = spec_emit_call(cx, st, function, None, &signature, passed, start);
            lemma_grows_on(given, st, next_st);
            let st = next_st;
        },
        _ => {},
    }
}

pub proof fn lemma_lower_new(cx: &Context, st: State, start: usize, end: usize, low: Lowering)
    requires
        is_sound_lowering(low),
    ensures
        ({
            let after = spec_lower_new(cx, st, start, end, low);
            &&& grows(st, after.0)
            &&& fits(after.0) && is_sound(st)
                ==> is_sound(after.0) && optional_value_fits(after.1, bounds_of(after.0))
        }),
{
    broadcast use {group_shape, group_kinds};

    reveal(spec_lower_new);
    let given = st;
    lemma_grows_itself(st);
    match cx.find_top_level(next(start), end, TokenKind::LeftParen) {
        Some(open) => {
            if cx.matching_token(
                open,
                TokenKind::LeftParen,
                TokenKind::RightParen,
            ) != Some(before(end)) {
            } else {
                match cx.type_of_range(start, end) {
                    Some(ty) => {
                        match ty {
                            Type::Nominal(owner, arguments) => {
                                match cx.program.definition(owner) {
                                    Some(definition) => {
                                        match &definition.data {
                                            DefinitionData::Struct { .. } => {
                                                lemma_lower_new_struct(
                                                    cx,
                                                    st,
                                                    Type::Nominal(owner, arguments),
                                                    start,
                                                    open,
                                                    end,
                                                    low,
                                                );
                                                let (next_st, _) = spec_lower_new_struct(
                                                    cx,
                                                    st,
                                                    Type::Nominal(owner, arguments),
                                                    start,
                                                    open,
                                                    end,
                                                    low,
                                                );
                                                lemma_grows_on(given, st, next_st);
                                                let st = next_st;
                                            },
                                            DefinitionData::Class { constructor, .. } => {
                                                lemma_lower_new_class(
                                                    cx,
                                                    st,
                                                    definition,
                                                    constructor,
                                                    &arguments,
                                                    start,
                                                    open,
                                                    end,
                                                    low,
                                                );
                                                let (next_st, _) = spec_lower_new_class(
                                                    cx,
                                                    st,
                                                    definition,
                                                    constructor,
                                                    &arguments,
                                                    start,
                                                    open,
                                                    end,
                                                    low,
                                                );
                                                lemma_grows_on(given, st, next_st);
                                                let st = next_st;
                                            },
                                            _ => {},
                                        }
                                    },
                                    _ => {},
                                }
                            },
                            _ => {},
                        }
                    },
                    _ => {},
                }
            }
        },
        _ => {},
    }
}

pub proof fn lemma_lower_aggregate_fields(
    cx: &Context,
    st: State,
    ranges: &List<TokenRange>,
    schema: &List<SchemaField>,
    ty: &Type,
    index: usize,
    low: Lowering,
)
    requires
        is_sound_lowering(low),
    ensures
        ({
            let after = spec_lower_aggregate_fields(cx, st, ranges, schema, ty, index, low);
            &&& grows(st, after.0)
            &&& fits(after.0) && is_sound(st)
                ==> is_sound(after.0)
                    && (match after.1 { Some(some) => arguments_fit(some, bounds_of(after.0)), None => true })
        }),
    decreases ranges,
{
    broadcast use {group_shape, group_kinds};

    reveal_with_fuel(spec_lower_aggregate_fields, 2);
    let given = st;
    lemma_grows_itself(st);
    match ranges {
        List::Nil => {},
        List::Cons(range, rest) => {
            let written = behind_colon(cx, **range);
            let expected = field_type_at(schema, ty, index);
            let (next_st, attempt) = (low.expression)(cx, st, written.start, written.end, crate::lowering::emit::type_ref(&expected));
            lemma_grows_on(given, st, next_st);
            let st = next_st;
            match attempt {
                Some(value) => {
                    lemma_lower_aggregate_fields(
                        cx,
                        st,
                        rest,
                        schema,
                        ty,
                        index.saturating_add(1),
                        low,
                    );
                    let (next_st, attempt) = spec_lower_aggregate_fields(
                        cx,
                        st,
                        rest,
                        schema,
                        ty,
                        index.saturating_add(1),
                        low,
                    );
                    lemma_grows_on(given, st, next_st);
                    let st = next_st;
                    match attempt {
                        Some(others) => {
                            let field_type = match expected {
                                Some(expected) => expected,
                                None => value.ty,
                            };
                        },
                        _ => {},
                    }
                },
                _ => {},
            }
        },
    }
}

pub proof fn lemma_lower_aggregate(
    cx: &Context,
    st: State,
    start: usize,
    end: usize,
    expected: Option<&Type>,
    low: Lowering,
)
    requires
        is_sound_lowering(low),
    ensures
        ({
            let after = spec_lower_aggregate(cx, st, start, end, expected, low);
            &&& grows(st, after.0)
            &&& fits(after.0) && is_sound(st)
                ==> is_sound(after.0) && optional_value_fits(after.1, bounds_of(after.0))
        }),
{
    broadcast use {group_shape, group_kinds};

    reveal(spec_lower_aggregate);
    let given = st;
    lemma_grows_itself(st);
    match checked_type(cx, start, end, expected) {
        Some(ty) => {
            let schema = aggregate_schema(cx.program, &ty);
            let ranges = spec_aggregate_ranges(cx, start, end, &schema);
            lemma_lower_aggregate_fields(cx, st, &ranges, &schema, &ty, 0, low);
            let (next_st, attempt) = spec_lower_aggregate_fields(
                cx,
                st,
                &ranges,
                &schema,
                &ty,
                0,
                low,
            );
            lemma_grows_on(given, st, next_st);
            let st = next_st;
            match attempt {
                Some(fields) => {
                    lemma_computed(
                        st, ty.dup(),
                        Rvalue::Aggregate {
                            ty: ty.dup(),
                            variant: None,
                            fields: fields.operands,
                            field_types: fields.types,
                        },
                        cx.span_at(start),
                    );
                    let (next_st, operand) = spec_computed(
                        st, ty.dup(),
                        Rvalue::Aggregate {
                            ty: ty.dup(),
                            variant: None,
                            fields: fields.operands,
                            field_types: fields.types,
                        },
                        cx.span_at(start),
                    );
                    lemma_grows_on(given, st, next_st);
                    let st = next_st;
                },
                _ => {},
            }
        },
        _ => {},
    }
}

} // verus!
