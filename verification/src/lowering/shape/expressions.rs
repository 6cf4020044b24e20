//! Expressions keep graphs well formed.

use vstd::prelude::*;

use crate::hir::{Method, PrimitiveType, ResolvedValue, Type};
use crate::list::{one, List};
use crate::lowering::access::{
    dereferenced, reference_mode, spec_lower_computed_member, spec_lower_field, spec_lower_index,
    spec_lower_member_chain, spec_lower_optional_chain, spec_lower_string_byte_length,
    spec_lower_string_length,
};
use crate::lowering::builder::{
    spec_is_captured, spec_local_type, spec_lowered_local, spec_new_block, spec_terminate, State,
};
use crate::lowering::calls::{checked_type, spec_lower_aggregate, spec_lower_call, spec_lower_new};
use crate::lowering::closures::{spec_lower_closure, spec_lower_template};
use crate::lowering::constants::constant;
use crate::lowering::context::{before, behind, next, Context};
use crate::lowering::emit::{
    converted, spec_assign, spec_borrowed, spec_branch, spec_computed, spec_live,
    spec_lower_await_operand, spec_materialize_operand, TypedPlace, Value,
};
use crate::lowering::expressions::{
    binary_result_type, call_open, cast_at, closes_range, conditional_at, downcast_source,
    is_binary, is_force_unwrap, is_literal_aggregate, is_prefixed, is_prefixed_binary, jsx_at,
    literal_type_for, member_dot, payload_operand, short_circuit_at, spec_atom_kind,
    spec_cast_pointee, spec_cast_target, spec_compared, spec_foreign_function, spec_function_value,
    spec_index_open, spec_literal_value, spec_local_value, spec_lower_atom, spec_lower_await,
    spec_lower_binary_expression, spec_lower_borrow, spec_lower_bracketed, spec_lower_cast,
    spec_lower_cast_operand, spec_lower_checked_downcast_borrow, spec_lower_choice,
    spec_lower_coalesce, spec_lower_conditional, spec_lower_dereference,
    spec_lower_dereference_place, spec_lower_expression_range, spec_lower_force_unwrap,
    spec_lower_global_address, spec_lower_global_load, spec_lower_keyword, spec_lower_owned_literal,
    spec_lower_place, spec_lower_pointer, spec_lower_postfix, spec_lower_reference,
    spec_lower_short_circuit, spec_lower_type_test, spec_lower_unary, spec_moved_local,
    spec_pointer_local, spec_task_promise, type_at, unary_result, AtomKind, ConditionalAt,
};
use crate::lowering::jsx::{spec_lower_jsx, spec_owned_text};
use crate::lowering::parser::parse_type_range;
use crate::lowering::recursion::{lowering, Lowering};
use crate::lowering::shape::access::{
    lemma_dereferenced, lemma_lower_computed_member, lemma_lower_field, lemma_lower_index,
    lemma_lower_member_chain, lemma_lower_optional_chain, lemma_lower_string_byte_length,
    lemma_lower_string_length,
};
use crate::lowering::shape::base::{
    bounds_of, fits, group_shape, grows, is_sound, is_sound_lowering, lemma_grows_itself,
    lemma_grows_on, lemma_lowered_local, lemma_new_block, lemma_set_current, lemma_terminate,
    optional_typed_place_fits, optional_value_fits, typed_place_fits, value_fits, Bounds,
};
use crate::lowering::shape::calls::{lemma_lower_aggregate, lemma_lower_call, lemma_lower_new};
use crate::lowering::shape::closures::{lemma_lower_closure, lemma_lower_template};
use crate::lowering::shape::emit::{
    lemma_assign, lemma_borrowed, lemma_branch, lemma_computed, lemma_live,
    lemma_lower_await_operand, lemma_materialize_operand,
};
use crate::lowering::shape::jsx::{lemma_lower_jsx, lemma_owned_text};
use crate::lowering::shape::kinds::group_kinds;
use crate::lowering::shape::statements::{lemma_local_at, lemma_lower_pointer_target};
use crate::lowering::shape::switches::lemma_lower_match;
use crate::lowering::statements::{
    global_declaration, spec_local_at, spec_lower_pointer_target, spec_type_of_local,
};
use crate::lowering::switches::spec_lower_match;
use crate::lowering::types::{
    binary_operand_type, mir_cast_kind, non_consuming_operand, normalize_string_comparison_operand,
    pointee_of, primitive, reference, task_promise_type,
};
use crate::mir::{
    operand_place, whole, BinaryOperator, Constant, LocalId, Operand, Projection, RawOperation,
    Rvalue, TerminatorKind,
};
use crate::names::Name;
use crate::syntax::{Span, TokenKind};

verus! {

pub proof fn lemma_lower_expression_range(
    cx: &Context,
    st: State,
    start: usize,
    end: usize,
    expected: Option<&Type>,
    low: Lowering,
)
    requires
        is_sound_lowering(low),
    ensures
        ({
            let after = spec_lower_expression_range(cx, st, start, end, expected, low);
            &&& grows(st, after.0)
            &&& fits(after.0) && is_sound(st)
                ==> is_sound(after.0) && optional_value_fits(after.1, bounds_of(after.0))
        }),
{
    broadcast use {group_shape, group_kinds};

    reveal(spec_lower_expression_range);
    let given = st;
    lemma_grows_itself(st);
    if start >= end {
    } else {
        if let Some(id) = jsx_at(cx, start, end) {
            lemma_lower_jsx(cx, st, id, start, low);
            let (next_st, _) = spec_lower_jsx(cx, st, id, start, low);
            lemma_grows_on(given, st, next_st);
            let st = next_st;
        } else {
            match cx.resolution(start, end) {
                Some(ResolvedValue::Closure(closure)) => {
                    lemma_lower_closure(cx, st, start, closure, low);
                    let (next_st, _) = spec_lower_closure(cx, st, start, closure, low);
                    lemma_grows_on(given, st, next_st);
                    let st = next_st;
                },
                Some(ResolvedValue::Template(template)) => {
                    lemma_lower_template(cx, st, start, template, low);
                    let (next_st, _) = spec_lower_template(cx, st, start, template, low);
                    lemma_grows_on(given, st, next_st);
                    let st = next_st;
                },
                Some(ResolvedValue::StringLength) => {
                    lemma_lower_string_length(cx, st, start, end, low);
                    let (next_st, _) = spec_lower_string_length(cx, st, start, end, low);
                    lemma_grows_on(given, st, next_st);
                    let st = next_st;
                },
                Some(ResolvedValue::StringByteLength) => {
                    lemma_lower_string_byte_length(cx, st, start, end, low);
                    let (next_st, _) = spec_lower_string_byte_length(cx, st, start, end, low);
                    lemma_grows_on(given, st, next_st);
                    let st = next_st;
                },
                _ => {
                    lemma_lower_keyword(cx, st, start, end, expected, low);
                    let (next_st, _) = spec_lower_keyword(cx, st, start, end, expected, low);
                    lemma_grows_on(given, st, next_st);
                    let st = next_st;
                },
            }
        }
    }
}

pub proof fn lemma_lower_keyword(
    cx: &Context,
    st: State,
    start: usize,
    end: usize,
    expected: Option<&Type>,
    low: Lowering,
)
    requires
        is_sound_lowering(low),
    ensures
        ({
            let after = spec_lower_keyword(cx, st, start, end, expected, low);
            &&& grows(st, after.0)
            &&& fits(after.0) && is_sound(st)
                ==> is_sound(after.0) && optional_value_fits(after.1, bounds_of(after.0))
        }),
{
    broadcast use {group_shape, group_kinds};

    reveal(spec_lower_keyword);
    let given = st;
    lemma_grows_itself(st);
    if cx.is(start, TokenKind::Try) && cx.is(next(start), TokenKind::Await) {
        lemma_lower_await(cx, st, next(start), end, low);
        let (next_st, _) = spec_lower_await(cx, st, next(start), end, low);
        lemma_grows_on(given, st, next_st);
        let st = next_st;
    } else {
        if cx.is(start, TokenKind::Await) {
            lemma_lower_await(cx, st, start, end, low);
            let (next_st, _) = spec_lower_await(cx, st, start, end, low);
            lemma_grows_on(given, st, next_st);
            let st = next_st;
        } else {
            if cx.is(start, TokenKind::Try) {
                let (next_st, _) = (low.expression)(cx, st, next(start), end, expected);
                lemma_grows_on(given, st, next_st);
                let st = next_st;
            } else {
                if is_force_unwrap(cx, start, end) {
                    lemma_lower_force_unwrap(cx, st, start, before(end), low);
                    let (next_st, _) = spec_lower_force_unwrap(cx, st, start, before(end), low);
                    lemma_grows_on(given, st, next_st);
                    let st = next_st;
                } else {
                    if cx.is(start, TokenKind::Switch) {
                        lemma_lower_match(cx, st, start, end, expected, low);
                        let (next_st, _) = spec_lower_match(cx, st, start, end, expected, low);
                        lemma_grows_on(given, st, next_st);
                        let st = next_st;
                    } else {
                        if cx.is(start, TokenKind::New) {
                            lemma_lower_new(cx, st, start, end, low);
                            let (next_st, _) = spec_lower_new(cx, st, start, end, low);
                            lemma_grows_on(given, st, next_st);
                            let st = next_st;
                        } else {
                            if let Some(operator) = cx.find_top_level(
                                start,
                                end,
                                TokenKind::QuestionQuestion,
                            ) {
                                lemma_lower_coalesce(cx, st, start, operator, end, low);
                                let (next_st, _) = spec_lower_coalesce(
                                    cx,
                                    st,
                                    start,
                                    operator,
                                    end,
                                    low,
                                );
                                lemma_grows_on(given, st, next_st);
                                let st = next_st;
                            } else {
                                if let Some(marks) = conditional_at(cx, start, end) {
                                    lemma_lower_conditional(
                                        cx,
                                        st,
                                        start,
                                        marks,
                                        end,
                                        expected,
                                        low,
                                    );
                                    let (next_st, _) = spec_lower_conditional(
                                        cx,
                                        st,
                                        start,
                                        marks,
                                        end,
                                        expected,
                                        low,
                                    );
                                    lemma_grows_on(given, st, next_st);
                                    let st = next_st;
                                } else {
                                    lemma_lower_bracketed(cx, st, start, end, expected, low);
                                    let (next_st, _) = spec_lower_bracketed(
                                        cx,
                                        st,
                                        start,
                                        end,
                                        expected,
                                        low,
                                    );
                                    lemma_grows_on(given, st, next_st);
                                    let st = next_st;
                                }
                            }
                        }
                    }
                }
            }
        }
    }
}

pub proof fn lemma_lower_bracketed(
    cx: &Context,
    st: State,
    start: usize,
    end: usize,
    expected: Option<&Type>,
    low: Lowering,
)
    requires
        is_sound_lowering(low),
    ensures
        ({
            let after = spec_lower_bracketed(cx, st, start, end, expected, low);
            &&& grows(st, after.0)
            &&& fits(after.0) && is_sound(st)
                ==> is_sound(after.0) && optional_value_fits(after.1, bounds_of(after.0))
        }),
{
    broadcast use {group_shape, group_kinds};

    reveal(spec_lower_bracketed);
    let given = st;
    lemma_grows_itself(st);
    if is_literal_aggregate(cx, start, end) {
        lemma_lower_aggregate(cx, st, start, end, expected, low);
        let (next_st, _) = spec_lower_aggregate(cx, st, start, end, expected, low);
        lemma_grows_on(given, st, next_st);
        let st = next_st;
    } else {
        if closes_range(cx, start, end, TokenKind::LeftParen, TokenKind::RightParen) {
            if cx.find_top_level(next(start), before(end), TokenKind::Comma).is_some() {
                lemma_lower_aggregate(cx, st, start, end, expected, low);
                let (next_st, _) = spec_lower_aggregate(cx, st, start, end, expected, low);
                lemma_grows_on(given, st, next_st);
                let st = next_st;
            } else {
                let (next_st, _) = (low.expression)(cx, st, next(start), before(end), expected);
                lemma_grows_on(given, st, next_st);
                let st = next_st;
            }
        } else {
            if let Some(found) = short_circuit_at(cx, start, end) {
                lemma_lower_short_circuit(cx, st, start, found.index, end, found.operator, low);
                let (next_st, _) = spec_lower_short_circuit(
                    cx,
                    st,
                    start,
                    found.index,
                    end,
                    found.operator,
                    low,
                );
                lemma_grows_on(given, st, next_st);
                let st = next_st;
            } else {
                if is_prefixed(cx, start) {
                    if is_prefixed_binary(cx, start, end) {
                        lemma_lower_binary_expression(cx, st, start, end, expected, low);
                        let (next_st, _) = spec_lower_binary_expression(
                            cx,
                            st,
                            start,
                            end,
                            expected,
                            low,
                        );
                        lemma_grows_on(given, st, next_st);
                        let st = next_st;
                    } else {
                        lemma_lower_unary(cx, st, start, end, expected, low);
                        let (next_st, _) = spec_lower_unary(cx, st, start, end, expected, low);
                        lemma_grows_on(given, st, next_st);
                        let st = next_st;
                    }
                } else {
                    lemma_lower_postfix(cx, st, start, end, expected, low);
                    let (next_st, _) = spec_lower_postfix(cx, st, start, end, expected, low);
                    lemma_grows_on(given, st, next_st);
                    let st = next_st;
                }
            }
        }
    }
}

pub proof fn lemma_lower_postfix(
    cx: &Context,
    st: State,
    start: usize,
    end: usize,
    expected: Option<&Type>,
    low: Lowering,
)
    requires
        is_sound_lowering(low),
    ensures
        ({
            let after = spec_lower_postfix(cx, st, start, end, expected, low);
            &&& grows(st, after.0)
            &&& fits(after.0) && is_sound(st)
                ==> is_sound(after.0) && optional_value_fits(after.1, bounds_of(after.0))
        }),
{
    broadcast use {group_shape, group_kinds};

    reveal(spec_lower_postfix);
    let given = st;
    lemma_grows_itself(st);
    if let Some(question_dot) = cx.find_top_level(start, end, TokenKind::QuestionDot) {
        lemma_lower_optional_chain(cx, st, start, question_dot, end, low);
        let (next_st, _) = spec_lower_optional_chain(cx, st, start, question_dot, end, low);
        lemma_grows_on(given, st, next_st);
        let st = next_st;
    } else {
        if let Some(open) = call_open(cx, start, end) {
            lemma_lower_call(cx, st, start, open, end, low);
            let (next_st, _) = spec_lower_call(cx, st, start, open, end, low);
            lemma_grows_on(given, st, next_st);
            let st = next_st;
        } else {
            if let Some(open) = spec_index_open(cx, start, end) {
                if cx.direct_member_access(start, end).is_some() {
                    lemma_lower_computed_member(cx, st, start, open, end, low);
                    let (next_st, _) = spec_lower_computed_member(cx, st, start, open, end, low);
                    lemma_grows_on(given, st, next_st);
                    let st = next_st;
                } else {
                    lemma_lower_index(cx, st, start, open, end, low);
                    let (next_st, _) = spec_lower_index(cx, st, start, open, end, low);
                    lemma_grows_on(given, st, next_st);
                    let st = next_st;
                }
            } else {
                if let Some(dot) = member_dot(cx, start, end) {
                    if behind(dot, 2) == end {
                        lemma_lower_field(cx, st, start, dot, end, low);
                        let (next_st, _) = spec_lower_field(cx, st, start, dot, end, low);
                        lemma_grows_on(given, st, next_st);
                        let st = next_st;
                    } else {
                        lemma_lower_member_chain(cx, st, start, end, low);
                        let (next_st, _) = spec_lower_member_chain(cx, st, start, end, low);
                        lemma_grows_on(given, st, next_st);
                        let st = next_st;
                    }
                } else {
                    if let Some(cast) = cast_at(cx, start, end) {
                        lemma_lower_cast(cx, st, start, cast, end, low);
                        let (next_st, _) = spec_lower_cast(cx, st, start, cast, end, low);
                        lemma_grows_on(given, st, next_st);
                        let st = next_st;
                    } else {
                        if let Some(operator) = cx.find_top_level(
                            start,
                            end,
                            TokenKind::InstanceOf,
                        ) {
                            lemma_lower_type_test(cx, st, start, operator, end, low);
                            let (next_st, _) = spec_lower_type_test(
                                cx,
                                st,
                                start,
                                operator,
                                end,
                                low,
                            );
                            lemma_grows_on(given, st, next_st);
                            let st = next_st;
                        } else {
                            if is_binary(cx, start, end) {
                                lemma_lower_binary_expression(cx, st, start, end, expected, low);
                                let (next_st, _) = spec_lower_binary_expression(
                                    cx,
                                    st,
                                    start,
                                    end,
                                    expected,
                                    low,
                                );
                                lemma_grows_on(given, st, next_st);
                                let st = next_st;
                            } else {
                                if cx.is(start, TokenKind::Star) {
                                    lemma_lower_dereference(cx, st, start, end, expected, low);
                                    let (next_st, _) = spec_lower_dereference(
                                        cx,
                                        st,
                                        start,
                                        end,
                                        expected,
                                        low,
                                    );
                                    lemma_grows_on(given, st, next_st);
                                    let st = next_st;
                                } else {
                                    if cx.is(start, TokenKind::Amp) {
                                        lemma_lower_borrow(cx, st, start, end, low);
                                        let (next_st, _) = spec_lower_borrow(
                                            cx,
                                            st,
                                            start,
                                            end,
                                            low,
                                        );
                                        lemma_grows_on(given, st, next_st);
                                        let st = next_st;
                                    } else {
                                        if cx.is(start, TokenKind::Move) {
                                            lemma_moved_local(cx, st, next(start));
                                        } else {
                                            lemma_lower_atom(cx, st, start, expected);
                                            let (next_st, _) = spec_lower_atom(
                                                cx,
                                                st,
                                                start,
                                                expected,
                                            );
                                            lemma_grows_on(given, st, next_st);
                                            let st = next_st;
                                        }
                                    }
                                }
                            }
                        }
                    }
                }
            }
        }
    }
}

pub proof fn lemma_moved_local(cx: &Context, st: State, index: usize)
    ensures
        ({
            let found = spec_moved_local(cx, st, index);
            is_sound(st) ==> optional_value_fits(found, bounds_of(st))
        }),
{
    broadcast use {group_shape, group_kinds};

    reveal(spec_moved_local);
    lemma_local_at(cx, st, index);
    match spec_local_at(cx, st, index) {
        Some(local) => {},
        None => {},
    }
}

pub proof fn lemma_lower_cast_operand(
    cx: &Context,
    st: State,
    value: Value,
    target: &Type,
    cast: usize,
)
    ensures
        ({
            let after = spec_lower_cast_operand(cx, st, value, target, cast);
            &&& grows(st, after.0)
            &&& fits(after.0) && is_sound(st) && value_fits(value, bounds_of(st))
                ==> is_sound(after.0) && optional_value_fits(after.1, bounds_of(after.0))
        }),
{
    broadcast use {group_shape, group_kinds};

    reveal(spec_lower_cast_operand);
    let given = st;
    lemma_grows_itself(st);
    if cx.is(cast, TokenKind::AsQuestion) {
        lemma_lower_checked_downcast_borrow(cx, st, value, target, cast);
        let (next_st, _) = spec_lower_checked_downcast_borrow(cx, st, value, target, cast);
        lemma_grows_on(given, st, next_st);
        let st = next_st;
    }
}

pub proof fn lemma_lower_cast(
    cx: &Context,
    st: State,
    start: usize,
    cast: usize,
    end: usize,
    low: Lowering,
)
    requires
        is_sound_lowering(low),
    ensures
        ({
            let after = spec_lower_cast(cx, st, start, cast, end, low);
            &&& grows(st, after.0)
            &&& fits(after.0) && is_sound(st)
                ==> is_sound(after.0) && optional_value_fits(after.1, bounds_of(after.0))
        }),
{
    broadcast use {group_shape, group_kinds};

    reveal(spec_lower_cast);
    let given = st;
    lemma_grows_itself(st);
    let (next_st, attempt) = (low.expression)(cx, st, start, cast, None);
    lemma_grows_on(given, st, next_st);
    let st = next_st;
    match attempt {
        Some(value) => {
            match spec_cast_target(cx, start, cast, end) {
                Some(target) => {
                    lemma_lower_cast_operand(cx, st, value, &target, cast);
                    let (next_st, attempt) = spec_lower_cast_operand(cx, st, value, &target, cast);
                    lemma_grows_on(given, st, next_st);
                    let st = next_st;
                    match attempt {
                        Some(source) => {
                            lemma_computed(
                                st, target.dup(),
                                Rvalue::Cast {
                                    operand: source.operand,
                                    ty: target.dup(),
                                    kind: mir_cast_kind(&source.ty, &target),
                                },
                                cx.span_at(cast),
                            );
                            let (next_st, operand) = spec_computed(
                                st, target.dup(),
                                Rvalue::Cast {
                                    operand: source.operand,
                                    ty: target.dup(),
                                    kind: mir_cast_kind(&source.ty, &target),
                                },
                                cx.span_at(cast),
                            );
                            lemma_grows_on(given, st, next_st);
                            let st = next_st;
                        },
                        _ => {},
                    }
                },
                _ => {},
            }
        },
        _ => {},
    }
}

pub proof fn lemma_lower_checked_downcast_borrow(
    cx: &Context,
    st: State,
    source: Value,
    target: &Type,
    token: usize,
)
    ensures
        ({
            let after = spec_lower_checked_downcast_borrow(cx, st, source, target, token);
            &&& grows(st, after.0)
            &&& fits(after.0) && is_sound(st) && value_fits(source, bounds_of(st))
                ==> is_sound(after.0) && optional_value_fits(after.1, bounds_of(after.0))
        }),
{
    broadcast use {group_shape, group_kinds};

    reveal(spec_lower_checked_downcast_borrow);
    let given = st;
    lemma_grows_itself(st);
    match downcast_source(&source.ty, target) {
        Some(ty) => {
            match operand_place(source.operand) {
                Some(place) => {
                    lemma_dereferenced(
                    place,
                    reference_mode(&source.ty).is_some(), bounds_of(st));
                    let referent = dereferenced(
                        place,
                        reference_mode(&source.ty).is_some(),
                    );
                    let mutable = matches!(ty, Type::Reference { mutable: true, .. });
                    lemma_borrowed(st, ty.dup(), mutable, referent, cx.span_at(token));
                    let (next_st, operand) = spec_borrowed(
                        st,
                        ty.dup(),
                        mutable,
                        referent,
                        cx.span_at(token),
                    );
                    lemma_grows_on(given, st, next_st);
                    let st = next_st;
                },
                _ => {},
            }
        },
        _ => {},
    }
}

pub proof fn lemma_lower_type_test(
    cx: &Context,
    st: State,
    start: usize,
    operator: usize,
    end: usize,
    low: Lowering,
)
    requires
        is_sound_lowering(low),
    ensures
        ({
            let after = spec_lower_type_test(cx, st, start, operator, end, low);
            &&& grows(st, after.0)
            &&& fits(after.0) && is_sound(st)
                ==> is_sound(after.0) && optional_value_fits(after.1, bounds_of(after.0))
        }),
{
    broadcast use {group_shape, group_kinds};

    reveal(spec_lower_type_test);
    let given = st;
    lemma_grows_itself(st);
    let (next_st, attempt) = (low.expression)(cx, st, start, operator, None);
    lemma_grows_on(given, st, next_st);
    let st = next_st;
    match attempt {
        Some(value) => {
            match parse_type_range(cx, next(operator), end) {
                Some(target) => {
                    lemma_computed(
                        st, primitive(PrimitiveType::Bool),
                        Rvalue::TypeTest { operand: value.operand, target },
                        cx.span_at(operator),
                    );
                    let (next_st, operand) = spec_computed(
                        st, primitive(PrimitiveType::Bool),
                        Rvalue::TypeTest { operand: value.operand, target },
                        cx.span_at(operator),
                    );
                    lemma_grows_on(given, st, next_st);
                    let st = next_st;
                },
                _ => {},
            }
        },
        _ => {},
    }
}

pub proof fn lemma_pointer_local(cx: &Context, st: State, index: usize)
    ensures
        ({
            let found = spec_pointer_local(cx, st, index);
            is_sound(st) ==> optional_value_fits(found, bounds_of(st))
        }),
{
    broadcast use {group_shape, group_kinds};

    reveal(spec_pointer_local);
    lemma_local_at(cx, st, index);
    match spec_local_at(cx, st, index) {
        Some(local) => {
            let ty = spec_type_of_local(st, local);
            if pointee_of(ty.dup()).is_some() {
            }
        },
        None => {},
    }
}

pub proof fn lemma_lower_pointer(
    cx: &Context,
    st: State,
    start: usize,
    end: usize,
    expected: Option<&Type>,
    low: Lowering,
)
    requires
        is_sound_lowering(low),
    ensures
        ({
            let after = spec_lower_pointer(cx, st, start, end, expected, low);
            &&& grows(st, after.0)
            &&& fits(after.0) && is_sound(st)
                ==> is_sound(after.0) && optional_value_fits(after.1, bounds_of(after.0))
        }),
{
    broadcast use {group_shape, group_kinds};

    reveal(spec_lower_pointer);
    let given = st;
    lemma_grows_itself(st);
    if cx.is(before(end), TokenKind::Bang) {
        let (next_st, _) = (low.expression)(cx, st, next(start), end, expected);
        lemma_grows_on(given, st, next_st);
        let st = next_st;
    } else {
        lemma_pointer_local(cx, st, next(start));
        let held = spec_pointer_local(cx, st, next(start));
        if held.is_some() {
        } else {
            let (next_st, _) = (low.expression)(cx, st, next(start), end, None);
            lemma_grows_on(given, st, next_st);
            let st = next_st;
        }
    }
}

pub proof fn lemma_lower_dereference(
    cx: &Context,
    st: State,
    start: usize,
    end: usize,
    expected: Option<&Type>,
    low: Lowering,
)
    requires
        is_sound_lowering(low),
    ensures
        ({
            let after = spec_lower_dereference(cx, st, start, end, expected, low);
            &&& grows(st, after.0)
            &&& fits(after.0) && is_sound(st)
                ==> is_sound(after.0) && optional_value_fits(after.1, bounds_of(after.0))
        }),
{
    broadcast use {group_shape, group_kinds};

    reveal(spec_lower_dereference);
    let given = st;
    lemma_grows_itself(st);
    lemma_lower_pointer(cx, st, start, end, expected, low);
    let (next_st, attempt) = spec_lower_pointer(cx, st, start, end, expected, low);
    lemma_grows_on(given, st, next_st);
    let st = next_st;
    match attempt {
        Some(pointer) => {
            match pointee_of(pointer.ty) {
                Some(ty) => {
                    lemma_computed(
                        st, ty.dup(),
                        Rvalue::RawOperation {
                            operation: RawOperation::Dereference,
                            operands: one(pointer.operand),
                            ty: ty.dup(),
                        },
                        cx.span_at(start),
                    );
                    let (next_st, operand) = spec_computed(
                        st, ty.dup(),
                        Rvalue::RawOperation {
                            operation: RawOperation::Dereference,
                            operands: one(pointer.operand),
                            ty: ty.dup(),
                        },
                        cx.span_at(start),
                    );
                    lemma_grows_on(given, st, next_st);
                    let st = next_st;
                },
                _ => {},
            }
        },
        _ => {},
    }
}

pub proof fn lemma_lower_dereference_place(
    cx: &Context,
    st: State,
    start: usize,
    end: usize,
    low: Lowering,
)
    requires
        is_sound_lowering(low),
    ensures
        ({
            let after = spec_lower_dereference_place(cx, st, start, end, low);
            &&& grows(st, after.0)
            &&& fits(after.0) && is_sound(st)
                ==> is_sound(after.0) && optional_typed_place_fits(after.1, bounds_of(after.0))
        }),
{
    broadcast use {group_shape, group_kinds};

    reveal(spec_lower_dereference_place);
    let given = st;
    lemma_grows_itself(st);
    if !cx.is(start, TokenKind::Star) {
    } else {
        match cast_at(cx, next(start), end) {
            Some(cast) => {
                let (next_st, attempt) = (low.expression)(cx, st, next(start), cast, None);
                lemma_grows_on(given, st, next_st);
                let st = next_st;
                match attempt {
                    Some(pointer) => {
                        match (spec_cast_pointee(cx, next(start), cast, end), operand_place(pointer.operand)) {
                            (Some(ty), Some(place)) => {},
                            _ => {},
                        }
                    },
                    _ => {},
                }
            },
            None => {
                lemma_lower_pointer_target(cx, st, start, end, low);
                let (next_st, _) = spec_lower_pointer_target(cx, st, start, end, low);
                lemma_grows_on(given, st, next_st);
                let st = next_st;
            },
        }
    }
}

pub proof fn lemma_lower_global_address(
    cx: &Context,
    st: State,
    global: crate::lowering::statements::Global,
    mutable: bool,
    start: usize,
)
    ensures
        ({
            let after = spec_lower_global_address(cx, st, global, mutable, start);
            &&& grows(st, after.0)
            &&& fits(after.0) && is_sound(st)
                ==> is_sound(after.0) && value_fits(after.1, bounds_of(after.0))
        }),
{
    broadcast use {group_shape, group_kinds};

    reveal(spec_lower_global_address);
    let given = st;
    lemma_grows_itself(st);
    let ty = reference(mutable, Name::Scope, global.ty);
    lemma_computed(
        st, ty.dup(),
        Rvalue::RawOperation {
            operation: RawOperation::GlobalAddress(global.declaration),
            operands: List::Nil,
            ty: ty.dup(),
        },
        cx.span_at(start),
    );
    let (next_st, operand) = spec_computed(
        st, ty.dup(),
        Rvalue::RawOperation {
            operation: RawOperation::GlobalAddress(global.declaration),
            operands: List::Nil,
            ty: ty.dup(),
        },
        cx.span_at(start),
    );
    lemma_grows_on(given, st, next_st);
    let st = next_st;
}

pub proof fn lemma_lower_reference(
    cx: &Context,
    st: State,
    target: TypedPlace,
    mutable: bool,
    start: usize,
)
    ensures
        ({
            let after = spec_lower_reference(cx, st, target, mutable, start);
            &&& grows(st, after.0)
            &&& fits(after.0) && is_sound(st) && typed_place_fits(target, bounds_of(st))
                ==> is_sound(after.0) && value_fits(after.1, bounds_of(after.0))
        }),
{
    broadcast use {group_shape, group_kinds};

    reveal(spec_lower_reference);
    let given = st;
    lemma_grows_itself(st);
    let ty = reference(mutable, Name::Scope, target.ty);
    lemma_borrowed(st, ty.dup(), mutable, target.place, cx.span_at(start));
    let (next_st, operand) = spec_borrowed(st, ty.dup(), mutable, target.place, cx.span_at(start));
    lemma_grows_on(given, st, next_st);
    let st = next_st;
}

pub proof fn lemma_lower_place(cx: &Context, st: State, start: usize, end: usize, low: Lowering)
    requires
        is_sound_lowering(low),
    ensures
        ({
            let after = spec_lower_place(cx, st, start, end, low);
            &&& grows(st, after.0)
            &&& fits(after.0) && is_sound(st)
                ==> is_sound(after.0) && optional_typed_place_fits(after.1, bounds_of(after.0))
        }),
{
    broadcast use {group_shape, group_kinds};

    reveal(spec_lower_place);
    let given = st;
    lemma_grows_itself(st);
    let (next_st, attempt) = (low.expression)(cx, st, start, end, None);
    lemma_grows_on(given, st, next_st);
    let st = next_st;
    match attempt {
        Some(value) => {
            match operand_place(value.operand) {
                Some(place) => {},
                None => {},
            }
        },
        _ => {},
    }
}

pub proof fn lemma_lower_borrow(cx: &Context, st: State, start: usize, end: usize, low: Lowering)
    requires
        is_sound_lowering(low),
    ensures
        ({
            let after = spec_lower_borrow(cx, st, start, end, low);
            &&& grows(st, after.0)
            &&& fits(after.0) && is_sound(st)
                ==> is_sound(after.0) && optional_value_fits(after.1, bounds_of(after.0))
        }),
{
    broadcast use {group_shape, group_kinds};

    reveal(spec_lower_borrow);
    let given = st;
    lemma_grows_itself(st);
    let mutable = cx.is(next(start), TokenKind::Mut);
    let name: usize = if mutable {
        behind(start, 2)
    } else {
        next(start)
    };
    lemma_lower_dereference_place(cx, st, name, end, low);
    let (next_st, pointed) = spec_lower_dereference_place(cx, st, name, end, low);
    lemma_grows_on(given, st, next_st);
    let st = next_st;
    if let Some(target) = pointed {
        lemma_lower_reference(cx, st, target, mutable, start);
        let (next_st, value) = spec_lower_reference(cx, st, target, mutable, start);
        lemma_grows_on(given, st, next_st);
        let st = next_st;
    } else {
        if let Some(global) = global_declaration(cx, name, end) {
            lemma_lower_global_address(cx, st, global, mutable, start);
            let (next_st, value) = spec_lower_global_address(cx, st, global, mutable, start);
            lemma_grows_on(given, st, next_st);
            let st = next_st;
        } else {
            lemma_lower_place(cx, st, name, end, low);
            let (next_st, attempt) = spec_lower_place(cx, st, name, end, low);
            lemma_grows_on(given, st, next_st);
            let st = next_st;
            match attempt {
                Some(target) => {
                    lemma_lower_reference(cx, st, target, mutable, start);
                    let (next_st, value) = spec_lower_reference(cx, st, target, mutable, start);
                    lemma_grows_on(given, st, next_st);
                    let st = next_st;
                },
                _ => {},
            }
        }
    }
}

pub proof fn lemma_lower_unary(
    cx: &Context,
    st: State,
    start: usize,
    end: usize,
    expected: Option<&Type>,
    low: Lowering,
)
    requires
        is_sound_lowering(low),
    ensures
        ({
            let after = spec_lower_unary(cx, st, start, end, expected, low);
            &&& grows(st, after.0)
            &&& fits(after.0) && is_sound(st)
                ==> is_sound(after.0) && optional_value_fits(after.1, bounds_of(after.0))
        }),
{
    broadcast use {group_shape, group_kinds};

    reveal(spec_lower_unary);
    let given = st;
    lemma_grows_itself(st);
    let (next_st, attempt) = (low.expression)(cx, st, next(start), end, expected);
    lemma_grows_on(given, st, next_st);
    let st = next_st;
    match attempt {
        Some(value) => {
            match unary_result(cx, start, &value.ty) {
                Some(result) => {
                    lemma_computed(
                        st, result.ty.dup(),
                        Rvalue::Unary {
                            operator: result.operator,
                            operand: value.operand,
                            operand_type: value.ty,
                            result_type: result.ty.dup(),
                        },
                        cx.span_at(start),
                    );
                    let (next_st, operand) = spec_computed(
                        st, result.ty.dup(),
                        Rvalue::Unary {
                            operator: result.operator,
                            operand: value.operand,
                            operand_type: value.ty,
                            result_type: result.ty.dup(),
                        },
                        cx.span_at(start),
                    );
                    lemma_grows_on(given, st, next_st);
                    let st = next_st;
                },
                _ => {},
            }
        },
        _ => {},
    }
}

pub proof fn lemma_compared(value: Value, operator: BinaryOperator, bounds: Bounds)
    ensures
        ({
            let found = spec_compared(value, operator);
            value_fits(value, bounds) ==> value_fits(found, bounds)
        }),
{
    broadcast use {group_shape, group_kinds};

    reveal(spec_compared);
    let operand = if operator == BinaryOperator::Equal || operator == BinaryOperator::NotEqual {
        non_consuming_operand(value.operand)
    } else {
        value.operand
    };
    let normalized = normalize_string_comparison_operand(operand, value.ty);
}

pub proof fn lemma_lower_binary_expression(
    cx: &Context,
    st: State,
    start: usize,
    end: usize,
    expected: Option<&Type>,
    low: Lowering,
)
    requires
        is_sound_lowering(low),
    ensures
        ({
            let after = spec_lower_binary_expression(cx, st, start, end, expected, low);
            &&& grows(st, after.0)
            &&& fits(after.0) && is_sound(st)
                ==> is_sound(after.0) && optional_value_fits(after.1, bounds_of(after.0))
        }),
{
    broadcast use {group_shape, group_kinds};

    reveal(spec_lower_binary_expression);
    let given = st;
    lemma_grows_itself(st);
    match cx.find_binary_operator(start, end) {
        Some(found) => {
            if found.index <= start {
            } else {
                let (next_st, attempt) = (low.expression)(cx, st, start, found.index, expected);
                lemma_grows_on(given, st, next_st);
                let st = next_st;
                match attempt {
                    Some(first) => {
                        let (next_st, attempt) = (low.expression)(cx, st, next(found.index), end, Some(&first.ty));
                        lemma_grows_on(given, st, next_st);
                        let st = next_st;
                        match attempt {
                            Some(second) => {
                                lemma_compared(first, found.operator, bounds_of(st));
                                let left = spec_compared(first, found.operator);
                                lemma_compared(second, found.operator, bounds_of(st));
                                let right = spec_compared(second, found.operator);
                                let operand_type = binary_operand_type(&left.ty, &right.ty);
                                let ty = binary_result_type(found.operator, &operand_type);
                                lemma_computed(
                                    st, ty.dup(),
                                    Rvalue::CheckedBinary {
                                        operator: found.operator,
                                        left: left.operand,
                                        right: right.operand,
                                        operand_type,
                                        result_type: ty.dup(),
                                    },
                                    cx.span_at(found.index),
                                );
                                let (next_st, operand) = spec_computed(
                                    st, ty.dup(),
                                    Rvalue::CheckedBinary {
                                        operator: found.operator,
                                        left: left.operand,
                                        right: right.operand,
                                        operand_type,
                                        result_type: ty.dup(),
                                    },
                                    cx.span_at(found.index),
                                );
                                lemma_grows_on(given, st, next_st);
                                let st = next_st;
                            },
                            _ => {},
                        }
                    },
                    _ => {},
                }
            }
        },
        _ => {},
    }
}

pub proof fn lemma_lower_choice(
    cx: &Context,
    st: State,
    block: crate::mir::BasicBlockId,
    start: usize,
    end: usize,
    destination: LocalId,
    ty: &Type,
    join: crate::mir::BasicBlockId,
    low: Lowering,
)
    requires
        is_sound_lowering(low),
    ensures
        ({
            let after = spec_lower_choice(cx, st, block, start, end, destination, ty, join, low);
            &&& grows(st, after.0)
            &&& fits(after.0) && is_sound(st) && block.0 < bounds_of(st).blocks
                && destination.0 < bounds_of(st).locals && join.0 < bounds_of(st).blocks
                ==> is_sound(after.0)
        }),
{
    broadcast use {group_shape, group_kinds};

    reveal(spec_lower_choice);
    let given = st;
    lemma_grows_itself(st);
    lemma_set_current(st, block);
    let next_st = State { current: block, ..st };
    lemma_grows_on(given, st, next_st);
    let st = next_st;
    let (next_st, attempt) = (low.expression)(cx, st, start, end, Some(ty));
    lemma_grows_on(given, st, next_st);
    let st = next_st;
    match attempt {
        Some(value) => {
            lemma_assign(
                st,
                destination,
                converted(value.operand, &value.ty, ty),
                cx.span_at(start),
            );
            let next_st = spec_assign(
                st,
                destination,
                converted(value.operand, &value.ty, ty),
                cx.span_at(start),
            );
            lemma_grows_on(given, st, next_st);
            let st = next_st;
            lemma_terminate(st, TerminatorKind::Goto(join), cx.span_at(start));
            let next_st = spec_terminate(st, TerminatorKind::Goto(join), cx.span_at(start));
            lemma_grows_on(given, st, next_st);
            let st = next_st;
        },
        _ => {},
    }
}

pub proof fn lemma_lower_conditional(
    cx: &Context,
    st: State,
    start: usize,
    marks: ConditionalAt,
    end: usize,
    expected: Option<&Type>,
    low: Lowering,
)
    requires
        is_sound_lowering(low),
    ensures
        ({
            let after = spec_lower_conditional(cx, st, start, marks, end, expected, low);
            &&& grows(st, after.0)
            &&& fits(after.0) && is_sound(st)
                ==> is_sound(after.0) && optional_value_fits(after.1, bounds_of(after.0))
        }),
{
    broadcast use {group_shape, group_kinds};

    reveal(spec_lower_conditional);
    let given = st;
    lemma_grows_itself(st);
    let span = cx.span_at(marks.question);
    let bool_type = primitive(PrimitiveType::Bool);
    let (next_st, attempt) = (low.expression)(cx, st, start, marks.question, Some(&bool_type));
    lemma_grows_on(given, st, next_st);
    let st = next_st;
    match attempt {
        Some(condition) => {
            match checked_type(cx, start, end, expected) {
                Some(ty) => {
                    lemma_live(st, ty.dup(), span);
                    let (next_st, destination) = spec_live(st, ty.dup(), span);
                    lemma_grows_on(given, st, next_st);
                    let st = next_st;
                    lemma_new_block(st);
                    let (next_st, then_block) = spec_new_block(st);
                    lemma_grows_on(given, st, next_st);
                    let st = next_st;
                    lemma_new_block(st);
                    let (next_st, else_block) = spec_new_block(st);
                    lemma_grows_on(given, st, next_st);
                    let st = next_st;
                    lemma_new_block(st);
                    let (next_st, join) = spec_new_block(st);
                    lemma_grows_on(given, st, next_st);
                    let st = next_st;
                    lemma_branch(st, condition.operand, then_block, else_block, span);
                    let next_st = spec_branch(st, condition.operand, then_block, else_block, span);
                    lemma_grows_on(given, st, next_st);
                    let st = next_st;
                    lemma_lower_choice(
                        cx,
                        st,
                        then_block,
                        next(marks.question),
                        marks.colon,
                        destination,
                        &ty,
                        join,
                        low,
                    );
                    let (next_st, first) = spec_lower_choice(
                        cx,
                        st,
                        then_block,
                        next(marks.question),
                        marks.colon,
                        destination,
                        &ty,
                        join,
                        low,
                    );
                    lemma_grows_on(given, st, next_st);
                    let st = next_st;
                    if !first {
                    } else {
                        lemma_lower_choice(
                            cx,
                            st,
                            else_block,
                            next(marks.colon),
                            end,
                            destination,
                            &ty,
                            join,
                            low,
                        );
                        let (next_st, second) = spec_lower_choice(
                            cx,
                            st,
                            else_block,
                            next(marks.colon),
                            end,
                            destination,
                            &ty,
                            join,
                            low,
                        );
                        lemma_grows_on(given, st, next_st);
                        let st = next_st;
                        if !second {
                        } else {
                            lemma_set_current(st, join);
                            let next_st = State { current: join, ..st };
                            lemma_grows_on(given, st, next_st);
                            let st = next_st;
                        }
                    }
                },
                _ => {},
            }
        },
        _ => {},
    }
}

pub proof fn lemma_lower_short_circuit(
    cx: &Context,
    st: State,
    start: usize,
    operator_index: usize,
    end: usize,
    operator: BinaryOperator,
    low: Lowering,
)
    requires
        is_sound_lowering(low),
    ensures
        ({
            let after = spec_lower_short_circuit(cx, st, start, operator_index, end, operator, low);
            &&& grows(st, after.0)
            &&& fits(after.0) && is_sound(st)
                ==> is_sound(after.0) && optional_value_fits(after.1, bounds_of(after.0))
        }),
{
    broadcast use {group_shape, group_kinds};

    reveal(spec_lower_short_circuit);
    let given = st;
    lemma_grows_itself(st);
    let span = cx.span_at(operator_index);
    let bool_type = primitive(PrimitiveType::Bool);
    let (next_st, attempt) = (low.expression)(cx, st, start, operator_index, Some(&bool_type));
    lemma_grows_on(given, st, next_st);
    let st = next_st;
    match attempt {
        Some(left) => {
            lemma_live(st, primitive(PrimitiveType::Bool), span);
            let (next_st, destination) = spec_live(st, primitive(PrimitiveType::Bool), span);
            lemma_grows_on(given, st, next_st);
            let st = next_st;
            lemma_new_block(st);
            let (next_st, right_block) = spec_new_block(st);
            lemma_grows_on(given, st, next_st);
            let st = next_st;
            lemma_new_block(st);
            let (next_st, short_block) = spec_new_block(st);
            lemma_grows_on(given, st, next_st);
            let st = next_st;
            lemma_new_block(st);
            let (next_st, join) = spec_new_block(st);
            lemma_grows_on(given, st, next_st);
            let st = next_st;
            let is_and = operator == BinaryOperator::LogicalAnd;
            if is_and {
                lemma_branch(st, left.operand, right_block, short_block, span);
                let next_st = spec_branch(st, left.operand, right_block, short_block, span);
                lemma_grows_on(given, st, next_st);
                let st = next_st;
            } else {
                lemma_branch(st, left.operand, short_block, right_block, span);
                let next_st = spec_branch(st, left.operand, short_block, right_block, span);
                lemma_grows_on(given, st, next_st);
                let st = next_st;
            }
            let next_st = if is_and {
                spec_branch(st, left.operand, right_block, short_block, span)
            } else {
                spec_branch(st, left.operand, short_block, right_block, span)
            };
            assert(grows(given, next_st));
            let st = next_st;
            lemma_set_current(st, short_block);
            let next_st = State { current: short_block, ..st };
            lemma_grows_on(given, st, next_st);
            let st = next_st;
            lemma_assign(
                st,
                destination,
                Rvalue::Use(Operand::Constant(Constant::Bool(!is_and))),
                span,
            );
            let next_st = spec_assign(
                st,
                destination,
                Rvalue::Use(Operand::Constant(Constant::Bool(!is_and))),
                span,
            );
            lemma_grows_on(given, st, next_st);
            let st = next_st;
            lemma_terminate(st, TerminatorKind::Goto(join), span);
            let next_st = spec_terminate(st, TerminatorKind::Goto(join), span);
            lemma_grows_on(given, st, next_st);
            let st = next_st;
            lemma_set_current(st, right_block);
            let next_st = State { current: right_block, ..st };
            lemma_grows_on(given, st, next_st);
            let st = next_st;
            let (next_st, attempt) = (low.expression)(cx, st, next(operator_index), end, Some(&bool_type));
            lemma_grows_on(given, st, next_st);
            let st = next_st;
            match attempt {
                Some(right) => {
                    lemma_assign(st, destination, Rvalue::Use(right.operand), span);
                    let next_st = spec_assign(st, destination, Rvalue::Use(right.operand), span);
                    lemma_grows_on(given, st, next_st);
                    let st = next_st;
                    lemma_terminate(st, TerminatorKind::Goto(join), span);
                    let next_st = spec_terminate(st, TerminatorKind::Goto(join), span);
                    lemma_grows_on(given, st, next_st);
                    let st = next_st;
                    lemma_set_current(st, join);
                    let next_st = State { current: join, ..st };
                    lemma_grows_on(given, st, next_st);
                    let st = next_st;
                },
                _ => {},
            }
        },
        _ => {},
    }
}

pub proof fn lemma_task_promise(cx: &Context, st: State, value: Value, span: Span)
    ensures
        ({
            let after = spec_task_promise(cx, st, value, span);
            &&& grows(st, after.0)
            &&& fits(after.0) && is_sound(st) && value_fits(value, bounds_of(st))
                ==> is_sound(after.0) && value_fits(after.1, bounds_of(after.0))
        }),
{
    broadcast use {group_shape, group_kinds};

    reveal(spec_task_promise);
    let given = st;
    lemma_grows_itself(st);
    match task_promise_type(cx.program, &value.ty) {
        Some(ty) => {
            lemma_computed(
                st, ty.dup(),
                Rvalue::RawOperation {
                    operation: RawOperation::TaskIntoPromise,
                    operands: one(value.operand),
                    ty: ty.dup(),
                },
                span,
            );
            let (next_st, operand) = spec_computed(
                st, ty.dup(),
                Rvalue::RawOperation {
                    operation: RawOperation::TaskIntoPromise,
                    operands: one(value.operand),
                    ty: ty.dup(),
                },
                span,
            );
            lemma_grows_on(given, st, next_st);
            let st = next_st;
        },
        None => {},
    }
}

pub proof fn lemma_lower_await(cx: &Context, st: State, start: usize, end: usize, low: Lowering)
    requires
        is_sound_lowering(low),
    ensures
        ({
            let after = spec_lower_await(cx, st, start, end, low);
            &&& grows(st, after.0)
            &&& fits(after.0) && is_sound(st)
                ==> is_sound(after.0) && optional_value_fits(after.1, bounds_of(after.0))
        }),
{
    broadcast use {group_shape, group_kinds};

    reveal(spec_lower_await);
    let given = st;
    lemma_grows_itself(st);
    let (next_st, attempt) = (low.expression)(cx, st, next(start), end, None);
    lemma_grows_on(given, st, next_st);
    let st = next_st;
    match attempt {
        Some(value) => {
            lemma_task_promise(cx, st, value, cx.span_at(start));
            let (next_st, promise) = spec_task_promise(cx, st, value, cx.span_at(start));
            lemma_grows_on(given, st, next_st);
            let st = next_st;
            lemma_lower_await_operand(cx, st, promise, start);
            let (next_st, _) = spec_lower_await_operand(cx, st, promise, start);
            lemma_grows_on(given, st, next_st);
            let st = next_st;
        },
        _ => {},
    }
}

pub proof fn lemma_lower_coalesce(
    cx: &Context,
    st: State,
    start: usize,
    operator_index: usize,
    end: usize,
    low: Lowering,
)
    requires
        is_sound_lowering(low),
    ensures
        ({
            let after = spec_lower_coalesce(cx, st, start, operator_index, end, low);
            &&& grows(st, after.0)
            &&& fits(after.0) && is_sound(st)
                ==> is_sound(after.0) && optional_value_fits(after.1, bounds_of(after.0))
        }),
{
    broadcast use {group_shape, group_kinds};

    reveal(spec_lower_coalesce);
    let given = st;
    lemma_grows_itself(st);
    let span = cx.span_at(operator_index);
    let (next_st, attempt) = (low.expression)(cx, st, start, operator_index, None);
    lemma_grows_on(given, st, next_st);
    let st = next_st;
    match attempt {
        Some(left) => {
            match left.ty {
                Type::Optional(inner) => {
                    let ty = inner.dup();
                    lemma_materialize_operand(
                        st,
                        left.operand,
                        Type::Optional(inner),
                        cx.span_at(start),
                    );
                    let (next_st, held) = spec_materialize_operand(
                        st,
                        left.operand,
                        Type::Optional(inner),
                        cx.span_at(start),
                    );
                    lemma_grows_on(given, st, next_st);
                    let st = next_st;
                    lemma_live(st, ty.dup(), span);
                    let (next_st, destination) = spec_live(st, ty.dup(), span);
                    lemma_grows_on(given, st, next_st);
                    let st = next_st;
                    lemma_new_block(st);
                    let (next_st, fallback) = spec_new_block(st);
                    lemma_grows_on(given, st, next_st);
                    let st = next_st;
                    lemma_new_block(st);
                    let (next_st, present) = spec_new_block(st);
                    lemma_grows_on(given, st, next_st);
                    let st = next_st;
                    lemma_new_block(st);
                    let (next_st, join) = spec_new_block(st);
                    lemma_grows_on(given, st, next_st);
                    let st = next_st;
                    lemma_branch(st, Operand::Copy(held.dup()), present, fallback, span);
                    let next_st = spec_branch(
                        st,
                        Operand::Copy(held.dup()),
                        present,
                        fallback,
                        span,
                    );
                    lemma_grows_on(given, st, next_st);
                    let st = next_st;
                    lemma_set_current(st, present);
                    let next_st = State { current: present, ..st };
                    lemma_grows_on(given, st, next_st);
                    let st = next_st;
                    lemma_assign(
                        st,
                        destination,
                        Rvalue::Use(Operand::Copy(held.step(Projection::Downcast(1)))),
                        span,
                    );
                    let next_st = spec_assign(
                        st,
                        destination,
                        Rvalue::Use(Operand::Copy(held.step(Projection::Downcast(1)))),
                        span,
                    );
                    lemma_grows_on(given, st, next_st);
                    let st = next_st;
                    lemma_terminate(st, TerminatorKind::Goto(join), span);
                    let next_st = spec_terminate(st, TerminatorKind::Goto(join), span);
                    lemma_grows_on(given, st, next_st);
                    let st = next_st;
                    lemma_set_current(st, fallback);
                    let next_st = State { current: fallback, ..st };
                    lemma_grows_on(given, st, next_st);
                    let st = next_st;
                    let (next_st, attempt) = (low.expression)(cx, st, next(operator_index), end, Some(&ty));
                    lemma_grows_on(given, st, next_st);
                    let st = next_st;
                    match attempt {
                        Some(right) => {
                            lemma_assign(
                                st,
                                destination,
                                converted(right.operand, &right.ty, &ty),
                                span,
                            );
                            let next_st = spec_assign(
                                st,
                                destination,
                                converted(right.operand, &right.ty, &ty),
                                span,
                            );
                            lemma_grows_on(given, st, next_st);
                            let st = next_st;
                            lemma_terminate(st, TerminatorKind::Goto(join), span);
                            let next_st = spec_terminate(st, TerminatorKind::Goto(join), span);
                            lemma_grows_on(given, st, next_st);
                            let st = next_st;
                            lemma_set_current(st, join);
                            let next_st = State { current: join, ..st };
                            lemma_grows_on(given, st, next_st);
                            let st = next_st;
                        },
                        _ => {},
                    }
                },
                _ => {},
            }
        },
        _ => {},
    }
}

pub proof fn lemma_lower_force_unwrap(
    cx: &Context,
    st: State,
    start: usize,
    end: usize,
    low: Lowering,
)
    requires
        is_sound_lowering(low),
    ensures
        ({
            let after = spec_lower_force_unwrap(cx, st, start, end, low);
            &&& grows(st, after.0)
            &&& fits(after.0) && is_sound(st)
                ==> is_sound(after.0) && optional_value_fits(after.1, bounds_of(after.0))
        }),
{
    broadcast use {group_shape, group_kinds};

    reveal(spec_lower_force_unwrap);
    let given = st;
    lemma_grows_itself(st);
    let (next_st, attempt) = (low.expression)(cx, st, start, end, None);
    lemma_grows_on(given, st, next_st);
    let st = next_st;
    match attempt {
        Some(value) => {
            match value.ty {
                Type::Optional(inner) => {
                    match payload_operand(value.operand) {
                        Some(operand) => {},
                        None => {},
                    }
                },
                ty => {},
            }
        },
        _ => {},
    }
}

pub proof fn lemma_local_value(cx: &Context, st: State, local: LocalId)
    ensures
        ({
            let found = spec_local_value(cx, st, local);
            is_sound(st) && local.0 < bounds_of(st).locals
                ==> optional_value_fits(found, bounds_of(st))
        }),
{
    broadcast use {group_shape, group_kinds};

    reveal(spec_local_value);
    match spec_local_type(st, local) {
        Some(ty) => {
            if spec_is_captured(st, local) {
                match ty {
                    Type::Reference { referent, .. } => {},
                    _ => {},
                }
            } else {
                let operand = if cx.facts.is_copy(&ty) {
                    Operand::Copy(whole(local))
                } else {
                    Operand::Move(whole(local))
                };
            }
        },
        _ => {},
    }
}

pub proof fn lemma_lower_owned_literal(cx: &Context, st: State, index: usize)
    ensures
        ({
            let after = spec_lower_owned_literal(cx, st, index);
            &&& grows(st, after.0)
            &&& fits(after.0) && is_sound(st)
                ==> is_sound(after.0) && optional_value_fits(after.1, bounds_of(after.0))
        }),
{
    broadcast use {group_shape, group_kinds};

    reveal(spec_lower_owned_literal);
    let given = st;
    lemma_grows_itself(st);
    let string_type = Type::String;
    match constant(cx, index, &string_type) {
        Some(Constant::String(text)) => {
            lemma_owned_text(st, &text, cx.span_at(index));
            let (next_st, operand) = spec_owned_text(st, &text, cx.span_at(index));
            lemma_grows_on(given, st, next_st);
            let st = next_st;
        },
        _ => {},
    }
}

pub proof fn lemma_lower_global_load(
    st: State,
    declaration: crate::hir::DeclarationId,
    ty: &Type,
    span: Span,
)
    ensures
        ({
            let after = spec_lower_global_load(st, declaration, ty, span);
            &&& grows(st, after.0)
            &&& fits(after.0) && is_sound(st)
                ==> is_sound(after.0) && value_fits(after.1, bounds_of(after.0))
        }),
{
    broadcast use {group_shape, group_kinds};

    reveal(spec_lower_global_load);
    let given = st;
    lemma_grows_itself(st);
    lemma_computed(
        st, ty.dup(),
        Rvalue::RawOperation {
            operation: RawOperation::GlobalLoad(declaration),
            operands: List::Nil,
            ty: ty.dup(),
        },
        span,
    );
    let (next_st, operand) = spec_computed(
        st, ty.dup(),
        Rvalue::RawOperation {
            operation: RawOperation::GlobalLoad(declaration),
            operands: List::Nil,
            ty: ty.dup(),
        },
        span,
    );
    lemma_grows_on(given, st, next_st);
    let st = next_st;
}

pub proof fn lemma_function_value(
    cx: &Context,
    declaration: crate::hir::DeclarationId,
    index: usize,
    ty: &Type,
    bounds: Bounds,
)
    ensures
        ({
            let found = spec_function_value(cx, declaration, index, ty);
            value_fits(found, bounds)
        }),
{
    broadcast use {group_shape, group_kinds};

    reveal(spec_function_value);
    let foreign = match cx.name_at(index) {
        Some(name) => spec_foreign_function(cx.program, declaration, name),
        None => None,
    };
    let constant = match foreign {
        Some(method) => {
            Constant::Method { owner: declaration, member: method.id, ty: ty.dup() }
        },
        None => Constant::Function(declaration, ty.dup()),
    };
}

pub proof fn lemma_literal_value(
    cx: &Context,
    index: usize,
    expected: Option<&Type>,
    bounds: Bounds,
)
    ensures
        ({
            let found = spec_literal_value(cx, index, expected);
            optional_value_fits(found, bounds)
        }),
{
    broadcast use {group_shape, group_kinds};

    reveal(spec_literal_value);
    match cx.kind(index) {
        Some(kind) => {
            let ty = literal_type_for(cx, index, kind, expected);
            if kind == TokenKind::Undefined {
            } else {
                match constant(cx, index, &ty) {
                    Some(constant) => {},
                    None => {},
                }
            }
        },
        _ => {},
    }
}

pub proof fn lemma_lower_atom(cx: &Context, st: State, index: usize, expected: Option<&Type>)
    ensures
        ({
            let after = spec_lower_atom(cx, st, index, expected);
            &&& grows(st, after.0)
            &&& fits(after.0) && is_sound(st)
                ==> is_sound(after.0) && optional_value_fits(after.1, bounds_of(after.0))
        }),
{
    broadcast use {group_shape, group_kinds};

    reveal(spec_lower_atom);
    let given = st;
    lemma_grows_itself(st);
    match spec_atom_kind(cx, index) {
        AtomKind::OwnedLiteral => {
            lemma_lower_owned_literal(cx, st, index);
            let (next_st, _) = spec_lower_owned_literal(cx, st, index);
            lemma_grows_on(given, st, next_st);
            let st = next_st;
        },
        AtomKind::Local(id) => {
            lemma_lowered_local(st, id);
            match spec_lowered_local(st, id) {
                Some(local) => {
                    lemma_local_value(cx, st, local);
                },
                None => {},
            }
        },
        AtomKind::Global(declaration) => {
            match type_at(cx, index) {
                Some(ty) => {
                    lemma_lower_global_load(st, declaration, &ty, cx.span_at(index));
                    let (next_st, value) = spec_lower_global_load(
                        st,
                        declaration,
                        &ty,
                        cx.span_at(index),
                    );
                    lemma_grows_on(given, st, next_st);
                    let st = next_st;
                },
                None => {},
            }
        },
        AtomKind::Function(declaration) => {
            match type_at(cx, index) {
                Some(ty) => {
                    lemma_function_value(cx, declaration, index, &ty, bounds_of(st));
                },
                None => {},
            }
        },
        AtomKind::Other => {
            lemma_local_at(cx, st, index);
            match spec_local_at(cx, st, index) {
                Some(local) => {
                    lemma_local_value(cx, st, local);
                },
                None => {
                    lemma_literal_value(cx, index, expected, bounds_of(st));
                },
            }
        },
    }
}

} // verus!
