//! Markup leave the other blocks of a graph as they are.

use vstd::prelude::*;

use crate::hir::{
    HirExpressionId, HirJsxChild, HirJsxElement, HirJsxId, HirJsxProperty, HirJsxValue, Type,
};
use crate::list::{cons, dup_plain, one, List};
use crate::lowering::bindings::usize_constant;
use crate::lowering::builder::State;
use crate::lowering::constants::encoded_length;
use crate::lowering::context::{next, Context};
use crate::lowering::emit::{spec_computed, spec_emit_call, spec_materialize_operand, TypedPlace};
use crate::lowering::frames::base::{
    continues, group_frames, is_framed_lowering, lemma_continues_on,
};
use crate::lowering::frames::emit::{frame_computed, frame_emit_call, frame_materialize_operand};
use crate::lowering::jsx::{
    child_array_type, element_tokens, expression_tokens, expression_with_id, first_spread,
    is_sequence, jsx_element, last_property, may_follow, properties_type, spec_call_runtime,
    spec_child_type, spec_known_component, spec_lower_checked, spec_lower_child_array,
    spec_lower_component, spec_lower_jsx, spec_lower_jsx_child, spec_lower_jsx_child_value,
    spec_lower_jsx_children, spec_lower_jsx_field, spec_lower_jsx_fields, spec_lower_jsx_fragment,
    spec_lower_jsx_group, spec_lower_jsx_key, spec_lower_jsx_properties, spec_lower_jsx_value,
    spec_lower_spread, spec_lower_spread_whole, spec_materialize_jsx_aggregate, spec_owned_text,
    spec_repeated, spec_source_at, spec_spread_sources, spec_text_operand, text_type, tokens_of,
    value_expression, Children,
};
use crate::lowering::loops::signature_of;
use crate::lowering::members::{aggregate_schema, schema_types, SchemaField};
use crate::lowering::recursion::Lowering;
use crate::lowering::shape::base::{
    fits, is_sound_lowering, lemma_grows_itself, lemma_grows_on, lemma_growth,
};
use crate::lowering::shape::emit::{lemma_computed, lemma_emit_call, lemma_materialize_operand};
use crate::lowering::shape::jsx::{
    lemma_call_runtime, lemma_lower_checked, lemma_lower_child_array, lemma_lower_component,
    lemma_lower_jsx_child, lemma_lower_jsx_child_value, lemma_lower_jsx_children,
    lemma_lower_jsx_field, lemma_lower_jsx_fields, lemma_lower_jsx_fragment, lemma_lower_jsx_group,
    lemma_lower_jsx_key, lemma_lower_jsx_properties, lemma_lower_jsx_value, lemma_lower_spread,
    lemma_lower_spread_whole, lemma_materialize_jsx_aggregate, lemma_owned_text,
    lemma_spread_sources, lemma_text_operand,
};
use crate::mir::{Constant, Operand, RawOperation, Rvalue};
use crate::syntax::Span;

verus! {

pub proof fn frame_lower_checked(
    base: State,
    cx: &Context,
    st: State,
    id: HirExpressionId,
    expected: Option<&Type>,
    low: Lowering,
)
    requires
        is_sound_lowering(low),
        is_framed_lowering(low),
    ensures
        ({
            let after = spec_lower_checked(cx, st, id, expected, low);
            fits(after.0) && continues(base, st) ==> continues(base, after.0)
        }),
{
    broadcast use {lemma_growth, group_frames};

    reveal(spec_lower_checked);
    let given = st;
    lemma_grows_itself(st);
    match expression_tokens(cx, id) {
        Some(range) => {
            let (next_st, _) = (low.expression)(cx, st, range.start, range.end, expected);
            lemma_continues_on(base, st, next_st);
            lemma_grows_on(given, st, next_st);
            let st = next_st;
        },
        _ => {},
    }
}

pub proof fn frame_owned_text(base: State, st: State, text: &List<char>, span: Span)
    ensures
        ({
            let after = spec_owned_text(st, text, span);
            fits(after.0) && continues(base, st) ==> continues(base, after.0)
        }),
{
    broadcast use {lemma_growth, group_frames};

    reveal(spec_owned_text);
    let given = st;
    lemma_grows_itself(st);
    lemma_computed(
        st,
        Type::String,
        Rvalue::RawOperation {
            operation: RawOperation::StringFromStatic,
            operands: cons(
                Operand::Constant(Constant::String(dup_plain(text))),
                one(usize_constant(encoded_length(text))),
            ),
            ty: Type::String,
        },
        span,
    );
    frame_computed(
        base,
        st,
        Type::String,
        Rvalue::RawOperation {
            operation: RawOperation::StringFromStatic,
            operands: cons(
                Operand::Constant(Constant::String(dup_plain(text))),
                one(usize_constant(encoded_length(text))),
            ),
            ty: Type::String,
        },
        span,
    );
    let (next_st, _) = spec_computed(
        st,
        Type::String,
        Rvalue::RawOperation {
            operation: RawOperation::StringFromStatic,
            operands: cons(
                Operand::Constant(Constant::String(dup_plain(text))),
                one(usize_constant(encoded_length(text))),
            ),
            ty: Type::String,
        },
        span,
    );
    lemma_grows_on(given, st, next_st);
    let st = next_st;
}

pub proof fn frame_text_operand(base: State, st: State, text: &List<char>, ty: &Type, span: Span)
    ensures
        ({
            let after = spec_text_operand(st, text, ty, span);
            fits(after.0) && continues(base, st) ==> continues(base, after.0)
        }),
{
    broadcast use {lemma_growth, group_frames};

    reveal(spec_text_operand);
    let given = st;
    lemma_grows_itself(st);
    match ty {
        Type::String => {
            lemma_owned_text(st, text, span);
            frame_owned_text(base, st, text, span);
            let (next_st, _) = spec_owned_text(st, text, span);
            lemma_grows_on(given, st, next_st);
            let st = next_st;
        },
        _ => {},
    }
}

pub proof fn frame_lower_jsx_child(
    base: State,
    cx: &Context,
    st: State,
    child: &HirJsxChild,
    expected: Option<&Type>,
    start: usize,
    low: Lowering,
)
    requires
        is_sound_lowering(low),
        is_framed_lowering(low),
    ensures
        ({
            let after = spec_lower_jsx_child(cx, st, child, expected, start, low);
            fits(after.0) && continues(base, st) ==> continues(base, after.0)
        }),
{
    broadcast use {lemma_growth, group_frames};

    reveal(spec_lower_jsx_child);
    let given = st;
    lemma_grows_itself(st);
    match child {
        HirJsxChild::Element(id) => {
            match element_tokens(cx, *id) {
                Some(range) => {
                    let (next_st, _) = (low.expression)(cx, st, range.start, range.end, expected);
                    lemma_continues_on(base, st, next_st);
                    lemma_grows_on(given, st, next_st);
                    let st = next_st;
                },
                _ => {},
            }
        },
        HirJsxChild::Expression(id) => {
            lemma_lower_checked(cx, st, *id, expected, low);
            frame_lower_checked(base, cx, st, *id, expected, low);
            let (next_st, _) = spec_lower_checked(cx, st, *id, expected, low);
            lemma_grows_on(given, st, next_st);
            let st = next_st;
        },
        HirJsxChild::Text(text) => {
            let ty = text_type(expected);
            lemma_text_operand(st, text, &ty, cx.span_at(start));
            frame_text_operand(base, st, text, &ty, cx.span_at(start));
            let (next_st, operand) = spec_text_operand(st, text, &ty, cx.span_at(start));
            lemma_grows_on(given, st, next_st);
            let st = next_st;
        },
    }
}

pub proof fn frame_lower_jsx_children(
    base: State,
    cx: &Context,
    st: State,
    children: &Vec<HirJsxChild>,
    index: usize,
    expected: Option<&Type>,
    previous: Option<Type>,
    start: usize,
    low: Lowering,
)
    requires
        is_sound_lowering(low),
        is_framed_lowering(low),
    ensures
        ({
            let after = spec_lower_jsx_children(
                cx,
                st,
                children,
                index,
                expected,
                previous,
                start,
                low,
            );
            fits(after.0) && continues(base, st) ==> continues(base, after.0)
        }),
    decreases children@.len() - index,
{
    broadcast use {lemma_growth, group_frames};

    reveal_with_fuel(spec_lower_jsx_children, 2);
    let given = st;
    lemma_grows_itself(st);
    if index >= children.len() {
    } else {
        lemma_lower_jsx_child(cx, st, &children[index as int], expected, start, low);
        frame_lower_jsx_child(base, cx, st, &children[index as int], expected, start, low);
        let (next_st, attempt) = spec_lower_jsx_child(
            cx,
            st,
            &children[index as int],
            expected,
            start,
            low,
        );
        lemma_grows_on(given, st, next_st);
        let st = next_st;
        match attempt {
            Some(value) => {
                if !may_follow(&previous, &value.ty) {
                } else {
                    lemma_lower_jsx_children(
                        cx,
                        st,
                        children,
                        next(index),
                        expected,
                        Some(value.ty),
                        start,
                        low,
                    );
                    frame_lower_jsx_children(
                        base,
                        cx,
                        st,
                        children,
                        next(index),
                        expected,
                        Some(value.ty),
                        start,
                        low,
                    );
                    let (next_st, attempt) = spec_lower_jsx_children(
                        cx,
                        st,
                        children,
                        next(index),
                        expected,
                        Some(value.ty),
                        start,
                        low,
                    );
                    lemma_grows_on(given, st, next_st);
                    let st = next_st;
                    match attempt {
                        Some(others) => {
                        },
                        _ => {},
                    }
                }
            },
            _ => {},
        }
    }
}

pub proof fn frame_materialize_jsx_aggregate(
    base: State,
    st: State,
    ty: Type,
    fields: List<Operand>,
    field_types: List<Type>,
    span: Span,
)
    ensures
        ({
            let after = spec_materialize_jsx_aggregate(st, ty, fields, field_types, span);
            fits(after.0) && continues(base, st) ==> continues(base, after.0)
        }),
{
    broadcast use {lemma_growth, group_frames};

    reveal(spec_materialize_jsx_aggregate);
    let given = st;
    lemma_grows_itself(st);
    lemma_computed(
        st, ty.dup(),
        Rvalue::Aggregate { ty, variant: None, fields, field_types },
        span,
    );
    frame_computed(
        base,
        st,
        ty.dup(),
        Rvalue::Aggregate { ty, variant: None, fields, field_types },
        span,
    );
    let (next_st, _) = spec_computed(
        st, ty.dup(),
        Rvalue::Aggregate { ty, variant: None, fields, field_types },
        span,
    );
    lemma_grows_on(given, st, next_st);
    let st = next_st;
}

pub proof fn frame_lower_child_array(
    base: State,
    st: State,
    ty: Type,
    children: Children,
    span: Span,
)
    ensures
        ({
            let after = spec_lower_child_array(st, ty, children, span);
            fits(after.0) && continues(base, st) ==> continues(base, after.0)
        }),
{
    broadcast use {lemma_growth, group_frames};

    reveal(spec_lower_child_array);
    let given = st;
    lemma_grows_itself(st);
    let types = spec_repeated(&children.ty, &children.operands);
    lemma_materialize_jsx_aggregate(st, ty, children.operands, types, span);
    frame_materialize_jsx_aggregate(base, st, ty, children.operands, types, span);
    let (next_st, _) = spec_materialize_jsx_aggregate(st, ty, children.operands, types, span);
    lemma_grows_on(given, st, next_st);
    let st = next_st;
}

pub proof fn frame_call_runtime(
    base: State,
    cx: &Context,
    st: State,
    element: &HirJsxElement,
    arguments: List<Operand>,
    start: usize,
)
    ensures
        ({
            let after = spec_call_runtime(cx, st, element, arguments, start);
            fits(after.0) && continues(base, st) ==> continues(base, after.0)
        }),
{
    broadcast use {lemma_growth, group_frames};

    reveal(spec_call_runtime);
    let given = st;
    lemma_grows_itself(st);
    match (&element.runtime_signature, element.runtime) {
        (Some(signature), Some(runtime)) => {
            let function = Operand::Constant(
                Constant::Function(runtime, Type::Function(signature.dup())),
            );
            lemma_emit_call(cx, st, function, None, signature, arguments, start);
            frame_emit_call(base, cx, st, function, None, signature, arguments, start);
            let (next_st, _) = spec_emit_call(cx, st, function, None, signature, arguments, start);
            lemma_grows_on(given, st, next_st);
            let st = next_st;
        },
        _ => {},
    }
}

pub proof fn frame_lower_jsx_group(
    base: State,
    cx: &Context,
    st: State,
    element: &HirJsxElement,
    start: usize,
    low: Lowering,
)
    requires
        is_sound_lowering(low),
        is_framed_lowering(low),
    ensures
        ({
            let after = spec_lower_jsx_group(cx, st, element, start, low);
            fits(after.0) && continues(base, st) ==> continues(base, after.0)
        }),
{
    broadcast use {lemma_growth, group_frames};

    reveal(spec_lower_jsx_group);
    let given = st;
    lemma_grows_itself(st);
    lemma_lower_jsx_children(cx, st, &element.children, 0, None, None, start, low);
    frame_lower_jsx_children(base, cx, st, &element.children, 0, None, None, start, low);
    let (next_st, attempt) = spec_lower_jsx_children(
        cx,
        st,
        &element.children,
        0,
        None,
        None,
        start,
        low,
    );
    lemma_grows_on(given, st, next_st);
    let st = next_st;
    match attempt {
        Some(children) => {
            let ty = Type::Array(Box::new(children.ty.dup()), element.children.len() as u64);
            lemma_lower_child_array(st, ty, children, cx.span_at(start));
            frame_lower_child_array(base, st, ty, children, cx.span_at(start));
            let (next_st, array) = spec_lower_child_array(st, ty, children, cx.span_at(start));
            lemma_grows_on(given, st, next_st);
            let st = next_st;
            lemma_call_runtime(cx, st, element, one(array), start);
            frame_call_runtime(base, cx, st, element, one(array), start);
            let (next_st, _) = spec_call_runtime(cx, st, element, one(array), start);
            lemma_grows_on(given, st, next_st);
            let st = next_st;
        },
        _ => {},
    }
}

pub proof fn frame_lower_component(
    base: State,
    cx: &Context,
    st: State,
    id: HirExpressionId,
    low: Lowering,
)
    requires
        is_sound_lowering(low),
        is_framed_lowering(low),
    ensures
        ({
            let after = spec_lower_component(cx, st, id, low);
            fits(after.0) && continues(base, st) ==> continues(base, after.0)
        }),
{
    broadcast use {lemma_growth, group_frames};

    reveal(spec_lower_component);
    let given = st;
    lemma_grows_itself(st);
    match expression_with_id(cx, id) {
        Some(expression) => {
            match tokens_of(cx, expression.origin) {
                Some(range) => {
                    let known = spec_known_component(cx, expression);
                    if known.is_some() {
                    } else {
                        let (next_st, attempt) = (low.expression)(cx, st, range.start, range.end, None);
                        lemma_continues_on(base, st, next_st);
                        lemma_grows_on(given, st, next_st);
                        let st = next_st;
                        match attempt {
                            Some(value) => {},
                            None => {},
                        }
                    }
                },
                _ => {},
            }
        },
        _ => {},
    }
}

pub proof fn frame_lower_jsx_key(
    base: State,
    cx: &Context,
    st: State,
    key: Option<HirExpressionId>,
    start: usize,
    low: Lowering,
)
    requires
        is_sound_lowering(low),
        is_framed_lowering(low),
    ensures
        ({
            let after = spec_lower_jsx_key(cx, st, key, start, low);
            fits(after.0) && continues(base, st) ==> continues(base, after.0)
        }),
{
    broadcast use {lemma_growth, group_frames};

    reveal(spec_lower_jsx_key);
    let given = st;
    lemma_grows_itself(st);
    match key {
        Some(id) => {
            lemma_lower_checked(cx, st, id, None, low);
            frame_lower_checked(base, cx, st, id, None, low);
            let (next_st, attempt) = spec_lower_checked(cx, st, id, None, low);
            lemma_grows_on(given, st, next_st);
            let st = next_st;
            match attempt {
                Some(value) => {
                    lemma_materialize_jsx_aggregate(
                        st, Type::Optional(Box::new(value.ty.dup())),
                        one(value.operand),
                        one(value.ty),
                        cx.span_at(start),
                    );
                    frame_materialize_jsx_aggregate(
                        base,
                        st,
                        Type::Optional(Box::new(value.ty.dup())),
                        one(value.operand),
                        one(value.ty),
                        cx.span_at(start),
                    );
                    let (next_st, operand) = spec_materialize_jsx_aggregate(
                        st, Type::Optional(Box::new(value.ty.dup())),
                        one(value.operand),
                        one(value.ty),
                        cx.span_at(start),
                    );
                    lemma_grows_on(given, st, next_st);
                    let st = next_st;
                },
                _ => {},
            }
        },
        _ => {},
    }
}

pub proof fn frame_lower_jsx(
    base: State,
    cx: &Context,
    st: State,
    id: HirJsxId,
    start: usize,
    low: Lowering,
)
    requires
        is_sound_lowering(low),
        is_framed_lowering(low),
    ensures
        ({
            let after = spec_lower_jsx(cx, st, id, start, low);
            fits(after.0) && continues(base, st) ==> continues(base, after.0)
        }),
{
    broadcast use {lemma_growth, group_frames};

    reveal(spec_lower_jsx);
    let given = st;
    lemma_grows_itself(st);
    match jsx_element(cx, id) {
        Some(element) => {
            if element.fragment {
                lemma_lower_jsx_group(cx, st, element, start, low);
                frame_lower_jsx_group(base, cx, st, element, start, low);
                let (next_st, _) = spec_lower_jsx_group(cx, st, element, start, low);
                lemma_grows_on(given, st, next_st);
                let st = next_st;
            } else {
                match element.component {
                    Some(component_id) => {
                        lemma_lower_component(cx, st, component_id, low);
                        frame_lower_component(base, cx, st, component_id, low);
                        let (next_st, attempt) = spec_lower_component(cx, st, component_id, low);
                        lemma_grows_on(given, st, next_st);
                        let st = next_st;
                        match attempt {
                            Some(component) => {
                                lemma_lower_jsx_properties(cx, st, element, start, low);
                                frame_lower_jsx_properties(base, cx, st, element, start, low);
                                let (next_st, attempt) = spec_lower_jsx_properties(
                                    cx,
                                    st,
                                    element,
                                    start,
                                    low,
                                );
                                lemma_grows_on(given, st, next_st);
                                let st = next_st;
                                match attempt {
                                    Some(properties) => {
                                        lemma_lower_jsx_key(cx, st, element.key, start, low);
                                        frame_lower_jsx_key(base, cx, st, element.key, start, low);
                                        let (next_st, attempt) = spec_lower_jsx_key(
                                            cx,
                                            st,
                                            element.key,
                                            start,
                                            low,
                                        );
                                        lemma_grows_on(given, st, next_st);
                                        let st = next_st;
                                        match attempt {
                                            Some(key) => {
                                                lemma_call_runtime(
                                                    cx,
                                                    st,
                                                    element,
                                                    cons(component, cons(properties, one(key))),
                                                    start,
                                                );
                                                frame_call_runtime(
                                                    base,
                                                    cx,
                                                    st,
                                                    element,
                                                    cons(component, cons(properties, one(key))),
                                                    start,
                                                );
                                                let (next_st, _) = spec_call_runtime(
                                                    cx,
                                                    st,
                                                    element,
                                                    cons(component, cons(properties, one(key))),
                                                    start,
                                                );
                                                lemma_grows_on(given, st, next_st);
                                                let st = next_st;
                                            },
                                            _ => {},
                                        }
                                    },
                                    _ => {},
                                }
                            },
                            _ => {},
                        }
                    },
                    _ => {},
                }
            }
        },
        _ => {},
    }
}

pub proof fn frame_lower_spread_whole(
    base: State,
    cx: &Context,
    st: State,
    element: &HirJsxElement,
    ty: &Type,
    low: Lowering,
)
    requires
        is_sound_lowering(low),
        is_framed_lowering(low),
    ensures
        ({
            let after = spec_lower_spread_whole(cx, st, element, ty, low);
            fits(after.0) && continues(base, st) ==> continues(base, after.0)
        }),
{
    broadcast use {lemma_growth, group_frames};

    reveal(spec_lower_spread_whole);
    let given = st;
    lemma_grows_itself(st);
    match first_spread(&element.properties) {
        Some(property) => {
            match value_expression(property) {
                Some(id) => {
                    lemma_lower_checked(cx, st, id, Some(ty), low);
                    frame_lower_checked(base, cx, st, id, Some(ty), low);
                    let (next_st, attempt) = spec_lower_checked(cx, st, id, Some(ty), low);
                    lemma_grows_on(given, st, next_st);
                    let st = next_st;
                    match attempt {
                        Some(value) => {},
                        None => {},
                    }
                },
                _ => {},
            }
        },
        _ => {},
    }
}

pub proof fn frame_lower_spread(
    base: State,
    cx: &Context,
    st: State,
    property: &HirJsxProperty,
    ty: &Type,
    start: usize,
    low: Lowering,
)
    requires
        is_sound_lowering(low),
        is_framed_lowering(low),
    ensures
        ({
            let after = spec_lower_spread(cx, st, property, ty, start, low);
            fits(after.0) && continues(base, st) ==> continues(base, after.0)
        }),
{
    broadcast use {lemma_growth, group_frames};

    reveal(spec_lower_spread);
    let given = st;
    lemma_grows_itself(st);
    match value_expression(property) {
        Some(id) => {
            lemma_lower_checked(cx, st, id, Some(ty), low);
            frame_lower_checked(base, cx, st, id, Some(ty), low);
            let (next_st, attempt) = spec_lower_checked(cx, st, id, Some(ty), low);
            lemma_grows_on(given, st, next_st);
            let st = next_st;
            match attempt {
                Some(value) => {
                    lemma_materialize_operand(st, value.operand, value.ty.dup(), cx.span_at(start));
                    frame_materialize_operand(
                        base,
                        st,
                        value.operand,
                        value.ty.dup(),
                        cx.span_at(start),
                    );
                    let (next_st, place) = spec_materialize_operand(
                        st,
                        value.operand,
                        value.ty.dup(),
                        cx.span_at(start),
                    );
                    lemma_grows_on(given, st, next_st);
                    let st = next_st;
                },
                _ => {},
            }
        },
        _ => {},
    }
}

pub proof fn frame_spread_sources(
    base: State,
    cx: &Context,
    st: State,
    properties: &Vec<HirJsxProperty>,
    index: usize,
    ty: &Type,
    start: usize,
    low: Lowering,
)
    requires
        is_sound_lowering(low),
        is_framed_lowering(low),
    ensures
        ({
            let after = spec_spread_sources(cx, st, properties, index, ty, start, low);
            fits(after.0) && continues(base, st) ==> continues(base, after.0)
        }),
    decreases properties@.len() - index,
{
    broadcast use {lemma_growth, group_frames};

    reveal_with_fuel(spec_spread_sources, 2);
    let given = st;
    lemma_grows_itself(st);
    if index >= properties.len() {
    } else {
        let property = &properties[index as int];
        if !property.spread {
            lemma_spread_sources(cx, st, properties, next(index), ty, start, low);
            frame_spread_sources(base, cx, st, properties, next(index), ty, start, low);
            let (next_st, attempt) = spec_spread_sources(
                cx,
                st,
                properties,
                next(index),
                ty,
                start,
                low,
            );
            lemma_grows_on(given, st, next_st);
            let st = next_st;
            match attempt {
                Some(others) => {
                },
                _ => {},
            }
        } else {
            lemma_lower_spread(cx, st, property, ty, start, low);
            frame_lower_spread(base, cx, st, property, ty, start, low);
            let (next_st, attempt) = spec_lower_spread(cx, st, property, ty, start, low);
            lemma_grows_on(given, st, next_st);
            let st = next_st;
            match attempt {
                Some(source) => {
                    lemma_spread_sources(cx, st, properties, next(index), ty, start, low);
                    frame_spread_sources(base, cx, st, properties, next(index), ty, start, low);
                    let (next_st, attempt) = spec_spread_sources(
                        cx,
                        st,
                        properties,
                        next(index),
                        ty,
                        start,
                        low,
                    );
                    lemma_grows_on(given, st, next_st);
                    let st = next_st;
                    match attempt {
                        Some(others) => {
                        },
                        _ => {},
                    }
                },
                _ => {},
            }
        }
    }
}

pub proof fn frame_lower_jsx_field(
    base: State,
    cx: &Context,
    st: State,
    properties: &Vec<HirJsxProperty>,
    field: &SchemaField,
    sources: &List<Option<TypedPlace>>,
    start: usize,
    low: Lowering,
)
    requires
        is_sound_lowering(low),
        is_framed_lowering(low),
    ensures
        ({
            let after = spec_lower_jsx_field(cx, st, properties, field, sources, start, low);
            fits(after.0) && continues(base, st) ==> continues(base, after.0)
        }),
{
    broadcast use {lemma_growth, group_frames};

    reveal(spec_lower_jsx_field);
    let given = st;
    lemma_grows_itself(st);
    match last_property(properties, None, field.name) {
        Some(index) => {
            if index >= properties.len() {
            } else {
                let property = &properties[index as int];
                if !property.spread {
                    lemma_lower_jsx_value(cx, st, &property.value, &field.ty, start, low);
                    frame_lower_jsx_value(base, cx, st, &property.value, &field.ty, start, low);
                    let (next_st, _) = spec_lower_jsx_value(
                        cx,
                        st,
                        &property.value,
                        &field.ty,
                        start,
                        low,
                    );
                    lemma_grows_on(given, st, next_st);
                    let st = next_st;
                } else {
                    match spec_source_at(sources, index) {
                        Some(source) => {},
                        None => {},
                    }
                }
            }
        },
        _ => {},
    }
}

pub proof fn frame_lower_jsx_fields(
    base: State,
    cx: &Context,
    st: State,
    properties: &Vec<HirJsxProperty>,
    schema: &List<SchemaField>,
    sources: &List<Option<TypedPlace>>,
    start: usize,
    low: Lowering,
)
    requires
        is_sound_lowering(low),
        is_framed_lowering(low),
    ensures
        ({
            let after = spec_lower_jsx_fields(cx, st, properties, schema, sources, start, low);
            fits(after.0) && continues(base, st) ==> continues(base, after.0)
        }),
    decreases schema,
{
    broadcast use {lemma_growth, group_frames};

    reveal_with_fuel(spec_lower_jsx_fields, 2);
    let given = st;
    lemma_grows_itself(st);
    match schema {
        List::Nil => {},
        List::Cons(field, rest) => {
            lemma_lower_jsx_field(cx, st, properties, field, sources, start, low);
            frame_lower_jsx_field(base, cx, st, properties, field, sources, start, low);
            let (next_st, attempt) = spec_lower_jsx_field(
                cx,
                st,
                properties,
                field,
                sources,
                start,
                low,
            );
            lemma_grows_on(given, st, next_st);
            let st = next_st;
            match attempt {
                Some(operand) => {
                    lemma_lower_jsx_fields(cx, st, properties, rest, sources, start, low);
                    frame_lower_jsx_fields(base, cx, st, properties, rest, sources, start, low);
                    let (next_st, attempt) = spec_lower_jsx_fields(
                        cx,
                        st,
                        properties,
                        rest,
                        sources,
                        start,
                        low,
                    );
                    lemma_grows_on(given, st, next_st);
                    let st = next_st;
                    match attempt {
                        Some(others) => {
                        },
                        _ => {},
                    }
                },
                _ => {},
            }
        },
    }
}

pub proof fn frame_lower_jsx_properties(
    base: State,
    cx: &Context,
    st: State,
    element: &HirJsxElement,
    start: usize,
    low: Lowering,
)
    requires
        is_sound_lowering(low),
        is_framed_lowering(low),
    ensures
        ({
            let after = spec_lower_jsx_properties(cx, st, element, start, low);
            fits(after.0) && continues(base, st) ==> continues(base, after.0)
        }),
{
    broadcast use {lemma_growth, group_frames};

    reveal(spec_lower_jsx_properties);
    let given = st;
    lemma_grows_itself(st);
    let ty = properties_type(element);
    let schema = aggregate_schema(cx.program, &ty);
    if schema.is_empty() && element.properties.len() > 0 {
        lemma_lower_spread_whole(cx, st, element, &ty, low);
        frame_lower_spread_whole(base, cx, st, element, &ty, low);
        let (next_st, _) = spec_lower_spread_whole(cx, st, element, &ty, low);
        lemma_grows_on(given, st, next_st);
        let st = next_st;
    } else {
        lemma_spread_sources(cx, st, &element.properties, 0, &ty, start, low);
        frame_spread_sources(base, cx, st, &element.properties, 0, &ty, start, low);
        let (next_st, attempt) = spec_spread_sources(
            cx,
            st,
            &element.properties,
            0,
            &ty,
            start,
            low,
        );
        lemma_grows_on(given, st, next_st);
        let st = next_st;
        match attempt {
            Some(sources) => {
                lemma_lower_jsx_fields(
                    cx,
                    st,
                    &element.properties,
                    &schema,
                    &sources,
                    start,
                    low,
                );
                frame_lower_jsx_fields(
                    base,
                    cx,
                    st,
                    &element.properties,
                    &schema,
                    &sources,
                    start,
                    low,
                );
                let (next_st, attempt) = spec_lower_jsx_fields(
                    cx,
                    st,
                    &element.properties,
                    &schema,
                    &sources,
                    start,
                    low,
                );
                lemma_grows_on(given, st, next_st);
                let st = next_st;
                match attempt {
                    Some(fields) => {
                        lemma_materialize_jsx_aggregate(
                            st,
                            ty,
                            fields,
                            schema_types(&schema),
                            cx.span_at(start),
                        );
                        frame_materialize_jsx_aggregate(
                            base,
                            st,
                            ty,
                            fields,
                            schema_types(&schema),
                            cx.span_at(start),
                        );
                        let (next_st, operand) = spec_materialize_jsx_aggregate(
                            st,
                            ty,
                            fields,
                            schema_types(&schema),
                            cx.span_at(start),
                        );
                        lemma_grows_on(given, st, next_st);
                        let st = next_st;
                    },
                    _ => {},
                }
            },
            _ => {},
        }
    }
}

pub proof fn frame_lower_jsx_child_value(
    base: State,
    cx: &Context,
    st: State,
    children: &Vec<HirJsxChild>,
    expected: &Type,
    start: usize,
    low: Lowering,
)
    requires
        is_sound_lowering(low),
        is_framed_lowering(low),
    ensures
        ({
            let after = spec_lower_jsx_child_value(cx, st, children, expected, start, low);
            fits(after.0) && continues(base, st) ==> continues(base, after.0)
        }),
{
    broadcast use {lemma_growth, group_frames};

    reveal(spec_lower_jsx_child_value);
    let given = st;
    lemma_grows_itself(st);
    lemma_lower_jsx_children(
        cx,
        st,
        children,
        0,
        Some(spec_child_type(expected)),
        None,
        start,
        low,
    );
    frame_lower_jsx_children(
        base,
        cx,
        st,
        children,
        0,
        Some(spec_child_type(expected)),
        None,
        start,
        low,
    );
    let (next_st, attempt) = spec_lower_jsx_children(
        cx,
        st,
        children,
        0,
        Some(spec_child_type(expected)),
        None,
        start,
        low,
    );
    lemma_grows_on(given, st, next_st);
    let st = next_st;
    match attempt {
        Some(lowered) => {
            if children.len() == 1 && !is_sequence(expected) {
            } else {
                let ty = child_array_type(expected, &lowered.ty, children.len());
                lemma_lower_child_array(st, ty.dup(), lowered, cx.span_at(start));
                frame_lower_child_array(base, st, ty.dup(), lowered, cx.span_at(start));
                let (next_st, array) = spec_lower_child_array(
                    st,
                    ty.dup(),
                    lowered,
                    cx.span_at(start),
                );
                lemma_grows_on(given, st, next_st);
                let st = next_st;
                if is_sequence(expected) {
                } else {
                    lemma_lower_jsx_fragment(cx, st, array, ty, expected.dup(), start);
                    frame_lower_jsx_fragment(base, cx, st, array, ty, expected.dup(), start);
                    let (next_st, _) = spec_lower_jsx_fragment(
                        cx,
                        st,
                        array,
                        ty,
                        expected.dup(),
                        start,
                    );
                    lemma_grows_on(given, st, next_st);
                    let st = next_st;
                }
            }
        },
        _ => {},
    }
}

pub proof fn frame_lower_jsx_fragment(
    base: State,
    cx: &Context,
    st: State,
    children: Operand,
    children_type: Type,
    result_type: Type,
    start: usize,
)
    ensures
        ({
            let after = spec_lower_jsx_fragment(
                cx,
                st,
                children,
                children_type,
                result_type,
                start,
            );
            fits(after.0) && continues(base, st) ==> continues(base, after.0)
        }),
{
    broadcast use {lemma_growth, group_frames};

    reveal(spec_lower_jsx_fragment);
    let given = st;
    lemma_grows_itself(st);
    match cx.program.jsx_fragment {
        Some(runtime) => {
            let signature = signature_of(one(children_type), result_type, List::Nil, false, false);
            let function = Operand::Constant(
                Constant::Function(runtime, Type::Function(signature.dup())),
            );
            lemma_emit_call(cx, st, function, None, &signature, one(children), start);
            frame_emit_call(base, cx, st, function, None, &signature, one(children), start);
            let (next_st, attempt) = spec_emit_call(
                cx,
                st,
                function,
                None,
                &signature,
                one(children),
                start,
            );
            lemma_grows_on(given, st, next_st);
            let st = next_st;
            match attempt {
                Some(value) => {},
                None => {},
            }
        },
        _ => {},
    }
}

pub proof fn frame_lower_jsx_value(
    base: State,
    cx: &Context,
    st: State,
    value: &HirJsxValue,
    expected: &Type,
    start: usize,
    low: Lowering,
)
    requires
        is_sound_lowering(low),
        is_framed_lowering(low),
    ensures
        ({
            let after = spec_lower_jsx_value(cx, st, value, expected, start, low);
            fits(after.0) && continues(base, st) ==> continues(base, after.0)
        }),
{
    broadcast use {lemma_growth, group_frames};

    reveal(spec_lower_jsx_value);
    let given = st;
    lemma_grows_itself(st);
    match value {
        HirJsxValue::Boolean(value) => {},
        HirJsxValue::Text(text) => {
            lemma_text_operand(st, text, expected, cx.span_at(start));
            frame_text_operand(base, st, text, expected, cx.span_at(start));
            let (next_st, operand) = spec_text_operand(st, text, expected, cx.span_at(start));
            lemma_grows_on(given, st, next_st);
            let st = next_st;
        },
        HirJsxValue::Expression(id) => {
            lemma_lower_checked(cx, st, *id, Some(expected), low);
            frame_lower_checked(base, cx, st, *id, Some(expected), low);
            let (next_st, attempt) = spec_lower_checked(cx, st, *id, Some(expected), low);
            lemma_grows_on(given, st, next_st);
            let st = next_st;
            match attempt {
                Some(value) => {},
                None => {},
            }
        },
        HirJsxValue::Children(children) => {
            lemma_lower_jsx_child_value(cx, st, children, expected, start, low);
            frame_lower_jsx_child_value(base, cx, st, children, expected, start, low);
            let (next_st, _) = spec_lower_jsx_child_value(cx, st, children, expected, start, low);
            lemma_grows_on(given, st, next_st);
            let st = next_st;
        },
    }
}

} // verus!
