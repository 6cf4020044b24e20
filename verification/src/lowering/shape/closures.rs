//! Closures and templates keep graphs well formed.

use vstd::prelude::*;

use crate::hir::{
    same_type, HirCapture, HirCaptureMode, HirClosure, HirClosureId, HirLocal, HirLocalId,
    HirTemplateId, HirTemplatePart, HirTemplateStorage, Type,
};
use crate::list::List;
use crate::lowering::access::dereferenced;
use crate::lowering::bindings::nth_type;
use crate::lowering::builder::{
    empty_state, spec_add_local, spec_bind_hir, spec_capture, spec_is_captured, spec_lowered_local,
    spec_terminate, State,
};
use crate::lowering::closures::{
    closure_body, spec_add_argument, spec_add_capture_arguments, spec_add_closure_body,
    spec_add_parameter_arguments, spec_capture_interpolation, spec_closure_context,
    spec_closure_tokens, spec_embedded_context, spec_lower_capture, spec_lower_captures,
    spec_lower_closure, spec_lower_closure_code, spec_lower_embedded_expression,
    spec_lower_template, spec_lower_template_parts, template_type,
};
use crate::lowering::context::{before, next, Context};
use crate::lowering::emit::{spec_assign, spec_borrowed, spec_computed, spec_live, Value};
use crate::lowering::recursion::Lowering;
use crate::lowering::shape::access::lemma_dereferenced;
use crate::lowering::shape::base::{
    bounds_of, fits, group_shape, grows, is_countable, is_sound, is_sound_lowering, is_well_formed,
    lemma_add_closure, lemma_add_local, lemma_bind_hir, lemma_capture, lemma_empty_state,
    lemma_finish, lemma_finish_countable, lemma_grows_itself, lemma_grows_on, lemma_lowered_local,
    lemma_set_index, lemma_terminate, optional_operand_fits, optional_operands_fit,
    optional_value_fits, value_fits,
};
use crate::lowering::shape::emit::{lemma_assign, lemma_borrowed, lemma_computed, lemma_live};
use crate::lowering::shape::kinds::{group_kinds, template_fits};
use crate::lowering::shape::statements::lemma_lower_body;
use crate::lowering::statements::spec_lower_body;
use crate::mir::{operand_place, whole, Rvalue, TerminatorKind};
use crate::syntax::Token;

verus! {

pub proof fn lemma_lower_embedded_expression(
    cx: &Context,
    st: State,
    tokens: &Vec<Token>,
    expected: &Type,
    low: Lowering,
)
    requires
        is_sound_lowering(low),
    ensures
        ({
            let after = spec_lower_embedded_expression(cx, st, tokens, expected, low);
            &&& grows(st, after.0)
            &&& fits(after.0) && is_sound(st)
                ==> is_sound(after.0) && optional_value_fits(after.1, bounds_of(after.0))
        }),
{
    broadcast use {group_shape, group_kinds};

    reveal(spec_lower_embedded_expression);
    let given = st;
    lemma_grows_itself(st);
    let nested = spec_embedded_context(cx, tokens);
    let position: usize = st.index;
    lemma_set_index(st, 0);
    let next_st = State { index: 0, ..st };
    lemma_grows_on(given, st, next_st);
    let st = next_st;
    let (next_st, value) = (low.expression)(&nested, st, 0, before(tokens.len()), Some(expected));
    lemma_grows_on(given, st, next_st);
    let st = next_st;
    lemma_set_index(st, position);
    let next_st = State { index: position, ..st };
    lemma_grows_on(given, st, next_st);
    let st = next_st;
}

pub proof fn lemma_capture_interpolation(
    st: State,
    value: Value,
    storage: HirTemplateStorage,
    ty: Type,
    origin: crate::syntax::Span,
)
    ensures
        ({
            let after = spec_capture_interpolation(st, value, storage, ty, origin);
            &&& grows(st, after.0)
            &&& fits(after.0) && is_sound(st) && value_fits(value, bounds_of(st))
                ==> is_sound(after.0) && optional_operand_fits(after.1, bounds_of(after.0))
        }),
{
    broadcast use {group_shape, group_kinds};

    reveal(spec_capture_interpolation);
    let given = st;
    lemma_grows_itself(st);
    match storage {
        HirTemplateStorage::SharedBorrow => {
            match operand_place(value.operand) {
                Some(place) => {
                    lemma_borrowed(st, ty, false, place, origin);
                    let (next_st, operand) = spec_borrowed(st, ty, false, place, origin);
                    lemma_grows_on(given, st, next_st);
                    let st = next_st;
                },
                _ => {},
            }
        },
        HirTemplateStorage::Owned => {},
    }
}

pub proof fn lemma_lower_template_parts(
    cx: &Context,
    st: State,
    parts: &Vec<HirTemplatePart>,
    index: usize,
    types: &List<Type>,
    capture: usize,
    low: Lowering,
)
    requires
        is_sound_lowering(low),
    ensures
        ({
            let after = spec_lower_template_parts(cx, st, parts, index, types, capture, low);
            &&& grows(st, after.0)
            &&& fits(after.0) && is_sound(st)
                ==> is_sound(after.0)
                    && (match after.1 { Some(some) => template_fits(some, bounds_of(after.0)), None => true })
        }),
    decreases parts@.len() - index,
{
    broadcast use {group_shape, group_kinds};

    reveal_with_fuel(spec_lower_template_parts, 2);
    let given = st;
    lemma_grows_itself(st);
    if index >= parts.len() {
    } else {
        match &parts[index as int] {
            HirTemplatePart::Literal(text) => {
                lemma_lower_template_parts(cx, st, parts, next(index), types, capture, low);
                let (next_st, attempt) = spec_lower_template_parts(
                    cx,
                    st,
                    parts,
                    next(index),
                    types,
                    capture,
                    low,
                );
                lemma_grows_on(given, st, next_st);
                let st = next_st;
                match attempt {
                    Some(others) => {
                    },
                    _ => {},
                }
            },
            HirTemplatePart::Interpolation { ty, storage, origin, tokens } => {
                lemma_lower_embedded_expression(cx, st, tokens, ty, low);
                let (next_st, attempt) = spec_lower_embedded_expression(cx, st, tokens, ty, low);
                lemma_grows_on(given, st, next_st);
                let st = next_st;
                match attempt {
                    Some(value) => {
                        if !same_type(&value.ty, ty) {
                        } else {
                            match nth_type(types, capture) {
                                Some(capture_type) => {
                                    lemma_capture_interpolation(
                                        st,
                                        value,
                                        *storage,
                                        capture_type,
                                        *origin,
                                    );
                                    let (next_st, attempt) = spec_capture_interpolation(
                                        st,
                                        value,
                                        *storage,
                                        capture_type,
                                        *origin,
                                    );
                                    lemma_grows_on(given, st, next_st);
                                    let st = next_st;
                                    match attempt {
                                        Some(operand) => {
                                            lemma_lower_template_parts(
                                                cx,
                                                st,
                                                parts,
                                                next(index),
                                                types,
                                                next(capture),
                                                low,
                                            );
                                            let (next_st, attempt) = spec_lower_template_parts(
                                                cx,
                                                st,
                                                parts,
                                                next(index),
                                                types,
                                                next(capture),
                                                low,
                                            );
                                            lemma_grows_on(given, st, next_st);
                                            let st = next_st;
                                            match attempt {
                                                Some(others) => {
                                                },
                                                _ => {},
                                            }
                                        },
                                        _ => {},
                                    }
                                },
                                _ => {},
                            }
                        }
                    },
                    _ => {},
                }
            },
        }
    }
}

pub proof fn lemma_lower_template(
    cx: &Context,
    st: State,
    start: usize,
    id: HirTemplateId,
    low: Lowering,
)
    requires
        is_sound_lowering(low),
    ensures
        ({
            let after = spec_lower_template(cx, st, start, id, low);
            &&& grows(st, after.0)
            &&& fits(after.0) && is_sound(st)
                ==> is_sound(after.0) && optional_value_fits(after.1, bounds_of(after.0))
        }),
{
    broadcast use {group_shape, group_kinds};

    reveal(spec_lower_template);
    let given = st;
    lemma_grows_itself(st);
    match cx.template(id) {
        Some(template) => {
            match template_type(cx, start, id) {
                Some(Type::Template(types)) => {
                    lemma_lower_template_parts(cx, st, &template.parts, 0, &types, 0, low);
                    let (next_st, attempt) = spec_lower_template_parts(
                        cx,
                        st,
                        &template.parts,
                        0,
                        &types,
                        0,
                        low,
                    );
                    lemma_grows_on(given, st, next_st);
                    let st = next_st;
                    match attempt {
                        Some(contents) => {
                            let ty = Type::Template(types);
                            lemma_computed(
                                st, ty.dup(),
                                Rvalue::Template {
                                    id,
                                    parts: contents.parts,
                                    captures: contents.captures,
                                    ty: ty.dup(),
                                },
                                template.origin,
                            );
                            let (next_st, operand) = spec_computed(
                                st, ty.dup(),
                                Rvalue::Template {
                                    id,
                                    parts: contents.parts,
                                    captures: contents.captures,
                                    ty: ty.dup(),
                                },
                                template.origin,
                            );
                            lemma_grows_on(given, st, next_st);
                            let st = next_st;
                        },
                        _ => {},
                    }
                },
                _ => {},
            }
        },
        _ => {},
    }
}

pub proof fn lemma_lower_capture(st: State, capture: &HirCapture)
    ensures
        ({
            let after = spec_lower_capture(st, capture);
            &&& grows(st, after.0)
            &&& fits(after.0) && is_sound(st)
                ==> is_sound(after.0) && optional_operand_fits(after.1, bounds_of(after.0))
        }),
{
    broadcast use {group_shape, group_kinds};

    reveal(spec_lower_capture);
    let given = st;
    lemma_grows_itself(st);
    lemma_lowered_local(st, capture.local);
    match spec_lowered_local(st, capture.local) {
        Some(local) => {
            lemma_dereferenced(whole(local), spec_is_captured(st, local), bounds_of(st));
            let source = dereferenced(whole(local), spec_is_captured(st, local));
            match capture.mode {
                HirCaptureMode::Move => {},
                HirCaptureMode::SharedBorrow => {
                    lemma_borrowed(st, capture.ty.dup(), false, source, capture.origin);
                    let (next_st, operand) = spec_borrowed(
                        st,
                        capture.ty.dup(),
                        false,
                        source,
                        capture.origin,
                    );
                    lemma_grows_on(given, st, next_st);
                    let st = next_st;
                },
                HirCaptureMode::MutableBorrow => {
                    lemma_borrowed(st, capture.ty.dup(), true, source, capture.origin);
                    let (next_st, operand) = spec_borrowed(
                        st,
                        capture.ty.dup(),
                        true,
                        source,
                        capture.origin,
                    );
                    lemma_grows_on(given, st, next_st);
                    let st = next_st;
                },
            }
        },
        _ => {},
    }
}

pub proof fn lemma_lower_captures(st: State, captures: &Vec<HirCapture>, index: usize)
    ensures
        ({
            let after = spec_lower_captures(st, captures, index);
            &&& grows(st, after.0)
            &&& fits(after.0) && is_sound(st)
                ==> is_sound(after.0) && optional_operands_fit(after.1, bounds_of(after.0))
        }),
    decreases captures@.len() - index,
{
    broadcast use {group_shape, group_kinds};

    reveal_with_fuel(spec_lower_captures, 2);
    let given = st;
    lemma_grows_itself(st);
    if index >= captures.len() {
    } else {
        lemma_lower_capture(st, &captures[index as int]);
        let (next_st, attempt) = spec_lower_capture(st, &captures[index as int]);
        lemma_grows_on(given, st, next_st);
        let st = next_st;
        match attempt {
            Some(operand) => {
                lemma_lower_captures(st, captures, next(index));
                let (next_st, attempt) = spec_lower_captures(st, captures, next(index));
                lemma_grows_on(given, st, next_st);
                let st = next_st;
                match attempt {
                    Some(others) => {
                    },
                    _ => {},
                }
            },
            _ => {},
        }
    }
}

pub proof fn lemma_add_capture_arguments(st: State, captures: &Vec<HirCapture>, index: usize)
    ensures
        ({
            let after = spec_add_capture_arguments(st, captures, index);
            &&& grows(st, after)
            &&& fits(after) && is_sound(st)
                ==> is_sound(after)
        }),
    decreases captures@.len() - index,
{
    broadcast use {group_shape, group_kinds};

    reveal_with_fuel(spec_add_capture_arguments, 2);
    let given = st;
    lemma_grows_itself(st);
    if index < captures.len() {
        let capture = &captures[index as int];
        lemma_add_local(
            st,
            capture.name,
            capture.ty.dup(),
            capture.mode == HirCaptureMode::MutableBorrow,
            true,
            capture.origin,
        );
        let (next_st, local) = spec_add_local(
            st,
            capture.name,
            capture.ty.dup(),
            capture.mode == HirCaptureMode::MutableBorrow,
            true,
            capture.origin,
        );
        lemma_grows_on(given, st, next_st);
        let st = next_st;
        lemma_bind_hir(st, capture.local, local);
        let next_st = spec_bind_hir(st, capture.local, local);
        lemma_grows_on(given, st, next_st);
        let st = next_st;
        if capture.mode != HirCaptureMode::Move {
            lemma_capture(st, local);
            let next_st = spec_capture(st, local);
            lemma_grows_on(given, st, next_st);
            let st = next_st;
        }
        let next_st = if capture.mode != HirCaptureMode::Move {
            spec_capture(st, local)
        } else {
            st
        };
        assert(grows(given, next_st));
        let st = next_st;
        lemma_add_capture_arguments(st, captures, next(index));
        let next_st = spec_add_capture_arguments(st, captures, next(index));
        lemma_grows_on(given, st, next_st);
        let st = next_st;
    }
}

pub proof fn lemma_add_argument(st: State, local: &HirLocal)
    ensures
        ({
            let after = spec_add_argument(st, local);
            &&& grows(st, after)
            &&& fits(after) && is_sound(st)
                ==> is_sound(after)
        }),
{
    broadcast use {group_shape, group_kinds};

    reveal(spec_add_argument);
    let given = st;
    lemma_grows_itself(st);
    lemma_add_local(st, local.name, local.ty.dup(), local.mutable, true, local.origin);
    let (next_st, argument) = spec_add_local(
        st,
        local.name,
        local.ty.dup(),
        local.mutable,
        true,
        local.origin,
    );
    lemma_grows_on(given, st, next_st);
    let st = next_st;
    lemma_bind_hir(st, local.id, argument);
    let next_st = spec_bind_hir(st, local.id, argument);
    lemma_grows_on(given, st, next_st);
    let st = next_st;
}

pub proof fn lemma_add_parameter_arguments(
    cx: &Context,
    st: State,
    parameters: &Vec<HirLocalId>,
    index: usize,
)
    ensures
        ({
            let after = spec_add_parameter_arguments(cx, st, parameters, index);
            &&& grows(st, after.0)
            &&& fits(after.0) && is_sound(st)
                ==> is_sound(after.0)
        }),
    decreases parameters@.len() - index,
{
    broadcast use {group_shape, group_kinds};

    reveal_with_fuel(spec_add_parameter_arguments, 2);
    let given = st;
    lemma_grows_itself(st);
    if index >= parameters.len() {
    } else {
        let id = &parameters[index as int];
        match cx.hir_local(*id) {
            Some(local) => {
                lemma_add_argument(st, local);
                let next_st = spec_add_argument(st, local);
                lemma_grows_on(given, st, next_st);
                let st = next_st;
                lemma_add_parameter_arguments(cx, st, parameters, next(index));
                let (next_st, _) = spec_add_parameter_arguments(cx, st, parameters, next(index));
                lemma_grows_on(given, st, next_st);
                let st = next_st;
            },
            _ => {},
        }
    }
}

pub proof fn lemma_lower_closure_code(cx: &Context, st: State, block: bool, low: Lowering)
    requires
        is_sound_lowering(low),
    ensures
        ({
            let after = spec_lower_closure_code(cx, st, block, low);
            &&& grows(st, after)
            &&& fits(after) && is_sound(st)
                ==> is_sound(after)
        }),
{
    broadcast use {group_shape, group_kinds};

    reveal(spec_lower_closure_code);
    let given = st;
    lemma_grows_itself(st);
    if block {
        lemma_lower_body(cx, st, low);
        let next_st = spec_lower_body(cx, st, low);
        lemma_grows_on(given, st, next_st);
        let st = next_st;
    } else {
        if cx.count > 0 {
            let (next_st, value) = (low.expression)(cx, st, 0, cx.count, Some(&cx.return_type));
            lemma_grows_on(given, st, next_st);
            let st = next_st;
            let kind = match value {
                Some(value) => TerminatorKind::Return(Some(value.operand)),
                None => TerminatorKind::Unreachable,
            };
            lemma_terminate(st, kind, cx.span_at(0));
            let next_st = spec_terminate(st, kind, cx.span_at(0));
            lemma_grows_on(given, st, next_st);
            let st = next_st;
        }
    }
}

pub proof fn lemma_lower_closure(
    cx: &Context,
    st: State,
    start: usize,
    id: HirClosureId,
    low: Lowering,
)
    requires
        is_sound_lowering(low),
    ensures
        ({
            let after = spec_lower_closure(cx, st, start, id, low);
            &&& grows(st, after.0)
            &&& fits(after.0) && is_sound(st)
                ==> is_sound(after.0) && optional_value_fits(after.1, bounds_of(after.0))
        }),
{
    broadcast use {group_shape, group_kinds};

    reveal(spec_lower_closure);
    let given = st;
    lemma_grows_itself(st);
    match cx.closure(id) {
        Some(closure) => {
            lemma_lower_captures(st, &closure.captures, 0);
            let (next_st, attempt) = spec_lower_captures(st, &closure.captures, 0);
            lemma_grows_on(given, st, next_st);
            let st = next_st;
            match attempt {
                Some(captures) => {
                    lemma_add_closure_body(cx, st, closure, low);
                    let (next_st, attempt) = spec_add_closure_body(cx, st, closure, low);
                    lemma_grows_on(given, st, next_st);
                    let st = next_st;
                    match attempt {
                        Some(body) => {
                            let ty = Type::Function(closure.function.dup());
                            lemma_live(st, ty.dup(), closure.origin);
                            let (next_st, local) = spec_live(st, ty.dup(), closure.origin);
                            lemma_grows_on(given, st, next_st);
                            let st = next_st;
                            lemma_assign(
                                st,
                                local,
                                Rvalue::Closure { id: closure.id, function: closure.function.dup(), captures, body },
                                cx.span_at(start),
                            );
                            let next_st = spec_assign(
                                st,
                                local,
                                Rvalue::Closure { id: closure.id, function: closure.function.dup(), captures, body },
                                cx.span_at(start),
                            );
                            lemma_grows_on(given, st, next_st);
                            let st = next_st;
                        },
                        _ => {},
                    }
                },
                _ => {},
            }
        },
        _ => {},
    }
}

/// The body of a closure is well formed.
pub proof fn lemma_closure_body(cx: &Context, closure: &HirClosure, low: Lowering)
    requires
        is_sound_lowering(low),
    ensures
        match closure_body(cx, closure, low) {
            Some(body) => is_countable(body) ==> is_well_formed(body),
            None => true,
        },
{
    broadcast use {group_shape, group_kinds};

    reveal(closure_body);
    let tokens = spec_closure_tokens(cx, closure);
    let nested = spec_closure_context(cx, closure, tokens);
    lemma_empty_state(0);
    lemma_add_capture_arguments(empty_state(0), &closure.captures, 0);
    let st = spec_add_capture_arguments(empty_state(0), &closure.captures, 0);
    lemma_add_parameter_arguments(&nested, st, &closure.parameters, 0);
    let (st, known) = spec_add_parameter_arguments(&nested, st, &closure.parameters, 0);
    if known {
        lemma_lower_closure_code(&nested, st, tokens.block, low);
        let st = spec_lower_closure_code(&nested, st, tokens.block, low);
        match cx.program.declaration(cx.owner_declaration()) {
            Some(declaration) => {
                lemma_finish_countable(
                    st,
                    declaration.id,
                    cx.owner_member(),
                    *closure.function.result,
                    closure.function.effects,
                );
                if fits(st) {
                    lemma_finish(
                        st,
                        declaration.id,
                        cx.owner_member(),
                        *closure.function.result,
                        closure.function.effects,
                    );
                }
            },
            None => {},
        }
    }
}

pub proof fn lemma_add_closure_body(cx: &Context, st: State, closure: &HirClosure, low: Lowering)
    requires
        is_sound_lowering(low),
    ensures
        ({
            let after = spec_add_closure_body(cx, st, closure, low);
            &&& grows(st, after.0)
            &&& fits(after.0) && is_sound(st) ==> is_sound(after.0)
            &&& fits(after.0) ==> match after.1 {
                Some(position) => position < after.0.closures.len(),
                None => true,
            }
        }),
{
    reveal(spec_add_closure_body);
    lemma_grows_itself(st);
    match closure_body(cx, closure, low) {
        Some(body) => {
            lemma_closure_body(cx, closure, low);
            lemma_add_closure(st, body);
        },
        None => {},
    }
}

} // verus!
