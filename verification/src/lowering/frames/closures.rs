//! Closures and templates leave the other blocks of a graph as they are.

use vstd::prelude::*;

use crate::hir::{
    same_type, HirCapture, HirCaptureMode, HirClosure, HirClosureId, HirTemplateId, HirTemplatePart,
    HirTemplateStorage, Type,
};
use crate::list::List;
use crate::lowering::access::dereferenced;
use crate::lowering::bindings::nth_type;
use crate::lowering::builder::{spec_add_closure, spec_is_captured, spec_lowered_local, State};
use crate::lowering::closures::{
    spec_add_closure_body, spec_capture_interpolation, spec_embedded_context, spec_lower_capture,
    spec_lower_captures, spec_lower_closure, spec_lower_embedded_expression, spec_lower_template,
    spec_lower_template_parts, template_type,
};
use crate::lowering::context::{before, next, Context};
use crate::lowering::emit::{spec_assign, spec_borrowed, spec_computed, spec_live, Value};
use crate::lowering::frames::base::{
    continues, frame_same, group_frames, is_framed_lowering, lemma_continues_on,
};
use crate::lowering::frames::emit::{frame_assign, frame_borrowed, frame_computed, frame_live};
use crate::lowering::recursion::Lowering;
use crate::lowering::shape::base::{
    fits, is_sound_lowering, lemma_grows_itself, lemma_grows_on, lemma_growth, lemma_set_index,
};
use crate::lowering::shape::closures::{
    lemma_add_closure_body, lemma_capture_interpolation, lemma_lower_capture, lemma_lower_captures,
    lemma_lower_embedded_expression, lemma_lower_template_parts,
};
use crate::lowering::shape::emit::{lemma_assign, lemma_borrowed, lemma_computed, lemma_live};
use crate::mir::{operand_place, whole, Rvalue};
use crate::syntax::Token;

verus! {

pub proof fn frame_lower_embedded_expression(
    base: State,
    cx: &Context,
    st: State,
    tokens: &Vec<Token>,
    expected: &Type,
    low: Lowering,
)
    requires
        is_sound_lowering(low),
        is_framed_lowering(low),
    ensures
        ({
            let after = spec_lower_embedded_expression(cx, st, tokens, expected, low);
            fits(after.0) && continues(base, st) ==> continues(base, after.0)
        }),
{
    broadcast use {lemma_growth, group_frames};

    reveal(spec_lower_embedded_expression);
    let given = st;
    lemma_grows_itself(st);
    let nested = spec_embedded_context(cx, tokens);
    let position: usize = st.index;
    lemma_set_index(st, 0);
    let next_st = State { index: 0, ..st };
    frame_same(base, st, next_st);
    lemma_grows_on(given, st, next_st);
    let st = next_st;
    let (next_st, value) = (low.expression)(&nested, st, 0, before(tokens.len()), Some(expected));
    lemma_continues_on(base, st, next_st);
    lemma_grows_on(given, st, next_st);
    let st = next_st;
    lemma_set_index(st, position);
    let next_st = State { index: position, ..st };
    frame_same(base, st, next_st);
    lemma_grows_on(given, st, next_st);
    let st = next_st;
}

pub proof fn frame_capture_interpolation(
    base: State,
    st: State,
    value: Value,
    storage: HirTemplateStorage,
    ty: Type,
    origin: crate::syntax::Span,
)
    ensures
        ({
            let after = spec_capture_interpolation(st, value, storage, ty, origin);
            fits(after.0) && continues(base, st) ==> continues(base, after.0)
        }),
{
    broadcast use {lemma_growth, group_frames};

    reveal(spec_capture_interpolation);
    let given = st;
    lemma_grows_itself(st);
    match storage {
        HirTemplateStorage::SharedBorrow => {
            match operand_place(value.operand) {
                Some(place) => {
                    lemma_borrowed(st, ty, false, place, origin);
                    frame_borrowed(base, st, ty, false, place, origin);
                    let (next_st, operand) = spec_borrowed(st, ty, false, place, origin);
                    lemma_grows_on(given, st, next_st);
                    let st = next_st;
                },
                _ => {},
            }
        },
        HirTemplateStorage::Owned => {},
    }
}

pub proof fn frame_lower_template_parts(
    base: State,
    cx: &Context,
    st: State,
    parts: &Vec<HirTemplatePart>,
    index: usize,
    types: &List<Type>,
    capture: usize,
    low: Lowering,
)
    requires
        is_sound_lowering(low),
        is_framed_lowering(low),
    ensures
        ({
            let after = spec_lower_template_parts(cx, st, parts, index, types, capture, low);
            fits(after.0) && continues(base, st) ==> continues(base, after.0)
        }),
    decreases parts@.len() - index,
{
    broadcast use {lemma_growth, group_frames};

    reveal_with_fuel(spec_lower_template_parts, 2);
    let given = st;
    lemma_grows_itself(st);
    if index >= parts.len() {
    } else {
        match &parts[index as int] {
            HirTemplatePart::Literal(text) => {
                lemma_lower_template_parts(cx, st, parts, next(index), types, capture, low);
                frame_lower_template_parts(base, cx, st, parts, next(index), types, capture, low);
                let (next_st, attempt) = spec_lower_template_parts(
                    cx,
                    st,
                    parts,
                    next(index),
                    types,
                    capture,
                    low,
                );
                lemma_grows_on(given, st, next_st);
                let st = next_st;
                match attempt {
                    Some(others) => {
                    },
                    _ => {},
                }
            },
            HirTemplatePart::Interpolation { ty, storage, origin, tokens } => {
                lemma_lower_embedded_expression(cx, st, tokens, ty, low);
                frame_lower_embedded_expression(base, cx, st, tokens, ty, low);
                let (next_st, attempt) = spec_lower_embedded_expression(cx, st, tokens, ty, low);
                lemma_grows_on(given, st, next_st);
                let st = next_st;
                match attempt {
                    Some(value) => {
                        if !same_type(&value.ty, ty) {
                        } else {
                            match nth_type(types, capture) {
                                Some(capture_type) => {
                                    lemma_capture_interpolation(
                                        st,
                                        value,
                                        *storage,
                                        capture_type,
                                        *origin,
                                    );
                                    frame_capture_interpolation(
                                        base,
                                        st,
                                        value,
                                        *storage,
                                        capture_type,
                                        *origin,
                                    );
                                    let (next_st, attempt) = spec_capture_interpolation(
                                        st,
                                        value,
                                        *storage,
                                        capture_type,
                                        *origin,
                                    );
                                    lemma_grows_on(given, st, next_st);
                                    let st = next_st;
                                    match attempt {
                                        Some(operand) => {
                                            lemma_lower_template_parts(
                                                cx,
                                                st,
                                                parts,
                                                next(index),
                                                types,
                                                next(capture),
                                                low,
                                            );
                                            frame_lower_template_parts(
                                                base,
                                                cx,
                                                st,
                                                parts,
                                                next(index),
                                                types,
                                                next(capture),
                                                low,
                                            );
                                            let (next_st, attempt) = spec_lower_template_parts(
                                                cx,
                                                st,
                                                parts,
                                                next(index),
                                                types,
                                                next(capture),
                                                low,
                                            );
                                            lemma_grows_on(given, st, next_st);
                                            let st = next_st;
                                            match attempt {
                                                Some(others) => {
                                                },
                                                _ => {},
                                            }
                                        },
                                        _ => {},
                                    }
                                },
                                _ => {},
                            }
                        }
                    },
                    _ => {},
                }
            },
        }
    }
}

pub proof fn frame_lower_template(
    base: State,
    cx: &Context,
    st: State,
    start: usize,
    id: HirTemplateId,
    low: Lowering,
)
    requires
        is_sound_lowering(low),
        is_framed_lowering(low),
    ensures
        ({
            let after = spec_lower_template(cx, st, start, id, low);
            fits(after.0) && continues(base, st) ==> continues(base, after.0)
        }),
{
    broadcast use {lemma_growth, group_frames};

    reveal(spec_lower_template);
    let given = st;
    lemma_grows_itself(st);
    match cx.template(id) {
        Some(template) => {
            match template_type(cx, start, id) {
                Some(Type::Template(types)) => {
                    lemma_lower_template_parts(cx, st, &template.parts, 0, &types, 0, low);
                    frame_lower_template_parts(base, cx, st, &template.parts, 0, &types, 0, low);
                    let (next_st, attempt) = spec_lower_template_parts(
                        cx,
                        st,
                        &template.parts,
                        0,
                        &types,
                        0,
                        low,
                    );
                    lemma_grows_on(given, st, next_st);
                    let st = next_st;
                    match attempt {
                        Some(contents) => {
                            let ty = Type::Template(types);
                            lemma_computed(
                                st, ty.dup(),
                                Rvalue::Template {
                                    id,
                                    parts: contents.parts,
                                    captures: contents.captures,
                                    ty: ty.dup(),
                                },
                                template.origin,
                            );
                            frame_computed(
                                base,
                                st,
                                ty.dup(),
                                Rvalue::Template {
                                    id,
                                    parts: contents.parts,
                                    captures: contents.captures,
                                    ty: ty.dup(),
                                },
                                template.origin,
                            );
                            let (next_st, operand) = spec_computed(
                                st, ty.dup(),
                                Rvalue::Template {
                                    id,
                                    parts: contents.parts,
                                    captures: contents.captures,
                                    ty: ty.dup(),
                                },
                                template.origin,
                            );
                            lemma_grows_on(given, st, next_st);
                            let st = next_st;
                        },
                        _ => {},
                    }
                },
                _ => {},
            }
        },
        _ => {},
    }
}

pub proof fn frame_lower_capture(base: State, st: State, capture: &HirCapture)
    ensures
        ({
            let after = spec_lower_capture(st, capture);
            fits(after.0) && continues(base, st) ==> continues(base, after.0)
        }),
{
    broadcast use {lemma_growth, group_frames};

    reveal(spec_lower_capture);
    let given = st;
    lemma_grows_itself(st);
    match spec_lowered_local(st, capture.local) {
        Some(local) => {
            let source = dereferenced(whole(local), spec_is_captured(st, local));
            match capture.mode {
                HirCaptureMode::Move => {},
                HirCaptureMode::SharedBorrow => {
                    lemma_borrowed(st, capture.ty.dup(), false, source, capture.origin);
                    frame_borrowed(base, st, capture.ty.dup(), false, source, capture.origin);
                    let (next_st, operand) = spec_borrowed(
                        st,
                        capture.ty.dup(),
                        false,
                        source,
                        capture.origin,
                    );
                    lemma_grows_on(given, st, next_st);
                    let st = next_st;
                },
                HirCaptureMode::MutableBorrow => {
                    lemma_borrowed(st, capture.ty.dup(), true, source, capture.origin);
                    frame_borrowed(base, st, capture.ty.dup(), true, source, capture.origin);
                    let (next_st, operand) = spec_borrowed(
                        st,
                        capture.ty.dup(),
                        true,
                        source,
                        capture.origin,
                    );
                    lemma_grows_on(given, st, next_st);
                    let st = next_st;
                },
            }
        },
        _ => {},
    }
}

pub proof fn frame_lower_captures(base: State, st: State, captures: &Vec<HirCapture>, index: usize)
    ensures
        ({
            let after = spec_lower_captures(st, captures, index);
            fits(after.0) && continues(base, st) ==> continues(base, after.0)
        }),
    decreases captures@.len() - index,
{
    broadcast use {lemma_growth, group_frames};

    reveal_with_fuel(spec_lower_captures, 2);
    let given = st;
    lemma_grows_itself(st);
    if index >= captures.len() {
    } else {
        lemma_lower_capture(st, &captures[index as int]);
        frame_lower_capture(base, st, &captures[index as int]);
        let (next_st, attempt) = spec_lower_capture(st, &captures[index as int]);
        lemma_grows_on(given, st, next_st);
        let st = next_st;
        match attempt {
            Some(operand) => {
                lemma_lower_captures(st, captures, next(index));
                frame_lower_captures(base, st, captures, next(index));
                let (next_st, attempt) = spec_lower_captures(st, captures, next(index));
                lemma_grows_on(given, st, next_st);
                let st = next_st;
                match attempt {
                    Some(others) => {
                    },
                    _ => {},
                }
            },
            _ => {},
        }
    }
}

pub proof fn frame_lower_closure(
    base: State,
    cx: &Context,
    st: State,
    start: usize,
    id: HirClosureId,
    low: Lowering,
)
    requires
        is_sound_lowering(low),
        is_framed_lowering(low),
    ensures
        ({
            let after = spec_lower_closure(cx, st, start, id, low);
            fits(after.0) && continues(base, st) ==> continues(base, after.0)
        }),
{
    broadcast use {lemma_growth, group_frames};

    reveal(spec_lower_closure);
    let given = st;
    lemma_grows_itself(st);
    match cx.closure(id) {
        Some(closure) => {
            lemma_lower_captures(st, &closure.captures, 0);
            frame_lower_captures(base, st, &closure.captures, 0);
            let (next_st, attempt) = spec_lower_captures(st, &closure.captures, 0);
            lemma_grows_on(given, st, next_st);
            let st = next_st;
            match attempt {
                Some(captures) => {
                    lemma_add_closure_body(cx, st, closure, low);
                    frame_add_closure_body(base, cx, st, closure, low);
                    let (next_st, attempt) = spec_add_closure_body(cx, st, closure, low);
                    lemma_grows_on(given, st, next_st);
                    let st = next_st;
                    match attempt {
                        Some(body) => {
                            let ty = Type::Function(closure.function.dup());
                            lemma_live(st, ty.dup(), closure.origin);
                            frame_live(base, st, ty.dup(), closure.origin);
                            let (next_st, local) = spec_live(st, ty.dup(), closure.origin);
                            lemma_grows_on(given, st, next_st);
                            let st = next_st;
                            lemma_assign(
                                st,
                                local,
                                Rvalue::Closure { id: closure.id, function: closure.function.dup(), captures, body },
                                cx.span_at(start),
                            );
                            frame_assign(
                                base,
                                st,
                                local,
                                Rvalue::Closure { id: closure.id, function: closure.function.dup(), captures, body },
                                cx.span_at(start),
                            );
                            let next_st = spec_assign(
                                st,
                                local,
                                Rvalue::Closure { id: closure.id, function: closure.function.dup(), captures, body },
                                cx.span_at(start),
                            );
                            lemma_grows_on(given, st, next_st);
                            let st = next_st;
                        },
                        _ => {},
                    }
                },
                _ => {},
            }
        },
        _ => {},
    }
}


pub proof fn frame_add_closure_body(
    base: State,
    cx: &Context,
    st: State,
    closure: &HirClosure,
    low: Lowering,
)
    ensures
        continues(base, st) ==> continues(
            base,
            spec_add_closure_body(cx, st, closure, low).0,
        ),
{
    reveal(spec_add_closure_body);
    reveal(spec_add_closure);
    frame_same(base, st, spec_add_closure_body(cx, st, closure, low).0);
}

} // verus!
