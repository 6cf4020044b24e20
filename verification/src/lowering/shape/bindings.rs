//! Patterns keep graphs well formed.

use vstd::prelude::*;

use crate::hir::{
    HirBindingPattern, HirLocalId, HirPatternBinding, HirPatternProjection, PrimitiveType, Type,
};
use crate::lowering::bindings::{
    binding_value, spec_bind_hir_local, spec_bind_match_payload, spec_bind_payload,
    spec_binding_local, spec_binding_projection_type, spec_default_value, spec_index_local,
    spec_lower_binding, spec_lower_binding_default, spec_lower_binding_pattern, spec_lower_bindings,
    spec_lower_parameter_bindings, spec_payload_place, spec_project_binding, spec_project_step,
    usize_constant, BindingSource,
};
use crate::lowering::builder::{
    spec_add_local, spec_bind_hir, spec_lowered_local, spec_new_block, spec_statement,
    spec_terminate, State,
};
use crate::lowering::context::{next, Context};
use crate::lowering::emit::{converted, spec_assign, spec_branch, spec_live};
use crate::lowering::members::variant_index;
use crate::lowering::recursion::{lowering, Lowering};
use crate::lowering::shape::base::{
    bounds_of, fits, group_shape, grows, is_sound, is_sound_lowering, lemma_add_local,
    lemma_bind_hir, lemma_grows_itself, lemma_grows_on, lemma_lowered_local, lemma_new_block,
    lemma_set_current, lemma_set_index, lemma_statement, lemma_terminate, optional_local_fits,
    place_fits, value_fits, Bounds,
};
use crate::lowering::shape::emit::{lemma_assign, lemma_branch, lemma_live};
use crate::lowering::shape::kinds::{group_kinds, source_fits};
use crate::lowering::types::primitive;
use crate::mir::{whole, LocalId, Operand, Place, Projection, Rvalue, StatementKind, TerminatorKind};
use crate::syntax::Span;

verus! {

pub proof fn lemma_index_local(st: State, index: u32, span: Span)
    ensures
        ({
            let after = spec_index_local(st, index, span);
            &&& grows(st, after.0)
            &&& fits(after.0) && is_sound(st)
                ==> is_sound(after.0) && after.1.0 < bounds_of(after.0).locals
        }),
{
    broadcast use {group_shape, group_kinds};

    reveal(spec_index_local);
    let given = st;
    lemma_grows_itself(st);
    lemma_live(st, primitive(PrimitiveType::Usize), span);
    let (next_st, local) = spec_live(st, primitive(PrimitiveType::Usize), span);
    lemma_grows_on(given, st, next_st);
    let st = next_st;
    lemma_assign(st, local, Rvalue::Use(usize_constant(index as i128)), span);
    let next_st = spec_assign(st, local, Rvalue::Use(usize_constant(index as i128)), span);
    lemma_grows_on(given, st, next_st);
    let st = next_st;
}

pub proof fn lemma_project_step(
    cx: &Context,
    st: State,
    step: HirPatternProjection,
    source: BindingSource,
    binding_type: &Type,
    span: Span,
)
    ensures
        ({
            let after = spec_project_step(cx, st, step, source, binding_type, span);
            &&& grows(st, after.0)
            &&& fits(after.0) && is_sound(st) && source_fits(source, bounds_of(st))
                ==> is_sound(after.0) && source_fits(after.1, bounds_of(after.0))
        }),
{
    broadcast use {group_shape, group_kinds};

    reveal(spec_project_step);
    let given = st;
    lemma_grows_itself(st);
    let projected = spec_binding_projection_type(cx.program, &source.ty, step);
    match step {
        HirPatternProjection::Field(index) => {
            let ty = match projected {
                Some(ty) => ty,
                None => binding_type.dup(),
            };
        },
        HirPatternProjection::Index(index) => {
            let ty = match projected {
                Some(ty) => ty,
                None => binding_type.dup(),
            };
            if matches!(source.ty, Type::Tuple(_)) {
            } else {
                lemma_index_local(st, index, span);
                let (next_st, local) = spec_index_local(st, index, span);
                lemma_grows_on(given, st, next_st);
                let st = next_st;
            }
        },
        HirPatternProjection::Rest(first) => {
            let ty = match projected {
                Some(ty) => ty,
                None => Type::Unknown,
            };
        },
        HirPatternProjection::Variant(_) => {},
        HirPatternProjection::OptionalPayload => {},
    }
}

pub proof fn lemma_project_binding(
    cx: &Context,
    st: State,
    steps: &Vec<HirPatternProjection>,
    index: usize,
    source: BindingSource,
    binding_type: &Type,
    span: Span,
)
    ensures
        ({
            let after = spec_project_binding(cx, st, steps, index, source, binding_type, span);
            &&& grows(st, after.0)
            &&& fits(after.0) && is_sound(st) && source_fits(source, bounds_of(st))
                ==> is_sound(after.0) && source_fits(after.1, bounds_of(after.0))
        }),
    decreases steps@.len() - index,
{
    broadcast use {group_shape, group_kinds};

    reveal_with_fuel(spec_project_binding, 2);
    let given = st;
    lemma_grows_itself(st);
    if index >= steps.len() {
    } else {
        let step = &steps[index as int];
        lemma_project_step(cx, st, *step, source, binding_type, span);
        let (next_st, projected) = spec_project_step(cx, st, *step, source, binding_type, span);
        lemma_grows_on(given, st, next_st);
        let st = next_st;
        lemma_project_binding(cx, st, steps, next(index), projected, binding_type, span);
        let (next_st, _) = spec_project_binding(
            cx,
            st,
            steps,
            next(index),
            projected,
            binding_type,
            span,
        );
        lemma_grows_on(given, st, next_st);
        let st = next_st;
    }
}

pub proof fn lemma_binding_local(cx: &Context, st: State, id: HirLocalId)
    ensures
        ({
            let after = spec_binding_local(cx, st, id);
            &&& grows(st, after.0)
            &&& fits(after.0) && is_sound(st)
                ==> is_sound(after.0) && optional_local_fits(after.1, bounds_of(after.0))
        }),
{
    broadcast use {group_shape, group_kinds};

    reveal(spec_binding_local);
    let given = st;
    lemma_grows_itself(st);
    lemma_lowered_local(st, id);
    let lowered = spec_lowered_local(st, id);
    if lowered.is_some() {
    } else {
        match cx.hir_local(id) {
            Some(declared) => {
                lemma_add_local(
                    st,
                    declared.name,
                    declared.ty.dup(),
                    declared.mutable,
                    false,
                    declared.origin,
                );
                let (next_st, local) = spec_add_local(
                    st,
                    declared.name,
                    declared.ty.dup(),
                    declared.mutable,
                    false,
                    declared.origin,
                );
                lemma_grows_on(given, st, next_st);
                let st = next_st;
                lemma_bind_hir(st, id, local);
                let next_st = spec_bind_hir(st, id, local);
                lemma_grows_on(given, st, next_st);
                let st = next_st;
            },
            _ => {},
        }
    }
}

pub proof fn lemma_default_value(cx: &Context, st: State, default: Span, ty: &Type, low: Lowering)
    requires
        is_sound_lowering(low),
    ensures
        ({
            let after = spec_default_value(cx, st, default, ty, low);
            &&& grows(st, after.0)
            &&& fits(after.0) && is_sound(st)
                ==> is_sound(after.0) && value_fits(after.1, bounds_of(after.0))
        }),
{
    broadcast use {group_shape, group_kinds};

    reveal(spec_default_value);
    let given = st;
    lemma_grows_itself(st);
    match cx.token_range_for_bytes(default.byte_start, default.byte_end) {
        Some(range) => {
            let (next_st, attempt) = (low.expression)(cx, st, range.start, range.end, Some(ty));
            lemma_grows_on(given, st, next_st);
            let st = next_st;
            match attempt {
                Some(value) => {
                },
                _ => {},
            }
        },
        _ => {},
    }
}

pub proof fn lemma_lower_binding_default(
    cx: &Context,
    st: State,
    destination: LocalId,
    source: Place,
    ty: &Type,
    default: Span,
    span: Span,
    low: Lowering,
)
    requires
        is_sound_lowering(low),
    ensures
        ({
            let after = spec_lower_binding_default(
                cx,
                st,
                destination,
                source,
                ty,
                default,
                span,
                low,
            );
            &&& grows(st, after)
            &&& fits(after) && is_sound(st) && destination.0 < bounds_of(st).locals
                && place_fits(source, bounds_of(st))
                ==> is_sound(after)
        }),
{
    broadcast use {group_shape, group_kinds};

    reveal(spec_lower_binding_default);
    let given = st;
    lemma_grows_itself(st);
    lemma_new_block(st);
    let (next_st, present) = spec_new_block(st);
    lemma_grows_on(given, st, next_st);
    let st = next_st;
    lemma_new_block(st);
    let (next_st, fallback) = spec_new_block(st);
    lemma_grows_on(given, st, next_st);
    let st = next_st;
    lemma_new_block(st);
    let (next_st, join) = spec_new_block(st);
    lemma_grows_on(given, st, next_st);
    let st = next_st;
    lemma_branch(st, Operand::Copy(source.dup()), present, fallback, span);
    let next_st = spec_branch(st, Operand::Copy(source.dup()), present, fallback, span);
    lemma_grows_on(given, st, next_st);
    let st = next_st;
    lemma_set_current(st, present);
    let next_st = State { current: present, ..st };
    lemma_grows_on(given, st, next_st);
    let st = next_st;
    lemma_assign(
        st,
        destination,
        Rvalue::Use(Operand::Move(source.step(Projection::Downcast(1)))),
        span,
    );
    let next_st = spec_assign(
        st,
        destination,
        Rvalue::Use(Operand::Move(source.step(Projection::Downcast(1)))),
        span,
    );
    lemma_grows_on(given, st, next_st);
    let st = next_st;
    lemma_terminate(st, TerminatorKind::Goto(join), span);
    let next_st = spec_terminate(st, TerminatorKind::Goto(join), span);
    lemma_grows_on(given, st, next_st);
    let st = next_st;
    lemma_set_current(st, fallback);
    let next_st = State { current: fallback, ..st };
    lemma_grows_on(given, st, next_st);
    let st = next_st;
    let position: usize = st.index;
    lemma_default_value(cx, st, default, ty, low);
    let (next_st, value) = spec_default_value(cx, st, default, ty, low);
    lemma_grows_on(given, st, next_st);
    let st = next_st;
    lemma_set_index(st, position);
    let next_st = State { index: position, ..st };
    lemma_grows_on(given, st, next_st);
    let st = next_st;
    lemma_assign(st, destination, converted(value.operand, &value.ty, ty), span);
    let next_st = spec_assign(st, destination, converted(value.operand, &value.ty, ty), span);
    lemma_grows_on(given, st, next_st);
    let st = next_st;
    lemma_terminate(st, TerminatorKind::Goto(join), span);
    let next_st = spec_terminate(st, TerminatorKind::Goto(join), span);
    lemma_grows_on(given, st, next_st);
    let st = next_st;
    lemma_set_current(st, join);
    let next_st = State { current: join, ..st };
    lemma_grows_on(given, st, next_st);
    let st = next_st;
}

pub proof fn lemma_lower_binding(
    cx: &Context,
    st: State,
    binding: &HirPatternBinding,
    root: LocalId,
    root_type: &Type,
    low: Lowering,
)
    requires
        is_sound_lowering(low),
    ensures
        ({
            let after = spec_lower_binding(cx, st, binding, root, root_type, low);
            &&& grows(st, after)
            &&& fits(after) && is_sound(st) && root.0 < bounds_of(st).locals
                ==> is_sound(after)
        }),
{
    broadcast use {group_shape, group_kinds};

    reveal(spec_lower_binding);
    let given = st;
    lemma_grows_itself(st);
    lemma_binding_local(cx, st, binding.local);
    let (next_st, attempt) = spec_binding_local(cx, st, binding.local);
    lemma_grows_on(given, st, next_st);
    let st = next_st;
    match attempt {
        Some(destination) => {
            let span = cx.span_from_hir_local(binding.local);
            lemma_statement(st, StatementKind::StorageLive(destination), span);
            let next_st = spec_statement(st, StatementKind::StorageLive(destination), span);
            lemma_grows_on(given, st, next_st);
            let st = next_st;
            lemma_project_binding(
                cx,
                st,
                &binding.projection,
                0,
                BindingSource { place: whole(root), ty: root_type.dup(), rest: None },
                &binding.ty,
                span,
            );
            let (next_st, source) = spec_project_binding(
                cx,
                st,
                &binding.projection,
                0,
                BindingSource { place: whole(root), ty: root_type.dup(), rest: None },
                &binding.ty,
                span,
            );
            lemma_grows_on(given, st, next_st);
            let st = next_st;
            match (source.ty, binding.default) {
                (Type::Optional(inner), Some(default)) => {
                    lemma_lower_binding_default(
                        cx,
                        st,
                        destination,
                        source.place,
                        &inner,
                        default,
                        span,
                        low,
                    );
                    let next_st = spec_lower_binding_default(
                        cx,
                        st,
                        destination,
                        source.place,
                        &inner,
                        default,
                        span,
                        low,
                    );
                    lemma_grows_on(given, st, next_st);
                    let st = next_st;
                },
                _ => {
                    lemma_assign(
                        st,
                        destination,
                        binding_value(source.place, source.rest, &binding.ty),
                        span,
                    );
                    let next_st = spec_assign(
                        st,
                        destination,
                        binding_value(source.place, source.rest, &binding.ty),
                        span,
                    );
                    lemma_grows_on(given, st, next_st);
                    let st = next_st;
                },
            }
        },
        _ => {},
    }
}

pub proof fn lemma_lower_bindings(
    cx: &Context,
    st: State,
    bindings: &Vec<HirPatternBinding>,
    root: LocalId,
    root_type: &Type,
    index: usize,
    low: Lowering,
)
    requires
        is_sound_lowering(low),
    ensures
        ({
            let after = spec_lower_bindings(cx, st, bindings, root, root_type, index, low);
            &&& grows(st, after)
            &&& fits(after) && is_sound(st) && root.0 < bounds_of(st).locals
                ==> is_sound(after)
        }),
    decreases bindings@.len() - index,
{
    broadcast use {group_shape, group_kinds};

    reveal_with_fuel(spec_lower_bindings, 2);
    let given = st;
    lemma_grows_itself(st);
    if index < bindings.len() {
        lemma_lower_binding(cx, st, &bindings[index as int], root, root_type, low);
        let next_st = spec_lower_binding(cx, st, &bindings[index as int], root, root_type, low);
        lemma_grows_on(given, st, next_st);
        let st = next_st;
        lemma_lower_bindings(cx, st, bindings, root, root_type, next(index), low);
        let next_st = spec_lower_bindings(cx, st, bindings, root, root_type, next(index), low);
        lemma_grows_on(given, st, next_st);
        let st = next_st;
    }
}

pub proof fn lemma_lower_binding_pattern(
    cx: &Context,
    st: State,
    pattern: &HirBindingPattern,
    low: Lowering,
)
    requires
        is_sound_lowering(low),
    ensures
        ({
            let after = spec_lower_binding_pattern(cx, st, pattern, low);
            &&& grows(st, after)
            &&& fits(after) && is_sound(st)
                ==> is_sound(after)
        }),
{
    broadcast use {group_shape, group_kinds};

    reveal(spec_lower_binding_pattern);
    let given = st;
    lemma_grows_itself(st);
    lemma_lowered_local(st, pattern.root);
    match spec_lowered_local(st, pattern.root) {
        Some(root) => {
            let root_type = match cx.hir_local(pattern.root) {
                Some(local) => local.ty.dup(),
                None => Type::Error,
            };
            lemma_lower_bindings(cx, st, &pattern.bindings, root, &root_type, 0, low);
            let next_st = spec_lower_bindings(cx, st, &pattern.bindings, root, &root_type, 0, low);
            lemma_grows_on(given, st, next_st);
            let st = next_st;
        },
        _ => {},
    }
}

pub proof fn lemma_lower_parameter_bindings(
    cx: &Context,
    st: State,
    patterns: &Vec<HirBindingPattern>,
    index: usize,
    low: Lowering,
)
    requires
        is_sound_lowering(low),
    ensures
        ({
            let after = spec_lower_parameter_bindings(cx, st, patterns, index, low);
            &&& grows(st, after)
            &&& fits(after) && is_sound(st)
                ==> is_sound(after)
        }),
    decreases patterns@.len() - index,
{
    broadcast use {group_shape, group_kinds};

    reveal_with_fuel(spec_lower_parameter_bindings, 2);
    let given = st;
    lemma_grows_itself(st);
    if index < patterns.len() {
        lemma_lower_binding_pattern(cx, st, &patterns[index as int], low);
        let next_st = spec_lower_binding_pattern(cx, st, &patterns[index as int], low);
        lemma_grows_on(given, st, next_st);
        let st = next_st;
        lemma_lower_parameter_bindings(cx, st, patterns, next(index), low);
        let next_st = spec_lower_parameter_bindings(cx, st, patterns, next(index), low);
        lemma_grows_on(given, st, next_st);
        let st = next_st;
    }
}

pub proof fn lemma_payload_place(
    cx: &Context,
    steps: &Vec<HirPatternProjection>,
    index: usize,
    source: Place,
    scrutinee_type: &Type,
    binding_type: &Type,
    bounds: Bounds,
)
    ensures
        ({
            let found = spec_payload_place(cx, steps, index, source, scrutinee_type, binding_type);
            place_fits(source, bounds) ==> place_fits(found, bounds)
        }),
    decreases steps@.len() - index,
{
    broadcast use {group_shape, group_kinds};

    reveal_with_fuel(spec_payload_place, 2);
    if index >= steps.len() {
    } else {
        let step = &steps[index as int];
        let place = match *step {
            HirPatternProjection::Variant(constructor) => {
                match variant_index(
                    cx.program,
                    scrutinee_type,
                    constructor,
                ) {
                    Some(variant) => source.step(Projection::Downcast(variant)),
                    None => source,
                }
            },
            HirPatternProjection::Field(field) => {
                source.step(
                    Projection::Field { index: field as usize, ty: binding_type.dup() },
                )
            },
            HirPatternProjection::OptionalPayload => source.step(Projection::Downcast(1)),
            HirPatternProjection::Index(_) => source,
            HirPatternProjection::Rest(_) => source,
        };
        lemma_payload_place(cx, steps, next(index), place, scrutinee_type, binding_type, bounds);
    }
}

pub proof fn lemma_bind_payload(
    cx: &Context,
    st: State,
    binding: &HirPatternBinding,
    scrutinee: &Place,
    scrutinee_type: &Type,
)
    ensures
        ({
            let after = spec_bind_payload(cx, st, binding, scrutinee, scrutinee_type);
            &&& grows(st, after)
            &&& fits(after) && is_sound(st) && place_fits(*scrutinee, bounds_of(st))
                ==> is_sound(after)
        }),
{
    broadcast use {group_shape, group_kinds};

    reveal(spec_bind_payload);
    let given = st;
    lemma_grows_itself(st);
    match cx.hir_local(binding.local) {
        Some(declared) => {
            lemma_add_local(st, declared.name, binding.ty.dup(), false, false, declared.origin);
            let (next_st, local) = spec_add_local(
                st,
                declared.name,
                binding.ty.dup(),
                false,
                false,
                declared.origin,
            );
            lemma_grows_on(given, st, next_st);
            let st = next_st;
            lemma_bind_hir(st, binding.local, local);
            let next_st = spec_bind_hir(st, binding.local, local);
            lemma_grows_on(given, st, next_st);
            let st = next_st;
            lemma_statement(st, StatementKind::StorageLive(local), declared.origin);
            let next_st = spec_statement(st, StatementKind::StorageLive(local), declared.origin);
            lemma_grows_on(given, st, next_st);
            let st = next_st;
            lemma_payload_place(
            cx,
            &binding.projection,
            0,
            scrutinee.dup(),
            scrutinee_type,
            &binding.ty, bounds_of(st));
            let source = spec_payload_place(
                cx,
                &binding.projection,
                0,
                scrutinee.dup(),
                scrutinee_type,
                &binding.ty,
            );
            lemma_assign(st, local, Rvalue::Use(Operand::Copy(source)), declared.origin);
            let next_st = spec_assign(
                st,
                local,
                Rvalue::Use(Operand::Copy(source)),
                declared.origin,
            );
            lemma_grows_on(given, st, next_st);
            let st = next_st;
        },
        _ => {},
    }
}

pub proof fn lemma_bind_match_payload(
    cx: &Context,
    st: State,
    bindings: &Vec<HirPatternBinding>,
    index: usize,
    scrutinee: &Place,
    scrutinee_type: &Type,
)
    ensures
        ({
            let after = spec_bind_match_payload(cx, st, bindings, index, scrutinee, scrutinee_type);
            &&& grows(st, after)
            &&& fits(after) && is_sound(st) && place_fits(*scrutinee, bounds_of(st))
                ==> is_sound(after)
        }),
    decreases bindings@.len() - index,
{
    broadcast use {group_shape, group_kinds};

    reveal_with_fuel(spec_bind_match_payload, 2);
    let given = st;
    lemma_grows_itself(st);
    if index < bindings.len() {
        lemma_bind_payload(cx, st, &bindings[index as int], scrutinee, scrutinee_type);
        let next_st = spec_bind_payload(cx, st, &bindings[index as int], scrutinee, scrutinee_type);
        lemma_grows_on(given, st, next_st);
        let st = next_st;
        lemma_bind_match_payload(cx, st, bindings, next(index), scrutinee, scrutinee_type);
        let next_st = spec_bind_match_payload(
            cx,
            st,
            bindings,
            next(index),
            scrutinee,
            scrutinee_type,
        );
        lemma_grows_on(given, st, next_st);
        let st = next_st;
    }
}

pub proof fn lemma_bind_hir_local(cx: &Context, st: State, token: usize, local: LocalId)
    ensures
        ({
            let after = spec_bind_hir_local(cx, st, token, local);
            &&& grows(st, after)
            &&& fits(after) && is_sound(st) && local.0 < bounds_of(st).locals ==> is_sound(after)
        }),
{
    lemma_grows_itself(st);
    match cx.name_at(token) {
        Some(name) => match crate::lowering::bindings::unbound_from(st, cx.hir.locals@, name, 0) {
            Some(id) => {
                lemma_bind_hir(st, id, local);
            },
            None => {},
        },
        None => {},
    }
}

} // verus!
