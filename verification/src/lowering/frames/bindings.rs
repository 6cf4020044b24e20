//! Patterns leave the other blocks of a graph as they are.

use vstd::prelude::*;

use crate::hir::{
    HirBindingPattern, HirLocalId, HirPatternBinding, HirPatternProjection, PrimitiveType, Type,
};
use crate::lowering::bindings::{
    binding_value, spec_bind_hir_local, spec_bind_match_payload, spec_bind_payload,
    spec_binding_local, spec_binding_projection_type, spec_default_value, spec_index_local,
    spec_lower_binding, spec_lower_binding_default, spec_lower_binding_pattern, spec_lower_bindings,
    spec_payload_place, spec_project_binding, spec_project_step, usize_constant, BindingSource,
};
use crate::lowering::builder::{
    spec_add_local, spec_bind_hir, spec_lowered_local, spec_new_block, spec_statement,
    spec_terminate, State,
};
use crate::lowering::context::{next, Context};
use crate::lowering::emit::{converted, spec_assign, spec_branch, spec_live};
use crate::lowering::frames::base::{
    continues, frame_add_local, frame_bind_hir, frame_new_block, frame_same, frame_set_current,
    frame_statement, frame_terminate, group_frames, is_framed_lowering, lemma_continues_on,
};
use crate::lowering::frames::emit::{frame_assign, frame_branch, frame_live};
use crate::lowering::recursion::Lowering;
use crate::lowering::shape::base::{
    fits, is_sound_lowering, lemma_add_local, lemma_bind_hir, lemma_grows_itself, lemma_grows_on,
    lemma_growth, lemma_new_block, lemma_set_current, lemma_set_index, lemma_statement,
    lemma_terminate,
};
use crate::lowering::shape::bindings::{
    lemma_bind_match_payload, lemma_bind_payload, lemma_binding_local, lemma_default_value,
    lemma_index_local, lemma_lower_binding, lemma_lower_binding_default, lemma_lower_bindings,
    lemma_project_binding, lemma_project_step,
};
use crate::lowering::shape::emit::{lemma_assign, lemma_branch, lemma_live};
use crate::lowering::types::primitive;
use crate::mir::{whole, LocalId, Operand, Place, Projection, Rvalue, StatementKind, TerminatorKind};
use crate::syntax::Span;

verus! {

pub proof fn frame_index_local(base: State, st: State, index: u32, span: Span)
    ensures
        ({
            let after = spec_index_local(st, index, span);
            fits(after.0) && continues(base, st) ==> continues(base, after.0)
        }),
{
    broadcast use {lemma_growth, group_frames};

    reveal(spec_index_local);
    let given = st;
    lemma_grows_itself(st);
    lemma_live(st, primitive(PrimitiveType::Usize), span);
    frame_live(base, st, primitive(PrimitiveType::Usize), span);
    let (next_st, local) = spec_live(st, primitive(PrimitiveType::Usize), span);
    lemma_grows_on(given, st, next_st);
    let st = next_st;
    lemma_assign(st, local, Rvalue::Use(usize_constant(index as i128)), span);
    frame_assign(base, st, local, Rvalue::Use(usize_constant(index as i128)), span);
    let next_st = spec_assign(st, local, Rvalue::Use(usize_constant(index as i128)), span);
    lemma_grows_on(given, st, next_st);
    let st = next_st;
}

pub proof fn frame_project_step(
    base: State,
    cx: &Context,
    st: State,
    step: HirPatternProjection,
    source: BindingSource,
    binding_type: &Type,
    span: Span,
)
    ensures
        ({
            let after = spec_project_step(cx, st, step, source, binding_type, span);
            fits(after.0) && continues(base, st) ==> continues(base, after.0)
        }),
{
    broadcast use {lemma_growth, group_frames};

    reveal(spec_project_step);
    let given = st;
    lemma_grows_itself(st);
    let projected = spec_binding_projection_type(cx.program, &source.ty, step);
    match step {
        HirPatternProjection::Field(index) => {
            let ty = match projected {
                Some(ty) => ty,
                None => binding_type.dup(),
            };
        },
        HirPatternProjection::Index(index) => {
            let ty = match projected {
                Some(ty) => ty,
                None => binding_type.dup(),
            };
            if matches!(source.ty, Type::Tuple(_)) {
            } else {
                lemma_index_local(st, index, span);
                frame_index_local(base, st, index, span);
                let (next_st, local) = spec_index_local(st, index, span);
                lemma_grows_on(given, st, next_st);
                let st = next_st;
            }
        },
        HirPatternProjection::Rest(first) => {
            let ty = match projected {
                Some(ty) => ty,
                None => Type::Unknown,
            };
        },
        HirPatternProjection::Variant(_) => {},
        HirPatternProjection::OptionalPayload => {},
    }
}

pub proof fn frame_project_binding(
    base: State,
    cx: &Context,
    st: State,
    steps: &Vec<HirPatternProjection>,
    index: usize,
    source: BindingSource,
    binding_type: &Type,
    span: Span,
)
    ensures
        ({
            let after = spec_project_binding(cx, st, steps, index, source, binding_type, span);
            fits(after.0) && continues(base, st) ==> continues(base, after.0)
        }),
    decreases steps@.len() - index,
{
    broadcast use {lemma_growth, group_frames};

    reveal_with_fuel(spec_project_binding, 2);
    let given = st;
    lemma_grows_itself(st);
    if index >= steps.len() {
    } else {
        let step = &steps[index as int];
        lemma_project_step(cx, st, *step, source, binding_type, span);
        frame_project_step(base, cx, st, *step, source, binding_type, span);
        let (next_st, projected) = spec_project_step(cx, st, *step, source, binding_type, span);
        lemma_grows_on(given, st, next_st);
        let st = next_st;
        lemma_project_binding(cx, st, steps, next(index), projected, binding_type, span);
        frame_project_binding(base, cx, st, steps, next(index), projected, binding_type, span);
        let (next_st, _) = spec_project_binding(
            cx,
            st,
            steps,
            next(index),
            projected,
            binding_type,
            span,
        );
        lemma_grows_on(given, st, next_st);
        let st = next_st;
    }
}

pub proof fn frame_binding_local(base: State, cx: &Context, st: State, id: HirLocalId)
    ensures
        ({
            let after = spec_binding_local(cx, st, id);
            fits(after.0) && continues(base, st) ==> continues(base, after.0)
        }),
{
    broadcast use {lemma_growth, group_frames};

    reveal(spec_binding_local);
    let given = st;
    lemma_grows_itself(st);
    let lowered = spec_lowered_local(st, id);
    if lowered.is_some() {
    } else {
        match cx.hir_local(id) {
            Some(declared) => {
                lemma_add_local(
                    st,
                    declared.name,
                    declared.ty.dup(),
                    declared.mutable,
                    false,
                    declared.origin,
                );
                frame_add_local(
                    base,
                    st,
                    declared.name,
                    declared.ty.dup(),
                    declared.mutable,
                    false,
                    declared.origin,
                );
                let (next_st, local) = spec_add_local(
                    st,
                    declared.name,
                    declared.ty.dup(),
                    declared.mutable,
                    false,
                    declared.origin,
                );
                lemma_grows_on(given, st, next_st);
                let st = next_st;
                lemma_bind_hir(st, id, local);
                frame_bind_hir(base, st, id, local);
                let next_st = spec_bind_hir(st, id, local);
                lemma_grows_on(given, st, next_st);
                let st = next_st;
            },
            _ => {},
        }
    }
}

pub proof fn frame_default_value(
    base: State,
    cx: &Context,
    st: State,
    default: Span,
    ty: &Type,
    low: Lowering,
)
    requires
        is_sound_lowering(low),
        is_framed_lowering(low),
    ensures
        ({
            let after = spec_default_value(cx, st, default, ty, low);
            fits(after.0) && continues(base, st) ==> continues(base, after.0)
        }),
{
    broadcast use {lemma_growth, group_frames};

    reveal(spec_default_value);
    let given = st;
    lemma_grows_itself(st);
    match cx.token_range_for_bytes(default.byte_start, default.byte_end) {
        Some(range) => {
            let (next_st, attempt) = (low.expression)(cx, st, range.start, range.end, Some(ty));
            lemma_continues_on(base, st, next_st);
            lemma_grows_on(given, st, next_st);
            let st = next_st;
            match attempt {
                Some(value) => {
                },
                _ => {},
            }
        },
        _ => {},
    }
}

pub proof fn frame_lower_binding_default(
    base: State,
    cx: &Context,
    st: State,
    destination: LocalId,
    source: Place,
    ty: &Type,
    default: Span,
    span: Span,
    low: Lowering,
)
    requires
        is_sound_lowering(low),
        is_framed_lowering(low),
    ensures
        ({
            let after = spec_lower_binding_default(
                cx,
                st,
                destination,
                source,
                ty,
                default,
                span,
                low,
            );
            fits(after) && continues(base, st) ==> continues(base, after)
        }),
{
    broadcast use {lemma_growth, group_frames};

    reveal(spec_lower_binding_default);
    let given = st;
    lemma_grows_itself(st);
    lemma_new_block(st);
    frame_new_block(base, st);
    let (next_st, present) = spec_new_block(st);
    lemma_grows_on(given, st, next_st);
    let st = next_st;
    lemma_new_block(st);
    frame_new_block(base, st);
    let (next_st, fallback) = spec_new_block(st);
    lemma_grows_on(given, st, next_st);
    let st = next_st;
    lemma_new_block(st);
    frame_new_block(base, st);
    let (next_st, join) = spec_new_block(st);
    lemma_grows_on(given, st, next_st);
    let st = next_st;
    lemma_branch(st, Operand::Copy(source.dup()), present, fallback, span);
    frame_branch(base, st, Operand::Copy(source.dup()), present, fallback, span);
    let next_st = spec_branch(st, Operand::Copy(source.dup()), present, fallback, span);
    lemma_grows_on(given, st, next_st);
    let st = next_st;
    lemma_set_current(st, present);
    frame_set_current(base, st, present);
    let next_st = State { current: present, ..st };
    lemma_grows_on(given, st, next_st);
    let st = next_st;
    lemma_assign(
        st,
        destination,
        Rvalue::Use(Operand::Move(source.step(Projection::Downcast(1)))),
        span,
    );
    frame_assign(
        base,
        st,
        destination,
        Rvalue::Use(Operand::Move(source.step(Projection::Downcast(1)))),
        span,
    );
    let next_st = spec_assign(
        st,
        destination,
        Rvalue::Use(Operand::Move(source.step(Projection::Downcast(1)))),
        span,
    );
    lemma_grows_on(given, st, next_st);
    let st = next_st;
    lemma_terminate(st, TerminatorKind::Goto(join), span);
    frame_terminate(base, st, TerminatorKind::Goto(join), span);
    let next_st = spec_terminate(st, TerminatorKind::Goto(join), span);
    lemma_grows_on(given, st, next_st);
    let st = next_st;
    lemma_set_current(st, fallback);
    frame_set_current(base, st, fallback);
    let next_st = State { current: fallback, ..st };
    lemma_grows_on(given, st, next_st);
    let st = next_st;
    let position: usize = st.index;
    lemma_default_value(cx, st, default, ty, low);
    frame_default_value(base, cx, st, default, ty, low);
    let (next_st, value) = spec_default_value(cx, st, default, ty, low);
    lemma_grows_on(given, st, next_st);
    let st = next_st;
    lemma_set_index(st, position);
    let next_st = State { index: position, ..st };
    frame_same(base, st, next_st);
    lemma_grows_on(given, st, next_st);
    let st = next_st;
    lemma_assign(st, destination, converted(value.operand, &value.ty, ty), span);
    frame_assign(base, st, destination, converted(value.operand, &value.ty, ty), span);
    let next_st = spec_assign(st, destination, converted(value.operand, &value.ty, ty), span);
    lemma_grows_on(given, st, next_st);
    let st = next_st;
    lemma_terminate(st, TerminatorKind::Goto(join), span);
    frame_terminate(base, st, TerminatorKind::Goto(join), span);
    let next_st = spec_terminate(st, TerminatorKind::Goto(join), span);
    lemma_grows_on(given, st, next_st);
    let st = next_st;
    lemma_set_current(st, join);
    frame_set_current(base, st, join);
    let next_st = State { current: join, ..st };
    lemma_grows_on(given, st, next_st);
    let st = next_st;
}

pub proof fn frame_lower_binding(
    base: State,
    cx: &Context,
    st: State,
    binding: &HirPatternBinding,
    root: LocalId,
    root_type: &Type,
    low: Lowering,
)
    requires
        is_sound_lowering(low),
        is_framed_lowering(low),
    ensures
        ({
            let after = spec_lower_binding(cx, st, binding, root, root_type, low);
            fits(after) && continues(base, st) ==> continues(base, after)
        }),
{
    broadcast use {lemma_growth, group_frames};

    reveal(spec_lower_binding);
    let given = st;
    lemma_grows_itself(st);
    lemma_binding_local(cx, st, binding.local);
    frame_binding_local(base, cx, st, binding.local);
    let (next_st, attempt) = spec_binding_local(cx, st, binding.local);
    lemma_grows_on(given, st, next_st);
    let st = next_st;
    match attempt {
        Some(destination) => {
            let span = cx.span_from_hir_local(binding.local);
            lemma_statement(st, StatementKind::StorageLive(destination), span);
            frame_statement(base, st, StatementKind::StorageLive(destination), span);
            let next_st = spec_statement(st, StatementKind::StorageLive(destination), span);
            lemma_grows_on(given, st, next_st);
            let st = next_st;
            lemma_project_binding(
                cx,
                st,
                &binding.projection,
                0,
                BindingSource { place: whole(root), ty: root_type.dup(), rest: None },
                &binding.ty,
                span,
            );
            frame_project_binding(
                base,
                cx,
                st,
                &binding.projection,
                0,
                BindingSource { place: whole(root), ty: root_type.dup(), rest: None },
                &binding.ty,
                span,
            );
            let (next_st, source) = spec_project_binding(
                cx,
                st,
                &binding.projection,
                0,
                BindingSource { place: whole(root), ty: root_type.dup(), rest: None },
                &binding.ty,
                span,
            );
            lemma_grows_on(given, st, next_st);
            let st = next_st;
            match (source.ty, binding.default) {
                (Type::Optional(inner), Some(default)) => {
                    lemma_lower_binding_default(
                        cx,
                        st,
                        destination,
                        source.place,
                        &inner,
                        default,
                        span,
                        low,
                    );
                    frame_lower_binding_default(
                        base,
                        cx,
                        st,
                        destination,
                        source.place,
                        &inner,
                        default,
                        span,
                        low,
                    );
                    let next_st = spec_lower_binding_default(
                        cx,
                        st,
                        destination,
                        source.place,
                        &inner,
                        default,
                        span,
                        low,
                    );
                    lemma_grows_on(given, st, next_st);
                    let st = next_st;
                },
                _ => {
                    lemma_assign(
                        st,
                        destination,
                        binding_value(source.place, source.rest, &binding.ty),
                        span,
                    );
                    frame_assign(
                        base,
                        st,
                        destination,
                        binding_value(source.place, source.rest, &binding.ty),
                        span,
                    );
                    let next_st = spec_assign(
                        st,
                        destination,
                        binding_value(source.place, source.rest, &binding.ty),
                        span,
                    );
                    lemma_grows_on(given, st, next_st);
                    let st = next_st;
                },
            }
        },
        _ => {},
    }
}

pub proof fn frame_lower_bindings(
    base: State,
    cx: &Context,
    st: State,
    bindings: &Vec<HirPatternBinding>,
    root: LocalId,
    root_type: &Type,
    index: usize,
    low: Lowering,
)
    requires
        is_sound_lowering(low),
        is_framed_lowering(low),
    ensures
        ({
            let after = spec_lower_bindings(cx, st, bindings, root, root_type, index, low);
            fits(after) && continues(base, st) ==> continues(base, after)
        }),
    decreases bindings@.len() - index,
{
    broadcast use {lemma_growth, group_frames};

    reveal_with_fuel(spec_lower_bindings, 2);
    let given = st;
    lemma_grows_itself(st);
    if index < bindings.len() {
        lemma_lower_binding(cx, st, &bindings[index as int], root, root_type, low);
        frame_lower_binding(base, cx, st, &bindings[index as int], root, root_type, low);
        let next_st = spec_lower_binding(cx, st, &bindings[index as int], root, root_type, low);
        lemma_grows_on(given, st, next_st);
        let st = next_st;
        lemma_lower_bindings(cx, st, bindings, root, root_type, next(index), low);
        frame_lower_bindings(base, cx, st, bindings, root, root_type, next(index), low);
        let next_st = spec_lower_bindings(cx, st, bindings, root, root_type, next(index), low);
        lemma_grows_on(given, st, next_st);
        let st = next_st;
    }
}

pub proof fn frame_lower_binding_pattern(
    base: State,
    cx: &Context,
    st: State,
    pattern: &HirBindingPattern,
    low: Lowering,
)
    requires
        is_sound_lowering(low),
        is_framed_lowering(low),
    ensures
        ({
            let after = spec_lower_binding_pattern(cx, st, pattern, low);
            fits(after) && continues(base, st) ==> continues(base, after)
        }),
{
    broadcast use {lemma_growth, group_frames};

    reveal(spec_lower_binding_pattern);
    let given = st;
    lemma_grows_itself(st);
    match spec_lowered_local(st, pattern.root) {
        Some(root) => {
            let root_type = match cx.hir_local(pattern.root) {
                Some(local) => local.ty.dup(),
                None => Type::Error,
            };
            lemma_lower_bindings(cx, st, &pattern.bindings, root, &root_type, 0, low);
            frame_lower_bindings(base, cx, st, &pattern.bindings, root, &root_type, 0, low);
            let next_st = spec_lower_bindings(cx, st, &pattern.bindings, root, &root_type, 0, low);
            lemma_grows_on(given, st, next_st);
            let st = next_st;
        },
        _ => {},
    }
}

pub proof fn frame_bind_payload(
    base: State,
    cx: &Context,
    st: State,
    binding: &HirPatternBinding,
    scrutinee: &Place,
    scrutinee_type: &Type,
)
    ensures
        ({
            let after = spec_bind_payload(cx, st, binding, scrutinee, scrutinee_type);
            fits(after) && continues(base, st) ==> continues(base, after)
        }),
{
    broadcast use {lemma_growth, group_frames};

    reveal(spec_bind_payload);
    let given = st;
    lemma_grows_itself(st);
    match cx.hir_local(binding.local) {
        Some(declared) => {
            lemma_add_local(st, declared.name, binding.ty.dup(), false, false, declared.origin);
            frame_add_local(
                base,
                st,
                declared.name,
                binding.ty.dup(),
                false,
                false,
                declared.origin,
            );
            let (next_st, local) = spec_add_local(
                st,
                declared.name,
                binding.ty.dup(),
                false,
                false,
                declared.origin,
            );
            lemma_grows_on(given, st, next_st);
            let st = next_st;
            lemma_bind_hir(st, binding.local, local);
            frame_bind_hir(base, st, binding.local, local);
            let next_st = spec_bind_hir(st, binding.local, local);
            lemma_grows_on(given, st, next_st);
            let st = next_st;
            lemma_statement(st, StatementKind::StorageLive(local), declared.origin);
            frame_statement(base, st, StatementKind::StorageLive(local), declared.origin);
            let next_st = spec_statement(st, StatementKind::StorageLive(local), declared.origin);
            lemma_grows_on(given, st, next_st);
            let st = next_st;
            let source = spec_payload_place(
                cx,
                &binding.projection,
                0,
                scrutinee.dup(),
                scrutinee_type,
                &binding.ty,
            );
            lemma_assign(st, local, Rvalue::Use(Operand::Copy(source)), declared.origin);
            frame_assign(base, st, local, Rvalue::Use(Operand::Copy(source)), declared.origin);
            let next_st = spec_assign(
                st,
                local,
                Rvalue::Use(Operand::Copy(source)),
                declared.origin,
            );
            lemma_grows_on(given, st, next_st);
            let st = next_st;
        },
        _ => {},
    }
}

pub proof fn frame_bind_match_payload(
    base: State,
    cx: &Context,
    st: State,
    bindings: &Vec<HirPatternBinding>,
    index: usize,
    scrutinee: &Place,
    scrutinee_type: &Type,
)
    ensures
        ({
            let after = spec_bind_match_payload(cx, st, bindings, index, scrutinee, scrutinee_type);
            fits(after) && continues(base, st) ==> continues(base, after)
        }),
    decreases bindings@.len() - index,
{
    broadcast use {lemma_growth, group_frames};

    reveal_with_fuel(spec_bind_match_payload, 2);
    let given = st;
    lemma_grows_itself(st);
    if index < bindings.len() {
        lemma_bind_payload(cx, st, &bindings[index as int], scrutinee, scrutinee_type);
        frame_bind_payload(base, cx, st, &bindings[index as int], scrutinee, scrutinee_type);
        let next_st = spec_bind_payload(cx, st, &bindings[index as int], scrutinee, scrutinee_type);
        lemma_grows_on(given, st, next_st);
        let st = next_st;
        lemma_bind_match_payload(cx, st, bindings, next(index), scrutinee, scrutinee_type);
        frame_bind_match_payload(base, cx, st, bindings, next(index), scrutinee, scrutinee_type);
        let next_st = spec_bind_match_payload(
            cx,
            st,
            bindings,
            next(index),
            scrutinee,
            scrutinee_type,
        );
        lemma_grows_on(given, st, next_st);
        let st = next_st;
    }
}


pub proof fn frame_bind_hir_local(
    base: State,
    cx: &Context,
    st: State,
    token: usize,
    local: LocalId,
)
    ensures
        continues(base, st) ==> continues(base, spec_bind_hir_local(cx, st, token, local)),
{
    reveal(spec_bind_hir);
    frame_same(base, st, spec_bind_hir_local(cx, st, token, local));
}

} // verus!
