//! Names that patterns bind.

use vstd::prelude::*;

use crate::hir::{
    HirBindingPattern, HirLocal, HirLocalId, HirPatternBinding, HirPatternProjection, PrimitiveType,
    Program, Type,
};
use crate::list::{cons, one, List};
use crate::lowering::builder::{
    spec_add_local, spec_bind_hir, spec_lowered_local, spec_new_block, spec_statement,
    spec_terminate, Builder, State,
};
use crate::lowering::context::{next, Context};
use crate::lowering::emit::{converted, spec_assign, spec_branch, spec_live, Value};
use crate::lowering::members::{aggregate_schema, schema_type, variant_index};
use crate::lowering::recursion::{lowering, Lowering};
use crate::lowering::types::primitive;
use crate::mir::{
    whole, Constant, LocalId, Operand, Place, Projection, RawOperation, Rvalue, StatementKind,
    TerminatorKind,
};
use crate::names::Name;
use crate::syntax::Span;

verus! {

/// The first local with a name that is not lowered yet.
pub open spec fn unbound_from(st: State, locals: Seq<HirLocal>, name: Name, from: nat) -> Option<
    HirLocalId,
>
    decreases locals.len() - from,
{
    if from >= locals.len() {
        None
    } else if locals[from as int].name == name && spec_lowered_local(
        st,
        locals[from as int].id,
    ) is None {
        Some(locals[from as int].id)
    } else {
        unbound_from(st, locals, name, from + 1)
    }
}

/// The graph in which a local stands for the first checked local with its name that is not
/// lowered yet.
pub open spec fn spec_bind_hir_local(
    cx: &Context,
    st: State,
    token: usize,
    local: LocalId,
) -> State {
    match cx.name_at(token) {
        Some(name) => match unbound_from(st, cx.hir.locals@, name, 0) {
            Some(id) => spec_bind_hir(st, id, local),
            None => st,
        },
        None => st,
    }
}

impl Builder {
    /// A local stands for the first checked local with its name that is not lowered yet.
    pub(crate) fn bind_hir_local(&mut self, cx: &Context, token: usize, local: LocalId)
        ensures
            final(self)@ == spec_bind_hir_local(cx, old(self)@, token, local),
    {
        let name = match cx.name_at(token) {
            Some(name) => name,
            None => {
                return;
            },
        };
        let hir = cx.hir;
        let mut index: usize = 0;
        while index < hir.locals.len()
            invariant
                *hir == *cx.hir,
                self@ == old(self)@,
                cx.name_at(token) == Some(name),
                unbound_from(self@, hir.locals@, name, 0) == unbound_from(
                    self@,
                    hir.locals@,
                    name,
                    index as nat,
                ),
            decreases hir.locals.len() - index,
        {
            let candidate = &hir.locals[index];
            if candidate.name == name && self.lowered_local(candidate.id).is_none() {
                self.bind_hir(candidate.id, local);
                return;
            }
            index = index + 1;
        }
    }
}

/// A number that an index is made of.
#[verifier::allow_in_spec]
pub fn usize_constant(value: i128) -> (r: Operand)
    returns
        Operand::Constant(Constant::Integer { value, ty: primitive(PrimitiveType::Usize) }),
{
    Operand::Constant(Constant::Integer { value, ty: primitive(PrimitiveType::Usize) })
}

/// A value that is not there.
#[verifier::allow_in_spec]
pub fn undefined(ty: Type) -> (r: Operand)
    returns
        Operand::Constant(Constant::Undefined(ty)),
{
    Operand::Constant(Constant::Undefined(ty))
}

/// The type of the part that a step of a pattern leads to.
#[verifier::opaque]
pub open spec fn spec_binding_projection_type(
    program: &Program,
    ty: &Type,
    projection: HirPatternProjection,
) -> Option<Type> {
    match projection {
        HirPatternProjection::Field(index) => {
            schema_type(
                &aggregate_schema(program, ty),
                index as usize,
            )
        },
        HirPatternProjection::Index(index) => {
            match ty {
                Type::Tuple(elements) => spec_nth_type(elements, index as usize),
                Type::Array(element, _) => Some(element.dup()),
                Type::Slice(element) => Some(element.dup()),
                _ => None,
            }
        },
        HirPatternProjection::Rest(_) => {
            match ty {
                Type::Array(element, _) => Some(Type::Slice(Box::new(element.dup()))),
                Type::Slice(element) => Some(Type::Slice(Box::new(element.dup()))),
                _ => None,
            }
        },
        HirPatternProjection::Variant(_) => None,
        HirPatternProjection::OptionalPayload => None,
    }
}

/// The type of the part that a step of a pattern leads to.
#[verifier::allow_in_spec]
pub fn binding_projection_type(
    program: &Program,
    ty: &Type,
    projection: HirPatternProjection,
) -> (r: Option<Type>)
    returns
        spec_binding_projection_type(program, ty, projection),
{
    proof {
        reveal(spec_binding_projection_type);
    }
    match projection {
        HirPatternProjection::Field(index) => schema_type(
            &aggregate_schema(program, ty),
            index as usize,
        ),
        HirPatternProjection::Index(index) => match ty {
            Type::Tuple(elements) => nth_type(elements, index as usize),
            Type::Array(element, _) => Some(element.dup()),
            Type::Slice(element) => Some(element.dup()),
            _ => None,
        },
        HirPatternProjection::Rest(_) => match ty {
            Type::Array(element, _) => Some(Type::Slice(Box::new(element.dup()))),
            Type::Slice(element) => Some(Type::Slice(Box::new(element.dup()))),
            _ => None,
        },
        HirPatternProjection::Variant(_) => None,
        HirPatternProjection::OptionalPayload => None,
    }
}

/// The type at a position of a list.
pub open spec fn spec_nth_type(types: &List<Type>, index: usize) -> Option<Type>
    decreases types,
{
    match types {
        List::Nil => None,
        List::Cons(head, tail) => {
            if index == 0 {
                Some(head.dup())
            } else {
                spec_nth_type(tail, index.saturating_sub(1))
            }
        },
    }
}

/// The type at a position of a list.
#[verifier::allow_in_spec]
pub fn nth_type(types: &List<Type>, index: usize) -> (r: Option<Type>)
    returns
        spec_nth_type(types, index),
    decreases types,
{
    proof {
        reveal_with_fuel(spec_nth_type, 2);
    }
    match types {
        List::Nil => None,
        List::Cons(head, tail) => {
            if index == 0 {
                Some(head.dup())
            } else {
                nth_type(tail, index.saturating_sub(1))
            }
        },
    }
}

/// The part of a value that a binding takes: a place, its type, and the position from which on
/// the rest of a sequence is taken.
pub struct BindingSource {
    pub place: Place,
    pub ty: Type,
    pub rest: Option<u32>,
}

/// A local with a number, for use as an index.
#[verifier::opaque]
pub open spec fn spec_index_local(st: State, index: u32, span: Span) -> (State, LocalId) {
    let (st, local) = spec_live(st, primitive(PrimitiveType::Usize), span);
    let st = spec_assign(st, local, Rvalue::Use(usize_constant(index as i128)), span);
    (st, local)
}

impl Builder {
    /// A local with a number, for use as an index.
    pub(crate) fn index_local(&mut self, index: u32, span: Span) -> (r: LocalId)
        ensures
            (final(self)@, r) == spec_index_local(old(self)@, index, span),
    {
        proof {
            reveal(spec_index_local);
        }
        let local = self.live(primitive(PrimitiveType::Usize), span);
        self.assign(local, Rvalue::Use(usize_constant(index as i128)), span);
        local
    }
}

/// The part that one step of a pattern leads to.
#[verifier::opaque]
pub open spec fn spec_project_step(
    cx: &Context,
    st: State,
    step: HirPatternProjection,
    source: BindingSource,
    binding_type: &Type,
    span: Span,
) -> (State, BindingSource) {
    let projected = spec_binding_projection_type(cx.program, &source.ty, step);
    match step {
        HirPatternProjection::Field(index) => {
            let ty = match projected {
                Some(ty) => ty,
                None => binding_type.dup(),
            };
            (st, BindingSource {
                place: source.place.step(Projection::Field { index: index as usize, ty: ty.dup() }),
                ty,
                rest: source.rest,
            })
        },
        HirPatternProjection::Index(index) => {
            let ty = match projected {
                Some(ty) => ty,
                None => binding_type.dup(),
            };
            if matches!(source.ty, Type::Tuple(_)) {
                (st, BindingSource {
                    place: source.place.step(
                        Projection::Field { index: index as usize, ty: ty.dup() },
                    ),
                    ty,
                    rest: source.rest,
                })
            } else {
                let (st, local) = spec_index_local(st, index, span);
                (st, BindingSource {
                    place: source.place.step(Projection::Index(local)),
                    ty,
                    rest: source.rest,
                })
            }
        },
        HirPatternProjection::Rest(first) => {
            let ty = match projected {
                Some(ty) => ty,
                None => Type::Unknown,
            };
            (st, BindingSource { place: source.place, ty, rest: Some(first) })
        },
        HirPatternProjection::Variant(_) => (st, source),
        HirPatternProjection::OptionalPayload => (st, source),
    }
}

impl Builder {
    /// The part that one step of a pattern leads to.
    pub(crate) fn project_step(
        &mut self,
        cx: &Context,
        step: HirPatternProjection,
        source: BindingSource,
        binding_type: &Type,
        span: Span,
    ) -> (r: BindingSource)
        ensures
            (final(self)@, r) == spec_project_step(
                cx,
                old(self)@,
                step,
                source,
                binding_type,
                span,
            ),
    {
        proof {
            reveal(spec_project_step);
        }
        let projected = binding_projection_type(cx.program, &source.ty, step);
        match step {
            HirPatternProjection::Field(index) => {
                let ty = match projected {
                    Some(ty) => ty,
                    None => binding_type.dup(),
                };
                BindingSource {
                    place: source.place.step(
                        Projection::Field { index: index as usize, ty: ty.dup() },
                    ),
                    ty,
                    rest: source.rest,
                }
            },
            HirPatternProjection::Index(index) => {
                let ty = match projected {
                    Some(ty) => ty,
                    None => binding_type.dup(),
                };
                if matches!(source.ty, Type::Tuple(_)) {
                    BindingSource {
                        place: source.place.step(
                            Projection::Field { index: index as usize, ty: ty.dup() },
                        ),
                        ty,
                        rest: source.rest,
                    }
                } else {
                    let local = self.index_local(index, span);
                    BindingSource {
                        place: source.place.step(Projection::Index(local)),
                        ty,
                        rest: source.rest,
                    }
                }
            },
            HirPatternProjection::Rest(first) => {
                let ty = match projected {
                    Some(ty) => ty,
                    None => Type::Unknown,
                };
                BindingSource { place: source.place, ty, rest: Some(first) }
            },
            HirPatternProjection::Variant(_) => source,
            HirPatternProjection::OptionalPayload => source,
        }
    }
}

/// The part that the steps of a pattern from `index` on lead to.
#[verifier::opaque]
pub open spec fn spec_project_binding(
    cx: &Context,
    st: State,
    steps: &Vec<HirPatternProjection>,
    index: usize,
    source: BindingSource,
    binding_type: &Type,
    span: Span,
) -> (State, BindingSource)
    decreases steps@.len() - index,
{
    if index >= steps.len() {
        (st, source)
    } else {
        let step = &steps[index as int];
        let (st, projected) = spec_project_step(cx, st, *step, source, binding_type, span);
        spec_project_binding(cx, st, steps, next(index), projected, binding_type, span)
    }
}

impl Builder {
    /// The part that the steps of a pattern from `index` on lead to.
    pub(crate) fn project_binding(
        &mut self,
        cx: &Context,
        steps: &Vec<HirPatternProjection>,
        index: usize,
        source: BindingSource,
        binding_type: &Type,
        span: Span,
    ) -> (r: BindingSource)
        ensures
            (final(self)@, r) == spec_project_binding(
                cx,
                old(self)@,
                steps,
                index,
                source,
                binding_type,
                span,
            ),
        decreases steps@.len() - index,
    {
        proof {
            reveal_with_fuel(spec_project_binding, 2);
        }
        if index >= steps.len() {
            return source;
        }
        let step = &steps[index];
        let projected = self.project_step(cx, *step, source, binding_type, span);
        self.project_binding(cx, steps, next(index), projected, binding_type, span)
    }
}

/// The local that a binding fills. One that is not lowered yet becomes a new local.
#[verifier::opaque]
pub open spec fn spec_binding_local(
    cx: &Context,
    st: State,
    id: HirLocalId,
) -> (State, Option<LocalId>) {
    let lowered = spec_lowered_local(st, id);
    if lowered.is_some() {
        (st, lowered)
    } else {
        match cx.hir_local(id) {
            Some(declared) => {
                let (st, local) = spec_add_local(
                    st,
                    declared.name,
                    declared.ty.dup(),
                    declared.mutable,
                    false,
                    declared.origin,
                );
                let st = spec_bind_hir(st, id, local);
                (st, Some(local))
            },
            _ => (st, None),
        }
    }
}

impl Builder {
    /// The local that a binding fills. One that is not lowered yet becomes a new local.
    pub(crate) fn binding_local(&mut self, cx: &Context, id: HirLocalId) -> (r: Option<LocalId>)
        ensures
            (final(self)@, r) == spec_binding_local(cx, old(self)@, id),
    {
        proof {
            reveal(spec_binding_local);
        }
        let lowered = self.lowered_local(id);
        if lowered.is_some() {
            return lowered;
        }
        let Some(declared) = cx.hir_local(id) else {
            return None;
        };
        let local = self.add_local(
            declared.name,
            declared.ty.dup(),
            declared.mutable,
            false,
            declared.origin,
        );
        self.bind_hir(id, local);
        Some(local)
    }
}

/// What a binding is filled with.
#[verifier::allow_in_spec]
pub fn binding_value(source: Place, rest: Option<u32>, ty: &Type) -> (r: Rvalue)
    returns
        match rest {
            Some(first) => {
                Rvalue::RawOperation {
                    operation: RawOperation::BindingRest,
                    operands: cons(Operand::Copy(source), one(usize_constant(first as i128))),
                    ty: ty.dup(),
                }
            },
            None => Rvalue::Use(Operand::Move(source)),
        },
{
    match rest {
        Some(first) => Rvalue::RawOperation {
            operation: RawOperation::BindingRest,
            operands: cons(Operand::Copy(source), one(usize_constant(first as i128))),
            ty: ty.dup(),
        },
        None => Rvalue::Use(Operand::Move(source)),
    }
}

/// The default of a binding.
#[verifier::opaque]
pub open spec fn spec_default_value(
    cx: &Context,
    st: State,
    default: Span,
    ty: &Type,
    low: Lowering,
) -> (State, Value) {
    match cx.token_range_for_bytes(default.byte_start, default.byte_end) {
        Some(range) => {
            let (st, attempt) = (low.expression)(cx, st, range.start, range.end, Some(ty));
            match attempt {
                Some(value) => {
                    (st, value)
                },
                _ => (st, Value { operand: undefined(ty.dup()), ty: ty.dup() }),
            }
        },
        _ => (st, Value { operand: undefined(ty.dup()), ty: ty.dup() }),
    }
}

impl Builder {
    /// The default of a binding.
    pub(crate) fn default_value(
        &mut self,
        cx: &Context,
        default: Span,
        ty: &Type,
        limit: usize,
    ) -> (r: Value)
        ensures
            (final(self)@, r) == spec_default_value(
                cx,
                old(self)@,
                default,
                ty,
                lowering(limit as nat),
            ),
        decreases limit, 1nat, 0nat,
    {
        proof {
            reveal(spec_default_value);
        }
        let Some(range) = cx.token_range_for_bytes(default.byte_start, default.byte_end) else {
            return Value { operand: undefined(ty.dup()), ty: ty.dup() };
        };
        let Some(value) = self.expression(cx, range.start, range.end, Some(ty), limit) else {
            return Value { operand: undefined(ty.dup()), ty: ty.dup() };
        };
        value
    }
}

/// A binding with a default: the part if it is present, or else the default.
#[verifier::opaque]
pub open spec fn spec_lower_binding_default(
    cx: &Context,
    st: State,
    destination: LocalId,
    source: Place,
    ty: &Type,
    default: Span,
    span: Span,
    low: Lowering,
) -> State {
    let (st, present) = spec_new_block(st);
    let (st, fallback) = spec_new_block(st);
    let (st, join) = spec_new_block(st);
    let st = spec_branch(st, Operand::Copy(source.dup()), present, fallback, span);
    let st = State { current: present, ..st };
    let st = spec_assign(
        st,
        destination,
        Rvalue::Use(Operand::Move(source.step(Projection::Downcast(1)))),
        span,
    );
    let st = spec_terminate(st, TerminatorKind::Goto(join), span);
    let st = State { current: fallback, ..st };
    let position: usize = st.index;
    let (st, value) = spec_default_value(cx, st, default, ty, low);
    let st = State { index: position, ..st };
    let st = spec_assign(st, destination, converted(value.operand, &value.ty, ty), span);
    let st = spec_terminate(st, TerminatorKind::Goto(join), span);
    let st = State { current: join, ..st };
    st
}

impl Builder {
    /// A binding with a default: the part if it is present, or else the default.
    pub(crate) fn lower_binding_default(
        &mut self,
        cx: &Context,
        destination: LocalId,
        source: Place,
        ty: &Type,
        default: Span,
        span: Span,
        limit: usize,
    )
        ensures
            final(self)@ == spec_lower_binding_default(
                cx,
                old(self)@,
                destination,
                source,
                ty,
                default,
                span,
                lowering(limit as nat),
            ),
        decreases limit, 2nat, 0nat,
    {
        proof {
            reveal(spec_lower_binding_default);
        }
        let present = self.new_block();
        let fallback = self.new_block();
        let join = self.new_block();
        self.branch(Operand::Copy(source.dup()), present, fallback, span);
        self.current = present;
        self.assign(
            destination,
            Rvalue::Use(Operand::Move(source.step(Projection::Downcast(1)))),
            span,
        );
        self.terminate(TerminatorKind::Goto(join), span);
        self.current = fallback;
        let position: usize = self.index;
        let value = self.default_value(cx, default, ty, limit);
        self.index = position;
        self.assign(destination, converted(value.operand, &value.ty, ty), span);
        self.terminate(TerminatorKind::Goto(join), span);
        self.current = join;
    }
}

/// One binding of a pattern.
#[verifier::opaque]
pub open spec fn spec_lower_binding(
    cx: &Context,
    st: State,
    binding: &HirPatternBinding,
    root: LocalId,
    root_type: &Type,
    low: Lowering,
) -> State {
    let (st, attempt) = spec_binding_local(cx, st, binding.local);
    match attempt {
        Some(destination) => {
            let span = cx.span_from_hir_local(binding.local);
            let st = spec_statement(st, StatementKind::StorageLive(destination), span);
            let (st, source) = spec_project_binding(
                cx,
                st,
                &binding.projection,
                0,
                BindingSource { place: whole(root), ty: root_type.dup(), rest: None },
                &binding.ty,
                span,
            );
            match (source.ty, binding.default) {
                (Type::Optional(inner), Some(default)) => {
                    spec_lower_binding_default(
                        cx,
                        st,
                        destination,
                        source.place,
                        &inner,
                        default,
                        span,
                        low,
                    )
                },
                _ => {
                    spec_assign(
                        st,
                        destination,
                        binding_value(source.place, source.rest, &binding.ty),
                        span,
                    )
                },
            }
        },
        _ => st,
    }
}

impl Builder {
    /// One binding of a pattern.
    pub(crate) fn lower_binding(
        &mut self,
        cx: &Context,
        binding: &HirPatternBinding,
        root: LocalId,
        root_type: &Type,
        limit: usize,
    )
        ensures
            final(self)@ == spec_lower_binding(
                cx,
                old(self)@,
                binding,
                root,
                root_type,
                lowering(limit as nat),
            ),
        decreases limit, 3nat, 0nat,
    {
        proof {
            reveal(spec_lower_binding);
        }
        let Some(destination) = self.binding_local(cx, binding.local) else {
            return;
        };
        let span = cx.span_from_hir_local(binding.local);
        self.statement(StatementKind::StorageLive(destination), span);
        let source = self.project_binding(
            cx,
            &binding.projection,
            0,
            BindingSource { place: whole(root), ty: root_type.dup(), rest: None },
            &binding.ty,
            span,
        );
        match (source.ty, binding.default) {
            (Type::Optional(inner), Some(default)) => {
                self.lower_binding_default(
                    cx,
                    destination,
                    source.place,
                    &inner,
                    default,
                    span,
                    limit,
                );
            },
            _ => {
                self.assign(
                    destination,
                    binding_value(source.place, source.rest, &binding.ty),
                    span,
                );
            },
        }
    }
}

/// The bindings of a pattern from `index` on.
#[verifier::opaque]
pub open spec fn spec_lower_bindings(
    cx: &Context,
    st: State,
    bindings: &Vec<HirPatternBinding>,
    root: LocalId,
    root_type: &Type,
    index: usize,
    low: Lowering,
) -> State
    decreases bindings@.len() - index,
{
    if index < bindings.len() {
        let st = spec_lower_binding(cx, st, &bindings[index as int], root, root_type, low);
        spec_lower_bindings(cx, st, bindings, root, root_type, next(index), low)
    } else {
        st
    }
}

impl Builder {
    /// The bindings of a pattern from `index` on.
    pub(crate) fn lower_bindings(
        &mut self,
        cx: &Context,
        bindings: &Vec<HirPatternBinding>,
        root: LocalId,
        root_type: &Type,
        index: usize,
        limit: usize,
    )
        ensures
            final(self)@ == spec_lower_bindings(
                cx,
                old(self)@,
                bindings,
                root,
                root_type,
                index,
                lowering(limit as nat),
            ),
        decreases limit, 4nat, bindings@.len() - index,
    {
        proof {
            reveal_with_fuel(spec_lower_bindings, 2);
        }
        if index < bindings.len() {
            self.lower_binding(cx, &bindings[index], root, root_type, limit);
            self.lower_bindings(cx, bindings, root, root_type, next(index), limit);
        }
    }
}

/// The pattern takes its root apart.
#[verifier::opaque]
pub open spec fn spec_lower_binding_pattern(
    cx: &Context,
    st: State,
    pattern: &HirBindingPattern,
    low: Lowering,
) -> State {
    match spec_lowered_local(st, pattern.root) {
        Some(root) => {
            let root_type = match cx.hir_local(pattern.root) {
                Some(local) => local.ty.dup(),
                None => Type::Error,
            };
            spec_lower_bindings(cx, st, &pattern.bindings, root, &root_type, 0, low)
        },
        _ => st,
    }
}

impl Builder {
    /// The pattern takes its root apart.
    pub(crate) fn lower_binding_pattern(
        &mut self,
        cx: &Context,
        pattern: &HirBindingPattern,
        limit: usize,
    )
        ensures
            final(self)@ == spec_lower_binding_pattern(
                cx,
                old(self)@,
                pattern,
                lowering(limit as nat),
            ),
        decreases limit, 5nat, 0nat,
    {
        proof {
            reveal(spec_lower_binding_pattern);
        }
        let Some(root) = self.lowered_local(pattern.root) else {
            return;
        };
        let root_type = match cx.hir_local(pattern.root) {
            Some(local) => local.ty.dup(),
            None => Type::Error,
        };
        self.lower_bindings(cx, &pattern.bindings, root, &root_type, 0, limit);
    }
}

/// The patterns from `index` on whose roots are lowered take them apart.
#[verifier::opaque]
pub open spec fn spec_lower_parameter_bindings(
    cx: &Context,
    st: State,
    patterns: &Vec<HirBindingPattern>,
    index: usize,
    low: Lowering,
) -> State
    decreases patterns@.len() - index,
{
    if index < patterns.len() {
        let st = spec_lower_binding_pattern(cx, st, &patterns[index as int], low);
        spec_lower_parameter_bindings(cx, st, patterns, next(index), low)
    } else {
        st
    }
}

impl Builder {
    /// The patterns from `index` on whose roots are lowered take them apart.
    pub(crate) fn lower_parameter_bindings(
        &mut self,
        cx: &Context,
        patterns: &Vec<HirBindingPattern>,
        index: usize,
        limit: usize,
    )
        ensures
            final(self)@ == spec_lower_parameter_bindings(
                cx,
                old(self)@,
                patterns,
                index,
                lowering(limit as nat),
            ),
        decreases limit, 6nat, patterns@.len() - index,
    {
        proof {
            reveal_with_fuel(spec_lower_parameter_bindings, 2);
        }
        if index < patterns.len() {
            self.lower_binding_pattern(cx, &patterns[index], limit);
            self.lower_parameter_bindings(cx, patterns, next(index), limit);
        }
    }
}

/// The part of a scrutinee that the steps of a pattern from `index` on lead to.
pub open spec fn spec_payload_place(
    cx: &Context,
    steps: &Vec<HirPatternProjection>,
    index: usize,
    source: Place,
    scrutinee_type: &Type,
    binding_type: &Type,
) -> Place
    decreases steps@.len() - index,
{
    if index >= steps.len() {
        source
    } else {
        let step = &steps[index as int];
        let place = match *step {
            HirPatternProjection::Variant(constructor) => {
                match variant_index(
                    cx.program,
                    scrutinee_type,
                    constructor,
                ) {
                    Some(variant) => source.step(Projection::Downcast(variant)),
                    None => source,
                }
            },
            HirPatternProjection::Field(field) => {
                source.step(
                    Projection::Field { index: field as usize, ty: binding_type.dup() },
                )
            },
            HirPatternProjection::OptionalPayload => source.step(Projection::Downcast(1)),
            HirPatternProjection::Index(_) => source,
            HirPatternProjection::Rest(_) => source,
        };
        spec_payload_place(cx, steps, next(index), place, scrutinee_type, binding_type)
    }
}

/// The part of a scrutinee that the steps of a pattern from `index` on lead to.
#[verifier::allow_in_spec]
pub fn payload_place(
    cx: &Context,
    steps: &Vec<HirPatternProjection>,
    index: usize,
    source: Place,
    scrutinee_type: &Type,
    binding_type: &Type,
) -> (r: Place)
    returns
        spec_payload_place(cx, steps, index, source, scrutinee_type, binding_type),
    decreases steps@.len() - index,
{
    proof {
        reveal_with_fuel(spec_payload_place, 2);
    }
    if index >= steps.len() {
        return source;
    }
    let step = &steps[index];
    let place = match *step {
        HirPatternProjection::Variant(constructor) => match variant_index(
            cx.program,
            scrutinee_type,
            constructor,
        ) {
            Some(variant) => source.step(Projection::Downcast(variant)),
            None => source,
        },
        HirPatternProjection::Field(field) => source.step(
            Projection::Field { index: field as usize, ty: binding_type.dup() },
        ),
        HirPatternProjection::OptionalPayload => source.step(Projection::Downcast(1)),
        HirPatternProjection::Index(_) => source,
        HirPatternProjection::Rest(_) => source,
    };
    payload_place(cx, steps, next(index), place, scrutinee_type, binding_type)
}

/// One binding of a switch arm.
#[verifier::opaque]
pub open spec fn spec_bind_payload(
    cx: &Context,
    st: State,
    binding: &HirPatternBinding,
    scrutinee: &Place,
    scrutinee_type: &Type,
) -> State {
    match cx.hir_local(binding.local) {
        Some(declared) => {
            let (st, local) = spec_add_local(
                st,
                declared.name,
                binding.ty.dup(),
                false,
                false,
                declared.origin,
            );
            let st = spec_bind_hir(st, binding.local, local);
            let st = spec_statement(st, StatementKind::StorageLive(local), declared.origin);
            let source = spec_payload_place(
                cx,
                &binding.projection,
                0,
                scrutinee.dup(),
                scrutinee_type,
                &binding.ty,
            );
            spec_assign(st, local, Rvalue::Use(Operand::Copy(source)), declared.origin)
        },
        _ => st,
    }
}

impl Builder {
    /// One binding of a switch arm.
    pub(crate) fn bind_payload(
        &mut self,
        cx: &Context,
        binding: &HirPatternBinding,
        scrutinee: &Place,
        scrutinee_type: &Type,
    )
        ensures
            final(self)@ == spec_bind_payload(
                cx,
                old(self)@,
                binding,
                scrutinee,
                scrutinee_type,
            ),
    {
        proof {
            reveal(spec_bind_payload);
        }
        let Some(declared) = cx.hir_local(binding.local) else {
            return;
        };
        let local = self.add_local(declared.name, binding.ty.dup(), false, false, declared.origin);
        self.bind_hir(binding.local, local);
        self.statement(StatementKind::StorageLive(local), declared.origin);
        let source = payload_place(
            cx,
            &binding.projection,
            0,
            scrutinee.dup(),
            scrutinee_type,
            &binding.ty,
        );
        self.assign(local, Rvalue::Use(Operand::Copy(source)), declared.origin);
    }
}

/// The bindings of a switch arm from `index` on.
#[verifier::opaque]
pub open spec fn spec_bind_match_payload(
    cx: &Context,
    st: State,
    bindings: &Vec<HirPatternBinding>,
    index: usize,
    scrutinee: &Place,
    scrutinee_type: &Type,
) -> State
    decreases bindings@.len() - index,
{
    if index < bindings.len() {
        let st = spec_bind_payload(cx, st, &bindings[index as int], scrutinee, scrutinee_type);
        spec_bind_match_payload(cx, st, bindings, next(index), scrutinee, scrutinee_type)
    } else {
        st
    }
}

impl Builder {
    /// The bindings of a switch arm from `index` on.
    pub(crate) fn bind_match_payload(
        &mut self,
        cx: &Context,
        bindings: &Vec<HirPatternBinding>,
        index: usize,
        scrutinee: &Place,
        scrutinee_type: &Type,
    )
        ensures
            final(self)@ == spec_bind_match_payload(
                cx,
                old(self)@,
                bindings,
                index,
                scrutinee,
                scrutinee_type,
            ),
        decreases bindings@.len() - index,
    {
        proof {
            reveal_with_fuel(spec_bind_match_payload, 2);
        }
        if index < bindings.len() {
            self.bind_payload(cx, &bindings[index], scrutinee, scrutinee_type);
            self.bind_match_payload(cx, bindings, next(index), scrutinee, scrutinee_type);
        }
    }
}

} // verus!
