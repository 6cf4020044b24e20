//! Members, elements and chains of them.

use vstd::prelude::*;

use crate::hir::{
    same_type, DeclarationId, MemberId, PrimitiveType, Program, ReceiverMode, ResolvedValue, Type,
};
use crate::list::{one, List};
use crate::lowering::bindings::undefined;
use crate::lowering::builder::{
    spec_bind_receiver, spec_new_block, spec_receiver_of, spec_terminate, Builder, State,
};
use crate::lowering::calls::{spec_lower_call_arguments, spec_lower_enum_variant};
use crate::lowering::context::{behind, next, Context};
use crate::lowering::emit::{
    spec_assign, spec_borrowed, spec_branch, spec_computed, spec_continue_at, spec_emit_call,
    spec_live, spec_materialize_operand, spec_wrapped, Value,
};
use crate::lowering::members::{
    class_vtable_slot, direct_method, enum_variant, field_index, interface_witness_slot,
    is_static_method, method_has_decorator, method_owner, method_receiver, resolved_field_type,
};
use crate::lowering::recursion::{lowering, Lowering};
use crate::lowering::types::{bind_generics, primitive, reference, substitute_mir_type, Bindable};
use crate::mir::{
    operand_place, whole, Constant, Operand, Place, Projection, RawOperation, Rvalue,
    TerminatorKind,
};
use crate::program::is_intrinsic_type;
use crate::syntax::TokenKind;

verus! {

/// The type whose members a value has: its own, or that of what it refers to.
#[verifier::opaque]
pub open spec fn spec_accessed_type(ty: &Type) -> &Type {
    match ty {
        Type::Reference { referent, .. } => referent,
        other => other,
    }
}

/// The type whose members a value has: its own, or that of what it refers to.
#[verifier::allow_in_spec]
pub fn accessed_type(ty: &Type) -> (r: &Type)
    returns
        spec_accessed_type(ty),
{
    proof {
        reveal(spec_accessed_type);
    }
    match ty {
        Type::Reference { referent, .. } => referent,
        other => other,
    }
}

/// Whether a type is a reference, and then whether it is a mutable one.
#[verifier::allow_in_spec]
pub fn reference_mode(ty: &Type) -> (r: Option<bool>)
    returns
        match ty {
            Type::Reference { mutable, .. } => Some(*mutable),
            _ => None,
        },
{
    match ty {
        Type::Reference { mutable, .. } => Some(*mutable),
        _ => None,
    }
}

/// The type of a member in a value whose type has arguments.
#[verifier::allow_in_spec]
pub fn specialize_member_type(program: &Program, owner: &Type, member_type: Type) -> (r: Type)
    returns
        match owner {
            Type::Nominal(declaration, arguments) => {
                match program.definition(*declaration) {
                    Some(definition) => {
                        substitute_mir_type(
                            &member_type,
                            &bind_generics(
                                &definition.generics,
                                arguments,
                                Bindable::Types,
                                List::Nil,
                            ),
                        )
                    },
                    None => member_type,
                }
            },
            _ => member_type,
        },
{
    match owner {
        Type::Nominal(declaration, arguments) => match program.definition(*declaration) {
            Some(definition) => substitute_mir_type(
                &member_type,
                &bind_generics(&definition.generics, arguments, Bindable::Types, List::Nil),
            ),
            None => member_type,
        },
        _ => member_type,
    }
}

/// A method that is known when the code is compiled.
#[verifier::allow_in_spec]
pub fn direct_lookup(
    program: &Program,
    object: Place,
    member: MemberId,
    ty: &Type,
) -> (r: Option<Rvalue>)
    returns
        match direct_method(program, member) {
            Some(site) => {
                Some(
                    Rvalue::DirectMethod {
                        object,
                        implementation: site.owner,
                        member,
                        receiver: site.receiver,
                        ty: ty.dup(),
                    },
                )
            },
            None => None,
        },
{
    match direct_method(program, member) {
        Some(site) => Some(
            Rvalue::DirectMethod {
                object,
                implementation: site.owner,
                member,
                receiver: site.receiver,
                ty: ty.dup(),
            },
        ),
        None => None,
    }
}

/// The slot of a method that is looked up in the table of its class.
#[verifier::allow_in_spec]
pub fn virtual_slot(
    program: &Program,
    class: DeclarationId,
    member: MemberId,
) -> (r: Option<usize>)
    returns
        if method_has_decorator(program, class, member) {
            None
        } else {
            class_vtable_slot(program, class, member)
        },
{
    if method_has_decorator(program, class, member) {
        None
    } else {
        class_vtable_slot(program, class, member)
    }
}

/// How a method of a value is found: in the table of its class or interface, or directly.
#[verifier::opaque]
pub open spec fn spec_method_lookup(
    program: &Program,
    access: &Type,
    object: Place,
    member: MemberId,
    receiver: ReceiverMode,
    ty: &Type,
) -> Option<Rvalue> {
    match access {
        Type::Nominal(class, _) => {
            match virtual_slot(program, *class, member) {
                Some(slot) => {
                    Some(
                        Rvalue::VtableLookup {
                            object,
                            implementation: *class,
                            member,
                            slot,
                            receiver,
                            ty: ty.dup(),
                        },
                    )
                },
                None => direct_lookup(program, object, member, ty),
            }
        },
        other => {
            if is_intrinsic_type(program, other) {
                direct_lookup(program, object, member, ty)
            } else {
                match other {
                    Type::DynamicInterface(interface, _) => {
                        match interface_witness_slot(
                            program,
                            *interface,
                            member,
                        ) {
                            Some(slot) => {
                                Some(
                                    Rvalue::WitnessLookup {
                                        object,
                                        interface: *interface,
                                        slot,
                                        receiver,
                                        ty: ty.dup(),
                                    },
                                )
                            },
                            None => None,
                        }
                    },
                    _ => None,
                }
            }
        },
    }
}

/// How a method of a value is found: in the table of its class or interface, or directly.
#[verifier::allow_in_spec]
pub fn method_lookup(
    program: &Program,
    access: &Type,
    object: Place,
    member: MemberId,
    receiver: ReceiverMode,
    ty: &Type,
) -> (r: Option<Rvalue>)
    returns
        spec_method_lookup(program, access, object, member, receiver, ty),
{
    proof {
        reveal(spec_method_lookup);
    }
    match access {
        Type::Nominal(class, _) => match virtual_slot(program, *class, member) {
            Some(slot) => Some(
                Rvalue::VtableLookup {
                    object,
                    implementation: *class,
                    member,
                    slot,
                    receiver,
                    ty: ty.dup(),
                },
            ),
            None => direct_lookup(program, object, member, ty),
        },
        other => {
            if is_intrinsic_type(program, other) {
                return direct_lookup(program, object, member, ty);
            }
            match other {
                Type::DynamicInterface(interface, _) => match interface_witness_slot(
                    program,
                    *interface,
                    member,
                ) {
                    Some(slot) => Some(
                        Rvalue::WitnessLookup {
                            object,
                            interface: *interface,
                            slot,
                            receiver,
                            ty: ty.dup(),
                        },
                    ),
                    None => None,
                },
                _ => None,
            }
        },
    }
}

/// What a reference leads to, or else the place itself.
#[verifier::opaque]
pub open spec fn spec_dereferenced(place: Place, is_reference: bool) -> Place {
    if is_reference {
        place.step(Projection::Dereference)
    } else {
        place
    }
}

/// What a reference leads to, or else the place itself.
#[verifier::allow_in_spec]
pub fn dereferenced(place: Place, is_reference: bool) -> (r: Place)
    returns
        spec_dereferenced(place, is_reference),
{
    proof {
        reveal(spec_dereferenced);
    }
    if is_reference {
        place.step(Projection::Dereference)
    } else {
        place
    }
}

/// A method of a value, bound to the value.
#[verifier::opaque]
pub open spec fn spec_lower_bound_method(
    cx: &Context,
    st: State,
    owner: Value,
    member: MemberId,
    receiver: ReceiverMode,
    ty: Type,
    token: usize,
) -> (State, Option<Value>) {
    let span = cx.span_at(token);
    let access = spec_accessed_type(&owner.ty).dup();
    let is_reference = reference_mode(&owner.ty).is_some();
    let (st, held) = spec_materialize_operand(st, owner.operand, owner.ty, span);
    let object = spec_dereferenced(held, is_reference);
    match spec_method_lookup(cx.program, &access, object.dup(), member, receiver, &ty) {
        Some(lookup) => {
            let (st, local) = spec_live(st, ty.dup(), span);
            let st = spec_assign(st, local, lookup, span);
            let bound = if receiver == ReceiverMode::Move {
                Operand::Move(object)
            } else {
                Operand::Copy(object)
            };
            let st = spec_bind_receiver(st, local, bound);
            (st, Some(Value { operand: Operand::Move(whole(local)), ty }))
        },
        _ => (st, None),
    }
}

impl Builder {
    /// A method of a value, bound to the value.
    pub(crate) fn lower_bound_method(
        &mut self,
        cx: &Context,
        owner: Value,
        member: MemberId,
        receiver: ReceiverMode,
        ty: Type,
        token: usize,
    ) -> (r: Option<Value>)
        ensures
            (final(self)@, r) == spec_lower_bound_method(
                cx,
                old(self)@,
                owner,
                member,
                receiver,
                ty,
                token,
            ),
    {
        proof {
            reveal(spec_lower_bound_method);
        }
        let span = cx.span_at(token);
        let access = accessed_type(&owner.ty).dup();
        let is_reference = reference_mode(&owner.ty).is_some();
        let held = self.materialize_operand(owner.operand, owner.ty, span);
        let object = dereferenced(held, is_reference);
        let Some(lookup) = method_lookup(
            cx.program,
            &access,
            object.dup(),
            member,
            receiver,
            &ty,
        ) else {
            return None;
        };
        let local = self.live(ty.dup(), span);
        self.assign(local, lookup, span);
        let bound = if receiver == ReceiverMode::Move {
            Operand::Move(object)
        } else {
            Operand::Copy(object)
        };
        self.bind_receiver(local, bound);
        Some(Value { operand: Operand::Move(whole(local)), ty })
    }
}

/// How a field of a referenced value is used.
#[derive(Clone, Copy, Debug, PartialEq, Eq, Structural)]
pub enum FieldUse {
    Value,
    Reborrow { mutable: bool },
    OptionalReborrow { mutable: bool },
}

/// Whether a type is a reference to another, and then whether it is a mutable one.
#[verifier::allow_in_spec]
pub fn refers_to(ty: &Type, referent: &Type) -> (r: Option<bool>)
    returns
        match ty {
            Type::Reference { mutable, referent: target, .. } => {
                if same_type(target, referent) {
                    Some(*mutable)
                } else {
                    None
                }
            },
            _ => None,
        },
{
    match ty {
        Type::Reference { mutable, referent: target, .. } => {
            if same_type(target, referent) {
                Some(*mutable)
            } else {
                None
            }
        },
        _ => None,
    }
}

/// Whether a type is an optional reference to what another optionally is, and then whether it is
/// a mutable one.
#[verifier::allow_in_spec]
pub fn optionally_refers_to(ty: &Type, field: &Type) -> (r: Option<bool>)
    returns
        match (ty, field) {
            (Type::Optional(value), Type::Optional(held)) => refers_to(value, held),
            _ => None,
        },
{
    match (ty, field) {
        (Type::Optional(value), Type::Optional(held)) => refers_to(value, held),
        _ => None,
    }
}

/// How a field is used as a member of a type. Only a field of a referenced value is reborrowed,
/// and mutably only through a mutable reference.
#[verifier::allow_in_spec]
pub fn field_use(owner: Option<bool>, field: &Type, member: &Type) -> (r: FieldUse)
    returns
        match owner {
            Some(owner_mutable) => {
                match optionally_refers_to(member, field) {
                    Some(mutable) => {
                        FieldUse::OptionalReborrow { mutable: mutable && owner_mutable }
                    },
                    None => {
                        match refers_to(member, field) {
                            Some(mutable) => {
                                FieldUse::Reborrow { mutable: mutable && owner_mutable }
                            },
                            None => FieldUse::Value,
                        }
                    },
                }
            },
            None => FieldUse::Value,
        },
{
    match owner {
        Some(owner_mutable) => match optionally_refers_to(member, field) {
            Some(mutable) => FieldUse::OptionalReborrow { mutable: mutable && owner_mutable },
            None => match refers_to(member, field) {
                Some(mutable) => FieldUse::Reborrow { mutable: mutable && owner_mutable },
                None => FieldUse::Value,
            },
        },
        None => FieldUse::Value,
    }
}

/// A field of a value.
#[verifier::opaque]
pub open spec fn spec_lower_field_member_from(
    cx: &Context,
    st: State,
    owner: Value,
    member: MemberId,
    member_type: Type,
    token: usize,
) -> (State, Option<Value>) {
    let mode = reference_mode(&owner.ty);
    let access = spec_accessed_type(&owner.ty).dup();
    match operand_place(owner.operand) {
        Some(place) => {
            match field_index(cx.program, &access, member) {
                Some(index) => {
                    match resolved_field_type(cx.program, &access, member) {
                        Some(field_type) => {
                            let field = spec_dereferenced(place, mode.is_some()).step(
                                Projection::Field { index, ty: field_type.dup() },
                            );
                            match field_use(mode, &field_type, &member_type) {
                                FieldUse::OptionalReborrow { mutable } => {
                                    spec_lower_optional_field_reborrow(
                                        cx,
                                        st,
                                        field,
                                        member_type,
                                        mutable,
                                        token,
                                    )
                                },
                                FieldUse::Reborrow { mutable } => {
                                    let (st, operand) = spec_borrowed(
                                        st,
                                        member_type.dup(),
                                        mutable,
                                        field,
                                        cx.span_at(token),
                                    );
                                    (st, Some(Value { operand, ty: member_type }))
                                },
                                FieldUse::Value => {
                                    let operand = if cx.facts.is_copy(&member_type) {
                                        Operand::Copy(field)
                                    } else {
                                        Operand::Move(field)
                                    };
                                    (st, Some(Value { operand, ty: member_type }))
                                },
                            }
                        },
                        _ => (st, None),
                    }
                },
                _ => (st, None),
            }
        },
        _ => (st, None),
    }
}

impl Builder {
    /// A field of a value.
    pub(crate) fn lower_field_member_from(
        &mut self,
        cx: &Context,
        owner: Value,
        member: MemberId,
        member_type: Type,
        token: usize,
    ) -> (r: Option<Value>)
        ensures
            (final(self)@, r) == spec_lower_field_member_from(
                cx,
                old(self)@,
                owner,
                member,
                member_type,
                token,
            ),
    {
        proof {
            reveal(spec_lower_field_member_from);
        }
        let mode = reference_mode(&owner.ty);
        let access = accessed_type(&owner.ty).dup();
        let Some(place) = operand_place(owner.operand) else {
            return None;
        };
        let Some(index) = field_index(cx.program, &access, member) else {
            return None;
        };
        let Some(field_type) = resolved_field_type(cx.program, &access, member) else {
            return None;
        };
        let field = dereferenced(place, mode.is_some()).step(
            Projection::Field { index, ty: field_type.dup() },
        );
        match field_use(mode, &field_type, &member_type) {
            FieldUse::OptionalReborrow { mutable } => {
                self.lower_optional_field_reborrow(cx, field, member_type, mutable, token)
            },
            FieldUse::Reborrow { mutable } => {
                let operand = self.borrowed(member_type.dup(), mutable, field, cx.span_at(token));
                Some(Value { operand, ty: member_type })
            },
            FieldUse::Value => {
                let operand = if cx.facts.is_copy(&member_type) {
                    Operand::Copy(field)
                } else {
                    Operand::Move(field)
                };
                Some(Value { operand, ty: member_type })
            },
        }
    }
}

/// A reference to what an optional field holds, if it holds anything.
#[verifier::opaque]
pub open spec fn spec_lower_optional_field_reborrow(
    cx: &Context,
    st: State,
    field: Place,
    result_type: Type,
    mutable: bool,
    token: usize,
) -> (State, Option<Value>) {
    let span = cx.span_at(token);
    match &result_type {
        Type::Optional(reference) => {
            let reference_type = reference.dup();
            let (st, destination) = spec_live(st, result_type.dup(), span);
            let (st, absent) = spec_new_block(st);
            let (st, present) = spec_new_block(st);
            let (st, join) = spec_new_block(st);
            let st = spec_branch(st, Operand::Copy(field.dup()), present, absent, span);
            let st = State { current: absent, ..st };
            let st = spec_assign(st, destination, Rvalue::Use(undefined(result_type.dup())), span);
            let st = spec_terminate(st, TerminatorKind::Goto(join), span);
            let st = State { current: present, ..st };
            let (st, borrow) = spec_borrowed(
                st, reference_type.dup(),
                mutable,
                field.step(Projection::Downcast(1)),
                span,
            );
            let st = spec_wrapped(st, destination, result_type.dup(), borrow, reference_type, span);
            let st = spec_terminate(st, TerminatorKind::Goto(join), span);
            let st = State { current: join, ..st };
            (st, Some(Value { operand: Operand::Move(whole(destination)), ty: result_type }))
        },
        _ => (st, None),
    }
}

impl Builder {
    /// A reference to what an optional field holds, if it holds anything.
    pub(crate) fn lower_optional_field_reborrow(
        &mut self,
        cx: &Context,
        field: Place,
        result_type: Type,
        mutable: bool,
        token: usize,
    ) -> (r: Option<Value>)
        ensures
            (final(self)@, r) == spec_lower_optional_field_reborrow(
                cx,
                old(self)@,
                field,
                result_type,
                mutable,
                token,
            ),
    {
        proof {
            reveal(spec_lower_optional_field_reborrow);
        }
        let span = cx.span_at(token);
        let reference_type = match &result_type {
            Type::Optional(reference) => reference.dup(),
            _ => {
                return None;
            },
        };
        let destination = self.live(result_type.dup(), span);
        let absent = self.new_block();
        let present = self.new_block();
        let join = self.new_block();
        self.branch(Operand::Copy(field.dup()), present, absent, span);
        self.current = absent;
        self.assign(destination, Rvalue::Use(undefined(result_type.dup())), span);
        self.terminate(TerminatorKind::Goto(join), span);
        self.current = present;
        let borrow = self.borrowed(
            reference_type.dup(),
            mutable,
            field.step(Projection::Downcast(1)),
            span,
        );
        self.wrapped(destination, result_type.dup(), borrow, reference_type, span);
        self.terminate(TerminatorKind::Goto(join), span);
        self.current = join;
        Some(Value { operand: Operand::Move(whole(destination)), ty: result_type })
    }
}

/// The way a member takes its object, if it is a method as a value.
#[verifier::allow_in_spec]
pub fn bound_mode(program: &Program, member: MemberId, ty: &Type) -> (r: Option<ReceiverMode>)
    returns
        match ty {
            Type::Function(_) => method_receiver(program, member),
            _ => None,
        },
{
    match ty {
        Type::Function(_) => method_receiver(program, member),
        _ => None,
    }
}

/// A member of a value.
#[verifier::opaque]
pub open spec fn spec_lower_member_from(
    cx: &Context,
    st: State,
    owner: Value,
    member: MemberId,
    member_type: Type,
    token: usize,
) -> (State, Option<Value>) {
    let ty = specialize_member_type(cx.program, spec_accessed_type(&owner.ty), member_type);
    match bound_mode(cx.program, member, &ty) {
        Some(receiver) => spec_lower_bound_method(cx, st, owner, member, receiver, ty, token),
        None => spec_lower_field_member_from(cx, st, owner, member, ty, token),
    }
}

impl Builder {
    /// A member of a value.
    pub(crate) fn lower_member_from(
        &mut self,
        cx: &Context,
        owner: Value,
        member: MemberId,
        member_type: Type,
        token: usize,
    ) -> (r: Option<Value>)
        ensures
            (final(self)@, r) == spec_lower_member_from(
                cx,
                old(self)@,
                owner,
                member,
                member_type,
                token,
            ),
    {
        proof {
            reveal(spec_lower_member_from);
        }
        let ty = specialize_member_type(cx.program, accessed_type(&owner.ty), member_type);
        match bound_mode(cx.program, member, &ty) {
            Some(receiver) => self.lower_bound_method(cx, owner, member, receiver, ty, token),
            None => self.lower_field_member_from(cx, owner, member, ty, token),
        }
    }
}

/// A method without an object.
#[verifier::allow_in_spec]
pub fn static_method(program: &Program, member: MemberId, ty: Type) -> (r: Option<Value>)
    returns
        match method_owner(program, member) {
            Some(owner) => {
                Some(
                    Value { operand: Operand::Constant(Constant::Method { owner, member, ty: ty.dup() }), ty },
                )
            },
            None => None,
        },
{
    match method_owner(program, member) {
        Some(owner) => Some(
            Value { operand: Operand::Constant(Constant::Method { owner, member, ty: ty.dup() }), ty },
        ),
        None => None,
    }
}

/// A member that an expression names, and its type.
pub struct NamedMember {
    pub member: MemberId,
    pub ty: Type,
}

/// The member that a range of tokens names. In an optional chain it has the type that it has
/// where the chain goes on.
#[verifier::opaque]
pub open spec fn spec_named_member(
    cx: &Context,
    start: usize,
    end: usize,
    optional: bool,
) -> Option<NamedMember> {
    match cx.hir_expression_range(start, end) {
        Some(expression) => {
            match expression.resolution {
                Some(ResolvedValue::Member(member)) => {
                    match &expression.optional_chain_value {
                        Some(ty) => {
                            if optional {
                                Some(NamedMember { member, ty: ty.dup() })
                            } else {
                                Some(NamedMember { member, ty: expression.ty.dup() })
                            }
                        },
                        None => Some(NamedMember { member, ty: expression.ty.dup() }),
                    }
                },
                _ => None,
            }
        },
        None => None,
    }
}

/// The member that a range of tokens names. In an optional chain it has the type that it has
/// where the chain goes on.
#[verifier::allow_in_spec]
pub fn named_member(
    cx: &Context,
    start: usize,
    end: usize,
    optional: bool,
) -> (r: Option<NamedMember>)
    returns
        spec_named_member(cx, start, end, optional),
{
    proof {
        reveal(spec_named_member);
    }
    match cx.hir_expression_range(start, end) {
        Some(expression) => match expression.resolution {
            Some(ResolvedValue::Member(member)) => match &expression.optional_chain_value {
                Some(ty) => {
                    if optional {
                        Some(NamedMember { member, ty: ty.dup() })
                    } else {
                        Some(NamedMember { member, ty: expression.ty.dup() })
                    }
                },
                None => Some(NamedMember { member, ty: expression.ty.dup() }),
            },
            _ => None,
        },
        None => None,
    }
}

/// Whether a member is a variant without fields.
#[verifier::allow_in_spec]
pub fn is_plain_variant(program: &Program, member: MemberId) -> (r: bool)
    returns
        match enum_variant(program, member) {
            Some(found) => found.variant.fields.len() == 0,
            None => false,
        },
{
    match enum_variant(program, member) {
        Some(found) => found.variant.fields.len() == 0,
        None => false,
    }
}

/// A member behind a dot.
#[verifier::opaque]
pub open spec fn spec_lower_field(
    cx: &Context,
    st: State,
    start: usize,
    dot: usize,
    end: usize,
    low: Lowering,
) -> (State, Option<Value>) {
    match spec_named_member(cx, start, end, false) {
        Some(named) => {
            if is_static_method(cx.program, named.member) {
                (st, static_method(cx.program, named.member, named.ty))
            } else if is_plain_variant(cx.program, named.member) {
                spec_lower_enum_variant(cx, st, start, end, end, named.member, low)
            } else {
                let (st, attempt) = (low.expression)(cx, st, start, dot, None);
                match attempt {
                    Some(owner) => {
                        spec_lower_member_from(cx, st, owner, named.member, named.ty, dot)
                    },
                    _ => (st, None),
                }
            }
        },
        _ => (st, None),
    }
}

impl Builder {
    /// A member behind a dot.
    pub(crate) fn lower_field(
        &mut self,
        cx: &Context,
        start: usize,
        dot: usize,
        end: usize,
        limit: usize,
    ) -> (r: Option<Value>)
        ensures
            (final(self)@, r) == spec_lower_field(
                cx,
                old(self)@,
                start,
                dot,
                end,
                lowering(limit as nat),
            ),
        decreases limit, 3nat, 0nat,
    {
        proof {
            reveal(spec_lower_field);
        }
        let Some(named) = named_member(cx, start, end, false) else {
            return None;
        };
        if is_static_method(cx.program, named.member) {
            return static_method(cx.program, named.member, named.ty);
        }
        if is_plain_variant(cx.program, named.member) {
            return self.lower_enum_variant(cx, start, end, end, named.member, limit);
        }
        let Some(owner) = self.expression(cx, start, dot, None, limit) else {
            return None;
        };
        self.lower_member_from(cx, owner, named.member, named.ty, dot)
    }
}

/// A member that a symbol in brackets names.
#[verifier::opaque]
pub open spec fn spec_lower_computed_member(
    cx: &Context,
    st: State,
    start: usize,
    open: usize,
    end: usize,
    low: Lowering,
) -> (State, Option<Value>) {
    match spec_named_member(cx, start, end, false) {
        Some(named) => {
            if is_static_method(cx.program, named.member) {
                (st, static_method(cx.program, named.member, named.ty))
            } else {
                let (st, attempt) = (low.expression)(cx, st, start, open, None);
                match attempt {
                    Some(owner) => {
                        spec_lower_member_from(
                            cx,
                            st,
                            owner,
                            named.member,
                            named.ty,
                            behind(open, 3),
                        )
                    },
                    _ => (st, None),
                }
            }
        },
        _ => (st, None),
    }
}

impl Builder {
    /// A member that a symbol in brackets names.
    pub(crate) fn lower_computed_member(
        &mut self,
        cx: &Context,
        start: usize,
        open: usize,
        end: usize,
        limit: usize,
    ) -> (r: Option<Value>)
        ensures
            (final(self)@, r) == spec_lower_computed_member(
                cx,
                old(self)@,
                start,
                open,
                end,
                lowering(limit as nat),
            ),
        decreases limit, 1nat, 0nat,
    {
        proof {
            reveal(spec_lower_computed_member);
        }
        let Some(named) = named_member(cx, start, end, false) else {
            return None;
        };
        if is_static_method(cx.program, named.member) {
            return static_method(cx.program, named.member, named.ty);
        }
        let Some(owner) = self.expression(cx, start, open, None, limit) else {
            return None;
        };
        self.lower_member_from(cx, owner, named.member, named.ty, behind(open, 3))
    }
}

/// The length of a string, in characters or in bytes.
#[verifier::opaque]
pub open spec fn spec_lower_string_size(
    cx: &Context,
    st: State,
    start: usize,
    end: usize,
    operation: RawOperation,
    low: Lowering,
) -> (State, Option<Value>) {
    match cx.find_top_level(start, end, TokenKind::Dot) {
        Some(dot) => {
            let (st, attempt) = (low.expression)(cx, st, start, dot, None);
            match attempt {
                Some(text) => {
                    let (st, receiver) = spec_materialize_operand(
                        st,
                        text.operand,
                        text.ty,
                        cx.span_at(dot),
                    );
                    let (st, operand) = spec_computed(
                        st, primitive(PrimitiveType::Usize),
                        Rvalue::RawOperation {
                            operation,
                            operands: one(Operand::Copy(receiver)),
                            ty: primitive(PrimitiveType::Usize),
                        },
                        cx.span_at(next(dot)),
                    );
                    (st, Some(Value { operand, ty: primitive(PrimitiveType::Usize) }))
                },
                _ => (st, None),
            }
        },
        _ => (st, None),
    }
}

impl Builder {
    /// The length of a string, in characters or in bytes.
    pub(crate) fn lower_string_size(
        &mut self,
        cx: &Context,
        start: usize,
        end: usize,
        operation: RawOperation,
        limit: usize,
    ) -> (r: Option<Value>)
        ensures
            (final(self)@, r) == spec_lower_string_size(
                cx,
                old(self)@,
                start,
                end,
                operation,
                lowering(limit as nat),
            ),
        decreases limit, 1nat, 0nat,
    {
        proof {
            reveal(spec_lower_string_size);
        }
        let Some(dot) = cx.find_top_level(start, end, TokenKind::Dot) else {
            return None;
        };
        let Some(text) = self.expression(cx, start, dot, None, limit) else {
            return None;
        };
        let receiver = self.materialize_operand(text.operand, text.ty, cx.span_at(dot));
        let operand = self.computed(
            primitive(PrimitiveType::Usize),
            Rvalue::RawOperation {
                operation,
                operands: one(Operand::Copy(receiver)),
                ty: primitive(PrimitiveType::Usize),
            },
            cx.span_at(next(dot)),
        );
        Some(Value { operand, ty: primitive(PrimitiveType::Usize) })
    }
}

/// The length of a string in characters.
#[verifier::opaque]
pub open spec fn spec_lower_string_length(
    cx: &Context,
    st: State,
    start: usize,
    end: usize,
    low: Lowering,
) -> (State, Option<Value>) {
    spec_lower_string_size(cx, st, start, end, RawOperation::StringScalarLength, low)
}

impl Builder {
    /// The length of a string in characters.
    pub(crate) fn lower_string_length(
        &mut self,
        cx: &Context,
        start: usize,
        end: usize,
        limit: usize,
    ) -> (r: Option<Value>)
        ensures
            (final(self)@, r) == spec_lower_string_length(
                cx,
                old(self)@,
                start,
                end,
                lowering(limit as nat),
            ),
        decreases limit, 2nat, 0nat,
    {
        proof {
            reveal(spec_lower_string_length);
        }
        self.lower_string_size(cx, start, end, RawOperation::StringScalarLength, limit)
    }
}

/// The length of a string in bytes.
#[verifier::opaque]
pub open spec fn spec_lower_string_byte_length(
    cx: &Context,
    st: State,
    start: usize,
    end: usize,
    low: Lowering,
) -> (State, Option<Value>) {
    spec_lower_string_size(cx, st, start, end, RawOperation::StringByteLength, low)
}

impl Builder {
    /// The length of a string in bytes.
    pub(crate) fn lower_string_byte_length(
        &mut self,
        cx: &Context,
        start: usize,
        end: usize,
        limit: usize,
    ) -> (r: Option<Value>)
        ensures
            (final(self)@, r) == spec_lower_string_byte_length(
                cx,
                old(self)@,
                start,
                end,
                lowering(limit as nat),
            ),
        decreases limit, 2nat, 0nat,
    {
        proof {
            reveal(spec_lower_string_byte_length);
        }
        self.lower_string_size(cx, start, end, RawOperation::StringByteLength, limit)
    }
}

/// The type of the elements of a sequence.
#[verifier::allow_in_spec]
pub fn element_type(ty: &Type) -> (r: Option<Type>)
    returns
        match ty {
            Type::Array(element, _) => Some(element.dup()),
            Type::Slice(element) => Some(element.dup()),
            _ => None,
        },
{
    match ty {
        Type::Array(element, _) => Some(element.dup()),
        Type::Slice(element) => Some(element.dup()),
        _ => None,
    }
}

/// The type of an element: the one that was checked, or that of the sequence's elements.
#[verifier::allow_in_spec]
pub fn indexed_type(cx: &Context, start: usize, end: usize, sequence: &Type) -> (r: Option<Type>)
    returns
        match cx.type_of_range(start, end) {
            Some(ty) => Some(ty),
            None => element_type(sequence),
        },
{
    match cx.type_of_range(start, end) {
        Some(ty) => Some(ty),
        None => element_type(sequence),
    }
}

/// The operand that an index is.
#[verifier::opaque]
pub open spec fn spec_lower_index_operand(
    cx: &Context,
    st: State,
    start: usize,
    end: usize,
    low: Lowering,
) -> (State, Option<Operand>) {
    let index_type = primitive(PrimitiveType::Usize);
    let (st, attempt) = (low.expression)(cx, st, start, end, Some(&index_type));
    match attempt {
        Some(value) => (st, Some(value.operand)),
        None => (st, None),
    }
}

impl Builder {
    /// The operand that an index is.
    pub(crate) fn lower_index_operand(
        &mut self,
        cx: &Context,
        start: usize,
        end: usize,
        limit: usize,
    ) -> (r: Option<Operand>)
        ensures
            (final(self)@, r) == spec_lower_index_operand(
                cx,
                old(self)@,
                start,
                end,
                lowering(limit as nat),
            ),
        decreases limit, 1nat, 0nat,
    {
        proof {
            reveal(spec_lower_index_operand);
        }
        let index_type = primitive(PrimitiveType::Usize);
        match self.expression(cx, start, end, Some(&index_type), limit) {
            Some(value) => Some(value.operand),
            None => None,
        }
    }
}

/// An element of a sequence.
#[verifier::opaque]
pub open spec fn spec_lower_index(
    cx: &Context,
    st: State,
    start: usize,
    open: usize,
    end: usize,
    low: Lowering,
) -> (State, Option<Value>) {
    let (st, attempt) = (low.expression)(cx, st, start, open, None);
    match attempt {
        Some(sequence) => {
            match operand_place(sequence.operand) {
                Some(place) => {
                    let collection = spec_dereferenced(
                        place,
                        reference_mode(&sequence.ty).is_some(),
                    );
                    let (st, attempt) = spec_lower_index_operand(
                        cx,
                        st,
                        next(open),
                        crate::lowering::context::before(end),
                        low,
                    );
                    match attempt {
                        Some(index) => {
                            match indexed_type(cx, start, end, spec_accessed_type(&sequence.ty)) {
                                Some(ty) => {
                                    let (st, operand) = spec_computed(
                                        st, ty.dup(),
                                        Rvalue::CheckedIndex { collection, index },
                                        cx.span_at(open),
                                    );
                                    (st, Some(Value { operand, ty }))
                                },
                                _ => (st, None),
                            }
                        },
                        _ => (st, None),
                    }
                },
                _ => (st, None),
            }
        },
        _ => (st, None),
    }
}

impl Builder {
    /// An element of a sequence.
    pub(crate) fn lower_index(
        &mut self,
        cx: &Context,
        start: usize,
        open: usize,
        end: usize,
        limit: usize,
    ) -> (r: Option<Value>)
        ensures
            (final(self)@, r) == spec_lower_index(
                cx,
                old(self)@,
                start,
                open,
                end,
                lowering(limit as nat),
            ),
        decreases limit, 2nat, 0nat,
    {
        proof {
            reveal(spec_lower_index);
        }
        let Some(sequence) = self.expression(cx, start, open, None, limit) else {
            return None;
        };
        let Some(place) = operand_place(sequence.operand) else {
            return None;
        };
        let collection = dereferenced(place, reference_mode(&sequence.ty).is_some());
        let Some(index) = self.lower_index_operand(
            cx,
            next(open),
            crate::lowering::context::before(end),
            limit,
        ) else {
            return None;
        };
        let Some(ty) = indexed_type(cx, start, end, accessed_type(&sequence.ty)) else {
            return None;
        };
        let operand = self.computed(
            ty.dup(),
            Rvalue::CheckedIndex { collection, index },
            cx.span_at(open),
        );
        Some(Value { operand, ty })
    }
}

/// A call in a chain.
#[verifier::opaque]
pub open spec fn spec_lower_chained_call(
    cx: &Context,
    st: State,
    callee: Value,
    open: usize,
    close: usize,
    low: Lowering,
) -> (State, Option<Value>) {
    match callee.ty {
        Type::Function(signature) => {
            let (st, attempt) = spec_lower_call_arguments(
                cx,
                st,
                &cx.argument_ranges(next(open), close),
                &signature.parameters,
                low,
            );
            match attempt {
                Some(arguments) => {
                    let receiver = spec_receiver_of(st, &callee.operand);
                    spec_emit_call(
                        cx,
                        st,
                        callee.operand,
                        receiver,
                        &signature,
                        arguments.operands,
                        open,
                    )
                },
                _ => (st, None),
            }
        },
        _ => (st, None),
    }
}

impl Builder {
    /// A call in a chain.
    pub(crate) fn lower_chained_call(
        &mut self,
        cx: &Context,
        callee: Value,
        open: usize,
        close: usize,
        limit: usize,
    ) -> (r: Option<Value>)
        ensures
            (final(self)@, r) == spec_lower_chained_call(
                cx,
                old(self)@,
                callee,
                open,
                close,
                lowering(limit as nat),
            ),
        decreases limit, 2nat, 0nat,
    {
        proof {
            reveal(spec_lower_chained_call);
        }
        let Type::Function(signature) = callee.ty else {
            return None;
        };
        let Some(arguments) = self.lower_call_arguments(
            cx,
            &cx.argument_ranges(next(open), close),
            &signature.parameters,
            limit,
        ) else {
            return None;
        };
        let receiver = self.receiver_of(&callee.operand);
        self.emit_call(cx, callee.operand, receiver, &signature, arguments.operands, open)
    }
}

/// An element in a chain of members.
#[verifier::opaque]
pub open spec fn spec_lower_chained_index(
    cx: &Context,
    st: State,
    sequence: Value,
    start: usize,
    open: usize,
    close: usize,
    low: Lowering,
) -> (State, Option<Value>) {
    let (st, attempt) = spec_lower_index_operand(cx, st, next(open), close, low);
    match attempt {
        Some(index) => {
            match operand_place(sequence.operand) {
                Some(collection) => {
                    match indexed_type(cx, start, next(close), &sequence.ty) {
                        Some(ty) => {
                            let (st, operand) = spec_computed(
                                st, ty.dup(),
                                Rvalue::CheckedIndex { collection, index },
                                cx.span_at(open),
                            );
                            (st, Some(Value { operand, ty }))
                        },
                        _ => (st, None),
                    }
                },
                _ => (st, None),
            }
        },
        _ => (st, None),
    }
}

impl Builder {
    /// An element in a chain of members.
    pub(crate) fn lower_chained_index(
        &mut self,
        cx: &Context,
        sequence: Value,
        start: usize,
        open: usize,
        close: usize,
        limit: usize,
    ) -> (r: Option<Value>)
        ensures
            (final(self)@, r) == spec_lower_chained_index(
                cx,
                old(self)@,
                sequence,
                start,
                open,
                close,
                lowering(limit as nat),
            ),
        decreases limit, 2nat, 0nat,
    {
        proof {
            reveal(spec_lower_chained_index);
        }
        let Some(index) = self.lower_index_operand(cx, next(open), close, limit) else {
            return None;
        };
        let Some(collection) = operand_place(sequence.operand) else {
            return None;
        };
        let Some(ty) = indexed_type(cx, start, next(close), &sequence.ty) else {
            return None;
        };
        let operand = self.computed(
            ty.dup(),
            Rvalue::CheckedIndex { collection, index },
            cx.span_at(open),
        );
        Some(Value { operand, ty })
    }
}

/// A value and the position behind the part of a chain that it is the value of.
pub struct ChainLink {
    pub value: Value,
    pub cursor: usize,
}

/// One more link of a chain of members.
#[verifier::opaque]
pub open spec fn spec_lower_link(
    cx: &Context,
    st: State,
    value: Value,
    start: usize,
    cursor: usize,
    low: Lowering,
) -> (State, Option<ChainLink>) {
    match cx.kind(cursor) {
        Some(TokenKind::LeftBracket) => {
            match cx.matching_token(cursor, TokenKind::LeftBracket, TokenKind::RightBracket) {
                Some(close) => {
                    let (st, attempt) = spec_lower_chained_index(
                        cx,
                        st,
                        value,
                        start,
                        cursor,
                        close,
                        low,
                    );
                    match attempt {
                        Some(element) => {
                            (st, Some(ChainLink { value: element, cursor: next(close) }))
                        },
                        _ => (st, None),
                    }
                },
                _ => (st, None),
            }
        },
        Some(TokenKind::Dot) => {
            match spec_named_member(cx, start, behind(cursor, 2), false) {
                Some(named) => {
                    let (st, attempt) = spec_lower_member_from(
                        cx,
                        st,
                        value,
                        named.member,
                        named.ty,
                        next(cursor),
                    );
                    match attempt {
                        Some(member) => {
                            (st, Some(ChainLink { value: member, cursor: behind(cursor, 2) }))
                        },
                        _ => (st, None),
                    }
                },
                _ => (st, None),
            }
        },
        Some(TokenKind::LeftParen) => {
            match cx.matching_token(cursor, TokenKind::LeftParen, TokenKind::RightParen) {
                Some(close) => {
                    let (st, attempt) = spec_lower_chained_call(cx, st, value, cursor, close, low);
                    match attempt {
                        Some(result) => {
                            (st, Some(ChainLink { value: result, cursor: next(close) }))
                        },
                        _ => (st, None),
                    }
                },
                _ => (st, None),
            }
        },
        _ => (st, None),
    }
}

impl Builder {
    /// One more link of a chain of members.
    pub(crate) fn lower_link(
        &mut self,
        cx: &Context,
        value: Value,
        start: usize,
        cursor: usize,
        limit: usize,
    ) -> (r: Option<ChainLink>)
        ensures
            (final(self)@, r) == spec_lower_link(
                cx,
                old(self)@,
                value,
                start,
                cursor,
                lowering(limit as nat),
            ),
        decreases limit, 3nat, 0nat,
    {
        proof {
            reveal(spec_lower_link);
        }
        match cx.kind(cursor) {
            Some(TokenKind::LeftBracket) => {
                let Some(close) = cx.matching_token(
                    cursor,
                    TokenKind::LeftBracket,
                    TokenKind::RightBracket,
                ) else {
                    return None;
                };
                let Some(element) = self.lower_chained_index(
                    cx,
                    value,
                    start,
                    cursor,
                    close,
                    limit,
                ) else {
                    return None;
                };
                Some(ChainLink { value: element, cursor: next(close) })
            },
            Some(TokenKind::Dot) => {
                let Some(named) = named_member(cx, start, behind(cursor, 2), false) else {
                    return None;
                };
                let Some(member) = self.lower_member_from(
                    cx,
                    value,
                    named.member,
                    named.ty,
                    next(cursor),
                ) else {
                    return None;
                };
                Some(ChainLink { value: member, cursor: behind(cursor, 2) })
            },
            Some(TokenKind::LeftParen) => {
                let Some(close) = cx.matching_token(
                    cursor,
                    TokenKind::LeftParen,
                    TokenKind::RightParen,
                ) else {
                    return None;
                };
                let Some(result) = self.lower_chained_call(cx, value, cursor, close, limit) else {
                    return None;
                };
                Some(ChainLink { value: result, cursor: next(close) })
            },
            _ => None,
        }
    }
}

/// The links of a chain of members from a position on.
#[verifier::opaque]
pub open spec fn spec_lower_links(
    cx: &Context,
    st: State,
    link: ChainLink,
    start: usize,
    end: usize,
    low: Lowering,
) -> (State, Option<Value>)
    decreases end.saturating_sub(link.cursor),
{
    let cursor: usize = link.cursor;
    if cursor >= end {
        (st, Some(link.value))
    } else {
        let (st, attempt) = spec_lower_link(cx, st, link.value, start, cursor, low);
        match attempt {
            Some(following) => {
                if following.cursor <= cursor {
                    (st, None)
                } else {
                    spec_lower_links(cx, st, following, start, end, low)
                }
            },
            _ => (st, None),
        }
    }
}

impl Builder {
    /// The links of a chain of members from a position on.
    pub(crate) fn lower_links(
        &mut self,
        cx: &Context,
        link: ChainLink,
        start: usize,
        end: usize,
        limit: usize,
    ) -> (r: Option<Value>)
        ensures
            (final(self)@, r) == spec_lower_links(
                cx,
                old(self)@,
                link,
                start,
                end,
                lowering(limit as nat),
            ),
        decreases limit, 4nat, end.saturating_sub(link.cursor),
    {
        proof {
            reveal_with_fuel(spec_lower_links, 2);
        }
        let cursor: usize = link.cursor;
        if cursor >= end {
            return Some(link.value);
        }
        let Some(following) = self.lower_link(cx, link.value, start, cursor, limit) else {
            return None;
        };
        if following.cursor <= cursor {
            return None;
        }
        self.lower_links(cx, following, start, end, limit)
    }
}

/// A chain of members.
#[verifier::opaque]
pub open spec fn spec_lower_member_chain(
    cx: &Context,
    st: State,
    start: usize,
    end: usize,
    low: Lowering,
) -> (State, Option<Value>) {
    match cx.find_top_level(start, end, TokenKind::Dot) {
        Some(dot) => {
            match spec_named_member(cx, start, behind(dot, 2), false) {
                Some(named) => {
                    let (st, attempt) = (low.expression)(cx, st, start, dot, None);
                    match attempt {
                        Some(owner) => {
                            let (st, attempt) = spec_lower_member_from(
                                cx,
                                st,
                                owner,
                                named.member,
                                named.ty,
                                next(dot),
                            );
                            match attempt {
                                Some(value) => {
                                    spec_lower_links(
                                        cx,
                                        st,
                                        ChainLink { value, cursor: behind(dot, 2) },
                                        start,
                                        end,
                                        low,
                                    )
                                },
                                _ => (st, None),
                            }
                        },
                        _ => (st, None),
                    }
                },
                _ => (st, None),
            }
        },
        _ => (st, None),
    }
}

impl Builder {
    /// A chain of members.
    pub(crate) fn lower_member_chain(
        &mut self,
        cx: &Context,
        start: usize,
        end: usize,
        limit: usize,
    ) -> (r: Option<Value>)
        ensures
            (final(self)@, r) == spec_lower_member_chain(
                cx,
                old(self)@,
                start,
                end,
                lowering(limit as nat),
            ),
        decreases limit, 5nat, 0nat,
    {
        proof {
            reveal(spec_lower_member_chain);
        }
        let Some(dot) = cx.find_top_level(start, end, TokenKind::Dot) else {
            return None;
        };
        let Some(named) = named_member(cx, start, behind(dot, 2), false) else {
            return None;
        };
        let Some(owner) = self.expression(cx, start, dot, None, limit) else {
            return None;
        };
        let Some(value) = self.lower_member_from(
            cx,
            owner,
            named.member,
            named.ty,
            next(dot),
        ) else {
            return None;
        };
        self.lower_links(cx, ChainLink { value, cursor: behind(dot, 2) }, start, end, limit)
    }
}

/// The type of an element in an optional chain.
#[verifier::allow_in_spec]
pub fn chained_type(cx: &Context, start: usize, end: usize) -> (r: Option<Type>)
    returns
        match cx.hir_expression_range(start, end) {
            Some(expression) => {
                match &expression.optional_chain_value {
                    Some(ty) => Some(ty.dup()),
                    None => Some(expression.ty.dup()),
                }
            },
            None => None,
        },
{
    match cx.hir_expression_range(start, end) {
        Some(expression) => match &expression.optional_chain_value {
            Some(ty) => Some(ty.dup()),
            None => Some(expression.ty.dup()),
        },
        None => None,
    }
}

/// An element in an optional chain.
#[verifier::opaque]
pub open spec fn spec_lower_optional_index(
    cx: &Context,
    st: State,
    sequence: Value,
    origin: usize,
    open: usize,
    close: usize,
    low: Lowering,
) -> (State, Option<Value>) {
    let (st, attempt) = spec_lower_index_operand(cx, st, next(open), close, low);
    match attempt {
        Some(index) => {
            let (st, collection) = spec_materialize_operand(
                st,
                sequence.operand,
                sequence.ty,
                cx.span_at(open),
            );
            match chained_type(cx, origin, next(close)) {
                Some(ty) => {
                    let (st, operand) = spec_computed(
                        st, ty.dup(),
                        Rvalue::CheckedIndex { collection, index },
                        cx.span_at(open),
                    );
                    (st, Some(Value { operand, ty }))
                },
                _ => (st, None),
            }
        },
        _ => (st, None),
    }
}

impl Builder {
    /// An element in an optional chain.
    pub(crate) fn lower_optional_index(
        &mut self,
        cx: &Context,
        sequence: Value,
        origin: usize,
        open: usize,
        close: usize,
        limit: usize,
    ) -> (r: Option<Value>)
        ensures
            (final(self)@, r) == spec_lower_optional_index(
                cx,
                old(self)@,
                sequence,
                origin,
                open,
                close,
                lowering(limit as nat),
            ),
        decreases limit, 2nat, 0nat,
    {
        proof {
            reveal(spec_lower_optional_index);
        }
        let Some(index) = self.lower_index_operand(cx, next(open), close, limit) else {
            return None;
        };
        let collection = self.materialize_operand(sequence.operand, sequence.ty, cx.span_at(open));
        let Some(ty) = chained_type(cx, origin, next(close)) else {
            return None;
        };
        let operand = self.computed(
            ty.dup(),
            Rvalue::CheckedIndex { collection, index },
            cx.span_at(open),
        );
        Some(Value { operand, ty })
    }
}

/// One more link of an optional chain.
#[verifier::opaque]
pub open spec fn spec_lower_optional_link(
    cx: &Context,
    st: State,
    value: Value,
    origin: usize,
    cursor: usize,
    low: Lowering,
) -> (State, Option<ChainLink>) {
    match cx.kind(cursor) {
        Some(TokenKind::LeftParen) => {
            match cx.matching_token(cursor, TokenKind::LeftParen, TokenKind::RightParen) {
                Some(close) => {
                    let (st, attempt) = spec_lower_chained_call(cx, st, value, cursor, close, low);
                    match attempt {
                        Some(result) => {
                            (st, Some(ChainLink { value: result, cursor: next(close) }))
                        },
                        _ => (st, None),
                    }
                },
                _ => (st, None),
            }
        },
        Some(TokenKind::Dot) => {
            match spec_named_member(cx, origin, behind(cursor, 2), true) {
                Some(named) => {
                    let (st, attempt) = spec_lower_member_from(
                        cx,
                        st,
                        value,
                        named.member,
                        named.ty,
                        next(cursor),
                    );
                    match attempt {
                        Some(member) => {
                            (st, Some(ChainLink { value: member, cursor: behind(cursor, 2) }))
                        },
                        _ => (st, None),
                    }
                },
                _ => (st, None),
            }
        },
        Some(TokenKind::LeftBracket) => {
            match cx.matching_token(cursor, TokenKind::LeftBracket, TokenKind::RightBracket) {
                Some(close) => {
                    let (st, attempt) = spec_lower_optional_index(
                        cx,
                        st,
                        value,
                        origin,
                        cursor,
                        close,
                        low,
                    );
                    match attempt {
                        Some(element) => {
                            (st, Some(ChainLink { value: element, cursor: next(close) }))
                        },
                        _ => (st, None),
                    }
                },
                _ => (st, None),
            }
        },
        _ => (st, None),
    }
}

impl Builder {
    /// One more link of an optional chain.
    pub(crate) fn lower_optional_link(
        &mut self,
        cx: &Context,
        value: Value,
        origin: usize,
        cursor: usize,
        limit: usize,
    ) -> (r: Option<ChainLink>)
        ensures
            (final(self)@, r) == spec_lower_optional_link(
                cx,
                old(self)@,
                value,
                origin,
                cursor,
                lowering(limit as nat),
            ),
        decreases limit, 3nat, 0nat,
    {
        proof {
            reveal(spec_lower_optional_link);
        }
        match cx.kind(cursor) {
            Some(TokenKind::LeftParen) => {
                let Some(close) = cx.matching_token(
                    cursor,
                    TokenKind::LeftParen,
                    TokenKind::RightParen,
                ) else {
                    return None;
                };
                let Some(result) = self.lower_chained_call(cx, value, cursor, close, limit) else {
                    return None;
                };
                Some(ChainLink { value: result, cursor: next(close) })
            },
            Some(TokenKind::Dot) => {
                let Some(named) = named_member(cx, origin, behind(cursor, 2), true) else {
                    return None;
                };
                let Some(member) = self.lower_member_from(
                    cx,
                    value,
                    named.member,
                    named.ty,
                    next(cursor),
                ) else {
                    return None;
                };
                Some(ChainLink { value: member, cursor: behind(cursor, 2) })
            },
            Some(TokenKind::LeftBracket) => {
                let Some(close) = cx.matching_token(
                    cursor,
                    TokenKind::LeftBracket,
                    TokenKind::RightBracket,
                ) else {
                    return None;
                };
                let Some(element) = self.lower_optional_index(
                    cx,
                    value,
                    origin,
                    cursor,
                    close,
                    limit,
                ) else {
                    return None;
                };
                Some(ChainLink { value: element, cursor: next(close) })
            },
            _ => None,
        }
    }
}

/// The links of an optional chain from a position on, up to the next one that may be missing.
#[verifier::opaque]
pub open spec fn spec_lower_optional_links(
    cx: &Context,
    st: State,
    link: ChainLink,
    origin: usize,
    end: usize,
    low: Lowering,
) -> (State, Option<ChainLink>)
    decreases end.saturating_sub(link.cursor),
{
    let cursor: usize = link.cursor;
    if cursor >= end || cx.is(cursor, TokenKind::QuestionDot) {
        (st, Some(link))
    } else {
        let (st, attempt) = spec_lower_optional_link(cx, st, link.value, origin, cursor, low);
        match attempt {
            Some(following) => {
                if following.cursor <= cursor {
                    (st, None)
                } else {
                    spec_lower_optional_links(cx, st, following, origin, end, low)
                }
            },
            _ => (st, None),
        }
    }
}

impl Builder {
    /// The links of an optional chain from a position on, up to the next one that may be missing.
    pub(crate) fn lower_optional_links(
        &mut self,
        cx: &Context,
        link: ChainLink,
        origin: usize,
        end: usize,
        limit: usize,
    ) -> (r: Option<ChainLink>)
        ensures
            (final(self)@, r) == spec_lower_optional_links(
                cx,
                old(self)@,
                link,
                origin,
                end,
                lowering(limit as nat),
            ),
        decreases limit, 4nat, end.saturating_sub(link.cursor),
    {
        proof {
            reveal_with_fuel(spec_lower_optional_links, 2);
        }
        let cursor: usize = link.cursor;
        if cursor >= end || cx.is(cursor, TokenKind::QuestionDot) {
            return Some(link);
        }
        let Some(following) = self.lower_optional_link(cx, link.value, origin, cursor, limit) else {
            return None;
        };
        if following.cursor <= cursor {
            return None;
        }
        self.lower_optional_links(cx, following, origin, end, limit)
    }
}

/// The part of an optional chain for a value that is present, up to the next link that may be
/// missing.
#[verifier::opaque]
pub open spec fn spec_lower_optional_tail_present(
    cx: &Context,
    st: State,
    owner: Value,
    member_start: usize,
    end: usize,
    origin: usize,
    low: Lowering,
) -> (State, Option<ChainLink>) {
    match spec_named_member(cx, origin, next(member_start), true) {
        Some(named) => {
            let (st, attempt) = spec_lower_member_from(
                cx,
                st,
                owner,
                named.member,
                named.ty,
                member_start,
            );
            match attempt {
                Some(value) => {
                    spec_lower_optional_links(
                        cx,
                        st,
                        ChainLink { value, cursor: next(member_start) },
                        origin,
                        end,
                        low,
                    )
                },
                _ => (st, None),
            }
        },
        _ => (st, None),
    }
}

impl Builder {
    /// The part of an optional chain for a value that is present, up to the next link that may be
    /// missing.
    pub(crate) fn lower_optional_tail_present(
        &mut self,
        cx: &Context,
        owner: Value,
        member_start: usize,
        end: usize,
        origin: usize,
        limit: usize,
    ) -> (r: Option<ChainLink>)
        ensures
            (final(self)@, r) == spec_lower_optional_tail_present(
                cx,
                old(self)@,
                owner,
                member_start,
                end,
                origin,
                lowering(limit as nat),
            ),
        decreases limit, 5nat, 0nat,
    {
        proof {
            reveal(spec_lower_optional_tail_present);
        }
        let Some(named) = named_member(cx, origin, next(member_start), true) else {
            return None;
        };
        let Some(value) = self.lower_member_from(
            cx,
            owner,
            named.member,
            named.ty,
            member_start,
        ) else {
            return None;
        };
        self.lower_optional_links(
            cx,
            ChainLink { value, cursor: next(member_start) },
            origin,
            end,
            limit,
        )
    }
}

/// The result of an optional chain: what it comes to, as a value that is present.
#[verifier::opaque]
pub open spec fn spec_store_chained(
    st: State,
    destination: crate::mir::LocalId,
    result_type: &Type,
    value: Value,
    span: crate::syntax::Span,
) -> State {
    if same_type(&value.ty, result_type) {
        spec_assign(st, destination, Rvalue::Use(value.operand), span)
    } else {
        spec_wrapped(st, destination, result_type.dup(), value.operand, value.ty, span)
    }
}

impl Builder {
    /// The result of an optional chain: what it comes to, as a value that is present.
    pub(crate) fn store_chained(
        &mut self,
        destination: crate::mir::LocalId,
        result_type: &Type,
        value: Value,
        span: crate::syntax::Span,
    )
        ensures
            final(self)@ == spec_store_chained(
                old(self)@,
                destination,
                result_type,
                value,
                span,
            ),
    {
        proof {
            reveal(spec_store_chained);
        }
        if same_type(&value.ty, result_type) {
            self.assign(destination, Rvalue::Use(value.operand), span);
        } else {
            self.wrapped(destination, result_type.dup(), value.operand, value.ty, span);
        }
    }
}

/// An optional chain behind a value. Where the value is missing, so is the result.
#[verifier::opaque]
pub open spec fn spec_lower_optional_from_value(
    cx: &Context,
    st: State,
    source: Value,
    member_start: usize,
    end: usize,
    origin: usize,
    low: Lowering,
) -> (State, Option<Value>)
    decreases end.saturating_sub(member_start),
{
    let span = cx.span_at(member_start);
    match source.ty {
        Type::Optional(inner) => {
            match cx.type_of_range(origin, end) {
                Some(result_type) => {
                    let (st, held) = spec_materialize_operand(
                        st,
                        source.operand,
                        Type::Optional(Box::new(inner.dup())),
                        span,
                    );
                    let (st, destination) = spec_live(st, result_type.dup(), span);
                    let (st, absent) = spec_new_block(st);
                    let (st, present) = spec_new_block(st);
                    let (st, join) = spec_new_block(st);
                    let st = spec_branch(st, Operand::Copy(held.dup()), present, absent, span);
                    let st = State { current: absent, ..st };
                    let st = spec_assign(
                        st,
                        destination,
                        Rvalue::Use(undefined(result_type.dup())),
                        span,
                    );
                    let st = spec_terminate(st, TerminatorKind::Goto(join), span);
                    let st = State { current: present, ..st };
                    let payload = Value {
                        operand: Operand::Copy(held.step(Projection::Downcast(1))),
                        ty: *inner,
                    };
                    let (st, attempt) = spec_lower_optional_tail_present(
                        cx,
                        st,
                        payload,
                        member_start,
                        end,
                        origin,
                        low,
                    );
                    match attempt {
                        Some(tail) => {
                            let cursor: usize = tail.cursor;
                            let (st, rest) = if cursor >= end {
                                (st, Some(tail.value))
                            } else if cursor < member_start {
                                (st, None)
                            } else {
                                spec_lower_optional_from_value(
                                    cx,
                                    st,
                                    tail.value,
                                    next(cursor),
                                    end,
                                    origin,
                                    low,
                                )
                            };
                            match rest {
                                Some(value) => {
                                    let st = spec_store_chained(
                                        st,
                                        destination,
                                        &result_type,
                                        value,
                                        span,
                                    );
                                    let st = spec_continue_at(st, join, span);
                                    let st = State { current: join, ..st };
                                    (st, Some(Value { operand: Operand::Move(whole(destination)), ty: result_type }))
                                },
                                _ => (st, None),
                            }
                        },
                        _ => (st, None),
                    }
                },
                _ => (st, None),
            }
        },
        _ => (st, None),
    }
}

impl Builder {
    /// An optional chain behind a value. Where the value is missing, so is the result.
    pub(crate) fn lower_optional_from_value(
        &mut self,
        cx: &Context,
        source: Value,
        member_start: usize,
        end: usize,
        origin: usize,
        limit: usize,
    ) -> (r: Option<Value>)
        ensures
            (final(self)@, r) == spec_lower_optional_from_value(
                cx,
                old(self)@,
                source,
                member_start,
                end,
                origin,
                lowering(limit as nat),
            ),
        decreases limit, 6nat, end.saturating_sub(member_start),
    {
        proof {
            reveal_with_fuel(spec_lower_optional_from_value, 2);
        }
        let span = cx.span_at(member_start);
        let Type::Optional(inner) = source.ty else {
            return None;
        };
        let Some(result_type) = cx.type_of_range(origin, end) else {
            return None;
        };
        let held = self.materialize_operand(
            source.operand,
            Type::Optional(Box::new(inner.dup())),
            span,
        );
        let destination = self.live(result_type.dup(), span);
        let absent = self.new_block();
        let present = self.new_block();
        let join = self.new_block();
        self.branch(Operand::Copy(held.dup()), present, absent, span);
        self.current = absent;
        self.assign(destination, Rvalue::Use(undefined(result_type.dup())), span);
        self.terminate(TerminatorKind::Goto(join), span);
        self.current = present;
        let payload = Value {
            operand: Operand::Copy(held.step(Projection::Downcast(1))),
            ty: *inner,
        };
        let Some(tail) = self.lower_optional_tail_present(
            cx,
            payload,
            member_start,
            end,
            origin,
            limit,
        ) else {
            return None;
        };
        let cursor: usize = tail.cursor;
        let rest = if cursor >= end {
            Some(tail.value)
        } else if cursor < member_start {
            None
        } else {
            self.lower_optional_from_value(cx, tail.value, next(cursor), end, origin, limit)
        };
        let Some(value) = rest else {
            return None;
        };
        self.store_chained(destination, &result_type, value, span);
        self.continue_at(join, span);
        self.current = join;
        Some(Value { operand: Operand::Move(whole(destination)), ty: result_type })
    }
}

/// An optional chain.
#[verifier::opaque]
pub open spec fn spec_lower_optional_chain(
    cx: &Context,
    st: State,
    start: usize,
    question_dot: usize,
    end: usize,
    low: Lowering,
) -> (State, Option<Value>) {
    let (st, attempt) = (low.expression)(cx, st, start, question_dot, None);
    match attempt {
        Some(source) => {
            spec_lower_optional_from_value(cx, st, source, next(question_dot), end, start, low)
        },
        _ => (st, None),
    }
}

impl Builder {
    /// An optional chain.
    pub(crate) fn lower_optional_chain(
        &mut self,
        cx: &Context,
        start: usize,
        question_dot: usize,
        end: usize,
        limit: usize,
    ) -> (r: Option<Value>)
        ensures
            (final(self)@, r) == spec_lower_optional_chain(
                cx,
                old(self)@,
                start,
                question_dot,
                end,
                lowering(limit as nat),
            ),
        decreases limit, 7nat, 0nat,
    {
        proof {
            reveal(spec_lower_optional_chain);
        }
        let Some(source) = self.expression(cx, start, question_dot, None, limit) else {
            return None;
        };
        self.lower_optional_from_value(cx, source, next(question_dot), end, start, limit)
    }
}

} // verus!
