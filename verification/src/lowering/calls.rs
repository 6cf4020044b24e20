//! Calls, constructions and aggregates.

use vstd::prelude::*;

use crate::hir::{
    same_type, DeclarationId, Definition, DefinitionData, Field, FunctionType, GenericParameter,
    Intrinsic, MemberId, Method, Namespace, Parameter, PrimitiveType, Program, ResolvedValue, Type,
};
use crate::list::{cons, dup_plain, one, List};
use crate::lowering::access::spec_lower_member_from;
use crate::lowering::bindings::undefined;
use crate::lowering::builder::{
    spec_is_temporary, spec_receiver_of, spec_specialize_method, spec_statement, Builder, State,
};
use crate::lowering::context::{before, next, Context, TokenRange};
use crate::lowering::emit::{
    spec_assign, spec_borrowed, spec_computed, spec_emit_call, spec_live, spec_wrapped, Value,
};
use crate::lowering::members::{
    aggregate_schema, enum_variant, is_static_method, schema_position, schema_type, SchemaField,
};
use crate::lowering::parser::parse_type_range;
use crate::lowering::recursion::{lowering, Lowering};
use crate::lowering::types::{
    aggregate_field_type, bind_generics, first_substitution, infer_all_substitutions,
    infer_mir_substitutions, non_consuming_operand, primitive, reference, substitute_mir_type,
    substitute_mir_types, substitution_for, Bindable, Substitution,
};
use crate::mir::{whole, Constant, Operand, Place, Projection, RawOperation, Rvalue, StatementKind};
use crate::names::{Name, Names};
use crate::syntax::TokenKind;

verus! {

/// Operands and their types.
pub struct Arguments {
    pub operands: List<Operand>,
    pub types: List<Type>,
}

/// The first of a list of types.
#[verifier::opaque]
pub open spec fn spec_first_type(types: &List<Type>) -> Option<&Type> {
    match types {
        List::Cons(head, _) => Some(head),
        List::Nil => None,
    }
}

/// The first of a list of types.
#[verifier::allow_in_spec]
pub fn first_type(types: &List<Type>) -> (r: Option<&Type>)
    returns
        spec_first_type(types),
{
    proof {
        reveal(spec_first_type);
    }
    match types {
        List::Cons(head, _) => Some(head),
        List::Nil => None,
    }
}

/// The types behind the first.
#[verifier::opaque]
pub open spec fn spec_other_types(types: &List<Type>) -> &List<Type> {
    match types {
        List::Cons(_, tail) => tail,
        List::Nil => types,
    }
}

/// The types behind the first.
#[verifier::allow_in_spec]
pub fn other_types(types: &List<Type>) -> (r: &List<Type>)
    returns
        spec_other_types(types),
{
    proof {
        reveal(spec_other_types);
    }
    match types {
        List::Cons(_, tail) => tail,
        List::Nil => types,
    }
}

/// The type of the reference that an argument is passed as, where a reference is passed for one.
#[verifier::allow_in_spec]
pub fn reborrow_type(actual: &Type, expected: Option<&Type>) -> (r: Option<Type>)
    returns
        match (expected, actual) {
            (Some(Type::Reference { mutable, lifetime, .. }), Type::Reference { referent, .. }) => {
                Some(
                    reference(*mutable, *lifetime, referent.dup()),
                )
            },
            _ => None,
        },
{
    match (expected, actual) {
        (Some(Type::Reference { mutable, lifetime, .. }), Type::Reference { referent, .. }) => Some(
            reference(*mutable, *lifetime, referent.dup()),
        ),
        _ => None,
    }
}

/// The place whose target is borrowed again for an argument. A temporary is passed as it is.
#[verifier::opaque]
pub open spec fn spec_reborrowed_place(st: State, operand: &Operand) -> Option<Place> {
    match crate::mir::operand_place_ref(operand) {
        Some(place) => {
            if place.is_whole() && spec_is_temporary(st, place.local) {
                None
            } else {
                Some(place.dup())
            }
        },
        None => None,
    }
}

impl Builder {
    /// The place whose target is borrowed again for an argument. A temporary is passed as it is.
    pub(crate) fn reborrowed_place(&self, operand: &Operand) -> (r: Option<Place>)
        ensures
            r == spec_reborrowed_place(self@, operand),
    {
        proof {
            reveal(spec_reborrowed_place);
        }
        match crate::mir::operand_place_ref(operand) {
            Some(place) => {
                if place.is_whole() && self.is_temporary(place.local) {
                    None
                } else {
                    Some(place.dup())
                }
            },
            None => None,
        }
    }
}

/// An argument as it is passed: a reference that is kept in a place is borrowed again.
#[verifier::opaque]
pub open spec fn spec_reborrow_argument(
    cx: &Context,
    st: State,
    operand: Operand,
    actual: &Type,
    expected: Option<&Type>,
    token: usize,
) -> (State, Operand) {
    match (reborrow_type(actual, expected), spec_reborrowed_place(st, &operand)) {
        (Some(ty), Some(place)) => {
            let mutable = matches!(expected, Some(Type::Reference { mutable: true, .. }));
            spec_borrowed(st, ty, mutable, place.step(Projection::Dereference), cx.span_at(token))
        },
        _ => (st, operand),
    }
}

impl Builder {
    /// An argument as it is passed: a reference that is kept in a place is borrowed again.
    pub(crate) fn reborrow_argument(
        &mut self,
        cx: &Context,
        operand: Operand,
        actual: &Type,
        expected: Option<&Type>,
        token: usize,
    ) -> (r: Operand)
        ensures
            (final(self)@, r) == spec_reborrow_argument(
                cx,
                old(self)@,
                operand,
                actual,
                expected,
                token,
            ),
    {
        proof {
            reveal(spec_reborrow_argument);
        }
        match (reborrow_type(actual, expected), self.reborrowed_place(&operand)) {
            (Some(ty), Some(place)) => {
                let mutable = matches!(expected, Some(Type::Reference { mutable: true, .. }));
                self.borrowed(ty, mutable, place.step(Projection::Dereference), cx.span_at(token))
            },
            _ => operand,
        }
    }
}

/// The arguments of a call, each for the parameter at its position.
#[verifier::opaque]
pub open spec fn spec_lower_call_arguments(
    cx: &Context,
    st: State,
    ranges: &List<TokenRange>,
    parameters: &List<Type>,
    low: Lowering,
) -> (State, Option<Arguments>)
    decreases ranges,
{
    match ranges {
        List::Nil => (st, Some(Arguments { operands: List::Nil, types: List::Nil })),
        List::Cons(range, rest) => {
            let expected = spec_first_type(parameters);
            let (st, attempt) = (low.expression)(cx, st, range.start, range.end, expected);
            match attempt {
                Some(value) => {
                    let (st, operand) = spec_reborrow_argument(
                        cx,
                        st,
                        value.operand,
                        &value.ty,
                        expected,
                        range.start,
                    );
                    let (st, attempt) = spec_lower_call_arguments(
                        cx,
                        st,
                        rest,
                        spec_other_types(parameters),
                        low,
                    );
                    match attempt {
                        Some(others) => {
                            (st, Some(
                                Arguments {
                                    operands: cons(operand, others.operands),
                                    types: cons(value.ty, others.types),
                                },
                            ))
                        },
                        _ => (st, None),
                    }
                },
                _ => (st, None),
            }
        },
    }
}

impl Builder {
    /// The arguments of a call, each for the parameter at its position.
    pub(crate) fn lower_call_arguments(
        &mut self,
        cx: &Context,
        ranges: &List<TokenRange>,
        parameters: &List<Type>,
        limit: usize,
    ) -> (r: Option<Arguments>)
        ensures
            (final(self)@, r) == spec_lower_call_arguments(
                cx,
                old(self)@,
                ranges,
                parameters,
                lowering(limit as nat),
            ),
        decreases limit, 1nat, ranges.seq().len(),
    {
        proof {
            reveal_with_fuel(spec_lower_call_arguments, 2);
        }
        match ranges {
            List::Nil => Some(Arguments { operands: List::Nil, types: List::Nil }),
            List::Cons(range, rest) => {
                let expected = first_type(parameters);
                let Some(value) = self.expression(
                    cx,
                    range.start,
                    range.end,
                    expected,
                    limit,
                ) else {
                    return None;
                };
                let operand = self.reborrow_argument(
                    cx,
                    value.operand,
                    &value.ty,
                    expected,
                    range.start,
                );
                let Some(others) = self.lower_call_arguments(
                    cx,
                    rest,
                    other_types(parameters),
                    limit,
                ) else {
                    return None;
                };
                Some(
                    Arguments {
                        operands: cons(operand, others.operands),
                        types: cons(value.ty, others.types),
                    },
                )
            },
        }
    }
}

/// The types of fields, with what their parameters stand for.
pub open spec fn field_types_from(
    fields: Seq<Field>,
    substitutions: &List<Substitution>,
    from: nat,
) -> List<Type>
    decreases fields.len() - from,
{
    if from >= fields.len() {
        List::Nil
    } else {
        let item = &fields[from as int];
        let found = Some(substitute_mir_type(&item.ty, substitutions));
        match found {
            Some(found) => cons(found, field_types_from(fields, substitutions, from + 1)),
            None => field_types_from(fields, substitutions, from + 1),
        }
    }
}

/// The types of fields, with what their parameters stand for.
#[verifier::allow_in_spec]
pub fn field_types(fields: &Vec<Field>, substitutions: &List<Substitution>) -> (r: List<Type>)
    returns
        field_types_from(fields@, substitutions, 0),
{
    let mut list: List<Type> = List::Nil;
    let mut index: usize = fields.len();
    while index > 0
        invariant
            index <= fields@.len(),
            list == field_types_from(fields@, substitutions, index as nat),
        decreases index,
    {
        index = index - 1;
        let item = &fields[index];
        let found = Some(substitute_mir_type(&item.ty, substitutions));
        match found {
            Some(found) => {
                list = cons(found, list);
            },
            None => {},
        }
    }
    list
}

/// The type of the enum that a variant makes.
#[verifier::opaque]
pub open spec fn spec_variant_type(
    cx: &Context,
    start: usize,
    arguments_start: usize,
    arguments_end: usize,
    owner: DeclarationId,
) -> Type {
    let end: usize = if arguments_start < arguments_end {
        next(arguments_end)
    } else {
        arguments_end
    };
    match cx.type_of_range(start, end) {
        Some(Type::Nominal(id, arguments)) => Type::Nominal(id, arguments),
        _ => Type::Nominal(owner, List::Nil),
    }
}

/// The type of the enum that a variant makes.
#[verifier::allow_in_spec]
pub fn variant_type(
    cx: &Context,
    start: usize,
    arguments_start: usize,
    arguments_end: usize,
    owner: DeclarationId,
) -> (r: Type)
    returns
        spec_variant_type(cx, start, arguments_start, arguments_end, owner),
{
    proof {
        reveal(spec_variant_type);
    }
    let end: usize = if arguments_start < arguments_end {
        next(arguments_end)
    } else {
        arguments_end
    };
    match cx.type_of_range(start, end) {
        Some(Type::Nominal(id, arguments)) => Type::Nominal(id, arguments),
        _ => Type::Nominal(owner, List::Nil),
    }
}

/// What the parameters of an enum stand for in a type.
#[verifier::allow_in_spec]
pub fn variant_substitutions(
    program: &Program,
    owner: DeclarationId,
    ty: &Type,
) -> (r: List<Substitution>)
    returns
        match (ty, program.definition(owner)) {
            (Type::Nominal(_, arguments), Some(definition)) => {
                bind_generics(
                    &definition.generics,
                    arguments,
                    Bindable::Types,
                    List::Nil,
                )
            },
            _ => List::Nil,
        },
{
    match (ty, program.definition(owner)) {
        (Type::Nominal(_, arguments), Some(definition)) => bind_generics(
            &definition.generics,
            arguments,
            Bindable::Types,
            List::Nil,
        ),
        _ => List::Nil,
    }
}

/// The fields of a variant.
#[verifier::opaque]
pub open spec fn spec_lower_payload(
    cx: &Context,
    st: State,
    ranges: &List<TokenRange>,
    types: &List<Type>,
    low: Lowering,
) -> (State, Option<List<Operand>>)
    decreases ranges,
{
    match ranges {
        List::Nil => (st, Some(List::Nil)),
        List::Cons(range, rest) => {
            let (st, attempt) = (low.expression)(cx, st, range.start, range.end, spec_first_type(types));
            match attempt {
                Some(value) => {
                    let (st, attempt) = spec_lower_payload(
                        cx,
                        st,
                        rest,
                        spec_other_types(types),
                        low,
                    );
                    match attempt {
                        Some(others) => {
                            (st, Some(cons(value.operand, others)))
                        },
                        _ => (st, None),
                    }
                },
                _ => (st, None),
            }
        },
    }
}

impl Builder {
    /// The fields of a variant.
    pub(crate) fn lower_payload(
        &mut self,
        cx: &Context,
        ranges: &List<TokenRange>,
        types: &List<Type>,
        limit: usize,
    ) -> (r: Option<List<Operand>>)
        ensures
            (final(self)@, r) == spec_lower_payload(
                cx,
                old(self)@,
                ranges,
                types,
                lowering(limit as nat),
            ),
        decreases limit, 1nat, ranges.seq().len(),
    {
        proof {
            reveal_with_fuel(spec_lower_payload, 2);
        }
        match ranges {
            List::Nil => Some(List::Nil),
            List::Cons(range, rest) => {
                let Some(value) = self.expression(
                    cx,
                    range.start,
                    range.end,
                    first_type(types),
                    limit,
                ) else {
                    return None;
                };
                let Some(others) = self.lower_payload(cx, rest, other_types(types), limit) else {
                    return None;
                };
                Some(cons(value.operand, others))
            },
        }
    }
}

/// A value of an enum.
#[verifier::opaque]
pub open spec fn spec_lower_enum_variant(
    cx: &Context,
    st: State,
    start: usize,
    arguments_start: usize,
    arguments_end: usize,
    member: MemberId,
    low: Lowering,
) -> (State, Option<Value>) {
    match enum_variant(cx.program, member) {
        Some(found) => {
            let span = cx.span_at(start);
            let ty = spec_variant_type(cx, start, arguments_start, arguments_end, found.owner);
            let types = field_types(
                &found.variant.fields,
                &variant_substitutions(cx.program, found.owner, &ty),
            );
            let ranges = cx.argument_ranges(arguments_start, arguments_end);
            let (st, attempt) = spec_lower_payload(cx, st, &ranges, &types, low);
            match attempt {
                Some(fields) => {
                    let (st, local) = spec_live(st, ty.dup(), span);
                    let st = spec_assign(
                        st,
                        local,
                        Rvalue::Aggregate {
                            ty: ty.dup(),
                            variant: Some(found.index),
                            fields,
                            field_types: types,
                        },
                        span,
                    );
                    let st = spec_statement(
                        st,
                        StatementKind::SetDiscriminant(whole(local), found.index),
                        span,
                    );
                    (st, Some(Value { operand: Operand::Move(whole(local)), ty }))
                },
                _ => (st, None),
            }
        },
        _ => (st, None),
    }
}

impl Builder {
    /// A value of an enum.
    pub(crate) fn lower_enum_variant(
        &mut self,
        cx: &Context,
        start: usize,
        arguments_start: usize,
        arguments_end: usize,
        member: MemberId,
        limit: usize,
    ) -> (r: Option<Value>)
        ensures
            (final(self)@, r) == spec_lower_enum_variant(
                cx,
                old(self)@,
                start,
                arguments_start,
                arguments_end,
                member,
                lowering(limit as nat),
            ),
        decreases limit, 2nat, 0nat,
    {
        proof {
            reveal(spec_lower_enum_variant);
        }
        let Some(found) = enum_variant(cx.program, member) else {
            return None;
        };
        let span = cx.span_at(start);
        let ty = variant_type(cx, start, arguments_start, arguments_end, found.owner);
        let types = field_types(
            &found.variant.fields,
            &variant_substitutions(cx.program, found.owner, &ty),
        );
        let ranges = cx.argument_ranges(arguments_start, arguments_end);
        let Some(fields) = self.lower_payload(cx, &ranges, &types, limit) else {
            return None;
        };
        let local = self.live(ty.dup(), span);
        self.assign(
            local,
            Rvalue::Aggregate {
                ty: ty.dup(),
                variant: Some(found.index),
                fields,
                field_types: types,
            },
            span,
        );
        self.statement(StatementKind::SetDiscriminant(whole(local), found.index), span);
        Some(Value { operand: Operand::Move(whole(local)), ty })
    }
}

/// A method that is called on a value.
pub struct DirectMember {
    pub owner_end: usize,
    pub token: usize,
    pub member: MemberId,
    pub ty: Type,
}

/// The method that a callee names, if it is called on a value.
#[verifier::opaque]
pub open spec fn spec_direct_member(
    cx: &Context,
    start: usize,
    end: usize,
) -> Option<DirectMember> {
    match (cx.direct_member_access(start, end), cx.hir_expression_range(start, end)) {
        (Some(access), Some(expression)) => {
            match (expression.resolution, &expression.ty) {
                (Some(ResolvedValue::Member(member)), Type::Function(_)) => {
                    if is_static_method(cx.program, member) {
                        None
                    } else {
                        Some(
                            DirectMember {
                                owner_end: access.owner_end,
                                token: access.member,
                                member,
                                ty: expression.ty.dup(),
                            },
                        )
                    }
                },
                _ => None,
            }
        },
        _ => None,
    }
}

/// The method that a callee names, if it is called on a value.
#[verifier::allow_in_spec]
pub fn direct_member(cx: &Context, start: usize, end: usize) -> (r: Option<DirectMember>)
    returns
        spec_direct_member(cx, start, end),
{
    proof {
        reveal(spec_direct_member);
    }
    match (cx.direct_member_access(start, end), cx.hir_expression_range(start, end)) {
        (Some(access), Some(expression)) => match (expression.resolution, &expression.ty) {
            (Some(ResolvedValue::Member(member)), Type::Function(_)) => {
                if is_static_method(cx.program, member) {
                    None
                } else {
                    Some(
                        DirectMember {
                            owner_end: access.owner_end,
                            token: access.member,
                            member,
                            ty: expression.ty.dup(),
                        },
                    )
                }
            },
            _ => None,
        },
        _ => None,
    }
}

/// Whether a callee is the function that runs a promise.
#[verifier::allow_in_spec]
pub fn is_run(cx: &Context, start: usize, end: usize) -> (r: bool)
    returns
        match cx.resolution(start, end) {
            Some(ResolvedValue::Declaration(declaration)) => {
                cx.program.declared_name(declaration)
                == Some(Name::Run)
            },
            _ => false,
        },
{
    match cx.resolution(start, end) {
        Some(ResolvedValue::Declaration(declaration)) => cx.program.declared_name(declaration)
            == Some(Name::Run),
        _ => false,
    }
}

/// A callee with its arguments.
pub struct Callee {
    pub function: Operand,
    pub signature: FunctionType,
    pub arguments: Arguments,
}

/// A method that is called on a value, with its arguments.
#[verifier::opaque]
pub open spec fn spec_lower_method_callee(
    cx: &Context,
    st: State,
    direct: DirectMember,
    start: usize,
    ranges: &List<TokenRange>,
    low: Lowering,
) -> (State, Option<Callee>) {
    let (st, attempt) = (low.expression)(cx, st, start, direct.owner_end, None);
    match attempt {
        Some(owner) => {
            match &direct.ty {
                Type::Function(signature) => {
                    let parameters = crate::hir::dup_types(&signature.parameters);
                    let (st, attempt) = spec_lower_call_arguments(cx, st, ranges, &parameters, low);
                    match attempt {
                        Some(arguments) => {
                            let (st, attempt) = spec_lower_member_from(
                                cx,
                                st,
                                owner,
                                direct.member,
                                direct.ty,
                                direct.token,
                            );
                            match attempt {
                                Some(method) => {
                                    match method.ty {
                                        Type::Function(signature) => {
                                            (st, Some(
                                                Callee { function: method.operand, signature, arguments },
                                            ))
                                        },
                                        _ => (st, None),
                                    }
                                },
                                _ => (st, None),
                            }
                        },
                        _ => (st, None),
                    }
                },
                _ => (st, None),
            }
        },
        _ => (st, None),
    }
}

impl Builder {
    /// A method that is called on a value, with its arguments.
    pub(crate) fn lower_method_callee(
        &mut self,
        cx: &Context,
        direct: DirectMember,
        start: usize,
        ranges: &List<TokenRange>,
        limit: usize,
    ) -> (r: Option<Callee>)
        ensures
            (final(self)@, r) == spec_lower_method_callee(
                cx,
                old(self)@,
                direct,
                start,
                ranges,
                lowering(limit as nat),
            ),
        decreases limit, 2nat, 0nat,
    {
        proof {
            reveal(spec_lower_method_callee);
        }
        let Some(owner) = self.expression(cx, start, direct.owner_end, None, limit) else {
            return None;
        };
        let parameters = match &direct.ty {
            Type::Function(signature) => crate::hir::dup_types(&signature.parameters),
            _ => {
                return None;
            },
        };
        let Some(arguments) = self.lower_call_arguments(cx, ranges, &parameters, limit) else {
            return None;
        };
        let Some(method) = self.lower_member_from(
            cx,
            owner,
            direct.member,
            direct.ty,
            direct.token,
        ) else {
            return None;
        };
        match method.ty {
            Type::Function(signature) => Some(
                Callee { function: method.operand, signature, arguments },
            ),
            _ => None,
        }
    }
}

/// A function that is called, with its arguments.
#[verifier::opaque]
pub open spec fn spec_lower_function_callee(
    cx: &Context,
    st: State,
    start: usize,
    callee_end: usize,
    ranges: &List<TokenRange>,
    low: Lowering,
) -> (State, Option<Callee>) {
    let (st, attempt) = (low.expression)(cx, st, start, callee_end, None);
    match attempt {
        Some(function) => {
            match function.ty {
                Type::Function(signature) => {
                    let (st, attempt) = spec_lower_call_arguments(
                        cx,
                        st,
                        ranges,
                        &signature.parameters,
                        low,
                    );
                    match attempt {
                        Some(arguments) => {
                            (st, Some(Callee { function: function.operand, signature, arguments }))
                        },
                        _ => (st, None),
                    }
                },
                _ => (st, None),
            }
        },
        _ => (st, None),
    }
}

impl Builder {
    /// A function that is called, with its arguments.
    pub(crate) fn lower_function_callee(
        &mut self,
        cx: &Context,
        start: usize,
        callee_end: usize,
        ranges: &List<TokenRange>,
        limit: usize,
    ) -> (r: Option<Callee>)
        ensures
            (final(self)@, r) == spec_lower_function_callee(
                cx,
                old(self)@,
                start,
                callee_end,
                ranges,
                lowering(limit as nat),
            ),
        decreases limit, 2nat, 0nat,
    {
        proof {
            reveal(spec_lower_function_callee);
        }
        let Some(function) = self.expression(cx, start, callee_end, None, limit) else {
            return None;
        };
        let Type::Function(signature) = function.ty else {
            return None;
        };
        let Some(arguments) = self.lower_call_arguments(
            cx,
            ranges,
            &signature.parameters,
            limit,
        ) else {
            return None;
        };
        Some(Callee { function: function.operand, signature, arguments })
    }
}

/// The types that ranges of tokens are, without those that cannot be read.
pub open spec fn spec_written_types(cx: &Context, ranges: &List<TokenRange>) -> List<Type>
    decreases ranges,
{
    match ranges {
        List::Nil => List::Nil,
        List::Cons(range, rest) => {
            match parse_type_range(cx, range.start, range.end) {
                Some(ty) => cons(ty, spec_written_types(cx, rest)),
                None => spec_written_types(cx, rest),
            }
        },
    }
}

/// The types that ranges of tokens are, without those that cannot be read.
#[verifier::allow_in_spec]
pub fn written_types(cx: &Context, ranges: &List<TokenRange>) -> (r: List<Type>)
    returns
        spec_written_types(cx, ranges),
    decreases ranges,
{
    proof {
        reveal_with_fuel(spec_written_types, 2);
    }
    match ranges {
        List::Nil => List::Nil,
        List::Cons(range, rest) => match parse_type_range(cx, range.start, range.end) {
            Some(ty) => cons(ty, written_types(cx, rest)),
            None => written_types(cx, rest),
        },
    }
}

/// What the parameters of a generic function stand for in a call: what is written, or else what
/// the arguments and the result show.
#[verifier::opaque]
pub open spec fn spec_call_substitutions(
    cx: &Context,
    start: usize,
    end: usize,
    generics: Option<TokenRange>,
    signature: &FunctionType,
    types: &List<Type>,
) -> List<Substitution> {
    let explicit = match generics {
        Some(bounds) => {
            bind_generics(
                &signature.generics,
                &spec_written_types(cx, &cx.argument_ranges(next(bounds.start), bounds.end)),
                Bindable::Types,
                List::Nil,
            )
        },
        None => List::Nil,
    };
    let shown = infer_all_substitutions(&signature.parameters, types, explicit);
    match cx.hir_expression_range(start, end) {
        Some(expression) => infer_mir_substitutions(&signature.result, &expression.ty, shown),
        None => shown,
    }
}

/// What the parameters of a generic function stand for in a call: what is written, or else what
/// the arguments and the result show.
#[verifier::allow_in_spec]
pub fn call_substitutions(
    cx: &Context,
    start: usize,
    end: usize,
    generics: Option<TokenRange>,
    signature: &FunctionType,
    types: &List<Type>,
) -> (r: List<Substitution>)
    returns
        spec_call_substitutions(cx, start, end, generics, signature, types),
{
    proof {
        reveal(spec_call_substitutions);
    }
    let explicit = match generics {
        Some(bounds) => bind_generics(
            &signature.generics,
            &written_types(cx, &cx.argument_ranges(next(bounds.start), bounds.end)),
            Bindable::Types,
            List::Nil,
        ),
        None => List::Nil,
    };
    let shown = infer_all_substitutions(&signature.parameters, types, explicit);
    match cx.hir_expression_range(start, end) {
        Some(expression) => infer_mir_substitutions(&signature.result, &expression.ty, shown),
        None => shown,
    }
}

/// The errors of a call: those that the callee declares, or else those that were checked.
#[verifier::opaque]
pub open spec fn spec_call_effects(
    cx: &Context,
    start: usize,
    end: usize,
    signature: &FunctionType,
) -> List<DeclarationId> {
    if !signature.effects.is_empty() {
        dup_plain(&signature.effects)
    } else {
        match cx.hir_expression_range(start, end) {
            Some(expression) => dup_plain(&expression.effects),
            None => List::Nil,
        }
    }
}

/// The errors of a call: those that the callee declares, or else those that were checked.
#[verifier::allow_in_spec]
pub fn call_effects(
    cx: &Context,
    start: usize,
    end: usize,
    signature: &FunctionType,
) -> (r: List<DeclarationId>)
    returns
        spec_call_effects(cx, start, end, signature),
{
    proof {
        reveal(spec_call_effects);
    }
    if !signature.effects.is_empty() {
        return dup_plain(&signature.effects);
    }
    match cx.hir_expression_range(start, end) {
        Some(expression) => dup_plain(&expression.effects),
        None => List::Nil,
    }
}

/// The parameters of a call. The function that runs a promise takes the promise it is given.
#[verifier::allow_in_spec]
pub fn call_parameters(parameters: List<Type>, types: &List<Type>, run: bool) -> (r: List<Type>)
    returns
        match (parameters, types) {
            (List::Cons(parameter, others), List::Cons(actual, _)) => {
                if run && matches!(*parameter, Type::Promise { .. }) && matches!(
                    **actual,
                    Type::Promise { .. }
                ) {
                    cons(actual.dup(), *others)
                } else {
                    List::Cons(parameter, others)
                }
            },
            (parameters, _) => parameters,
        },
{
    match (parameters, types) {
        (List::Cons(parameter, others), List::Cons(actual, _)) => {
            if run && matches!(*parameter, Type::Promise { .. }) && matches!(
                **actual,
                Type::Promise { .. }
            ) {
                cons(actual.dup(), *others)
            } else {
                List::Cons(parameter, others)
            }
        },
        (parameters, _) => parameters,
    }
}

/// The signature of a call.
#[verifier::allow_in_spec]
pub fn call_signature(
    cx: &Context,
    start: usize,
    end: usize,
    run: bool,
    signature: &FunctionType,
    types: &List<Type>,
    substitutions: &List<Substitution>,
) -> (r: FunctionType)
    returns
        (FunctionType {
            parameters: call_parameters(
                substitute_mir_types(&signature.parameters, substitutions),
                types,
                run,
            ),
            result: Box::new(substitute_mir_type(&signature.result, substitutions)),
            effects: spec_call_effects(cx, start, end, signature),
            generics: List::Nil,
            is_async: signature.is_async,
            is_unsafe: signature.is_unsafe,
        }),
{
    FunctionType {
        parameters: call_parameters(
            substitute_mir_types(&signature.parameters, substitutions),
            types,
            run,
        ),
        result: Box::new(substitute_mir_type(&signature.result, substitutions)),
        effects: call_effects(cx, start, end, signature),
        generics: List::Nil,
        is_async: signature.is_async,
        is_unsafe: signature.is_unsafe,
    }
}

/// The operation of the compiler that a callee names.
#[verifier::allow_in_spec]
pub fn called_intrinsic(cx: &Context, start: usize, end: usize) -> (r: Option<Intrinsic>)
    returns
        match cx.resolution(start, end) {
            Some(ResolvedValue::Declaration(declaration)) => {
                match cx.program.declaration(declaration) {
                    Some(declaration) => {
                        match declaration.intrinsic {
                            Some(Intrinsic::Called) => None,
                            intrinsic => intrinsic,
                        }
                    },
                    None => None,
                }
            },
            _ => None,
        },
{
    match cx.resolution(start, end) {
        Some(ResolvedValue::Declaration(declaration)) => match cx.program.declaration(declaration) {
            Some(declaration) => match declaration.intrinsic {
                Some(Intrinsic::Called) => None,
                intrinsic => intrinsic,
            },
            None => None,
        },
        _ => None,
    }
}

/// What an operation of the compiler works on: a type, nothing, or its arguments.
#[verifier::allow_in_spec]
pub fn intrinsic_operands(
    intrinsic: Intrinsic,
    arguments: List<Operand>,
    substitutions: &List<Substitution>,
    names: &Names,
) -> (r: List<Operand>)
    returns
        match intrinsic {
            Intrinsic::SizeOf | Intrinsic::IsString | Intrinsic::IsCopy => {
                one(
                    undefined(first_substitution(substitutions, names)),
                )
            },
            Intrinsic::PlatformSockaddrFamily
            | Intrinsic::PlatformSocketLevel
            | Intrinsic::PlatformSocketReuseAddressOption
            | Intrinsic::NullPointer => {
                List::Nil
            },
            _ => arguments,
        },
{
    match intrinsic {
        Intrinsic::SizeOf | Intrinsic::IsString | Intrinsic::IsCopy => one(
            undefined(first_substitution(substitutions, names)),
        ),
        Intrinsic::PlatformSockaddrFamily
        | Intrinsic::PlatformSocketLevel
        | Intrinsic::PlatformSocketReuseAddressOption
        | Intrinsic::NullPointer => List::Nil,
        _ => arguments,
    }
}

/// What an operation of the compiler returns.
#[verifier::allow_in_spec]
pub fn intrinsic_result(intrinsic: Intrinsic, result: &Type) -> (r: Type)
    returns
        match intrinsic {
            Intrinsic::SizeOf => primitive(PrimitiveType::Usize),
            Intrinsic::IsString | Intrinsic::IsCopy | Intrinsic::IsNull => {
                primitive(
                    PrimitiveType::Bool,
                )
            },
            _ => result.dup(),
        },
{
    match intrinsic {
        Intrinsic::SizeOf => primitive(PrimitiveType::Usize),
        Intrinsic::IsString | Intrinsic::IsCopy | Intrinsic::IsNull => primitive(
            PrimitiveType::Bool,
        ),
        _ => result.dup(),
    }
}

/// A callable constant of another type.
#[verifier::allow_in_spec]
pub fn replace_callable_type(operand: Operand, ty: &Type) -> (r: Operand)
    returns
        match operand {
            Operand::Constant(Constant::Function(id, _)) => {
                Operand::Constant(
                    Constant::Function(id, ty.dup()),
                )
            },
            Operand::Constant(Constant::Method { owner, member, .. }) => {
                Operand::Constant(
                    Constant::Method { owner, member, ty: ty.dup() },
                )
            },
            Operand::Constant(Constant::Constructor { owner, member, .. }) => {
                Operand::Constant(
                    Constant::Constructor { owner, member, ty: ty.dup() },
                )
            },
            other => other,
        },
{
    match operand {
        Operand::Constant(Constant::Function(id, _)) => Operand::Constant(
            Constant::Function(id, ty.dup()),
        ),
        Operand::Constant(Constant::Method { owner, member, .. }) => Operand::Constant(
            Constant::Method { owner, member, ty: ty.dup() },
        ),
        Operand::Constant(Constant::Constructor { owner, member, .. }) => Operand::Constant(
            Constant::Constructor { owner, member, ty: ty.dup() },
        ),
        other => other,
    }
}

/// The variant that a callee names.
#[verifier::allow_in_spec]
pub fn called_variant(cx: &Context, start: usize, end: usize) -> (r: Option<MemberId>)
    returns
        match cx.resolution(start, end) {
            Some(ResolvedValue::Member(member)) => {
                if enum_variant(cx.program, member).is_some() {
                    Some(member)
                } else {
                    None
                }
            },
            _ => None,
        },
{
    match cx.resolution(start, end) {
        Some(ResolvedValue::Member(member)) => {
            if enum_variant(cx.program, member).is_some() {
                Some(member)
            } else {
                None
            }
        },
        _ => None,
    }
}

/// An operation of the compiler.
#[verifier::opaque]
pub open spec fn spec_lower_intrinsic(
    cx: &Context,
    st: State,
    intrinsic: Intrinsic,
    arguments: List<Operand>,
    substitutions: &List<Substitution>,
    result: &Type,
    start: usize,
) -> (State, Value) {
    let ty = intrinsic_result(intrinsic, result);
    let operands = intrinsic_operands(
        intrinsic,
        arguments,
        substitutions,
        &cx.program.names,
    );
    let (st, operand) = spec_computed(
        st, ty.dup(),
        Rvalue::RawOperation {
            operation: RawOperation::Intrinsic(intrinsic),
            operands,
            ty: ty.dup(),
        },
        cx.span_at(start),
    );
    (st, Value { operand, ty })
}

impl Builder {
    /// An operation of the compiler.
    pub(crate) fn lower_intrinsic(
        &mut self,
        cx: &Context,
        intrinsic: Intrinsic,
        arguments: List<Operand>,
        substitutions: &List<Substitution>,
        result: &Type,
        start: usize,
    ) -> (r: Value)
        ensures
            (final(self)@, r) == spec_lower_intrinsic(
                cx,
                old(self)@,
                intrinsic,
                arguments,
                substitutions,
                result,
                start,
            ),
    {
        proof {
            reveal(spec_lower_intrinsic);
        }
        let ty = intrinsic_result(intrinsic, result);
        let operands = intrinsic_operands(
            intrinsic,
            arguments,
            substitutions,
            &cx.program.names,
        );
        let operand = self.computed(
            ty.dup(),
            Rvalue::RawOperation {
                operation: RawOperation::Intrinsic(intrinsic),
                operands,
                ty: ty.dup(),
            },
            cx.span_at(start),
        );
        Value { operand, ty }
    }
}

/// A call of a function or method. The callable itself is only borrowed.
#[verifier::opaque]
pub open spec fn spec_lower_concrete_call(
    cx: &Context,
    st: State,
    function: Operand,
    direct: bool,
    signature: FunctionType,
    arguments: List<Operand>,
    start: usize,
) -> (State, Option<Value>) {
    let ty = Type::Function(signature.dup());
    let st = if direct {
        spec_specialize_method(st, &function, &ty)
    } else {
        st
    };
    let callable = non_consuming_operand(replace_callable_type(function, &ty));
    let receiver = spec_receiver_of(st, &callable);
    spec_emit_call(cx, st, callable, receiver, &signature, arguments, start)
}

impl Builder {
    /// A call of a function or method. The callable itself is only borrowed.
    pub(crate) fn lower_concrete_call(
        &mut self,
        cx: &Context,
        function: Operand,
        direct: bool,
        signature: FunctionType,
        arguments: List<Operand>,
        start: usize,
    ) -> (r: Option<Value>)
        ensures
            (final(self)@, r) == spec_lower_concrete_call(
                cx,
                old(self)@,
                function,
                direct,
                signature,
                arguments,
                start,
            ),
    {
        proof {
            reveal(spec_lower_concrete_call);
        }
        let ty = Type::Function(signature.dup());
        if direct {
            self.specialize_method(&function, &ty);
        }
        let callable = non_consuming_operand(replace_callable_type(function, &ty));
        let receiver = self.receiver_of(&callable);
        self.emit_call(cx, callable, receiver, &signature, arguments, start)
    }
}

/// A callee with its arguments: a method on a value, or any other function.
#[verifier::opaque]
pub open spec fn spec_lower_callee(
    cx: &Context,
    st: State,
    start: usize,
    open: usize,
    callee_end: usize,
    end: usize,
    low: Lowering,
) -> (State, Option<Callee>) {
    let ranges = cx.argument_ranges(next(open), before(end));
    match spec_direct_member(cx, start, callee_end) {
        Some(direct) => spec_lower_method_callee(cx, st, direct, start, &ranges, low),
        None => spec_lower_function_callee(cx, st, start, callee_end, &ranges, low),
    }
}

impl Builder {
    /// A callee with its arguments: a method on a value, or any other function.
    pub(crate) fn lower_callee(
        &mut self,
        cx: &Context,
        start: usize,
        open: usize,
        callee_end: usize,
        end: usize,
        limit: usize,
    ) -> (r: Option<Callee>)
        ensures
            (final(self)@, r) == spec_lower_callee(
                cx,
                old(self)@,
                start,
                open,
                callee_end,
                end,
                lowering(limit as nat),
            ),
        decreases limit, 3nat, 0nat,
    {
        proof {
            reveal(spec_lower_callee);
        }
        let ranges = cx.argument_ranges(next(open), before(end));
        match direct_member(cx, start, callee_end) {
            Some(direct) => self.lower_method_callee(cx, direct, start, &ranges, limit),
            None => self.lower_function_callee(cx, start, callee_end, &ranges, limit),
        }
    }
}

/// A call.
#[verifier::opaque]
pub open spec fn spec_lower_call(
    cx: &Context,
    st: State,
    start: usize,
    open: usize,
    end: usize,
    low: Lowering,
) -> (State, Option<Value>) {
    if let Some(member) = called_variant(cx, start, open) {
        spec_lower_enum_variant(cx, st, start, next(open), before(end), member, low)
    } else {
        let generics = cx.generic_call_bounds(start, open);
        let callee_end: usize = match generics {
            Some(bounds) => bounds.start,
            None => open,
        };
        let (st, attempt) = spec_lower_callee(cx, st, start, open, callee_end, end, low);
        match attempt {
            Some(callee) => {
                let substitutions = spec_call_substitutions(
                    cx,
                    start,
                    end,
                    generics,
                    &callee.signature,
                    &callee.arguments.types,
                );
                let signature = call_signature(
                    cx,
                    start,
                    end,
                    is_run(cx, start, callee_end),
                    &callee.signature,
                    &callee.arguments.types,
                    &substitutions,
                );
                match called_intrinsic(cx, start, callee_end) {
                    Some(intrinsic) => {
                        let (st, value) = spec_lower_intrinsic(
                            cx,
                            st,
                            intrinsic,
                            callee.arguments.operands,
                            &substitutions,
                            &signature.result,
                            start,
                        );
                        (st, Some(value))
                    },
                    None => {
                        let direct = spec_direct_member(cx, start, callee_end).is_some();
                        spec_lower_concrete_call(
                            cx,
                            st,
                            callee.function,
                            direct,
                            signature,
                            callee.arguments.operands,
                            start,
                        )
                    },
                }
            },
            _ => (st, None),
        }
    }
}

impl Builder {
    /// A call.
    pub(crate) fn lower_call(
        &mut self,
        cx: &Context,
        start: usize,
        open: usize,
        end: usize,
        limit: usize,
    ) -> (r: Option<Value>)
        ensures
            (final(self)@, r) == spec_lower_call(
                cx,
                old(self)@,
                start,
                open,
                end,
                lowering(limit as nat),
            ),
        decreases limit, 4nat, 0nat,
    {
        proof {
            reveal(spec_lower_call);
        }
        if let Some(member) = called_variant(cx, start, open) {
            return self.lower_enum_variant(cx, start, next(open), before(end), member, limit);
        }
        let generics = cx.generic_call_bounds(start, open);
        let callee_end: usize = match generics {
            Some(bounds) => bounds.start,
            None => open,
        };
        let Some(callee) = self.lower_callee(cx, start, open, callee_end, end, limit) else {
            return None;
        };
        let substitutions = call_substitutions(
            cx,
            start,
            end,
            generics,
            &callee.signature,
            &callee.arguments.types,
        );
        let signature = call_signature(
            cx,
            start,
            end,
            is_run(cx, start, callee_end),
            &callee.signature,
            &callee.arguments.types,
            &substitutions,
        );
        match called_intrinsic(cx, start, callee_end) {
            Some(intrinsic) => {
                let value = self.lower_intrinsic(
                    cx,
                    intrinsic,
                    callee.arguments.operands,
                    &substitutions,
                    &signature.result,
                    start,
                );
                Some(value)
            },
            None => {
                let direct = direct_member(cx, start, callee_end).is_some();
                self.lower_concrete_call(
                    cx,
                    callee.function,
                    direct,
                    signature,
                    callee.arguments.operands,
                    start,
                )
            },
        }
    }
}

/// The tokens that give a field its value.
#[derive(Clone, Copy, Debug, PartialEq, Eq, Structural)]
pub struct Provided {
    pub field: usize,
    pub range: TokenRange,
}

/// The tokens that give a field its value, where the last one counts.
pub open spec fn spec_provided_for(provided: &List<Provided>, field: usize) -> Option<TokenRange>
    decreases provided,
{
    match provided {
        List::Nil => None,
        List::Cons(head, tail) => {
            match spec_provided_for(tail, field) {
                Some(range) => Some(range),
                None => {
                    if head.field == field {
                        Some(head.range)
                    } else {
                        None
                    }
                },
            }
        },
    }
}

/// The tokens that give a field its value, where the last one counts.
#[verifier::allow_in_spec]
pub fn provided_for(provided: &List<Provided>, field: usize) -> (r: Option<TokenRange>)
    returns
        spec_provided_for(provided, field),
    decreases provided,
{
    proof {
        reveal_with_fuel(spec_provided_for, 2);
    }
    match provided {
        List::Nil => None,
        List::Cons(head, tail) => match provided_for(tail, field) {
            Some(range) => Some(range),
            None => {
                if head.field == field {
                    Some(head.range)
                } else {
                    None
                }
            },
        },
    }
}

/// The values of fields in the order in which they are written, from the field `field` on.
pub open spec fn spec_provided_in_order(ranges: &List<TokenRange>, field: usize) -> List<Provided>
    decreases ranges,
{
    match ranges {
        List::Nil => List::Nil,
        List::Cons(range, rest) => {
            cons(
                Provided { field, range: **range },
                spec_provided_in_order(rest, field.saturating_add(1)),
            )
        },
    }
}

/// The values of fields in the order in which they are written, from the field `field` on.
#[verifier::allow_in_spec]
pub fn provided_in_order(ranges: &List<TokenRange>, field: usize) -> (r: List<Provided>)
    returns
        spec_provided_in_order(ranges, field),
    decreases ranges,
{
    proof {
        reveal_with_fuel(spec_provided_in_order, 2);
    }
    match ranges {
        List::Nil => List::Nil,
        List::Cons(range, rest) => cons(
            Provided { field, range: **range },
            provided_in_order(rest, field.saturating_add(1)),
        ),
    }
}

/// The range behind the colon in a range, or the whole range.
#[verifier::allow_in_spec]
pub fn behind_colon(cx: &Context, range: TokenRange) -> (r: TokenRange)
    returns
        match cx.find_top_level(range.start, range.end, TokenKind::Colon) {
            Some(colon) => TokenRange { start: next(colon), end: range.end },
            None => range,
        },
{
    match cx.find_top_level(range.start, range.end, TokenKind::Colon) {
        Some(colon) => TokenRange { start: next(colon), end: range.end },
        None => range,
    }
}

/// The values of fields that are written with their names. Unknown names are left out.
pub open spec fn spec_provided_by_name(
    cx: &Context,
    ranges: &List<TokenRange>,
    schema: &List<SchemaField>,
) -> List<Provided>
    decreases ranges,
{
    match ranges {
        List::Nil => List::Nil,
        List::Cons(range, rest) => {
            let others = spec_provided_by_name(cx, rest, schema);
            match cx.name_at(range.start) {
                Some(name) => {
                    match schema_position(schema, name, 0) {
                        Some(field) => {
                            cons(Provided { field, range: behind_colon(cx, **range) }, others)
                        },
                        None => others,
                    }
                },
                None => others,
            }
        },
    }
}

/// The values of fields that are written with their names. Unknown names are left out.
#[verifier::allow_in_spec]
pub fn provided_by_name(
    cx: &Context,
    ranges: &List<TokenRange>,
    schema: &List<SchemaField>,
) -> (r: List<Provided>)
    returns
        spec_provided_by_name(cx, ranges, schema),
    decreases ranges,
{
    proof {
        reveal_with_fuel(spec_provided_by_name, 2);
    }
    match ranges {
        List::Nil => List::Nil,
        List::Cons(range, rest) => {
            let others = provided_by_name(cx, rest, schema);
            match cx.name_at(range.start) {
                Some(name) => match schema_position(schema, name, 0) {
                    Some(field) =>
                        cons(Provided { field, range: behind_colon(cx, **range) }, others),
                    None => others,
                },
                None => others,
            }
        },
    }
}

/// The brace that closes the object that is the only argument.
#[verifier::opaque]
pub open spec fn spec_object_argument(
    cx: &Context,
    ranges: &List<TokenRange>,
) -> Option<TokenRange> {
    match ranges {
        List::Cons(range, rest) => {
            if !rest.is_empty() {
                None
            } else {
                match cx.matching_token(range.start, TokenKind::LeftBrace, TokenKind::RightBrace) {
                    Some(close) => Some(TokenRange { start: next(range.start), end: close }),
                    None => None,
                }
            }
        },
        List::Nil => None,
    }
}

/// The brace that closes the object that is the only argument.
#[verifier::allow_in_spec]
pub fn object_argument(cx: &Context, ranges: &List<TokenRange>) -> (r: Option<TokenRange>)
    returns
        spec_object_argument(cx, ranges),
{
    proof {
        reveal(spec_object_argument);
    }
    match ranges {
        List::Cons(range, rest) => {
            if !rest.is_empty() {
                return None;
            }
            match cx.matching_token(range.start, TokenKind::LeftBrace, TokenKind::RightBrace) {
                Some(close) => Some(TokenRange { start: next(range.start), end: close }),
                None => None,
            }
        },
        List::Nil => None,
    }
}

/// The values of the fields of a struct that is constructed.
#[verifier::opaque]
pub open spec fn spec_provided_fields(
    cx: &Context,
    start: usize,
    end: usize,
    schema: &List<SchemaField>,
) -> List<Provided> {
    let ranges = cx.argument_ranges(start, end);
    match spec_object_argument(cx, &ranges) {
        Some(object) => {
            spec_provided_by_name(
                cx,
                &cx.argument_ranges(object.start, object.end),
                schema,
            )
        },
        None => spec_provided_in_order(&ranges, 0),
    }
}

/// The values of the fields of a struct that is constructed.
#[verifier::allow_in_spec]
pub fn provided_fields(
    cx: &Context,
    start: usize,
    end: usize,
    schema: &List<SchemaField>,
) -> (r: List<Provided>)
    returns
        spec_provided_fields(cx, start, end, schema),
{
    proof {
        reveal(spec_provided_fields);
    }
    let ranges = cx.argument_ranges(start, end);
    match object_argument(cx, &ranges) {
        Some(object) => provided_by_name(
            cx,
            &cx.argument_ranges(object.start, object.end),
            schema,
        ),
        None => provided_in_order(&ranges, 0),
    }
}

/// The fields of a struct from `field` on. One without a value is undefined.
#[verifier::opaque]
pub open spec fn spec_lower_struct_fields(
    cx: &Context,
    st: State,
    schema: &List<SchemaField>,
    provided: &List<Provided>,
    field: usize,
    low: Lowering,
) -> (State, Option<Arguments>)
    decreases schema,
{
    match schema {
        List::Nil => (st, Some(Arguments { operands: List::Nil, types: List::Nil })),
        List::Cons(head, tail) => {
            let (st, value) = match spec_provided_for(provided, field) {
                Some(range) => (low.expression)(cx, st, range.start, range.end, Some(&head.ty)),
                None => {
                    (st, Some(Value { operand: undefined(head.ty.dup()), ty: head.ty.dup() }))
                },
            };
            match value {
                Some(value) => {
                    let (st, attempt) = spec_lower_struct_fields(
                        cx,
                        st,
                        tail,
                        provided,
                        field.saturating_add(1),
                        low,
                    );
                    match attempt {
                        Some(others) => {
                            (st, Some(
                                Arguments {
                                    operands: cons(value.operand, others.operands),
                                    types: cons(value.ty, others.types),
                                },
                            ))
                        },
                        _ => (st, None),
                    }
                },
                _ => (st, None),
            }
        },
    }
}

impl Builder {
    /// The fields of a struct from `field` on. One without a value is undefined.
    pub(crate) fn lower_struct_fields(
        &mut self,
        cx: &Context,
        schema: &List<SchemaField>,
        provided: &List<Provided>,
        field: usize,
        limit: usize,
    ) -> (r: Option<Arguments>)
        ensures
            (final(self)@, r) == spec_lower_struct_fields(
                cx,
                old(self)@,
                schema,
                provided,
                field,
                lowering(limit as nat),
            ),
        decreases limit, 1nat, schema.seq().len(),
    {
        proof {
            reveal_with_fuel(spec_lower_struct_fields, 2);
        }
        match schema {
            List::Nil => Some(Arguments { operands: List::Nil, types: List::Nil }),
            List::Cons(head, tail) => {
                let value = match provided_for(provided, field) {
                    Some(range) =>
                        self.expression(cx, range.start, range.end, Some(&head.ty), limit),
                    None => Some(Value { operand: undefined(head.ty.dup()), ty: head.ty.dup() }),
                };
                let Some(value) = value else {
                    return None;
                };
                let Some(others) = self.lower_struct_fields(
                    cx,
                    tail,
                    provided,
                    field.saturating_add(1),
                    limit,
                ) else {
                    return None;
                };
                Some(
                    Arguments {
                        operands: cons(value.operand, others.operands),
                        types: cons(value.ty, others.types),
                    },
                )
            },
        }
    }
}

/// A new struct.
#[verifier::opaque]
pub open spec fn spec_lower_new_struct(
    cx: &Context,
    st: State,
    ty: Type,
    start: usize,
    open: usize,
    end: usize,
    low: Lowering,
) -> (State, Option<Value>) {
    let schema = aggregate_schema(cx.program, &ty);
    let provided = spec_provided_fields(cx, next(open), before(end), &schema);
    let (st, attempt) = spec_lower_struct_fields(cx, st, &schema, &provided, 0, low);
    match attempt {
        Some(fields) => {
            let (st, operand) = spec_computed(
                st, ty.dup(),
                Rvalue::Aggregate {
                    ty: ty.dup(),
                    variant: None,
                    fields: fields.operands,
                    field_types: fields.types,
                },
                cx.span_at(start),
            );
            (st, Some(Value { operand, ty }))
        },
        _ => (st, None),
    }
}

impl Builder {
    /// A new struct.
    pub(crate) fn lower_new_struct(
        &mut self,
        cx: &Context,
        ty: Type,
        start: usize,
        open: usize,
        end: usize,
        limit: usize,
    ) -> (r: Option<Value>)
        ensures
            (final(self)@, r) == spec_lower_new_struct(
                cx,
                old(self)@,
                ty,
                start,
                open,
                end,
                lowering(limit as nat),
            ),
        decreases limit, 2nat, 0nat,
    {
        proof {
            reveal(spec_lower_new_struct);
        }
        let schema = aggregate_schema(cx.program, &ty);
        let provided = provided_fields(cx, next(open), before(end), &schema);
        let Some(fields) = self.lower_struct_fields(cx, &schema, &provided, 0, limit) else {
            return None;
        };
        let operand = self.computed(
            ty.dup(),
            Rvalue::Aggregate {
                ty: ty.dup(),
                variant: None,
                fields: fields.operands,
                field_types: fields.types,
            },
            cx.span_at(start),
        );
        Some(Value { operand, ty })
    }
}

/// An argument of a constructor, its type and its first token.
pub struct ConstructorArgument {
    pub value: Value,
    pub token: usize,
}

/// The arguments of a constructor, and what they show of the parameters of its class.
pub struct ConstructorArguments {
    pub arguments: List<ConstructorArgument>,
    pub substitutions: List<Substitution>,
}

/// The arguments of a constructor.
#[verifier::opaque]
pub open spec fn spec_lower_constructor_arguments(
    cx: &Context,
    st: State,
    ranges: &List<TokenRange>,
    parameters: &List<Type>,
    substitutions: List<Substitution>,
    low: Lowering,
) -> (State, Option<ConstructorArguments>)
    decreases ranges,
{
    match ranges {
        List::Nil => (st, Some(ConstructorArguments { arguments: List::Nil, substitutions })),
        List::Cons(range, rest) => {
            let parameter = spec_first_type(parameters);
            let (st, attempt) = (low.expression)(cx, st, range.start, range.end, parameter);
            match attempt {
                Some(value) => {
                    let shown = match parameter {
                        Some(parameter) => {
                            infer_mir_substitutions(parameter, &value.ty, substitutions)
                        },
                        None => substitutions,
                    };
                    let (st, attempt) = spec_lower_constructor_arguments(
                        cx,
                        st,
                        rest,
                        spec_other_types(parameters),
                        shown,
                        low,
                    );
                    match attempt {
                        Some(others) => {
                            (st, Some(
                                ConstructorArguments {
                                    arguments: cons(
                                        ConstructorArgument { value, token: range.start },
                                        others.arguments,
                                    ),
                                    substitutions: others.substitutions,
                                },
                            ))
                        },
                        _ => (st, None),
                    }
                },
                _ => (st, None),
            }
        },
    }
}

impl Builder {
    /// The arguments of a constructor.
    pub(crate) fn lower_constructor_arguments(
        &mut self,
        cx: &Context,
        ranges: &List<TokenRange>,
        parameters: &List<Type>,
        substitutions: List<Substitution>,
        limit: usize,
    ) -> (r: Option<ConstructorArguments>)
        ensures
            (final(self)@, r) == spec_lower_constructor_arguments(
                cx,
                old(self)@,
                ranges,
                parameters,
                substitutions,
                lowering(limit as nat),
            ),
        decreases limit, 1nat, ranges.seq().len(),
    {
        proof {
            reveal_with_fuel(spec_lower_constructor_arguments, 2);
        }
        match ranges {
            List::Nil => Some(ConstructorArguments { arguments: List::Nil, substitutions }),
            List::Cons(range, rest) => {
                let parameter = first_type(parameters);
                let Some(value) = self.expression(
                    cx,
                    range.start,
                    range.end,
                    parameter,
                    limit,
                ) else {
                    return None;
                };
                let shown = match parameter {
                    Some(parameter) => infer_mir_substitutions(parameter, &value.ty, substitutions),
                    None => substitutions,
                };
                let Some(others) = self.lower_constructor_arguments(
                    cx,
                    rest,
                    other_types(parameters),
                    shown,
                    limit,
                ) else {
                    return None;
                };
                Some(
                    ConstructorArguments {
                        arguments: cons(
                            ConstructorArgument { value, token: range.start },
                            others.arguments,
                        ),
                        substitutions: others.substitutions,
                    },
                )
            },
        }
    }
}

/// Whether a parameter is the optional form of a type.
#[verifier::allow_in_spec]
pub fn is_optional_of(parameter: Option<&Type>, ty: &Type) -> (r: bool)
    returns
        match parameter {
            Some(Type::Optional(inner)) => same_type(inner, ty),
            _ => false,
        },
{
    match parameter {
        Some(Type::Optional(inner)) => same_type(inner, ty),
        _ => false,
    }
}

/// An argument of a constructor as it is passed. A plain value is wrapped for an optional
/// parameter.
#[verifier::opaque]
pub open spec fn spec_pass_constructor_argument(
    cx: &Context,
    st: State,
    operand: Operand,
    ty: &Type,
    parameter: Option<&Type>,
    start: usize,
) -> (State, Operand) {
    match parameter {
        Some(optional) => {
            if !is_optional_of(parameter, ty) {
                (st, operand)
            } else {
                let span = cx.span_at(start);
                let (st, local) = spec_live(st, optional.dup(), span);
                let st = spec_wrapped(st, local, optional.dup(), operand, ty.dup(), span);
                (st, Operand::Move(whole(local)))
            }
        },
        None => (st, operand),
    }
}

impl Builder {
    /// An argument of a constructor as it is passed. A plain value is wrapped for an optional
    /// parameter.
    pub(crate) fn pass_constructor_argument(
        &mut self,
        cx: &Context,
        operand: Operand,
        ty: &Type,
        parameter: Option<&Type>,
        start: usize,
    ) -> (r: Operand)
        ensures
            (final(self)@, r) == spec_pass_constructor_argument(
                cx,
                old(self)@,
                operand,
                ty,
                parameter,
                start,
            ),
    {
        proof {
            reveal(spec_pass_constructor_argument);
        }
        match parameter {
            Some(optional) => {
                if !is_optional_of(parameter, ty) {
                    return operand;
                }
                let span = cx.span_at(start);
                let local = self.live(optional.dup(), span);
                self.wrapped(local, optional.dup(), operand, ty.dup(), span);
                Operand::Move(whole(local))
            },
            None => operand,
        }
    }
}

/// Undefined values for the optional ones among parameters.
pub open spec fn spec_undefined_for(parameters: &List<Type>) -> List<Operand>
    decreases parameters,
{
    match parameters {
        List::Nil => List::Nil,
        List::Cons(head, tail) => {
            if matches!(**head, Type::Optional(_)) {
                cons(undefined(head.dup()), spec_undefined_for(tail))
            } else {
                spec_undefined_for(tail)
            }
        },
    }
}

/// Undefined values for the optional ones among parameters.
#[verifier::allow_in_spec]
pub fn undefined_for(parameters: &List<Type>) -> (r: List<Operand>)
    returns
        spec_undefined_for(parameters),
    decreases parameters,
{
    proof {
        reveal_with_fuel(spec_undefined_for, 2);
    }
    match parameters {
        List::Nil => List::Nil,
        List::Cons(head, tail) => {
            if matches!(**head, Type::Optional(_)) {
                cons(undefined(head.dup()), undefined_for(tail))
            } else {
                undefined_for(tail)
            }
        },
    }
}

/// The arguments of a constructor as they are passed. Optional parameters without an argument
/// are undefined.
#[verifier::opaque]
pub open spec fn spec_pass_constructor_arguments(
    cx: &Context,
    st: State,
    arguments: List<ConstructorArgument>,
    parameters: &List<Type>,
    start: usize,
) -> (State, List<Operand>)
    decreases arguments,
{
    match arguments {
        List::Nil => (st, spec_undefined_for(parameters)),
        List::Cons(head, tail) => {
            let parameter = spec_first_type(parameters);
            let (st, argument) = spec_reborrow_argument(
                cx,
                st,
                head.value.operand,
                &head.value.ty,
                parameter,
                head.token,
            );
            let (st, passed) = spec_pass_constructor_argument(
                cx,
                st,
                argument,
                &head.value.ty,
                parameter,
                start,
            );
            let (st, others) = spec_pass_constructor_arguments(
                cx,
                st,
                *tail,
                spec_other_types(parameters),
                start,
            );
            (st, cons(passed, others))
        },
    }
}

impl Builder {
    /// The arguments of a constructor as they are passed. Optional parameters without an argument
    /// are undefined.
    pub(crate) fn pass_constructor_arguments(
        &mut self,
        cx: &Context,
        arguments: List<ConstructorArgument>,
        parameters: &List<Type>,
        start: usize,
    ) -> (r: List<Operand>)
        ensures
            (final(self)@, r) == spec_pass_constructor_arguments(
                cx,
                old(self)@,
                arguments,
                parameters,
                start,
            ),
        decreases arguments,
    {
        proof {
            reveal_with_fuel(spec_pass_constructor_arguments, 2);
        }
        match arguments {
            List::Nil => undefined_for(parameters),
            List::Cons(head, tail) => {
                let parameter = first_type(parameters);
                let argument = self.reborrow_argument(
                    cx,
                    head.value.operand,
                    &head.value.ty,
                    parameter,
                    head.token,
                );
                let passed = self.pass_constructor_argument(
                    cx,
                    argument,
                    &head.value.ty,
                    parameter,
                    start,
                );
                let others = self.pass_constructor_arguments(
                    cx,
                    *tail,
                    other_types(parameters),
                    start,
                );
                cons(passed, others)
            },
        }
    }
}

/// The arguments of a class type, as far as they are known.
pub open spec fn spec_class_arguments(
    generics: &List<GenericParameter>,
    substitutions: &List<Substitution>,
) -> List<Type>
    decreases generics,
{
    match generics {
        List::Nil => List::Nil,
        List::Cons(head, tail) => {
            let others = spec_class_arguments(tail, substitutions);
            if head.namespace == Namespace::Type {
                match substitution_for(substitutions, head.name) {
                    Some(ty) => cons(ty.dup(), others),
                    None => cons(Type::Generic(head.name), others),
                }
            } else {
                others
            }
        },
    }
}

/// The arguments of a class type, as far as they are known.
#[verifier::allow_in_spec]
pub fn class_arguments(
    generics: &List<GenericParameter>,
    substitutions: &List<Substitution>,
) -> (r: List<Type>)
    returns
        spec_class_arguments(generics, substitutions),
    decreases generics,
{
    proof {
        reveal_with_fuel(spec_class_arguments, 2);
    }
    match generics {
        List::Nil => List::Nil,
        List::Cons(head, tail) => {
            let others = class_arguments(tail, substitutions);
            if head.namespace == Namespace::Type {
                match substitution_for(substitutions, head.name) {
                    Some(ty) => cons(ty.dup(), others),
                    None => cons(Type::Generic(head.name), others),
                }
            } else {
                others
            }
        },
    }
}

/// The types of parameters, with what their own parameters stand for.
pub open spec fn constructor_parameters_from(
    parameters: Seq<Parameter>,
    substitutions: &List<Substitution>,
    from: nat,
) -> List<Type>
    decreases parameters.len() - from,
{
    if from >= parameters.len() {
        List::Nil
    } else {
        let item = &parameters[from as int];
        let found = Some(substitute_mir_type(&item.ty, substitutions));
        match found {
            Some(found) =>
                cons(found, constructor_parameters_from(parameters, substitutions, from + 1)),
            None => constructor_parameters_from(parameters, substitutions, from + 1),
        }
    }
}

/// The types of parameters, with what their own parameters stand for.
#[verifier::allow_in_spec]
pub fn constructor_parameters(
    parameters: &Vec<Parameter>,
    substitutions: &List<Substitution>,
) -> (r: List<Type>)
    returns
        constructor_parameters_from(parameters@, substitutions, 0),
{
    let mut list: List<Type> = List::Nil;
    let mut index: usize = parameters.len();
    while index > 0
        invariant
            index <= parameters@.len(),
            list == constructor_parameters_from(parameters@, substitutions, index as nat),
        decreases index,
    {
        index = index - 1;
        let item = &parameters[index];
        let found = Some(substitute_mir_type(&item.ty, substitutions));
        match found {
            Some(found) => {
                list = cons(found, list);
            },
            None => {},
        }
    }
    list
}

/// The parameters of a constructor, if there is one.
#[verifier::allow_in_spec]
pub fn parameter_templates(
    constructor: &Option<Method>,
    substitutions: &List<Substitution>,
) -> (r: List<Type>)
    returns
        match constructor {
            Some(constructor) => {
                constructor_parameters(
                    &constructor.function.parameters,
                    substitutions,
                )
            },
            None => List::Nil,
        },
{
    match constructor {
        Some(constructor) => constructor_parameters(
            &constructor.function.parameters,
            substitutions,
        ),
        None => List::Nil,
    }
}

/// The signature of a constructor for arguments of certain types.
#[verifier::opaque]
pub open spec fn spec_constructor_signature(
    definition: &Definition,
    constructor: &Option<Method>,
    parameters: &List<Type>,
    substitutions: &List<Substitution>,
) -> FunctionType {
    let effects = match constructor {
        Some(constructor) => dup_plain(&constructor.function.effects),
        None => List::Nil,
    };
    let is_unsafe = match constructor {
        Some(constructor) => constructor.function.is_unsafe,
        None => false,
    };
    FunctionType {
        parameters: substitute_mir_types(parameters, substitutions),
        result: Box::new(
            Type::Nominal(
                definition.declaration,
                spec_class_arguments(&definition.generics, substitutions),
            ),
        ),
        effects,
        generics: List::Nil,
        is_async: false,
        is_unsafe,
    }
}

/// The signature of a constructor for arguments of certain types.
#[verifier::allow_in_spec]
pub fn constructor_signature(
    definition: &Definition,
    constructor: &Option<Method>,
    parameters: &List<Type>,
    substitutions: &List<Substitution>,
) -> (r: FunctionType)
    returns
        spec_constructor_signature(definition, constructor, parameters, substitutions),
{
    proof {
        reveal(spec_constructor_signature);
    }
    let effects = match constructor {
        Some(constructor) => dup_plain(&constructor.function.effects),
        None => List::Nil,
    };
    let is_unsafe = match constructor {
        Some(constructor) => constructor.function.is_unsafe,
        None => false,
    };
    FunctionType {
        parameters: substitute_mir_types(parameters, substitutions),
        result: Box::new(
            Type::Nominal(
                definition.declaration,
                class_arguments(&definition.generics, substitutions),
            ),
        ),
        effects,
        generics: List::Nil,
        is_async: false,
        is_unsafe,
    }
}

/// The identity of a constructor, if there is one.
#[verifier::allow_in_spec]
pub fn constructor_member(constructor: &Option<Method>) -> (r: Option<MemberId>)
    returns
        match constructor {
            Some(constructor) => Some(constructor.id),
            None => None,
        },
{
    match constructor {
        Some(constructor) => Some(constructor.id),
        None => None,
    }
}

/// A new object of a class.
#[verifier::opaque]
pub open spec fn spec_lower_new_class(
    cx: &Context,
    st: State,
    definition: &Definition,
    constructor: &Option<Method>,
    arguments: &List<Type>,
    start: usize,
    open: usize,
    end: usize,
    low: Lowering,
) -> (State, Option<Value>) {
    let substitutions = bind_generics(&definition.generics, arguments, Bindable::Types, List::Nil);
    let parameters = parameter_templates(constructor, &substitutions);
    let ranges = cx.argument_ranges(next(open), before(end));
    let (st, attempt) = spec_lower_constructor_arguments(
        cx,
        st,
        &ranges,
        &parameters,
        substitutions,
        low,
    );
    match attempt {
        Some(lowered) => {
            let signature = spec_constructor_signature(
                definition,
                constructor,
                &parameters,
                &lowered.substitutions,
            );
            let (st, passed) = spec_pass_constructor_arguments(
                cx,
                st,
                lowered.arguments,
                &signature.parameters,
                start,
            );
            let function = Operand::Constant(
                Constant::Constructor {
                    owner: definition.declaration,
                    member: constructor_member(constructor),
                    ty: Type::Function(signature.dup()),
                },
            );
            spec_emit_call(cx, st, function, None, &signature, passed, start)
        },
        _ => (st, None),
    }
}

impl Builder {
    /// A new object of a class.
    pub(crate) fn lower_new_class(
        &mut self,
        cx: &Context,
        definition: &Definition,
        constructor: &Option<Method>,
        arguments: &List<Type>,
        start: usize,
        open: usize,
        end: usize,
        limit: usize,
    ) -> (r: Option<Value>)
        ensures
            (final(self)@, r) == spec_lower_new_class(
                cx,
                old(self)@,
                definition,
                constructor,
                arguments,
                start,
                open,
                end,
                lowering(limit as nat),
            ),
        decreases limit, 2nat, 0nat,
    {
        proof {
            reveal(spec_lower_new_class);
        }
        let substitutions = bind_generics(
            &definition.generics,
            arguments,
            Bindable::Types,
            List::Nil,
        );
        let parameters = parameter_templates(constructor, &substitutions);
        let ranges = cx.argument_ranges(next(open), before(end));
        let Some(lowered) = self.lower_constructor_arguments(
            cx,
            &ranges,
            &parameters,
            substitutions,
            limit,
        ) else {
            return None;
        };
        let signature = constructor_signature(
            definition,
            constructor,
            &parameters,
            &lowered.substitutions,
        );
        let passed = self.pass_constructor_arguments(
            cx,
            lowered.arguments,
            &signature.parameters,
            start,
        );
        let function = Operand::Constant(
            Constant::Constructor {
                owner: definition.declaration,
                member: constructor_member(constructor),
                ty: Type::Function(signature.dup()),
            },
        );
        self.emit_call(cx, function, None, &signature, passed, start)
    }
}

/// A new struct or object.
#[verifier::opaque]
pub open spec fn spec_lower_new(
    cx: &Context,
    st: State,
    start: usize,
    end: usize,
    low: Lowering,
) -> (State, Option<Value>) {
    match cx.find_top_level(next(start), end, TokenKind::LeftParen) {
        Some(open) => {
            if cx.matching_token(
                open,
                TokenKind::LeftParen,
                TokenKind::RightParen,
            ) != Some(before(end)) {
                (st, None)
            } else {
                match cx.type_of_range(start, end) {
                    Some(ty) => {
                        match ty {
                            Type::Nominal(owner, arguments) => {
                                match cx.program.definition(owner) {
                                    Some(definition) => {
                                        match &definition.data {
                                            DefinitionData::Struct { .. } => {
                                                spec_lower_new_struct(
                                                    cx,
                                                    st,
                                                    Type::Nominal(owner, arguments),
                                                    start,
                                                    open,
                                                    end,
                                                    low,
                                                )
                                            },
                                            DefinitionData::Class { constructor, .. } => {
                                                spec_lower_new_class(
                                                    cx,
                                                    st,
                                                    definition,
                                                    constructor,
                                                    &arguments,
                                                    start,
                                                    open,
                                                    end,
                                                    low,
                                                )
                                            },
                                            _ => (st, None),
                                        }
                                    },
                                    _ => (st, None),
                                }
                            },
                            _ => (st, None),
                        }
                    },
                    _ => (st, None),
                }
            }
        },
        _ => (st, None),
    }
}

impl Builder {
    /// A new struct or object.
    pub(crate) fn lower_new(
        &mut self,
        cx: &Context,
        start: usize,
        end: usize,
        limit: usize,
    ) -> (r: Option<Value>)
        ensures
            (final(self)@, r) == spec_lower_new(
                cx,
                old(self)@,
                start,
                end,
                lowering(limit as nat),
            ),
        decreases limit, 3nat, 0nat,
    {
        proof {
            reveal(spec_lower_new);
        }
        let Some(open) = cx.find_top_level(next(start), end, TokenKind::LeftParen) else {
            return None;
        };
        if cx.matching_token(
            open,
            TokenKind::LeftParen,
            TokenKind::RightParen,
        ) != Some(before(end)) {
            return None;
        }
        let Some(ty) = cx.type_of_range(start, end) else {
            return None;
        };
        let Type::Nominal(owner, arguments) = ty else {
            return None;
        };
        let Some(definition) = cx.program.definition(owner) else {
            return None;
        };
        match &definition.data {
            DefinitionData::Struct { .. } => {
                self.lower_new_struct(cx, Type::Nominal(owner, arguments), start, open, end, limit)
            },
            DefinitionData::Class { constructor, .. } => {
                self.lower_new_class(
                    cx,
                    definition,
                    constructor,
                    &arguments,
                    start,
                    open,
                    end,
                    limit,
                )
            },
            _ => None,
        }
    }
}

/// The rank of a written field: the position of its name in the schema, or behind all.
#[verifier::allow_in_spec]
pub fn field_rank(cx: &Context, range: TokenRange, schema: &List<SchemaField>) -> (r: usize)
    returns
        match cx.name_at(range.start) {
            Some(name) => {
                match schema_position(schema, name, 0) {
                    Some(position) => position,
                    None => usize::MAX,
                }
            },
            None => usize::MAX,
        },
{
    match cx.name_at(range.start) {
        Some(name) => match schema_position(schema, name, 0) {
            Some(position) => position,
            None => usize::MAX,
        },
        None => usize::MAX,
    }
}

/// Ranges in the order of their ranks with one more, before the others of its rank.
pub open spec fn spec_with_ranked(
    cx: &Context,
    range: TokenRange,
    ranges: List<TokenRange>,
    schema: &List<SchemaField>,
) -> List<TokenRange>
    decreases ranges,
{
    match ranges {
        List::Nil => one(range),
        List::Cons(head, tail) => {
            if field_rank(cx, range, schema) <= field_rank(cx, *head, schema) {
                cons(range, List::Cons(head, tail))
            } else {
                List::Cons(head, Box::new(spec_with_ranked(cx, range, *tail, schema)))
            }
        },
    }
}

/// Ranges in the order of their ranks with one more, before the others of its rank.
#[verifier::allow_in_spec]
pub fn with_ranked(
    cx: &Context,
    range: TokenRange,
    ranges: List<TokenRange>,
    schema: &List<SchemaField>,
) -> (r: List<TokenRange>)
    returns
        spec_with_ranked(cx, range, ranges, schema),
    decreases ranges,
{
    proof {
        reveal_with_fuel(spec_with_ranked, 2);
    }
    match ranges {
        List::Nil => one(range),
        List::Cons(head, tail) => {
            if field_rank(cx, range, schema) <= field_rank(cx, *head, schema) {
                cons(range, List::Cons(head, tail))
            } else {
                List::Cons(head, Box::new(with_ranked(cx, range, *tail, schema)))
            }
        },
    }
}

/// Ranges in the order of their ranks. Those of one rank keep their order.
pub open spec fn spec_ranked(
    cx: &Context,
    ranges: List<TokenRange>,
    schema: &List<SchemaField>,
) -> List<TokenRange>
    decreases ranges,
{
    match ranges {
        List::Nil => List::Nil,
        List::Cons(head, tail) => {
            spec_with_ranked(cx, *head, spec_ranked(cx, *tail, schema), schema)
        },
    }
}

/// Ranges in the order of their ranks. Those of one rank keep their order.
#[verifier::allow_in_spec]
pub fn ranked(
    cx: &Context,
    ranges: List<TokenRange>,
    schema: &List<SchemaField>,
) -> (r: List<TokenRange>)
    returns
        spec_ranked(cx, ranges, schema),
    decreases ranges,
{
    proof {
        reveal_with_fuel(spec_ranked, 2);
    }
    match ranges {
        List::Nil => List::Nil,
        List::Cons(head, tail) => with_ranked(cx, *head, ranked(cx, *tail, schema), schema),
    }
}

/// The type of the field at a position of an aggregate.
#[verifier::allow_in_spec]
pub fn field_type_at(schema: &List<SchemaField>, ty: &Type, index: usize) -> (r: Option<Type>)
    returns
        match schema_type(schema, index) {
            Some(field) => Some(field),
            None => aggregate_field_type(ty, index),
        },
{
    match schema_type(schema, index) {
        Some(field) => Some(field),
        None => aggregate_field_type(ty, index),
    }
}

/// The fields of an aggregate from the field `index` on.
#[verifier::opaque]
pub open spec fn spec_lower_aggregate_fields(
    cx: &Context,
    st: State,
    ranges: &List<TokenRange>,
    schema: &List<SchemaField>,
    ty: &Type,
    index: usize,
    low: Lowering,
) -> (State, Option<Arguments>)
    decreases ranges,
{
    match ranges {
        List::Nil => (st, Some(Arguments { operands: List::Nil, types: List::Nil })),
        List::Cons(range, rest) => {
            let written = behind_colon(cx, **range);
            let expected = field_type_at(schema, ty, index);
            let (st, attempt) = (low.expression)(cx, st, written.start, written.end, crate::lowering::emit::type_ref(&expected));
            match attempt {
                Some(value) => {
                    let (st, attempt) = spec_lower_aggregate_fields(
                        cx,
                        st,
                        rest,
                        schema,
                        ty,
                        index.saturating_add(1),
                        low,
                    );
                    match attempt {
                        Some(others) => {
                            let field_type = match expected {
                                Some(expected) => expected,
                                None => value.ty,
                            };
                            (st, Some(
                                Arguments {
                                    operands: cons(value.operand, others.operands),
                                    types: cons(field_type, others.types),
                                },
                            ))
                        },
                        _ => (st, None),
                    }
                },
                _ => (st, None),
            }
        },
    }
}

impl Builder {
    /// The fields of an aggregate from the field `index` on.
    pub(crate) fn lower_aggregate_fields(
        &mut self,
        cx: &Context,
        ranges: &List<TokenRange>,
        schema: &List<SchemaField>,
        ty: &Type,
        index: usize,
        limit: usize,
    ) -> (r: Option<Arguments>)
        ensures
            (final(self)@, r) == spec_lower_aggregate_fields(
                cx,
                old(self)@,
                ranges,
                schema,
                ty,
                index,
                lowering(limit as nat),
            ),
        decreases limit, 1nat, ranges.seq().len(),
    {
        proof {
            reveal_with_fuel(spec_lower_aggregate_fields, 2);
        }
        match ranges {
            List::Nil => Some(Arguments { operands: List::Nil, types: List::Nil }),
            List::Cons(range, rest) => {
                let written = behind_colon(cx, **range);
                let expected = field_type_at(schema, ty, index);
                let Some(value) = self.expression(
                    cx,
                    written.start,
                    written.end,
                    crate::lowering::emit::type_ref(&expected),
                    limit,
                ) else {
                    return None;
                };
                let Some(others) = self.lower_aggregate_fields(
                    cx,
                    rest,
                    schema,
                    ty,
                    index.saturating_add(1),
                    limit,
                ) else {
                    return None;
                };
                let field_type = match expected {
                    Some(expected) => expected,
                    None => value.ty,
                };
                Some(
                    Arguments {
                        operands: cons(value.operand, others.operands),
                        types: cons(field_type, others.types),
                    },
                )
            },
        }
    }
}

/// The parts of an aggregate, those of a struct in the order of its fields.
#[verifier::opaque]
pub open spec fn spec_aggregate_ranges(
    cx: &Context,
    start: usize,
    end: usize,
    schema: &List<SchemaField>,
) -> List<TokenRange> {
    let ranges = cx.argument_ranges(next(start), before(end));
    if cx.is(start, TokenKind::LeftBrace) && !schema.is_empty() {
        spec_ranked(cx, ranges, schema)
    } else {
        ranges
    }
}

/// The parts of an aggregate, those of a struct in the order of its fields.
#[verifier::allow_in_spec]
pub fn aggregate_ranges(
    cx: &Context,
    start: usize,
    end: usize,
    schema: &List<SchemaField>,
) -> (r: List<TokenRange>)
    returns
        spec_aggregate_ranges(cx, start, end, schema),
{
    proof {
        reveal(spec_aggregate_ranges);
    }
    let ranges = cx.argument_ranges(next(start), before(end));
    if cx.is(start, TokenKind::LeftBrace) && !schema.is_empty() {
        ranked(cx, ranges, schema)
    } else {
        ranges
    }
}

/// The type of a range of tokens: the one that was checked, or the one that is expected.
#[verifier::allow_in_spec]
pub fn checked_type(
    cx: &Context,
    start: usize,
    end: usize,
    expected: Option<&Type>,
) -> (r: Option<Type>)
    returns
        match cx.type_of_range(start, end) {
            Some(ty) => Some(ty),
            None => {
                match expected {
                    Some(ty) => Some(ty.dup()),
                    None => None,
                }
            },
        },
{
    match cx.type_of_range(start, end) {
        Some(ty) => Some(ty),
        None => match expected {
            Some(ty) => Some(ty.dup()),
            None => None,
        },
    }
}

/// An array, a tuple or a struct that is written out.
#[verifier::opaque]
pub open spec fn spec_lower_aggregate(
    cx: &Context,
    st: State,
    start: usize,
    end: usize,
    expected: Option<&Type>,
    low: Lowering,
) -> (State, Option<Value>) {
    match checked_type(cx, start, end, expected) {
        Some(ty) => {
            let schema = aggregate_schema(cx.program, &ty);
            let ranges = spec_aggregate_ranges(cx, start, end, &schema);
            let (st, attempt) = spec_lower_aggregate_fields(cx, st, &ranges, &schema, &ty, 0, low);
            match attempt {
                Some(fields) => {
                    let (st, operand) = spec_computed(
                        st, ty.dup(),
                        Rvalue::Aggregate {
                            ty: ty.dup(),
                            variant: None,
                            fields: fields.operands,
                            field_types: fields.types,
                        },
                        cx.span_at(start),
                    );
                    (st, Some(Value { operand, ty }))
                },
                _ => (st, None),
            }
        },
        _ => (st, None),
    }
}

impl Builder {
    /// An array, a tuple or a struct that is written out.
    pub(crate) fn lower_aggregate(
        &mut self,
        cx: &Context,
        start: usize,
        end: usize,
        expected: Option<&Type>,
        limit: usize,
    ) -> (r: Option<Value>)
        ensures
            (final(self)@, r) == spec_lower_aggregate(
                cx,
                old(self)@,
                start,
                end,
                expected,
                lowering(limit as nat),
            ),
        decreases limit, 2nat, 0nat,
    {
        proof {
            reveal(spec_lower_aggregate);
        }
        let Some(ty) = checked_type(cx, start, end, expected) else {
            return None;
        };
        let schema = aggregate_schema(cx.program, &ty);
        let ranges = aggregate_ranges(cx, start, end, &schema);
        let Some(fields) = self.lower_aggregate_fields(cx, &ranges, &schema, &ty, 0, limit) else {
            return None;
        };
        let operand = self.computed(
            ty.dup(),
            Rvalue::Aggregate {
                ty: ty.dup(),
                variant: None,
                fields: fields.operands,
                field_types: fields.types,
            },
            cx.span_at(start),
        );
        Some(Value { operand, ty })
    }
}

} // verus!
