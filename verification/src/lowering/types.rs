//! Types while a body is lowered: substitution, inference, casts and operators.

use vstd::prelude::*;

use crate::hir::{
    dup_generics, same_type, DeclarationId, FunctionType, GenericParameter, ModuleRole, Namespace,
    PrimitiveType, Program, Type,
};
use crate::list::{cons, dup_plain, List};
use crate::mir::{BinaryOperator, CastKind, Constant, Operand, Projection};
use crate::names::{BuiltinName, Name, Names};
use crate::program::promise_effects;
use crate::syntax::TokenKind;

verus! {

/// The type that stands for a generic or a lifetime parameter.
#[derive(Debug, PartialEq, Eq)]
pub struct Substitution {
    pub name: Name,
    pub ty: Type,
}

/// The type that stands for a name. Of two entries for the same name the first one counts.
pub open spec fn lookup<'a>(substitutions: &'a List<Substitution>, name: Name) -> Option<&'a Type>
    decreases substitutions,
{
    match substitutions {
        List::Nil => None,
        List::Cons(head, tail) => if head.name == name {
            Some(&head.ty)
        } else {
            lookup(&**tail, name)
        },
    }
}

/// The type that stands for a name.
#[verifier::allow_in_spec]
pub fn substitution_for(substitutions: &List<Substitution>, name: Name) -> (r: Option<&Type>)
    returns
        lookup(substitutions, name),
    decreases substitutions,
{
    match substitutions {
        List::Nil => None,
        List::Cons(head, tail) => if head.name == name {
            Some(&head.ty)
        } else {
            substitution_for(tail, name)
        },
    }
}

/// The substitutions with an entry for a name, unless it has one.
#[verifier::allow_in_spec]
pub fn with_default(substitutions: List<Substitution>, name: Name, ty: Type) -> (r: List<
    Substitution,
>)
    returns
        match lookup(&substitutions, name) {
            Some(_) => substitutions,
            None => cons(Substitution { name, ty }, substitutions),
        },
{
    match substitution_for(&substitutions, name) {
        Some(_) => substitutions,
        None => cons(Substitution { name, ty }, substitutions),
    }
}

/// A type with its parameters replaced.
pub open spec fn substituted(ty: Type, substitutions: &List<Substitution>) -> Type
    decreases ty,
{
    match ty {
        Type::Generic(name) | Type::Lifetime(name) => match lookup(substitutions, name) {
            Some(replacement) => *replacement,
            None => ty,
        },
        Type::Nominal(id, arguments) =>
            Type::Nominal(id, all_substituted(arguments, substitutions)),
        Type::DynamicInterface(id, arguments) => Type::DynamicInterface(
            id,
            all_substituted(arguments, substitutions),
        ),
        Type::Optional(inner) => Type::Optional(Box::new(substituted(*inner, substitutions))),
        Type::Array(inner, length) => Type::Array(
            Box::new(substituted(*inner, substitutions)),
            length,
        ),
        Type::Slice(inner) => Type::Slice(Box::new(substituted(*inner, substitutions))),
        Type::Tuple(elements) => Type::Tuple(all_substituted(elements, substitutions)),
        Type::Template(captures) => Type::Template(all_substituted(captures, substitutions)),
        Type::Reference { mutable, lifetime, referent } => Type::Reference {
            mutable,
            lifetime: match lookup(substitutions, lifetime) {
                Some(Type::Lifetime(replacement)) => *replacement,
                _ => lifetime,
            },
            referent: Box::new(substituted(*referent, substitutions)),
        },
        Type::RawPointer { mutable, pointee } => Type::RawPointer {
            mutable,
            pointee: Box::new(substituted(*pointee, substitutions)),
        },
        Type::Promise { result, error, effects } => Type::Promise {
            result: Box::new(substituted(*result, substitutions)),
            error: Box::new(substituted(*error, substitutions)),
            effects: promise_effects(&substituted(*error, substitutions), &effects),
        },
        Type::Function(function) => Type::Function(
            FunctionType {
                parameters: all_substituted(function.parameters, substitutions),
                result: Box::new(substituted(*function.result, substitutions)),
                ..function
            },
        ),
        _ => ty,
    }
}

/// Types with their parameters replaced.
pub open spec fn all_substituted(
    types: List<Type>,
    substitutions: &List<Substitution>,
) -> List<Type>
    decreases types,
{
    match types {
        List::Nil => List::Nil,
        List::Cons(head, tail) => List::Cons(
            Box::new(substituted(*head, substitutions)),
            Box::new(all_substituted(*tail, substitutions)),
        ),
    }
}

/// A type with its parameters replaced.
#[verifier::allow_in_spec]
pub fn substitute_mir_type(ty: &Type, substitutions: &List<Substitution>) -> (r: Type)
    returns
        substituted(*ty, substitutions),
    decreases ty,
{
    match ty {
        Type::Generic(name) => match substitution_for(substitutions, *name) {
            Some(replacement) => replacement.dup(),
            None => Type::Generic(*name),
        },
        Type::Lifetime(name) => match substitution_for(substitutions, *name) {
            Some(replacement) => replacement.dup(),
            None => Type::Lifetime(*name),
        },
        Type::Nominal(id, arguments) => Type::Nominal(
            *id,
            substitute_mir_types(arguments, substitutions),
        ),
        Type::DynamicInterface(id, arguments) => Type::DynamicInterface(
            *id,
            substitute_mir_types(arguments, substitutions),
        ),
        Type::Optional(inner) => Type::Optional(
            Box::new(substitute_mir_type(inner, substitutions)),
        ),
        Type::Array(inner, length) => Type::Array(
            Box::new(substitute_mir_type(inner, substitutions)),
            *length,
        ),
        Type::Slice(inner) => Type::Slice(Box::new(substitute_mir_type(inner, substitutions))),
        Type::Tuple(elements) => Type::Tuple(substitute_mir_types(elements, substitutions)),
        Type::Template(captures) => Type::Template(substitute_mir_types(captures, substitutions)),
        Type::Reference { mutable, lifetime, referent } => Type::Reference {
            mutable: *mutable,
            lifetime: match substitution_for(substitutions, *lifetime) {
                Some(Type::Lifetime(replacement)) => *replacement,
                _ => *lifetime,
            },
            referent: Box::new(substitute_mir_type(referent, substitutions)),
        },
        Type::RawPointer { mutable, pointee } => Type::RawPointer {
            mutable: *mutable,
            pointee: Box::new(substitute_mir_type(pointee, substitutions)),
        },
        Type::Promise { result, error, effects } => {
            let error = substitute_mir_type(error, substitutions);
            let effects = promise_effects(&error, effects);
            Type::Promise {
                result: Box::new(substitute_mir_type(result, substitutions)),
                error: Box::new(error),
                effects,
            }
        },
        Type::Function(function) => Type::Function(
            FunctionType {
                parameters: substitute_mir_types(&function.parameters, substitutions),
                result: Box::new(substitute_mir_type(&function.result, substitutions)),
                effects: dup_plain(&function.effects),
                generics: dup_generics(&function.generics),
                is_async: function.is_async,
                is_unsafe: function.is_unsafe,
            },
        ),
        _ => ty.dup(),
    }
}

/// Types with their parameters replaced.
#[verifier::allow_in_spec]
pub fn substitute_mir_types(
    types: &List<Type>,
    substitutions: &List<Substitution>,
) -> (r: List<Type>)
    returns
        all_substituted(*types, substitutions),
    decreases types,
{
    match types {
        List::Nil => List::Nil,
        List::Cons(head, tail) => List::Cons(
            Box::new(substitute_mir_type(head, substitutions)),
            Box::new(substitute_mir_types(tail, substitutions)),
        ),
    }
}

/// Replacing nothing leaves a type as it is, but for promises, whose errors follow from their
/// error type.
pub proof fn substituting_nothing_keeps_type(ty: Type)
    requires
        has_canonical_promises(ty),
    ensures
        substituted(ty, &List::Nil) == ty,
    decreases ty,
{
    match ty {
        Type::Nominal(_, types)
        | Type::DynamicInterface(_, types)
        | Type::Tuple(types)
        | Type::Template(types) => {
            lemma_substituting_nothing_keeps_types(types);
        },
        Type::Optional(inner)
        | Type::Array(inner, _)
        | Type::Slice(inner)
        | Type::Reference { referent: inner, .. }
        | Type::RawPointer { pointee: inner, .. } => {
            substituting_nothing_keeps_type(*inner);
        },
        Type::Promise { result, error, .. } => {
            substituting_nothing_keeps_type(*result);
            substituting_nothing_keeps_type(*error);
        },
        Type::Function(function) => {
            lemma_substituting_nothing_keeps_types(function.parameters);
            substituting_nothing_keeps_type(*function.result);
        },
        _ => {},
    }
}

proof fn lemma_substituting_nothing_keeps_types(types: List<Type>)
    requires
        have_canonical_promises(types),
    ensures
        all_substituted(types, &List::Nil) == types,
    decreases types,
{
    match types {
        List::Nil => {},
        List::Cons(head, tail) => {
            substituting_nothing_keeps_type(*head);
            lemma_substituting_nothing_keeps_types(*tail);
        },
    }
}

/// Whether every promise in a type lists the errors that its error type names.
pub open spec fn has_canonical_promises(ty: Type) -> bool
    decreases ty,
{
    match ty {
        Type::Nominal(_, types)
        | Type::DynamicInterface(_, types)
        | Type::Tuple(types)
        | Type::Template(types) => have_canonical_promises(types),
        Type::Optional(inner)
        | Type::Array(inner, _)
        | Type::Slice(inner)
        | Type::Reference { referent: inner, .. }
        | Type::RawPointer { pointee: inner, .. } => has_canonical_promises(*inner),
        Type::Promise { result, error, effects } => has_canonical_promises(*result)
            && has_canonical_promises(*error) && promise_effects(&*error, &effects) == effects,
        Type::Function(function) => have_canonical_promises(function.parameters)
            && has_canonical_promises(*function.result),
        _ => true,
    }
}

/// Whether every promise in the types lists the errors that its error type names.
pub open spec fn have_canonical_promises(types: List<Type>) -> bool
    decreases types,
{
    match types {
        List::Nil => true,
        List::Cons(head, tail) => has_canonical_promises(*head) && have_canonical_promises(*tail),
    }
}

/// The substitutions, completed by what a template must stand for to become the concrete type.
pub open spec fn inferred(
    template: Type,
    concrete: Type,
    substitutions: List<Substitution>,
) -> List<Substitution>
    decreases template,
{
    match (template, concrete) {
        (Type::Generic(name), _) | (Type::Lifetime(name), _) => with_default(
            substitutions,
            name,
            concrete,
        ),
        (Type::Optional(left), Type::Optional(right))
        | (Type::Array(left, _), Type::Array(right, _))
        | (Type::Slice(left), Type::Slice(right))
        | (Type::RawPointer { pointee: left, .. }, Type::RawPointer { pointee: right, .. }) =>
        inferred(*left, *right, substitutions),
        (
            Type::Promise { result: left, error: left_error, .. },
            Type::Promise { result: right, error: right_error, .. },
        ) => inferred(*left_error, *right_error, inferred(*left, *right, substitutions)),
        (
            Type::Reference { lifetime: left_lifetime, referent: left, .. },
            Type::Reference { lifetime: right_lifetime, referent: right, .. },
        ) => inferred(
            *left,
            *right,
            if left_lifetime != Name::Scope && left_lifetime != Name::Static {
                with_default(substitutions, left_lifetime, Type::Lifetime(right_lifetime))
            } else {
                substitutions
            },
        ),
        (Type::Tuple(left), Type::Tuple(right))
        | (Type::Template(left), Type::Template(right))
        | (Type::Nominal(_, left), Type::Nominal(_, right))
        | (Type::DynamicInterface(_, left), Type::DynamicInterface(_, right)) => all_inferred(
            left,
            right,
            substitutions,
        ),
        (Type::Function(left), Type::Function(right)) => inferred(
            *left.result,
            *right.result,
            all_inferred(left.parameters, right.parameters, substitutions),
        ),
        _ => substitutions,
    }
}

/// The substitutions, completed by what the templates must stand for, position by position.
pub open spec fn all_inferred(
    templates: List<Type>,
    concrete: List<Type>,
    substitutions: List<Substitution>,
) -> List<Substitution>
    decreases templates,
{
    match (templates, concrete) {
        (List::Cons(template, templates), List::Cons(ty, types)) => all_inferred(
            *templates,
            *types,
            inferred(*template, *ty, substitutions),
        ),
        _ => substitutions,
    }
}

/// Completes substitutions by what a template must stand for to become the concrete type.
#[verifier::allow_in_spec]
pub fn infer_mir_substitutions(
    template: &Type,
    concrete: &Type,
    substitutions: List<Substitution>,
) -> (r: List<Substitution>)
    returns
        inferred(*template, *concrete, substitutions),
    decreases template,
{
    match (template, concrete) {
        (Type::Generic(name), _) => with_default(substitutions, *name, concrete.dup()),
        (Type::Lifetime(name), _) => with_default(substitutions, *name, concrete.dup()),
        (Type::Optional(left), Type::Optional(right)) => infer_mir_substitutions(
            left,
            right,
            substitutions,
        ),
        (Type::Array(left, _), Type::Array(right, _)) => infer_mir_substitutions(
            left,
            right,
            substitutions,
        ),
        (Type::Slice(left), Type::Slice(right)) => infer_mir_substitutions(
            left,
            right,
            substitutions,
        ),
        (
            Type::RawPointer { pointee: left, .. },
            Type::RawPointer { pointee: right, .. },
        ) => infer_mir_substitutions(left, right, substitutions),
        (
            Type::Promise { result: left, error: left_error, .. },
            Type::Promise { result: right, error: right_error, .. },
        ) => infer_mir_substitutions(
            left_error,
            right_error,
            infer_mir_substitutions(left, right, substitutions),
        ),
        (
            Type::Reference { lifetime: left_lifetime, referent: left, .. },
            Type::Reference { lifetime: right_lifetime, referent: right, .. },
        ) => infer_mir_substitutions(
            left,
            right,
            if *left_lifetime != Name::Scope && *left_lifetime != Name::Static {
                with_default(substitutions, *left_lifetime, Type::Lifetime(*right_lifetime))
            } else {
                substitutions
            },
        ),
        (Type::Tuple(left), Type::Tuple(right)) => infer_all_substitutions(
            left,
            right,
            substitutions,
        ),
        (Type::Template(left), Type::Template(right)) => infer_all_substitutions(
            left,
            right,
            substitutions,
        ),
        (Type::Nominal(_, left), Type::Nominal(_, right)) => infer_all_substitutions(
            left,
            right,
            substitutions,
        ),
        (
            Type::DynamicInterface(_, left),
            Type::DynamicInterface(_, right),
        ) => infer_all_substitutions(left, right, substitutions),
        (Type::Function(left), Type::Function(right)) => infer_mir_substitutions(
            &left.result,
            &right.result,
            infer_all_substitutions(&left.parameters, &right.parameters, substitutions),
        ),
        _ => substitutions,
    }
}

/// Completes substitutions by what the templates must stand for, position by position.
#[verifier::allow_in_spec]
pub fn infer_all_substitutions(
    templates: &List<Type>,
    concrete: &List<Type>,
    substitutions: List<Substitution>,
) -> (r: List<Substitution>)
    returns
        all_inferred(*templates, *concrete, substitutions),
    decreases templates,
{
    match (templates, concrete) {
        (List::Cons(template, templates), List::Cons(ty, types)) => infer_all_substitutions(
            templates,
            types,
            infer_mir_substitutions(template, ty, substitutions),
        ),
        _ => substitutions,
    }
}

/// Which parameters of a declaration its type arguments stand for.
#[derive(Clone, Copy, Debug, PartialEq, Eq, Structural)]
pub enum Bindable {
    /// The type parameters.
    Types,
    /// The type and lifetime parameters.
    TypesAndLifetimes,
}

/// Whether arguments stand for parameters of the namespace.
#[verifier::allow_in_spec]
pub fn is_bindable(namespace: Namespace, bindable: Bindable) -> (r: bool)
    returns
        match bindable {
            Bindable::Types => namespace == Namespace::Type,
            Bindable::TypesAndLifetimes => namespace != Namespace::Value,
        },
{
    match bindable {
        Bindable::Types => namespace == Namespace::Type,
        Bindable::TypesAndLifetimes => namespace != Namespace::Value,
    }
}

/// The substitutions that give each parameter its argument, in front of those that were there.
pub open spec fn bound(
    generics: List<GenericParameter>,
    arguments: List<Type>,
    bindable: Bindable,
    substitutions: List<Substitution>,
) -> List<Substitution>
    decreases generics,
{
    match generics {
        List::Nil => substitutions,
        List::Cons(parameter, rest) => if is_bindable(parameter.namespace, bindable) {
            match arguments {
                List::Nil => substitutions,
                List::Cons(argument, more) => bound(
                    *rest,
                    *more,
                    bindable,
                    cons(Substitution { name: parameter.name, ty: *argument }, substitutions),
                ),
            }
        } else {
            bound(*rest, arguments, bindable, substitutions)
        },
    }
}

/// The substitutions that give each parameter its argument, in front of those that were there.
#[verifier::allow_in_spec]
pub fn bind_generics(
    generics: &List<GenericParameter>,
    arguments: &List<Type>,
    bindable: Bindable,
    substitutions: List<Substitution>,
) -> (r: List<Substitution>)
    returns
        bound(*generics, *arguments, bindable, substitutions),
    decreases generics,
{
    match generics {
        List::Nil => substitutions,
        List::Cons(parameter, rest) => if is_bindable(parameter.namespace, bindable) {
            match arguments {
                List::Nil => substitutions,
                List::Cons(argument, more) => bind_generics(
                    rest,
                    more,
                    bindable,
                    cons(Substitution { name: parameter.name, ty: argument.dup() }, substitutions),
                ),
            }
        } else {
            bind_generics(rest, arguments, bindable, substitutions)
        },
    }
}

/// Whether a text comes before another in the order of their characters, from position `from` on.
pub open spec fn text_before(left: Seq<char>, right: Seq<char>, from: nat) -> bool
    decreases left.len() - from,
{
    if from >= right.len() {
        false
    } else if from >= left.len() {
        true
    } else if left[from as int] == right[from as int] {
        text_before(left, right, from + 1)
    } else {
        left[from as int] < right[from as int]
    }
}

fn is_text_before(left: &str, right: &str) -> (r: bool)
    ensures
        r == text_before(left@, right@, 0),
{
    let first = crate::text::characters(left);
    let second = crate::text::characters(right);
    let mut index: usize = 0;
    loop
        invariant
            index <= first@.len(),
            first@ == left@,
            second@ == right@,
            text_before(left@, right@, 0) == text_before(left@, right@, index as nat),
        decreases first@.len() - index,
    {
        if index >= second.len() {
            return false;
        }
        if index >= first.len() {
            return true;
        }
        if first[index] != second[index] {
            return first[index] < second[index];
        }
        index = index + 1;
    }
}

/// The name that comes first in alphabetical order among those that have an entry.
pub open spec fn first_name(substitutions: List<Substitution>, names: &Names) -> Option<Name>
    decreases substitutions,
{
    match substitutions {
        List::Nil => None,
        List::Cons(head, tail) => match first_name(*tail, names) {
            Some(name) => if text_before(names.text_of(head.name), names.text_of(name), 0) {
                Some(head.name)
            } else {
                Some(name)
            },
            None => Some(head.name),
        },
    }
}

fn find_first_name(substitutions: &List<Substitution>, names: &Names) -> (r: Option<Name>)
    ensures
        r == first_name(*substitutions, names),
    decreases substitutions,
{
    match substitutions {
        List::Nil => None,
        List::Cons(head, tail) => match find_first_name(tail, names) {
            Some(name) => if is_text_before(names.text(head.name), names.text(name)) {
                Some(head.name)
            } else {
                Some(name)
            },
            None => Some(head.name),
        },
    }
}

/// The type that stands for the alphabetically first of the names; the error type if there is
/// none.
#[verifier::allow_in_spec]
pub fn first_substitution(substitutions: &List<Substitution>, names: &Names) -> (r: Type)
    returns
        match first_name(*substitutions, names) {
            Some(name) => match lookup(substitutions, name) {
                Some(ty) => *ty,
                None => Type::Error,
            },
            None => Type::Error,
        },
{
    match find_first_name(substitutions, names) {
        Some(name) => match substitution_for(substitutions, name) {
            Some(ty) => ty.dup(),
            None => Type::Error,
        },
        None => Type::Error,
    }
}

/// The primitive type of that kind.
#[verifier::allow_in_spec]
pub fn primitive(primitive: PrimitiveType) -> (r: Type)
    returns
        Type::Primitive(primitive),
{
    Type::Primitive(primitive)
}

/// Whether a type is void.
#[verifier::allow_in_spec]
pub fn is_void(ty: &Type) -> (r: bool)
    returns
        *ty == Type::Primitive(PrimitiveType::Void),
{
    matches!(ty, Type::Primitive(PrimitiveType::Void))
}

/// Whether a type is an integer type.
#[verifier::allow_in_spec]
pub fn is_integer_type(ty: &Type) -> (r: bool)
    returns
        match ty {
            Type::Primitive(primitive) => match *primitive {
                PrimitiveType::I8
                | PrimitiveType::I16
                | PrimitiveType::I32
                | PrimitiveType::I64
                | PrimitiveType::I128
                | PrimitiveType::Isize
                | PrimitiveType::U8
                | PrimitiveType::U16
                | PrimitiveType::U32
                | PrimitiveType::U64
                | PrimitiveType::U128
                | PrimitiveType::Usize => true,
                _ => false,
            },
            _ => false,
        },
{
    match ty {
        Type::Primitive(primitive) => match *primitive {
            PrimitiveType::I8
            | PrimitiveType::I16
            | PrimitiveType::I32
            | PrimitiveType::I64
            | PrimitiveType::I128
            | PrimitiveType::Isize
            | PrimitiveType::U8
            | PrimitiveType::U16
            | PrimitiveType::U32
            | PrimitiveType::U64
            | PrimitiveType::U128
            | PrimitiveType::Usize => true,
            _ => false,
        },
        _ => false,
    }
}

/// Whether a type is a floating-point type.
#[verifier::allow_in_spec]
pub fn is_float_type(ty: &Type) -> (r: bool)
    returns
        *ty == Type::Primitive(PrimitiveType::F32) || *ty == Type::Primitive(PrimitiveType::F64),
{
    matches!(ty, Type::Primitive(PrimitiveType::F32 | PrimitiveType::F64))
}

/// A reference type.
#[verifier::allow_in_spec]
pub fn reference(mutable: bool, lifetime: Name, referent: Type) -> (r: Type)
    returns
        (Type::Reference { mutable, lifetime, referent: Box::new(referent) }),
{
    Type::Reference { mutable, lifetime, referent: Box::new(referent) }
}

/// The type of a string literal.
#[verifier::allow_in_spec]
pub fn static_str() -> (r: Type)
    returns
        reference(false, Name::Static, Type::Str),
{
    reference(false, Name::Static, Type::Str)
}

/// The type that a literal has when nothing else is said of it.
#[verifier::allow_in_spec]
pub fn atom_type(kind: TokenKind) -> (r: Type)
    returns
        match kind {
            TokenKind::True | TokenKind::False => Type::Primitive(PrimitiveType::Bool),
            TokenKind::IntegerLiteral => Type::Primitive(PrimitiveType::Isize),
            TokenKind::FloatLiteral => Type::Primitive(PrimitiveType::F64),
            TokenKind::CharacterLiteral => Type::Primitive(PrimitiveType::Char),
            TokenKind::StringLiteral => static_str(),
            _ => Type::Error,
        },
{
    match kind {
        TokenKind::True => Type::Primitive(PrimitiveType::Bool),
        TokenKind::False => Type::Primitive(PrimitiveType::Bool),
        TokenKind::IntegerLiteral => Type::Primitive(PrimitiveType::Isize),
        TokenKind::FloatLiteral => Type::Primitive(PrimitiveType::F64),
        TokenKind::CharacterLiteral => Type::Primitive(PrimitiveType::Char),
        TokenKind::StringLiteral => static_str(),
        _ => Type::Error,
    }
}

/// Whether a type is a string, or a reference to one.
#[verifier::allow_in_spec]
pub fn is_string_like(ty: &Type) -> (r: bool)
    returns
        match ty {
            Type::String | Type::Str => true,
            Type::Reference { referent, .. } => **referent == Type::Str || **referent
                == Type::String,
            _ => false,
        },
{
    match ty {
        Type::String => true,
        Type::Str => true,
        Type::Reference { referent, .. } => matches!(**referent, Type::Str | Type::String),
        _ => false,
    }
}

/// Whether a type is a reference to a string slice.
#[verifier::allow_in_spec]
pub fn is_str_reference(ty: &Type) -> (r: bool)
    returns
        match ty {
            Type::Reference { referent, .. } => **referent == Type::Str,
            _ => false,
        },
{
    match ty {
        Type::Reference { referent, .. } => matches!(**referent, Type::Str),
        _ => false,
    }
}

/// The type in which a binary operator takes its operands.
#[verifier::allow_in_spec]
pub fn binary_operand_type(left: &Type, right: &Type) -> (r: Type)
    returns
        if *left == *right {
            *left
        } else if is_string_like(left) && is_string_like(right) {
            if is_str_reference(left) && is_str_reference(right) {
                *left
            } else if *left == Type::String || *right == Type::String {
                Type::String
            } else {
                Type::Str
            }
        } else {
            Type::Error
        },
{
    if same_type(left, right) {
        return left.dup();
    }
    if is_string_like(left) && is_string_like(right) {
        if is_str_reference(left) && is_str_reference(right) {
            left.dup()
        } else if matches!(left, Type::String) || matches!(right, Type::String) {
            Type::String
        } else {
            Type::Str
        }
    } else {
        Type::Error
    }
}

/// An operand that leaves its place as it is.
#[verifier::allow_in_spec]
pub fn non_consuming_operand(operand: Operand) -> (r: Operand)
    returns
        match operand {
            Operand::Move(place) => Operand::Copy(place),
            _ => operand,
        },
{
    match operand {
        Operand::Move(place) => Operand::Copy(place),
        operand => operand,
    }
}

/// An operand of a comparison, with a reference to an owned string followed.
#[verifier::allow_in_spec]
pub fn normalize_string_comparison_operand(operand: Operand, ty: Type) -> (r: (Operand, Type))
    returns
        match ty {
            Type::Reference { referent, .. } => if *referent != Type::String {
                (operand, ty)
            } else {
                match operand {
                    Operand::Constant(Constant::String(_)) => (operand, Type::Str),
                    Operand::Constant(_) => (operand, ty),
                    Operand::Copy(place) | Operand::Move(place) => (
                        Operand::Copy(place.step(Projection::Dereference)),
                        *referent,
                    ),
                }
            },
            _ => (operand, ty),
        },
{
    let owned = match &ty {
        Type::Reference { referent, .. } => matches!(**referent, Type::String),
        _ => false,
    };
    if !owned {
        return (operand, ty);
    }
    match operand {
        Operand::Constant(constant) => match constant {
            Constant::String(text) => (Operand::Constant(Constant::String(text)), Type::Str),
            constant => (Operand::Constant(constant), ty),
        },
        Operand::Copy(place) => (Operand::Copy(place.step(Projection::Dereference)), Type::String),
        Operand::Move(place) => (Operand::Copy(place.step(Projection::Dereference)), Type::String),
    }
}

/// How a value of one type becomes a value of another.
#[verifier::allow_in_spec]
pub fn mir_cast_kind(source: &Type, target: &Type) -> (r: CastKind)
    returns
        match (*source, *target) {
            (Type::Reference { .. }, Type::Reference { .. }) => CastKind::Reborrow,
            (Type::RawPointer { .. }, Type::RawPointer { .. }) => CastKind::RawPointer,
            (Type::Reference { .. }, Type::RawPointer { .. }) => CastKind::RawPointer,
            (Type::Promise { .. }, Type::RawPointer { .. }) => CastKind::RawPointer,
            (Type::RawPointer { .. }, Type::Promise { .. }) => CastKind::RawPointer,
            (Type::Nominal(_, _), Type::DynamicInterface(_, _)) => CastKind::InterfaceCoercion,
            (Type::Generic(_), Type::DynamicInterface(_, _)) => CastKind::InterfaceCoercion,
            (Type::Reference { .. }, Type::DynamicInterface(_, _)) => CastKind::InterfaceCoercion,
            (Type::Nominal(_, _), Type::Nominal(_, _)) => CastKind::ClassUpcast,
            _ => CastKind::CheckedDowncast,
        },
{
    match (source, target) {
        (Type::Reference { .. }, Type::Reference { .. }) => CastKind::Reborrow,
        (Type::RawPointer { .. }, Type::RawPointer { .. }) => CastKind::RawPointer,
        (Type::Reference { .. }, Type::RawPointer { .. }) => CastKind::RawPointer,
        (Type::Promise { .. }, Type::RawPointer { .. }) => CastKind::RawPointer,
        (Type::RawPointer { .. }, Type::Promise { .. }) => CastKind::RawPointer,
        (Type::Nominal(_, _), Type::DynamicInterface(_, _)) => CastKind::InterfaceCoercion,
        (Type::Generic(_), Type::DynamicInterface(_, _)) => CastKind::InterfaceCoercion,
        (Type::Reference { .. }, Type::DynamicInterface(_, _)) => CastKind::InterfaceCoercion,
        (Type::Nominal(_, _), Type::Nominal(_, _)) => CastKind::ClassUpcast,
        _ => CastKind::CheckedDowncast,
    }
}

/// A binary operator and how tightly it binds.
#[derive(Clone, Copy, Debug, PartialEq, Eq, Structural)]
pub struct Binding {
    pub precedence: u8,
    pub operator: BinaryOperator,
}

/// The binary operator that a token stands for.
#[verifier::allow_in_spec]
pub fn binary_operator(kind: TokenKind) -> (r: Option<Binding>)
    returns
        match kind {
            TokenKind::PipePipe => Some(
                Binding { precedence: 1, operator: BinaryOperator::LogicalOr },
            ),
            TokenKind::AmpAmp => Some(
                Binding { precedence: 2, operator: BinaryOperator::LogicalAnd },
            ),
            TokenKind::Pipe => Some(Binding { precedence: 3, operator: BinaryOperator::BitOr }),
            TokenKind::Caret => Some(Binding { precedence: 4, operator: BinaryOperator::BitXor }),
            TokenKind::Amp => Some(Binding { precedence: 5, operator: BinaryOperator::BitAnd }),
            TokenKind::EqualEqualEqual => Some(
                Binding { precedence: 6, operator: BinaryOperator::Equal },
            ),
            TokenKind::BangEqualEqual => Some(
                Binding { precedence: 6, operator: BinaryOperator::NotEqual },
            ),
            TokenKind::Less => Some(Binding { precedence: 7, operator: BinaryOperator::Less }),
            TokenKind::LessEqual => Some(
                Binding { precedence: 7, operator: BinaryOperator::LessEqual },
            ),
            TokenKind::Greater => Some(
                Binding { precedence: 7, operator: BinaryOperator::Greater },
            ),
            TokenKind::GreaterEqual => Some(
                Binding { precedence: 7, operator: BinaryOperator::GreaterEqual },
            ),
            TokenKind::ShiftLeft => Some(
                Binding { precedence: 8, operator: BinaryOperator::ShiftLeft },
            ),
            TokenKind::ShiftRight => Some(
                Binding { precedence: 8, operator: BinaryOperator::ShiftRight },
            ),
            TokenKind::Plus => Some(Binding { precedence: 9, operator: BinaryOperator::Add }),
            TokenKind::Minus => Some(
                Binding { precedence: 9, operator: BinaryOperator::Subtract },
            ),
            TokenKind::Star => Some(
                Binding { precedence: 10, operator: BinaryOperator::Multiply },
            ),
            TokenKind::Slash => Some(Binding { precedence: 10, operator: BinaryOperator::Divide }),
            TokenKind::Percent => Some(
                Binding { precedence: 10, operator: BinaryOperator::Remainder },
            ),
            _ => None,
        },
{
    let (precedence, operator) = match kind {
        TokenKind::PipePipe => (1, BinaryOperator::LogicalOr),
        TokenKind::AmpAmp => (2, BinaryOperator::LogicalAnd),
        TokenKind::Pipe => (3, BinaryOperator::BitOr),
        TokenKind::Caret => (4, BinaryOperator::BitXor),
        TokenKind::Amp => (5, BinaryOperator::BitAnd),
        TokenKind::EqualEqualEqual => (6, BinaryOperator::Equal),
        TokenKind::BangEqualEqual => (6, BinaryOperator::NotEqual),
        TokenKind::Less => (7, BinaryOperator::Less),
        TokenKind::LessEqual => (7, BinaryOperator::LessEqual),
        TokenKind::Greater => (7, BinaryOperator::Greater),
        TokenKind::GreaterEqual => (7, BinaryOperator::GreaterEqual),
        TokenKind::ShiftLeft => (8, BinaryOperator::ShiftLeft),
        TokenKind::ShiftRight => (8, BinaryOperator::ShiftRight),
        TokenKind::Plus => (9, BinaryOperator::Add),
        TokenKind::Minus => (9, BinaryOperator::Subtract),
        TokenKind::Star => (10, BinaryOperator::Multiply),
        TokenKind::Slash => (10, BinaryOperator::Divide),
        TokenKind::Percent => (10, BinaryOperator::Remainder),
        _ => {
            return None;
        },
    };
    Some(Binding { precedence, operator })
}

/// The operator that an assignment token applies before it stores: none for a plain assignment.
#[verifier::allow_in_spec]
pub fn assignment_operator(kind: TokenKind) -> (r: Option<Option<BinaryOperator>>)
    returns
        match kind {
            TokenKind::Equal => Some(None),
            TokenKind::PlusEqual => Some(Some(BinaryOperator::Add)),
            TokenKind::MinusEqual => Some(Some(BinaryOperator::Subtract)),
            TokenKind::StarEqual => Some(Some(BinaryOperator::Multiply)),
            TokenKind::SlashEqual => Some(Some(BinaryOperator::Divide)),
            TokenKind::PercentEqual => Some(Some(BinaryOperator::Remainder)),
            TokenKind::AmpEqual => Some(Some(BinaryOperator::BitAnd)),
            TokenKind::PipeEqual => Some(Some(BinaryOperator::BitOr)),
            TokenKind::CaretEqual => Some(Some(BinaryOperator::BitXor)),
            TokenKind::ShiftLeftEqual => Some(Some(BinaryOperator::ShiftLeft)),
            TokenKind::ShiftRightEqual => Some(Some(BinaryOperator::ShiftRight)),
            _ => None,
        },
{
    match kind {
        TokenKind::Equal => Some(None),
        TokenKind::PlusEqual => Some(Some(BinaryOperator::Add)),
        TokenKind::MinusEqual => Some(Some(BinaryOperator::Subtract)),
        TokenKind::StarEqual => Some(Some(BinaryOperator::Multiply)),
        TokenKind::SlashEqual => Some(Some(BinaryOperator::Divide)),
        TokenKind::PercentEqual => Some(Some(BinaryOperator::Remainder)),
        TokenKind::AmpEqual => Some(Some(BinaryOperator::BitAnd)),
        TokenKind::PipeEqual => Some(Some(BinaryOperator::BitOr)),
        TokenKind::CaretEqual => Some(Some(BinaryOperator::BitXor)),
        TokenKind::ShiftLeftEqual => Some(Some(BinaryOperator::ShiftLeft)),
        TokenKind::ShiftRightEqual => Some(Some(BinaryOperator::ShiftRight)),
        _ => None,
    }
}

/// Whether a binary operator yields a truth value.
#[verifier::allow_in_spec]
pub fn yields_bool(operator: BinaryOperator) -> (r: bool)
    returns
        match operator {
            BinaryOperator::Equal
            | BinaryOperator::NotEqual
            | BinaryOperator::Less
            | BinaryOperator::LessEqual
            | BinaryOperator::Greater
            | BinaryOperator::GreaterEqual
            | BinaryOperator::LogicalAnd
            | BinaryOperator::LogicalOr => true,
            _ => false,
        },
{
    match operator {
        BinaryOperator::Equal
        | BinaryOperator::NotEqual
        | BinaryOperator::Less
        | BinaryOperator::LessEqual
        | BinaryOperator::Greater
        | BinaryOperator::GreaterEqual
        | BinaryOperator::LogicalAnd
        | BinaryOperator::LogicalOr => true,
        _ => false,
    }
}

/// The type that a predeclared name stands for.
#[verifier::allow_in_spec]
pub fn mir_primitive(name: Name) -> (r: Option<Type>)
    returns
        match name {
            Name::Builtin(builtin) => Some(
                match builtin {
                    BuiltinName::Bool => Type::Primitive(PrimitiveType::Bool),
                    BuiltinName::I8 => Type::Primitive(PrimitiveType::I8),
                    BuiltinName::I16 => Type::Primitive(PrimitiveType::I16),
                    BuiltinName::I32 => Type::Primitive(PrimitiveType::I32),
                    BuiltinName::I64 => Type::Primitive(PrimitiveType::I64),
                    BuiltinName::I128 => Type::Primitive(PrimitiveType::I128),
                    BuiltinName::Isize => Type::Primitive(PrimitiveType::Isize),
                    BuiltinName::U8 => Type::Primitive(PrimitiveType::U8),
                    BuiltinName::U16 => Type::Primitive(PrimitiveType::U16),
                    BuiltinName::U32 => Type::Primitive(PrimitiveType::U32),
                    BuiltinName::U64 => Type::Primitive(PrimitiveType::U64),
                    BuiltinName::U128 => Type::Primitive(PrimitiveType::U128),
                    BuiltinName::Usize => Type::Primitive(PrimitiveType::Usize),
                    BuiltinName::Number | BuiltinName::F64 => Type::Primitive(PrimitiveType::F64),
                    BuiltinName::F32 => Type::Primitive(PrimitiveType::F32),
                    BuiltinName::Char => Type::Primitive(PrimitiveType::Char),
                    BuiltinName::Void => Type::Primitive(PrimitiveType::Void),
                    BuiltinName::Never => Type::Primitive(PrimitiveType::Never),
                    BuiltinName::OwnedString => Type::String,
                    BuiltinName::Str => Type::Str,
                },
            ),
            _ => None,
        },
{
    match name {
        Name::Builtin(builtin) => Some(
            match builtin {
                BuiltinName::Bool => Type::Primitive(PrimitiveType::Bool),
                BuiltinName::I8 => Type::Primitive(PrimitiveType::I8),
                BuiltinName::I16 => Type::Primitive(PrimitiveType::I16),
                BuiltinName::I32 => Type::Primitive(PrimitiveType::I32),
                BuiltinName::I64 => Type::Primitive(PrimitiveType::I64),
                BuiltinName::I128 => Type::Primitive(PrimitiveType::I128),
                BuiltinName::Isize => Type::Primitive(PrimitiveType::Isize),
                BuiltinName::U8 => Type::Primitive(PrimitiveType::U8),
                BuiltinName::U16 => Type::Primitive(PrimitiveType::U16),
                BuiltinName::U32 => Type::Primitive(PrimitiveType::U32),
                BuiltinName::U64 => Type::Primitive(PrimitiveType::U64),
                BuiltinName::U128 => Type::Primitive(PrimitiveType::U128),
                BuiltinName::Usize => Type::Primitive(PrimitiveType::Usize),
                BuiltinName::Number => Type::Primitive(PrimitiveType::F64),
                BuiltinName::F64 => Type::Primitive(PrimitiveType::F64),
                BuiltinName::F32 => Type::Primitive(PrimitiveType::F32),
                BuiltinName::Char => Type::Primitive(PrimitiveType::Char),
                BuiltinName::Void => Type::Primitive(PrimitiveType::Void),
                BuiltinName::Never => Type::Primitive(PrimitiveType::Never),
                BuiltinName::OwnedString => Type::String,
                BuiltinName::Str => Type::Str,
            },
        ),
        _ => None,
    }
}

/// The type of the element at a position of a tuple, array or slice.
#[verifier::allow_in_spec]
pub fn aggregate_field_type(ty: &Type, index: usize) -> (r: Option<Type>)
    returns
        match ty {
            Type::Tuple(elements) => match elements.spec_nth(index as nat) {
                Some(element) => Some(*element),
                None => None,
            },
            Type::Array(element, _) | Type::Slice(element) => Some(**element),
            _ => None,
        },
{
    match ty {
        Type::Tuple(elements) => match elements.nth(index) {
            Some(element) => Some(element.dup()),
            None => None,
        },
        Type::Array(element, _) => Some(element.dup()),
        Type::Slice(element) => Some(element.dup()),
        _ => None,
    }
}

/// The type of the items of an array or slice, or of a reference to one.
pub open spec fn iterable_item(ty: Type) -> Option<Type>
    decreases ty,
{
    match ty {
        Type::Array(element, _) | Type::Slice(element) => Some(*element),
        Type::Reference { referent, .. } => iterable_item(*referent),
        _ => None,
    }
}

/// The type of the items of an array or slice, or of a reference to one.
#[verifier::allow_in_spec]
pub fn builtin_iterable_item(ty: &Type) -> (r: Option<Type>)
    returns
        iterable_item(*ty),
    decreases ty,
{
    match ty {
        Type::Array(element, _) => Some(element.dup()),
        Type::Slice(element) => Some(element.dup()),
        Type::Reference { referent, .. } => builtin_iterable_item(referent),
        _ => None,
    }
}

/// The type that a pointer or a reference leads to.
#[verifier::allow_in_spec]
pub fn pointee_of(ty: Type) -> (r: Option<Type>)
    returns
        match ty {
            Type::RawPointer { pointee, .. } => Some(*pointee),
            Type::Reference { referent, .. } => Some(*referent),
            _ => None,
        },
{
    match ty {
        Type::RawPointer { pointee, .. } => Some(*pointee),
        Type::Reference { referent, .. } => Some(*referent),
        _ => None,
    }
}

/// The type parameters of a declaration, as types.
pub open spec fn own_parameters(generics: List<GenericParameter>) -> List<Type>
    decreases generics,
{
    match generics {
        List::Nil => List::Nil,
        List::Cons(parameter, rest) => if parameter.namespace == Namespace::Type {
            List::Cons(Box::new(Type::Generic(parameter.name)), Box::new(own_parameters(*rest)))
        } else {
            own_parameters(*rest)
        },
    }
}

/// The type parameters of a declaration, as types.
#[verifier::allow_in_spec]
pub fn parameters_as_types(generics: &List<GenericParameter>) -> (r: List<Type>)
    returns
        own_parameters(*generics),
    decreases generics,
{
    match generics {
        List::Nil => List::Nil,
        List::Cons(parameter, rest) => if parameter.namespace == Namespace::Type {
            List::Cons(
                Box::new(Type::Generic(parameter.name)),
                Box::new(parameters_as_types(rest)),
            )
        } else {
            parameters_as_types(rest)
        },
    }
}

/// The result type of a function of a declared type. A result that names the type without
/// arguments has its own parameters as arguments.
#[verifier::allow_in_spec]
pub fn specialize_owner_result(program: &Program, declaration: DeclarationId, result: &Type) -> (r:
    Type)
    returns
        match program.definition(declaration) {
            Some(definition) => {
                let parameters = own_parameters(definition.generics);
                let specialized = substituted(
                    *result,
                    &bound(definition.generics, parameters, Bindable::Types, List::Nil),
                );
                match specialized {
                    Type::Nominal(owner, arguments) => if owner == declaration && arguments is Nil {
                        Type::Nominal(owner, parameters)
                    } else {
                        specialized
                    },
                    _ => specialized,
                }
            },
            None => *result,
        },
{
    let definition = match program.definition(declaration) {
        Some(definition) => definition,
        None => {
            return result.dup();
        },
    };
    let parameters = parameters_as_types(&definition.generics);
    let substitutions = bind_generics(
        &definition.generics,
        &parameters,
        Bindable::Types,
        List::Nil,
    );
    let specialized = substitute_mir_type(result, &substitutions);
    match &specialized {
        Type::Nominal(owner, arguments) => {
            if *owner == declaration && arguments.is_empty() {
                return Type::Nominal(*owner, parameters);
            }
        },
        _ => {},
    }
    specialized
}

/// The type of the items that a generator with the given result type yields.
#[verifier::allow_in_spec]
pub fn generator_item_type(
    program: &Program,
    result: &Type,
    asynchronous: bool,
) -> (r: Option<Type>)
    returns
        match result {
            Type::Nominal(declaration, arguments)
            | Type::DynamicInterface(declaration, arguments) => if program.declared_name(
                *declaration,
            ) == Some(
                if asynchronous {
                    Name::AsyncIterable
                } else {
                    Name::Iterable
                },
            ) {
                match arguments {
                    List::Cons(item, _) => Some(**item),
                    List::Nil => None,
                }
            } else {
                None
            },
            _ => None,
        },
{
    let expected = if asynchronous {
        Name::AsyncIterable
    } else {
        Name::Iterable
    };
    let (declaration, arguments) = match result {
        Type::Nominal(declaration, arguments) => (declaration, arguments),
        Type::DynamicInterface(declaration, arguments) => (declaration, arguments),
        _ => {
            return None;
        },
    };
    match program.declared_name(*declaration) {
        Some(name) => {
            if name != expected {
                return None;
            }
        },
        None => {
            return None;
        },
    }
    match arguments {
        List::Cons(item, _) => Some(item.dup()),
        List::Nil => None,
    }
}

/// Whether a declaration is the task type of the standard library.
#[verifier::allow_in_spec]
pub fn is_task(program: &Program, declaration: DeclarationId) -> (r: bool)
    returns
        match program.declaration(declaration) {
            Some(item) => item.name == Some(Name::Task) && (match program.module(item.module) {
                Some(module) => module.role == ModuleRole::Asynchronous,
                None => false,
            }),
            None => false,
        },
{
    match program.declaration(declaration) {
        Some(item) => {
            let named = match item.name {
                Some(name) => name == Name::Task,
                None => false,
            };
            let placed = match program.module(item.module) {
                Some(module) => module.role == ModuleRole::Asynchronous,
                None => false,
            };
            named && placed
        },
        None => false,
    }
}

/// The two type arguments of a task type: its result and its error.
#[verifier::allow_in_spec]
pub fn task_arguments<'a>(program: &Program, ty: &'a Type) -> (r: Option<(&'a Type, &'a Type)>)
    returns
        match ty {
            Type::Nominal(declaration, arguments) => if is_task(program, *declaration) {
                match arguments {
                    List::Cons(result, rest) => match &**rest {
                        List::Cons(error, end) => if **end is Nil {
                            Some((&**result, &**error))
                        } else {
                            None
                        },
                        List::Nil => None,
                    },
                    List::Nil => None,
                }
            } else {
                None
            },
            _ => None,
        },
{
    match ty {
        Type::Nominal(declaration, arguments) => if is_task(program, *declaration) {
            match arguments {
                List::Cons(result, rest) => match &**rest {
                    List::Cons(error, end) => if end.is_empty() {
                        Some((&**result, &**error))
                    } else {
                        None
                    },
                    List::Nil => None,
                },
                List::Nil => None,
            }
        } else {
            None
        },
        _ => None,
    }
}

/// The promise that a task is awaited as.
#[verifier::allow_in_spec]
pub fn task_promise_type(program: &Program, ty: &Type) -> (r: Option<Type>)
    returns
        match task_arguments(program, ty) {
            Some((result, error)) => Some(
                Type::Promise {
                    result: Box::new(*result),
                    error: Box::new(*error),
                    effects: promise_effects(error, &List::Nil),
                },
            ),
            None => None,
        },
{
    match task_arguments(program, ty) {
        Some((result, error)) => Some(
            Type::Promise {
                result: Box::new(result.dup()),
                error: Box::new(error.dup()),
                effects: promise_effects(error, &List::Nil),
            },
        ),
        None => None,
    }
}

/// The errors that awaiting a value of the type can raise.
#[verifier::allow_in_spec]
pub fn promise_effects_for_type(program: &Program, ty: &Type) -> (r: List<DeclarationId>)
    returns
        match ty {
            Type::Promise { error, effects, .. } => promise_effects(&**error, effects),
            _ => match task_arguments(program, ty) {
                Some((_, error)) => promise_effects(error, &List::Nil),
                None => List::Nil,
            },
        },
{
    match ty {
        Type::Promise { error, effects, .. } => promise_effects(error, effects),
        _ => match task_arguments(program, ty) {
            Some((_, error)) => promise_effects(error, &List::Nil),
            None => List::Nil,
        },
    }
}

/// What a name is known to stand for stays what it stands for when more is inferred.
pub proof fn inferring_keeps_what_is_known(
    template: Type,
    concrete: Type,
    substitutions: List<Substitution>,
    name: Name,
)
    requires
        lookup(&substitutions, name) is Some,
    ensures
        lookup(&inferred(template, concrete, substitutions), name) == lookup(&substitutions, name),
    decreases template,
{
    match (template, concrete) {
        (Type::Optional(left), Type::Optional(right))
        | (Type::Array(left, _), Type::Array(right, _))
        | (Type::Slice(left), Type::Slice(right))
        | (Type::RawPointer { pointee: left, .. }, Type::RawPointer { pointee: right, .. }) => {
            inferring_keeps_what_is_known(*left, *right, substitutions, name);
        },
        (
            Type::Promise { result: left, error: left_error, .. },
            Type::Promise { result: right, error: right_error, .. },
        ) => {
            inferring_keeps_what_is_known(*left, *right, substitutions, name);
            inferring_keeps_what_is_known(
                *left_error,
                *right_error,
                inferred(*left, *right, substitutions),
                name,
            );
        },
        (
            Type::Reference { lifetime: left_lifetime, referent: left, .. },
            Type::Reference { lifetime: right_lifetime, referent: right, .. },
        ) => {
            let named = if left_lifetime != Name::Scope && left_lifetime != Name::Static {
                with_default(substitutions, left_lifetime, Type::Lifetime(right_lifetime))
            } else {
                substitutions
            };
            inferring_keeps_what_is_known(*left, *right, named, name);
        },
        (Type::Tuple(left), Type::Tuple(right))
        | (Type::Template(left), Type::Template(right))
        | (Type::Nominal(_, left), Type::Nominal(_, right))
        | (Type::DynamicInterface(_, left), Type::DynamicInterface(_, right)) => {
            lemma_inferring_all_keeps(left, right, substitutions, name);
        },
        (Type::Function(left), Type::Function(right)) => {
            lemma_inferring_all_keeps(left.parameters, right.parameters, substitutions, name);
            inferring_keeps_what_is_known(
                *left.result,
                *right.result,
                all_inferred(left.parameters, right.parameters, substitutions),
                name,
            );
        },
        _ => {},
    }
}

proof fn lemma_inferring_all_keeps(
    templates: List<Type>,
    concrete: List<Type>,
    substitutions: List<Substitution>,
    name: Name,
)
    requires
        lookup(&substitutions, name) is Some,
    ensures
        lookup(&all_inferred(templates, concrete, substitutions), name) == lookup(
            &substitutions,
            name,
        ),
    decreases templates,
{
    match (templates, concrete) {
        (List::Cons(template, templates), List::Cons(ty, types)) => {
            inferring_keeps_what_is_known(*template, *ty, substitutions, name);
            lemma_inferring_all_keeps(
                *templates,
                *types,
                inferred(*template, *ty, substitutions),
                name,
            );
        },
        _ => {},
    }
}

} // verus!
