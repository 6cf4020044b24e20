//! Types in signatures: their arguments, their targets and where void may stand.

use vstd::prelude::*;

use crate::diagnostics::{report, Diagnostic, Finding};
use crate::hir::{
    DeclarationId, Definition, DefinitionData, Function, GenericBound, GenericParameter, Namespace,
    Parameter, PrimitiveType, Program, Type,
};
use crate::list::{cons, List};
use crate::names::Name;
use crate::program::nominal_id;
use crate::reports::{spec_add, Reports};
use crate::syntax::{empty_span, File, Span};

verus! {

/// The last of the first `count` definitions of a declaration.
pub open spec fn last_definition<'a>(
    definitions: Seq<Definition>,
    id: DeclarationId,
    count: nat,
) -> Option<&'a Definition>
    decreases count,
{
    if count == 0 || count > definitions.len() {
        None
    } else if definitions[count - 1].declaration == id {
        Some(&definitions[count - 1])
    } else {
        last_definition(definitions, id, (count - 1) as nat)
    }
}

/// The definition of a declaration; of several the last one.
#[verifier::allow_in_spec]
pub fn definition_of(program: &Program, id: DeclarationId) -> (r: Option<&Definition>)
    returns
        last_definition(program.definitions@, id, program.definitions@.len()),
{
    let mut count: usize = program.definitions.len();
    while count > 0
        invariant
            count <= program.definitions@.len(),
            last_definition(program.definitions@, id, program.definitions@.len())
                == last_definition(program.definitions@, id, count as nat),
        decreases count,
    {
        if program.definitions[count - 1].declaration == id {
            return Some(&program.definitions[count - 1]);
        }
        count = count - 1;
    }
    None
}

/// Whether a declaration is an interface.
#[verifier::allow_in_spec]
pub fn is_interface(program: &Program, id: DeclarationId) -> (r: bool)
    returns
        match definition_of(program, id) {
            Some(definition) => {
                match &definition.data {
                    DefinitionData::Interface { .. } => true,
                    _ => false,
                }
            },
            None => false,
        },
{
    match definition_of(program, id) {
        Some(definition) => match &definition.data {
            DefinitionData::Interface { .. } => true,
            _ => false,
        },
        None => false,
    }
}

/// Where a declaration stands.
#[verifier::allow_in_spec]
pub fn declaration_span(program: &Program, id: DeclarationId) -> (r: Span)
    returns
        match program.declaration(id) {
            Some(declaration) => declaration.span,
            None => empty_span(File::Compiler),
        },
{
    match program.declaration(id) {
        Some(declaration) => declaration.span,
        None => empty_span(File::Compiler),
    }
}

/// Whether a declaration is exported.
#[verifier::allow_in_spec]
pub fn is_exported(program: &Program, id: DeclarationId) -> (r: bool)
    returns
        match program.declaration(id) {
            Some(declaration) => declaration.exported,
            None => false,
        },
{
    match program.declaration(id) {
        Some(declaration) => declaration.exported,
        None => false,
    }
}

/// A report on a declaration.
#[verifier::opaque]
pub open spec fn spec_add_for_declaration(
    st: Seq<Diagnostic>,
    program: &Program,
    id: DeclarationId,
    finding: Finding,
) -> Seq<Diagnostic> {
    spec_add(st, report(finding, declaration_span(program, id)))
}

impl Reports {
    /// A report on a declaration.
    pub(crate) fn add_for_declaration(
        &mut self,
        program: &Program,
        id: DeclarationId,
        finding: Finding,
    )
        ensures
            final(self)@ == spec_add_for_declaration(old(self)@, program, id, finding),
    {
        proof {
            reveal(spec_add_for_declaration);
        }
        self.add(report(finding, declaration_span(program, id)));
    }
}

/// Whether void stands in a type other than as what a function returns.
pub open spec fn spec_contains_void(ty: &Type) -> bool
    decreases ty,
{
    match ty {
        Type::Primitive(PrimitiveType::Void) => true,
        Type::Optional(inner) => spec_contains_void(inner),
        Type::Array(inner, _) => spec_contains_void(inner),
        Type::Slice(inner) => spec_contains_void(inner),
        Type::Promise { result, .. } => spec_contains_void(result),
        Type::Reference { referent, .. } => spec_contains_void(referent),
        Type::RawPointer { pointee, .. } => spec_contains_void(pointee),
        Type::Tuple(elements) => spec_any_contains_void(elements),
        Type::Nominal(_, arguments) => spec_any_contains_void(arguments),
        Type::DynamicInterface(_, arguments) => spec_any_contains_void(arguments),
        Type::Function(function) => spec_any_contains_void(&function.parameters),
        _ => false,
    }
}

/// Whether void stands in a type other than as what a function returns.
#[verifier::allow_in_spec]
pub fn contains_void(ty: &Type) -> (r: bool)
    returns
        spec_contains_void(ty),
    decreases ty,
{
    proof {
        reveal_with_fuel(spec_contains_void, 2);
    }
    match ty {
        Type::Primitive(PrimitiveType::Void) => true,
        Type::Optional(inner) => contains_void(inner),
        Type::Array(inner, _) => contains_void(inner),
        Type::Slice(inner) => contains_void(inner),
        Type::Promise { result, .. } => contains_void(result),
        Type::Reference { referent, .. } => contains_void(referent),
        Type::RawPointer { pointee, .. } => contains_void(pointee),
        Type::Tuple(elements) => any_contains_void(elements),
        Type::Nominal(_, arguments) => any_contains_void(arguments),
        Type::DynamicInterface(_, arguments) => any_contains_void(arguments),
        Type::Function(function) => any_contains_void(&function.parameters),
        _ => false,
    }
}

/// Whether void stands in one of the types.
pub open spec fn spec_any_contains_void(types: &List<Type>) -> bool
    decreases types,
{
    match types {
        List::Nil => false,
        List::Cons(head, tail) => spec_contains_void(head) || spec_any_contains_void(tail),
    }
}

/// Whether void stands in one of the types.
#[verifier::allow_in_spec]
pub fn any_contains_void(types: &List<Type>) -> (r: bool)
    returns
        spec_any_contains_void(types),
    decreases types,
{
    proof {
        reveal_with_fuel(spec_any_contains_void, 2);
    }
    match types {
        List::Nil => false,
        List::Cons(head, tail) => contains_void(head) || any_contains_void(tail),
    }
}

/// A value must not be of a type in which void stands.
#[verifier::opaque]
pub open spec fn spec_reject_void(st: Seq<Diagnostic>, ty: &Type, span: Span) -> Seq<Diagnostic> {
    if spec_contains_void(ty) {
        spec_add(st, report(Finding::VoidValue, span))
    } else {
        st
    }
}

impl Reports {
    /// A value must not be of a type in which void stands.
    pub(crate) fn reject_void(&mut self, ty: &Type, span: Span)
        ensures
            final(self)@ == spec_reject_void(old(self)@, ty, span),
    {
        proof {
            reveal(spec_reject_void);
        }
        if contains_void(ty) {
            self.add(report(Finding::VoidValue, span));
        }
    }
}

/// A generic parameter that takes an argument.
#[derive(Clone, Copy, Debug, PartialEq, Eq, Structural)]
pub struct ParameterShape {
    pub name: Name,
    pub namespace: Namespace,
}

/// The generic parameters that take an argument: those for types and lifetimes, not for errors.
pub open spec fn spec_parameter_shapes(generics: &List<GenericParameter>) -> List<ParameterShape>
    decreases generics,
{
    match generics {
        List::Nil => List::Nil,
        List::Cons(head, tail) => {
            let others = spec_parameter_shapes(tail);
            if head.namespace == Namespace::Value {
                others
            } else {
                cons(ParameterShape { name: head.name, namespace: head.namespace }, others)
            }
        },
    }
}

/// The generic parameters that take an argument: those for types and lifetimes, not for errors.
#[verifier::allow_in_spec]
pub fn parameter_shapes(generics: &List<GenericParameter>) -> (r: List<ParameterShape>)
    returns
        spec_parameter_shapes(generics),
    decreases generics,
{
    proof {
        reveal_with_fuel(spec_parameter_shapes, 2);
    }
    match generics {
        List::Nil => List::Nil,
        List::Cons(head, tail) => {
            let others = parameter_shapes(tail);
            if head.namespace == Namespace::Value {
                others
            } else {
                cons(ParameterShape { name: head.name, namespace: head.namespace }, others)
            }
        },
    }
}

/// The number of parameters.
pub open spec fn spec_shape_count(shapes: &List<ParameterShape>) -> usize
    decreases shapes,
{
    match shapes {
        List::Nil => 0,
        List::Cons(_, tail) => spec_shape_count(tail).saturating_add(1),
    }
}

/// The number of parameters.
#[verifier::allow_in_spec]
pub fn shape_count(shapes: &List<ParameterShape>) -> (r: usize)
    returns
        spec_shape_count(shapes),
    decreases shapes,
{
    proof {
        reveal_with_fuel(spec_shape_count, 2);
    }
    match shapes {
        List::Nil => 0,
        List::Cons(_, tail) => shape_count(tail).saturating_add(1),
    }
}

/// The number of types.
pub open spec fn spec_type_count(types: &List<Type>) -> usize
    decreases types,
{
    match types {
        List::Nil => 0,
        List::Cons(_, tail) => spec_type_count(tail).saturating_add(1),
    }
}

/// The number of types.
#[verifier::allow_in_spec]
pub fn type_count(types: &List<Type>) -> (r: usize)
    returns
        spec_type_count(types),
    decreases types,
{
    proof {
        reveal_with_fuel(spec_type_count, 2);
    }
    match types {
        List::Nil => 0,
        List::Cons(_, tail) => type_count(tail).saturating_add(1),
    }
}

/// Whether an argument is of the namespace of its parameter.
#[verifier::allow_in_spec]
pub fn is_of_namespace(argument: &Type, namespace: Namespace) -> (r: bool)
    returns
        match namespace {
            Namespace::Lifetime => matches!(argument, Type::Lifetime(_)),
            Namespace::Type => !matches!(argument, Type::Lifetime(_)),
            Namespace::Value => false,
            Namespace::Method => false,
        },
{
    match namespace {
        Namespace::Lifetime => matches!(argument, Type::Lifetime(_)),
        Namespace::Type => !matches!(argument, Type::Lifetime(_)),
        Namespace::Value => false,
        Namespace::Method => false,
    }
}

/// The errors of a union must be declared.
#[verifier::opaque]
pub open spec fn spec_check_effects(
    st: Seq<Diagnostic>,
    effects: &List<DeclarationId>,
    span: Span,
    program: &Program,
) -> Seq<Diagnostic>
    decreases effects,
{
    match effects {
        List::Nil => st,
        List::Cons(head, tail) => {
            let st = if definition_of(program, **head).is_none() {
                spec_add(st, report(Finding::UnknownErrorEffect, span))
            } else {
                st
            };
            spec_check_effects(st, tail, span, program)
        },
    }
}

impl Reports {
    /// The errors of a union must be declared.
    pub(crate) fn check_effects(
        &mut self,
        effects: &List<DeclarationId>,
        span: Span,
        program: &Program,
    )
        ensures
            final(self)@ == spec_check_effects(old(self)@, effects, span, program),
        decreases effects,
    {
        proof {
            reveal_with_fuel(spec_check_effects, 2);
        }
        match effects {
            List::Nil => {},
            List::Cons(head, tail) => {
                if definition_of(program, **head).is_none() {
                    self.add(report(Finding::UnknownErrorEffect, span));
                }
                self.check_effects(tail, span, program);
            },
        }
    }
}

/// A type must give its parts the arguments that they declare, and make only interfaces dynamic.
pub open spec fn spec_check_type(
    st: Seq<Diagnostic>,
    ty: &Type,
    span: Span,
    program: &Program,
) -> Seq<Diagnostic>
    decreases ty, 0nat,
{
    match ty {
        Type::Nominal(id, arguments) => {
            spec_check_generic_arguments(st, *id, arguments, span, program)
        },
        Type::DynamicInterface(id, arguments) => {
            let st = spec_check_generic_arguments(st, *id, arguments, span, program);
            if !is_interface(program, *id) {
                spec_add(st, report(Finding::DynamicTargetNotInterface, span))
            } else {
                st
            }
        },
        Type::Optional(inner) => spec_check_type(st, inner, span, program),
        Type::Array(inner, _) => spec_check_type(st, inner, span, program),
        Type::Slice(inner) => spec_check_type(st, inner, span, program),
        Type::Promise { result, .. } => spec_check_type(st, result, span, program),
        Type::Reference { referent, .. } => spec_check_type(st, referent, span, program),
        Type::RawPointer { pointee, .. } => spec_check_type(st, pointee, span, program),
        Type::Tuple(elements) => spec_check_types(st, elements, span, program),
        Type::Template(elements) => spec_check_types(st, elements, span, program),
        Type::Function(function) => {
            let st = spec_check_types(st, &function.parameters, span, program);
            spec_check_type(st, &function.result, span, program)
        },
        Type::ErrorUnion(effects) => spec_check_effects(st, effects, span, program),
        _ => st,
    }
}

impl Reports {
    /// A type must give its parts the arguments that they declare, and make only interfaces dynamic.
    pub(crate) fn check_type(&mut self, ty: &Type, span: Span, program: &Program)
        ensures
            final(self)@ == spec_check_type(old(self)@, ty, span, program),
        decreases ty, 0nat,
    {
        proof {
            reveal_with_fuel(spec_check_type, 2);
        }
        match ty {
            Type::Nominal(id, arguments) => {
                self.check_generic_arguments(*id, arguments, span, program);
            },
            Type::DynamicInterface(id, arguments) => {
                self.check_generic_arguments(*id, arguments, span, program);
                if !is_interface(program, *id) {
                    self.add(report(Finding::DynamicTargetNotInterface, span));
                }
            },
            Type::Optional(inner) => {
                self.check_type(inner, span, program);
            },
            Type::Array(inner, _) => {
                self.check_type(inner, span, program);
            },
            Type::Slice(inner) => {
                self.check_type(inner, span, program);
            },
            Type::Promise { result, .. } => {
                self.check_type(result, span, program);
            },
            Type::Reference { referent, .. } => {
                self.check_type(referent, span, program);
            },
            Type::RawPointer { pointee, .. } => {
                self.check_type(pointee, span, program);
            },
            Type::Tuple(elements) => {
                self.check_types(elements, span, program);
            },
            Type::Template(elements) => {
                self.check_types(elements, span, program);
            },
            Type::Function(function) => {
                self.check_types(&function.parameters, span, program);
                self.check_type(&function.result, span, program);
            },
            Type::ErrorUnion(effects) => {
                self.check_effects(effects, span, program);
            },
            _ => {},
        }
    }
}

/// Each of the types must be well formed.
pub open spec fn spec_check_types(
    st: Seq<Diagnostic>,
    types: &List<Type>,
    span: Span,
    program: &Program,
) -> Seq<Diagnostic>
    decreases types, 0nat,
{
    match types {
        List::Nil => st,
        List::Cons(head, tail) => {
            let st = spec_check_type(st, head, span, program);
            spec_check_types(st, tail, span, program)
        },
    }
}

impl Reports {
    /// Each of the types must be well formed.
    pub(crate) fn check_types(&mut self, types: &List<Type>, span: Span, program: &Program)
        ensures
            final(self)@ == spec_check_types(old(self)@, types, span, program),
        decreases types, 0nat,
    {
        proof {
            reveal_with_fuel(spec_check_types, 2);
        }
        match types {
            List::Nil => {},
            List::Cons(head, tail) => {
                self.check_type(head, span, program);
                self.check_types(tail, span, program);
            },
        }
    }
}

/// Each argument must be of the namespace of its parameter, and well formed itself.
pub open spec fn spec_check_argument_list(
    st: Seq<Diagnostic>,
    shapes: &List<ParameterShape>,
    arguments: &List<Type>,
    span: Span,
    program: &Program,
) -> Seq<Diagnostic>
    decreases arguments, 0nat,
{
    match (shapes, arguments) {
        (List::Cons(shape, shapes), List::Cons(argument, arguments)) => {
            let st = if !is_of_namespace(argument, shape.namespace) {
                spec_add(st, report(Finding::GenericArgumentNamespace(shape.name), span))
            } else {
                st
            };
            let st = spec_check_type(st, argument, span, program);
            spec_check_argument_list(st, shapes, arguments, span, program)
        },
        _ => st,
    }
}

impl Reports {
    /// Each argument must be of the namespace of its parameter, and well formed itself.
    pub(crate) fn check_argument_list(
        &mut self,
        shapes: &List<ParameterShape>,
        arguments: &List<Type>,
        span: Span,
        program: &Program,
    )
        ensures
            final(self)@ == spec_check_argument_list(
                old(self)@,
                shapes,
                arguments,
                span,
                program,
            ),
        decreases arguments, 0nat,
    {
        proof {
            reveal_with_fuel(spec_check_argument_list, 2);
        }
        match (shapes, arguments) {
            (List::Cons(shape, shapes), List::Cons(argument, arguments)) => {
                if !is_of_namespace(argument, shape.namespace) {
                    self.add(report(Finding::GenericArgumentNamespace(shape.name), span));
                }
                self.check_type(argument, span, program);
                self.check_argument_list(shapes, arguments, span, program);
            },
            _ => {},
        }
    }
}

/// A declared type must be given one argument for each parameter.
pub open spec fn spec_check_generic_arguments(
    st: Seq<Diagnostic>,
    declaration: DeclarationId,
    arguments: &List<Type>,
    span: Span,
    program: &Program,
) -> Seq<Diagnostic>
    decreases arguments, 1nat,
{
    match definition_of(program, declaration) {
        Some(definition) => {
            let shapes = spec_parameter_shapes(&definition.generics);
            let expected: usize = spec_shape_count(&shapes);
            let supplied: usize = spec_type_count(arguments);
            let st = if supplied != expected {
                spec_add(st, report(Finding::GenericArgumentArity { expected, supplied }, span))
            } else {
                st
            };
            spec_check_argument_list(st, &shapes, arguments, span, program)
        },
        _ => st,
    }
}

impl Reports {
    /// A declared type must be given one argument for each parameter.
    pub(crate) fn check_generic_arguments(
        &mut self,
        declaration: DeclarationId,
        arguments: &List<Type>,
        span: Span,
        program: &Program,
    )
        ensures
            final(self)@ == spec_check_generic_arguments(
                old(self)@,
                declaration,
                arguments,
                span,
                program,
            ),
        decreases arguments, 1nat,
    {
        proof {
            reveal_with_fuel(spec_check_generic_arguments, 2);
        }
        let Some(definition) = definition_of(program, declaration) else {
            return;
        };
        let shapes = parameter_shapes(&definition.generics);
        let expected: usize = shape_count(&shapes);
        let supplied: usize = type_count(arguments);
        if supplied != expected {
            self.add(report(Finding::GenericArgumentArity { expected, supplied }, span));
        }
        self.check_argument_list(&shapes, arguments, span, program);
    }
}

/// A type that a declaration conforms to must be an interface.
#[verifier::opaque]
pub open spec fn spec_check_interface_type(
    st: Seq<Diagnostic>,
    ty: &Type,
    span: Span,
    program: &Program,
) -> Seq<Diagnostic> {
    let st = spec_check_type(st, ty, span, program);
    let named = match nominal_id(ty) {
        Some(id) => is_interface(program, id),
        None => false,
    };
    if !named {
        spec_add(st, report(Finding::ConformanceTargetNotInterface, span))
    } else {
        st
    }
}

impl Reports {
    /// A type that a declaration conforms to must be an interface.
    pub(crate) fn check_interface_type(&mut self, ty: &Type, span: Span, program: &Program)
        ensures
            final(self)@ == spec_check_interface_type(old(self)@, ty, span, program),
    {
        proof {
            reveal(spec_check_interface_type);
        }
        self.check_type(ty, span, program);
        let named = match nominal_id(ty) {
            Some(id) => is_interface(program, id),
            None => false,
        };
        if !named {
            self.add(report(Finding::ConformanceTargetNotInterface, span));
        }
    }
}

/// The interfaces of bounds must be given the arguments that they declare.
#[verifier::opaque]
pub open spec fn spec_check_bound_types(
    st: Seq<Diagnostic>,
    bounds: &List<GenericBound>,
    span: Span,
    program: &Program,
) -> Seq<Diagnostic>
    decreases bounds,
{
    match bounds {
        List::Nil => st,
        List::Cons(head, tail) => {
            let st = match &**head {
                GenericBound::Interface(interface, arguments) => {
                    spec_check_generic_arguments(st, *interface, arguments, span, program)
                },
                _ => st,
            };
            spec_check_bound_types(st, tail, span, program)
        },
    }
}

impl Reports {
    /// The interfaces of bounds must be given the arguments that they declare.
    pub(crate) fn check_bound_types(
        &mut self,
        bounds: &List<GenericBound>,
        span: Span,
        program: &Program,
    )
        ensures
            final(self)@ == spec_check_bound_types(old(self)@, bounds, span, program),
        decreases bounds,
    {
        proof {
            reveal_with_fuel(spec_check_bound_types, 2);
        }
        match bounds {
            List::Nil => {},
            List::Cons(head, tail) => {
                match &**head {
                    GenericBound::Interface(interface, arguments) => {
                        self.check_generic_arguments(*interface, arguments, span, program);
                    },
                    _ => {},
                }
                self.check_bound_types(tail, span, program);
            },
        }
    }
}

/// The interfaces in the bounds of parameters must be given the arguments that they declare.
#[verifier::opaque]
pub open spec fn spec_check_generic_bound_types(
    st: Seq<Diagnostic>,
    parameters: &List<GenericParameter>,
    program: &Program,
) -> Seq<Diagnostic>
    decreases parameters,
{
    match parameters {
        List::Nil => st,
        List::Cons(head, tail) => {
            let st = spec_check_bound_types(st, &head.bounds, head.span, program);
            spec_check_generic_bound_types(st, tail, program)
        },
    }
}

impl Reports {
    /// The interfaces in the bounds of parameters must be given the arguments that they declare.
    pub(crate) fn check_generic_bound_types(
        &mut self,
        parameters: &List<GenericParameter>,
        program: &Program,
    )
        ensures
            final(self)@ == spec_check_generic_bound_types(
                old(self)@,
                parameters,
                program,
            ),
        decreases parameters,
    {
        proof {
            reveal_with_fuel(spec_check_generic_bound_types, 2);
        }
        match parameters {
            List::Nil => {},
            List::Cons(head, tail) => {
                self.check_bound_types(&head.bounds, head.span, program);
                self.check_generic_bound_types(tail, program);
            },
        }
    }
}

/// The types of parameters must be well formed.
pub open spec fn check_parameter_types_from(
    st: Seq<Diagnostic>,
    parameters: Seq<Parameter>,
    program: &Program,
    from: nat,
) -> Seq<Diagnostic>
    decreases parameters.len() - from,
{
    if from >= parameters.len() {
        st
    } else {
        let item = &parameters[from as int];
        let st = spec_check_type(st, &item.ty, item.span, program);
        check_parameter_types_from(st, parameters, program, from + 1)
    }
}

impl Reports {
    /// The types of parameters must be well formed.
    pub(crate) fn check_parameter_types(&mut self, parameters: &Vec<Parameter>, program: &Program)
        ensures
            final(self)@ == check_parameter_types_from(old(self)@, parameters@, program, 0),
    {
        let mut index: usize = 0;
        while index < parameters.len()
            invariant
                check_parameter_types_from(old(self)@, parameters@, program, 0)
                    == check_parameter_types_from(self@, parameters@, program, index as nat),
            decreases parameters.len() - index,
        {
            let item = &parameters[index];
            self.check_type(&item.ty, item.span, program);
            index = index + 1;
        }
    }
}

/// The types of a signature must be well formed.
#[verifier::opaque]
pub open spec fn spec_check_function_types(
    st: Seq<Diagnostic>,
    function: &Function,
    span: Span,
    program: &Program,
) -> Seq<Diagnostic> {
    let st = check_parameter_types_from(st, function.parameters@, program, 0);
    let st = spec_check_type(st, &function.result, span, program);
    spec_check_generic_bound_types(st, &function.generics, program)
}

impl Reports {
    /// The types of a signature must be well formed.
    pub(crate) fn check_function_types(
        &mut self,
        function: &Function,
        span: Span,
        program: &Program,
    )
        ensures
            final(self)@ == spec_check_function_types(
                old(self)@,
                function,
                span,
                program,
            ),
    {
        proof {
            reveal(spec_check_function_types);
        }
        self.check_parameter_types(&function.parameters, program);
        self.check_type(&function.result, span, program);
        self.check_generic_bound_types(&function.generics, program);
    }
}

/// The namespace of a parameter; of several with one name that of the last.
pub open spec fn spec_last_namespace(
    parameters: &List<GenericParameter>,
    name: Name,
) -> Option<Namespace>
    decreases parameters,
{
    match parameters {
        List::Nil => None,
        List::Cons(head, tail) => {
            match spec_last_namespace(tail, name) {
                Some(namespace) => Some(namespace),
                None => {
                    if head.name == name {
                        Some(head.namespace)
                    } else {
                        None
                    }
                },
            }
        },
    }
}

/// The namespace of a parameter; of several with one name that of the last.
#[verifier::allow_in_spec]
pub fn last_namespace(parameters: &List<GenericParameter>, name: Name) -> (r: Option<Namespace>)
    returns
        spec_last_namespace(parameters, name),
    decreases parameters,
{
    proof {
        reveal_with_fuel(spec_last_namespace, 2);
    }
    match parameters {
        List::Nil => None,
        List::Cons(head, tail) => match last_namespace(tail, name) {
            Some(namespace) => Some(namespace),
            None => {
                if head.name == name {
                    Some(head.namespace)
                } else {
                    None
                }
            },
        },
    }
}

/// What is wrong with a bound of a parameter.
#[verifier::opaque]
pub open spec fn spec_bound_finding(
    bound: &GenericBound,
    namespace: Namespace,
    parameters: &List<GenericParameter>,
    program: &Program,
) -> Option<Finding> {
    match bound {
        GenericBound::Interface(interface, _) => {
            if !is_interface(program, *interface) {
                Some(Finding::GenericBoundNotInterface)
            } else if namespace != Namespace::Type {
                Some(Finding::InvalidGenericBoundNamespace)
            } else {
                None
            }
        },
        GenericBound::Outlives(lifetime) => {
            if namespace != Namespace::Lifetime
                || spec_last_namespace(parameters, *lifetime) != Some(
                Namespace::Lifetime,
            ) {
                Some(Finding::InvalidOutlivesBound)
            } else {
                None
            }
        },
        GenericBound::Static => None,
    }
}

/// What is wrong with a bound of a parameter.
#[verifier::allow_in_spec]
pub fn bound_finding(
    bound: &GenericBound,
    namespace: Namespace,
    parameters: &List<GenericParameter>,
    program: &Program,
) -> (r: Option<Finding>)
    returns
        spec_bound_finding(bound, namespace, parameters, program),
{
    proof {
        reveal(spec_bound_finding);
    }
    match bound {
        GenericBound::Interface(interface, _) => {
            if !is_interface(program, *interface) {
                Some(Finding::GenericBoundNotInterface)
            } else if namespace != Namespace::Type {
                Some(Finding::InvalidGenericBoundNamespace)
            } else {
                None
            }
        },
        GenericBound::Outlives(lifetime) => {
            if namespace != Namespace::Lifetime || last_namespace(parameters, *lifetime) != Some(
                Namespace::Lifetime,
            ) {
                Some(Finding::InvalidOutlivesBound)
            } else {
                None
            }
        },
        GenericBound::Static => None,
    }
}

/// Each bound must suit its parameter.
#[verifier::opaque]
pub open spec fn spec_check_bounds(
    st: Seq<Diagnostic>,
    bounds: &List<GenericBound>,
    namespace: Namespace,
    span: Span,
    parameters: &List<GenericParameter>,
    program: &Program,
) -> Seq<Diagnostic>
    decreases bounds,
{
    match bounds {
        List::Nil => st,
        List::Cons(head, tail) => {
            let st = if let Some(finding) = spec_bound_finding(
                head,
                namespace,
                parameters,
                program,
            ) {
                spec_add(st, report(finding, span))
            } else {
                st
            };
            spec_check_bounds(st, tail, namespace, span, parameters, program)
        },
    }
}

impl Reports {
    /// Each bound must suit its parameter.
    pub(crate) fn check_bounds(
        &mut self,
        bounds: &List<GenericBound>,
        namespace: Namespace,
        span: Span,
        parameters: &List<GenericParameter>,
        program: &Program,
    )
        ensures
            final(self)@ == spec_check_bounds(
                old(self)@,
                bounds,
                namespace,
                span,
                parameters,
                program,
            ),
        decreases bounds,
    {
        proof {
            reveal_with_fuel(spec_check_bounds, 2);
        }
        match bounds {
            List::Nil => {},
            List::Cons(head, tail) => {
                if let Some(finding) = bound_finding(head, namespace, parameters, program) {
                    self.add(report(finding, span));
                }
                self.check_bounds(tail, namespace, span, parameters, program);
            },
        }
    }
}

/// The bounds of each of the parameters `rest` must suit it.
#[verifier::opaque]
pub open spec fn spec_check_parameter_bounds(
    st: Seq<Diagnostic>,
    rest: &List<GenericParameter>,
    parameters: &List<GenericParameter>,
    program: &Program,
) -> Seq<Diagnostic>
    decreases rest,
{
    match rest {
        List::Nil => st,
        List::Cons(head, tail) => {
            let st = spec_check_bounds(
                st,
                &head.bounds,
                head.namespace,
                head.span,
                parameters,
                program,
            );
            spec_check_parameter_bounds(st, tail, parameters, program)
        },
    }
}

impl Reports {
    /// The bounds of each of the parameters `rest` must suit it.
    pub(crate) fn check_parameter_bounds(
        &mut self,
        rest: &List<GenericParameter>,
        parameters: &List<GenericParameter>,
        program: &Program,
    )
        ensures
            final(self)@ == spec_check_parameter_bounds(
                old(self)@,
                rest,
                parameters,
                program,
            ),
        decreases rest,
    {
        proof {
            reveal_with_fuel(spec_check_parameter_bounds, 2);
        }
        match rest {
            List::Nil => {},
            List::Cons(head, tail) => {
                self.check_bounds(&head.bounds, head.namespace, head.span, parameters, program);
                self.check_parameter_bounds(tail, parameters, program);
            },
        }
    }
}

/// The bounds of generic parameters must suit them.
#[verifier::opaque]
pub open spec fn spec_check_generic_parameters(
    st: Seq<Diagnostic>,
    parameters: &List<GenericParameter>,
    program: &Program,
) -> Seq<Diagnostic> {
    spec_check_parameter_bounds(st, parameters, parameters, program)
}

impl Reports {
    /// The bounds of generic parameters must suit them.
    pub(crate) fn check_generic_parameters(
        &mut self,
        parameters: &List<GenericParameter>,
        program: &Program,
    )
        ensures
            final(self)@ == spec_check_generic_parameters(
                old(self)@,
                parameters,
                program,
            ),
    {
        proof {
            reveal(spec_check_generic_parameters);
        }
        self.check_parameter_bounds(parameters, parameters, program);
    }
}

/// Whether one list holds all the errors of another.
pub open spec fn spec_effect_subset(
    left: &List<DeclarationId>,
    right: &List<DeclarationId>,
) -> bool
    decreases left,
{
    match left {
        List::Nil => true,
        List::Cons(head, tail) => {
            crate::ids::list_contains(right, **head) && spec_effect_subset(
                tail,
                right,
            )
        },
    }
}

/// Whether one list holds all the errors of another.
#[verifier::allow_in_spec]
pub fn effect_subset(left: &List<DeclarationId>, right: &List<DeclarationId>) -> (r: bool)
    returns
        spec_effect_subset(left, right),
    decreases left,
{
    proof {
        reveal_with_fuel(spec_effect_subset, 2);
    }
    match left {
        List::Nil => true,
        List::Cons(head, tail) => crate::ids::list_contains(right, **head) && effect_subset(
            tail,
            right,
        ),
    }
}

/// Whether a class stands above another. `limit` bounds the number of classes.
pub open spec fn spec_has_class_above(
    program: &Program,
    class: DeclarationId,
    above: DeclarationId,
    limit: usize,
) -> bool
    decreases limit,
{
    if limit == 0 {
        false
    } else {
        match definition_of(program, class) {
            Some(definition) => {
                match &definition.data {
                    DefinitionData::Class { base: Some(base), .. } => {
                        *base == above || spec_has_class_above(
                            program,
                            *base,
                            above,
                            (limit - 1) as usize,
                        )
                    },
                    _ => false,
                }
            },
            None => false,
        }
    }
}

/// Whether a class stands above another. `limit` bounds the number of classes.
#[verifier::allow_in_spec]
pub fn has_class_above(
    program: &Program,
    class: DeclarationId,
    above: DeclarationId,
    limit: usize,
) -> (r: bool)
    returns
        spec_has_class_above(program, class, above, limit),
    decreases limit,
{
    proof {
        reveal_with_fuel(spec_has_class_above, 2);
    }
    if limit == 0 {
        return false;
    }
    match definition_of(program, class) {
        Some(definition) => match &definition.data {
            DefinitionData::Class { base: Some(base), .. } => *base == above || has_class_above(
                program,
                *base,
                above,
                limit - 1,
            ),
            _ => false,
        },
        None => false,
    }
}

/// Whether a type is another one, or a class without arguments below such a class.
#[verifier::opaque]
pub open spec fn spec_is_subtype(program: &Program, left: &Type, right: &Type) -> bool {
    if crate::hir::same_type(left, right) {
        true
    } else {
        match (left, right) {
            (Type::Nominal(class, own), Type::Nominal(above, other)) => {
                own.is_empty()
                    && other.is_empty() && spec_has_class_above(
                    program,
                    *class,
                    *above,
                    program.definitions.len(),
                )
            },
            _ => false,
        }
    }
}

/// Whether a type is another one, or a class without arguments below such a class.
#[verifier::allow_in_spec]
pub fn is_subtype(program: &Program, left: &Type, right: &Type) -> (r: bool)
    returns
        spec_is_subtype(program, left, right),
{
    proof {
        reveal(spec_is_subtype);
    }
    if crate::hir::same_type(left, right) {
        return true;
    }
    match (left, right) {
        (Type::Nominal(class, own), Type::Nominal(above, other)) => own.is_empty()
            && other.is_empty() && has_class_above(
            program,
            *class,
            *above,
            program.definitions.len(),
        ),
        _ => false,
    }
}

} // verus!
