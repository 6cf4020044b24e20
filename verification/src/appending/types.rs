//! The checks of types only add to the reports.

use vstd::prelude::*;

use crate::appending::base::{extends, lemma_add, lemma_extends_itself, lemma_extends_on};
use crate::diagnostics::{report, Diagnostic, Finding};
use crate::hir::{
    DeclarationId, Function, GenericBound, GenericParameter, Namespace, Parameter, Program, Type,
};
use crate::list::List;
use crate::program::nominal_id;
use crate::reports::spec_add;
use crate::signatures::types::{
    check_parameter_types_from, declaration_span, definition_of, is_interface, is_of_namespace,
    spec_add_for_declaration, spec_bound_finding, spec_check_argument_list, spec_check_bound_types,
    spec_check_bounds, spec_check_effects, spec_check_function_types, spec_check_generic_arguments,
    spec_check_generic_bound_types, spec_check_generic_parameters, spec_check_interface_type,
    spec_check_parameter_bounds, spec_check_type, spec_check_types, spec_contains_void,
    spec_parameter_shapes, spec_reject_void, spec_shape_count, spec_type_count, ParameterShape,
};
use crate::syntax::Span;

verus! {

pub proof fn lemma_add_for_declaration(
    st: Seq<Diagnostic>,
    program: &Program,
    id: DeclarationId,
    finding: Finding,
)
    ensures
        extends(st, spec_add_for_declaration(st, program, id, finding)),
{
    reveal(spec_add_for_declaration);
    let given = st;
    lemma_extends_itself(st);
    lemma_add(st, report(finding, declaration_span(program, id)));
    let next_st = spec_add(st, report(finding, declaration_span(program, id)));
    lemma_extends_on(given, st, next_st);
    let st = next_st;
}

pub proof fn lemma_reject_void(st: Seq<Diagnostic>, ty: &Type, span: Span)
    ensures
        extends(st, spec_reject_void(st, ty, span)),
{
    reveal(spec_reject_void);
    let given = st;
    lemma_extends_itself(st);
    if spec_contains_void(ty) {
        lemma_add(st, report(Finding::VoidValue, span));
        let next_st = spec_add(st, report(Finding::VoidValue, span));
        lemma_extends_on(given, st, next_st);
        let st = next_st;
    }
}

pub proof fn lemma_check_effects(
    st: Seq<Diagnostic>,
    effects: &List<DeclarationId>,
    span: Span,
    program: &Program,
)
    ensures
        extends(st, spec_check_effects(st, effects, span, program)),
    decreases effects,
{
    reveal_with_fuel(spec_check_effects, 2);
    let given = st;
    lemma_extends_itself(st);
    match effects {
        List::Nil => {},
        List::Cons(head, tail) => {
            if definition_of(program, **head).is_none() {
                lemma_add(st, report(Finding::UnknownErrorEffect, span));
                let next_st = spec_add(st, report(Finding::UnknownErrorEffect, span));
                lemma_extends_on(given, st, next_st);
                let st = next_st;
            }
            let next_st = if definition_of(program, **head).is_none() {
                spec_add(st, report(Finding::UnknownErrorEffect, span))
            } else {
                st
            };
            assert(extends(given, next_st));
            let st = next_st;
            lemma_check_effects(st, tail, span, program);
            let next_st = spec_check_effects(st, tail, span, program);
            lemma_extends_on(given, st, next_st);
            let st = next_st;
        },
    }
}

pub proof fn lemma_check_type(st: Seq<Diagnostic>, ty: &Type, span: Span, program: &Program)
    ensures
        extends(st, spec_check_type(st, ty, span, program)),
    decreases ty, 0nat,
{
    reveal_with_fuel(spec_check_type, 2);
    let given = st;
    lemma_extends_itself(st);
    match ty {
        Type::Nominal(id, arguments) => {
            lemma_check_generic_arguments(st, *id, arguments, span, program);
            let next_st = spec_check_generic_arguments(st, *id, arguments, span, program);
            lemma_extends_on(given, st, next_st);
            let st = next_st;
        },
        Type::DynamicInterface(id, arguments) => {
            lemma_check_generic_arguments(st, *id, arguments, span, program);
            let next_st = spec_check_generic_arguments(st, *id, arguments, span, program);
            lemma_extends_on(given, st, next_st);
            let st = next_st;
            if !is_interface(program, *id) {
                lemma_add(st, report(Finding::DynamicTargetNotInterface, span));
                let next_st = spec_add(st, report(Finding::DynamicTargetNotInterface, span));
                lemma_extends_on(given, st, next_st);
                let st = next_st;
            }
        },
        Type::Optional(inner) => {
            lemma_check_type(st, inner, span, program);
            let next_st = spec_check_type(st, inner, span, program);
            lemma_extends_on(given, st, next_st);
            let st = next_st;
        },
        Type::Array(inner, _) => {
            lemma_check_type(st, inner, span, program);
            let next_st = spec_check_type(st, inner, span, program);
            lemma_extends_on(given, st, next_st);
            let st = next_st;
        },
        Type::Slice(inner) => {
            lemma_check_type(st, inner, span, program);
            let next_st = spec_check_type(st, inner, span, program);
            lemma_extends_on(given, st, next_st);
            let st = next_st;
        },
        Type::Promise { result, .. } => {
            lemma_check_type(st, result, span, program);
            let next_st = spec_check_type(st, result, span, program);
            lemma_extends_on(given, st, next_st);
            let st = next_st;
        },
        Type::Reference { referent, .. } => {
            lemma_check_type(st, referent, span, program);
            let next_st = spec_check_type(st, referent, span, program);
            lemma_extends_on(given, st, next_st);
            let st = next_st;
        },
        Type::RawPointer { pointee, .. } => {
            lemma_check_type(st, pointee, span, program);
            let next_st = spec_check_type(st, pointee, span, program);
            lemma_extends_on(given, st, next_st);
            let st = next_st;
        },
        Type::Tuple(elements) => {
            lemma_check_types(st, elements, span, program);
            let next_st = spec_check_types(st, elements, span, program);
            lemma_extends_on(given, st, next_st);
            let st = next_st;
        },
        Type::Template(elements) => {
            lemma_check_types(st, elements, span, program);
            let next_st = spec_check_types(st, elements, span, program);
            lemma_extends_on(given, st, next_st);
            let st = next_st;
        },
        Type::Function(function) => {
            lemma_check_types(st, &function.parameters, span, program);
            let next_st = spec_check_types(st, &function.parameters, span, program);
            lemma_extends_on(given, st, next_st);
            let st = next_st;
            lemma_check_type(st, &function.result, span, program);
            let next_st = spec_check_type(st, &function.result, span, program);
            lemma_extends_on(given, st, next_st);
            let st = next_st;
        },
        Type::ErrorUnion(effects) => {
            lemma_check_effects(st, effects, span, program);
            let next_st = spec_check_effects(st, effects, span, program);
            lemma_extends_on(given, st, next_st);
            let st = next_st;
        },
        _ => {},
    }
}

pub proof fn lemma_check_types(
    st: Seq<Diagnostic>,
    types: &List<Type>,
    span: Span,
    program: &Program,
)
    ensures
        extends(st, spec_check_types(st, types, span, program)),
    decreases types, 0nat,
{
    reveal_with_fuel(spec_check_types, 2);
    let given = st;
    lemma_extends_itself(st);
    match types {
        List::Nil => {},
        List::Cons(head, tail) => {
            lemma_check_type(st, head, span, program);
            let next_st = spec_check_type(st, head, span, program);
            lemma_extends_on(given, st, next_st);
            let st = next_st;
            lemma_check_types(st, tail, span, program);
            let next_st = spec_check_types(st, tail, span, program);
            lemma_extends_on(given, st, next_st);
            let st = next_st;
        },
    }
}

pub proof fn lemma_check_argument_list(
    st: Seq<Diagnostic>,
    shapes: &List<ParameterShape>,
    arguments: &List<Type>,
    span: Span,
    program: &Program,
)
    ensures
        extends(st, spec_check_argument_list(st, shapes, arguments, span, program)),
    decreases arguments, 0nat,
{
    reveal_with_fuel(spec_check_argument_list, 2);
    let given = st;
    lemma_extends_itself(st);
    match (shapes, arguments) {
        (List::Cons(shape, shapes), List::Cons(argument, arguments)) => {
            if !is_of_namespace(argument, shape.namespace) {
                lemma_add(st, report(Finding::GenericArgumentNamespace(shape.name), span));
                let next_st = spec_add(
                    st,
                    report(Finding::GenericArgumentNamespace(shape.name), span),
                );
                lemma_extends_on(given, st, next_st);
                let st = next_st;
            }
            let next_st = if !is_of_namespace(argument, shape.namespace) {
                spec_add(st, report(Finding::GenericArgumentNamespace(shape.name), span))
            } else {
                st
            };
            assert(extends(given, next_st));
            let st = next_st;
            lemma_check_type(st, argument, span, program);
            let next_st = spec_check_type(st, argument, span, program);
            lemma_extends_on(given, st, next_st);
            let st = next_st;
            lemma_check_argument_list(st, shapes, arguments, span, program);
            let next_st = spec_check_argument_list(st, shapes, arguments, span, program);
            lemma_extends_on(given, st, next_st);
            let st = next_st;
        },
        _ => {},
    }
}

pub proof fn lemma_check_generic_arguments(
    st: Seq<Diagnostic>,
    declaration: DeclarationId,
    arguments: &List<Type>,
    span: Span,
    program: &Program,
)
    ensures
        extends(st, spec_check_generic_arguments(st, declaration, arguments, span, program)),
    decreases arguments, 1nat,
{
    reveal_with_fuel(spec_check_generic_arguments, 2);
    let given = st;
    lemma_extends_itself(st);
    match definition_of(program, declaration) {
        Some(definition) => {
            let shapes = spec_parameter_shapes(&definition.generics);
            let expected: usize = spec_shape_count(&shapes);
            let supplied: usize = spec_type_count(arguments);
            if supplied != expected {
                lemma_add(st, report(Finding::GenericArgumentArity { expected, supplied }, span));
                let next_st = spec_add(
                    st,
                    report(Finding::GenericArgumentArity { expected, supplied }, span),
                );
                lemma_extends_on(given, st, next_st);
                let st = next_st;
            }
            let next_st = if supplied != expected {
                spec_add(st, report(Finding::GenericArgumentArity { expected, supplied }, span))
            } else {
                st
            };
            assert(extends(given, next_st));
            let st = next_st;
            lemma_check_argument_list(st, &shapes, arguments, span, program);
            let next_st = spec_check_argument_list(st, &shapes, arguments, span, program);
            lemma_extends_on(given, st, next_st);
            let st = next_st;
        },
        _ => {},
    }
}

pub proof fn lemma_check_interface_type(
    st: Seq<Diagnostic>,
    ty: &Type,
    span: Span,
    program: &Program,
)
    ensures
        extends(st, spec_check_interface_type(st, ty, span, program)),
{
    reveal(spec_check_interface_type);
    let given = st;
    lemma_extends_itself(st);
    lemma_check_type(st, ty, span, program);
    let next_st = spec_check_type(st, ty, span, program);
    lemma_extends_on(given, st, next_st);
    let st = next_st;
    let named = match nominal_id(ty) {
        Some(id) => is_interface(program, id),
        None => false,
    };
    if !named {
        lemma_add(st, report(Finding::ConformanceTargetNotInterface, span));
        let next_st = spec_add(st, report(Finding::ConformanceTargetNotInterface, span));
        lemma_extends_on(given, st, next_st);
        let st = next_st;
    }
}

pub proof fn lemma_check_bound_types(
    st: Seq<Diagnostic>,
    bounds: &List<GenericBound>,
    span: Span,
    program: &Program,
)
    ensures
        extends(st, spec_check_bound_types(st, bounds, span, program)),
    decreases bounds,
{
    reveal_with_fuel(spec_check_bound_types, 2);
    let given = st;
    lemma_extends_itself(st);
    match bounds {
        List::Nil => {},
        List::Cons(head, tail) => {
            match &**head {
                GenericBound::Interface(interface, arguments) => {
                    lemma_check_generic_arguments(st, *interface, arguments, span, program);
                    let next_st = spec_check_generic_arguments(
                        st,
                        *interface,
                        arguments,
                        span,
                        program,
                    );
                    lemma_extends_on(given, st, next_st);
                    let st = next_st;
                },
                _ => {},
            }
            let next_st = match &**head {
                GenericBound::Interface(interface, arguments) => {
                    spec_check_generic_arguments(st, *interface, arguments, span, program)
                },
                _ => st,
            };
            assert(extends(given, next_st));
            let st = next_st;
            lemma_check_bound_types(st, tail, span, program);
            let next_st = spec_check_bound_types(st, tail, span, program);
            lemma_extends_on(given, st, next_st);
            let st = next_st;
        },
    }
}

pub proof fn lemma_check_generic_bound_types(
    st: Seq<Diagnostic>,
    parameters: &List<GenericParameter>,
    program: &Program,
)
    ensures
        extends(st, spec_check_generic_bound_types(st, parameters, program)),
    decreases parameters,
{
    reveal_with_fuel(spec_check_generic_bound_types, 2);
    let given = st;
    lemma_extends_itself(st);
    match parameters {
        List::Nil => {},
        List::Cons(head, tail) => {
            lemma_check_bound_types(st, &head.bounds, head.span, program);
            let next_st = spec_check_bound_types(st, &head.bounds, head.span, program);
            lemma_extends_on(given, st, next_st);
            let st = next_st;
            lemma_check_generic_bound_types(st, tail, program);
            let next_st = spec_check_generic_bound_types(st, tail, program);
            lemma_extends_on(given, st, next_st);
            let st = next_st;
        },
    }
}

pub proof fn lemma_check_parameter_types(
    st: Seq<Diagnostic>,
    parameters: Seq<Parameter>,
    program: &Program,
    from: nat,
)
    ensures
        extends(st, check_parameter_types_from(st, parameters, program, from)),
    decreases parameters.len() - from,
{
    let given = st;
    lemma_extends_itself(st);
    if from < parameters.len() {
        let item = &parameters[from as int];
        lemma_check_type(st, &item.ty, item.span, program);
        let next_st = spec_check_type(st, &item.ty, item.span, program);
        lemma_extends_on(given, st, next_st);
        let st = next_st;
        lemma_check_parameter_types(st, parameters, program, from + 1);
        lemma_extends_on(given, st, check_parameter_types_from(st, parameters, program, from + 1));
    }
}

pub proof fn lemma_check_function_types(
    st: Seq<Diagnostic>,
    function: &Function,
    span: Span,
    program: &Program,
)
    ensures
        extends(st, spec_check_function_types(st, function, span, program)),
{
    reveal(spec_check_function_types);
    let given = st;
    lemma_extends_itself(st);
    lemma_check_parameter_types(st, function.parameters@, program, 0);
    let next_st = check_parameter_types_from(st, function.parameters@, program, 0);
    lemma_extends_on(given, st, next_st);
    let st = next_st;
    lemma_check_type(st, &function.result, span, program);
    let next_st = spec_check_type(st, &function.result, span, program);
    lemma_extends_on(given, st, next_st);
    let st = next_st;
    lemma_check_generic_bound_types(st, &function.generics, program);
    let next_st = spec_check_generic_bound_types(st, &function.generics, program);
    lemma_extends_on(given, st, next_st);
    let st = next_st;
}

pub proof fn lemma_check_bounds(
    st: Seq<Diagnostic>,
    bounds: &List<GenericBound>,
    namespace: Namespace,
    span: Span,
    parameters: &List<GenericParameter>,
    program: &Program,
)
    ensures
        extends(st, spec_check_bounds(st, bounds, namespace, span, parameters, program)),
    decreases bounds,
{
    reveal_with_fuel(spec_check_bounds, 2);
    let given = st;
    lemma_extends_itself(st);
    match bounds {
        List::Nil => {},
        List::Cons(head, tail) => {
            if let Some(finding) = spec_bound_finding(head, namespace, parameters, program) {
                lemma_add(st, report(finding, span));
                let next_st = spec_add(st, report(finding, span));
                lemma_extends_on(given, st, next_st);
                let st = next_st;
            }
            let next_st = if let Some(finding) = spec_bound_finding(
                head,
                namespace,
                parameters,
                program,
            ) {
                spec_add(st, report(finding, span))
            } else {
                st
            };
            assert(extends(given, next_st));
            let st = next_st;
            lemma_check_bounds(st, tail, namespace, span, parameters, program);
            let next_st = spec_check_bounds(st, tail, namespace, span, parameters, program);
            lemma_extends_on(given, st, next_st);
            let st = next_st;
        },
    }
}

pub proof fn lemma_check_parameter_bounds(
    st: Seq<Diagnostic>,
    rest: &List<GenericParameter>,
    parameters: &List<GenericParameter>,
    program: &Program,
)
    ensures
        extends(st, spec_check_parameter_bounds(st, rest, parameters, program)),
    decreases rest,
{
    reveal_with_fuel(spec_check_parameter_bounds, 2);
    let given = st;
    lemma_extends_itself(st);
    match rest {
        List::Nil => {},
        List::Cons(head, tail) => {
            lemma_check_bounds(st, &head.bounds, head.namespace, head.span, parameters, program);
            let next_st = spec_check_bounds(
                st,
                &head.bounds,
                head.namespace,
                head.span,
                parameters,
                program,
            );
            lemma_extends_on(given, st, next_st);
            let st = next_st;
            lemma_check_parameter_bounds(st, tail, parameters, program);
            let next_st = spec_check_parameter_bounds(st, tail, parameters, program);
            lemma_extends_on(given, st, next_st);
            let st = next_st;
        },
    }
}

pub proof fn lemma_check_generic_parameters(
    st: Seq<Diagnostic>,
    parameters: &List<GenericParameter>,
    program: &Program,
)
    ensures
        extends(st, spec_check_generic_parameters(st, parameters, program)),
{
    reveal(spec_check_generic_parameters);
    let given = st;
    lemma_extends_itself(st);
    lemma_check_parameter_bounds(st, parameters, parameters, program);
    let next_st = spec_check_parameter_bounds(st, parameters, parameters, program);
    lemma_extends_on(given, st, next_st);
    let st = next_st;
}

} // verus!
