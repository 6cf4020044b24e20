//! When the checks of types report nothing.

use vstd::prelude::*;

use crate::acceptance::meaning::{
    are_well_formed_types, arguments_suit, bounds_have_arguments, bounds_suit, has_its_arguments,
    is_well_formed_signature, is_well_formed_type, lemma_counts, lemma_last_lifetime,
    lemma_shapes_of, lemma_suit_by_shape, lemma_unchanged, names_interface,
    parameters_have_arguments, parameters_suit, taking_arguments, with_shapes,
};
use crate::appending::base::{extends, lemma_add, lemma_extends_itself, lemma_extends_on};
use crate::appending::types::{
    lemma_check_argument_list, lemma_check_bound_types, lemma_check_bounds, lemma_check_effects,
    lemma_check_generic_arguments, lemma_check_generic_bound_types, lemma_check_parameter_bounds,
    lemma_check_parameter_types, lemma_check_type, lemma_check_types,
};
use crate::diagnostics::{report, Diagnostic, Finding};
use crate::hir::{
    DeclarationId, Function, GenericBound, GenericParameter, Namespace, Parameter, Program, Type,
};
use crate::list::List;
use crate::program::nominal_id;
use crate::reports::spec_add;
use crate::signatures::types::{
    check_parameter_types_from, declaration_span, definition_of, is_interface, is_of_namespace,
    spec_add_for_declaration, spec_bound_finding, spec_check_argument_list, spec_check_bound_types,
    spec_check_bounds, spec_check_effects, spec_check_function_types, spec_check_generic_arguments,
    spec_check_generic_bound_types, spec_check_generic_parameters, spec_check_interface_type,
    spec_check_parameter_bounds, spec_check_type, spec_check_types, spec_contains_void,
    spec_parameter_shapes, spec_reject_void, spec_shape_count, spec_type_count, ParameterShape,
};
use crate::syntax::Span;

verus! {

/// A report on a declaration is a report.
pub proof fn quiet_add_for_declaration(
    st: Seq<Diagnostic>,
    program: &Program,
    id: DeclarationId,
    finding: Finding,
)
    ensures
        spec_add_for_declaration(st, program, id, finding).len() == st.len() <==> false,
{
    reveal(spec_add_for_declaration);
    let given = st;
    lemma_extends_itself(st);
    lemma_add(st, report(finding, declaration_span(program, id)));
    let next_st = spec_add(st, report(finding, declaration_span(program, id)));
    lemma_extends_on(given, st, next_st);
    lemma_unchanged(given, next_st);
    let st = next_st;
}

/// A value is accepted exactly if void does not stand in its type.
pub proof fn quiet_reject_void(st: Seq<Diagnostic>, ty: &Type, span: Span)
    ensures
        spec_reject_void(st, ty, span).len() == st.len() <==> !spec_contains_void(ty),
{
    reveal(spec_reject_void);
    let given = st;
    lemma_extends_itself(st);
    if spec_contains_void(ty) {
        lemma_add(st, report(Finding::VoidValue, span));
        let next_st = spec_add(st, report(Finding::VoidValue, span));
        lemma_extends_on(given, st, next_st);
        lemma_unchanged(given, next_st);
        let st = next_st;
    }
}

/// Errors are accepted exactly if all are declared.
pub proof fn quiet_check_effects(
    st: Seq<Diagnostic>,
    effects: &List<DeclarationId>,
    span: Span,
    program: &Program,
)
    ensures
        spec_check_effects(st, effects, span, program).len()
            == st.len() <==> are_declared(*effects, program),
    decreases effects,
{
    reveal_with_fuel(spec_check_effects, 2);
    let given = st;
    lemma_extends_itself(st);
    lemma_each_effect(*effects, program);
    match effects {
        List::Nil => {},
        List::Cons(head, tail) => {
            if definition_of(program, **head).is_none() {
                lemma_add(st, report(Finding::UnknownErrorEffect, span));
                let next_st = spec_add(st, report(Finding::UnknownErrorEffect, span));
                lemma_extends_on(given, st, next_st);
                lemma_unchanged(given, next_st);
                let st = next_st;
            }
            let next_st = if definition_of(program, **head).is_none() {
                spec_add(st, report(Finding::UnknownErrorEffect, span))
            } else {
                st
            };
            assert(extends(given, next_st));
    lemma_unchanged(given, next_st);
            let st = next_st;
            lemma_check_effects(st, tail, span, program);
            quiet_check_effects(st, tail, span, program);
            let next_st = spec_check_effects(st, tail, span, program);
            lemma_extends_on(given, st, next_st);
            lemma_unchanged(given, next_st);
            let st = next_st;
        },
    }
}

/// A type is accepted exactly if it is well formed.
pub proof fn quiet_check_type(st: Seq<Diagnostic>, ty: &Type, span: Span, program: &Program)
    ensures
        spec_check_type(st, ty, span, program).len()
            == st.len() <==> is_well_formed_type(program, *ty),
    decreases ty, 0nat,
{
    reveal_with_fuel(spec_check_type, 2);
    let given = st;
    lemma_extends_itself(st);
    match ty {
        Type::Nominal(id, arguments) => {
            lemma_check_generic_arguments(st, *id, arguments, span, program);
            quiet_check_generic_arguments(st, *id, arguments, span, program);
            let next_st = spec_check_generic_arguments(st, *id, arguments, span, program);
            lemma_extends_on(given, st, next_st);
            lemma_unchanged(given, next_st);
            let st = next_st;
        },
        Type::DynamicInterface(id, arguments) => {
            lemma_check_generic_arguments(st, *id, arguments, span, program);
            quiet_check_generic_arguments(st, *id, arguments, span, program);
            let next_st = spec_check_generic_arguments(st, *id, arguments, span, program);
            lemma_extends_on(given, st, next_st);
            lemma_unchanged(given, next_st);
            let st = next_st;
            if !is_interface(program, *id) {
                lemma_add(st, report(Finding::DynamicTargetNotInterface, span));
                let next_st = spec_add(st, report(Finding::DynamicTargetNotInterface, span));
                lemma_extends_on(given, st, next_st);
                lemma_unchanged(given, next_st);
                let st = next_st;
            }
        },
        Type::Optional(inner) => {
            lemma_check_type(st, inner, span, program);
            quiet_check_type(st, inner, span, program);
            let next_st = spec_check_type(st, inner, span, program);
            lemma_extends_on(given, st, next_st);
            lemma_unchanged(given, next_st);
            let st = next_st;
        },
        Type::Array(inner, _) => {
            lemma_check_type(st, inner, span, program);
            quiet_check_type(st, inner, span, program);
            let next_st = spec_check_type(st, inner, span, program);
            lemma_extends_on(given, st, next_st);
            lemma_unchanged(given, next_st);
            let st = next_st;
        },
        Type::Slice(inner) => {
            lemma_check_type(st, inner, span, program);
            quiet_check_type(st, inner, span, program);
            let next_st = spec_check_type(st, inner, span, program);
            lemma_extends_on(given, st, next_st);
            lemma_unchanged(given, next_st);
            let st = next_st;
        },
        Type::Promise { result, .. } => {
            lemma_check_type(st, result, span, program);
            quiet_check_type(st, result, span, program);
            let next_st = spec_check_type(st, result, span, program);
            lemma_extends_on(given, st, next_st);
            lemma_unchanged(given, next_st);
            let st = next_st;
        },
        Type::Reference { referent, .. } => {
            lemma_check_type(st, referent, span, program);
            quiet_check_type(st, referent, span, program);
            let next_st = spec_check_type(st, referent, span, program);
            lemma_extends_on(given, st, next_st);
            lemma_unchanged(given, next_st);
            let st = next_st;
        },
        Type::RawPointer { pointee, .. } => {
            lemma_check_type(st, pointee, span, program);
            quiet_check_type(st, pointee, span, program);
            let next_st = spec_check_type(st, pointee, span, program);
            lemma_extends_on(given, st, next_st);
            lemma_unchanged(given, next_st);
            let st = next_st;
        },
        Type::Tuple(elements) => {
            lemma_check_types(st, elements, span, program);
            quiet_check_types(st, elements, span, program);
            let next_st = spec_check_types(st, elements, span, program);
            lemma_extends_on(given, st, next_st);
            lemma_unchanged(given, next_st);
            let st = next_st;
        },
        Type::Template(elements) => {
            lemma_check_types(st, elements, span, program);
            quiet_check_types(st, elements, span, program);
            let next_st = spec_check_types(st, elements, span, program);
            lemma_extends_on(given, st, next_st);
            lemma_unchanged(given, next_st);
            let st = next_st;
        },
        Type::Function(function) => {
            lemma_check_types(st, &function.parameters, span, program);
            quiet_check_types(st, &function.parameters, span, program);
            let next_st = spec_check_types(st, &function.parameters, span, program);
            lemma_extends_on(given, st, next_st);
            lemma_unchanged(given, next_st);
            let st = next_st;
            lemma_check_type(st, &function.result, span, program);
            quiet_check_type(st, &function.result, span, program);
            let next_st = spec_check_type(st, &function.result, span, program);
            lemma_extends_on(given, st, next_st);
            lemma_unchanged(given, next_st);
            let st = next_st;
        },
        Type::ErrorUnion(effects) => {
            lemma_check_effects(st, effects, span, program);
            quiet_check_effects(st, effects, span, program);
            let next_st = spec_check_effects(st, effects, span, program);
            lemma_extends_on(given, st, next_st);
            lemma_unchanged(given, next_st);
            let st = next_st;
        },
        _ => {},
    }
}

/// Types are accepted exactly if all are well formed.
pub proof fn quiet_check_types(
    st: Seq<Diagnostic>,
    types: &List<Type>,
    span: Span,
    program: &Program,
)
    ensures
        spec_check_types(st, types, span, program).len()
            == st.len() <==> are_well_formed_types(program, *types),
    decreases types, 0nat,
{
    reveal_with_fuel(spec_check_types, 2);
    let given = st;
    lemma_extends_itself(st);
    match types {
        List::Nil => {},
        List::Cons(head, tail) => {
            lemma_check_type(st, head, span, program);
            quiet_check_type(st, head, span, program);
            let next_st = spec_check_type(st, head, span, program);
            lemma_extends_on(given, st, next_st);
            lemma_unchanged(given, next_st);
            let st = next_st;
            lemma_check_types(st, tail, span, program);
            quiet_check_types(st, tail, span, program);
            let next_st = spec_check_types(st, tail, span, program);
            lemma_extends_on(given, st, next_st);
            lemma_unchanged(given, next_st);
            let st = next_st;
        },
    }
}

/// Arguments are accepted exactly if they suit their parameters.
pub proof fn quiet_check_argument_list(
    st: Seq<Diagnostic>,
    shapes: &List<ParameterShape>,
    arguments: &List<Type>,
    span: Span,
    program: &Program,
)
    ensures
        spec_check_argument_list(st, shapes, arguments, span, program).len()
            == st.len() <==> (arguments_suit(program, with_shapes(*shapes), *arguments)),
    decreases arguments, 0nat,
{
    reveal_with_fuel(spec_check_argument_list, 2);
    let given = st;
    lemma_extends_itself(st);
    match (shapes, arguments) {
        (List::Cons(shape, shapes), List::Cons(argument, arguments)) => {
            if !is_of_namespace(argument, shape.namespace) {
                lemma_add(st, report(Finding::GenericArgumentNamespace(shape.name), span));
                let next_st = spec_add(
                    st,
                    report(Finding::GenericArgumentNamespace(shape.name), span),
                );
                lemma_extends_on(given, st, next_st);
                lemma_unchanged(given, next_st);
                let st = next_st;
            }
            let next_st = if !is_of_namespace(argument, shape.namespace) {
                spec_add(st, report(Finding::GenericArgumentNamespace(shape.name), span))
            } else {
                st
            };
            assert(extends(given, next_st));
    lemma_unchanged(given, next_st);
            let st = next_st;
            lemma_check_type(st, argument, span, program);
            quiet_check_type(st, argument, span, program);
            let next_st = spec_check_type(st, argument, span, program);
            lemma_extends_on(given, st, next_st);
            lemma_unchanged(given, next_st);
            let st = next_st;
            lemma_check_argument_list(st, shapes, arguments, span, program);
            quiet_check_argument_list(st, shapes, arguments, span, program);
            let next_st = spec_check_argument_list(st, shapes, arguments, span, program);
            lemma_extends_on(given, st, next_st);
            lemma_unchanged(given, next_st);
            let st = next_st;
        },
        _ => {},
    }
}

/// The arguments of a declared type are accepted exactly if they are those that its definition takes.
pub proof fn quiet_check_generic_arguments(
    st: Seq<Diagnostic>,
    declaration: DeclarationId,
    arguments: &List<Type>,
    span: Span,
    program: &Program,
)
    ensures
        spec_check_generic_arguments(st, declaration, arguments, span, program).len()
            == st.len() <==> has_its_arguments(program, declaration, *arguments),
    decreases arguments, 1nat,
{
    reveal_with_fuel(spec_check_generic_arguments, 2);
    let given = st;
    lemma_extends_itself(st);
    if let Some(definition) = definition_of(program, declaration) {
        lemma_counts(definition.generics, *arguments);
        lemma_shapes_of(definition.generics);
        lemma_suit_by_shape(
            program,
            spec_parameter_shapes(&definition.generics),
            taking_arguments(definition.generics),
            *arguments,
        );
    }
    match definition_of(program, declaration) {
        Some(definition) => {
            let shapes = spec_parameter_shapes(&definition.generics);
            let expected: usize = spec_shape_count(&shapes);
            let supplied: usize = spec_type_count(arguments);
            if supplied != expected {
                lemma_add(st, report(Finding::GenericArgumentArity { expected, supplied }, span));
                let next_st = spec_add(
                    st,
                    report(Finding::GenericArgumentArity { expected, supplied }, span),
                );
                lemma_extends_on(given, st, next_st);
                lemma_unchanged(given, next_st);
                let st = next_st;
            }
            let next_st = if supplied != expected {
                spec_add(st, report(Finding::GenericArgumentArity { expected, supplied }, span))
            } else {
                st
            };
            assert(extends(given, next_st));
    lemma_unchanged(given, next_st);
            let st = next_st;
            lemma_check_argument_list(st, &shapes, arguments, span, program);
            quiet_check_argument_list(st, &shapes, arguments, span, program);
            let next_st = spec_check_argument_list(st, &shapes, arguments, span, program);
            lemma_extends_on(given, st, next_st);
            lemma_unchanged(given, next_st);
            let st = next_st;
        },
        _ => {},
    }
}

/// What a declaration conforms to is accepted exactly if it is well formed and an interface.
pub proof fn quiet_check_interface_type(
    st: Seq<Diagnostic>,
    ty: &Type,
    span: Span,
    program: &Program,
)
    ensures
        spec_check_interface_type(st, ty, span, program).len()
            == st.len() <==> is_well_formed_interface(*ty, program),
{
    reveal(spec_check_interface_type);
    let given = st;
    lemma_extends_itself(st);
    lemma_check_type(st, ty, span, program);
    quiet_check_type(st, ty, span, program);
    let next_st = spec_check_type(st, ty, span, program);
    lemma_extends_on(given, st, next_st);
    lemma_unchanged(given, next_st);
    let st = next_st;
    let named = match nominal_id(ty) {
        Some(id) => is_interface(program, id),
        None => false,
    };
    if !named {
        lemma_add(st, report(Finding::ConformanceTargetNotInterface, span));
        let next_st = spec_add(st, report(Finding::ConformanceTargetNotInterface, span));
        lemma_extends_on(given, st, next_st);
        lemma_unchanged(given, next_st);
        let st = next_st;
    }
}

/// Bounds are accepted exactly if their interfaces have their arguments.
pub proof fn quiet_check_bound_types(
    st: Seq<Diagnostic>,
    bounds: &List<GenericBound>,
    span: Span,
    program: &Program,
)
    ensures
        spec_check_bound_types(st, bounds, span, program).len()
            == st.len() <==> bounds_have_arguments(*bounds, program),
    decreases bounds,
{
    reveal_with_fuel(spec_check_bound_types, 2);
    let given = st;
    lemma_extends_itself(st);
    match bounds {
        List::Nil => {},
        List::Cons(head, tail) => {
            match &**head {
                GenericBound::Interface(interface, arguments) => {
                    lemma_check_generic_arguments(st, *interface, arguments, span, program);
                    quiet_check_generic_arguments(st, *interface, arguments, span, program);
                    let next_st = spec_check_generic_arguments(
                        st,
                        *interface,
                        arguments,
                        span,
                        program,
                    );
                    lemma_extends_on(given, st, next_st);
                    lemma_unchanged(given, next_st);
                    let st = next_st;
                },
                _ => {},
            }
            let next_st = match &**head {
                GenericBound::Interface(interface, arguments) => {
                    spec_check_generic_arguments(st, *interface, arguments, span, program)
                },
                _ => st,
            };
            assert(extends(given, next_st));
    lemma_unchanged(given, next_st);
            let st = next_st;
            lemma_check_bound_types(st, tail, span, program);
            quiet_check_bound_types(st, tail, span, program);
            let next_st = spec_check_bound_types(st, tail, span, program);
            lemma_extends_on(given, st, next_st);
            lemma_unchanged(given, next_st);
            let st = next_st;
        },
    }
}

/// Parameters are accepted exactly if the interfaces in their bounds have their arguments.
pub proof fn quiet_check_generic_bound_types(
    st: Seq<Diagnostic>,
    parameters: &List<GenericParameter>,
    program: &Program,
)
    ensures
        spec_check_generic_bound_types(st, parameters, program).len()
            == st.len() <==> parameters_have_arguments(*parameters, program),
    decreases parameters,
{
    reveal_with_fuel(spec_check_generic_bound_types, 2);
    let given = st;
    lemma_extends_itself(st);
    match parameters {
        List::Nil => {},
        List::Cons(head, tail) => {
            lemma_check_bound_types(st, &head.bounds, head.span, program);
            quiet_check_bound_types(st, &head.bounds, head.span, program);
            let next_st = spec_check_bound_types(st, &head.bounds, head.span, program);
            lemma_extends_on(given, st, next_st);
            lemma_unchanged(given, next_st);
            let st = next_st;
            lemma_check_generic_bound_types(st, tail, program);
            quiet_check_generic_bound_types(st, tail, program);
            let next_st = spec_check_generic_bound_types(st, tail, program);
            lemma_extends_on(given, st, next_st);
            lemma_unchanged(given, next_st);
            let st = next_st;
        },
    }
}

/// Parameters are accepted exactly if their types are well formed.
pub proof fn quiet_check_parameter_types(
    st: Seq<Diagnostic>,
    parameters: Seq<Parameter>,
    program: &Program,
    from: nat,
)
    ensures
        check_parameter_types_from(
            st,
            parameters,
            program,
            from,
        ).len() == st.len() <==> (forall|index: int|
            from <= index < parameters.len()
                ==> is_well_formed_type(program, (#[trigger] parameters[index]).ty)),
    decreases parameters.len() - from,
{
    let given = st;
    lemma_extends_itself(st);
    if from < parameters.len() {
        let item = &parameters[from as int];
        lemma_check_type(st, &item.ty, item.span, program);
        quiet_check_type(st, &item.ty, item.span, program);
        let next_st = spec_check_type(st, &item.ty, item.span, program);
        lemma_extends_on(given, st, next_st);
        lemma_unchanged(given, next_st);
        let st = next_st;
        lemma_check_parameter_types(st, parameters, program, from + 1);
        quiet_check_parameter_types(st, parameters, program, from + 1);
        lemma_extends_on(given, st, check_parameter_types_from(st, parameters, program, from + 1));
    }
}

/// The types of a signature are accepted exactly if they are well formed.
pub proof fn quiet_check_function_types(
    st: Seq<Diagnostic>,
    function: &Function,
    span: Span,
    program: &Program,
)
    ensures
        spec_check_function_types(st, function, span, program).len()
            == st.len() <==> is_well_formed_signature(*function, program),
{
    reveal(spec_check_function_types);
    let given = st;
    lemma_extends_itself(st);
    lemma_check_parameter_types(st, function.parameters@, program, 0);
    quiet_check_parameter_types(st, function.parameters@, program, 0);
    let next_st = check_parameter_types_from(st, function.parameters@, program, 0);
    lemma_extends_on(given, st, next_st);
    lemma_unchanged(given, next_st);
    let st = next_st;
    lemma_check_type(st, &function.result, span, program);
    quiet_check_type(st, &function.result, span, program);
    let next_st = spec_check_type(st, &function.result, span, program);
    lemma_extends_on(given, st, next_st);
    lemma_unchanged(given, next_st);
    let st = next_st;
    lemma_check_generic_bound_types(st, &function.generics, program);
    quiet_check_generic_bound_types(st, &function.generics, program);
    let next_st = spec_check_generic_bound_types(st, &function.generics, program);
    lemma_extends_on(given, st, next_st);
    lemma_unchanged(given, next_st);
    let st = next_st;
}

/// Bounds are accepted exactly if they suit their parameter.
pub proof fn quiet_check_bounds(
    st: Seq<Diagnostic>,
    bounds: &List<GenericBound>,
    namespace: Namespace,
    span: Span,
    parameters: &List<GenericParameter>,
    program: &Program,
)
    ensures
        spec_check_bounds(st, bounds, namespace, span, parameters, program).len()
            == st.len() <==> bounds_suit(*bounds, namespace, *parameters, program),
    decreases bounds,
{
    reveal_with_fuel(spec_check_bounds, 2);
    let given = st;
    lemma_extends_itself(st);
    if let List::Cons(head, _) = bounds {
        reveal(spec_bound_finding);
        if let GenericBound::Outlives(lifetime) = **head {
            lemma_last_lifetime(*parameters, lifetime);
        }
    }
    match bounds {
        List::Nil => {},
        List::Cons(head, tail) => {
            if let Some(finding) = spec_bound_finding(head, namespace, parameters, program) {
                lemma_add(st, report(finding, span));
                let next_st = spec_add(st, report(finding, span));
                lemma_extends_on(given, st, next_st);
                lemma_unchanged(given, next_st);
                let st = next_st;
            }
            let next_st = if let Some(finding) = spec_bound_finding(
                head,
                namespace,
                parameters,
                program,
            ) {
                spec_add(st, report(finding, span))
            } else {
                st
            };
            assert(extends(given, next_st));
    lemma_unchanged(given, next_st);
            let st = next_st;
            lemma_check_bounds(st, tail, namespace, span, parameters, program);
            quiet_check_bounds(st, tail, namespace, span, parameters, program);
            let next_st = spec_check_bounds(st, tail, namespace, span, parameters, program);
            lemma_extends_on(given, st, next_st);
            lemma_unchanged(given, next_st);
            let st = next_st;
        },
    }
}

/// Parameters are accepted exactly if their bounds suit them.
pub proof fn quiet_check_parameter_bounds(
    st: Seq<Diagnostic>,
    rest: &List<GenericParameter>,
    parameters: &List<GenericParameter>,
    program: &Program,
)
    ensures
        spec_check_parameter_bounds(st, rest, parameters, program).len()
            == st.len() <==> parameters_suit(*rest, *parameters, program),
    decreases rest,
{
    reveal_with_fuel(spec_check_parameter_bounds, 2);
    let given = st;
    lemma_extends_itself(st);
    match rest {
        List::Nil => {},
        List::Cons(head, tail) => {
            lemma_check_bounds(st, &head.bounds, head.namespace, head.span, parameters, program);
            quiet_check_bounds(st, &head.bounds, head.namespace, head.span, parameters, program);
            let next_st = spec_check_bounds(
                st,
                &head.bounds,
                head.namespace,
                head.span,
                parameters,
                program,
            );
            lemma_extends_on(given, st, next_st);
            lemma_unchanged(given, next_st);
            let st = next_st;
            lemma_check_parameter_bounds(st, tail, parameters, program);
            quiet_check_parameter_bounds(st, tail, parameters, program);
            let next_st = spec_check_parameter_bounds(st, tail, parameters, program);
            lemma_extends_on(given, st, next_st);
            lemma_unchanged(given, next_st);
            let st = next_st;
        },
    }
}

/// Generic parameters are accepted exactly if their bounds suit them.
pub proof fn quiet_check_generic_parameters(
    st: Seq<Diagnostic>,
    parameters: &List<GenericParameter>,
    program: &Program,
)
    ensures
        spec_check_generic_parameters(st, parameters, program).len()
            == st.len() <==> parameters_suit(*parameters, *parameters, program),
{
    reveal(spec_check_generic_parameters);
    let given = st;
    lemma_extends_itself(st);
    lemma_check_parameter_bounds(st, parameters, parameters, program);
    quiet_check_parameter_bounds(st, parameters, parameters, program);
    let next_st = spec_check_parameter_bounds(st, parameters, parameters, program);
    lemma_extends_on(given, st, next_st);
    lemma_unchanged(given, next_st);
    let st = next_st;
}


/// Whether all errors are declared.
pub open spec fn are_declared(effects: List<DeclarationId>, program: &Program) -> bool {
    forall|index: int|
        0 <= index < effects.seq().len() ==> definition_of(
            program,
            #[trigger] effects.seq()[index],
        ) is Some
}

/// Whether a type is a well formed interface.
pub open spec fn is_well_formed_interface(ty: Type, program: &Program) -> bool {
    is_well_formed_type(program, ty) && match ty {
        Type::Nominal(id, _) | Type::DynamicInterface(id, _) => names_interface(program, id),
        _ => false,
    }
}

proof fn lemma_each_effect(effects: List<DeclarationId>, program: &Program)
    ensures
        match effects {
            List::Nil => true,
            List::Cons(head, tail) => (forall|index: int|
                0 <= index < effects.seq().len() ==> definition_of(
                    program,
                    #[trigger] effects.seq()[index],
                ) is Some) <==> definition_of(program, *head) is Some && forall|index: int|
                0 <= index < tail.seq().len() ==> definition_of(
                    program,
                    #[trigger] tail.seq()[index],
                ) is Some,
        },
{
    if let List::Cons(head, tail) = effects {
        let all = effects.seq();
        let rest = tail.seq();
        assert(all =~= seq![*head] + rest);
        assert(all[0] == *head);
        assert forall|index: int| 0 <= index < rest.len() implies #[trigger] rest[index]
            == all[index + 1] by {}
        assert forall|index: int| 0 < index < all.len() implies #[trigger] all[index]
            == rest[index - 1] by {}
        if forall|index: int|
            0 <= index < all.len() ==> definition_of(program, #[trigger] all[index]) is Some {
            assert forall|index: int| 0 <= index < rest.len() implies definition_of(
                program,
                #[trigger] rest[index],
            ) is Some by {
                assert(definition_of(program, all[index + 1]) is Some);
            }
            assert(definition_of(program, all[0]) is Some);
        }
    }
}

} // verus!
