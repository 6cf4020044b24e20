//! The checks of definitions only add to the reports.

use vstd::prelude::*;

use crate::appending::base::{
    extends, lemma_add, lemma_extends_itself, lemma_extends_nothing, lemma_extends_on,
};
use crate::appending::classes::{
    lemma_check_class, lemma_check_declared_interfaces, lemma_check_function,
    lemma_check_implementation, lemma_check_public_reference_lifetimes,
    lemma_reject_duplicate_methods,
};
use crate::appending::types::{
    lemma_add_for_declaration, lemma_check_function_types, lemma_check_generic_bound_types,
    lemma_check_generic_parameters, lemma_check_interface_type, lemma_check_type, lemma_reject_void,
};
use crate::diagnostics::{report, Diagnostic, Finding};
use crate::hir::{
    DeclarationId, Definition, DefinitionData, EnumVariant, Field, GenericParameter, Method,
    Namespace, Program, Type,
};
use crate::ids::contains_id;
use crate::list::{cons, List};
use crate::lowering::context::next;
use crate::ownership::derive::conformances;
use crate::ownership::facts::OwnershipFacts;
use crate::reports::spec_add;
use crate::signatures::classes::{
    spec_check_class, spec_check_declared_interfaces, spec_check_function,
    spec_check_implementation, spec_check_public_reference_lifetimes, spec_reject_duplicate_methods,
};
use crate::signatures::definitions::{
    can_be_copied, check_copies_from, check_definitions_from, check_field_types_from,
    check_foreign_functions_from, check_interface_methods_from, check_interface_types_from,
    check_marker_conformances_from, check_method_types_from, check_payload_types_from,
    check_struct_methods_from, check_unsafe_marker_implementations_from, declares_type,
    discriminant_at, first_explicit, has_payload, has_unsafe_marker_conformance,
    implemented_interface, in_ascending_order, is_function, is_unmarked_implementation,
    reject_void_fields_from, reject_void_payloads_from, spec_check_copy_implementations,
    spec_check_definition, spec_check_definition_types, spec_check_discriminants_from,
    spec_check_enum_discriminants, spec_check_markers, spec_occupant, spec_reject_effect_parameters,
    unchecked_marker, Occupied,
};
use crate::signatures::types::{
    declaration_span, is_exported, spec_add_for_declaration, spec_check_function_types,
    spec_check_generic_bound_types, spec_check_generic_parameters, spec_check_interface_type,
    spec_check_type, spec_reject_void,
};
use crate::syntax::Span;

verus! {

pub proof fn lemma_reject_void_fields(st: Seq<Diagnostic>, fields: Seq<Field>, from: nat)
    ensures
        extends(st, reject_void_fields_from(st, fields, from)),
    decreases fields.len() - from,
{
    let given = st;
    lemma_extends_itself(st);
    if from < fields.len() {
        let item = &fields[from as int];
        lemma_reject_void(st, &item.ty, item.span);
        let next_st = spec_reject_void(st, &item.ty, item.span);
        lemma_extends_on(given, st, next_st);
        let st = next_st;
        lemma_reject_void_fields(st, fields, from + 1);
        lemma_extends_on(given, st, reject_void_fields_from(st, fields, from + 1));
    }
}

pub proof fn lemma_reject_void_payloads(
    st: Seq<Diagnostic>,
    variants: Seq<EnumVariant>,
    from: nat,
)
    ensures
        extends(st, reject_void_payloads_from(st, variants, from)),
    decreases variants.len() - from,
{
    let given = st;
    lemma_extends_itself(st);
    if from < variants.len() {
        let item = &variants[from as int];
        lemma_reject_void_fields(st, item.fields@, 0);
        let next_st = reject_void_fields_from(st, item.fields@, 0);
        lemma_extends_on(given, st, next_st);
        let st = next_st;
        lemma_reject_void_payloads(st, variants, from + 1);
        lemma_extends_on(given, st, reject_void_payloads_from(st, variants, from + 1));
    }
}

pub proof fn lemma_check_struct_methods(
    st: Seq<Diagnostic>,
    methods: Seq<Method>,
    program: &Program,
    declaration: DeclarationId,
    from: nat,
)
    ensures
        extends(st, check_struct_methods_from(st, methods, program, declaration, from)),
    decreases methods.len() - from,
{
    let given = st;
    lemma_extends_itself(st);
    if from < methods.len() {
        let item = &methods[from as int];
        lemma_check_function(st, program, declaration, &item.function);
        let next_st = spec_check_function(st, program, declaration, &item.function);
        lemma_extends_on(given, st, next_st);
        let st = next_st;
        lemma_check_generic_parameters(st, &item.function.generics, program);
        let next_st = spec_check_generic_parameters(st, &item.function.generics, program);
        lemma_extends_on(given, st, next_st);
        let st = next_st;
        lemma_check_struct_methods(st, methods, program, declaration, from + 1);
        lemma_extends_on(
            given,
            st,
            check_struct_methods_from(st, methods, program, declaration, from + 1),
        );
    }
}

pub proof fn lemma_check_interface_methods(
    st: Seq<Diagnostic>,
    methods: Seq<Method>,
    program: &Program,
    declaration: DeclarationId,
    from: nat,
)
    ensures
        extends(st, check_interface_methods_from(st, methods, program, declaration, from)),
    decreases methods.len() - from,
{
    let given = st;
    lemma_extends_itself(st);
    if from < methods.len() {
        let item = &methods[from as int];
        lemma_check_function(st, program, declaration, &item.function);
        let next_st = spec_check_function(st, program, declaration, &item.function);
        lemma_extends_on(given, st, next_st);
        let st = next_st;
        lemma_check_public_reference_lifetimes(
            st,
            &item.function,
            is_exported(program, declaration),
            true,
            item.span,
        );
        let next_st = spec_check_public_reference_lifetimes(
            st,
            &item.function,
            is_exported(program, declaration),
            true,
            item.span,
        );
        lemma_extends_on(given, st, next_st);
        let st = next_st;
        lemma_check_interface_methods(st, methods, program, declaration, from + 1);
        lemma_extends_on(
            given,
            st,
            check_interface_methods_from(st, methods, program, declaration, from + 1),
        );
    }
}

pub proof fn lemma_check_foreign_functions(st: Seq<Diagnostic>, functions: Seq<Method>, from: nat)
    ensures
        extends(st, check_foreign_functions_from(st, functions, from)),
    decreases functions.len() - from,
{
    let given = st;
    lemma_extends_itself(st);
    if from < functions.len() {
        let item = &functions[from as int];
        if item.function.is_async || !item.function.effects.is_empty() {
            lemma_add(st, report(Finding::InvalidForeignSignature, item.span));
            let next_st = spec_add(st, report(Finding::InvalidForeignSignature, item.span));
            lemma_extends_on(given, st, next_st);
            let st = next_st;
        }
        let next_st = if item.function.is_async || !item.function.effects.is_empty() {
            spec_add(st, report(Finding::InvalidForeignSignature, item.span))
        } else {
            st
        };
        assert(extends(given, next_st));
        let st = next_st;
        lemma_check_foreign_functions(st, functions, from + 1);
        lemma_extends_on(given, st, check_foreign_functions_from(st, functions, from + 1));
    }
}

pub proof fn lemma_check_discriminants_from(
    st: Seq<Diagnostic>,
    variants: &Vec<EnumVariant>,
    index: usize,
    occupied: List<Occupied>,
)
    ensures
        extends(st, spec_check_discriminants_from(st, variants, index, occupied)),
    decreases variants@.len() - index,
{
    reveal_with_fuel(spec_check_discriminants_from, 2);
    let given = st;
    lemma_extends_itself(st);
    if index < variants.len() {
        let variant = &variants[index as int];
        let discriminant: i128 = discriminant_at(variant, index);
        if let Some(previous) = spec_occupant(&occupied, discriminant) {
            lemma_add(
                st, report(
                    Finding::DuplicateEnumDiscriminant {
                        previous,
                        name: variant.name,
                        discriminant,
                    },
                    variant.span,
                ),
            );
            let next_st = spec_add(
                st, report(
                    Finding::DuplicateEnumDiscriminant {
                        previous,
                        name: variant.name,
                        discriminant,
                    },
                    variant.span,
                ),
            );
            lemma_extends_on(given, st, next_st);
            let st = next_st;
        }
        let next_st = if let Some(previous) = spec_occupant(&occupied, discriminant) {
            spec_add(
                st, report(
                    Finding::DuplicateEnumDiscriminant {
                        previous,
                        name: variant.name,
                        discriminant,
                    },
                    variant.span,
                ),
            )
        } else {
            st
        };
        assert(extends(given, next_st));
        let st = next_st;
        lemma_check_discriminants_from(
            st,
            variants,
            next(index),
            cons(Occupied { discriminant, name: variant.name }, occupied),
        );
        let next_st = spec_check_discriminants_from(
            st,
            variants,
            next(index),
            cons(Occupied { discriminant, name: variant.name }, occupied),
        );
        lemma_extends_on(given, st, next_st);
        let st = next_st;
    }
}

pub proof fn lemma_check_enum_discriminants(st: Seq<Diagnostic>, variants: &Vec<EnumVariant>)
    ensures
        extends(st, spec_check_enum_discriminants(st, variants)),
{
    reveal(spec_check_enum_discriminants);
    let given = st;
    lemma_extends_itself(st);
    if has_payload(variants) {
        if let Some(span) = first_explicit(variants) {
            lemma_add(st, report(Finding::EnumPayloadDiscriminantMix, span));
            let next_st = spec_add(st, report(Finding::EnumPayloadDiscriminantMix, span));
            lemma_extends_on(given, st, next_st);
            let st = next_st;
        }
    }
    let next_st = if has_payload(variants) {
        if let Some(span) = first_explicit(variants) {
            spec_add(st, report(Finding::EnumPayloadDiscriminantMix, span))
        } else {
            st
        }
    } else {
        st
    };
    assert(extends(given, next_st));
    let st = next_st;
    lemma_check_discriminants_from(st, variants, 0, List::Nil);
    let next_st = spec_check_discriminants_from(st, variants, 0, List::Nil);
    lemma_extends_on(given, st, next_st);
    let st = next_st;
}

pub proof fn lemma_check_definition(
    st: Seq<Diagnostic>,
    program: &Program,
    definition: &Definition,
)
    ensures
        extends(st, spec_check_definition(st, program, definition)),
{
    reveal(spec_check_definition);
    let given = st;
    lemma_extends_itself(st);
    match &definition.data {
        DefinitionData::Constant { ty, .. } => {
            if matches!(ty, Type::Error) && is_exported(program, definition.declaration) {
                lemma_add_for_declaration(
                    st,
                    program,
                    definition.declaration,
                    Finding::PublicAnnotationRequired,
                );
                let next_st = spec_add_for_declaration(
                    st,
                    program,
                    definition.declaration,
                    Finding::PublicAnnotationRequired,
                );
                lemma_extends_on(given, st, next_st);
                let st = next_st;
            }
        },
        DefinitionData::Function(function) => {
            lemma_check_function(st, program, definition.declaration, function);
            let next_st = spec_check_function(st, program, definition.declaration, function);
            lemma_extends_on(given, st, next_st);
            let st = next_st;
            lemma_check_public_reference_lifetimes(
                st,
                function,
                is_exported(program, definition.declaration),
                false,
                declaration_span(program, definition.declaration),
            );
            let next_st = spec_check_public_reference_lifetimes(
                st,
                function,
                is_exported(program, definition.declaration),
                false,
                declaration_span(program, definition.declaration),
            );
            lemma_extends_on(given, st, next_st);
            let st = next_st;
            lemma_check_generic_parameters(st, &function.generics, program);
            let next_st = spec_check_generic_parameters(st, &function.generics, program);
            lemma_extends_on(given, st, next_st);
            let st = next_st;
        },
        DefinitionData::Struct { fields, methods } => {
            lemma_reject_void_fields(st, fields@, 0);
            let next_st = reject_void_fields_from(st, fields@, 0);
            lemma_extends_on(given, st, next_st);
            let st = next_st;
            lemma_reject_duplicate_methods(st, methods);
            let next_st = spec_reject_duplicate_methods(st, methods);
            lemma_extends_on(given, st, next_st);
            let st = next_st;
            lemma_check_struct_methods(st, methods@, program, definition.declaration, 0);
            let next_st = check_struct_methods_from(
                st,
                methods@,
                program,
                definition.declaration,
                0,
            );
            lemma_extends_on(given, st, next_st);
            let st = next_st;
            lemma_check_declared_interfaces(st, program, definition.declaration, Some(methods));
            let next_st = spec_check_declared_interfaces(
                st,
                program,
                definition.declaration,
                Some(methods),
            );
            lemma_extends_on(given, st, next_st);
            let st = next_st;
        },
        DefinitionData::Enum { variants, .. } => {
            lemma_check_enum_discriminants(st, variants);
            let next_st = spec_check_enum_discriminants(st, variants);
            lemma_extends_on(given, st, next_st);
            let st = next_st;
            lemma_reject_void_payloads(st, variants@, 0);
            let next_st = reject_void_payloads_from(st, variants@, 0);
            lemma_extends_on(given, st, next_st);
            let st = next_st;
            lemma_check_declared_interfaces(st, program, definition.declaration, None);
            let next_st = spec_check_declared_interfaces(st, program, definition.declaration, None);
            lemma_extends_on(given, st, next_st);
            let st = next_st;
        },
        DefinitionData::Interface { methods } => {
            lemma_reject_duplicate_methods(st, methods);
            let next_st = spec_reject_duplicate_methods(st, methods);
            lemma_extends_on(given, st, next_st);
            let st = next_st;
            lemma_check_interface_methods(st, methods@, program, definition.declaration, 0);
            let next_st = check_interface_methods_from(
                st,
                methods@,
                program,
                definition.declaration,
                0,
            );
            lemma_extends_on(given, st, next_st);
            let st = next_st;
        },
        DefinitionData::Class { base, fields, methods, .. } => {
            lemma_reject_void_fields(st, fields@, 0);
            let next_st = reject_void_fields_from(st, fields@, 0);
            lemma_extends_on(given, st, next_st);
            let st = next_st;
            lemma_reject_duplicate_methods(st, methods);
            let next_st = spec_reject_duplicate_methods(st, methods);
            lemma_extends_on(given, st, next_st);
            let st = next_st;
            lemma_check_class(st, program, definition, *base, methods);
            let next_st = spec_check_class(st, program, definition, *base, methods);
            lemma_extends_on(given, st, next_st);
            let st = next_st;
        },
        DefinitionData::Implementation { interface, methods, .. } => {
            lemma_reject_duplicate_methods(st, methods);
            let next_st = spec_reject_duplicate_methods(st, methods);
            lemma_extends_on(given, st, next_st);
            let st = next_st;
            if let Some(interface) = implemented_interface(interface) {
                lemma_check_implementation(
                    st,
                    program,
                    definition.declaration,
                    interface,
                    Some(methods),
                );
                let next_st = spec_check_implementation(
                    st,
                    program,
                    definition.declaration,
                    interface,
                    Some(methods),
                );
                lemma_extends_on(given, st, next_st);
                let st = next_st;
            }
        },
        DefinitionData::Foreign { functions } => {
            lemma_check_foreign_functions(st, functions@, 0);
            let next_st = check_foreign_functions_from(st, functions@, 0);
            lemma_extends_on(given, st, next_st);
            let st = next_st;
        },
        DefinitionData::TypeAlias(ty) => {
            lemma_reject_void(st, ty, declaration_span(program, definition.declaration));
            let next_st = spec_reject_void(
                st,
                ty,
                declaration_span(program, definition.declaration),
            );
            lemma_extends_on(given, st, next_st);
            let st = next_st;
        },
    }
}

pub proof fn lemma_check_field_types(
    st: Seq<Diagnostic>,
    fields: Seq<Field>,
    program: &Program,
    from: nat,
)
    ensures
        extends(st, check_field_types_from(st, fields, program, from)),
    decreases fields.len() - from,
{
    let given = st;
    lemma_extends_itself(st);
    if from < fields.len() {
        let item = &fields[from as int];
        lemma_check_type(st, &item.ty, item.span, program);
        let next_st = spec_check_type(st, &item.ty, item.span, program);
        lemma_extends_on(given, st, next_st);
        let st = next_st;
        lemma_check_field_types(st, fields, program, from + 1);
        lemma_extends_on(given, st, check_field_types_from(st, fields, program, from + 1));
    }
}

pub proof fn lemma_check_payload_types(
    st: Seq<Diagnostic>,
    variants: Seq<EnumVariant>,
    program: &Program,
    from: nat,
)
    ensures
        extends(st, check_payload_types_from(st, variants, program, from)),
    decreases variants.len() - from,
{
    let given = st;
    lemma_extends_itself(st);
    if from < variants.len() {
        let item = &variants[from as int];
        lemma_check_field_types(st, item.fields@, program, 0);
        let next_st = check_field_types_from(st, item.fields@, program, 0);
        lemma_extends_on(given, st, next_st);
        let st = next_st;
        lemma_check_payload_types(st, variants, program, from + 1);
        lemma_extends_on(given, st, check_payload_types_from(st, variants, program, from + 1));
    }
}

pub proof fn lemma_check_method_types(
    st: Seq<Diagnostic>,
    methods: Seq<Method>,
    program: &Program,
    from: nat,
)
    ensures
        extends(st, check_method_types_from(st, methods, program, from)),
    decreases methods.len() - from,
{
    let given = st;
    lemma_extends_itself(st);
    if from < methods.len() {
        let item = &methods[from as int];
        lemma_check_function_types(st, &item.function, item.span, program);
        let next_st = spec_check_function_types(st, &item.function, item.span, program);
        lemma_extends_on(given, st, next_st);
        let st = next_st;
        lemma_check_method_types(st, methods, program, from + 1);
        lemma_extends_on(given, st, check_method_types_from(st, methods, program, from + 1));
    }
}

pub proof fn lemma_check_interface_types(
    st: Seq<Diagnostic>,
    interfaces: Seq<Type>,
    span: Span,
    program: &Program,
    from: nat,
)
    ensures
        extends(st, check_interface_types_from(st, interfaces, span, program, from)),
    decreases interfaces.len() - from,
{
    let given = st;
    lemma_extends_itself(st);
    if from < interfaces.len() {
        let item = &interfaces[from as int];
        lemma_check_interface_type(st, item, span, program);
        let next_st = spec_check_interface_type(st, item, span, program);
        lemma_extends_on(given, st, next_st);
        let st = next_st;
        lemma_check_interface_types(st, interfaces, span, program, from + 1);
        lemma_extends_on(
            given,
            st,
            check_interface_types_from(st, interfaces, span, program, from + 1),
        );
    }
}

pub proof fn lemma_reject_effect_parameters(
    st: Seq<Diagnostic>,
    parameters: &List<GenericParameter>,
)
    ensures
        extends(st, spec_reject_effect_parameters(st, parameters)),
    decreases parameters,
{
    reveal_with_fuel(spec_reject_effect_parameters, 2);
    let given = st;
    lemma_extends_itself(st);
    match parameters {
        List::Nil => {},
        List::Cons(head, tail) => {
            if head.namespace == Namespace::Value {
                lemma_add(st, report(Finding::NominalEffectParameter, head.span));
                let next_st = spec_add(st, report(Finding::NominalEffectParameter, head.span));
                lemma_extends_on(given, st, next_st);
                let st = next_st;
            }
            let next_st = if head.namespace == Namespace::Value {
                spec_add(st, report(Finding::NominalEffectParameter, head.span))
            } else {
                st
            };
            assert(extends(given, next_st));
            let st = next_st;
            lemma_reject_effect_parameters(st, tail);
            let next_st = spec_reject_effect_parameters(st, tail);
            lemma_extends_on(given, st, next_st);
            let st = next_st;
        },
    }
}

pub proof fn lemma_check_definition_types(
    st: Seq<Diagnostic>,
    program: &Program,
    definition: &Definition,
)
    ensures
        extends(st, spec_check_definition_types(st, program, definition)),
{
    reveal(spec_check_definition_types);
    let given = st;
    lemma_extends_itself(st);
    let span = declaration_span(program, definition.declaration);
    if !is_function(&definition.data) {
        lemma_check_generic_bound_types(st, &definition.generics, program);
        let next_st = spec_check_generic_bound_types(st, &definition.generics, program);
        lemma_extends_on(given, st, next_st);
        let st = next_st;
    }
    let next_st = if !is_function(&definition.data) {
        spec_check_generic_bound_types(st, &definition.generics, program)
    } else {
        st
    };
    assert(extends(given, next_st));
    let st = next_st;
    if declares_type(&definition.data) {
        lemma_reject_effect_parameters(st, &definition.generics);
        let next_st = spec_reject_effect_parameters(st, &definition.generics);
        lemma_extends_on(given, st, next_st);
        let st = next_st;
    }
    let next_st = if declares_type(&definition.data) {
        spec_reject_effect_parameters(st, &definition.generics)
    } else {
        st
    };
    assert(extends(given, next_st));
    let st = next_st;
    match &definition.data {
        DefinitionData::Constant { ty, .. } => {
            lemma_check_type(st, ty, span, program);
            let next_st = spec_check_type(st, ty, span, program);
            lemma_extends_on(given, st, next_st);
            let st = next_st;
        },
        DefinitionData::TypeAlias(ty) => {
            lemma_check_type(st, ty, span, program);
            let next_st = spec_check_type(st, ty, span, program);
            lemma_extends_on(given, st, next_st);
            let st = next_st;
        },
        DefinitionData::Function(function) => {
            lemma_check_function_types(st, function, span, program);
            let next_st = spec_check_function_types(st, function, span, program);
            lemma_extends_on(given, st, next_st);
            let st = next_st;
        },
        DefinitionData::Struct { fields, methods } => {
            lemma_check_field_types(st, fields@, program, 0);
            let next_st = check_field_types_from(st, fields@, program, 0);
            lemma_extends_on(given, st, next_st);
            let st = next_st;
            lemma_check_method_types(st, methods@, program, 0);
            let next_st = check_method_types_from(st, methods@, program, 0);
            lemma_extends_on(given, st, next_st);
            let st = next_st;
        },
        DefinitionData::Enum { variants, .. } => {
            lemma_check_payload_types(st, variants@, program, 0);
            let next_st = check_payload_types_from(st, variants@, program, 0);
            lemma_extends_on(given, st, next_st);
            let st = next_st;
        },
        DefinitionData::Interface { methods } => {
            lemma_check_method_types(st, methods@, program, 0);
            let next_st = check_method_types_from(st, methods@, program, 0);
            lemma_extends_on(given, st, next_st);
            let st = next_st;
        },
        DefinitionData::Class { interfaces, fields, constructor, methods, .. } => {
            lemma_check_interface_types(st, interfaces@, span, program, 0);
            let next_st = check_interface_types_from(st, interfaces@, span, program, 0);
            lemma_extends_on(given, st, next_st);
            let st = next_st;
            lemma_check_field_types(st, fields@, program, 0);
            let next_st = check_field_types_from(st, fields@, program, 0);
            lemma_extends_on(given, st, next_st);
            let st = next_st;
            if let Some(constructor) = constructor {
                lemma_check_function_types(st, &constructor.function, constructor.span, program);
                let next_st = spec_check_function_types(
                    st,
                    &constructor.function,
                    constructor.span,
                    program,
                );
                lemma_extends_on(given, st, next_st);
                let st = next_st;
            }
            let next_st = if let Some(constructor) = constructor {
                spec_check_function_types(st, &constructor.function, constructor.span, program)
            } else {
                st
            };
            assert(extends(given, next_st));
            let st = next_st;
            lemma_check_method_types(st, methods@, program, 0);
            let next_st = check_method_types_from(st, methods@, program, 0);
            lemma_extends_on(given, st, next_st);
            let st = next_st;
        },
        DefinitionData::Implementation { interface, target, methods, .. } => {
            if let Some(interface) = interface {
                lemma_check_interface_type(st, interface, span, program);
                let next_st = spec_check_interface_type(st, interface, span, program);
                lemma_extends_on(given, st, next_st);
                let st = next_st;
            }
            let next_st = if let Some(interface) = interface {
                spec_check_interface_type(st, interface, span, program)
            } else {
                st
            };
            assert(extends(given, next_st));
            let st = next_st;
            lemma_check_type(st, target, span, program);
            let next_st = spec_check_type(st, target, span, program);
            lemma_extends_on(given, st, next_st);
            let st = next_st;
            lemma_check_method_types(st, methods@, program, 0);
            let next_st = check_method_types_from(st, methods@, program, 0);
            lemma_extends_on(given, st, next_st);
            let st = next_st;
        },
        DefinitionData::Foreign { functions } => {
            lemma_check_method_types(st, functions@, program, 0);
            let next_st = check_method_types_from(st, functions@, program, 0);
            lemma_extends_on(given, st, next_st);
            let st = next_st;
        },
    }
}

pub proof fn lemma_check_definitions(
    st: Seq<Diagnostic>,
    definitions: Seq<Definition>,
    program: &Program,
    from: nat,
)
    ensures
        extends(st, check_definitions_from(st, definitions, program, from)),
    decreases definitions.len() - from,
{
    let given = st;
    lemma_extends_itself(st);
    if from < definitions.len() {
        let item = &definitions[from as int];
        lemma_check_definition(st, program, item);
        let next_st = spec_check_definition(st, program, item);
        lemma_extends_on(given, st, next_st);
        let st = next_st;
        lemma_check_generic_parameters(st, &item.generics, program);
        let next_st = spec_check_generic_parameters(st, &item.generics, program);
        lemma_extends_on(given, st, next_st);
        let st = next_st;
        lemma_check_definition_types(st, program, item);
        let next_st = spec_check_definition_types(st, program, item);
        lemma_extends_on(given, st, next_st);
        let st = next_st;
        lemma_check_definitions(st, definitions, program, from + 1);
        lemma_extends_on(given, st, check_definitions_from(st, definitions, program, from + 1));
    }
}

pub proof fn lemma_check_definitions_item(
    definitions: Seq<Definition>,
    program: &Program,
    from: nat,
    index: nat,
)
    requires
        from <= index < definitions.len(),
        check_definitions_from(Seq::empty(), definitions, program, from).len() == 0,
    ensures
        ({
            let item = &definitions[index as int];
            let st = Seq::<Diagnostic>::empty();
            let after = {
                let st = spec_check_definition(st, program, item);
                let st = spec_check_generic_parameters(st, &item.generics, program);
                spec_check_definition_types(st, program, item)
            };
            after == Seq::<Diagnostic>::empty()
        }),
    decreases definitions.len() - from,
{
    let given = Seq::<Diagnostic>::empty();
    let st = given;
    lemma_extends_itself(st);
    let item = &definitions[from as int];
    lemma_check_definition(st, program, item);
    let next_st = spec_check_definition(st, program, item);
    lemma_extends_on(given, st, next_st);
    let st = next_st;
    lemma_check_generic_parameters(st, &item.generics, program);
    let next_st = spec_check_generic_parameters(st, &item.generics, program);
    lemma_extends_on(given, st, next_st);
    let st = next_st;
    lemma_check_definition_types(st, program, item);
    let next_st = spec_check_definition_types(st, program, item);
    lemma_extends_on(given, st, next_st);
    let st = next_st;
    lemma_check_definitions(st, definitions, program, from + 1);
    lemma_extends_nothing(st, check_definitions_from(st, definitions, program, from + 1));
    if from < index {
        lemma_check_definitions_item(definitions, program, from + 1, index);
    }
}

pub proof fn lemma_check_marker_conformances(
    st: Seq<Diagnostic>,
    interfaces: Seq<DeclarationId>,
    program: &Program,
    target: DeclarationId,
    from: nat,
)
    ensures
        extends(st, check_marker_conformances_from(st, interfaces, program, target, from)),
    decreases interfaces.len() - from,
{
    let given = st;
    lemma_extends_itself(st);
    if from < interfaces.len() {
        let item = &interfaces[from as int];
        if let Some(marker) = unchecked_marker(program, *item) {
            if !has_unsafe_marker_conformance(program, target, marker) {
                lemma_add_for_declaration(st, program, target, Finding::UnsafeMarkerConformance);
                let next_st = spec_add_for_declaration(
                    st,
                    program,
                    target,
                    Finding::UnsafeMarkerConformance,
                );
                lemma_extends_on(given, st, next_st);
                let st = next_st;
            }
        }
        let next_st = if let Some(marker) = unchecked_marker(program, *item) {
            if !has_unsafe_marker_conformance(program, target, marker) {
                spec_add_for_declaration(st, program, target, Finding::UnsafeMarkerConformance)
            } else {
                st
            }
        } else {
            st
        };
        assert(extends(given, next_st));
        let st = next_st;
        lemma_check_marker_conformances(st, interfaces, program, target, from + 1);
        lemma_extends_on(
            given,
            st,
            check_marker_conformances_from(st, interfaces, program, target, from + 1),
        );
    }
}

pub proof fn lemma_check_unsafe_marker_implementations(
    st: Seq<Diagnostic>,
    definitions: Seq<Definition>,
    program: &Program,
    from: nat,
)
    ensures
        extends(st, check_unsafe_marker_implementations_from(st, definitions, program, from)),
    decreases definitions.len() - from,
{
    let given = st;
    lemma_extends_itself(st);
    if from < definitions.len() {
        let item = &definitions[from as int];
        lemma_check_markers(st, program, item);
        let next_st = spec_check_markers(st, program, item);
        lemma_extends_on(given, st, next_st);
        let st = next_st;
        lemma_check_unsafe_marker_implementations(st, definitions, program, from + 1);
        lemma_extends_on(
            given,
            st,
            check_unsafe_marker_implementations_from(st, definitions, program, from + 1),
        );
    }
}

pub proof fn lemma_check_copies(
    st: Seq<Diagnostic>,
    targets: Seq<DeclarationId>,
    program: &Program,
    facts: &OwnershipFacts,
    from: nat,
)
    ensures
        extends(st, check_copies_from(st, targets, program, facts, from)),
    decreases targets.len() - from,
{
    let given = st;
    lemma_extends_itself(st);
    if from < targets.len() {
        let item = &targets[from as int];
        if let Some(definition) = program.definition(*item) {
            if contains_id(&facts.drop, *item) || !can_be_copied(&definition.data, facts) {
                lemma_add_for_declaration(
                    st,
                    program,
                    definition.declaration,
                    Finding::InvalidCopyImplementation,
                );
                let next_st = spec_add_for_declaration(
                    st,
                    program,
                    definition.declaration,
                    Finding::InvalidCopyImplementation,
                );
                lemma_extends_on(given, st, next_st);
                let st = next_st;
            }
        }
        let next_st = if let Some(definition) = program.definition(*item) {
            if contains_id(&facts.drop, *item) || !can_be_copied(&definition.data, facts) {
                spec_add_for_declaration(
                    st,
                    program,
                    definition.declaration,
                    Finding::InvalidCopyImplementation,
                )
            } else {
                st
            }
        } else {
            st
        };
        assert(extends(given, next_st));
        let st = next_st;
        lemma_check_copies(st, targets, program, facts, from + 1);
        lemma_extends_on(given, st, check_copies_from(st, targets, program, facts, from + 1));
    }
}

pub proof fn lemma_check_copies_item(
    targets: Seq<DeclarationId>,
    program: &Program,
    facts: &OwnershipFacts,
    from: nat,
    index: nat,
)
    requires
        from <= index < targets.len(),
        check_copies_from(Seq::empty(), targets, program, facts, from).len() == 0,
    ensures
        ({
            let item = &targets[index as int];
            let st = Seq::<Diagnostic>::empty();
            let after = {
                if let Some(definition) = program.definition(*item) {
                    if contains_id(&facts.drop, *item) || !can_be_copied(&definition.data, facts) {
                        spec_add_for_declaration(
                            st,
                            program,
                            definition.declaration,
                            Finding::InvalidCopyImplementation,
                        )
                    } else {
                        st
                    }
                } else {
                    st
                }
            };
            after == Seq::<Diagnostic>::empty()
        }),
    decreases targets.len() - from,
{
    let given = Seq::<Diagnostic>::empty();
    let st = given;
    lemma_extends_itself(st);
    let item = &targets[from as int];
    if let Some(definition) = program.definition(*item) {
        if contains_id(&facts.drop, *item) || !can_be_copied(&definition.data, facts) {
            lemma_add_for_declaration(
                st,
                program,
                definition.declaration,
                Finding::InvalidCopyImplementation,
            );
            let next_st = spec_add_for_declaration(
                st,
                program,
                definition.declaration,
                Finding::InvalidCopyImplementation,
            );
            lemma_extends_on(given, st, next_st);
            let st = next_st;
        }
    }
    let next_st = if let Some(definition) = program.definition(*item) {
        if contains_id(&facts.drop, *item) || !can_be_copied(&definition.data, facts) {
            spec_add_for_declaration(
                st,
                program,
                definition.declaration,
                Finding::InvalidCopyImplementation,
            )
        } else {
            st
        }
    } else {
        st
    };
    assert(extends(given, next_st));
    let st = next_st;
    lemma_check_copies(st, targets, program, facts, from + 1);
    lemma_extends_nothing(st, check_copies_from(st, targets, program, facts, from + 1));
    if from < index {
        lemma_check_copies_item(targets, program, facts, from + 1, index);
    }
}

pub proof fn lemma_check_markers(st: Seq<Diagnostic>, program: &Program, definition: &Definition)
    ensures
        extends(st, spec_check_markers(st, program, definition)),
{
    reveal(spec_check_markers);
    let reported = if is_unmarked_implementation(program, &definition.data) {
        st.push(
            report(
                Finding::UnsafeMarkerImplementation,
                declaration_span(program, definition.declaration),
            ),
        )
    } else {
        st
    };
    lemma_extends_itself(st);
    lemma_add(
        st,
        report(
            Finding::UnsafeMarkerImplementation,
            declaration_span(program, definition.declaration),
        ),
    );
    lemma_check_marker_conformances(
        reported,
        conformances(program, definition.declaration),
        program,
        definition.declaration,
        0,
    );
    lemma_extends_on(st, reported, spec_check_markers(st, program, definition));
}

pub proof fn lemma_check_copy_implementations(
    st: Seq<Diagnostic>,
    program: &Program,
    facts: &OwnershipFacts,
)
    ensures
        extends(st, spec_check_copy_implementations(st, program, facts)),
{
    reveal(spec_check_copy_implementations);
    lemma_check_copies(
        st,
        in_ascending_order(facts.copy@, facts.copy@.len()),
        program,
        facts,
        0,
    );
}

} // verus!
