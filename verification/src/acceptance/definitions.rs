//! When the checks of definitions report nothing.

use vstd::prelude::*;

use crate::acceptance::classes::{
    conforms, is_sound_class, quiet_check_class, quiet_check_declared_interfaces,
    quiet_check_function, quiet_check_implementation, quiet_check_public_reference_lifetimes,
    quiet_reject_duplicate_methods,
};
use crate::acceptance::meaning::{
    is_sound_function, is_well_formed_signature, is_well_formed_type, lemma_first_and_rest,
    lemma_unchanged, parameters_have_arguments, parameters_suit, result_is_clear,
};
use crate::acceptance::members::{
    are_named_apart, are_numbered_apart, have_values, implements, number_of,
};
use crate::acceptance::types::{
    is_well_formed_interface, quiet_add_for_declaration, quiet_check_function_types,
    quiet_check_generic_bound_types, quiet_check_generic_parameters, quiet_check_interface_type,
    quiet_check_type, quiet_reject_void,
};
use crate::appending::base::{extends, lemma_add, lemma_extends_itself, lemma_extends_on};
use crate::appending::classes::{
    lemma_check_class, lemma_check_declared_interfaces, lemma_check_function,
    lemma_check_implementation, lemma_check_public_reference_lifetimes,
    lemma_reject_duplicate_methods,
};
use crate::appending::definitions::{
    lemma_check_copies, lemma_check_definition, lemma_check_definition_types,
    lemma_check_definitions, lemma_check_discriminants_from, lemma_check_enum_discriminants,
    lemma_check_field_types, lemma_check_foreign_functions, lemma_check_interface_methods,
    lemma_check_interface_types, lemma_check_marker_conformances, lemma_check_markers,
    lemma_check_method_types, lemma_check_payload_types, lemma_check_struct_methods,
    lemma_check_unsafe_marker_implementations, lemma_reject_effect_parameters,
    lemma_reject_void_fields, lemma_reject_void_payloads,
};
use crate::appending::types::{
    lemma_add_for_declaration, lemma_check_function_types, lemma_check_generic_bound_types,
    lemma_check_generic_parameters, lemma_check_interface_type, lemma_check_type, lemma_reject_void,
};
use crate::diagnostics::{report, Diagnostic, Finding};
use crate::hir::{
    Attribute, DeclarationId, Definition, DefinitionData, EnumVariant, Field, GenericParameter,
    Method, Namespace, Program, Type,
};
use crate::ids::contains_id;
use crate::list::{cons, List};
use crate::lowering::context::next;
use crate::names::Name;
use crate::ownership::derive::conformances;
use crate::ownership::facts::OwnershipFacts;
use crate::reports::spec_add;
use crate::signatures::classes::{
    spec_check_class, spec_check_declared_interfaces, spec_check_function,
    spec_check_implementation, spec_check_public_reference_lifetimes, spec_reject_duplicate_methods,
};
use crate::signatures::definitions::{
    can_be_copied, check_copies_from, check_definitions_from, check_field_types_from,
    check_foreign_functions_from, check_interface_methods_from, check_interface_types_from,
    check_marker_conformances_from, check_method_types_from, check_payload_types_from,
    check_struct_methods_from, check_unsafe_marker_implementations_from, declares_type,
    discriminant_at, first_explicit, first_explicit_from, has_moved_field, has_moved_field_from,
    has_moved_payload_from, has_payload, has_payload_from, has_unsafe_conformance_from,
    has_unsafe_marker_conformance, implemented_interface, is_function, is_unmarked_implementation,
    names_argument_from, reject_void_fields_from, reject_void_payloads_from, spec_check_definition,
    spec_check_definition_types, spec_check_discriminants_from, spec_check_enum_discriminants,
    spec_check_markers, spec_occupant, spec_reject_effect_parameters, unchecked_marker, Occupied,
};
use crate::signatures::types::{
    declaration_span, is_exported, spec_add_for_declaration, spec_check_function_types,
    spec_check_generic_bound_types, spec_check_generic_parameters, spec_check_interface_type,
    spec_check_type, spec_contains_void, spec_reject_void,
};
use crate::syntax::Span;

verus! {

/// Fields are accepted exactly if all have values.
pub proof fn quiet_reject_void_fields(st: Seq<Diagnostic>, fields: Seq<Field>, from: nat)
    ensures
        reject_void_fields_from(st, fields, from).len() == st.len() <==> (forall|index: int|
            from <= index < fields.len() ==> !spec_contains_void(&(#[trigger] fields[index]).ty)),
    decreases fields.len() - from,
{
    let given = st;
    lemma_extends_itself(st);
    if from < fields.len() {
        let item = &fields[from as int];
        lemma_reject_void(st, &item.ty, item.span);
        quiet_reject_void(st, &item.ty, item.span);
        let next_st = spec_reject_void(st, &item.ty, item.span);
        lemma_extends_on(given, st, next_st);
        lemma_unchanged(given, next_st);
        let st = next_st;
        lemma_reject_void_fields(st, fields, from + 1);
        quiet_reject_void_fields(st, fields, from + 1);
        lemma_extends_on(given, st, reject_void_fields_from(st, fields, from + 1));
    }
}

/// Variants are accepted exactly if all their fields have values.
pub proof fn quiet_reject_void_payloads(
    st: Seq<Diagnostic>,
    variants: Seq<EnumVariant>,
    from: nat,
)
    ensures
        reject_void_payloads_from(st, variants, from).len() == st.len() <==> (forall|index: int|
            from <= index < variants.len() ==> have_values((#[trigger] variants[index]).fields@)),
    decreases variants.len() - from,
{
    let given = st;
    lemma_extends_itself(st);
    if from < variants.len() {
        let item = &variants[from as int];
        lemma_reject_void_fields(st, item.fields@, 0);
        quiet_reject_void_fields(st, item.fields@, 0);
        let next_st = reject_void_fields_from(st, item.fields@, 0);
        lemma_extends_on(given, st, next_st);
        lemma_unchanged(given, next_st);
        let st = next_st;
        lemma_reject_void_payloads(st, variants, from + 1);
        quiet_reject_void_payloads(st, variants, from + 1);
        lemma_extends_on(given, st, reject_void_payloads_from(st, variants, from + 1));
    }
}

/// The methods of a struct are accepted by themselves exactly if each is.
pub proof fn quiet_check_struct_methods(
    st: Seq<Diagnostic>,
    methods: Seq<Method>,
    program: &Program,
    declaration: DeclarationId,
    from: nat,
)
    ensures
        check_struct_methods_from(
            st,
            methods,
            program,
            declaration,
            from,
        ).len() == st.len() <==> (forall|index: int|
            from <= index < methods.len()
                ==> is_sound_function((#[trigger] methods[index]).function)
                    && parameters_suit(
                        methods[index].function.generics,
                        methods[index].function.generics,
                        program,
                    )),
    decreases methods.len() - from,
{
    let given = st;
    lemma_extends_itself(st);
    if from < methods.len() {
        let item = &methods[from as int];
        lemma_check_function(st, program, declaration, &item.function);
        quiet_check_function(st, program, declaration, &item.function);
        let next_st = spec_check_function(st, program, declaration, &item.function);
        lemma_extends_on(given, st, next_st);
        lemma_unchanged(given, next_st);
        let st = next_st;
        lemma_check_generic_parameters(st, &item.function.generics, program);
        quiet_check_generic_parameters(st, &item.function.generics, program);
        let next_st = spec_check_generic_parameters(st, &item.function.generics, program);
        lemma_extends_on(given, st, next_st);
        lemma_unchanged(given, next_st);
        let st = next_st;
        lemma_check_struct_methods(st, methods, program, declaration, from + 1);
        quiet_check_struct_methods(st, methods, program, declaration, from + 1);
        lemma_extends_on(
            given,
            st,
            check_struct_methods_from(st, methods, program, declaration, from + 1),
        );
    }
}

/// The methods of an interface are accepted exactly if each is, and public borrowed results are
/// clear.
pub proof fn quiet_check_interface_methods(
    st: Seq<Diagnostic>,
    methods: Seq<Method>,
    program: &Program,
    declaration: DeclarationId,
    from: nat,
)
    ensures
        check_interface_methods_from(
            st,
            methods,
            program,
            declaration,
            from,
        ).len() == st.len() <==> (forall|index: int|
            from <= index < methods.len()
                ==> is_sound_function((#[trigger] methods[index]).function)
                    && (is_exported(program, declaration) ==> result_is_clear(methods[index].function, true))),
    decreases methods.len() - from,
{
    let given = st;
    lemma_extends_itself(st);
    if from < methods.len() {
        let item = &methods[from as int];
        lemma_check_function(st, program, declaration, &item.function);
        quiet_check_function(st, program, declaration, &item.function);
        let next_st = spec_check_function(st, program, declaration, &item.function);
        lemma_extends_on(given, st, next_st);
        lemma_unchanged(given, next_st);
        let st = next_st;
        lemma_check_public_reference_lifetimes(
            st,
            &item.function,
            is_exported(program, declaration),
            true,
            item.span,
        );
        quiet_check_public_reference_lifetimes(
            st,
            &item.function,
            is_exported(program, declaration),
            true,
            item.span,
        );
        let next_st = spec_check_public_reference_lifetimes(
            st,
            &item.function,
            is_exported(program, declaration),
            true,
            item.span,
        );
        lemma_extends_on(given, st, next_st);
        lemma_unchanged(given, next_st);
        let st = next_st;
        lemma_check_interface_methods(st, methods, program, declaration, from + 1);
        quiet_check_interface_methods(st, methods, program, declaration, from + 1);
        lemma_extends_on(
            given,
            st,
            check_interface_methods_from(st, methods, program, declaration, from + 1),
        );
    }
}

/// Foreign functions are accepted exactly if none waits or throws.
pub proof fn quiet_check_foreign_functions(st: Seq<Diagnostic>, functions: Seq<Method>, from: nat)
    ensures
        check_foreign_functions_from(st, functions, from).len() == st.len() <==> (forall|index: int|
            from <= index < functions.len()
                ==> !(#[trigger] functions[index]).function.is_async
                    && functions[index].function.effects is Nil),
    decreases functions.len() - from,
{
    let given = st;
    lemma_extends_itself(st);
    if from < functions.len() {
        let item = &functions[from as int];
        if item.function.is_async || !item.function.effects.is_empty() {
            lemma_add(st, report(Finding::InvalidForeignSignature, item.span));
            let next_st = spec_add(st, report(Finding::InvalidForeignSignature, item.span));
            lemma_extends_on(given, st, next_st);
            lemma_unchanged(given, next_st);
            let st = next_st;
        }
        let next_st = if item.function.is_async || !item.function.effects.is_empty() {
            spec_add(st, report(Finding::InvalidForeignSignature, item.span))
        } else {
            st
        };
        assert(extends(given, next_st));
    lemma_unchanged(given, next_st);
        let st = next_st;
        lemma_check_foreign_functions(st, functions, from + 1);
        quiet_check_foreign_functions(st, functions, from + 1);
        lemma_extends_on(given, st, check_foreign_functions_from(st, functions, from + 1));
    }
}

/// A definition is accepted exactly if it is sound.
pub proof fn quiet_check_definition(
    st: Seq<Diagnostic>,
    program: &Program,
    definition: &Definition,
)
    ensures
        spec_check_definition(st, program, definition).len()
            == st.len() <==> is_sound_definition(st, program, *definition),
{
    reveal(spec_check_definition);
    let given = st;
    lemma_extends_itself(st);
    match &definition.data {
        DefinitionData::Constant { ty, .. } => {
            if matches!(ty, Type::Error) && is_exported(program, definition.declaration) {
                lemma_add_for_declaration(
                    st,
                    program,
                    definition.declaration,
                    Finding::PublicAnnotationRequired,
                );
                quiet_add_for_declaration(
                    st,
                    program,
                    definition.declaration,
                    Finding::PublicAnnotationRequired,
                );
                let next_st = spec_add_for_declaration(
                    st,
                    program,
                    definition.declaration,
                    Finding::PublicAnnotationRequired,
                );
                lemma_extends_on(given, st, next_st);
                lemma_unchanged(given, next_st);
                let st = next_st;
            }
        },
        DefinitionData::Function(function) => {
            lemma_check_function(st, program, definition.declaration, function);
            quiet_check_function(st, program, definition.declaration, function);
            let next_st = spec_check_function(st, program, definition.declaration, function);
            lemma_extends_on(given, st, next_st);
            lemma_unchanged(given, next_st);
            let st = next_st;
            lemma_check_public_reference_lifetimes(
                st,
                function,
                is_exported(program, definition.declaration),
                false,
                declaration_span(program, definition.declaration),
            );
            quiet_check_public_reference_lifetimes(
                st,
                function,
                is_exported(program, definition.declaration),
                false,
                declaration_span(program, definition.declaration),
            );
            let next_st = spec_check_public_reference_lifetimes(
                st,
                function,
                is_exported(program, definition.declaration),
                false,
                declaration_span(program, definition.declaration),
            );
            lemma_extends_on(given, st, next_st);
            lemma_unchanged(given, next_st);
            let st = next_st;
            lemma_check_generic_parameters(st, &function.generics, program);
            quiet_check_generic_parameters(st, &function.generics, program);
            let next_st = spec_check_generic_parameters(st, &function.generics, program);
            lemma_extends_on(given, st, next_st);
            lemma_unchanged(given, next_st);
            let st = next_st;
        },
        DefinitionData::Struct { fields, methods } => {
            lemma_reject_void_fields(st, fields@, 0);
            quiet_reject_void_fields(st, fields@, 0);
            let next_st = reject_void_fields_from(st, fields@, 0);
            lemma_extends_on(given, st, next_st);
            lemma_unchanged(given, next_st);
            let st = next_st;
            lemma_reject_duplicate_methods(st, methods);
            quiet_reject_duplicate_methods(st, methods);
            let next_st = spec_reject_duplicate_methods(st, methods);
            lemma_extends_on(given, st, next_st);
            lemma_unchanged(given, next_st);
            let st = next_st;
            lemma_check_struct_methods(st, methods@, program, definition.declaration, 0);
            quiet_check_struct_methods(st, methods@, program, definition.declaration, 0);
            let next_st = check_struct_methods_from(
                st,
                methods@,
                program,
                definition.declaration,
                0,
            );
            lemma_extends_on(given, st, next_st);
            lemma_unchanged(given, next_st);
            let st = next_st;
            lemma_check_declared_interfaces(st, program, definition.declaration, Some(methods));
            quiet_check_declared_interfaces(st, program, definition.declaration, Some(methods));
            let next_st = spec_check_declared_interfaces(
                st,
                program,
                definition.declaration,
                Some(methods),
            );
            lemma_extends_on(given, st, next_st);
            lemma_unchanged(given, next_st);
            let st = next_st;
        },
        DefinitionData::Enum { variants, .. } => {
            lemma_check_enum_discriminants(st, variants);
            quiet_check_enum_discriminants(st, variants);
            let next_st = spec_check_enum_discriminants(st, variants);
            lemma_extends_on(given, st, next_st);
            lemma_unchanged(given, next_st);
            let st = next_st;
            lemma_reject_void_payloads(st, variants@, 0);
            quiet_reject_void_payloads(st, variants@, 0);
            let next_st = reject_void_payloads_from(st, variants@, 0);
            lemma_extends_on(given, st, next_st);
            lemma_unchanged(given, next_st);
            let st = next_st;
            lemma_check_declared_interfaces(st, program, definition.declaration, None);
            quiet_check_declared_interfaces(st, program, definition.declaration, None);
            let next_st = spec_check_declared_interfaces(st, program, definition.declaration, None);
            lemma_extends_on(given, st, next_st);
            lemma_unchanged(given, next_st);
            let st = next_st;
        },
        DefinitionData::Interface { methods } => {
            lemma_reject_duplicate_methods(st, methods);
            quiet_reject_duplicate_methods(st, methods);
            let next_st = spec_reject_duplicate_methods(st, methods);
            lemma_extends_on(given, st, next_st);
            lemma_unchanged(given, next_st);
            let st = next_st;
            lemma_check_interface_methods(st, methods@, program, definition.declaration, 0);
            quiet_check_interface_methods(st, methods@, program, definition.declaration, 0);
            let next_st = check_interface_methods_from(
                st,
                methods@,
                program,
                definition.declaration,
                0,
            );
            lemma_extends_on(given, st, next_st);
            lemma_unchanged(given, next_st);
            let st = next_st;
        },
        DefinitionData::Class { base, fields, methods, .. } => {
            lemma_reject_void_fields(st, fields@, 0);
            quiet_reject_void_fields(st, fields@, 0);
            let next_st = reject_void_fields_from(st, fields@, 0);
            lemma_extends_on(given, st, next_st);
            lemma_unchanged(given, next_st);
            let st = next_st;
            lemma_reject_duplicate_methods(st, methods);
            quiet_reject_duplicate_methods(st, methods);
            let next_st = spec_reject_duplicate_methods(st, methods);
            lemma_extends_on(given, st, next_st);
            lemma_unchanged(given, next_st);
            let st = next_st;
            lemma_check_class(st, program, definition, *base, methods);
            quiet_check_class(st, program, definition, *base, methods);
            let next_st = spec_check_class(st, program, definition, *base, methods);
            lemma_extends_on(given, st, next_st);
            lemma_unchanged(given, next_st);
            let st = next_st;
        },
        DefinitionData::Implementation { interface, methods, .. } => {
            lemma_reject_duplicate_methods(st, methods);
            quiet_reject_duplicate_methods(st, methods);
            let next_st = spec_reject_duplicate_methods(st, methods);
            lemma_extends_on(given, st, next_st);
            lemma_unchanged(given, next_st);
            let st = next_st;
            if let Some(interface) = implemented_interface(interface) {
                lemma_check_implementation(
                    st,
                    program,
                    definition.declaration,
                    interface,
                    Some(methods),
                );
                quiet_check_implementation(
                    st,
                    program,
                    definition.declaration,
                    interface,
                    Some(methods),
                );
                let next_st = spec_check_implementation(
                    st,
                    program,
                    definition.declaration,
                    interface,
                    Some(methods),
                );
                lemma_extends_on(given, st, next_st);
                lemma_unchanged(given, next_st);
                let st = next_st;
            }
        },
        DefinitionData::Foreign { functions } => {
            lemma_check_foreign_functions(st, functions@, 0);
            quiet_check_foreign_functions(st, functions@, 0);
            let next_st = check_foreign_functions_from(st, functions@, 0);
            lemma_extends_on(given, st, next_st);
            lemma_unchanged(given, next_st);
            let st = next_st;
        },
        DefinitionData::TypeAlias(ty) => {
            lemma_reject_void(st, ty, declaration_span(program, definition.declaration));
            quiet_reject_void(st, ty, declaration_span(program, definition.declaration));
            let next_st = spec_reject_void(
                st,
                ty,
                declaration_span(program, definition.declaration),
            );
            lemma_extends_on(given, st, next_st);
            lemma_unchanged(given, next_st);
            let st = next_st;
        },
    }
}

/// Fields are accepted exactly if their types are well formed.
pub proof fn quiet_check_field_types(
    st: Seq<Diagnostic>,
    fields: Seq<Field>,
    program: &Program,
    from: nat,
)
    ensures
        check_field_types_from(st, fields, program, from).len() == st.len() <==> (forall|index: int|
            from <= index < fields.len()
                ==> is_well_formed_type(program, (#[trigger] fields[index]).ty)),
    decreases fields.len() - from,
{
    let given = st;
    lemma_extends_itself(st);
    if from < fields.len() {
        let item = &fields[from as int];
        lemma_check_type(st, &item.ty, item.span, program);
        quiet_check_type(st, &item.ty, item.span, program);
        let next_st = spec_check_type(st, &item.ty, item.span, program);
        lemma_extends_on(given, st, next_st);
        lemma_unchanged(given, next_st);
        let st = next_st;
        lemma_check_field_types(st, fields, program, from + 1);
        quiet_check_field_types(st, fields, program, from + 1);
        lemma_extends_on(given, st, check_field_types_from(st, fields, program, from + 1));
    }
}

/// Variants are accepted exactly if the types of their fields are well formed.
pub proof fn quiet_check_payload_types(
    st: Seq<Diagnostic>,
    variants: Seq<EnumVariant>,
    program: &Program,
    from: nat,
)
    ensures
        check_payload_types_from(
            st,
            variants,
            program,
            from,
        ).len() == st.len() <==> (forall|index: int|
            from <= index < variants.len()
                ==> are_well_formed_fields((#[trigger] variants[index]).fields@, program)),
    decreases variants.len() - from,
{
    let given = st;
    lemma_extends_itself(st);
    if from < variants.len() {
        let item = &variants[from as int];
        lemma_check_field_types(st, item.fields@, program, 0);
        quiet_check_field_types(st, item.fields@, program, 0);
        let next_st = check_field_types_from(st, item.fields@, program, 0);
        lemma_extends_on(given, st, next_st);
        lemma_unchanged(given, next_st);
        let st = next_st;
        lemma_check_payload_types(st, variants, program, from + 1);
        quiet_check_payload_types(st, variants, program, from + 1);
        lemma_extends_on(given, st, check_payload_types_from(st, variants, program, from + 1));
    }
}

/// Methods are accepted exactly if the types of their signatures are well formed.
pub proof fn quiet_check_method_types(
    st: Seq<Diagnostic>,
    methods: Seq<Method>,
    program: &Program,
    from: nat,
)
    ensures
        check_method_types_from(
            st,
            methods,
            program,
            from,
        ).len() == st.len() <==> (forall|index: int|
            from <= index < methods.len()
                ==> is_well_formed_signature((#[trigger] methods[index]).function, program)),
    decreases methods.len() - from,
{
    let given = st;
    lemma_extends_itself(st);
    if from < methods.len() {
        let item = &methods[from as int];
        lemma_check_function_types(st, &item.function, item.span, program);
        quiet_check_function_types(st, &item.function, item.span, program);
        let next_st = spec_check_function_types(st, &item.function, item.span, program);
        lemma_extends_on(given, st, next_st);
        lemma_unchanged(given, next_st);
        let st = next_st;
        lemma_check_method_types(st, methods, program, from + 1);
        quiet_check_method_types(st, methods, program, from + 1);
        lemma_extends_on(given, st, check_method_types_from(st, methods, program, from + 1));
    }
}

/// What a class lists is accepted exactly if all are interfaces and well formed.
pub proof fn quiet_check_interface_types(
    st: Seq<Diagnostic>,
    interfaces: Seq<Type>,
    span: Span,
    program: &Program,
    from: nat,
)
    ensures
        check_interface_types_from(
            st,
            interfaces,
            span,
            program,
            from,
        ).len() == st.len() <==> (forall|index: int|
            from <= index < interfaces.len()
                ==> is_well_formed_interface((#[trigger] interfaces[index]), program)),
    decreases interfaces.len() - from,
{
    let given = st;
    lemma_extends_itself(st);
    if from < interfaces.len() {
        let item = &interfaces[from as int];
        lemma_check_interface_type(st, item, span, program);
        quiet_check_interface_type(st, item, span, program);
        let next_st = spec_check_interface_type(st, item, span, program);
        lemma_extends_on(given, st, next_st);
        lemma_unchanged(given, next_st);
        let st = next_st;
        lemma_check_interface_types(st, interfaces, span, program, from + 1);
        quiet_check_interface_types(st, interfaces, span, program, from + 1);
        lemma_extends_on(
            given,
            st,
            check_interface_types_from(st, interfaces, span, program, from + 1),
        );
    }
}

/// The parameters of a declared type are accepted exactly if none is for errors.
pub proof fn quiet_reject_effect_parameters(
    st: Seq<Diagnostic>,
    parameters: &List<GenericParameter>,
)
    ensures
        spec_reject_effect_parameters(st, parameters).len()
            == st.len() <==> (forall|index: int| 0 <= index < parameters.seq().len() ==> (#[trigger] parameters.seq()[index]).namespace != Namespace::Value),
    decreases parameters,
{
    reveal_with_fuel(spec_reject_effect_parameters, 2);
    let given = st;
    lemma_extends_itself(st);
    if let List::Cons(head, tail) = parameters {
        lemma_first_and_rest(**head, **tail);
        assert forall|index: int| 0 <= index < tail.seq().len() implies #[trigger] tail.seq()[index]
            == parameters.seq()[index + 1] by {}
        assert(parameters.seq()[0] == **head);
    }
    match parameters {
        List::Nil => {},
        List::Cons(head, tail) => {
            if head.namespace == Namespace::Value {
                lemma_add(st, report(Finding::NominalEffectParameter, head.span));
                let next_st = spec_add(st, report(Finding::NominalEffectParameter, head.span));
                lemma_extends_on(given, st, next_st);
                lemma_unchanged(given, next_st);
                let st = next_st;
            }
            let next_st = if head.namespace == Namespace::Value {
                spec_add(st, report(Finding::NominalEffectParameter, head.span))
            } else {
                st
            };
            assert(extends(given, next_st));
    lemma_unchanged(given, next_st);
            let st = next_st;
            lemma_reject_effect_parameters(st, tail);
            quiet_reject_effect_parameters(st, tail);
            let next_st = spec_reject_effect_parameters(st, tail);
            lemma_extends_on(given, st, next_st);
            lemma_unchanged(given, next_st);
            let st = next_st;
        },
    }
}

/// The types in a definition are accepted exactly if they are well formed.
pub proof fn quiet_check_definition_types(
    st: Seq<Diagnostic>,
    program: &Program,
    definition: &Definition,
)
    ensures
        spec_check_definition_types(st, program, definition).len()
            == st.len() <==> has_sound_types(program, *definition),
{
    reveal(spec_check_definition_types);
    let given = st;
    lemma_extends_itself(st);
    let span = declaration_span(program, definition.declaration);
    if !is_function(&definition.data) {
        lemma_check_generic_bound_types(st, &definition.generics, program);
        quiet_check_generic_bound_types(st, &definition.generics, program);
        let next_st = spec_check_generic_bound_types(st, &definition.generics, program);
        lemma_extends_on(given, st, next_st);
        lemma_unchanged(given, next_st);
        let st = next_st;
    }
    let next_st = if !is_function(&definition.data) {
        spec_check_generic_bound_types(st, &definition.generics, program)
    } else {
        st
    };
    assert(extends(given, next_st));
    lemma_unchanged(given, next_st);
    let st = next_st;
    if declares_type(&definition.data) {
        lemma_reject_effect_parameters(st, &definition.generics);
        quiet_reject_effect_parameters(st, &definition.generics);
        let next_st = spec_reject_effect_parameters(st, &definition.generics);
        lemma_extends_on(given, st, next_st);
        lemma_unchanged(given, next_st);
        let st = next_st;
    }
    let next_st = if declares_type(&definition.data) {
        spec_reject_effect_parameters(st, &definition.generics)
    } else {
        st
    };
    assert(extends(given, next_st));
    lemma_unchanged(given, next_st);
    let st = next_st;
    match &definition.data {
        DefinitionData::Constant { ty, .. } => {
            lemma_check_type(st, ty, span, program);
            quiet_check_type(st, ty, span, program);
            let next_st = spec_check_type(st, ty, span, program);
            lemma_extends_on(given, st, next_st);
            lemma_unchanged(given, next_st);
            let st = next_st;
        },
        DefinitionData::TypeAlias(ty) => {
            lemma_check_type(st, ty, span, program);
            quiet_check_type(st, ty, span, program);
            let next_st = spec_check_type(st, ty, span, program);
            lemma_extends_on(given, st, next_st);
            lemma_unchanged(given, next_st);
            let st = next_st;
        },
        DefinitionData::Function(function) => {
            lemma_check_function_types(st, function, span, program);
            quiet_check_function_types(st, function, span, program);
            let next_st = spec_check_function_types(st, function, span, program);
            lemma_extends_on(given, st, next_st);
            lemma_unchanged(given, next_st);
            let st = next_st;
        },
        DefinitionData::Struct { fields, methods } => {
            lemma_check_field_types(st, fields@, program, 0);
            quiet_check_field_types(st, fields@, program, 0);
            let next_st = check_field_types_from(st, fields@, program, 0);
            lemma_extends_on(given, st, next_st);
            lemma_unchanged(given, next_st);
            let st = next_st;
            lemma_check_method_types(st, methods@, program, 0);
            quiet_check_method_types(st, methods@, program, 0);
            let next_st = check_method_types_from(st, methods@, program, 0);
            lemma_extends_on(given, st, next_st);
            lemma_unchanged(given, next_st);
            let st = next_st;
        },
        DefinitionData::Enum { variants, .. } => {
            lemma_check_payload_types(st, variants@, program, 0);
            quiet_check_payload_types(st, variants@, program, 0);
            let next_st = check_payload_types_from(st, variants@, program, 0);
            lemma_extends_on(given, st, next_st);
            lemma_unchanged(given, next_st);
            let st = next_st;
        },
        DefinitionData::Interface { methods } => {
            lemma_check_method_types(st, methods@, program, 0);
            quiet_check_method_types(st, methods@, program, 0);
            let next_st = check_method_types_from(st, methods@, program, 0);
            lemma_extends_on(given, st, next_st);
            lemma_unchanged(given, next_st);
            let st = next_st;
        },
        DefinitionData::Class { interfaces, fields, constructor, methods, .. } => {
            lemma_check_interface_types(st, interfaces@, span, program, 0);
            quiet_check_interface_types(st, interfaces@, span, program, 0);
            let next_st = check_interface_types_from(st, interfaces@, span, program, 0);
            lemma_extends_on(given, st, next_st);
            lemma_unchanged(given, next_st);
            let st = next_st;
            lemma_check_field_types(st, fields@, program, 0);
            quiet_check_field_types(st, fields@, program, 0);
            let next_st = check_field_types_from(st, fields@, program, 0);
            lemma_extends_on(given, st, next_st);
            lemma_unchanged(given, next_st);
            let st = next_st;
            if let Some(constructor) = constructor {
                lemma_check_function_types(st, &constructor.function, constructor.span, program);
                quiet_check_function_types(st, &constructor.function, constructor.span, program);
                let next_st = spec_check_function_types(
                    st,
                    &constructor.function,
                    constructor.span,
                    program,
                );
                lemma_extends_on(given, st, next_st);
                lemma_unchanged(given, next_st);
                let st = next_st;
            }
            let next_st = if let Some(constructor) = constructor {
                spec_check_function_types(st, &constructor.function, constructor.span, program)
            } else {
                st
            };
            assert(extends(given, next_st));
    lemma_unchanged(given, next_st);
            let st = next_st;
            lemma_check_method_types(st, methods@, program, 0);
            quiet_check_method_types(st, methods@, program, 0);
            let next_st = check_method_types_from(st, methods@, program, 0);
            lemma_extends_on(given, st, next_st);
            lemma_unchanged(given, next_st);
            let st = next_st;
        },
        DefinitionData::Implementation { interface, target, methods, .. } => {
            if let Some(interface) = interface {
                lemma_check_interface_type(st, interface, span, program);
                quiet_check_interface_type(st, interface, span, program);
                let next_st = spec_check_interface_type(st, interface, span, program);
                lemma_extends_on(given, st, next_st);
                lemma_unchanged(given, next_st);
                let st = next_st;
            }
            let next_st = if let Some(interface) = interface {
                spec_check_interface_type(st, interface, span, program)
            } else {
                st
            };
            assert(extends(given, next_st));
    lemma_unchanged(given, next_st);
            let st = next_st;
            lemma_check_type(st, target, span, program);
            quiet_check_type(st, target, span, program);
            let next_st = spec_check_type(st, target, span, program);
            lemma_extends_on(given, st, next_st);
            lemma_unchanged(given, next_st);
            let st = next_st;
            lemma_check_method_types(st, methods@, program, 0);
            quiet_check_method_types(st, methods@, program, 0);
            let next_st = check_method_types_from(st, methods@, program, 0);
            lemma_extends_on(given, st, next_st);
            lemma_unchanged(given, next_st);
            let st = next_st;
        },
        DefinitionData::Foreign { functions } => {
            lemma_check_method_types(st, functions@, program, 0);
            quiet_check_method_types(st, functions@, program, 0);
            let next_st = check_method_types_from(st, functions@, program, 0);
            lemma_extends_on(given, st, next_st);
            lemma_unchanged(given, next_st);
            let st = next_st;
        },
    }
}

/// Definitions are accepted exactly if they are sound, their parameters suit, and their types are
/// well formed.
pub proof fn quiet_check_definitions(
    st: Seq<Diagnostic>,
    definitions: Seq<Definition>,
    program: &Program,
    from: nat,
)
    ensures
        check_definitions_from(
            st,
            definitions,
            program,
            from,
        ).len() == st.len() <==> (forall|index: int|
            from <= index < definitions.len()
                ==> is_sound_definition(st, program, (#[trigger] definitions[index]))
                    && parameters_suit(
                        definitions[index].generics,
                        definitions[index].generics,
                        program,
                    ) && has_sound_types(program, definitions[index])),
    decreases definitions.len() - from,
{
    let given = st;
    lemma_extends_itself(st);
    if from < definitions.len() {
        let item = &definitions[from as int];
        lemma_check_definition(st, program, item);
        quiet_check_definition(st, program, item);
        let next_st = spec_check_definition(st, program, item);
        lemma_extends_on(given, st, next_st);
        lemma_unchanged(given, next_st);
        let st = next_st;
        lemma_check_generic_parameters(st, &item.generics, program);
        quiet_check_generic_parameters(st, &item.generics, program);
        let next_st = spec_check_generic_parameters(st, &item.generics, program);
        lemma_extends_on(given, st, next_st);
        lemma_unchanged(given, next_st);
        let st = next_st;
        lemma_check_definition_types(st, program, item);
        quiet_check_definition_types(st, program, item);
        let next_st = spec_check_definition_types(st, program, item);
        lemma_extends_on(given, st, next_st);
        lemma_unchanged(given, next_st);
        let st = next_st;
        lemma_check_definitions(st, definitions, program, from + 1);
        quiet_check_definitions(st, definitions, program, from + 1);
        lemma_extends_on(given, st, check_definitions_from(st, definitions, program, from + 1));
    }
}

/// Conformances to markers that are not checked are accepted exactly if they say so.
pub proof fn quiet_check_marker_conformances(
    st: Seq<Diagnostic>,
    interfaces: Seq<DeclarationId>,
    program: &Program,
    target: DeclarationId,
    from: nat,
)
    ensures
        check_marker_conformances_from(
            st,
            interfaces,
            program,
            target,
            from,
        ).len() == st.len() <==> (forall|index: int|
            from <= index < interfaces.len()
                ==> says_if_unchecked(program, target, (#[trigger] interfaces[index]))),
    decreases interfaces.len() - from,
{
    let given = st;
    lemma_extends_itself(st);
    if from < interfaces.len() {
        let item = &interfaces[from as int];
        lemma_unchecked(program, target, Name::Send);
        lemma_unchecked(program, target, Name::Sync);
        if let Some(marker) = unchecked_marker(program, *item) {
            if !has_unsafe_marker_conformance(program, target, marker) {
                lemma_add_for_declaration(st, program, target, Finding::UnsafeMarkerConformance);
                quiet_add_for_declaration(st, program, target, Finding::UnsafeMarkerConformance);
                let next_st = spec_add_for_declaration(
                    st,
                    program,
                    target,
                    Finding::UnsafeMarkerConformance,
                );
                lemma_extends_on(given, st, next_st);
                lemma_unchanged(given, next_st);
                let st = next_st;
            }
        }
        let next_st = if let Some(marker) = unchecked_marker(program, *item) {
            if !has_unsafe_marker_conformance(program, target, marker) {
                spec_add_for_declaration(st, program, target, Finding::UnsafeMarkerConformance)
            } else {
                st
            }
        } else {
            st
        };
        assert(extends(given, next_st));
    lemma_unchanged(given, next_st);
        let st = next_st;
        lemma_check_marker_conformances(st, interfaces, program, target, from + 1);
        quiet_check_marker_conformances(st, interfaces, program, target, from + 1);
        lemma_extends_on(
            given,
            st,
            check_marker_conformances_from(st, interfaces, program, target, from + 1),
        );
    }
}

/// Unchecked markers are accepted exactly if each is said to be.
pub proof fn quiet_check_unsafe_marker_implementations(
    st: Seq<Diagnostic>,
    definitions: Seq<Definition>,
    program: &Program,
    from: nat,
)
    ensures
        check_unsafe_marker_implementations_from(
            st,
            definitions,
            program,
            from,
        ).len() == st.len() <==> (forall|index: int|
            from <= index < definitions.len()
                ==> says_what_is_unchecked(program, (#[trigger] definitions[index]))),
    decreases definitions.len() - from,
{
    let given = st;
    lemma_extends_itself(st);
    if from < definitions.len() {
        let item = &definitions[from as int];
        lemma_check_markers(st, program, item);
        quiet_check_markers(st, program, item);
        let next_st = spec_check_markers(st, program, item);
        lemma_extends_on(given, st, next_st);
        lemma_unchanged(given, next_st);
        let st = next_st;
        lemma_check_unsafe_marker_implementations(st, definitions, program, from + 1);
        quiet_check_unsafe_marker_implementations(st, definitions, program, from + 1);
        lemma_extends_on(
            given,
            st,
            check_unsafe_marker_implementations_from(st, definitions, program, from + 1),
        );
    }
}

/// Copied types are accepted exactly if each is a struct or an enum without a destructor all of
/// whose fields are copied.
pub proof fn quiet_check_copies(
    st: Seq<Diagnostic>,
    targets: Seq<DeclarationId>,
    program: &Program,
    facts: &OwnershipFacts,
    from: nat,
)
    ensures
        check_copies_from(
            st,
            targets,
            program,
            facts,
            from,
        ).len() == st.len() <==> (forall|index: int|
            from <= index < targets.len()
                ==> is_plainly_copied((#[trigger] targets[index]), program, facts)),
    decreases targets.len() - from,
{
    let given = st;
    lemma_extends_itself(st);
    if from < targets.len() {
        let item = &targets[from as int];
        lemma_plainly_copied(*item, program, facts);
        if let Some(definition) = program.definition(*item) {
            if contains_id(&facts.drop, *item) || !can_be_copied(&definition.data, facts) {
                lemma_add_for_declaration(
                    st,
                    program,
                    definition.declaration,
                    Finding::InvalidCopyImplementation,
                );
                quiet_add_for_declaration(
                    st,
                    program,
                    definition.declaration,
                    Finding::InvalidCopyImplementation,
                );
                let next_st = spec_add_for_declaration(
                    st,
                    program,
                    definition.declaration,
                    Finding::InvalidCopyImplementation,
                );
                lemma_extends_on(given, st, next_st);
                lemma_unchanged(given, next_st);
                let st = next_st;
            }
        }
        let next_st = if let Some(definition) = program.definition(*item) {
            if contains_id(&facts.drop, *item) || !can_be_copied(&definition.data, facts) {
                spec_add_for_declaration(
                    st,
                    program,
                    definition.declaration,
                    Finding::InvalidCopyImplementation,
                )
            } else {
                st
            }
        } else {
            st
        };
        assert(extends(given, next_st));
    lemma_unchanged(given, next_st);
        let st = next_st;
        lemma_check_copies(st, targets, program, facts, from + 1);
        quiet_check_copies(st, targets, program, facts, from + 1);
        lemma_extends_on(given, st, check_copies_from(st, targets, program, facts, from + 1));
    }
}


/// Whether a definition is sound, by itself and against the definitions that it names.
pub open spec fn is_sound_definition(
    st: Seq<Diagnostic>,
    program: &Program,
    definition: Definition,
) -> bool {
    let public = is_exported(program, definition.declaration);
    match definition.data {
        DefinitionData::Constant { ty, .. } => public ==> ty != Type::Error,
        DefinitionData::Function(function) => {
            &&& is_sound_function(function)
            &&& public ==> result_is_clear(function, false)
            &&& parameters_suit(function.generics, function.generics, program)
        },
        DefinitionData::Struct { fields, methods } => {
            &&& have_values(fields@)
            &&& are_named_apart(methods@)
            &&& forall|index: int|
                0 <= index < methods@.len() ==> is_sound_function(
                    (#[trigger] methods@[index]).function,
                ) && parameters_suit(
                    methods@[index].function.generics,
                    methods@[index].function.generics,
                    program,
                )
            &&& conforms(Some(&methods), program, definition.declaration)
        },
        DefinitionData::Enum { variants, .. } => {
            &&& are_numbered_apart(variants@)
            &&& forall|index: int|
                0 <= index < variants@.len() ==> have_values((#[trigger] variants@[index]).fields@)
            &&& conforms(None, program, definition.declaration)
        },
        DefinitionData::Interface { methods } => {
            &&& are_named_apart(methods@)
            &&& forall|index: int|
                0 <= index < methods@.len() ==> is_sound_function(
                    (#[trigger] methods@[index]).function,
                ) && (public ==> result_is_clear(methods@[index].function, true))
        },
        DefinitionData::Class { base, fields, methods, .. } => {
            &&& have_values(fields@)
            &&& are_named_apart(methods@)
            &&& is_sound_class(st, program, definition, base, &methods)
        },
        DefinitionData::Implementation { interface, methods, .. } => {
            &&& are_named_apart(methods@)
            &&& match interface {
                Some(Type::Nominal(id, _)) | Some(Type::DynamicInterface(id, _)) => implements(
                    Some(&methods),
                    id,
                    program,
                ),
                _ => true,
            }
        },
        DefinitionData::Foreign { functions } => forall|index: int|
            0 <= index < functions@.len() ==> !(
            #[trigger] functions@[index]).function.is_async
                && functions@[index].function.effects is Nil,
        DefinitionData::TypeAlias(ty) => !spec_contains_void(&ty),
    }
}

/// Whether the signatures of methods are well formed.
pub open spec fn are_well_formed_methods(methods: Seq<Method>, program: &Program) -> bool {
    forall|index: int|
        0 <= index < methods.len() ==> is_well_formed_signature(
            (#[trigger] methods[index]).function,
            program,
        )
}

/// Whether the types that a definition names are well formed.
pub open spec fn has_sound_types(program: &Program, definition: Definition) -> bool {
    &&& definition.data is Function || parameters_have_arguments(definition.generics, program)
    &&& definition.data is Struct || definition.data is Enum || definition.data is Interface
        || definition.data is Class || definition.data is TypeAlias ==> forall|index: int|
        0 <= index < definition.generics.seq().len() ==> (
        #[trigger] definition.generics.seq()[index]).namespace != Namespace::Value
    &&& match definition.data {
        DefinitionData::Constant { ty, .. } => is_well_formed_type(program, ty),
        DefinitionData::TypeAlias(ty) => is_well_formed_type(program, ty),
        DefinitionData::Function(function) => is_well_formed_signature(function, program),
        DefinitionData::Struct { fields, methods } => are_well_formed_fields(fields@, program)
            && are_well_formed_methods(methods@, program),
        DefinitionData::Enum { variants, .. } => forall|index: int|
            0 <= index < variants@.len() ==> are_well_formed_fields(
                (#[trigger] variants@[index]).fields@,
                program,
            ),
        DefinitionData::Interface { methods } => are_well_formed_methods(methods@, program),
        DefinitionData::Class { interfaces, fields, constructor, methods, .. } => {
            &&& forall|index: int|
                0 <= index < interfaces@.len() ==> is_well_formed_interface(
                    #[trigger] interfaces@[index],
                    program,
                )
            &&& are_well_formed_fields(fields@, program)
            &&& match constructor {
                Some(constructor) => is_well_formed_signature(constructor.function, program),
                None => true,
            }
            &&& are_well_formed_methods(methods@, program)
        },
        DefinitionData::Implementation { interface, target, methods, .. } => {
            &&& match interface {
                Some(interface) => is_well_formed_interface(interface, program),
                None => true,
            }
            &&& is_well_formed_type(program, target)
            &&& are_well_formed_methods(methods@, program)
        },
        DefinitionData::Foreign { functions } => are_well_formed_methods(functions@, program),
    }
}

/// Whether a definition that gives a marker which nothing checks says so, as an implementation that
/// is unsafe or an attribute that names `unsafe`.
pub open spec fn says_what_is_unchecked(program: &Program, definition: Definition) -> bool {
    &&& match definition.data {
        DefinitionData::Implementation {
            interface: Some(Type::Nominal(interface, _)),
            is_unsafe,
            ..
        } => is_unsafe || program.declared_name(interface) != Some(Name::Send)
            && program.declared_name(interface) != Some(Name::Sync),
        _ => true,
    }
    &&& forall|index: int|
        0 <= index < conformances(program, definition.declaration).len() ==> says_if_unchecked(
            program,
            definition.declaration,
            #[trigger] conformances(program, definition.declaration)[index],
        )
}

/// Whether a declaration that conforms to a marker which nothing checks says so.
pub open spec fn says_if_unchecked(
    program: &Program,
    target: DeclarationId,
    interface: DeclarationId,
) -> bool {
    &&& program.declared_name(interface) == Some(Name::Send) ==> says_unchecked(
        program,
        target,
        Name::Send,
    )
    &&& program.declared_name(interface) == Some(Name::Sync) ==> says_unchecked(
        program,
        target,
        Name::Sync,
    )
}

/// The markers of a definition are accepted exactly if it says which of them nothing checks.
pub proof fn quiet_check_markers(
    st: Seq<Diagnostic>,
    program: &Program,
    definition: &Definition,
)
    ensures
        spec_check_markers(st, program, definition).len() == st.len() <==> says_what_is_unchecked(
            program,
            *definition,
        ),
{
    reveal(spec_check_markers);
    let reported = if is_unmarked_implementation(program, &definition.data) {
        st.push(
            report(
                Finding::UnsafeMarkerImplementation,
                declaration_span(program, definition.declaration),
            ),
        )
    } else {
        st
    };
    lemma_check_marker_conformances(
        reported,
        conformances(program, definition.declaration),
        program,
        definition.declaration,
        0,
    );
    quiet_check_marker_conformances(
        reported,
        conformances(program, definition.declaration),
        program,
        definition.declaration,
        0,
    );
}

/// Whether the types of fields are well formed.
pub open spec fn are_well_formed_fields(fields: Seq<Field>, program: &Program) -> bool {
    forall|index: int|
        0 <= index < fields.len() ==> is_well_formed_type(program, (#[trigger] fields[index]).ty)
}

/// Whether a declaration says that it conforms to a marker, and that this is not checked: one of
/// its conformance attributes names both the marker and `unsafe`.
pub open spec fn says_unchecked(program: &Program, target: DeclarationId, marker: Name) -> bool {
    match program.declaration(target) {
        Some(declaration) => exists|index: int|
            0 <= index < declaration.attributes@.len() && (
            #[trigger] declaration.attributes@[index]).name == Name::Conform
                && declaration.attributes@[index].arguments@.contains(marker)
                && declaration.attributes@[index].arguments@.contains(Name::Unsafe),
        None => false,
    }
}

proof fn lemma_names_argument(arguments: Seq<Name>, name: Name, from: nat)
    ensures
        names_argument_from(arguments, name, from) <==> exists|index: int|
            from <= index < arguments.len() && #[trigger] arguments[index] == name,
    decreases arguments.len() - from,
{
    if from < arguments.len() {
        lemma_names_argument(arguments, name, from + 1);
        if arguments[from as int] == name {
            assert(arguments[from as int] == name);
        }
    }
}

proof fn lemma_unsafe_conformance(attributes: Seq<Attribute>, marker: Name, from: nat)
    ensures
        has_unsafe_conformance_from(attributes, marker, from) <==> exists|index: int|
            from <= index < attributes.len() && (#[trigger] attributes[index]).name == Name::Conform
                && attributes[index].arguments@.contains(marker)
                && attributes[index].arguments@.contains(Name::Unsafe),
    decreases attributes.len() - from,
{
    if from < attributes.len() {
        lemma_unsafe_conformance(attributes, marker, from + 1);
        let arguments = attributes[from as int].arguments@;
        lemma_names_argument(arguments, marker, 0);
        lemma_names_argument(arguments, Name::Unsafe, 0);
        assert(arguments.contains(marker) <==> exists|index: int|
            0 <= index < arguments.len() && #[trigger] arguments[index] == marker);
        assert(arguments.contains(Name::Unsafe) <==> exists|index: int|
            0 <= index < arguments.len() && #[trigger] arguments[index] == Name::Unsafe);
    }
}

proof fn lemma_unchecked(program: &Program, target: DeclarationId, marker: Name)
    ensures
        has_unsafe_marker_conformance(program, target, marker) == says_unchecked(
            program,
            target,
            marker,
        ),
{
    if let Some(declaration) = program.declaration(target) {
        lemma_unsafe_conformance(declaration.attributes@, marker, 0);
    }
}

/// Whether a copied type is a struct or an enum without a destructor all of whose fields are
/// copied. What is not defined is not looked at.
pub open spec fn is_plainly_copied(
    target: DeclarationId,
    program: &Program,
    facts: &OwnershipFacts,
) -> bool {
    match program.definition(target) {
        Some(definition) => !facts.drop@.contains(target) && match definition.data {
            DefinitionData::Struct { fields, .. } => are_copied(fields@, facts),
            DefinitionData::Enum { variants, .. } => forall|index: int|
                0 <= index < variants@.len() ==> are_copied(
                    (#[trigger] variants@[index]).fields@,
                    facts,
                ),
            _ => false,
        },
        None => true,
    }
}

/// Whether every field is of a type that is copied.
pub open spec fn are_copied(fields: Seq<Field>, facts: &OwnershipFacts) -> bool {
    forall|index: int| 0 <= index < fields.len() ==> facts.is_copy(&(#[trigger] fields[index]).ty)
}

proof fn lemma_moved_field(fields: Seq<Field>, facts: &OwnershipFacts, from: nat)
    ensures
        has_moved_field_from(fields, facts, from) <==> exists|index: int|
            from <= index < fields.len() && !facts.is_copy(&(#[trigger] fields[index]).ty),
    decreases fields.len() - from,
{
    if from < fields.len() {
        lemma_moved_field(fields, facts, from + 1);
        if !facts.is_copy(&fields[from as int].ty) {
            assert(!facts.is_copy(&fields[from as int].ty));
        }
    }
}

proof fn lemma_moved_payload(variants: Seq<EnumVariant>, facts: &OwnershipFacts, from: nat)
    ensures
        has_moved_payload_from(variants, facts, from) <==> exists|index: int|
            from <= index < variants.len() && !are_copied(
                (#[trigger] variants[index]).fields@,
                facts,
            ),
    decreases variants.len() - from,
{
    if from < variants.len() {
        lemma_moved_payload(variants, facts, from + 1);
        lemma_moved_field(variants[from as int].fields@, facts, 0);
        assert(has_moved_field(&variants[from as int].fields, facts) == !are_copied(
            variants[from as int].fields@,
            facts,
        ));
        if !are_copied(variants[from as int].fields@, facts) {
            assert(!are_copied(variants[from as int].fields@, facts));
        }
    }
}

proof fn lemma_plainly_copied(
    target: DeclarationId,
    program: &Program,
    facts: &OwnershipFacts,
)
    ensures
        match program.definition(target) {
            Some(definition) => (!contains_id(&facts.drop, target) && can_be_copied(
                &definition.data,
                facts,
            )) == is_plainly_copied(target, program, facts),
            None => true,
        },
{
    if let Some(definition) = program.definition(target) {
        match &definition.data {
            DefinitionData::Struct { fields, .. } => {
                lemma_moved_field(fields@, facts, 0);
            },
            DefinitionData::Enum { variants, .. } => {
                lemma_moved_payload(variants@, facts, 0);
            },
            _ => {},
        }
    }
}

/// Whether the numbers of the variants from a position on are taken neither before it nor twice.
pub open spec fn are_new_numbers(
    variants: Seq<EnumVariant>,
    from: int,
    occupied: List<Occupied>,
) -> bool {
    &&& forall|index: int, place: int|
        from <= index < variants.len() && 0 <= place < occupied.seq().len() ==> (
        #[trigger] occupied.seq()[place]).discriminant != #[trigger] number_of(variants, index)
    &&& forall|left: int, right: int|
        from <= left < right < variants.len() ==> #[trigger] number_of(variants, left)
            != #[trigger] number_of(variants, right)
}

proof fn lemma_occupant(occupied: List<Occupied>, discriminant: i128)
    ensures
        spec_occupant(&occupied, discriminant) is None <==> forall|place: int|
            0 <= place < occupied.seq().len() ==> (
            #[trigger] occupied.seq()[place]).discriminant != discriminant,
    decreases occupied,
{
    reveal_with_fuel(spec_occupant, 2);
    match occupied {
        List::Nil => {},
        List::Cons(head, tail) => {
            lemma_occupant(*tail, discriminant);
            lemma_first_and_rest(*head, *tail);
            let all = occupied.seq();
            let rest = tail.seq();
            assert(all =~= seq![*head] + rest);
            assert(all[0] == *head);
            assert forall|place: int| 0 <= place < rest.len() implies #[trigger] rest[place]
                == all[place + 1] by {}
            assert forall|place: int| 0 < place < all.len() implies #[trigger] all[place]
                == rest[place - 1] by {}
            if forall|place: int|
                0 <= place < all.len() ==> (#[trigger] all[place]).discriminant != discriminant {
                assert forall|place: int| 0 <= place < rest.len() implies (
                #[trigger] rest[place]).discriminant != discriminant by {
                    assert(all[place + 1].discriminant != discriminant);
                }
                assert(all[0].discriminant != discriminant);
            }
        },
    }
}

/// Variants are accepted exactly if their numbers are new.
pub proof fn quiet_check_discriminants_from(
    st: Seq<Diagnostic>,
    variants: &Vec<EnumVariant>,
    index: usize,
    occupied: List<Occupied>,
)
    requires
        variants@.len() <= usize::MAX,
    ensures
        spec_check_discriminants_from(st, variants, index, occupied).len() == st.len()
            <==> are_new_numbers(variants@, index as int, occupied),
    decreases variants@.len() - index,
{
    reveal_with_fuel(spec_check_discriminants_from, 2);
    if index < variants@.len() {
        let variant = &variants@[index as int];
        let discriminant = discriminant_at(variant, index);
        assert(discriminant as int == number_of(variants@, index as int));
        let longer = cons(Occupied { discriminant, name: variant.name }, occupied);
        lemma_occupant(occupied, discriminant);
        let reported = match spec_occupant(&occupied, discriminant) {
            Some(previous) => spec_add(
                st,
                report(
                    Finding::DuplicateEnumDiscriminant {
                        previous,
                        name: variant.name,
                        discriminant,
                    },
                    variant.span,
                ),
            ),
            None => st,
        };
        lemma_check_discriminants_from(reported, variants, next(index), longer);
        quiet_check_discriminants_from(reported, variants, next(index), longer);
        let all = longer.seq();
        assert(all =~= seq![Occupied { discriminant, name: variant.name }] + occupied.seq());
        assert(all[0].discriminant == discriminant);
        assert forall|place: int| 0 <= place < occupied.seq().len() implies
            #[trigger] occupied.seq()[place] == all[place + 1] by {}
        assert forall|place: int| 0 < place < all.len() implies #[trigger] all[place]
            == occupied.seq()[place - 1] by {}
        if are_new_numbers(variants@, index as int, occupied) {
            assert forall|place: int| 0 <= place < occupied.seq().len() implies (
            #[trigger] occupied.seq()[place]).discriminant != discriminant by {
                assert(occupied.seq()[place].discriminant != number_of(variants@, index as int));
            }
            assert forall|later: int, place: int|
                index + 1 <= later < variants@.len() && 0 <= place < all.len() implies (
            #[trigger] all[place]).discriminant != #[trigger] number_of(variants@, later) by {
                if place == 0 {
                    assert(number_of(variants@, index as int) != number_of(variants@, later));
                } else {
                    assert(occupied.seq()[place - 1].discriminant != number_of(variants@, later));
                }
            }
        }
        if are_new_numbers(variants@, index + 1, longer) && spec_occupant(
            &occupied,
            discriminant,
        ) is None {
            assert forall|later: int, place: int|
                index <= later < variants@.len() && 0 <= place < occupied.seq().len() implies (
            #[trigger] occupied.seq()[place]).discriminant != #[trigger] number_of(
                variants@,
                later,
            ) by {
                if later > index {
                    assert(all[place + 1].discriminant != number_of(variants@, later));
                }
            }
            assert forall|left: int, right: int|
                index <= left < right < variants@.len() implies #[trigger] number_of(
                variants@,
                left,
            ) != #[trigger] number_of(variants@, right) by {
                if left == index {
                    assert(all[0].discriminant != number_of(variants@, right));
                }
            }
        }
    }
}

proof fn lemma_has_payload(variants: Seq<EnumVariant>, from: nat)
    ensures
        has_payload_from(variants, from) <==> exists|index: int|
            from <= index < variants.len() && (#[trigger] variants[index]).fields@.len() > 0,
        first_explicit_from(variants, from) is None <==> forall|index: int|
            from <= index < variants.len() ==> (#[trigger] variants[index]).discriminant is None,
    decreases variants.len() - from,
{
    if from < variants.len() {
        lemma_has_payload(variants, from + 1);
        if variants[from as int].fields@.len() > 0 {
            assert(variants[from as int].fields@.len() > 0);
        }
    }
}

/// Variants are accepted exactly if their numbers are apart, and none is written where one has
/// fields.
pub proof fn quiet_check_enum_discriminants(st: Seq<Diagnostic>, variants: &Vec<EnumVariant>)
    ensures
        spec_check_enum_discriminants(st, variants).len() == st.len() <==> are_numbered_apart(
            variants@,
        ),
{
    reveal(spec_check_enum_discriminants);
    assert(variants.len() <= usize::MAX);
    lemma_has_payload(variants@, 0);
    let reported = if has_payload(variants) && first_explicit(variants) is Some {
        spec_add(
            st,
            report(Finding::EnumPayloadDiscriminantMix, first_explicit(variants)->0),
        )
    } else {
        st
    };
    lemma_check_discriminants_from(reported, variants, 0, List::Nil);
    quiet_check_discriminants_from(reported, variants, 0, List::Nil);
    assert(List::<Occupied>::Nil.seq() =~= Seq::empty());
}

} // verus!
