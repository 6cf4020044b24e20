//! The signatures of a program's definitions.

use vstd::prelude::*;

use crate::diagnostics::{report, CheckResult, Diagnostic, Finding};
use crate::hir::{
    Attribute, DeclarationId, Definition, DefinitionData, EnumVariant, Field, GenericParameter,
    Method, Namespace, Program, Type,
};
use crate::ids::{contains_id, insert_id, inserted};
use crate::list::{cons, List};
use crate::lowering::context::next;
use crate::names::Name;
use crate::ownership::derive::{
    are_facts_of, conformances, declared_conformances, derive_ownership_facts,
};
use crate::ownership::facts::OwnershipFacts;
use crate::program::nominal_id;
use crate::reports::{spec_add, Reports};
use crate::signatures::classes::{
    spec_check_class, spec_check_declared_interfaces, spec_check_function,
    spec_check_implementation, spec_check_public_reference_lifetimes, spec_reject_duplicate_methods,
};
use crate::signatures::types::{
    declaration_span, is_exported, spec_add_for_declaration, spec_check_function_types,
    spec_check_generic_bound_types, spec_check_generic_parameters, spec_check_interface_type,
    spec_check_type, spec_reject_void,
};
use crate::syntax::Span;

verus! {

/// The fields must have values.
pub open spec fn reject_void_fields_from(
    st: Seq<Diagnostic>,
    fields: Seq<Field>,
    from: nat,
) -> Seq<Diagnostic>
    decreases fields.len() - from,
{
    if from >= fields.len() {
        st
    } else {
        let item = &fields[from as int];
        let st = spec_reject_void(st, &item.ty, item.span);
        reject_void_fields_from(st, fields, from + 1)
    }
}

impl Reports {
    /// The fields must have values.
    pub(crate) fn reject_void_fields(&mut self, fields: &Vec<Field>)
        ensures
            final(self)@ == reject_void_fields_from(old(self)@, fields@, 0),
    {
        let mut index: usize = 0;
        while index < fields.len()
            invariant
                reject_void_fields_from(old(self)@, fields@, 0)
                    == reject_void_fields_from(self@, fields@, index as nat),
            decreases fields.len() - index,
        {
            let item = &fields[index];
            self.reject_void(&item.ty, item.span);
            index = index + 1;
        }
    }
}

/// The fields of the variants must have values.
pub open spec fn reject_void_payloads_from(
    st: Seq<Diagnostic>,
    variants: Seq<EnumVariant>,
    from: nat,
) -> Seq<Diagnostic>
    decreases variants.len() - from,
{
    if from >= variants.len() {
        st
    } else {
        let item = &variants[from as int];
        let st = reject_void_fields_from(st, item.fields@, 0);
        reject_void_payloads_from(st, variants, from + 1)
    }
}

impl Reports {
    /// The fields of the variants must have values.
    pub(crate) fn reject_void_payloads(&mut self, variants: &Vec<EnumVariant>)
        ensures
            final(self)@ == reject_void_payloads_from(old(self)@, variants@, 0),
    {
        let mut index: usize = 0;
        while index < variants.len()
            invariant
                reject_void_payloads_from(old(self)@, variants@, 0)
                    == reject_void_payloads_from(self@, variants@, index as nat),
            decreases variants.len() - index,
        {
            let item = &variants[index];
            self.reject_void_fields(&item.fields);
            index = index + 1;
        }
    }
}

/// The methods of a struct by themselves.
pub open spec fn check_struct_methods_from(
    st: Seq<Diagnostic>,
    methods: Seq<Method>,
    program: &Program,
    declaration: DeclarationId,
    from: nat,
) -> Seq<Diagnostic>
    decreases methods.len() - from,
{
    if from >= methods.len() {
        st
    } else {
        let item = &methods[from as int];
        let st = {
            let st = spec_check_function(st, program, declaration, &item.function);
            spec_check_generic_parameters(st, &item.function.generics, program)
        };
        check_struct_methods_from(st, methods, program, declaration, from + 1)
    }
}

impl Reports {
    /// The methods of a struct by themselves.
    pub(crate) fn check_struct_methods(
        &mut self,
        methods: &Vec<Method>,
        program: &Program,
        declaration: DeclarationId,
    )
        ensures
            final(self)@
                == check_struct_methods_from(old(self)@, methods@, program, declaration, 0),
    {
        let mut index: usize = 0;
        while index < methods.len()
            invariant
                check_struct_methods_from(old(self)@, methods@, program, declaration, 0)
                    == check_struct_methods_from(
                        self@,
                        methods@,
                        program,
                        declaration,
                        index as nat,
                    ),
            decreases methods.len() - index,
        {
            let item = &methods[index];
            self.check_function(program, declaration, &item.function);
            self.check_generic_parameters(&item.function.generics, program);
            index = index + 1;
        }
    }
}

/// The methods of an interface by themselves.
pub open spec fn check_interface_methods_from(
    st: Seq<Diagnostic>,
    methods: Seq<Method>,
    program: &Program,
    declaration: DeclarationId,
    from: nat,
) -> Seq<Diagnostic>
    decreases methods.len() - from,
{
    if from >= methods.len() {
        st
    } else {
        let item = &methods[from as int];
        let st = {
            let st = spec_check_function(st, program, declaration, &item.function);
            spec_check_public_reference_lifetimes(
                st,
                &item.function,
                is_exported(program, declaration),
                true,
                item.span,
            )
        };
        check_interface_methods_from(st, methods, program, declaration, from + 1)
    }
}

impl Reports {
    /// The methods of an interface by themselves.
    pub(crate) fn check_interface_methods(
        &mut self,
        methods: &Vec<Method>,
        program: &Program,
        declaration: DeclarationId,
    )
        ensures
            final(self)@
                == check_interface_methods_from(old(self)@, methods@, program, declaration, 0),
    {
        let mut index: usize = 0;
        while index < methods.len()
            invariant
                check_interface_methods_from(old(self)@, methods@, program, declaration, 0)
                    == check_interface_methods_from(
                        self@,
                        methods@,
                        program,
                        declaration,
                        index as nat,
                    ),
            decreases methods.len() - index,
        {
            let item = &methods[index];
            self.check_function(program, declaration, &item.function);
            self.check_public_reference_lifetimes(
                &item.function,
                is_exported(program, declaration),
                true,
                item.span,
            );
            index = index + 1;
        }
    }
}

/// Foreign functions must be synchronous and cannot throw.
pub open spec fn check_foreign_functions_from(
    st: Seq<Diagnostic>,
    functions: Seq<Method>,
    from: nat,
) -> Seq<Diagnostic>
    decreases functions.len() - from,
{
    if from >= functions.len() {
        st
    } else {
        let item = &functions[from as int];
        let st = {
            if item.function.is_async || !item.function.effects.is_empty() {
                spec_add(st, report(Finding::InvalidForeignSignature, item.span))
            } else {
                st
            }
        };
        check_foreign_functions_from(st, functions, from + 1)
    }
}

impl Reports {
    /// Foreign functions must be synchronous and cannot throw.
    pub(crate) fn check_foreign_functions(&mut self, functions: &Vec<Method>)
        ensures
            final(self)@ == check_foreign_functions_from(old(self)@, functions@, 0),
    {
        let mut index: usize = 0;
        while index < functions.len()
            invariant
                check_foreign_functions_from(old(self)@, functions@, 0)
                    == check_foreign_functions_from(self@, functions@, index as nat),
            decreases functions.len() - index,
        {
            let item = &functions[index];
            if item.function.is_async || !item.function.effects.is_empty() {
                self.add(report(Finding::InvalidForeignSignature, item.span));
            }
            index = index + 1;
        }
    }
}

/// Whether a variant has fields.
pub open spec fn has_payload_from(variants: Seq<EnumVariant>, from: nat) -> bool
    decreases variants.len() - from,
{
    if from >= variants.len() {
        false
    } else {
        let item = &variants[from as int];
        let found = item.fields.len() > 0;
        found || has_payload_from(variants, from + 1)
    }
}

/// Whether a variant has fields.
#[verifier::allow_in_spec]
pub fn has_payload(variants: &Vec<EnumVariant>) -> (r: bool)
    returns
        has_payload_from(variants@, 0),
{
    let mut index: usize = 0;
    while index < variants.len()
        invariant
            has_payload_from(variants@, 0) == has_payload_from(variants@, index as nat),
        decreases variants.len() - index,
    {
        let item = &variants[index];
        let found = item.fields.len() > 0;
        if found {
            return true;
        }
        index = index + 1;
    }
    false
}

/// Where the first variant with a number of its own stands.
pub open spec fn first_explicit_from(variants: Seq<EnumVariant>, from: nat) -> Option<Span>
    decreases variants.len() - from,
{
    if from >= variants.len() {
        None
    } else {
        let item = &variants[from as int];
        let found = {
            match item.discriminant {
                Some(_) => Some(item.span),
                None => None,
            }
        };
        match found {
            Some(found) => Some(found),
            None => first_explicit_from(variants, from + 1),
        }
    }
}

/// Where the first variant with a number of its own stands.
#[verifier::allow_in_spec]
pub fn first_explicit(variants: &Vec<EnumVariant>) -> (r: Option<Span>)
    returns
        first_explicit_from(variants@, 0),
{
    let mut index: usize = 0;
    while index < variants.len()
        invariant
            first_explicit_from(variants@, 0) == first_explicit_from(variants@, index as nat),
        decreases variants.len() - index,
    {
        let item = &variants[index];
        let found = {
            match item.discriminant {
                Some(_) => Some(item.span),
                None => None,
            }
        };
        match found {
            Some(found) => {
                return Some(found);
            },
            None => {},
        }
        index = index + 1;
    }
    None
}

/// A number and the variant that has it.
#[derive(Clone, Copy, Debug, PartialEq, Eq, Structural)]
pub struct Occupied {
    pub discriminant: i128,
    pub name: Name,
}

/// The variant that has a number.
pub open spec fn spec_occupant(occupied: &List<Occupied>, discriminant: i128) -> Option<Name>
    decreases occupied,
{
    match occupied {
        List::Nil => None,
        List::Cons(head, tail) => {
            if head.discriminant == discriminant {
                Some(head.name)
            } else {
                spec_occupant(tail, discriminant)
            }
        },
    }
}

/// The variant that has a number.
#[verifier::allow_in_spec]
pub fn occupant(occupied: &List<Occupied>, discriminant: i128) -> (r: Option<Name>)
    returns
        spec_occupant(occupied, discriminant),
    decreases occupied,
{
    proof {
        reveal_with_fuel(spec_occupant, 2);
    }
    match occupied {
        List::Nil => None,
        List::Cons(head, tail) => {
            if head.discriminant == discriminant {
                Some(head.name)
            } else {
                occupant(tail, discriminant)
            }
        },
    }
}

/// The number of a variant: its own, or its position.
#[verifier::allow_in_spec]
pub fn discriminant_at(variant: &EnumVariant, index: usize) -> (r: i128)
    returns
        match variant.discriminant {
            Some(discriminant) => discriminant,
            None => index as i128,
        },
{
    match variant.discriminant {
        Some(discriminant) => discriminant,
        None => index as i128,
    }
}

/// Each of the variants from `index` on must have a number that none before it has.
#[verifier::opaque]
pub open spec fn spec_check_discriminants_from(
    st: Seq<Diagnostic>,
    variants: &Vec<EnumVariant>,
    index: usize,
    occupied: List<Occupied>,
) -> Seq<Diagnostic>
    decreases variants@.len() - index,
{
    if index < variants.len() {
        let variant = &variants[index as int];
        let discriminant: i128 = discriminant_at(variant, index);
        let st = if let Some(previous) = spec_occupant(&occupied, discriminant) {
            spec_add(
                st, report(
                    Finding::DuplicateEnumDiscriminant {
                        previous,
                        name: variant.name,
                        discriminant,
                    },
                    variant.span,
                ),
            )
        } else {
            st
        };
        spec_check_discriminants_from(
            st,
            variants,
            next(index),
            cons(Occupied { discriminant, name: variant.name }, occupied),
        )
    } else {
        st
    }
}

impl Reports {
    /// Each of the variants from `index` on must have a number that none before it has.
    pub(crate) fn check_discriminants_from(
        &mut self,
        variants: &Vec<EnumVariant>,
        index: usize,
        occupied: List<Occupied>,
    )
        ensures
            final(self)@ == spec_check_discriminants_from(
                old(self)@,
                variants,
                index,
                occupied,
            ),
        decreases variants@.len() - index,
    {
        proof {
            reveal_with_fuel(spec_check_discriminants_from, 2);
        }
        if index < variants.len() {
            let variant = &variants[index];
            let discriminant: i128 = discriminant_at(variant, index);
            if let Some(previous) = occupant(&occupied, discriminant) {
                self.add(
                    report(
                        Finding::DuplicateEnumDiscriminant {
                            previous,
                            name: variant.name,
                            discriminant,
                        },
                        variant.span,
                    ),
                );
            }
            self.check_discriminants_from(
                variants,
                next(index),
                cons(Occupied { discriminant, name: variant.name }, occupied),
            );
        }
    }
}

/// The variants of an enum must have numbers of their own, and either fields or explicit numbers.
#[verifier::opaque]
pub open spec fn spec_check_enum_discriminants(
    st: Seq<Diagnostic>,
    variants: &Vec<EnumVariant>,
) -> Seq<Diagnostic> {
    let st = if has_payload(variants) {
        if let Some(span) = first_explicit(variants) {
            spec_add(st, report(Finding::EnumPayloadDiscriminantMix, span))
        } else {
            st
        }
    } else {
        st
    };
    spec_check_discriminants_from(st, variants, 0, List::Nil)
}

impl Reports {
    /// The variants of an enum must have numbers of their own, and either fields or explicit numbers.
    pub(crate) fn check_enum_discriminants(&mut self, variants: &Vec<EnumVariant>)
        ensures
            final(self)@ == spec_check_enum_discriminants(old(self)@, variants),
    {
        proof {
            reveal(spec_check_enum_discriminants);
        }
        if has_payload(variants) {
            if let Some(span) = first_explicit(variants) {
                self.add(report(Finding::EnumPayloadDiscriminantMix, span));
            }
        }
        self.check_discriminants_from(variants, 0, List::Nil);
    }
}

/// A definition by itself and against the definitions that it names.
#[verifier::opaque]
pub open spec fn spec_check_definition(
    st: Seq<Diagnostic>,
    program: &Program,
    definition: &Definition,
) -> Seq<Diagnostic> {
    match &definition.data {
        DefinitionData::Constant { ty, .. } => {
            if matches!(ty, Type::Error) && is_exported(program, definition.declaration) {
                spec_add_for_declaration(
                    st,
                    program,
                    definition.declaration,
                    Finding::PublicAnnotationRequired,
                )
            } else {
                st
            }
        },
        DefinitionData::Function(function) => {
            let st = spec_check_function(st, program, definition.declaration, function);
            let st = spec_check_public_reference_lifetimes(
                st,
                function,
                is_exported(program, definition.declaration),
                false,
                declaration_span(program, definition.declaration),
            );
            spec_check_generic_parameters(st, &function.generics, program)
        },
        DefinitionData::Struct { fields, methods } => {
            let st = reject_void_fields_from(st, fields@, 0);
            let st = spec_reject_duplicate_methods(st, methods);
            let st = check_struct_methods_from(st, methods@, program, definition.declaration, 0);
            spec_check_declared_interfaces(st, program, definition.declaration, Some(methods))
        },
        DefinitionData::Enum { variants, .. } => {
            let st = spec_check_enum_discriminants(st, variants);
            let st = reject_void_payloads_from(st, variants@, 0);
            spec_check_declared_interfaces(st, program, definition.declaration, None)
        },
        DefinitionData::Interface { methods } => {
            let st = spec_reject_duplicate_methods(st, methods);
            check_interface_methods_from(st, methods@, program, definition.declaration, 0)
        },
        DefinitionData::Class { base, fields, methods, .. } => {
            let st = reject_void_fields_from(st, fields@, 0);
            let st = spec_reject_duplicate_methods(st, methods);
            spec_check_class(st, program, definition, *base, methods)
        },
        DefinitionData::Implementation { interface, methods, .. } => {
            let st = spec_reject_duplicate_methods(st, methods);
            if let Some(interface) = implemented_interface(interface) {
                spec_check_implementation(
                    st,
                    program,
                    definition.declaration,
                    interface,
                    Some(methods),
                )
            } else {
                st
            }
        },
        DefinitionData::Foreign { functions } => {
            check_foreign_functions_from(st, functions@, 0)
        },
        DefinitionData::TypeAlias(ty) => {
            spec_reject_void(st, ty, declaration_span(program, definition.declaration))
        },
    }
}

impl Reports {
    /// A definition by itself and against the definitions that it names.
    pub(crate) fn check_definition(&mut self, program: &Program, definition: &Definition)
        ensures
            final(self)@ == spec_check_definition(old(self)@, program, definition),
    {
        proof {
            reveal(spec_check_definition);
        }
        match &definition.data {
            DefinitionData::Constant { ty, .. } => {
                if matches!(ty, Type::Error) && is_exported(program, definition.declaration) {
                    self.add_for_declaration(
                        program,
                        definition.declaration,
                        Finding::PublicAnnotationRequired,
                    );
                }
            },
            DefinitionData::Function(function) => {
                self.check_function(program, definition.declaration, function);
                self.check_public_reference_lifetimes(
                    function,
                    is_exported(program, definition.declaration),
                    false,
                    declaration_span(program, definition.declaration),
                );
                self.check_generic_parameters(&function.generics, program);
            },
            DefinitionData::Struct { fields, methods } => {
                self.reject_void_fields(fields);
                self.reject_duplicate_methods(methods);
                self.check_struct_methods(methods, program, definition.declaration);
                self.check_declared_interfaces(program, definition.declaration, Some(methods));
            },
            DefinitionData::Enum { variants, .. } => {
                self.check_enum_discriminants(variants);
                self.reject_void_payloads(variants);
                self.check_declared_interfaces(program, definition.declaration, None);
            },
            DefinitionData::Interface { methods } => {
                self.reject_duplicate_methods(methods);
                self.check_interface_methods(methods, program, definition.declaration);
            },
            DefinitionData::Class { base, fields, methods, .. } => {
                self.reject_void_fields(fields);
                self.reject_duplicate_methods(methods);
                self.check_class(program, definition, *base, methods);
            },
            DefinitionData::Implementation { interface, methods, .. } => {
                self.reject_duplicate_methods(methods);
                if let Some(interface) = implemented_interface(interface) {
                    self.check_implementation(
                        program,
                        definition.declaration,
                        interface,
                        Some(methods),
                    );
                }
            },
            DefinitionData::Foreign { functions } => {
                self.check_foreign_functions(functions);
            },
            DefinitionData::TypeAlias(ty) => {
                self.reject_void(ty, declaration_span(program, definition.declaration));
            },
        }
    }
}

/// The interface that an implementation names.
#[verifier::allow_in_spec]
pub fn implemented_interface(interface: &Option<Type>) -> (r: Option<DeclarationId>)
    returns
        match interface {
            Some(ty) => nominal_id(ty),
            None => None,
        },
{
    match interface {
        Some(ty) => nominal_id(ty),
        None => None,
    }
}

/// The types of fields must be well formed.
pub open spec fn check_field_types_from(
    st: Seq<Diagnostic>,
    fields: Seq<Field>,
    program: &Program,
    from: nat,
) -> Seq<Diagnostic>
    decreases fields.len() - from,
{
    if from >= fields.len() {
        st
    } else {
        let item = &fields[from as int];
        let st = spec_check_type(st, &item.ty, item.span, program);
        check_field_types_from(st, fields, program, from + 1)
    }
}

impl Reports {
    /// The types of fields must be well formed.
    pub(crate) fn check_field_types(&mut self, fields: &Vec<Field>, program: &Program)
        ensures
            final(self)@ == check_field_types_from(old(self)@, fields@, program, 0),
    {
        let mut index: usize = 0;
        while index < fields.len()
            invariant
                check_field_types_from(old(self)@, fields@, program, 0)
                    == check_field_types_from(self@, fields@, program, index as nat),
            decreases fields.len() - index,
        {
            let item = &fields[index];
            self.check_type(&item.ty, item.span, program);
            index = index + 1;
        }
    }
}

/// The types of the fields of variants must be well formed.
pub open spec fn check_payload_types_from(
    st: Seq<Diagnostic>,
    variants: Seq<EnumVariant>,
    program: &Program,
    from: nat,
) -> Seq<Diagnostic>
    decreases variants.len() - from,
{
    if from >= variants.len() {
        st
    } else {
        let item = &variants[from as int];
        let st = check_field_types_from(st, item.fields@, program, 0);
        check_payload_types_from(st, variants, program, from + 1)
    }
}

impl Reports {
    /// The types of the fields of variants must be well formed.
    pub(crate) fn check_payload_types(&mut self, variants: &Vec<EnumVariant>, program: &Program)
        ensures
            final(self)@ == check_payload_types_from(old(self)@, variants@, program, 0),
    {
        let mut index: usize = 0;
        while index < variants.len()
            invariant
                check_payload_types_from(old(self)@, variants@, program, 0)
                    == check_payload_types_from(self@, variants@, program, index as nat),
            decreases variants.len() - index,
        {
            let item = &variants[index];
            self.check_field_types(&item.fields, program);
            index = index + 1;
        }
    }
}

/// The types of the signatures of methods must be well formed.
pub open spec fn check_method_types_from(
    st: Seq<Diagnostic>,
    methods: Seq<Method>,
    program: &Program,
    from: nat,
) -> Seq<Diagnostic>
    decreases methods.len() - from,
{
    if from >= methods.len() {
        st
    } else {
        let item = &methods[from as int];
        let st = spec_check_function_types(st, &item.function, item.span, program);
        check_method_types_from(st, methods, program, from + 1)
    }
}

impl Reports {
    /// The types of the signatures of methods must be well formed.
    pub(crate) fn check_method_types(&mut self, methods: &Vec<Method>, program: &Program)
        ensures
            final(self)@ == check_method_types_from(old(self)@, methods@, program, 0),
    {
        let mut index: usize = 0;
        while index < methods.len()
            invariant
                check_method_types_from(old(self)@, methods@, program, 0)
                    == check_method_types_from(self@, methods@, program, index as nat),
            decreases methods.len() - index,
        {
            let item = &methods[index];
            self.check_function_types(&item.function, item.span, program);
            index = index + 1;
        }
    }
}

/// The types that a class conforms to must be interfaces.
pub open spec fn check_interface_types_from(
    st: Seq<Diagnostic>,
    interfaces: Seq<Type>,
    span: Span,
    program: &Program,
    from: nat,
) -> Seq<Diagnostic>
    decreases interfaces.len() - from,
{
    if from >= interfaces.len() {
        st
    } else {
        let item = &interfaces[from as int];
        let st = spec_check_interface_type(st, item, span, program);
        check_interface_types_from(st, interfaces, span, program, from + 1)
    }
}

impl Reports {
    /// The types that a class conforms to must be interfaces.
    pub(crate) fn check_interface_types(
        &mut self,
        interfaces: &Vec<Type>,
        span: Span,
        program: &Program,
    )
        ensures
            final(self)@ == check_interface_types_from(old(self)@, interfaces@, span, program, 0),
    {
        let mut index: usize = 0;
        while index < interfaces.len()
            invariant
                check_interface_types_from(old(self)@, interfaces@, span, program, 0)
                    == check_interface_types_from(self@, interfaces@, span, program, index as nat),
            decreases interfaces.len() - index,
        {
            let item = &interfaces[index];
            self.check_interface_type(item, span, program);
            index = index + 1;
        }
    }
}

/// A declared type cannot have parameters for errors.
#[verifier::opaque]
pub open spec fn spec_reject_effect_parameters(
    st: Seq<Diagnostic>,
    parameters: &List<GenericParameter>,
) -> Seq<Diagnostic>
    decreases parameters,
{
    match parameters {
        List::Nil => st,
        List::Cons(head, tail) => {
            let st = if head.namespace == Namespace::Value {
                spec_add(st, report(Finding::NominalEffectParameter, head.span))
            } else {
                st
            };
            spec_reject_effect_parameters(st, tail)
        },
    }
}

impl Reports {
    /// A declared type cannot have parameters for errors.
    pub(crate) fn reject_effect_parameters(&mut self, parameters: &List<GenericParameter>)
        ensures
            final(self)@ == spec_reject_effect_parameters(old(self)@, parameters),
        decreases parameters,
    {
        proof {
            reveal_with_fuel(spec_reject_effect_parameters, 2);
        }
        match parameters {
            List::Nil => {},
            List::Cons(head, tail) => {
                if head.namespace == Namespace::Value {
                    self.add(report(Finding::NominalEffectParameter, head.span));
                }
                self.reject_effect_parameters(tail);
            },
        }
    }
}

/// Whether a definition declares a type.
#[verifier::allow_in_spec]
pub fn declares_type(data: &DefinitionData) -> (r: bool)
    returns
        match data {
            DefinitionData::Struct { .. } => true,
            DefinitionData::Enum { .. } => true,
            DefinitionData::Interface { .. } => true,
            DefinitionData::Class { .. } => true,
            DefinitionData::TypeAlias(_) => true,
            _ => false,
        },
{
    match data {
        DefinitionData::Struct { .. } => true,
        DefinitionData::Enum { .. } => true,
        DefinitionData::Interface { .. } => true,
        DefinitionData::Class { .. } => true,
        DefinitionData::TypeAlias(_) => true,
        _ => false,
    }
}

/// Whether a definition is a function.
#[verifier::allow_in_spec]
pub fn is_function(data: &DefinitionData) -> (r: bool)
    returns
        match data {
            DefinitionData::Function(_) => true,
            _ => false,
        },
{
    match data {
        DefinitionData::Function(_) => true,
        _ => false,
    }
}

/// The types that a definition names must be well formed.
#[verifier::opaque]
pub open spec fn spec_check_definition_types(
    st: Seq<Diagnostic>,
    program: &Program,
    definition: &Definition,
) -> Seq<Diagnostic> {
    let span = declaration_span(program, definition.declaration);
    let st = if !is_function(&definition.data) {
        spec_check_generic_bound_types(st, &definition.generics, program)
    } else {
        st
    };
    let st = if declares_type(&definition.data) {
        spec_reject_effect_parameters(st, &definition.generics)
    } else {
        st
    };
    match &definition.data {
        DefinitionData::Constant { ty, .. } => spec_check_type(st, ty, span, program),
        DefinitionData::TypeAlias(ty) => spec_check_type(st, ty, span, program),
        DefinitionData::Function(function) => {
            spec_check_function_types(st, function, span, program)
        },
        DefinitionData::Struct { fields, methods } => {
            let st = check_field_types_from(st, fields@, program, 0);
            check_method_types_from(st, methods@, program, 0)
        },
        DefinitionData::Enum { variants, .. } => {
            check_payload_types_from(st, variants@, program, 0)
        },
        DefinitionData::Interface { methods } => {
            check_method_types_from(st, methods@, program, 0)
        },
        DefinitionData::Class { interfaces, fields, constructor, methods, .. } => {
            let st = check_interface_types_from(st, interfaces@, span, program, 0);
            let st = check_field_types_from(st, fields@, program, 0);
            let st = if let Some(constructor) = constructor {
                spec_check_function_types(st, &constructor.function, constructor.span, program)
            } else {
                st
            };
            check_method_types_from(st, methods@, program, 0)
        },
        DefinitionData::Implementation { interface, target, methods, .. } => {
            let st = if let Some(interface) = interface {
                spec_check_interface_type(st, interface, span, program)
            } else {
                st
            };
            let st = spec_check_type(st, target, span, program);
            check_method_types_from(st, methods@, program, 0)
        },
        DefinitionData::Foreign { functions } => {
            check_method_types_from(st, functions@, program, 0)
        },
    }
}

impl Reports {
    /// The types that a definition names must be well formed.
    pub(crate) fn check_definition_types(&mut self, program: &Program, definition: &Definition)
        ensures
            final(self)@ == spec_check_definition_types(old(self)@, program, definition),
    {
        proof {
            reveal(spec_check_definition_types);
        }
        let span = declaration_span(program, definition.declaration);
        if !is_function(&definition.data) {
            self.check_generic_bound_types(&definition.generics, program);
        }
        if declares_type(&definition.data) {
            self.reject_effect_parameters(&definition.generics);
        }
        match &definition.data {
            DefinitionData::Constant { ty, .. } => {
                self.check_type(ty, span, program);
            },
            DefinitionData::TypeAlias(ty) => {
                self.check_type(ty, span, program);
            },
            DefinitionData::Function(function) => {
                self.check_function_types(function, span, program);
            },
            DefinitionData::Struct { fields, methods } => {
                self.check_field_types(fields, program);
                self.check_method_types(methods, program);
            },
            DefinitionData::Enum { variants, .. } => {
                self.check_payload_types(variants, program);
            },
            DefinitionData::Interface { methods } => {
                self.check_method_types(methods, program);
            },
            DefinitionData::Class { interfaces, fields, constructor, methods, .. } => {
                self.check_interface_types(interfaces, span, program);
                self.check_field_types(fields, program);
                if let Some(constructor) = constructor {
                    self.check_function_types(&constructor.function, constructor.span, program);
                }
                self.check_method_types(methods, program);
            },
            DefinitionData::Implementation { interface, target, methods, .. } => {
                if let Some(interface) = interface {
                    self.check_interface_type(interface, span, program);
                }
                self.check_type(target, span, program);
                self.check_method_types(methods, program);
            },
            DefinitionData::Foreign { functions } => {
                self.check_method_types(functions, program);
            },
        }
    }
}

/// The definitions of a program.
pub open spec fn check_definitions_from(
    st: Seq<Diagnostic>,
    definitions: Seq<Definition>,
    program: &Program,
    from: nat,
) -> Seq<Diagnostic>
    decreases definitions.len() - from,
{
    if from >= definitions.len() {
        st
    } else {
        let item = &definitions[from as int];
        let st = {
            let st = spec_check_definition(st, program, item);
            let st = spec_check_generic_parameters(st, &item.generics, program);
            spec_check_definition_types(st, program, item)
        };
        check_definitions_from(st, definitions, program, from + 1)
    }
}

impl Reports {
    /// The definitions of a program.
    pub(crate) fn check_definitions(&mut self, definitions: &Vec<Definition>, program: &Program)
        ensures
            final(self)@ == check_definitions_from(old(self)@, definitions@, program, 0),
    {
        let mut index: usize = 0;
        while index < definitions.len()
            invariant
                check_definitions_from(old(self)@, definitions@, program, 0)
                    == check_definitions_from(self@, definitions@, program, index as nat),
            decreases definitions.len() - index,
        {
            let item = &definitions[index];
            self.check_definition(program, item);
            self.check_generic_parameters(&item.generics, program);
            self.check_definition_types(program, item);
            index = index + 1;
        }
    }
}

/// Whether a name is among the arguments of an attribute.
pub open spec fn names_argument_from(arguments: Seq<Name>, name: Name, from: nat) -> bool
    decreases arguments.len() - from,
{
    if from >= arguments.len() {
        false
    } else {
        let item = &arguments[from as int];
        let found = *item == name;
        found || names_argument_from(arguments, name, from + 1)
    }
}

/// Whether a name is among the arguments of an attribute.
#[verifier::allow_in_spec]
pub fn names_argument(arguments: &Vec<Name>, name: Name) -> (r: bool)
    returns
        names_argument_from(arguments@, name, 0),
{
    let mut index: usize = 0;
    while index < arguments.len()
        invariant
            names_argument_from(arguments@, name, 0)
                == names_argument_from(arguments@, name, index as nat),
        decreases arguments.len() - index,
    {
        let item = &arguments[index];
        let found = *item == name;
        if found {
            return true;
        }
        index = index + 1;
    }
    false
}

/// Whether an attribute says that a type conforms to a marker, and that this is not checked.
pub open spec fn has_unsafe_conformance_from(
    attributes: Seq<Attribute>,
    marker: Name,
    from: nat,
) -> bool
    decreases attributes.len() - from,
{
    if from >= attributes.len() {
        false
    } else {
        let item = &attributes[from as int];
        let found = {
            item.name == Name::Conform && names_argument(&item.arguments, marker) && names_argument(
                &item.arguments,
                Name::Unsafe,
            )
        };
        found || has_unsafe_conformance_from(attributes, marker, from + 1)
    }
}

/// Whether an attribute says that a type conforms to a marker, and that this is not checked.
#[verifier::allow_in_spec]
pub fn has_unsafe_conformance(attributes: &Vec<Attribute>, marker: Name) -> (r: bool)
    returns
        has_unsafe_conformance_from(attributes@, marker, 0),
{
    let mut index: usize = 0;
    while index < attributes.len()
        invariant
            has_unsafe_conformance_from(attributes@, marker, 0)
                == has_unsafe_conformance_from(attributes@, marker, index as nat),
        decreases attributes.len() - index,
    {
        let item = &attributes[index];
        let found = {
            item.name == Name::Conform && names_argument(&item.arguments, marker) && names_argument(
                &item.arguments,
                Name::Unsafe,
            )
        };
        if found {
            return true;
        }
        index = index + 1;
    }
    false
}

/// Whether a declaration says that it conforms to a marker, and that this is not checked.
#[verifier::allow_in_spec]
pub fn has_unsafe_marker_conformance(
    program: &Program,
    target: DeclarationId,
    marker: Name,
) -> (r: bool)
    returns
        match program.declaration(target) {
            Some(declaration) => has_unsafe_conformance(&declaration.attributes, marker),
            None => false,
        },
{
    match program.declaration(target) {
        Some(declaration) => has_unsafe_conformance(&declaration.attributes, marker),
        None => false,
    }
}

/// The marker that a declaration is, of those that are not checked.
#[verifier::allow_in_spec]
pub fn unchecked_marker(program: &Program, id: DeclarationId) -> (r: Option<Name>)
    returns
        match program.declared_name(id) {
            Some(Name::Send) => Some(Name::Send),
            Some(Name::Sync) => Some(Name::Sync),
            _ => None,
        },
{
    match program.declared_name(id) {
        Some(Name::Send) => Some(Name::Send),
        Some(Name::Sync) => Some(Name::Sync),
        _ => None,
    }
}

/// Whether a definition implements an unchecked marker without saying so.
#[verifier::allow_in_spec]
pub fn is_unmarked_implementation(program: &Program, data: &DefinitionData) -> (r: bool)
    returns
        match data {
            DefinitionData::Implementation {
                interface: Some(Type::Nominal(interface, _)),
                is_unsafe,
                ..
            } => {
                !*is_unsafe && unchecked_marker(program, *interface).is_some()
            },
            _ => false,
        },
{
    match data {
        DefinitionData::Implementation {
            interface: Some(Type::Nominal(interface, _)),
            is_unsafe,
            ..
        } => !*is_unsafe && unchecked_marker(program, *interface).is_some(),
        _ => false,
    }
}

/// Conformance to an unchecked marker must be declared as such.
pub open spec fn check_marker_conformances_from(
    st: Seq<Diagnostic>,
    interfaces: Seq<DeclarationId>,
    program: &Program,
    target: DeclarationId,
    from: nat,
) -> Seq<Diagnostic>
    decreases interfaces.len() - from,
{
    if from >= interfaces.len() {
        st
    } else {
        let item = &interfaces[from as int];
        let st = {
            if let Some(marker) = unchecked_marker(program, *item) {
                if !has_unsafe_marker_conformance(program, target, marker) {
                    spec_add_for_declaration(st, program, target, Finding::UnsafeMarkerConformance)
                } else {
                    st
                }
            } else {
                st
            }
        };
        check_marker_conformances_from(st, interfaces, program, target, from + 1)
    }
}

impl Reports {
    /// Conformance to an unchecked marker must be declared as such.
    pub(crate) fn check_marker_conformances(
        &mut self,
        interfaces: &Vec<DeclarationId>,
        program: &Program,
        target: DeclarationId,
    )
        ensures
            final(self)@
                == check_marker_conformances_from(old(self)@, interfaces@, program, target, 0),
    {
        let mut index: usize = 0;
        while index < interfaces.len()
            invariant
                check_marker_conformances_from(old(self)@, interfaces@, program, target, 0)
                    == check_marker_conformances_from(
                        self@,
                        interfaces@,
                        program,
                        target,
                        index as nat,
                    ),
            decreases interfaces.len() - index,
        {
            let item = &interfaces[index];
            if let Some(marker) = unchecked_marker(program, *item) {
                if !has_unsafe_marker_conformance(program, target, marker) {
                    self.add_for_declaration(program, target, Finding::UnsafeMarkerConformance);
                }
            }
            index = index + 1;
        }
    }
}

/// The reports on the unchecked markers of a definition.
#[verifier::opaque]
pub open spec fn spec_check_markers(
    st: Seq<Diagnostic>,
    program: &Program,
    definition: &Definition,
) -> Seq<Diagnostic> {
    let st = if is_unmarked_implementation(program, &definition.data) {
        st.push(
            report(
                Finding::UnsafeMarkerImplementation,
                declaration_span(program, definition.declaration),
            ),
        )
    } else {
        st
    };
    check_marker_conformances_from(
        st,
        conformances(program, definition.declaration),
        program,
        definition.declaration,
        0,
    )
}

impl Reports {
    /// The unchecked markers of a definition must be declared as such.
    pub(crate) fn check_markers(&mut self, program: &Program, definition: &Definition)
        ensures
            final(self)@ == spec_check_markers(old(self)@, program, definition),
    {
        proof {
            reveal(spec_check_markers);
        }
        if is_unmarked_implementation(program, &definition.data) {
            self.add(
                report(
                    Finding::UnsafeMarkerImplementation,
                    declaration_span(program, definition.declaration),
                ),
            );
        }
        let interfaces = declared_conformances(program, definition.declaration);
        self.check_marker_conformances(&interfaces, program, definition.declaration);
    }
}

/// The unchecked markers of definitions must be declared as such.
pub open spec fn check_unsafe_marker_implementations_from(
    st: Seq<Diagnostic>,
    definitions: Seq<Definition>,
    program: &Program,
    from: nat,
) -> Seq<Diagnostic>
    decreases definitions.len() - from,
{
    if from >= definitions.len() {
        st
    } else {
        let item = &definitions[from as int];
        let st = spec_check_markers(st, program, item);
        check_unsafe_marker_implementations_from(st, definitions, program, from + 1)
    }
}

impl Reports {
    /// The unchecked markers of definitions must be declared as such.
    pub(crate) fn check_unsafe_marker_implementations(
        &mut self,
        definitions: &Vec<Definition>,
        program: &Program,
    )
        ensures
            final(self)@
                == check_unsafe_marker_implementations_from(old(self)@, definitions@, program, 0),
    {
        let mut index: usize = 0;
        while index < definitions.len()
            invariant
                check_unsafe_marker_implementations_from(old(self)@, definitions@, program, 0)
                    == check_unsafe_marker_implementations_from(
                        self@,
                        definitions@,
                        program,
                        index as nat,
                    ),
            decreases definitions.len() - index,
        {
            let item = &definitions[index];
            self.check_markers(program, item);
            index = index + 1;
        }
    }
}

/// Whether a field is not copied.
pub open spec fn has_moved_field_from(
    fields: Seq<Field>,
    facts: &OwnershipFacts,
    from: nat,
) -> bool
    decreases fields.len() - from,
{
    if from >= fields.len() {
        false
    } else {
        let item = &fields[from as int];
        let found = !facts.is_copy(&item.ty);
        found || has_moved_field_from(fields, facts, from + 1)
    }
}

/// Whether a field is not copied.
#[verifier::allow_in_spec]
pub fn has_moved_field(fields: &Vec<Field>, facts: &OwnershipFacts) -> (r: bool)
    returns
        has_moved_field_from(fields@, facts, 0),
{
    let mut index: usize = 0;
    while index < fields.len()
        invariant
            has_moved_field_from(fields@, facts, 0)
                == has_moved_field_from(fields@, facts, index as nat),
        decreases fields.len() - index,
    {
        let item = &fields[index];
        let found = !facts.is_copy(&item.ty);
        if found {
            return true;
        }
        index = index + 1;
    }
    false
}

/// Whether a field of a variant is not copied.
pub open spec fn has_moved_payload_from(
    variants: Seq<EnumVariant>,
    facts: &OwnershipFacts,
    from: nat,
) -> bool
    decreases variants.len() - from,
{
    if from >= variants.len() {
        false
    } else {
        let item = &variants[from as int];
        let found = has_moved_field(&item.fields, facts);
        found || has_moved_payload_from(variants, facts, from + 1)
    }
}

/// Whether a field of a variant is not copied.
#[verifier::allow_in_spec]
pub fn has_moved_payload(variants: &Vec<EnumVariant>, facts: &OwnershipFacts) -> (r: bool)
    returns
        has_moved_payload_from(variants@, facts, 0),
{
    let mut index: usize = 0;
    while index < variants.len()
        invariant
            has_moved_payload_from(variants@, facts, 0)
                == has_moved_payload_from(variants@, facts, index as nat),
        decreases variants.len() - index,
    {
        let item = &variants[index];
        let found = has_moved_field(&item.fields, facts);
        if found {
            return true;
        }
        index = index + 1;
    }
    false
}

/// Whether a definition can be copied: a struct or enum all of whose fields are.
#[verifier::allow_in_spec]
pub fn can_be_copied(data: &DefinitionData, facts: &OwnershipFacts) -> (r: bool)
    returns
        match data {
            DefinitionData::Struct { fields, .. } => !has_moved_field(fields, facts),
            DefinitionData::Enum { variants, .. } => !has_moved_payload(variants, facts),
            _ => false,
        },
{
    match data {
        DefinitionData::Struct { fields, .. } => !has_moved_field(fields, facts),
        DefinitionData::Enum { variants, .. } => !has_moved_payload(variants, facts),
        _ => false,
    }
}

/// Types that are copied must be made of such types, and have no destructor.
pub open spec fn check_copies_from(
    st: Seq<Diagnostic>,
    targets: Seq<DeclarationId>,
    program: &Program,
    facts: &OwnershipFacts,
    from: nat,
) -> Seq<Diagnostic>
    decreases targets.len() - from,
{
    if from >= targets.len() {
        st
    } else {
        let item = &targets[from as int];
        let st = {
            if let Some(definition) = program.definition(*item) {
                if contains_id(&facts.drop, *item) || !can_be_copied(&definition.data, facts) {
                    spec_add_for_declaration(
                        st,
                        program,
                        definition.declaration,
                        Finding::InvalidCopyImplementation,
                    )
                } else {
                    st
                }
            } else {
                st
            }
        };
        check_copies_from(st, targets, program, facts, from + 1)
    }
}

impl Reports {
    /// Types that are copied must be made of such types, and have no destructor.
    pub(crate) fn check_copies(
        &mut self,
        targets: &Vec<DeclarationId>,
        program: &Program,
        facts: &OwnershipFacts,
    )
        ensures
            final(self)@ == check_copies_from(old(self)@, targets@, program, facts, 0),
    {
        let mut index: usize = 0;
        while index < targets.len()
            invariant
                check_copies_from(old(self)@, targets@, program, facts, 0)
                    == check_copies_from(self@, targets@, program, facts, index as nat),
            decreases targets.len() - index,
        {
            let item = &targets[index];
            if let Some(definition) = program.definition(*item) {
                if contains_id(&facts.drop, *item) || !can_be_copied(&definition.data, facts) {
                    self.add_for_declaration(
                        program,
                        definition.declaration,
                        Finding::InvalidCopyImplementation,
                    );
                }
            }
            index = index + 1;
        }
    }
}

/// The first `count` of declarations in ascending order, each once.
pub open spec fn in_ascending_order(ids: Seq<DeclarationId>, count: nat) -> Seq<DeclarationId>
    decreases count,
{
    if count == 0 {
        Seq::empty()
    } else {
        inserted(in_ascending_order(ids, (count - 1) as nat), ids[count - 1])
    }
}

fn put_in_order(ids: &Vec<DeclarationId>) -> (r: Vec<DeclarationId>)
    ensures
        r@ == in_ascending_order(ids@, ids@.len()),
{
    let mut ordered: Vec<DeclarationId> = Vec::new();
    let mut index: usize = 0;
    while index < ids.len()
        invariant
            index <= ids@.len(),
            ordered@ == in_ascending_order(ids@, index as nat),
        decreases ids.len() - index,
    {
        insert_id(&mut ordered, ids[index]);
        index = index + 1;
    }
    ordered
}

/// The reports on the types that are copied, in the order of their declarations.
#[verifier::opaque]
pub open spec fn spec_check_copy_implementations(
    st: Seq<Diagnostic>,
    program: &Program,
    facts: &OwnershipFacts,
) -> Seq<Diagnostic> {
    check_copies_from(
        st,
        in_ascending_order(facts.copy@, facts.copy@.len()),
        program,
        facts,
        0,
    )
}

impl Reports {
    /// The types that are copied, in the order of their declarations.
    pub(crate) fn check_copy_implementations(&mut self, program: &Program, facts: &OwnershipFacts)
        ensures
            final(self)@ == spec_check_copy_implementations(old(self)@, program, facts),
    {
        proof {
            reveal(spec_check_copy_implementations);
        }
        let targets = put_in_order(&facts.copy);
        self.check_copies(&targets, program, facts);
    }
}

/// The reports on the signatures of a program.
#[verifier::opaque]
pub open spec fn spec_check_program_signatures(
    st: Seq<Diagnostic>,
    program: &Program,
    facts: &OwnershipFacts,
) -> Seq<Diagnostic> {
    let st = check_definitions_from(st, program.definitions@, program, 0);
    let st = spec_check_copy_implementations(st, program, facts);
    check_unsafe_marker_implementations_from(st, program.definitions@, program, 0)
}

impl Reports {
    /// The reports on the signatures of a program.
    pub(crate) fn check_program_signatures(&mut self, program: &Program, facts: &OwnershipFacts)
        ensures
            final(self)@ == spec_check_program_signatures(old(self)@, program, facts),
    {
        proof {
            reveal(spec_check_program_signatures);
        }
        self.check_definitions(&program.definitions, program);
        self.check_copy_implementations(program, facts);
        self.check_unsafe_marker_implementations(&program.definitions, program);
    }
}

/// Checks the signatures of a program whose ownership facts are known.
pub fn check_signatures_with_ownership(program: &Program, ownership_facts: &OwnershipFacts) -> (r:
    CheckResult)
    ensures
        r.diagnostics@ == spec_check_program_signatures(Seq::empty(), program, ownership_facts),
{
    let mut reports = Reports::new();
    reports.check_program_signatures(program, ownership_facts);
    CheckResult { diagnostics: reports.diagnostics }
}

/// Checks the signatures of a program.
pub fn check_signatures(program: &Program) -> (r: CheckResult)
    ensures
        exists|facts: OwnershipFacts|
            are_facts_of(program, facts) && r.diagnostics@
                == #[trigger] spec_check_program_signatures(Seq::empty(), program, &facts),
{
    let facts = derive_ownership_facts(program);
    check_signatures_with_ownership(program, &facts)
}

} // verus!
