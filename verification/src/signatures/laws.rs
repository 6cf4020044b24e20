//! What holds of a program in whose signatures nothing is found.

use vstd::prelude::*;

use crate::appending::base::{lemma_extends_itself, lemma_extends_nothing};
use crate::appending::classes::{
    lemma_check_base, lemma_check_class, lemma_check_class_methods, lemma_check_class_own_rules,
    lemma_check_declared_interfaces, lemma_check_function, lemma_check_implementation,
    lemma_check_inherited_methods, lemma_check_inherited_methods_item, lemma_check_requirements,
    lemma_reject_duplicate_methods, lemma_reject_duplicates_from,
};
use crate::appending::construction::{
    lemma_analyze_constructor_sequence, lemma_check_fields_set, lemma_check_fields_set_item,
    lemma_check_super_calls,
};
use crate::appending::definitions::{
    lemma_check_copies_item, lemma_check_copy_implementations, lemma_check_definition,
    lemma_check_definition_types, lemma_check_definitions, lemma_check_definitions_item,
    lemma_check_discriminants_from, lemma_check_enum_discriminants, lemma_check_interface_methods,
    lemma_check_struct_methods, lemma_check_unsafe_marker_implementations, lemma_reject_void_fields,
    lemma_reject_void_payloads,
};
use crate::appending::types::{lemma_add_for_declaration, lemma_check_generic_parameters};
use crate::chains::{
    defined_at, extended_class, is_numbered, lemma_reached, lemma_walked_before, lemma_walked_on,
    walked,
};
use crate::diagnostics::{report, Diagnostic, Finding};
use crate::hir::{
    DeclarationId, Definition, DefinitionData, EnumVariant, Method, Module, Program, Type,
};
use crate::ids::{ascending, lemma_inserted, spec_list_contains};
use crate::list::{cons, List};
use crate::lowering::context::next;
use crate::lowering::types::Substitution;
use crate::names::Name;
use crate::ownership::facts::OwnershipFacts;
use crate::program::find_method;
use crate::reports::spec_add;
use crate::signatures::classes::{
    first_named, first_named_from, is_class, is_substitutable, spec_check_base, spec_check_class,
    spec_check_class_own_rules, spec_check_declared_interfaces, spec_check_function,
    spec_check_implementation, spec_check_inherited, spec_check_override, spec_check_requirements,
    spec_method_among, spec_reject_duplicate_methods, spec_reject_duplicates_from,
    spec_substitutable_interface_signature, visibility_rank,
};
use crate::signatures::construction::{
    check_fields_set_from, is_base_synthesizable, required_fields,
    spec_analyze_constructor_sequence, spec_check_class_construction, spec_check_constructor_code,
    spec_check_super_calls, spec_first_inside, spec_first_outside, spec_has_name, ConstructorView,
};
use crate::signatures::definitions::{
    can_be_copied, check_definitions_from, check_struct_methods_from,
    check_unsafe_marker_implementations_from, discriminant_at, first_explicit,
    implemented_interface, in_ascending_order, occupant, reject_void_fields_from,
    reject_void_payloads_from, spec_check_copy_implementations, spec_check_definition,
    spec_check_definition_types, spec_check_discriminants_from, spec_check_enum_discriminants,
    spec_check_program_signatures, Occupied,
};
use crate::signatures::types::{
    definition_of, effect_subset, has_class_above, is_subtype, last_definition,
    spec_add_for_declaration, spec_check_generic_parameters, spec_effect_subset,
    spec_has_class_above, spec_is_subtype,
};

verus! {

/// Whether nothing is found in the signatures of a program.
pub open spec fn is_accepted(program: &Program, facts: &OwnershipFacts) -> bool {
    spec_check_program_signatures(Seq::empty(), program, facts).len() == 0
}

proof fn lemma_accepted_parts(program: &Program, facts: &OwnershipFacts)
    requires
        is_accepted(program, facts),
    ensures
        check_definitions_from(
            Seq::empty(),
            program.definitions@,
            program,
            0,
        ) == Seq::<Diagnostic>::empty(),
        spec_check_copy_implementations(Seq::empty(), program, facts) == Seq::<
            Diagnostic,
        >::empty(),
{
    reveal(spec_check_program_signatures);
    let nothing = Seq::<Diagnostic>::empty();
    let first = check_definitions_from(nothing, program.definitions@, program, 0);
    let second = spec_check_copy_implementations(first, program, facts);
    let third = check_unsafe_marker_implementations_from(
        second,
        program.definitions@,
        program,
        0,
    );
    lemma_check_definitions(nothing, program.definitions@, program, 0);
    lemma_check_copy_implementations(first, program, facts);
    lemma_check_unsafe_marker_implementations(second, program.definitions@, program, 0);
    lemma_extends_nothing(second, third);
    lemma_extends_nothing(first, second);
}

proof fn lemma_accepted_definition(program: &Program, facts: &OwnershipFacts, index: int)
    requires
        is_accepted(program, facts),
        0 <= index < program.definitions@.len(),
    ensures
        spec_check_definition(Seq::empty(), program, &program.definitions@[index]) == Seq::<
            Diagnostic,
        >::empty(),
{
    lemma_accepted_parts(program, facts);
    lemma_check_definitions_item(program.definitions@, program, 0, index as nat);
    let definition = &program.definitions@[index];
    let nothing = Seq::<Diagnostic>::empty();
    let first = spec_check_definition(nothing, program, definition);
    let second = spec_check_generic_parameters(first, &definition.generics, program);
    let third = spec_check_definition_types(second, program, definition);
    lemma_check_definition(nothing, program, definition);
    lemma_check_generic_parameters(first, &definition.generics, program);
    lemma_check_definition_types(second, program, definition);
    lemma_extends_nothing(second, third);
    lemma_extends_nothing(first, second);
}

proof fn lemma_in_ascending_order(ids: Seq<DeclarationId>, count: nat)
    requires
        count <= ids.len(),
    ensures
        ascending(in_ascending_order(ids, count)),
        forall|index: int|
            0 <= index < count ==> in_ascending_order(ids, count).contains(#[trigger] ids[index]),
    decreases count,
{
    if count > 0 {
        let before = in_ascending_order(ids, (count - 1) as nat);
        lemma_in_ascending_order(ids, (count - 1) as nat);
        lemma_inserted(before, ids[count - 1]);
        assert forall|index: int| 0 <= index < count implies in_ascending_order(
            ids,
            count,
        ).contains(#[trigger] ids[index]) by {
            if index < count - 1 {
                assert(before.contains(ids[index]));
            } else {
                assert(before.contains(ids[index]) || ids[index] == ids[count - 1]);
            }
        }
    }
}

/// In an accepted program a type that is copied is a struct or an enum all of whose fields are
/// copied, and has no destructor.
pub proof fn accepted_copies_are_plain(
    program: &Program,
    facts: &OwnershipFacts,
    target: DeclarationId,
)
    requires
        is_accepted(program, facts),
        facts.copy@.contains(target),
        program.definition(target) is Some,
    ensures
        can_be_copied(&program.definition(target)->0.data, facts),
        !facts.drop@.contains(target),
{
    lemma_accepted_parts(program, facts);
    reveal(spec_check_copy_implementations);
    let ordered = in_ascending_order(facts.copy@, facts.copy@.len());
    lemma_in_ascending_order(facts.copy@, facts.copy@.len());
    let position = choose|position: int|
        0 <= position < facts.copy@.len() && facts.copy@[position] == target;
    assert(ordered.contains(facts.copy@[position]));
    let index = choose|index: int| 0 <= index < ordered.len() && ordered[index] == target;
    lemma_check_copies_item(ordered, program, facts, 0, index as nat);
    let nothing = Seq::<Diagnostic>::empty();
    let definition = program.definition(target)->0;
    lemma_add_for_declaration(
        nothing,
        program,
        definition.declaration,
        Finding::InvalidCopyImplementation,
    );
    reveal(spec_add_for_declaration);
}

/// In an accepted program a class extends only a class that is not final, and each of its methods
/// says that it overrides one of that class exactly when it does. It can then stand for the
/// method that it overrides, which is not final, and is no less visible.
pub proof fn accepted_overrides_are_substitutable(
    program: &Program,
    facts: &OwnershipFacts,
    index: int,
    method_index: int,
)
    requires
        is_accepted(program, facts),
        0 <= index < program.definitions@.len(),
        program.definitions@[index].data is Class,
        program.definitions@[index].data->Class_base is Some,
        definition_of(program, program.definitions@[index].data->Class_base->0) is Some,
        0 <= method_index < program.definitions@[index].data->Class_methods@.len(),
    ensures
        ({
            let base = definition_of(program, program.definitions@[index].data->Class_base->0)->0;
            let method = program.definitions@[index].data->Class_methods@[method_index];
            &&& base.data is Class
            &&& !base.data->Class_is_final
            &&& match find_method(&base.data->Class_methods, method.name) {
                Some(overridden) => method.is_override && !overridden.is_final && is_substitutable(
                    &method,
                    overridden,
                    program,
                ) && visibility_rank(overridden.visibility) <= visibility_rank(method.visibility),
                None => !method.is_override,
            }
        }),
{
    lemma_accepted_definition(program, facts, index);
    reveal(spec_check_definition);
    reveal(spec_check_class);
    reveal(spec_check_base);
    reveal(spec_check_inherited);
    reveal(spec_check_override);
    reveal(spec_add_for_declaration);
    let nothing = Seq::<Diagnostic>::empty();
    let definition = &program.definitions@[index];
    let base_id = definition.data->Class_base->0;
    let base = definition_of(program, base_id)->0;
    let methods = &definition.data->Class_methods;
    let fields = &definition.data->Class_fields;
    let first = reject_void_fields_from(nothing, fields@, 0);
    let second = spec_reject_duplicate_methods(first, methods);
    let third = spec_check_class_own_rules(second, program, definition);
    let fourth = spec_check_base(third, program, definition.declaration, base, methods);
    let fifth = spec_check_declared_interfaces(
        fourth,
        program,
        definition.declaration,
        Some(methods),
    );
    lemma_reject_void_fields(nothing, fields@, 0);
    lemma_reject_duplicate_methods(first, methods);
    lemma_check_class_own_rules(second, program, definition);
    lemma_check_base(third, program, definition.declaration, base, methods);
    lemma_check_declared_interfaces(fourth, program, definition.declaration, Some(methods));
    if is_class(base) {
        lemma_extends_nothing(fourth, fifth);
    } else {
        lemma_extends_nothing(third, fourth);
    }
    lemma_extends_nothing(third, fourth);
    assert(base.data is Class);
    let base_methods = &base.data->Class_methods;
    assert(!base.data->Class_is_final) by {
        if base.data->Class_is_final {
            let reported = spec_add_for_declaration(
                nothing,
                program,
                definition.declaration,
                Finding::ExtendsFinalClass,
            );
            lemma_check_inherited_methods(reported, methods@, base_methods, program, 0);
            assert(reported.len() == 1);
        }
    }
    lemma_check_inherited_methods_item(
        methods@,
        base_methods,
        program,
        0,
        method_index as nat,
    );
}

proof fn lemma_discriminants_from(
    variants: &Vec<EnumVariant>,
    index: usize,
    occupied: List<Occupied>,
    first: int,
    second: int,
)
    requires
        spec_check_discriminants_from(Seq::empty(), variants, index, occupied).len() == 0,
        index <= first < second < variants@.len(),
    ensures
        occupant(&occupied, discriminant_at(&variants@[second], second as usize)) is None,
        discriminant_at(&variants@[first], first as usize) != discriminant_at(
            &variants@[second],
            second as usize,
        ),
    decreases variants@.len() - index,
{
    reveal_with_fuel(spec_check_discriminants_from, 2);
    let nothing = Seq::<Diagnostic>::empty();
    let variant = &variants@[index as int];
    let discriminant = discriminant_at(variant, index);
    let longer = cons(Occupied { discriminant, name: variant.name }, occupied);
    let reported = match occupant(&occupied, discriminant) {
        Some(previous) => nothing.push(
            report(
                Finding::DuplicateEnumDiscriminant { previous, name: variant.name, discriminant },
                variant.span,
            ),
        ),
        None => nothing,
    };
    lemma_check_discriminants_from(reported, variants, next(index), longer);
    lemma_extends_nothing(
        reported,
        spec_check_discriminants_from(reported, variants, next(index), longer),
    );
    lemma_last_discriminant(variants, next(index), longer, second);
    if first > index {
        lemma_discriminants_from(variants, next(index), longer, first, second);
    }
}

proof fn lemma_last_discriminant(
    variants: &Vec<EnumVariant>,
    index: usize,
    occupied: List<Occupied>,
    last: int,
)
    requires
        spec_check_discriminants_from(Seq::empty(), variants, index, occupied).len() == 0,
        index <= last < variants@.len(),
    ensures
        occupant(&occupied, discriminant_at(&variants@[last], last as usize)) is None,
    decreases variants@.len() - index,
{
    reveal_with_fuel(spec_check_discriminants_from, 2);
    let nothing = Seq::<Diagnostic>::empty();
    let variant = &variants@[index as int];
    let discriminant = discriminant_at(variant, index);
    let longer = cons(Occupied { discriminant, name: variant.name }, occupied);
    let reported = match occupant(&occupied, discriminant) {
        Some(previous) => nothing.push(
            report(
                Finding::DuplicateEnumDiscriminant { previous, name: variant.name, discriminant },
                variant.span,
            ),
        ),
        None => nothing,
    };
    lemma_check_discriminants_from(reported, variants, next(index), longer);
    lemma_extends_nothing(
        reported,
        spec_check_discriminants_from(reported, variants, next(index), longer),
    );
    if last > index {
        lemma_last_discriminant(variants, next(index), longer, last);
    }
}

/// In an accepted program no two variants of an enum have the same number.
pub proof fn accepted_discriminants_are_distinct(
    program: &Program,
    facts: &OwnershipFacts,
    index: int,
    first: int,
    second: int,
)
    requires
        is_accepted(program, facts),
        0 <= index < program.definitions@.len(),
        program.definitions@[index].data is Enum,
        0 <= first < second < program.definitions@[index].data->Enum_variants@.len(),
    ensures
        discriminant_at(
            &program.definitions@[index].data->Enum_variants@[first],
            first as usize,
        ) != discriminant_at(
            &program.definitions@[index].data->Enum_variants@[second],
            second as usize,
        ),
{
    lemma_accepted_definition(program, facts, index);
    reveal(spec_check_definition);
    reveal(spec_check_enum_discriminants);
    let nothing = Seq::<Diagnostic>::empty();
    let definition = &program.definitions@[index];
    let variants = &definition.data->Enum_variants;
    let numbered = spec_check_enum_discriminants(nothing, variants);
    let valued = reject_void_payloads_from(numbered, variants@, 0);
    lemma_check_enum_discriminants(nothing, variants);
    lemma_reject_void_payloads(numbered, variants@, 0);
    lemma_check_declared_interfaces(valued, program, definition.declaration, None);
    lemma_extends_nothing(
        valued,
        spec_check_declared_interfaces(valued, program, definition.declaration, None),
    );
    lemma_extends_nothing(numbered, valued);
    lemma_check_discriminants_from(nothing, variants, 0, List::Nil);
    assert(spec_check_discriminants_from(nothing, variants, 0, List::Nil).len() == 0) by {
        if spec_check_discriminants_from(nothing, variants, 0, List::Nil) != numbered {
            let span = first_explicit(variants)->0;
            let reported = nothing.push(report(Finding::EnumPayloadDiscriminantMix, span));
            lemma_check_discriminants_from(reported, variants, 0, List::Nil);
            assert(reported.len() == 1);
        }
    }
    lemma_discriminants_from(variants, 0, List::Nil, first, second);
}

proof fn lemma_first_named(methods: Seq<Method>, name: Name, from: nat)
    requires
        methods.len() <= usize::MAX,
    ensures
        match first_named_from(methods, name, from) {
            Some(index) => forall|other: int|
                from <= other < index ==> (#[trigger] methods[other]).name != name,
            None => true,
        },
    decreases methods.len() - from,
{
    if from < methods.len() && methods[from as int].name != name {
        lemma_first_named(methods, name, from + 1);
    }
}

proof fn lemma_unique_from(methods: &Vec<Method>, index: usize, later: int)
    requires
        spec_reject_duplicates_from(Seq::empty(), methods, index).len() == 0,
        index <= later < methods@.len(),
    ensures
        first_named(methods, methods@[later].name) == Some(later as usize),
    decreases methods@.len() - index,
{
    reveal_with_fuel(spec_reject_duplicates_from, 2);
    let nothing = Seq::<Diagnostic>::empty();
    let method = &methods@[index as int];
    let reported = if first_named(methods, method.name) != Some(index) {
        nothing.push(report(Finding::MethodOverload(method.name), method.span))
    } else {
        nothing
    };
    lemma_reject_duplicates_from(reported, methods, next(index));
    lemma_extends_nothing(reported, spec_reject_duplicates_from(reported, methods, next(index)));
    if index < later {
        lemma_unique_from(methods, next(index), later);
    }
}

/// The methods of a definition whose methods are told apart by their names.
pub open spec fn named_methods(definition: &Definition) -> Seq<Method> {
    match &definition.data {
        DefinitionData::Struct { methods, .. } => methods@,
        DefinitionData::Interface { methods } => methods@,
        DefinitionData::Class { methods, .. } => methods@,
        DefinitionData::Implementation { methods, .. } => methods@,
        _ => Seq::empty(),
    }
}

proof fn lemma_reported_duplicates(
    program: &Program,
    definition: &Definition,
    valued: Seq<Diagnostic>,
    methods: &Vec<Method>,
)
    requires
        spec_check_definition(Seq::empty(), program, definition).len() == 0,
        match &definition.data {
            DefinitionData::Struct { fields, methods: own } => own == methods && valued
                == reject_void_fields_from(Seq::empty(), fields@, 0),
            DefinitionData::Interface { methods: own } => own == methods && valued == Seq::<
                Diagnostic,
            >::empty(),
            DefinitionData::Class { fields, methods: own, .. } => own == methods && valued
                == reject_void_fields_from(Seq::empty(), fields@, 0),
            DefinitionData::Implementation { methods: own, .. } => own == methods
                && valued == Seq::<
                Diagnostic,
            >::empty(),
            _ => false,
        },
    ensures
        spec_reject_duplicates_from(Seq::empty(), methods, 0).len() == 0,
{
    reveal(spec_check_definition);
    reveal(spec_reject_duplicate_methods);
    let nothing = Seq::<Diagnostic>::empty();
    let unique = spec_reject_duplicate_methods(valued, methods);
    lemma_reject_duplicate_methods(valued, methods);
    match &definition.data {
        DefinitionData::Struct { fields, .. } => {
            let checked = check_struct_methods_from(
                unique,
                methods@,
                program,
                definition.declaration,
                0,
            );
            lemma_reject_void_fields(nothing, fields@, 0);
            lemma_check_struct_methods(unique, methods@, program, definition.declaration, 0);
            lemma_check_declared_interfaces(
                checked,
                program,
                definition.declaration,
                Some(methods),
            );
        },
        DefinitionData::Interface { .. } => {
            lemma_check_interface_methods(unique, methods@, program, definition.declaration, 0);
        },
        DefinitionData::Class { base, fields, .. } => {
            lemma_reject_void_fields(nothing, fields@, 0);
            lemma_check_class(unique, program, definition, *base, methods);
        },
        DefinitionData::Implementation { interface, .. } => {
            if let Some(interface) = implemented_interface(interface) {
                lemma_check_implementation(
                    unique,
                    program,
                    definition.declaration,
                    interface,
                    Some(methods),
                );
            }
        },
        _ => {},
    }
    assert(unique.len() == 0);
    assert(valued =~= nothing);
}

/// In an accepted program no two methods of a type, an interface or an implementation have the
/// same name.
pub proof fn accepted_methods_are_not_overloaded(
    program: &Program,
    facts: &OwnershipFacts,
    index: int,
    first: int,
    second: int,
)
    requires
        is_accepted(program, facts),
        0 <= index < program.definitions@.len(),
        0 <= first < second < named_methods(&program.definitions@[index]).len(),
    ensures
        named_methods(&program.definitions@[index])[first].name != named_methods(
            &program.definitions@[index],
        )[second].name,
{
    lemma_accepted_definition(program, facts, index);
    let definition = &program.definitions@[index];
    let nothing = Seq::<Diagnostic>::empty();
    let (valued, methods) = match &definition.data {
        DefinitionData::Struct { fields, methods } => (
            reject_void_fields_from(nothing, fields@, 0),
            methods,
        ),
        DefinitionData::Interface { methods } => (nothing, methods),
        DefinitionData::Class { fields, methods, .. } => (
            reject_void_fields_from(nothing, fields@, 0),
            methods,
        ),
        DefinitionData::Implementation { methods, .. } => (nothing, methods),
        _ => arbitrary(),
    };
    lemma_reported_duplicates(program, definition, valued, methods);
    lemma_unique_from(methods, 0, second);
    assert(methods.len() <= usize::MAX);
    lemma_first_named(methods@, methods@[second].name, 0);
}

/// Whether a method meets a requirement of an interface, for some types that the generic
/// parameters of the interface stand for.
pub open spec fn meets(method: &Method, requirement: &Method, program: &Program) -> bool {
    method.receiver == requirement.receiver && exists|arguments: List<Substitution>|
        (#[trigger] spec_substitutable_interface_signature(
            &method.function,
            &requirement.function,
            program,
            arguments,
        )).matches
}

proof fn lemma_requirements_met(
    program: &Program,
    implementation: DeclarationId,
    requirements: &Vec<Method>,
    methods: Option<&Vec<Method>>,
    index: usize,
    arguments: List<Substitution>,
    later: int,
)
    requires
        spec_check_requirements(
            Seq::empty(),
            program,
            implementation,
            requirements,
            methods,
            index,
            arguments,
        ).len() == 0,
        index <= later < requirements@.len(),
    ensures
        match spec_method_among(methods, requirements@[later].name) {
            Some(method) => meets(method, &requirements@[later], program),
            None => false,
        },
    decreases requirements@.len() - index,
{
    reveal_with_fuel(spec_check_requirements, 2);
    reveal(spec_add_for_declaration);
    let nothing = Seq::<Diagnostic>::empty();
    let requirement = &requirements@[index as int];
    let (reported, known) = match spec_method_among(methods, requirement.name) {
        Some(method) => {
            let matching = spec_substitutable_interface_signature(
                &method.function,
                &requirement.function,
                program,
                arguments,
            );
            let reported = if !matching.matches || method.receiver != requirement.receiver {
                spec_add(
                    nothing,
                    report(Finding::InterfaceMethodMismatch(method.name), method.span),
                )
            } else {
                nothing
            };
            (reported, matching.arguments)
        },
        None => (
            spec_add_for_declaration(
                nothing,
                program,
                implementation,
                Finding::MissingInterfaceMethod(requirement.name),
            ),
            arguments,
        ),
    };
    lemma_check_requirements(
        reported,
        program,
        implementation,
        requirements,
        methods,
        next(index),
        known,
    );
    lemma_extends_nothing(
        reported,
        spec_check_requirements(
            reported,
            program,
            implementation,
            requirements,
            methods,
            next(index),
            known,
        ),
    );
    if index < later {
        lemma_requirements_met(
            program,
            implementation,
            requirements,
            methods,
            next(index),
            known,
            later,
        );
    }
}

/// In an accepted program what an implementation implements is an interface, and it has a method
/// that meets each of the interface's requirements.
pub proof fn accepted_implementations_are_complete(
    program: &Program,
    facts: &OwnershipFacts,
    index: int,
    interface: DeclarationId,
    requirement_index: int,
)
    requires
        is_accepted(program, facts),
        0 <= index < program.definitions@.len(),
        program.definitions@[index].data is Implementation,
        implemented_interface(&program.definitions@[index].data->Implementation_interface) == Some(
            interface,
        ),
        definition_of(program, interface) is Some,
    ensures
        ({
            let data = definition_of(program, interface)->0.data;
            &&& data is Interface
            &&& 0 <= requirement_index < data->Interface_methods@.len() ==> match find_method(
                &program.definitions@[index].data->Implementation_methods,
                data->Interface_methods@[requirement_index].name,
            ) {
                Some(method) => meets(
                    method,
                    &data->Interface_methods@[requirement_index],
                    program,
                ),
                None => false,
            }
        }),
{
    lemma_accepted_definition(program, facts, index);
    reveal(spec_check_definition);
    reveal(spec_reject_duplicate_methods);
    reveal(spec_check_implementation);
    reveal(spec_add_for_declaration);
    reveal(spec_method_among);
    let definition = &program.definitions@[index];
    let nothing = Seq::<Diagnostic>::empty();
    let methods = &definition.data->Implementation_methods;
    let unique = spec_reject_duplicate_methods(nothing, methods);
    lemma_check_implementation(
        unique,
        program,
        definition.declaration,
        interface,
        Some(methods),
    );
    lemma_extends_nothing(
        unique,
        spec_check_implementation(
            unique,
            program,
            definition.declaration,
            interface,
            Some(methods),
        ),
    );
    let data = definition_of(program, interface)->0.data;
    if 0 <= requirement_index < data->Interface_methods@.len() && data is Interface {
        lemma_requirements_met(
            program,
            definition.declaration,
            &data->Interface_methods,
            Some(methods),
            0,
            List::Nil,
            requirement_index,
        );
    }
}

proof fn lemma_accepted_construction(program: &Program, definition: &Definition)
    requires
        spec_check_definition(Seq::empty(), program, definition).len() == 0,
        definition.data is Class,
    ensures
        spec_check_class_construction(
            Seq::empty(),
            program,
            definition.declaration,
            definition.data->Class_base,
            &definition.data->Class_constructor,
            &definition.data->Class_fields,
        ) == Seq::<Diagnostic>::empty(),
{
    reveal(spec_check_definition);
    reveal(spec_check_class);
    reveal(spec_check_class_own_rules);
    let nothing = Seq::<Diagnostic>::empty();
    let data = definition.data;
    let declaration = definition.declaration;
    let methods = &data->Class_methods;
    let first = reject_void_fields_from(nothing, data->Class_fields@, 0);
    let second = spec_reject_duplicate_methods(first, methods);
    let third = spec_check_class_own_rules(second, program, definition);
    lemma_reject_void_fields(nothing, data->Class_fields@, 0);
    lemma_reject_duplicate_methods(first, methods);
    lemma_check_class_own_rules(second, program, definition);
    match data->Class_base {
        Some(base) => {
            if let Some(base_definition) = definition_of(program, base) {
                let fourth = spec_check_base(
                    third,
                    program,
                    declaration,
                    base_definition,
                    methods,
                );
                lemma_check_base(third, program, declaration, base_definition, methods);
                lemma_check_declared_interfaces(fourth, program, declaration, Some(methods));
            }
        },
        None => {
            lemma_check_declared_interfaces(third, program, declaration, Some(methods));
        },
    }
    assert(third.len() == 0);
    lemma_extends_nothing(second, third);
    let built = spec_check_class_construction(
        nothing,
        program,
        declaration,
        data->Class_base,
        &data->Class_constructor,
        &data->Class_fields,
    );
    let ruled = if data->Class_is_abstract && data->Class_is_final {
        spec_add_for_declaration(built, program, declaration, Finding::AbstractFinalClass)
    } else {
        built
    };
    let typed = match &data->Class_constructor {
        Some(constructor) => spec_check_function(
            ruled,
            program,
            declaration,
            &constructor.function,
        ),
        None => ruled,
    };
    lemma_extends_itself(built);
    lemma_add_for_declaration(built, program, declaration, Finding::AbstractFinalClass);
    lemma_extends_itself(ruled);
    if let Some(constructor) = &data->Class_constructor {
        lemma_check_function(ruled, program, declaration, &constructor.function);
    }
    lemma_check_class_methods(
        typed,
        methods@,
        declaration,
        data->Class_is_abstract,
        data->Class_is_final,
        program,
        0,
    );
    assert(typed.len() == 0);
    lemma_extends_nothing(ruled, typed);
    lemma_extends_nothing(built, ruled);
}

/// In an accepted program a class without a constructor has only fields that are optional or have
/// an initial value, and extends nothing that a constructor would have to be called for.
pub proof fn accepted_classes_without_constructor_need_none(
    program: &Program,
    facts: &OwnershipFacts,
    index: int,
)
    requires
        is_accepted(program, facts),
        0 <= index < program.definitions@.len(),
        program.definitions@[index].data is Class,
        program.definitions@[index].data->Class_constructor is None,
    ensures
        required_fields(&program.definitions@[index].data->Class_fields) is Nil,
        is_base_synthesizable(program, program.definitions@[index].data->Class_base),
{
    lemma_accepted_definition(program, facts, index);
    lemma_accepted_construction(program, &program.definitions@[index]);
    reveal(spec_check_class_construction);
    reveal(spec_add_for_declaration);
    let reported = spec_add_for_declaration(
        Seq::empty(),
        program,
        program.definitions@[index].declaration,
        Finding::ConstructorRequired,
    );
    assert(reported.len() == 1);
}

/// In an accepted program a constructor whose code runs to its end has set every field that is
/// neither optional nor has an initial value.
pub proof fn accepted_constructors_set_every_field(
    program: &Program,
    facts: &OwnershipFacts,
    index: int,
    module: &Module,
    set: List<Name>,
    field: int,
)
    requires
        is_accepted(program, facts),
        0 <= index < program.definitions@.len(),
        program.definitions@[index].data is Class,
        program.definitions@[index].data->Class_constructor is Some,
        program.declaration(program.definitions@[index].declaration) is Some,
        program.module(
            program.declaration(program.definitions@[index].declaration)->0.module,
        ) == Some(module),
        0 <= field < program.definitions@[index].data->Class_fields@.len(),
        ({
            let function = program.definitions@[index].data->Class_constructor->0.function;
            let start = spec_first_inside(&module.tokens, function.body_start, 0);
            let end = spec_first_outside(&module.tokens, function.body_end, start);
            let view = ConstructorView {
                tokens: &module.tokens,
                file: module.file,
                required: required_fields(&program.definitions@[index].data->Class_fields),
            };
            spec_analyze_constructor_sequence(Seq::empty(), &view, start, end, List::Nil).1
                == Some(set)
        }),
    ensures
        ({
            let item = program.definitions@[index].data->Class_fields@[field];
            item.optional || item.has_initializer || spec_has_name(&set, item.name)
        }),
{
    lemma_accepted_definition(program, facts, index);
    let definition = &program.definitions@[index];
    lemma_accepted_construction(program, definition);
    reveal(spec_check_class_construction);
    reveal(spec_check_constructor_code);
    let nothing = Seq::<Diagnostic>::empty();
    let data = definition.data;
    let constructor = data->Class_constructor->0;
    let fields = &data->Class_fields;
    let start = spec_first_inside(&module.tokens, constructor.function.body_start, 0);
    let end = spec_first_outside(&module.tokens, constructor.function.body_end, start);
    let view = ConstructorView {
        tokens: &module.tokens,
        file: module.file,
        required: required_fields(fields),
    };
    let has_base = data->Class_base is Some;
    let called = spec_check_super_calls(
        nothing,
        module,
        has_base,
        constructor.span,
        start,
        end,
    );
    lemma_check_super_calls(nothing, module, has_base, constructor.span, start, end);
    let (run, behind) = spec_analyze_constructor_sequence(called, &view, start, end, List::Nil);
    lemma_analyze_constructor_sequence(called, &view, start, end, List::Nil);
    match behind {
        Some(known) => {
            lemma_check_fields_set(run, fields@, &known, 0);
            lemma_extends_nothing(run, check_fields_set_from(run, fields@, &known, 0));
        },
        None => {},
    }
    lemma_extends_nothing(called, run);
    lemma_check_fields_set_item(fields@, &set, 0, field as nat);
}

/// A list of errors is within itself.
pub proof fn effects_are_within_themselves(effects: List<DeclarationId>)
    ensures
        effect_subset(&effects, &effects),
{
    assert forall|id: DeclarationId| spec_list_contains(effects, id) implies spec_list_contains(
        effects,
        id,
    ) by {}
    lemma_effects_within(effects, effects);
}

/// One list of errors is within another exactly if that holds each of its errors.
proof fn lemma_effects_within(left: List<DeclarationId>, right: List<DeclarationId>)
    ensures
        effect_subset(&left, &right) <==> forall|id: DeclarationId|
            spec_list_contains(left, id) ==> spec_list_contains(right, id),
    decreases left,
{
    reveal_with_fuel(spec_effect_subset, 2);
    reveal_with_fuel(spec_list_contains, 2);
    match left {
        List::Nil => {},
        List::Cons(head, tail) => {
            lemma_effects_within(*tail, right);
            assert(spec_list_contains(left, *head));
            assert forall|id: DeclarationId| spec_list_contains(*tail, id) implies
                spec_list_contains(left, id) by {}
        },
    }
}

/// A method that throws no more than another, which throws no more than a third, throws no more
/// than the third.
pub proof fn effects_within_is_transitive(
    first: List<DeclarationId>,
    second: List<DeclarationId>,
    third: List<DeclarationId>,
)
    requires
        effect_subset(&first, &second),
        effect_subset(&second, &third),
    ensures
        effect_subset(&first, &third),
{
    lemma_effects_within(first, second);
    lemma_effects_within(second, third);
    lemma_effects_within(first, third);
}

/// The class that a class extends.
pub open spec fn class_above(program: &Program, class: DeclarationId) -> Option<DeclarationId> {
    extended_class(definition_of(program, class))
}

/// The class that a number of classes stands below, each of which extends the next.
pub open spec fn ancestor(program: &Program, class: DeclarationId, count: nat) -> Option<
    DeclarationId,
> {
    walked(|id: DeclarationId| class_above(program, id), class, count)
}

proof fn lemma_last_definition(definitions: Seq<Definition>, id: DeclarationId, count: nat)
    requires
        count <= definitions.len(),
        last_definition(definitions, id, count) is Some,
    ensures
        exists|index: int|
            0 <= index < definitions.len() && (#[trigger] definitions[index]).declaration == id,
    decreases count,
{
    if definitions[count - 1].declaration != id {
        lemma_last_definition(definitions, id, (count - 1) as nat);
    }
}

proof fn lemma_classes_numbered(program: &Program)
    ensures
        is_numbered(
            |id: DeclarationId| class_above(program, id) is Some,
            |id: DeclarationId| defined_at(program, id),
            program.definitions@.len(),
        ),
{
    assert forall|id: DeclarationId| class_above(program, id) is Some implies 0
        <= #[trigger] defined_at(program, id) < program.definitions@.len()
        && program.definitions@[defined_at(program, id)].declaration == id by {
        lemma_last_definition(program.definitions@, id, program.definitions@.len());
    }
    let inside = |id: DeclarationId| class_above(program, id) is Some;
    let number = |id: DeclarationId| defined_at(program, id);
    assert forall|id: DeclarationId| #[trigger] inside(id) implies 0 <= number(id)
        < program.definitions@.len() by {
        assert(0 <= defined_at(program, id) < program.definitions@.len());
    }
    assert forall|left: DeclarationId, right: DeclarationId|
        #[trigger] inside(left) && #[trigger] inside(right) && number(left) == number(
            right,
        ) implies left == right by {
        assert(program.definitions@[defined_at(program, left)].declaration == left);
        assert(program.definitions@[defined_at(program, right)].declaration == right);
    }
}

proof fn lemma_above_within(
    program: &Program,
    class: DeclarationId,
    above: DeclarationId,
    limit: usize,
)
    ensures
        spec_has_class_above(program, class, above, limit) <==> exists|count: nat|
            0 < count <= limit && #[trigger] ancestor(program, class, count) == Some(above),
    decreases limit,
{
    reveal_with_fuel(spec_has_class_above, 2);
    let step = |id: DeclarationId| class_above(program, id);
    assert(ancestor(program, class, 0) == Some(class));
    assert(ancestor(program, class, 1) == class_above(program, class)) by {
        reveal_with_fuel(walked, 2);
    }
    if limit > 0 {
        match class_above(program, class) {
            Some(base) => {
                lemma_above_within(program, base, above, (limit - 1) as usize);
                if spec_has_class_above(program, class, above, limit) {
                    if base == above {
                        assert(ancestor(program, class, 1) == Some(above));
                    } else {
                        let count = choose|count: nat|
                            0 < count <= limit - 1 && #[trigger] ancestor(program, base, count)
                                == Some(above);
                        lemma_walked_on(step, class, 1, count);
                        assert(ancestor(program, class, 1 + count) == Some(above));
                    }
                }
                if exists|count: nat|
                    0 < count <= limit && #[trigger] ancestor(program, class, count) == Some(
                        above,
                    ) {
                    let count = choose|count: nat|
                        0 < count <= limit && #[trigger] ancestor(program, class, count) == Some(
                            above,
                        );
                    lemma_walked_on(step, class, 1, (count - 1) as nat);
                    assert(1 + (count - 1) as nat == count);
                    assert(ancestor(program, base, (count - 1) as nat) == Some(above));
                    if count == 1 {
                        assert(base == above);
                    }
                }
            },
            None => {
                assert forall|count: nat| 0 < count <= limit implies #[trigger] ancestor(
                    program,
                    class,
                    count,
                ) is None by {
                    if ancestor(program, class, count) is Some {
                        lemma_walked_before(step, class, count, 1);
                    }
                }
            },
        }
    }
}

/// A class is found above another exactly if some number of steps, each from a class to the one
/// that it extends, leads to it. No chain of classes is too long for that.
pub proof fn classes_above_are_found(
    program: &Program,
    class: DeclarationId,
    above: DeclarationId,
)
    ensures
        has_class_above(program, class, above, program.definitions.len()) <==> exists|count: nat|
            count > 0 && #[trigger] ancestor(program, class, count) == Some(above),
{
    lemma_above_within(program, class, above, program.definitions.len());
    if exists|count: nat|
        count > 0 && #[trigger] ancestor(program, class, count) == Some(above) {
        let count = choose|count: nat|
            count > 0 && #[trigger] ancestor(program, class, count) == Some(above);
        lemma_classes_numbered(program);
        let fewer = lemma_reached(
            |id: DeclarationId| class_above(program, id),
            |id: DeclarationId| class_above(program, id) is Some,
            |id: DeclarationId| defined_at(program, id),
            program.definitions@.len(),
            class,
            count,
        );
        assert(ancestor(program, class, fewer) == Some(above));
    }
}

/// Every type is a subtype of itself.
pub proof fn subtyping_is_reflexive(program: &Program, ty: Type)
    ensures
        is_subtype(program, &ty, &ty),
{
    reveal(spec_is_subtype);
}

/// A subtype of a subtype of a type is a subtype of the type.
pub proof fn subtyping_is_transitive(program: &Program, first: Type, second: Type, third: Type)
    requires
        is_subtype(program, &first, &second),
        is_subtype(program, &second, &third),
    ensures
        is_subtype(program, &first, &third),
{
    reveal(spec_is_subtype);
    if first != second && second != third {
        let low = first->Nominal_0;
        let middle = second->Nominal_0;
        let high = third->Nominal_0;
        classes_above_are_found(program, low, middle);
        classes_above_are_found(program, middle, high);
        classes_above_are_found(program, low, high);
        let lower = choose|count: nat|
            count > 0 && #[trigger] ancestor(program, low, count) == Some(middle);
        let upper = choose|count: nat|
            count > 0 && #[trigger] ancestor(program, middle, count) == Some(high);
        lemma_walked_on(|id: DeclarationId| class_above(program, id), low, lower, upper);
        assert(ancestor(program, low, lower + upper) == Some(high));
    }
}

} // verus!
