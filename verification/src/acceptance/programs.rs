//! Which programs have accepted signatures.

use vstd::prelude::*;

use crate::acceptance::classes::conforms;
use crate::acceptance::definitions::{
    has_sound_types, is_plainly_copied, is_sound_definition, quiet_check_copies,
    quiet_check_definitions, quiet_check_unsafe_marker_implementations, says_what_is_unchecked,
};
use crate::acceptance::matching::Standing;
use crate::acceptance::meaning::{lemma_unchanged, parameters_suit};
use crate::acceptance::members::{implements, meets_requirement, meets_requirements};
use crate::appending::definitions::{
    lemma_check_copies, lemma_check_copy_implementations, lemma_check_definitions,
    lemma_check_unsafe_marker_implementations,
};
use crate::diagnostics::Diagnostic;
use crate::hir::{DeclarationId, DefinitionData, Method, Program};
use crate::ids::{ascending, lemma_inserted};
use crate::ownership::derive::conformances;
use crate::ownership::facts::OwnershipFacts;
use crate::program::{find_method, nominal_id};
use crate::signatures::definitions::{
    check_definitions_from, in_ascending_order, spec_check_copy_implementations,
    spec_check_program_signatures,
};
use crate::signatures::laws::is_accepted;
use crate::signatures::types::definition_of;

verus! {

/// Whether all definitions of a program are sound, all types in them well formed, all markers that
/// nothing checks said to be so, and all types that are copied plain.
pub open spec fn is_sound_program(program: &Program, facts: &OwnershipFacts) -> bool {
    &&& forall|index: int|
        0 <= index < program.definitions@.len() ==> {
            let definition = #[trigger] program.definitions@[index];
            &&& is_sound_definition(Seq::empty(), program, definition)
            &&& parameters_suit(definition.generics, definition.generics, program)
            &&& has_sound_types(program, definition)
            &&& says_what_is_unchecked(program, definition)
        }
    &&& forall|id: DeclarationId| #[trigger]
        facts.copy@.contains(id) ==> is_plainly_copied(id, program, facts)
}

proof fn lemma_ordered(ids: Seq<DeclarationId>, count: nat)
    requires
        count <= ids.len(),
    ensures
        ascending(in_ascending_order(ids, count)),
        forall|id: DeclarationId| #[trigger]
            in_ascending_order(ids, count).contains(id) <==> ids.take(count as int).contains(id),
    decreases count,
{
    if count > 0 {
        let less = (count - 1) as nat;
        let before = in_ascending_order(ids, less);
        lemma_ordered(ids, less);
        lemma_inserted(before, ids[count - 1]);
        assert(ids.take(count as int) =~= ids.take(less as int).push(ids[count - 1]));
        assert forall|id: DeclarationId| #[trigger]
            in_ascending_order(ids, count).contains(id) <==> ids.take(count as int).contains(
                id,
            ) by {
            assert(before.contains(id) <==> ids.take(less as int).contains(id));
            let longer = ids.take(count as int);
            if ids.take(less as int).contains(id) {
                let place = choose|place: int|
                    0 <= place < less && #[trigger] ids.take(less as int)[place] == id;
                assert(longer[place] == id);
            }
            if id == ids[count - 1] {
                assert(longer[count - 1] == id);
            }
            if longer.contains(id) {
                let place = choose|place: int| 0 <= place < count && #[trigger] longer[place] == id;
                if place < less {
                    assert(ids.take(less as int)[place] == id);
                }
            }
        }
    }
}

/// The signatures of a program are accepted exactly if the program is sound.
pub proof fn exactly_sound_programs_are_accepted(program: &Program, facts: &OwnershipFacts)
    ensures
        is_accepted(program, facts) <==> is_sound_program(program, facts),
{
    reveal(spec_check_program_signatures);
    reveal(spec_check_copy_implementations);
    let nothing = Seq::<Diagnostic>::empty();
    let definitions = program.definitions@;
    let first = check_definitions_from(nothing, definitions, program, 0);
    let second = spec_check_copy_implementations(first, program, facts);
    let ordered = in_ascending_order(facts.copy@, facts.copy@.len());
    lemma_check_definitions(nothing, definitions, program, 0);
    quiet_check_definitions(nothing, definitions, program, 0);
    lemma_unchanged(nothing, first);
    lemma_check_copy_implementations(first, program, facts);
    lemma_check_copies(first, ordered, program, facts, 0);
    quiet_check_copies(first, ordered, program, facts, 0);
    lemma_unchanged(first, second);
    lemma_check_unsafe_marker_implementations(second, definitions, program, 0);
    quiet_check_unsafe_marker_implementations(second, definitions, program, 0);
    lemma_ordered(facts.copy@, facts.copy@.len());
    assert(facts.copy@.take(facts.copy@.len() as int) =~= facts.copy@);
    if is_accepted(program, facts) {
        assert forall|id: DeclarationId| #[trigger]
            facts.copy@.contains(id) implies is_plainly_copied(id, program, facts) by {
            assert(ordered.contains(id));
            let place = choose|place: int| 0 <= place < ordered.len() && ordered[place] == id;
            assert(is_plainly_copied(ordered[place], program, facts));
        }
    }
    if is_sound_program(program, facts) {
        assert forall|index: int|
            0 <= index < ordered.len() implies is_plainly_copied(
            #[trigger] ordered[index],
            program,
            facts,
        ) by {
            assert(ordered.contains(ordered[index]));
            assert(facts.copy@.contains(ordered[index]));
        }
    }
}

/// Whether a definition implements an interface: as an implementation of it, or as a struct or a
/// class that conforms to it. A class counts only where what it extends is defined.
pub open spec fn implementing_methods(
    program: &Program,
    index: int,
    interface: DeclarationId,
) -> Option<Vec<Method>> {
    let definition = program.definitions@[index];
    match definition.data {
        DefinitionData::Implementation { interface: Some(ty), methods, .. } => if nominal_id(&ty)
            == Some(interface) {
            Some(methods)
        } else {
            None
        },
        DefinitionData::Struct { methods, .. } => if conformances(
            program,
            definition.declaration,
        ).contains(interface) {
            Some(methods)
        } else {
            None
        },
        DefinitionData::Class { methods, base, .. } => if (base is None || definition_of(
            program,
            base->0,
        ) is Some) && conformances(program, definition.declaration).contains(interface) {
            Some(methods)
        } else {
            None
        },
        _ => None,
    }
}

/// In an accepted program what stands for a method of an interface can be called as that method is:
/// there is a method of that name, which takes the same object and as many arguments, throws only
/// what the interface declares, waits exactly where the interface says so, and is unsafe only where
/// the interface says so.
pub proof fn accepted_methods_keep_to_their_interface(
    program: &Program,
    facts: &OwnershipFacts,
    index: int,
    interface: DeclarationId,
    place: int,
)
    requires
        is_accepted(program, facts),
        0 <= index < program.definitions@.len(),
        implementing_methods(program, index, interface) is Some,
        match definition_of(program, interface) {
            Some(definition) => match definition.data {
                DefinitionData::Interface { methods } => 0 <= place < methods@.len(),
                _ => false,
            },
            None => false,
        },
    ensures
        ({
            let methods = implementing_methods(program, index, interface)->0;
            let requirement = definition_of(
                program,
                interface,
            )->0.data->Interface_methods@[place];
            match find_method(&methods, requirement.name) {
                Some(method) => {
                    let own = method.function;
                    let declared = requirement.function;
                    &&& method.receiver == requirement.receiver
                    &&& own.parameters@.len() == declared.parameters@.len()
                    &&& forall|error: DeclarationId| #[trigger]
                        own.effects.seq().contains(error) ==> declared.effects.seq().contains(error)
                    &&& own.is_async == declared.is_async
                    &&& own.is_unsafe ==> declared.is_unsafe
                },
                None => false,
            }
        }),
{
    exactly_sound_programs_are_accepted(program, facts);
    let definition = program.definitions@[index];
    let methods = implementing_methods(program, index, interface)->0;
    assert(is_sound_definition(Seq::empty(), program, definition));
    if !(definition.data is Implementation) {
        let listed = conformances(program, definition.declaration);
        assert(conforms(Some(&methods), program, definition.declaration));
        let position = choose|position: int|
            0 <= position < listed.len() && listed[position] == interface;
        assert(implements(Some(&methods), listed[position], program));
    }
    assert(implements(Some(&methods), interface, program));
    let requirements = definition_of(program, interface)->0.data->Interface_methods;
    let standing = choose|standing: Standing| #[trigger]
        meets_requirements(Some(&methods), requirements@, program, standing, 0);
    assert(meets_requirement(Some(&methods), requirements@[place], program, standing));
    let own = find_method(&methods, requirements@[place].name)->0.function;
    let declared = requirements@[place].function;
    assert forall|error: DeclarationId| #[trigger]
        own.effects.seq().contains(error) implies declared.effects.seq().contains(error) by {
        let position = choose|position: int|
            0 <= position < own.effects.seq().len() && own.effects.seq()[position] == error;
        assert(declared.effects.seq().contains(own.effects.seq()[position]));
    }
}

} // verus!
