//! When a function can be called through one that an interface declares.

use vstd::prelude::*;

use crate::acceptance::meaning::{equally_long, lemma_type_count};
use crate::acceptance::members::{
    lemma_parameter_types, lemma_same_list, lemma_throws_within, throws_within,
};
use crate::hir::{Function, Program, Type};
use crate::list::List;
use crate::lowering::emit::parameter_types;
use crate::lowering::types::{lookup, Substitution};
use crate::names::Name;
use crate::signatures::classes::{
    spec_interface_type_matches, spec_interface_types_match, spec_matches_generic,
    spec_substitutable_interface_signature,
};
use crate::signatures::types::is_subtype;

verus! {

/// What the generic parameters of an interface stand for.
pub type Standing = spec_fn(Name) -> Option<Type>;

/// What substitutions say that generic parameters stand for.
pub open spec fn standing_for(arguments: List<Substitution>) -> Standing {
    |name: Name|
        match lookup(&arguments, name) {
            Some(ty) => Some(*ty),
            None => None,
        }
}

/// Whether all that stands for a type stands for the same one elsewhere.
pub open spec fn is_kept(less: Standing, more: Standing) -> bool {
    forall|name: Name| (#[trigger] less(name)) is Some ==> more(name) == less(name)
}

/// Whether a type is an instance of the one that an interface declares, where its generic
/// parameters stand for certain types: each parameter is that type, lifetimes of references and
/// the error types of promises do not matter, and a class may stand for one above it.
pub open spec fn is_instance(
    actual: Type,
    expected: Type,
    program: &Program,
    standing: Standing,
) -> bool
    decreases expected,
{
    match (actual, expected) {
        (_, Type::Generic(name)) => standing(name) == Some(actual),
        (Type::Nominal(own, own_types), Type::Nominal(id, types))
        | (Type::DynamicInterface(own, own_types), Type::DynamicInterface(id, types)) => if own
            == id && equally_long(own_types, types) {
            are_instances(own_types, types, program, standing)
        } else {
            is_subtype(program, &actual, &expected)
        },
        (Type::Optional(own), Type::Optional(other)) | (Type::Slice(own), Type::Slice(other)) =>
            is_instance(*own, *other, program, standing),
        (
            Type::Promise { result: own, effects: own_effects, .. },
            Type::Promise { result: other, effects, .. },
        ) => own_effects.seq() == effects.seq() && is_instance(*own, *other, program, standing),
        (Type::Array(own, own_length), Type::Array(other, length)) => own_length == length
            && is_instance(*own, *other, program, standing),
        (
            Type::Reference { mutable: own_mutable, referent: own, .. },
            Type::Reference { mutable, referent: other, .. },
        ) => own_mutable == mutable && is_instance(*own, *other, program, standing),
        _ => is_subtype(program, &actual, &expected),
    }
}

/// Whether types are instances of others, one after another.
pub open spec fn are_instances(
    actual: List<Type>,
    expected: List<Type>,
    program: &Program,
    standing: Standing,
) -> bool
    decreases expected,
{
    match (actual, expected) {
        (List::Cons(own, own_rest), List::Cons(other, rest)) => is_instance(
            *own,
            *other,
            program,
            standing,
        ) && are_instances(*own_rest, *rest, program, standing),
        _ => true,
    }
}

proof fn lemma_more_instances(
    actual: Type,
    expected: Type,
    program: &Program,
    standing: Standing,
    more: Standing,
)
    requires
        is_kept(standing, more),
        is_instance(actual, expected, program, standing),
    ensures
        is_instance(actual, expected, program, more),
    decreases expected,
{
    match (actual, expected) {
        (Type::Nominal(_, own), Type::Nominal(_, types))
        | (Type::DynamicInterface(_, own), Type::DynamicInterface(_, types)) => {
            if are_instances(own, types, program, standing) {
                lemma_more_are_instances(own, types, program, standing, more);
            }
        },
        (Type::Optional(own), Type::Optional(other))
        | (Type::Slice(own), Type::Slice(other))
        | (Type::Promise { result: own, .. }, Type::Promise { result: other, .. })
        | (Type::Array(own, _), Type::Array(other, _))
        | (Type::Reference { referent: own, .. }, Type::Reference { referent: other, .. }) => {
            lemma_more_instances(*own, *other, program, standing, more);
        },
        (_, Type::Generic(name)) => {
            assert(standing(name) is Some);
        },
        _ => {},
    }
}

proof fn lemma_more_are_instances(
    actual: List<Type>,
    expected: List<Type>,
    program: &Program,
    standing: Standing,
    more: Standing,
)
    requires
        is_kept(standing, more),
        are_instances(actual, expected, program, standing),
    ensures
        are_instances(actual, expected, program, more),
    decreases expected,
{
    match (actual, expected) {
        (List::Cons(own, own_rest), List::Cons(other, rest)) => {
            lemma_more_instances(*own, *other, program, standing, more);
            lemma_more_are_instances(*own_rest, *rest, program, standing, more);
        },
        _ => {},
    }
}

/// A reference to an array of another length, or of another mutability, is no subtype.
proof fn lemma_no_subtype(actual: Type, expected: Type, program: &Program)
    requires
        !(actual is Nominal),
    ensures
        is_subtype(program, &actual, &expected) == (actual == expected),
{
    reveal(crate::signatures::types::spec_is_subtype);
}

/// Matching a type with the one that an interface declares succeeds exactly if the generic
/// parameters can stand for types, among them those that are known, such that it is an instance;
/// what they are then found to stand for makes it one, and holds nothing that was not forced.
pub proof fn matching_finds_instances(
    actual: Type,
    expected: Type,
    program: &Program,
    known: List<Substitution>,
)
    ensures
        ({
            let matching = spec_interface_type_matches(&actual, &expected, program, known);
            &&& is_kept(standing_for(known), standing_for(matching.arguments))
            &&& matching.matches ==> is_instance(
                actual,
                expected,
                program,
                standing_for(matching.arguments),
            )
            &&& forall|standing: Standing|
                is_kept(standing_for(known), standing) && #[trigger] is_instance(
                    actual,
                    expected,
                    program,
                    standing,
                ) ==> matching.matches && is_kept(standing_for(matching.arguments), standing)
        }),
    decreases expected,
{
    reveal_with_fuel(spec_interface_type_matches, 2);
    match (actual, expected) {
        (_, Type::Generic(name)) => {
            reveal(spec_matches_generic);
            let matching = spec_interface_type_matches(&actual, &expected, program, known);
            let found = standing_for(matching.arguments);
            let before = standing_for(known);
            assert forall|other: Name| (#[trigger] before(other)) is Some implies found(other)
                == before(other) by {}
            assert forall|standing: Standing|
                is_kept(before, standing) && #[trigger] is_instance(
                    actual,
                    expected,
                    program,
                    standing,
                ) implies matching.matches && is_kept(found, standing) by {
                assert(before(name) is Some ==> standing(name) == before(name));
                assert forall|other: Name| (#[trigger] found(other)) is Some implies standing(other)
                    == found(other) by {
                    if other != name || before(name) is Some {
                        assert(before(other) == found(other));
                        assert(before(other) is Some ==> standing(other) == before(other));
                    }
                }
            }
        },
        (Type::Nominal(own, own_types), Type::Nominal(id, types))
        | (Type::DynamicInterface(own, own_types), Type::DynamicInterface(id, types)) => {
            lemma_type_count(own_types);
            lemma_type_count(types);
            matching_all_finds_instances(own_types, types, program, known);
            assert forall|standing: Standing| #[trigger] is_instance(
                actual,
                expected,
                program,
                standing,
            ) implies (if own == id && equally_long(own_types, types) {
                are_instances(own_types, types, program, standing)
            } else {
                is_subtype(program, &actual, &expected)
            }) by {}
        },
        (Type::Optional(own), Type::Optional(other)) | (Type::Slice(own), Type::Slice(other)) => {
            matching_finds_instances(*own, *other, program, known);
            assert forall|standing: Standing| #[trigger] is_instance(
                actual,
                expected,
                program,
                standing,
            ) implies is_instance(*own, *other, program, standing) by {}
        },
        (
            Type::Promise { result: own, effects: own_effects, .. },
            Type::Promise { result: other, effects, .. },
        ) => {
            lemma_same_list(own_effects, effects);
            matching_finds_instances(*own, *other, program, known);
            assert forall|standing: Standing| #[trigger] is_instance(
                actual,
                expected,
                program,
                standing,
            ) implies is_instance(*own, *other, program, standing) by {}
        },
        (Type::Array(own, _), Type::Array(other, _)) => {
            lemma_no_subtype(actual, expected, program);
            matching_finds_instances(*own, *other, program, known);
            assert forall|standing: Standing| #[trigger] is_instance(
                actual,
                expected,
                program,
                standing,
            ) implies is_instance(*own, *other, program, standing) by {}
        },
        (
            Type::Reference { mutable: own_mutable, referent: own, .. },
            Type::Reference { mutable, referent: other, .. },
        ) => {
            lemma_no_subtype(actual, expected, program);
            matching_finds_instances(*own, *other, program, known);
            assert forall|standing: Standing| #[trigger] is_instance(
                actual,
                expected,
                program,
                standing,
            ) implies is_instance(*own, *other, program, standing) by {}
        },
        _ => {},
    }
}

/// The same of types that are matched one after another.
pub proof fn matching_all_finds_instances(
    actual: List<Type>,
    expected: List<Type>,
    program: &Program,
    known: List<Substitution>,
)
    ensures
        ({
            let matching = spec_interface_types_match(&actual, &expected, program, known);
            &&& is_kept(standing_for(known), standing_for(matching.arguments))
            &&& matching.matches ==> are_instances(
                actual,
                expected,
                program,
                standing_for(matching.arguments),
            )
            &&& forall|standing: Standing|
                is_kept(standing_for(known), standing) && #[trigger] are_instances(
                    actual,
                    expected,
                    program,
                    standing,
                ) ==> matching.matches && is_kept(standing_for(matching.arguments), standing)
        }),
    decreases expected,
{
    reveal_with_fuel(spec_interface_types_match, 2);
    match (actual, expected) {
        (List::Cons(own, own_rest), List::Cons(other, rest)) => {
            matching_finds_instances(*own, *other, program, known);
            let first = spec_interface_type_matches(&*own, &*other, program, known);
            assert forall|standing: Standing| #[trigger] are_instances(
                actual,
                expected,
                program,
                standing,
            ) implies is_instance(*own, *other, program, standing) && are_instances(
                *own_rest,
                *rest,
                program,
                standing,
            ) by {}
            if first.matches {
                matching_all_finds_instances(*own_rest, *rest, program, first.arguments);
                let matching = spec_interface_types_match(
                    &*own_rest,
                    &*rest,
                    program,
                    first.arguments,
                );
                if matching.matches {
                    lemma_more_instances(
                        *own,
                        *other,
                        program,
                        standing_for(first.arguments),
                        standing_for(matching.arguments),
                    );
                }
            }
        },
        _ => {},
    }
}

/// Whether a function can be called through one that an interface declares: it has as many
/// parameters, which are instances of the declared ones, as its result is; it throws nothing that
/// is not declared; it waits if and only if that is declared; and it is unsafe only if that is
/// declared.
pub open spec fn can_be_called_through(
    function: Function,
    declared: Function,
    program: &Program,
    standing: Standing,
) -> bool {
    &&& function.parameters@.len() == declared.parameters@.len()
    &&& forall|index: int|
        0 <= index < function.parameters@.len() ==> is_instance(
            (#[trigger] function.parameters@[index]).ty,
            declared.parameters@[index].ty,
            program,
            standing,
        )
    &&& is_instance(function.result, declared.result, program, standing)
    &&& throws_within(function.effects, declared.effects)
    &&& function.is_async == declared.is_async
    &&& function.is_unsafe ==> declared.is_unsafe
}

proof fn lemma_instances_by_position(
    actual: List<Type>,
    expected: List<Type>,
    program: &Program,
    standing: Standing,
)
    requires
        actual.seq().len() == expected.seq().len(),
    ensures
        are_instances(actual, expected, program, standing) <==> forall|index: int|
            0 <= index < actual.seq().len() ==> is_instance(
                #[trigger] actual.seq()[index],
                expected.seq()[index],
                program,
                standing,
            ),
    decreases expected,
{
    match (actual, expected) {
        (List::Cons(own, own_rest), List::Cons(other, rest)) => {
            lemma_instances_by_position(*own_rest, *rest, program, standing);
            let left = actual.seq();
            let right = expected.seq();
            assert(left =~= seq![*own] + own_rest.seq());
            assert(right =~= seq![*other] + rest.seq());
            assert(left[0] == *own);
            assert(right[0] == *other);
            assert forall|index: int| 0 <= index < own_rest.seq().len() implies
                #[trigger] own_rest.seq()[index] == left[index + 1] && rest.seq()[index]
                == right[index + 1] by {}
            assert forall|index: int| 0 < index < left.len() implies #[trigger] left[index]
                == own_rest.seq()[index - 1] && right[index] == rest.seq()[index - 1] by {}
            if forall|index: int|
                0 <= index < left.len() ==> is_instance(
                    #[trigger] left[index],
                    right[index],
                    program,
                    standing,
                ) {
                assert forall|index: int| 0 <= index < own_rest.seq().len() implies is_instance(
                    #[trigger] own_rest.seq()[index],
                    rest.seq()[index],
                    program,
                    standing,
                ) by {
                    assert(is_instance(left[index + 1], right[index + 1], program, standing));
                }
                assert(is_instance(left[0], right[0], program, standing));
            }
        },
        (List::Nil, _) => {},
        (_, List::Nil) => {},
    }
}

proof fn lemma_parameters_by_position(
    function: &Function,
    declared: &Function,
    program: &Program,
    standing: Standing,
)
    requires
        function.parameters@.len() == declared.parameters@.len(),
    ensures
        are_instances(
            parameter_types(&function.parameters),
            parameter_types(&declared.parameters),
            program,
            standing,
        ) <==> forall|index: int|
            0 <= index < function.parameters@.len() ==> is_instance(
                (#[trigger] function.parameters@[index]).ty,
                declared.parameters@[index].ty,
                program,
                standing,
            ),
{
    let own = parameter_types(&function.parameters);
    let other = parameter_types(&declared.parameters);
    lemma_parameter_types(&function.parameters);
    lemma_parameter_types(&declared.parameters);
    lemma_instances_by_position(own, other, program, standing);
    assert forall|index: int| 0 <= index < own.seq().len() implies #[trigger] own.seq()[index]
        == function.parameters@[index].ty && other.seq()[index]
        == declared.parameters@[index].ty by {}
    if forall|index: int|
        0 <= index < own.seq().len() ==> is_instance(
            #[trigger] own.seq()[index],
            other.seq()[index],
            program,
            standing,
        ) {
        assert forall|index: int| 0 <= index < function.parameters@.len() implies is_instance(
            (#[trigger] function.parameters@[index]).ty,
            declared.parameters@[index].ty,
            program,
            standing,
        ) by {
            assert(is_instance(own.seq()[index], other.seq()[index], program, standing));
        }
    }
}

/// A function is found to match one that an interface declares exactly if it can be called through
/// it, where the generic parameters stand for types among which are those that are known.
pub proof fn matching_signatures_can_be_called(
    function: &Function,
    declared: &Function,
    program: &Program,
    known: List<Substitution>,
)
    ensures
        ({
            let matching = spec_substitutable_interface_signature(
                function,
                declared,
                program,
                known,
            );
            &&& is_kept(standing_for(known), standing_for(matching.arguments))
            &&& matching.matches ==> can_be_called_through(
                *function,
                *declared,
                program,
                standing_for(matching.arguments),
            )
            &&& forall|standing: Standing|
                is_kept(standing_for(known), standing) && #[trigger] can_be_called_through(
                    *function,
                    *declared,
                    program,
                    standing,
                ) ==> matching.matches && is_kept(standing_for(matching.arguments), standing)
        }),
{
    reveal(spec_substitutable_interface_signature);
    if function.parameters@.len() == declared.parameters@.len() {
        let own = parameter_types(&function.parameters);
        let other = parameter_types(&declared.parameters);
        matching_all_finds_instances(own, other, program, known);
        let parameters = spec_interface_types_match(&own, &other, program, known);
        assert forall|standing: Standing| #[trigger] can_be_called_through(
            *function,
            *declared,
            program,
            standing,
        ) implies are_instances(own, other, program, standing) by {
            lemma_parameters_by_position(function, declared, program, standing);
        }
        if parameters.matches {
            matching_finds_instances(
                function.result,
                declared.result,
                program,
                parameters.arguments,
            );
            lemma_throws_within(function.effects, declared.effects);
            let result = spec_interface_type_matches(
                &function.result,
                &declared.result,
                program,
                parameters.arguments,
            );
            lemma_more_are_instances(
                own,
                other,
                program,
                standing_for(parameters.arguments),
                standing_for(result.arguments),
            );
            lemma_parameters_by_position(
                function,
                declared,
                program,
                standing_for(result.arguments),
            );
        }
    }
}

/// What can be called where parameters stand for certain types can be called where more do.
pub proof fn lemma_callable_with_more(
    function: Function,
    declared: Function,
    program: &Program,
    standing: Standing,
    more: Standing,
)
    requires
        is_kept(standing, more),
        can_be_called_through(function, declared, program, standing),
    ensures
        can_be_called_through(function, declared, program, more),
{
    assert forall|index: int| 0 <= index < function.parameters@.len() implies is_instance(
        (#[trigger] function.parameters@[index]).ty,
        declared.parameters@[index].ty,
        program,
        more,
    ) by {
        lemma_more_instances(
            function.parameters@[index].ty,
            declared.parameters@[index].ty,
            program,
            standing,
            more,
        );
    }
    lemma_more_instances(function.result, declared.result, program, standing, more);
}

} // verus!
