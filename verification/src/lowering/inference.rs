//! What is inferred from a type that parameters were replaced in replaces them in the same way.

use vstd::prelude::*;

use crate::hir::Type;
use crate::list::List;
use crate::lowering::types::{
    all_inferred, all_substituted, inferred, inferring_keeps_what_is_known, lookup, substituted,
    with_default, Substitution,
};
use crate::names::Name;

verus! {

/// Whether the generic parameters and the lifetimes that a type names are among the given ones,
/// and no part of it is a promise.
pub open spec fn names_only(ty: Type, generics: Set<Name>, lifetimes: Set<Name>) -> bool
    decreases ty,
{
    match ty {
        Type::Generic(name) => generics.contains(name),
        Type::Lifetime(name) => lifetimes.contains(name),
        Type::Nominal(_, types)
        | Type::DynamicInterface(_, types)
        | Type::Tuple(types)
        | Type::Template(types) => all_name_only(types, generics, lifetimes),
        Type::Optional(inner)
        | Type::Array(inner, _)
        | Type::Slice(inner)
        | Type::RawPointer { pointee: inner, .. } => names_only(*inner, generics, lifetimes),
        Type::Reference { lifetime, referent, .. } => lifetimes.contains(lifetime) && names_only(
            *referent,
            generics,
            lifetimes,
        ),
        Type::Function(function) => all_name_only(function.parameters, generics, lifetimes)
            && names_only(*function.result, generics, lifetimes),
        Type::Promise { .. } => false,
        _ => true,
    }
}

/// Whether the same holds of each of the types.
pub open spec fn all_name_only(
    types: List<Type>,
    generics: Set<Name>,
    lifetimes: Set<Name>,
) -> bool
    decreases types,
{
    match types {
        List::Nil => true,
        List::Cons(head, tail) => names_only(*head, generics, lifetimes) && all_name_only(
            *tail,
            generics,
            lifetimes,
        ),
    }
}

/// Whether substitutions leave the two lifetimes of the language alone, and replace the given
/// lifetimes by lifetimes only.
pub open spec fn replaces_lifetimes(
    substitutions: List<Substitution>,
    lifetimes: Set<Name>,
) -> bool {
    &&& lookup(&substitutions, Name::Scope) is None
    &&& lookup(&substitutions, Name::Static) is None
    &&& forall|name: Name| #[trigger]
        lifetimes.contains(name) && lookup(&substitutions, name) is Some ==> *lookup(
            &substitutions,
            name,
        )->0 is Lifetime
}

/// Whether what substitutions say of the given names is what others say.
spec fn agrees(
    known: List<Substitution>,
    substitutions: List<Substitution>,
    generics: Set<Name>,
    lifetimes: Set<Name>,
) -> bool {
    forall|name: Name|
        (#[trigger] lookup(&known, name)) is Some ==> (generics.contains(name) ==> *lookup(
            &known,
            name,
        )->0 == substituted(Type::Generic(name), &substitutions)) && (lifetimes.contains(name)
            ==> *lookup(&known, name)->0 == substituted(Type::Lifetime(name), &substitutions))
}

/// Whether substitutions say something of every parameter that a type names.
spec fn is_covered(ty: Type, known: List<Substitution>) -> bool
    decreases ty,
{
    match ty {
        Type::Generic(name) | Type::Lifetime(name) => lookup(&known, name) is Some,
        Type::Nominal(_, types)
        | Type::DynamicInterface(_, types)
        | Type::Tuple(types)
        | Type::Template(types) => are_covered(types, known),
        Type::Optional(inner)
        | Type::Array(inner, _)
        | Type::Slice(inner)
        | Type::RawPointer { pointee: inner, .. } => is_covered(*inner, known),
        Type::Reference { lifetime, referent, .. } => (lifetime == Name::Scope || lifetime
            == Name::Static || lookup(&known, lifetime) is Some) && is_covered(*referent, known),
        Type::Function(function) => are_covered(function.parameters, known) && is_covered(
            *function.result,
            known,
        ),
        _ => true,
    }
}

spec fn are_covered(types: List<Type>, known: List<Substitution>) -> bool
    decreases types,
{
    match types {
        List::Nil => true,
        List::Cons(head, tail) => is_covered(*head, known) && are_covered(*tail, known),
    }
}

/// Whether substitutions say something of all that others say something of.
spec fn knows_more(known: List<Substitution>, more: List<Substitution>) -> bool {
    forall|name: Name|
        lookup(&known, name) is Some ==> (#[trigger] lookup(&more, name)) is Some
}

proof fn lemma_stays_covered(ty: Type, known: List<Substitution>, more: List<Substitution>)
    requires
        is_covered(ty, known),
        knows_more(known, more),
    ensures
        is_covered(ty, more),
    decreases ty,
{
    match ty {
        Type::Nominal(_, types)
        | Type::DynamicInterface(_, types)
        | Type::Tuple(types)
        | Type::Template(types) => {
            lemma_stay_covered(types, known, more);
        },
        Type::Optional(inner)
        | Type::Array(inner, _)
        | Type::Slice(inner)
        | Type::RawPointer { pointee: inner, .. }
        | Type::Reference { referent: inner, .. } => {
            lemma_stays_covered(*inner, known, more);
        },
        Type::Function(function) => {
            lemma_stay_covered(function.parameters, known, more);
            lemma_stays_covered(*function.result, known, more);
        },
        _ => {},
    }
}

proof fn lemma_stay_covered(
    types: List<Type>,
    known: List<Substitution>,
    more: List<Substitution>,
)
    requires
        are_covered(types, known),
        knows_more(known, more),
    ensures
        are_covered(types, more),
    decreases types,
{
    match types {
        List::Nil => {},
        List::Cons(head, tail) => {
            lemma_stays_covered(*head, known, more);
            lemma_stay_covered(*tail, known, more);
        },
    }
}

proof fn lemma_knows_more(template: Type, concrete: Type, known: List<Substitution>)
    ensures
        knows_more(known, inferred(template, concrete, known)),
{
    assert forall|name: Name| lookup(&known, name) is Some implies (#[trigger] lookup(
        &inferred(template, concrete, known),
        name,
    )) is Some by {
        inferring_keeps_what_is_known(template, concrete, known, name);
    }
}

proof fn lemma_all_know_more(
    templates: List<Type>,
    concrete: List<Type>,
    known: List<Substitution>,
)
    ensures
        knows_more(known, all_inferred(templates, concrete, known)),
    decreases templates,
{
    match (templates, concrete) {
        (List::Cons(template, others), List::Cons(ty, types)) => {
            lemma_knows_more(*template, *ty, known);
            lemma_all_know_more(*others, *types, inferred(*template, *ty, known));
        },
        _ => {},
    }
}

proof fn lemma_covered_alike(
    ty: Type,
    known: List<Substitution>,
    substitutions: List<Substitution>,
    generics: Set<Name>,
    lifetimes: Set<Name>,
)
    requires
        names_only(ty, generics, lifetimes),
        replaces_lifetimes(substitutions, lifetimes),
        agrees(known, substitutions, generics, lifetimes),
        is_covered(ty, known),
    ensures
        substituted(ty, &known) == substituted(ty, &substitutions),
    decreases ty,
{
    match ty {
        Type::Nominal(_, types)
        | Type::DynamicInterface(_, types)
        | Type::Tuple(types)
        | Type::Template(types) => {
            lemma_all_covered_alike(types, known, substitutions, generics, lifetimes);
        },
        Type::Optional(inner)
        | Type::Array(inner, _)
        | Type::Slice(inner)
        | Type::RawPointer { pointee: inner, .. } => {
            lemma_covered_alike(*inner, known, substitutions, generics, lifetimes);
        },
        Type::Reference { lifetime, referent, .. } => {
            assert(lifetimes.contains(lifetime));
            assert(lookup(&known, lifetime) is Some || lookup(&known, lifetime) is None);
            lemma_covered_alike(*referent, known, substitutions, generics, lifetimes);
        },
        Type::Function(function) => {
            lemma_all_covered_alike(
                function.parameters,
                known,
                substitutions,
                generics,
                lifetimes,
            );
            lemma_covered_alike(*function.result, known, substitutions, generics, lifetimes);
        },
        _ => {},
    }
}

proof fn lemma_all_covered_alike(
    types: List<Type>,
    known: List<Substitution>,
    substitutions: List<Substitution>,
    generics: Set<Name>,
    lifetimes: Set<Name>,
)
    requires
        all_name_only(types, generics, lifetimes),
        replaces_lifetimes(substitutions, lifetimes),
        agrees(known, substitutions, generics, lifetimes),
        are_covered(types, known),
    ensures
        all_substituted(types, &known) == all_substituted(types, &substitutions),
    decreases types,
{
    match types {
        List::Nil => {},
        List::Cons(head, tail) => {
            lemma_covered_alike(*head, known, substitutions, generics, lifetimes);
            lemma_all_covered_alike(*tail, known, substitutions, generics, lifetimes);
        },
    }
}

proof fn lemma_default_agrees(
    known: List<Substitution>,
    name: Name,
    ty: Type,
    substitutions: List<Substitution>,
    generics: Set<Name>,
    lifetimes: Set<Name>,
)
    requires
        agrees(known, substitutions, generics, lifetimes),
        generics.contains(name) ==> ty == substituted(Type::Generic(name), &substitutions),
        lifetimes.contains(name) ==> ty == substituted(Type::Lifetime(name), &substitutions),
    ensures
        agrees(with_default(known, name, ty), substitutions, generics, lifetimes),
        lookup(&with_default(known, name, ty), name) is Some,
{
    let more = with_default(known, name, ty);
    assert forall|other: Name| (#[trigger] lookup(&more, other)) is Some implies (
    generics.contains(other) ==> *lookup(&more, other)->0 == substituted(
        Type::Generic(other),
        &substitutions,
    )) && (lifetimes.contains(other) ==> *lookup(&more, other)->0 == substituted(
        Type::Lifetime(other),
        &substitutions,
    )) by {
        if other != name {
            assert(lookup(&more, other) == lookup(&known, other));
        }
    }
}

proof fn lemma_inferred_agrees(
    template: Type,
    substitutions: List<Substitution>,
    known: List<Substitution>,
    generics: Set<Name>,
    lifetimes: Set<Name>,
)
    requires
        generics.disjoint(lifetimes),
        names_only(template, generics, lifetimes),
        replaces_lifetimes(substitutions, lifetimes),
        agrees(known, substitutions, generics, lifetimes),
    ensures
        agrees(
            inferred(template, substituted(template, &substitutions), known),
            substitutions,
            generics,
            lifetimes,
        ),
        is_covered(template, inferred(template, substituted(template, &substitutions), known)),
    decreases template,
{
    let concrete = substituted(template, &substitutions);
    match template {
        Type::Generic(name) => {
            assert(!lifetimes.contains(name));
            lemma_default_agrees(known, name, concrete, substitutions, generics, lifetimes);
        },
        Type::Lifetime(name) => {
            assert(!generics.contains(name));
            lemma_default_agrees(known, name, concrete, substitutions, generics, lifetimes);
        },
        Type::Nominal(_, types)
        | Type::DynamicInterface(_, types)
        | Type::Tuple(types)
        | Type::Template(types) => {
            lemma_all_inferred_agree(types, substitutions, known, generics, lifetimes);
        },
        Type::Optional(inner)
        | Type::Array(inner, _)
        | Type::Slice(inner)
        | Type::RawPointer { pointee: inner, .. } => {
            lemma_inferred_agrees(*inner, substitutions, known, generics, lifetimes);
        },
        Type::Reference { lifetime, referent, .. } => {
            assert(lifetimes.contains(lifetime));
            assert(!generics.contains(lifetime));
            let replaced = concrete->Reference_lifetime;
            let named = if lifetime != Name::Scope && lifetime != Name::Static {
                with_default(known, lifetime, Type::Lifetime(replaced))
            } else {
                known
            };
            if lifetime != Name::Scope && lifetime != Name::Static {
                lemma_default_agrees(
                    known,
                    lifetime,
                    Type::Lifetime(replaced),
                    substitutions,
                    generics,
                    lifetimes,
                );
            }
            lemma_inferred_agrees(*referent, substitutions, named, generics, lifetimes);
            lemma_knows_more(*referent, substituted(*referent, &substitutions), named);
        },
        Type::Function(function) => {
            let parameters = function.parameters;
            let shown = all_inferred(
                parameters,
                all_substituted(parameters, &substitutions),
                known,
            );
            lemma_all_inferred_agree(parameters, substitutions, known, generics, lifetimes);
            lemma_inferred_agrees(*function.result, substitutions, shown, generics, lifetimes);
            let result = substituted(*function.result, &substitutions);
            lemma_knows_more(*function.result, result, shown);
            lemma_stay_covered(parameters, shown, inferred(*function.result, result, shown));
        },
        _ => {},
    }
}

proof fn lemma_all_inferred_agree(
    templates: List<Type>,
    substitutions: List<Substitution>,
    known: List<Substitution>,
    generics: Set<Name>,
    lifetimes: Set<Name>,
)
    requires
        generics.disjoint(lifetimes),
        all_name_only(templates, generics, lifetimes),
        replaces_lifetimes(substitutions, lifetimes),
        agrees(known, substitutions, generics, lifetimes),
    ensures
        agrees(
            all_inferred(templates, all_substituted(templates, &substitutions), known),
            substitutions,
            generics,
            lifetimes,
        ),
        are_covered(
            templates,
            all_inferred(templates, all_substituted(templates, &substitutions), known),
        ),
    decreases templates,
{
    match templates {
        List::Nil => {},
        List::Cons(head, tail) => {
            let concrete = substituted(*head, &substitutions);
            let shown = inferred(*head, concrete, known);
            lemma_inferred_agrees(*head, substitutions, known, generics, lifetimes);
            lemma_all_inferred_agree(*tail, substitutions, shown, generics, lifetimes);
            lemma_all_know_more(*tail, all_substituted(*tail, &substitutions), shown);
            lemma_stays_covered(
                *head,
                shown,
                all_inferred(*tail, all_substituted(*tail, &substitutions), shown),
            );
        },
    }
}

/// What is inferred from a type in which parameters were replaced replaces them in the same way,
/// where no generic parameter is named like a lifetime, and nothing stands for the two lifetimes
/// of the language.
pub proof fn inferring_undoes_substituting(
    template: Type,
    substitutions: List<Substitution>,
    generics: Set<Name>,
    lifetimes: Set<Name>,
)
    requires
        names_only(template, generics, lifetimes),
        generics.disjoint(lifetimes),
        replaces_lifetimes(substitutions, lifetimes),
    ensures
        substituted(
            template,
            &inferred(template, substituted(template, &substitutions), List::Nil),
        ) == substituted(template, &substitutions),
{
    lemma_inferred_agrees(template, substitutions, List::Nil, generics, lifetimes);
    lemma_covered_alike(
        template,
        inferred(template, substituted(template, &substitutions), List::Nil),
        substitutions,
        generics,
        lifetimes,
    );
}

} // verus!
