//! What the ownership properties of types have to do with each other.

use vstd::prelude::*;

use crate::hir::{
    AttributeKind, DeclarationId, Definition, DefinitionData, Field, PrimitiveType, Program, Type,
};
use crate::ids::{inserted, lemma_lower_bound, lower_bound};
use crate::list::List;
use crate::names::Name;
use crate::ownership::derive::{
    all_structurally_safe, all_within, are_facts_of, conformances, consistent, data_safe, explicit,
    fields_safe, is_aggregate, justified, lemma_structurally_safe_grows, listed_interfaces,
    structural, structurally_safe, target_safe, with_class_interfaces, with_conformances,
    with_named_interfaces,
};
use crate::ownership::facts::{
    all_copy, all_in, all_thread_safe, any_drops, any_in, thread_safe, OwnershipFacts,
};
use crate::program::resolve_interface_name;

verus! {

proof fn lemma_all_in(list: List<DeclarationId>, ids: Seq<DeclarationId>)
    ensures
        all_in(list, ids) <==> forall|index: int|
            0 <= index < list.seq().len() ==> ids.contains(#[trigger] list.seq()[index]),
        any_in(list, ids) <==> exists|index: int|
            0 <= index < list.seq().len() && ids.contains(#[trigger] list.seq()[index]),
        all_within(list, ids.to_set()) <==> all_in(list, ids),
    decreases list,
{
    match list {
        List::Nil => {},
        List::Cons(head, tail) => {
            lemma_all_in(*tail, ids);
            let all = list.seq();
            let rest = tail.seq();
            assert(all =~= seq![*head] + rest);
            assert(all[0] == *head);
            assert forall|index: int| 0 <= index < rest.len() implies #[trigger] rest[index]
                == all[index + 1] by {}
            assert forall|index: int| 0 < index < all.len() implies #[trigger] all[index]
                == rest[index - 1] by {}
            if any_in(*tail, ids) {
                let index = choose|index: int|
                    0 <= index < rest.len() && ids.contains(#[trigger] rest[index]);
                assert(ids.contains(all[index + 1]));
            }
            if forall|index: int|
                0 <= index < all.len() ==> ids.contains(#[trigger] all[index]) {
                assert forall|index: int| 0 <= index < rest.len() implies ids.contains(
                    #[trigger] rest[index],
                ) by {
                    assert(ids.contains(all[index + 1]));
                }
                assert(ids.contains(all[0]));
            }
            if exists|index: int| 0 <= index < all.len() && ids.contains(#[trigger] all[index]) {
                let index = choose|index: int|
                    0 <= index < all.len() && ids.contains(#[trigger] all[index]);
                if index > 0 {
                    assert(ids.contains(rest[index - 1]));
                }
            }
        },
    }
}

proof fn lemma_each(list: List<Type>, facts: &OwnershipFacts, shared: bool)
    ensures
        all_copy(facts.copy@, list) <==> forall|index: int|
            0 <= index < list.seq().len() ==> facts.is_copy(&#[trigger] list.seq()[index]),
        any_drops(facts.drop@, list) <==> exists|index: int|
            0 <= index < list.seq().len() && facts.has_drop(&#[trigger] list.seq()[index]),
        all_thread_safe(facts.send@, facts.sync@, shared, list) <==> forall|index: int|
            0 <= index < list.seq().len() ==> thread_safe(
                facts.send@,
                facts.sync@,
                shared,
                #[trigger] list.seq()[index],
            ),
    decreases list,
{
    match list {
        List::Nil => {},
        List::Cons(head, tail) => {
            lemma_each(*tail, facts, shared);
            let all = list.seq();
            let rest = tail.seq();
            assert(all =~= seq![*head] + rest);
            assert(all[0] == *head);
            assert forall|index: int| 0 <= index < rest.len() implies #[trigger] rest[index]
                == all[index + 1] by {}
            assert forall|index: int| 0 < index < all.len() implies #[trigger] all[index]
                == rest[index - 1] by {}
            if exists|index: int|
                0 <= index < rest.len() && facts.has_drop(&#[trigger] rest[index]) {
                let index = choose|index: int|
                    0 <= index < rest.len() && facts.has_drop(&#[trigger] rest[index]);
                assert(facts.has_drop(&all[index + 1]));
            }
            if exists|index: int|
                0 <= index < all.len() && facts.has_drop(&#[trigger] all[index]) {
                let index = choose|index: int|
                    0 <= index < all.len() && facts.has_drop(&#[trigger] all[index]);
                if index > 0 {
                    assert(facts.has_drop(&rest[index - 1]));
                }
            }
            if forall|index: int|
                0 <= index < all.len() ==> facts.is_copy(&#[trigger] all[index]) {
                assert forall|index: int| 0 <= index < rest.len() implies facts.is_copy(
                    &#[trigger] rest[index],
                ) by {
                    assert(facts.is_copy(&all[index + 1]));
                }
                assert(facts.is_copy(&all[0]));
            }
            if forall|index: int|
                0 <= index < all.len() ==> thread_safe(
                    facts.send@,
                    facts.sync@,
                    shared,
                    #[trigger] all[index],
                ) {
                assert forall|index: int| 0 <= index < rest.len() implies thread_safe(
                    facts.send@,
                    facts.sync@,
                    shared,
                    #[trigger] rest[index],
                ) by {
                    assert(thread_safe(facts.send@, facts.sync@, shared, all[index + 1]));
                }
                assert(thread_safe(facts.send@, facts.sync@, shared, all[0]));
            }
        },
    }
}

/// A composed type is copied exactly if its parts are; a reference exactly if it is shared; plain
/// values, raw pointers and functions always; what owns memory, is dynamic or is not known never.
pub proof fn copying_goes_by_parts(
    facts: &OwnershipFacts,
    part: Type,
    parts: List<Type>,
    ids: List<DeclarationId>,
    id: DeclarationId,
    length: u64,
    name: Name,
    plain: PrimitiveType,
)
    ensures
        facts.is_copy(&Type::Primitive(plain)),
        !facts.is_copy(&Type::String),
        !facts.is_copy(&Type::Str),
        !facts.is_copy(&Type::Generic(name)),
        !facts.is_copy(&Type::Lifetime(name)),
        !facts.is_copy(&Type::Error),
        !facts.is_copy(&Type::Unknown),
        !facts.is_copy(&Type::Slice(Box::new(part))),
        !facts.is_copy(&Type::DynamicInterface(id, parts)),
        forall|error: Type|
            !facts.is_copy(
                &(#[trigger] Type::Promise {
                    result: Box::new(part),
                    error: Box::new(error),
                    effects: ids,
                }),
            ),
        forall|function: crate::hir::FunctionType|
            facts.is_copy(&#[trigger] Type::Function(function)),
        forall|mutable: bool|
            facts.is_copy(&#[trigger] Type::RawPointer { mutable, pointee: Box::new(part) }),
        !facts.is_copy(
            &Type::Reference { mutable: true, lifetime: name, referent: Box::new(part) },
        ),
        facts.is_copy(
            &Type::Reference { mutable: false, lifetime: name, referent: Box::new(part) },
        ),
        facts.is_copy(&Type::Optional(Box::new(part))) == facts.is_copy(&part),
        facts.is_copy(&Type::Array(Box::new(part), length)) == facts.is_copy(&part),
        facts.is_copy(&Type::Nominal(id, parts)) == facts.copy@.contains(id),
        facts.is_copy(&Type::Tuple(parts)) <==> forall|index: int|
            0 <= index < parts.seq().len() ==> facts.is_copy(&#[trigger] parts.seq()[index]),
        facts.is_copy(&Type::Template(parts)) == facts.is_copy(&Type::Tuple(parts)),
        facts.is_copy(&Type::ErrorUnion(ids)) <==> forall|index: int|
            0 <= index < ids.seq().len() ==> facts.copy@.contains(#[trigger] ids.seq()[index]),
{
    lemma_each(parts, facts, false);
    lemma_all_in(ids, facts.copy@);
}

/// Something must be done when a composed value goes away exactly if that holds of one of its
/// parts; of references, pointers, functions, plain and dynamic values never; of an owned string
/// always.
pub proof fn dropping_goes_by_parts(
    facts: &OwnershipFacts,
    part: Type,
    parts: List<Type>,
    ids: List<DeclarationId>,
    id: DeclarationId,
    length: u64,
    name: Name,
    plain: PrimitiveType,
)
    ensures
        facts.has_drop(&Type::String),
        !facts.has_drop(&Type::Primitive(plain)),
        !facts.has_drop(&Type::Str),
        !facts.has_drop(&Type::Generic(name)),
        !facts.has_drop(&Type::Lifetime(name)),
        !facts.has_drop(&Type::Error),
        !facts.has_drop(&Type::Unknown),
        !facts.has_drop(&Type::Slice(Box::new(part))),
        !facts.has_drop(&Type::DynamicInterface(id, parts)),
        forall|function: crate::hir::FunctionType|
            !facts.has_drop(&#[trigger] Type::Function(function)),
        forall|mutable: bool|
            !facts.has_drop(&#[trigger] Type::RawPointer { mutable, pointee: Box::new(part) }),
        forall|mutable: bool|
            !facts.has_drop(
                &#[trigger] Type::Reference { mutable, lifetime: name, referent: Box::new(part) },
            ),
        facts.has_drop(&Type::Optional(Box::new(part))) == facts.has_drop(&part),
        facts.has_drop(&Type::Array(Box::new(part), length)) == facts.has_drop(&part),
        facts.has_drop(&Type::Nominal(id, parts)) == facts.drop@.contains(id),
        facts.has_drop(&Type::Tuple(parts)) <==> exists|index: int|
            0 <= index < parts.seq().len() && facts.has_drop(&#[trigger] parts.seq()[index]),
        facts.has_drop(&Type::Template(parts)) == facts.has_drop(&Type::Tuple(parts)),
        facts.has_drop(&Type::ErrorUnion(ids)) <==> exists|index: int|
            0 <= index < ids.seq().len() && facts.drop@.contains(#[trigger] ids.seq()[index]),
        forall|error: Type|
            facts.has_drop(
                &(#[trigger] Type::Promise {
                    result: Box::new(part),
                    error: Box::new(error),
                    effects: ids,
                }),
            ) == (facts.has_drop(&part) || facts.has_drop(&Type::ErrorUnion(ids))),
{
    lemma_each(parts, facts, false);
    lemma_all_in(ids, facts.drop@);
}

/// A shared reference is sent exactly if its referent is shared, a mutable one exactly if its
/// referent is sent, and either is shared exactly if its referent is. Otherwise a composed type is
/// sent, or shared, exactly if its parts are, and a declared one if it is marked as well.
pub proof fn crossing_threads_goes_by_parts(
    facts: &OwnershipFacts,
    part: Type,
    parts: List<Type>,
    ids: List<DeclarationId>,
    id: DeclarationId,
    length: u64,
    name: Name,
    plain: PrimitiveType,
)
    ensures
        facts.is_send(
            &Type::Reference { mutable: false, lifetime: name, referent: Box::new(part) },
        ) == facts.is_sync(&part),
        facts.is_send(
            &Type::Reference { mutable: true, lifetime: name, referent: Box::new(part) },
        ) == facts.is_send(&part),
        forall|mutable: bool|
            facts.is_sync(
                &#[trigger] Type::Reference { mutable, lifetime: name, referent: Box::new(part) },
            ) == facts.is_sync(&part),
        forall|mutable: bool|
            !facts.is_send(&#[trigger] Type::RawPointer { mutable, pointee: Box::new(part) })
                && !facts.is_sync(
                &Type::RawPointer { mutable, pointee: Box::new(part) },
            ),
        forall|function: crate::hir::FunctionType|
            facts.is_send(&#[trigger] Type::Function(function)) && facts.is_sync(
                &Type::Function(function),
            ),
        facts.is_send(&Type::Primitive(plain)) && facts.is_sync(&Type::Primitive(plain)),
        facts.is_send(&Type::String) && facts.is_sync(&Type::String),
        facts.is_send(&Type::Str) && facts.is_sync(&Type::Str),
        !facts.is_send(&Type::DynamicInterface(id, parts)),
        !facts.is_sync(&Type::DynamicInterface(id, parts)),
        !facts.is_send(&Type::Generic(name)) && !facts.is_sync(&Type::Generic(name)),
        !facts.is_send(&Type::Lifetime(name)) && !facts.is_sync(&Type::Lifetime(name)),
        !facts.is_send(&Type::Error) && !facts.is_sync(&Type::Error),
        !facts.is_send(&Type::Unknown) && !facts.is_sync(&Type::Unknown),
        facts.is_send(&Type::Optional(Box::new(part))) == facts.is_send(&part),
        facts.is_sync(&Type::Optional(Box::new(part))) == facts.is_sync(&part),
        facts.is_send(&Type::Array(Box::new(part), length)) == facts.is_send(&part),
        facts.is_sync(&Type::Array(Box::new(part), length)) == facts.is_sync(&part),
        facts.is_send(&Type::Slice(Box::new(part))) == facts.is_send(&part),
        facts.is_sync(&Type::Slice(Box::new(part))) == facts.is_sync(&part),
        facts.is_send(&Type::Tuple(parts)) <==> forall|index: int|
            0 <= index < parts.seq().len() ==> facts.is_send(&#[trigger] parts.seq()[index]),
        facts.is_sync(&Type::Tuple(parts)) <==> forall|index: int|
            0 <= index < parts.seq().len() ==> facts.is_sync(&#[trigger] parts.seq()[index]),
        facts.is_send(&Type::Template(parts)) == facts.is_send(&Type::Tuple(parts)),
        facts.is_sync(&Type::Template(parts)) == facts.is_sync(&Type::Tuple(parts)),
        facts.is_send(&Type::Nominal(id, parts)) == (facts.send@.contains(id) && facts.is_send(
            &Type::Tuple(parts),
        )),
        facts.is_sync(&Type::Nominal(id, parts)) == (facts.sync@.contains(id) && facts.is_sync(
            &Type::Tuple(parts),
        )),
        facts.is_send(&Type::ErrorUnion(ids)) <==> forall|index: int|
            0 <= index < ids.seq().len() ==> facts.send@.contains(#[trigger] ids.seq()[index]),
        facts.is_sync(&Type::ErrorUnion(ids)) <==> forall|index: int|
            0 <= index < ids.seq().len() ==> facts.sync@.contains(#[trigger] ids.seq()[index]),
        forall|error: Type|
            facts.is_send(
                &(#[trigger] Type::Promise {
                    result: Box::new(part),
                    error: Box::new(error),
                    effects: ids,
                }),
            ) == (facts.is_send(&part) && facts.is_send(&Type::ErrorUnion(ids))),
        forall|error: Type|
            facts.is_sync(
                &(#[trigger] Type::Promise {
                    result: Box::new(part),
                    error: Box::new(error),
                    effects: ids,
                }),
            ) == (facts.is_sync(&part) && facts.is_sync(&Type::ErrorUnion(ids))),
{
    reveal_with_fuel(thread_safe, 3);
    lemma_each(parts, facts, false);
    lemma_each(parts, facts, true);
    lemma_all_in(ids, facts.send@);
    lemma_all_in(ids, facts.sync@);
}

/// A type with a plain value in the place of each generic parameter and lifetime.
pub open spec fn instantiated(ty: Type) -> Type
    decreases ty,
{
    match ty {
        Type::Generic(_) | Type::Lifetime(_) => Type::Primitive(PrimitiveType::Void),
        Type::Reference { mutable, lifetime, referent } => Type::Reference {
            mutable,
            lifetime,
            referent: Box::new(instantiated(*referent)),
        },
        Type::Optional(inner) => Type::Optional(Box::new(instantiated(*inner))),
        Type::Array(inner, length) => Type::Array(Box::new(instantiated(*inner)), length),
        Type::Slice(inner) => Type::Slice(Box::new(instantiated(*inner))),
        Type::Promise { result, error, effects } => Type::Promise {
            result: Box::new(instantiated(*result)),
            error,
            effects,
        },
        Type::Tuple(elements) => Type::Tuple(all_instantiated(elements)),
        Type::Template(elements) => Type::Template(all_instantiated(elements)),
        Type::Nominal(id, arguments) => Type::Nominal(id, all_instantiated(arguments)),
        _ => ty,
    }
}

/// Types with a plain value in the place of each generic parameter and lifetime.
pub open spec fn all_instantiated(types: List<Type>) -> List<Type>
    decreases types,
{
    match types {
        List::Nil => List::Nil,
        List::Cons(head, tail) => List::Cons(
            Box::new(instantiated(*head)),
            Box::new(all_instantiated(*tail)),
        ),
    }
}

proof fn lemma_structure(ty: Type, shared: bool, facts: &OwnershipFacts)
    ensures
        structurally_safe(ty, shared, facts.send@.to_set(), facts.sync@.to_set()) == thread_safe(
            facts.send@,
            facts.sync@,
            shared,
            instantiated(ty),
        ),
    decreases ty,
{
    match ty {
        Type::Reference { mutable, referent, .. } => {
            lemma_structure(*referent, shared || !mutable, facts);
        },
        Type::Optional(inner) | Type::Array(inner, _) | Type::Slice(inner) => {
            lemma_structure(*inner, shared, facts);
        },
        Type::Promise { result, effects, .. } => {
            lemma_structure(*result, shared, facts);
            lemma_all_in(effects, facts.send@);
            lemma_all_in(effects, facts.sync@);
        },
        Type::Tuple(elements) | Type::Template(elements) => {
            lemma_all_structure(elements, shared, facts);
        },
        Type::Nominal(_, arguments) => {
            lemma_all_structure(arguments, shared, facts);
        },
        Type::ErrorUnion(effects) => {
            lemma_all_in(effects, facts.send@);
            lemma_all_in(effects, facts.sync@);
        },
        _ => {},
    }
}

proof fn lemma_all_structure(types: List<Type>, shared: bool, facts: &OwnershipFacts)
    ensures
        all_structurally_safe(
            types,
            shared,
            facts.send@.to_set(),
            facts.sync@.to_set(),
        ) == all_thread_safe(facts.send@, facts.sync@, shared, all_instantiated(types)),
    decreases types,
{
    match types {
        List::Nil => {},
        List::Cons(head, tail) => {
            lemma_structure(*head, shared, facts);
            lemma_all_structure(*tail, shared, facts);
        },
    }
}

/// Whether a value of a definition holds a value of a type: in a field, or in a field of a
/// variant.
pub open spec fn holds(data: DefinitionData, ty: Type) -> bool {
    match data {
        DefinitionData::Struct { fields, .. } | DefinitionData::Class { fields, .. } =>
            has_field_of(fields@, ty),
        DefinitionData::Enum { variants, .. } => exists|index: int|
            0 <= index < variants@.len() && has_field_of(
                (#[trigger] variants@[index]).fields@,
                ty,
            ),
        _ => false,
    }
}

/// Whether one of the fields is of a type.
pub open spec fn has_field_of(fields: Seq<Field>, ty: Type) -> bool {
    exists|index: int| 0 <= index < fields.len() && (#[trigger] fields[index]).ty == ty
}

proof fn lemma_fields_safe(fields: Seq<Field>, shared: bool, facts: &OwnershipFacts)
    ensures
        fields_safe(fields, shared, facts.send@.to_set(), facts.sync@.to_set()) <==> forall|
            ty: Type,
        | #[trigger]
            has_field_of(fields, ty) ==> thread_safe(
                facts.send@,
                facts.sync@,
                shared,
                instantiated(ty),
            ),
{
    assert forall|index: int| 0 <= index < fields.len() implies has_field_of(
        fields,
        (#[trigger] fields[index]).ty,
    ) && structurally_safe(
        fields[index].ty,
        shared,
        facts.send@.to_set(),
        facts.sync@.to_set(),
    ) == thread_safe(facts.send@, facts.sync@, shared, instantiated(fields[index].ty)) by {
        lemma_structure(fields[index].ty, shared, facts);
    }
}

proof fn lemma_data_safe(data: DefinitionData, shared: bool, facts: &OwnershipFacts)
    requires
        is_aggregate(&data),
    ensures
        data_safe(data, shared, facts.send@.to_set(), facts.sync@.to_set()) <==> forall|ty: Type|
            #[trigger] holds(data, ty) ==> thread_safe(
                facts.send@,
                facts.sync@,
                shared,
                instantiated(ty),
            ),
{
    match data {
        DefinitionData::Struct { fields, .. } | DefinitionData::Class { fields, .. } => {
            lemma_fields_safe(fields@, shared, facts);
            assert forall|ty: Type| #[trigger] holds(data, ty) == has_field_of(fields@, ty) by {}
            if forall|ty: Type| #[trigger]
                holds(data, ty) ==> thread_safe(
                    facts.send@,
                    facts.sync@,
                    shared,
                    instantiated(ty),
                ) {
                assert forall|ty: Type| #[trigger] has_field_of(fields@, ty) implies thread_safe(
                    facts.send@,
                    facts.sync@,
                    shared,
                    instantiated(ty),
                ) by {
                    assert(holds(data, ty));
                }
            }
        },
        DefinitionData::Enum { variants, .. } => {
            assert forall|index: int| 0 <= index < variants@.len() implies (fields_safe(
                (#[trigger] variants@[index]).fields@,
                shared,
                facts.send@.to_set(),
                facts.sync@.to_set(),
            ) <==> forall|ty: Type| #[trigger]
                has_field_of(variants@[index].fields@, ty) ==> thread_safe(
                    facts.send@,
                    facts.sync@,
                    shared,
                    instantiated(ty),
                )) by {
                lemma_fields_safe(variants@[index].fields@, shared, facts);
            }
            if data_safe(data, shared, facts.send@.to_set(), facts.sync@.to_set()) {
                assert forall|ty: Type| #[trigger] holds(data, ty) implies thread_safe(
                    facts.send@,
                    facts.sync@,
                    shared,
                    instantiated(ty),
                ) by {
                    let index = choose|index: int|
                        0 <= index < variants@.len() && has_field_of(
                            (#[trigger] variants@[index]).fields@,
                            ty,
                        );
                    assert(has_field_of(variants@[index].fields@, ty));
                }
            }
            if forall|ty: Type| #[trigger]
                holds(data, ty) ==> thread_safe(
                    facts.send@,
                    facts.sync@,
                    shared,
                    instantiated(ty),
                ) {
                assert forall|index: int| 0 <= index < variants@.len() implies fields_safe(
                    (#[trigger] variants@[index]).fields@,
                    shared,
                    facts.send@.to_set(),
                    facts.sync@.to_set(),
                ) by {
                    assert forall|ty: Type| #[trigger]
                        has_field_of(variants@[index].fields@, ty) implies thread_safe(
                        facts.send@,
                        facts.sync@,
                        shared,
                        instantiated(ty),
                    ) by {
                        assert(holds(data, ty));
                    }
                }
            }
        },
        _ => {},
    }
}

proof fn lemma_target_safe(
    program: &Program,
    target: DeclarationId,
    shared: bool,
    facts: &OwnershipFacts,
    send: Set<DeclarationId>,
    sync: Set<DeclarationId>,
)
    requires
        facts.send@.to_set().subset_of(send),
        facts.sync@.to_set().subset_of(sync),
        target_safe(program, target, shared, facts.send@.to_set(), facts.sync@.to_set()),
    ensures
        target_safe(program, target, shared, send, sync),
{
    assert forall|index: int|
        0 <= index < program.definitions@.len() && (
        #[trigger] program.definitions@[index]).declaration == target implies data_safe(
        program.definitions@[index].data,
        shared,
        send,
        sync,
    ) by {
        let data = program.definitions@[index].data;
        assert(data_safe(data, shared, facts.send@.to_set(), facts.sync@.to_set()));
        assert forall|ty: Type| structurally_safe(
            ty,
            shared,
            facts.send@.to_set(),
            facts.sync@.to_set(),
        ) implies #[trigger] structurally_safe(ty, shared, send, sync) by {
            lemma_structurally_safe_grows(
                ty,
                shared,
                facts.send@.to_set(),
                facts.sync@.to_set(),
                send,
                sync,
            );
        }
        match data {
            DefinitionData::Enum { variants, .. } => {
                assert forall|place: int| 0 <= place < variants@.len() implies fields_safe(
                    (#[trigger] variants@[place]).fields@,
                    shared,
                    send,
                    sync,
                ) by {
                    assert(fields_safe(
                        variants@[place].fields@,
                        shared,
                        facts.send@.to_set(),
                        facts.sync@.to_set(),
                    ));
                }
            },
            _ => {},
        }
    }
}

proof fn lemma_justified_is_marked(
    program: &Program,
    facts: OwnershipFacts,
    target: DeclarationId,
    shared: bool,
)
    requires
        are_facts_of(program, facts),
        justified(program, target, shared, facts.send@.to_set(), facts.sync@.to_set()),
    ensures
        if shared {
            facts.sync@.contains(target)
        } else {
            facts.send@.contains(target)
        },
{
    let send = if shared {
        facts.send@.to_set()
    } else {
        facts.send@.to_set().insert(target)
    };
    let sync = if shared {
        facts.sync@.to_set().insert(target)
    } else {
        facts.sync@.to_set()
    };
    assert forall|other: DeclarationId, of_shared: bool|
        justified(
            program,
            other,
            of_shared,
            facts.send@.to_set(),
            facts.sync@.to_set(),
        ) implies #[trigger] justified(program, other, of_shared, send, sync) by {
        if target_safe(program, other, of_shared, facts.send@.to_set(), facts.sync@.to_set()) {
            lemma_target_safe(program, other, of_shared, &facts, send, sync);
        }
    }
    assert(consistent(program, send, sync)) by {
        assert forall|other: DeclarationId| #[trigger] send.contains(other) implies justified(
            program,
            other,
            false,
            send,
            sync,
        ) by {
            if other != target || shared {
                assert(facts.send@.to_set().contains(other));
            }
        }
        assert forall|other: DeclarationId| #[trigger] sync.contains(other) implies justified(
            program,
            other,
            true,
            send,
            sync,
        ) by {
            if other != target || !shared {
                assert(facts.sync@.to_set().contains(other));
            }
        }
    }
    if shared {
        assert(sync.contains(target));
        assert(facts.sync@.to_set().contains(target));
    } else {
        assert(send.contains(target));
        assert(facts.send@.to_set().contains(target));
    }
}

/// Whether everything that is defined under a declaration is a struct, an enum or a class, and
/// something is.
pub open spec fn defines_only_aggregates(program: &Program, target: DeclarationId) -> bool {
    &&& exists|index: int|
        0 <= index < program.definitions@.len() && (
        #[trigger] program.definitions@[index]).declaration == target
    &&& forall|index: int|
        0 <= index < program.definitions@.len() && (
        #[trigger] program.definitions@[index]).declaration == target ==> (
        program.definitions@[index].data is Struct || program.definitions@[index].data is Enum
            || program.definitions@[index].data is Class)
}

/// Whether a value of a declared type holds a value of a type.
pub open spec fn declared_holds(program: &Program, target: DeclarationId, ty: Type) -> bool {
    exists|index: int|
        0 <= index < program.definitions@.len() && (
        #[trigger] program.definitions@[index]).declaration == target && holds(
            program.definitions@[index].data,
            ty,
        )
}

proof fn lemma_aggregate_safe(
    program: &Program,
    target: DeclarationId,
    shared: bool,
    facts: &OwnershipFacts,
)
    requires
        defines_only_aggregates(program, target),
    ensures
        structural(program, target),
        target_safe(program, target, shared, facts.send@.to_set(), facts.sync@.to_set())
            <==> forall|ty: Type| #[trigger]
            declared_holds(program, target, ty) ==> thread_safe(
                facts.send@,
                facts.sync@,
                shared,
                instantiated(ty),
            ),
{
    let send = facts.send@.to_set();
    let sync = facts.sync@.to_set();
    assert forall|index: int|
        0 <= index < program.definitions@.len() && (
        #[trigger] program.definitions@[index]).declaration == target implies (data_safe(
        program.definitions@[index].data,
        shared,
        send,
        sync,
    ) <==> forall|ty: Type| #[trigger]
        holds(program.definitions@[index].data, ty) ==> thread_safe(
            facts.send@,
            facts.sync@,
            shared,
            instantiated(ty),
        )) by {
        lemma_data_safe(program.definitions@[index].data, shared, facts);
    }
    if target_safe(program, target, shared, send, sync) {
        assert forall|ty: Type| #[trigger] declared_holds(program, target, ty) implies thread_safe(
            facts.send@,
            facts.sync@,
            shared,
            instantiated(ty),
        ) by {
            let index = choose|index: int|
                0 <= index < program.definitions@.len() && (
                #[trigger] program.definitions@[index]).declaration == target && holds(
                    program.definitions@[index].data,
                    ty,
                );
            assert(data_safe(program.definitions@[index].data, shared, send, sync));
        }
    }
    if forall|ty: Type| #[trigger]
        declared_holds(program, target, ty) ==> thread_safe(
            facts.send@,
            facts.sync@,
            shared,
            instantiated(ty),
        ) {
        assert forall|index: int|
            0 <= index < program.definitions@.len() && (
            #[trigger] program.definitions@[index]).declaration == target implies data_safe(
            program.definitions@[index].data,
            shared,
            send,
            sync,
        ) by {
            assert forall|ty: Type| #[trigger]
                holds(program.definitions@[index].data, ty) implies thread_safe(
                facts.send@,
                facts.sync@,
                shared,
                instantiated(ty),
            ) by {
                assert(declared_holds(program, target, ty));
            }
        }
    }
}

/// A struct, an enum or a class is sent exactly if it is declared to be, or every type that it
/// holds is sent, where its parameters stand for plain values. The same goes for sharing.
pub proof fn aggregates_cross_threads_with_what_they_hold(
    program: &Program,
    facts: OwnershipFacts,
    target: DeclarationId,
)
    requires
        are_facts_of(program, facts),
        defines_only_aggregates(program, target),
    ensures
        facts.is_send(&Type::Nominal(target, List::Nil)) <==> explicit(program, Name::Send, target)
            || forall|ty: Type| #[trigger]
            declared_holds(program, target, ty) ==> facts.is_send(&instantiated(ty)),
        facts.is_sync(&Type::Nominal(target, List::Nil)) <==> explicit(program, Name::Sync, target)
            || forall|ty: Type| #[trigger]
            declared_holds(program, target, ty) ==> facts.is_sync(&instantiated(ty)),
{
    lemma_aggregate_safe(program, target, false, &facts);
    lemma_aggregate_safe(program, target, true, &facts);
    reveal_with_fuel(thread_safe, 2);
    reveal_with_fuel(all_thread_safe, 2);
    let send = facts.send@.to_set();
    let sync = facts.sync@.to_set();
    if justified(program, target, false, send, sync) {
        lemma_justified_is_marked(program, facts, target, false);
    }
    if justified(program, target, true, send, sync) {
        lemma_justified_is_marked(program, facts, target, true);
    }
    if facts.send@.contains(target) {
        assert(send.contains(target));
    }
    if facts.sync@.contains(target) {
        assert(sync.contains(target));
    }
}

proof fn lemma_instantiated_stays(facts: &OwnershipFacts, ty: Type, shared: bool)
    ensures
        thread_safe(facts.send@, facts.sync@, shared, ty) ==> thread_safe(
            facts.send@,
            facts.sync@,
            shared,
            instantiated(ty),
        ),
    decreases ty,
{
    match ty {
        Type::Reference { mutable, referent, .. } => {
            lemma_instantiated_stays(facts, *referent, shared || !mutable);
        },
        Type::Optional(inner) | Type::Array(inner, _) | Type::Slice(inner) => {
            lemma_instantiated_stays(facts, *inner, shared);
        },
        Type::Promise { result, .. } => {
            lemma_instantiated_stays(facts, *result, shared);
        },
        Type::Tuple(types) | Type::Template(types) | Type::Nominal(_, types) => {
            lemma_all_instantiated_stay(facts, types, shared);
        },
        _ => {},
    }
}

proof fn lemma_all_instantiated_stay(facts: &OwnershipFacts, types: List<Type>, shared: bool)
    ensures
        all_thread_safe(facts.send@, facts.sync@, shared, types) ==> all_thread_safe(
            facts.send@,
            facts.sync@,
            shared,
            all_instantiated(types),
        ),
    decreases types,
{
    match types {
        List::Nil => {},
        List::Cons(head, tail) => {
            lemma_instantiated_stays(facts, *head, shared);
            lemma_all_instantiated_stay(facts, *tail, shared);
        },
    }
}

/// A type all of whose fields are sent is sent, and one all of whose fields are shared is shared.
pub proof fn fields_that_cross_threads_hold_nothing_back(
    program: &Program,
    facts: OwnershipFacts,
    target: DeclarationId,
)
    requires
        are_facts_of(program, facts),
        defines_only_aggregates(program, target),
    ensures
        (forall|ty: Type| #[trigger]
            declared_holds(program, target, ty) ==> facts.is_send(&ty)) ==> facts.is_send(
            &Type::Nominal(target, List::Nil),
        ),
        (forall|ty: Type| #[trigger]
            declared_holds(program, target, ty) ==> facts.is_sync(&ty)) ==> facts.is_sync(
            &Type::Nominal(target, List::Nil),
        ),
{
    aggregates_cross_threads_with_what_they_hold(program, facts, target);
    assert forall|ty: Type| #[trigger] declared_holds(program, target, ty) implies (facts.is_send(
        &ty,
    ) ==> facts.is_send(&instantiated(ty))) && (facts.is_sync(&ty) ==> facts.is_sync(
        &instantiated(ty),
    )) by {
        lemma_instantiated_stays(&facts, ty, false);
        lemma_instantiated_stays(&facts, ty, true);
    }
}

/// Whether a type holds neither declared types nor what does not cross threads: plain values,
/// strings and functions.
pub open spec fn is_plain(ty: Type) -> bool {
    ty is Primitive || ty is String || ty is Str || ty is Function
}

/// A type that holds only plain values, strings and functions is sent and shared.
pub proof fn plain_aggregates_cross_threads(
    program: &Program,
    facts: OwnershipFacts,
    target: DeclarationId,
)
    requires
        are_facts_of(program, facts),
        defines_only_aggregates(program, target),
        forall|ty: Type| #[trigger] declared_holds(program, target, ty) ==> is_plain(ty),
    ensures
        facts.send@.contains(target),
        facts.sync@.contains(target),
{
    reveal_with_fuel(thread_safe, 2);
    fields_that_cross_threads_hold_nothing_back(program, facts, target);
}

/// A type that is not declared to be sent and holds a raw pointer, or a reference to what is not
/// shared, is not sent.
pub proof fn what_holds_back_is_not_sent(
    program: &Program,
    facts: OwnershipFacts,
    target: DeclarationId,
    ty: Type,
)
    requires
        are_facts_of(program, facts),
        defines_only_aggregates(program, target),
        declared_holds(program, target, ty),
    ensures
        !explicit(program, Name::Send, target) && !facts.is_send(&instantiated(ty))
            ==> !facts.send@.contains(target),
        !explicit(program, Name::Sync, target) && !facts.is_sync(&instantiated(ty))
            ==> !facts.sync@.contains(target),
{
    aggregates_cross_threads_with_what_they_hold(program, facts, target);
    reveal_with_fuel(thread_safe, 2);
    reveal_with_fuel(all_thread_safe, 2);
}

/// The declarations that carry a marker, as facts hold them.
pub open spec fn marked_with(facts: OwnershipFacts, marker: Name) -> Seq<DeclarationId> {
    match marker {
        Name::Copy => facts.copy@,
        Name::Drop => facts.drop@,
        Name::Send => facts.send@,
        _ => facts.sync@,
    }
}

/// Whether a name is one of the four markers.
pub open spec fn is_marker(name: Name) -> bool {
    name == Name::Copy || name == Name::Drop || name == Name::Send || name == Name::Sync
}

proof fn lemma_explicit_is_marked(
    program: &Program,
    facts: OwnershipFacts,
    marker: Name,
    target: DeclarationId,
)
    requires
        are_facts_of(program, facts),
        is_marker(marker),
        explicit(program, marker, target),
    ensures
        marked_with(facts, marker).contains(target),
{
    if marker == Name::Send {
        lemma_justified_is_marked(program, facts, target, false);
    }
    if marker == Name::Sync {
        lemma_justified_is_marked(program, facts, target, true);
    }
}

/// An implementation of an interface that is named like a marker gives the type that it is for
/// the marker.
pub proof fn implementations_mark_their_target(
    program: &Program,
    facts: OwnershipFacts,
    marker: Name,
    index: int,
)
    requires
        are_facts_of(program, facts),
        is_marker(marker),
        0 <= index < program.definitions@.len(),
        program.definitions@[index].data is Implementation,
        program.definitions@[index].data->Implementation_interface is Some,
        program.definitions@[index].data->Implementation_interface->0 is Nominal,
        program.definitions@[index].data->target is Nominal,
        program.declared_name(
            program.definitions@[index].data->Implementation_interface->0->Nominal_0,
        ) == Some(marker),
    ensures
        marked_with(facts, marker).contains(
            program.definitions@[index].data->target->Nominal_0,
        ),
{
    let target = program.definitions@[index].data->target->Nominal_0;
    assert(crate::ownership::derive::definition_marks(
        program,
        program.definitions@[index],
        marker,
        target,
    ));
    lemma_explicit_is_marked(program, facts, marker, target);
}

/// Whether an attribute of a declaration gives it a marker: one that is the marker itself and has
/// no arguments, which sending and sharing do not have, or a conformance that names the marker.
pub open spec fn is_attributed(program: &Program, target: DeclarationId, marker: Name) -> bool {
    match program.declaration(target) {
        Some(declaration) => exists|index: int|
            0 <= index < declaration.attributes@.len() && {
                let attribute = #[trigger] declaration.attributes@[index];
                ||| attribute.kind == AttributeKind::Copy && marker == Name::Copy
                    && attribute.arguments@.len() == 0
                ||| attribute.kind == AttributeKind::Drop && marker == Name::Drop
                    && attribute.arguments@.len() == 0
                ||| attribute.kind == AttributeKind::Conform && attribute.arguments@.contains(
                    marker,
                )
            },
        None => false,
    }
}

proof fn lemma_attributed(program: &Program, target: DeclarationId, marker: Name)
    requires
        is_marker(marker),
    ensures
        is_attributed(program, target, marker) == crate::ownership::derive::has_marker(
            program,
            target,
            marker,
        ),
{
    if let Some(declaration) = program.declaration(target) {
        assert forall|index: int| 0 <= index < declaration.attributes@.len() implies {
            let attribute = #[trigger] declaration.attributes@[index];
            crate::ownership::derive::attribute_marks(&attribute, marker) == {
                ||| attribute.kind == AttributeKind::Copy && marker == Name::Copy
                    && attribute.arguments@.len() == 0
                ||| attribute.kind == AttributeKind::Drop && marker == Name::Drop
                    && attribute.arguments@.len() == 0
                ||| attribute.kind == AttributeKind::Conform && attribute.arguments@.contains(
                    marker,
                )
            }
        } by {}
        if is_attributed(program, target, marker) {
            let index = choose|index: int|
                0 <= index < declaration.attributes@.len() && {
                    let attribute = #[trigger] declaration.attributes@[index];
                    ||| attribute.kind == AttributeKind::Copy && marker == Name::Copy
                        && attribute.arguments@.len() == 0
                    ||| attribute.kind == AttributeKind::Drop && marker == Name::Drop
                        && attribute.arguments@.len() == 0
                    ||| attribute.kind == AttributeKind::Conform && attribute.arguments@.contains(
                        marker,
                    )
                };
            assert(crate::ownership::derive::attribute_marks(
                &declaration.attributes@[index],
                marker,
            ));
        }
    }
}

proof fn lemma_insert_contains(
    ids: Seq<DeclarationId>,
    id: DeclarationId,
    other: DeclarationId,
)
    ensures
        inserted(ids, id).contains(other) <==> ids.contains(other) || other == id,
{
    lemma_lower_bound(ids, id, 0);
    let place = lower_bound(ids, id, 0) as int;
    let result = inserted(ids, id);
    if result != ids {
        if ids.contains(other) {
            let index = choose|index: int| 0 <= index < ids.len() && ids[index] == other;
            if index < place {
                assert(result[index] == other);
            } else {
                assert(result[index + 1] == other);
            }
        }
        assert(result[place] == id);
        if result.contains(other) {
            let index = choose|index: int| 0 <= index < result.len() && result[index] == other;
            if index < place {
                assert(ids[index] == other);
            } else if index > place {
                assert(ids[index - 1] == other);
            }
        }
    } else if place < ids.len() && ids[place] == id {
        assert(ids.contains(id));
    } else {
        assert(result.len() == ids.len() + 1);
    }
}

/// Whether a type is a declared one, or the dynamic form of an interface.
pub open spec fn is_named_by(ty: Type, id: DeclarationId) -> bool {
    match ty {
        Type::Nominal(named, _) | Type::DynamicInterface(named, _) => named == id,
        _ => false,
    }
}

proof fn lemma_class_interfaces(
    interfaces: Seq<DeclarationId>,
    types: Seq<Type>,
    from: nat,
    id: DeclarationId,
)
    ensures
        with_class_interfaces(interfaces, types, from).contains(id) <==> interfaces.contains(id)
            || exists|index: int|
            from <= index < types.len() && is_named_by(#[trigger] types[index], id),
    decreases types.len() - from,
{
    if from < types.len() {
        let named = crate::program::nominal_id(&types[from as int]);
        let more = match named {
            Some(other) => inserted(interfaces, other),
            None => interfaces,
        };
        if let Some(other) = named {
            lemma_insert_contains(interfaces, other, id);
        }
        lemma_class_interfaces(more, types, from + 1, id);
    }
}

proof fn lemma_named_interfaces(
    program: &Program,
    module: crate::hir::ModuleId,
    interfaces: Seq<DeclarationId>,
    names: Seq<Name>,
    from: nat,
    id: DeclarationId,
)
    ensures
        with_named_interfaces(program, module, interfaces, names, from).contains(id)
            <==> interfaces.contains(id) || exists|index: int|
            from <= index < names.len() && resolve_interface_name(
                program,
                module,
                #[trigger] names[index],
            ) == Some(id),
    decreases names.len() - from,
{
    if from < names.len() {
        let named = resolve_interface_name(program, module, names[from as int]);
        let more = match named {
            Some(other) => inserted(interfaces, other),
            None => interfaces,
        };
        if let Some(other) = named {
            lemma_insert_contains(interfaces, other, id);
        }
        lemma_named_interfaces(program, module, more, names, from + 1, id);
    }
}

/// Whether a declaration says that it conforms to an interface: a conformance attribute of it has
/// an argument that stands for the interface in its module.
pub open spec fn says_to_conform(
    program: &Program,
    target: DeclarationId,
    interface: DeclarationId,
) -> bool {
    match program.declaration(target) {
        Some(declaration) => exists|index: int, argument: int|
            0 <= index < declaration.attributes@.len() && declaration.attributes@[index].kind
                == AttributeKind::Conform && 0 <= argument
                < declaration.attributes@[index].arguments@.len() && resolve_interface_name(
                program,
                declaration.module,
                #[trigger] declaration.attributes@[index].arguments@[argument],
            ) == Some(interface),
        None => false,
    }
}

/// Whether a class lists an interface.
pub open spec fn lists(program: &Program, target: DeclarationId, interface: DeclarationId) -> bool {
    match program.definition(target) {
        Some(definition) => match definition.data {
            DefinitionData::Class { interfaces, .. } => exists|index: int|
                0 <= index < interfaces@.len() && is_named_by(
                    #[trigger] interfaces@[index],
                    interface,
                ),
            _ => false,
        },
        None => false,
    }
}

proof fn lemma_conformances_from(
    program: &Program,
    module: crate::hir::ModuleId,
    interfaces: Seq<DeclarationId>,
    attributes: Seq<crate::hir::Attribute>,
    from: nat,
    id: DeclarationId,
)
    ensures
        with_conformances(program, module, interfaces, attributes, from).contains(id)
            <==> interfaces.contains(id) || exists|index: int, argument: int|
            from <= index < attributes.len() && attributes[index].kind == AttributeKind::Conform
                && 0 <= argument < attributes[index].arguments@.len() && resolve_interface_name(
                program,
                module,
                #[trigger] attributes[index].arguments@[argument],
            ) == Some(id),
    decreases attributes.len() - from,
{
    if from < attributes.len() {
        let attribute = attributes[from as int];
        let more = if attribute.kind == AttributeKind::Conform {
            with_named_interfaces(program, module, interfaces, attribute.arguments@, 0)
        } else {
            interfaces
        };
        if attribute.kind == AttributeKind::Conform {
            lemma_named_interfaces(program, module, interfaces, attribute.arguments@, 0, id);
            if more.contains(id) && !interfaces.contains(id) {
                let argument = choose|argument: int|
                    0 <= argument < attribute.arguments@.len() && resolve_interface_name(
                        program,
                        module,
                        #[trigger] attribute.arguments@[argument],
                    ) == Some(id);
                assert(resolve_interface_name(
                    program,
                    module,
                    attributes[from as int].arguments@[argument],
                ) == Some(id));
            }
        }
        lemma_conformances_from(program, module, more, attributes, from + 1, id);
    }
}

/// A declared type conforms exactly to the interfaces that its class lists and those that its
/// conformance attributes name.
pub proof fn conformances_are_listed_or_attributed(
    program: &Program,
    target: DeclarationId,
    interface: DeclarationId,
)
    ensures
        conformances(program, target).contains(interface) <==> lists(program, target, interface)
            || says_to_conform(program, target, interface),
{
    let listed = listed_interfaces(program, target);
    assert(listed.contains(interface) <==> lists(program, target, interface)) by {
        if let Some(definition) = program.definition(target) {
            if let DefinitionData::Class { interfaces, .. } = definition.data {
                lemma_class_interfaces(Seq::empty(), interfaces@, 0, interface);
            }
        }
    }
    if let Some(declaration) = program.declaration(target) {
        lemma_conformances_from(
            program,
            declaration.module,
            listed,
            declaration.attributes@,
            0,
            interface,
        );
    }
}

/// Whether a definition gives a type a marker: it defines the type, which carries the marker as an
/// attribute, or is a struct, an enum or a class that conforms to an interface of that name; or it
/// implements an interface of that name for the type.
pub open spec fn gives_marker(
    program: &Program,
    definition: Definition,
    marker: Name,
    target: DeclarationId,
) -> bool {
    ||| definition.declaration == target && is_attributed(program, target, marker)
    ||| definition.declaration == target && (definition.data is Struct || definition.data is Enum
        || definition.data is Class) && exists|interface: DeclarationId|
        program.declared_name(interface) == Some(marker) && (#[trigger] lists(
            program,
            target,
            interface,
        ) || says_to_conform(program, target, interface))
    ||| match definition.data {
        DefinitionData::Implementation {
            interface: Some(Type::Nominal(interface, _)),
            target: Type::Nominal(own, _),
            ..
        } => own == target && program.declared_name(interface) == Some(marker),
        _ => false,
    }
}

proof fn lemma_gives_marker(
    program: &Program,
    definition: Definition,
    marker: Name,
    target: DeclarationId,
)
    requires
        is_marker(marker),
    ensures
        gives_marker(program, definition, marker, target)
            == crate::ownership::derive::definition_marks(program, definition, marker, target),
{
    lemma_attributed(program, target, marker);
    let named = conformances(program, target);
    if crate::ownership::derive::some_is_marker(program, named, marker) {
        let index = choose|index: int|
            0 <= index < named.len() && program.declared_name(#[trigger] named[index]) == Some(
                marker,
            );
        assert(named.contains(named[index]));
        conformances_are_listed_or_attributed(program, target, named[index]);
        assert(lists(program, target, named[index]) || says_to_conform(
            program,
            target,
            named[index],
        ));
    }
    if exists|interface: DeclarationId|
        program.declared_name(interface) == Some(marker) && (#[trigger] lists(
            program,
            target,
            interface,
        ) || says_to_conform(program, target, interface)) {
        let interface = choose|interface: DeclarationId|
            program.declared_name(interface) == Some(marker) && (#[trigger] lists(
                program,
                target,
                interface,
            ) || says_to_conform(program, target, interface));
        conformances_are_listed_or_attributed(program, target, interface);
        let index = choose|index: int| 0 <= index < named.len() && named[index] == interface;
        assert(program.declared_name(named[index]) == Some(marker));
    }
    let implemented = crate::ownership::derive::implementation_marks(
        program,
        definition.data,
        marker,
    );
    match definition.data {
        DefinitionData::Implementation {
            interface: Some(Type::Nominal(interface, _)),
            target: Type::Nominal(own, _),
            ..
        } => {
            assert(implemented == if program.declared_name(interface) == Some(marker) {
                Some(own)
            } else {
                None
            });
        },
        _ => {
            assert(implemented is None);
        },
    }
}

proof fn lemma_explicit(program: &Program, marker: Name, target: DeclarationId)
    requires
        is_marker(marker),
    ensures
        explicit(program, marker, target) <==> exists|index: int|
            0 <= index < program.definitions@.len() && gives_marker(
                program,
                #[trigger] program.definitions@[index],
                marker,
                target,
            ),
{
    assert forall|index: int| 0 <= index < program.definitions@.len() implies gives_marker(
        program,
        #[trigger] program.definitions@[index],
        marker,
        target,
    ) == crate::ownership::derive::definition_marks(
        program,
        program.definitions@[index],
        marker,
        target,
    ) by {
        lemma_gives_marker(program, program.definitions@[index], marker, target);
    }
    if explicit(program, marker, target) {
        let index = choose|index: int|
            0 <= index < program.definitions@.len()
                && crate::ownership::derive::definition_marks(
                program,
                #[trigger] program.definitions@[index],
                marker,
                target,
            );
        assert(gives_marker(program, program.definitions@[index], marker, target));
    }
    if exists|index: int|
        0 <= index < program.definitions@.len() && gives_marker(
            program,
            #[trigger] program.definitions@[index],
            marker,
            target,
        ) {
        let index = choose|index: int|
            0 <= index < program.definitions@.len() && gives_marker(
                program,
                #[trigger] program.definitions@[index],
                marker,
                target,
            );
        assert(crate::ownership::derive::definition_marks(
            program,
            program.definitions@[index],
            marker,
            target,
        ));
    }
}

/// A type is copied, or has a destructor, exactly if a definition gives it that marker. What is
/// given the marker for sending or for sharing has it, and what has it without being given it is a
/// struct, an enum or a class.
pub proof fn markers_are_given(
    program: &Program,
    facts: OwnershipFacts,
    marker: Name,
    target: DeclarationId,
)
    requires
        are_facts_of(program, facts),
        is_marker(marker),
    ensures
        (exists|index: int|
            0 <= index < program.definitions@.len() && gives_marker(
                program,
                #[trigger] program.definitions@[index],
                marker,
                target,
            )) ==> marked_with(facts, marker).contains(target),
        marked_with(facts, marker).contains(target) ==> (exists|index: int|
            0 <= index < program.definitions@.len() && gives_marker(
                program,
                #[trigger] program.definitions@[index],
                marker,
                target,
            )) || ((marker == Name::Send || marker == Name::Sync) && exists|index: int|
            0 <= index < program.definitions@.len() && (
            #[trigger] program.definitions@[index]).declaration == target && (
            program.definitions@[index].data is Struct || program.definitions@[index].data is Enum
                || program.definitions@[index].data is Class)),
{
    lemma_explicit(program, marker, target);
    if explicit(program, marker, target) {
        lemma_explicit_is_marked(program, facts, marker, target);
    }
    if marked_with(facts, marker).contains(target) {
        if marker == Name::Send {
            assert(facts.send@.to_set().contains(target));
        }
        if marker == Name::Sync {
            assert(facts.sync@.to_set().contains(target));
        }
    }
}

} // verus!
