//! How ownership facts follow from the declarations of a program.
//!
//! `Copy` and `Drop` hold of the types that declare them. `Send` and `Sync` hold of the types that
//! declare them and, beyond that, of as many structs, enums and classes as can have them while all
//! their fields have them too.

use vstd::prelude::*;

use crate::hir::{
    Attribute, AttributeKind, DeclarationId, Definition, DefinitionData, EnumVariant, Field,
    Program, Type,
};
use crate::ids::{contains_id, insert_id, inserted};
use crate::list::List;
use crate::names::Name;
use crate::ownership::facts::OwnershipFacts;
use crate::program::{nominal_id, resolve_interface_name};

verus! {

/// Whether the names hold the requested one.
#[verifier::allow_in_spec]
pub fn names_contain(names: &Vec<Name>, requested: Name) -> (r: bool)
    returns
        names@.contains(requested),
{
    let mut index: usize = 0;
    while index < names.len()
        invariant
            index <= names.len(),
            forall|other: int| 0 <= other < index ==> names@[other] != requested,
        decreases names.len() - index,
    {
        if names[index] == requested {
            return true;
        }
        index = index + 1;
    }
    false
}

/// Whether an attribute gives the marker to the declaration it stands on.
///
/// `Copy` and `Drop` have attributes of their own; a conformance can name any marker.
#[verifier::allow_in_spec]
pub fn attribute_marks(attribute: &Attribute, marker: Name) -> (r: bool)
    returns
        (attribute.arguments@.len() == 0 && (attribute.kind == AttributeKind::Copy && marker
            == Name::Copy || attribute.kind == AttributeKind::Drop && marker == Name::Drop)) || (
        attribute.kind == AttributeKind::Conform && attribute.arguments@.contains(marker)),
{
    (attribute.arguments.len() == 0 && (attribute.kind == AttributeKind::Copy && marker
        == Name::Copy || attribute.kind == AttributeKind::Drop && marker == Name::Drop)) || (
    attribute.kind == AttributeKind::Conform && names_contain(&attribute.arguments, marker))
}

/// Whether a declaration carries the marker.
#[verifier::allow_in_spec]
pub fn has_marker(program: &Program, target: DeclarationId, marker: Name) -> (r: bool)
    returns
        match program.declaration(target) {
            Some(declaration) => exists|index: int|
                0 <= index < declaration.attributes@.len() && attribute_marks(
                    &#[trigger] declaration.attributes@[index],
                    marker,
                ),
            None => false,
        },
{
    let declaration = match program.declaration(target) {
        Some(declaration) => declaration,
        None => {
            return false;
        },
    };
    let mut index: usize = 0;
    while index < declaration.attributes.len()
        invariant
            index <= declaration.attributes.len(),
            program.declaration(target) == Some(declaration),
            forall|other: int|
                0 <= other < index ==> !attribute_marks(
                    &#[trigger] declaration.attributes@[other],
                    marker,
                ),
        decreases declaration.attributes.len() - index,
    {
        if attribute_marks(&declaration.attributes[index], marker) {
            assert(attribute_marks(&declaration.attributes@[index as int], marker));
            return true;
        }
        index = index + 1;
    }
    false
}

/// The interfaces that the listed types from position `from` on name, in ascending order with
/// those that were there before.
pub open spec fn with_class_interfaces(
    interfaces: Seq<DeclarationId>,
    types: Seq<Type>,
    from: nat,
) -> Seq<DeclarationId>
    decreases types.len() - from,
{
    if from >= types.len() {
        interfaces
    } else {
        with_class_interfaces(
            match nominal_id(&types[from as int]) {
                Some(id) => inserted(interfaces, id),
                None => interfaces,
            },
            types,
            from + 1,
        )
    }
}

fn add_class_interfaces(interfaces: &mut Vec<DeclarationId>, types: &Vec<Type>)
    ensures
        final(interfaces)@ == with_class_interfaces(old(interfaces)@, types@, 0),
{
    let mut index: usize = 0;
    while index < types.len()
        invariant
            index <= types.len(),
            with_class_interfaces(old(interfaces)@, types@, 0) == with_class_interfaces(
                interfaces@,
                types@,
                index as nat,
            ),
        decreases types.len() - index,
    {
        match nominal_id(&types[index]) {
            Some(id) => {
                insert_id(interfaces, id);
            },
            None => {},
        }
        index = index + 1;
    }
}

/// The interfaces that the names from position `from` on stand for in a module, in ascending order
/// with those that were there before.
pub open spec fn with_named_interfaces(
    program: &Program,
    module: crate::hir::ModuleId,
    interfaces: Seq<DeclarationId>,
    names: Seq<Name>,
    from: nat,
) -> Seq<DeclarationId>
    decreases names.len() - from,
{
    if from >= names.len() {
        interfaces
    } else {
        with_named_interfaces(
            program,
            module,
            match resolve_interface_name(program, module, names[from as int]) {
                Some(id) => inserted(interfaces, id),
                None => interfaces,
            },
            names,
            from + 1,
        )
    }
}

fn add_named_interfaces(
    program: &Program,
    module: crate::hir::ModuleId,
    interfaces: &mut Vec<DeclarationId>,
    names: &Vec<Name>,
)
    ensures
        final(interfaces)@ == with_named_interfaces(program, module, old(interfaces)@, names@, 0),
{
    let mut index: usize = 0;
    while index < names.len()
        invariant
            index <= names.len(),
            with_named_interfaces(program, module, old(interfaces)@, names@, 0)
                == with_named_interfaces(program, module, interfaces@, names@, index as nat),
        decreases names.len() - index,
    {
        match resolve_interface_name(program, module, names[index]) {
            Some(id) => {
                insert_id(interfaces, id);
            },
            None => {},
        }
        index = index + 1;
    }
}

/// The interfaces that the conformance attributes from position `from` on name.
pub open spec fn with_conformances(
    program: &Program,
    module: crate::hir::ModuleId,
    interfaces: Seq<DeclarationId>,
    attributes: Seq<Attribute>,
    from: nat,
) -> Seq<DeclarationId>
    decreases attributes.len() - from,
{
    if from >= attributes.len() {
        interfaces
    } else {
        with_conformances(
            program,
            module,
            if attributes[from as int].kind == AttributeKind::Conform {
                with_named_interfaces(
                    program,
                    module,
                    interfaces,
                    attributes[from as int].arguments@,
                    0,
                )
            } else {
                interfaces
            },
            attributes,
            from + 1,
        )
    }
}

/// The interfaces that a class lists, in ascending order.
pub open spec fn listed_interfaces(program: &Program, nominal: DeclarationId) -> Seq<
    DeclarationId,
> {
    match program.definition(nominal) {
        Some(definition) => match definition.data {
            DefinitionData::Class { interfaces, .. } => with_class_interfaces(
                Seq::empty(),
                interfaces@,
                0,
            ),
            _ => Seq::empty(),
        },
        None => Seq::empty(),
    }
}

/// The interfaces that a declared type conforms to, in ascending order.
pub open spec fn conformances(program: &Program, nominal: DeclarationId) -> Seq<DeclarationId> {
    match program.declaration(nominal) {
        Some(declaration) => with_conformances(
            program,
            declaration.module,
            listed_interfaces(program, nominal),
            declaration.attributes@,
            0,
        ),
        None => listed_interfaces(program, nominal),
    }
}

/// The interfaces that a declared type conforms to, in ascending order.
pub fn declared_conformances(program: &Program, nominal: DeclarationId) -> (r: Vec<DeclarationId>)
    ensures
        r@ == conformances(program, nominal),
{
    let mut interfaces: Vec<DeclarationId> = Vec::new();
    match program.definition(nominal) {
        Some(definition) => match &definition.data {
            DefinitionData::Class { interfaces: listed, .. } => {
                add_class_interfaces(&mut interfaces, listed);
            },
            _ => {},
        },
        None => {},
    }
    let declaration = match program.declaration(nominal) {
        Some(declaration) => declaration,
        None => {
            return interfaces;
        },
    };
    let ghost listed = interfaces@;
    let mut index: usize = 0;
    while index < declaration.attributes.len()
        invariant
            index <= declaration.attributes.len(),
            with_conformances(
                program,
                declaration.module,
                listed,
                declaration.attributes@,
                0,
            ) == with_conformances(
                program,
                declaration.module,
                interfaces@,
                declaration.attributes@,
                index as nat,
            ),
        decreases declaration.attributes.len() - index,
    {
        let attribute = &declaration.attributes[index];
        if attribute.kind == AttributeKind::Conform {
            add_named_interfaces(
                program,
                declaration.module,
                &mut interfaces,
                &attribute.arguments,
            );
        }
        index = index + 1;
    }
    interfaces
}

/// Whether a definition declares a struct, an enum or a class.
#[verifier::allow_in_spec]
pub fn is_aggregate(data: &DefinitionData) -> (r: bool)
    returns
        data is Struct || data is Enum || data is Class,
{
    matches!(
        data,
        DefinitionData::Struct { .. } | DefinitionData::Enum { .. } | DefinitionData::Class { .. }
    )
}

/// Whether one of the interfaces is the marker.
pub open spec fn some_is_marker(
    program: &Program,
    interfaces: Seq<DeclarationId>,
    marker: Name,
) -> bool {
    exists|index: int|
        0 <= index < interfaces.len() && program.declared_name(#[trigger] interfaces[index])
            == Some(marker)
}

/// The type that an implementation gives the marker to.
pub open spec fn implementation_marks(
    program: &Program,
    data: DefinitionData,
    marker: Name,
) -> Option<
    DeclarationId,
> {
    match data {
        DefinitionData::Implementation { interface: Some(Type::Nominal(interface, _)), target, .. } =>
            match target {
            Type::Nominal(target, _) => if program.declared_name(interface) == Some(marker) {
                Some(target)
            } else {
                None
            },
            _ => None,
        },
        _ => None,
    }
}

/// Whether a definition declares that a type has the marker: by an attribute, by a conformance of
/// the type it defines, or by an implementation.
pub open spec fn definition_marks(
    program: &Program,
    definition: Definition,
    marker: Name,
    target: DeclarationId,
) -> bool {
    ||| definition.declaration == target && has_marker(program, target, marker)
    ||| definition.declaration == target && is_aggregate(&definition.data) && some_is_marker(
        program,
        conformances(program, target),
        marker,
    )
    ||| implementation_marks(program, definition.data, marker) == Some(target)
}

/// Whether the program declares that a type has the marker.
pub open spec fn explicit(program: &Program, marker: Name, target: DeclarationId) -> bool {
    exists|index: int|
        0 <= index < program.definitions@.len() && definition_marks(
            program,
            #[trigger] program.definitions@[index],
            marker,
            target,
        )
}

fn is_some_marker(program: &Program, interfaces: &Vec<DeclarationId>, marker: Name) -> (r: bool)
    ensures
        r == some_is_marker(program, interfaces@, marker),
{
    let mut index: usize = 0;
    while index < interfaces.len()
        invariant
            index <= interfaces.len(),
            forall|other: int|
                0 <= other < index ==> program.declared_name(#[trigger] interfaces@[other])
                    != Some(marker),
        decreases interfaces.len() - index,
    {
        match program.declared_name(interfaces[index]) {
            Some(name) => {
                if name == marker {
                    return true;
                }
            },
            None => {},
        }
        index = index + 1;
    }
    false
}

fn marked_by_implementation(program: &Program, data: &DefinitionData, marker: Name) -> (r: Option<
    DeclarationId,
>)
    ensures
        r == implementation_marks(program, *data, marker),
{
    match data {
        DefinitionData::Implementation { interface: Some(Type::Nominal(interface, _)), target, .. } =>
            match target {
            Type::Nominal(target, _) => match program.declared_name(*interface) {
                Some(name) => if name == marker {
                    Some(*target)
                } else {
                    None
                },
                None => None,
            },
            _ => None,
        },
        _ => None,
    }
}

/// The types that the program declares to have the marker.
fn explicit_facts(program: &Program, marker: Name) -> (r: Vec<DeclarationId>)
    ensures
        forall|target: DeclarationId|
            r@.contains(target) <==> explicit(program, marker, target),
{
    let mut targets: Vec<DeclarationId> = Vec::new();
    let mut index: usize = 0;
    while index < program.definitions.len()
        invariant
            index <= program.definitions.len(),
            forall|target: DeclarationId|
                targets@.contains(target) <==> exists|other: int|
                    0 <= other < index && definition_marks(
                        program,
                        #[trigger] program.definitions@[other],
                        marker,
                        target,
                    ),
        decreases program.definitions.len() - index,
    {
        let definition = &program.definitions[index];
        let id = definition.declaration;
        let ghost before = targets@;
        let own = has_marker(program, id, marker) || (is_aggregate(&definition.data)
            && is_some_marker(program, &declared_conformances(program, id), marker));
        if own {
            targets.push(id);
        }
        let ghost middle = targets@;
        let implemented = marked_by_implementation(program, &definition.data, marker);
        match implemented {
            Some(target) => {
                targets.push(target);
            },
            None => {},
        }
        proof {
            assert forall|target: DeclarationId|
                targets@.contains(target) <==> before.contains(target) || definition_marks(
                    program,
                    *definition,
                    marker,
                    target,
                ) by {
                lemma_push_contains(before, id, target);
                match implemented {
                    Some(other) => {
                        lemma_push_contains(middle, other, target);
                    },
                    None => {},
                }
            }
            assert forall|target: DeclarationId|
                targets@.contains(target) <==> exists|other: int|
                    0 <= other < index + 1 && definition_marks(
                        program,
                        #[trigger] program.definitions@[other],
                        marker,
                        target,
                    ) by {
                if targets@.contains(target) {
                    if before.contains(target) {
                        let other = choose|other: int|
                            0 <= other < index && definition_marks(
                                program,
                                #[trigger] program.definitions@[other],
                                marker,
                                target,
                            );
                        assert(definition_marks(
                            program,
                            program.definitions@[other],
                            marker,
                            target,
                        ));
                    } else {
                        assert(definition_marks(
                            program,
                            program.definitions@[index as int],
                            marker,
                            target,
                        ));
                    }
                }
                if exists|other: int|
                    0 <= other < index + 1 && definition_marks(
                        program,
                        #[trigger] program.definitions@[other],
                        marker,
                        target,
                    ) {
                    let other = choose|other: int|
                        0 <= other < index + 1 && definition_marks(
                            program,
                            #[trigger] program.definitions@[other],
                            marker,
                            target,
                        );
                    if other < index {
                        assert(before.contains(target));
                    } else {
                        assert(definition_marks(program, *definition, marker, target));
                    }
                }
            }
        }
        index = index + 1;
    }
    targets
}

proof fn lemma_push_contains(ids: Seq<DeclarationId>, id: DeclarationId, other: DeclarationId)
    ensures
        ids.push(id).contains(other) <==> ids.contains(other) || id == other,
{
    let pushed = ids.push(id);
    if ids.contains(other) {
        let index = choose|index: int| 0 <= index < ids.len() && ids[index] == other;
        assert(pushed[index] == other);
    }
    if id == other {
        assert(pushed[ids.len() as int] == other);
    }
    if pushed.contains(other) {
        let index = choose|index: int| 0 <= index < pushed.len() && pushed[index] == other;
        if index < ids.len() {
            assert(ids[index] == other);
        }
    }
}

/// Whether every element of the list is in the set.
pub open spec fn all_within(list: List<DeclarationId>, set: Set<DeclarationId>) -> bool
    decreases list,
{
    match list {
        List::Nil => true,
        List::Cons(head, tail) => set.contains(*head) && all_within(*tail, set),
    }
}

/// Whether a field of the type lets the type it belongs to be sent, or be shared, when the sets
/// say so of declared types. A generic parameter does: its argument is asked in its place.
pub open spec fn structurally_safe(
    ty: Type,
    shared: bool,
    send: Set<DeclarationId>,
    sync: Set<DeclarationId>,
) -> bool
    decreases ty,
{
    let marked = if shared {
        sync
    } else {
        send
    };
    match ty {
        Type::Primitive(_)
        | Type::Function(_)
        | Type::String
        | Type::Str
        | Type::Lifetime(_)
        | Type::Generic(_) => true,
        Type::Reference { mutable, referent, .. } => structurally_safe(
            *referent,
            shared || !mutable,
            send,
            sync,
        ),
        Type::Optional(inner) | Type::Array(inner, _) | Type::Slice(inner) => structurally_safe(
            *inner,
            shared,
            send,
            sync,
        ),
        Type::Promise { result, effects, .. } => structurally_safe(*result, shared, send, sync)
            && all_within(effects, marked),
        Type::Tuple(elements) | Type::Template(elements) => all_structurally_safe(
            elements,
            shared,
            send,
            sync,
        ),
        Type::Nominal(id, arguments) => marked.contains(id) && all_structurally_safe(
            arguments,
            shared,
            send,
            sync,
        ),
        Type::ErrorUnion(effects) => all_within(effects, marked),
        _ => false,
    }
}

/// Whether fields of every listed type let the type they belong to be sent, or be shared.
pub open spec fn all_structurally_safe(
    types: List<Type>,
    shared: bool,
    send: Set<DeclarationId>,
    sync: Set<DeclarationId>,
) -> bool
    decreases types,
{
    match types {
        List::Nil => true,
        List::Cons(head, tail) => structurally_safe(*head, shared, send, sync)
            && all_structurally_safe(*tail, shared, send, sync),
    }
}

/// Larger sets make no field unsafe.
pub proof fn lemma_structurally_safe_grows(
    ty: Type,
    shared: bool,
    send: Set<DeclarationId>,
    sync: Set<DeclarationId>,
    larger_send: Set<DeclarationId>,
    larger_sync: Set<DeclarationId>,
)
    requires
        send.subset_of(larger_send),
        sync.subset_of(larger_sync),
    ensures
        structurally_safe(ty, shared, send, sync) ==> structurally_safe(
            ty,
            shared,
            larger_send,
            larger_sync,
        ),
    decreases ty,
{
    match ty {
        Type::Reference { mutable, referent, .. } => {
            lemma_structurally_safe_grows(
                *referent,
                shared || !mutable,
                send,
                sync,
                larger_send,
                larger_sync,
            );
        },
        Type::Optional(inner) | Type::Array(inner, _) | Type::Slice(inner) => {
            lemma_structurally_safe_grows(*inner, shared, send, sync, larger_send, larger_sync);
        },
        Type::Promise { result, effects, .. } => {
            lemma_structurally_safe_grows(*result, shared, send, sync, larger_send, larger_sync);
            lemma_all_within_grows(effects, send, larger_send);
            lemma_all_within_grows(effects, sync, larger_sync);
        },
        Type::Tuple(elements) | Type::Template(elements) => {
            lemma_all_structurally_safe_grows(
                elements,
                shared,
                send,
                sync,
                larger_send,
                larger_sync,
            );
        },
        Type::Nominal(id, arguments) => {
            lemma_all_structurally_safe_grows(
                arguments,
                shared,
                send,
                sync,
                larger_send,
                larger_sync,
            );
        },
        Type::ErrorUnion(effects) => {
            lemma_all_within_grows(effects, send, larger_send);
            lemma_all_within_grows(effects, sync, larger_sync);
        },
        _ => {},
    }
}

proof fn lemma_all_structurally_safe_grows(
    types: List<Type>,
    shared: bool,
    send: Set<DeclarationId>,
    sync: Set<DeclarationId>,
    larger_send: Set<DeclarationId>,
    larger_sync: Set<DeclarationId>,
)
    requires
        send.subset_of(larger_send),
        sync.subset_of(larger_sync),
    ensures
        all_structurally_safe(types, shared, send, sync) ==> all_structurally_safe(
            types,
            shared,
            larger_send,
            larger_sync,
        ),
    decreases types,
{
    match types {
        List::Nil => {},
        List::Cons(head, tail) => {
            lemma_structurally_safe_grows(*head, shared, send, sync, larger_send, larger_sync);
            lemma_all_structurally_safe_grows(*tail, shared, send, sync, larger_send, larger_sync);
        },
    }
}

proof fn lemma_all_within_grows(
    list: List<DeclarationId>,
    set: Set<DeclarationId>,
    larger: Set<DeclarationId>,
)
    requires
        set.subset_of(larger),
    ensures
        all_within(list, set) ==> all_within(list, larger),
    decreases list,
{
    match list {
        List::Nil => {},
        List::Cons(head, tail) => {
            lemma_all_within_grows(*tail, set, larger);
        },
    }
}

fn are_all_within(list: &List<DeclarationId>, ids: &Vec<DeclarationId>) -> (r: bool)
    ensures
        r == all_within(*list, ids@.to_set()),
    decreases list,
{
    match list {
        List::Nil => true,
        List::Cons(head, tail) => contains_id(ids, **head) && are_all_within(tail, ids),
    }
}

/// Whether a field of the type lets the type it belongs to be sent, or be shared.
pub fn structurally_thread_safe(ty: &Type, shared: bool, facts: &OwnershipFacts) -> (r: bool)
    ensures
        r == structurally_safe(*ty, shared, facts.send@.to_set(), facts.sync@.to_set()),
    decreases ty,
{
    let marked = if shared {
        &facts.sync
    } else {
        &facts.send
    };
    match ty {
        Type::Primitive(_) => true,
        Type::Function(_) => true,
        Type::String => true,
        Type::Str => true,
        Type::Lifetime(_) => true,
        Type::Generic(_) => true,
        Type::Reference { mutable, referent, .. } => structurally_thread_safe(
            referent,
            shared || !*mutable,
            facts,
        ),
        Type::Optional(inner) => structurally_thread_safe(inner, shared, facts),
        Type::Array(inner, _) => structurally_thread_safe(inner, shared, facts),
        Type::Slice(inner) => structurally_thread_safe(inner, shared, facts),
        Type::Promise { result, effects, .. } => structurally_thread_safe(result, shared, facts)
            && are_all_within(effects, marked),
        Type::Tuple(elements) => are_structurally_thread_safe(elements, shared, facts),
        Type::Template(elements) => are_structurally_thread_safe(elements, shared, facts),
        Type::Nominal(id, arguments) => contains_id(marked, *id) && are_structurally_thread_safe(
            arguments,
            shared,
            facts,
        ),
        Type::ErrorUnion(effects) => are_all_within(effects, marked),
        _ => false,
    }
}

fn are_structurally_thread_safe(types: &List<Type>, shared: bool, facts: &OwnershipFacts) -> (r:
    bool)
    ensures
        r == all_structurally_safe(*types, shared, facts.send@.to_set(), facts.sync@.to_set()),
    decreases types,
{
    match types {
        List::Nil => true,
        List::Cons(head, tail) => structurally_thread_safe(head, shared, facts)
            && are_structurally_thread_safe(tail, shared, facts),
    }
}

/// Whether every field is safe.
pub open spec fn fields_safe(
    fields: Seq<Field>,
    shared: bool,
    send: Set<DeclarationId>,
    sync: Set<DeclarationId>,
) -> bool {
    forall|index: int|
        0 <= index < fields.len() ==> structurally_safe(
            (#[trigger] fields[index]).ty,
            shared,
            send,
            sync,
        )
}

/// Whether every field that a definition stores is safe.
pub open spec fn data_safe(
    data: DefinitionData,
    shared: bool,
    send: Set<DeclarationId>,
    sync: Set<DeclarationId>,
) -> bool {
    match data {
        DefinitionData::Struct { fields, .. } | DefinitionData::Class { fields, .. } => fields_safe(
            fields@,
            shared,
            send,
            sync,
        ),
        DefinitionData::Enum { variants, .. } => forall|index: int|
            0 <= index < variants@.len() ==> fields_safe(
                (#[trigger] variants@[index]).fields@,
                shared,
                send,
                sync,
            ),
        _ => true,
    }
}

fn are_fields_safe(fields: &Vec<Field>, shared: bool, facts: &OwnershipFacts) -> (r: bool)
    ensures
        r == fields_safe(fields@, shared, facts.send@.to_set(), facts.sync@.to_set()),
{
    let mut index: usize = 0;
    while index < fields.len()
        invariant
            index <= fields.len(),
            forall|other: int|
                0 <= other < index ==> structurally_safe(
                    (#[trigger] fields@[other]).ty,
                    shared,
                    facts.send@.to_set(),
                    facts.sync@.to_set(),
                ),
        decreases fields.len() - index,
    {
        if !structurally_thread_safe(&fields[index].ty, shared, facts) {
            return false;
        }
        index = index + 1;
    }
    true
}

fn are_variants_safe(variants: &Vec<EnumVariant>, shared: bool, facts: &OwnershipFacts) -> (r: bool)
    ensures
        r == forall|index: int|
            0 <= index < variants@.len() ==> fields_safe(
                (#[trigger] variants@[index]).fields@,
                shared,
                facts.send@.to_set(),
                facts.sync@.to_set(),
            ),
{
    let mut index: usize = 0;
    while index < variants.len()
        invariant
            index <= variants.len(),
            forall|other: int|
                0 <= other < index ==> fields_safe(
                    (#[trigger] variants@[other]).fields@,
                    shared,
                    facts.send@.to_set(),
                    facts.sync@.to_set(),
                ),
        decreases variants.len() - index,
    {
        if !are_fields_safe(&variants[index].fields, shared, facts) {
            return false;
        }
        index = index + 1;
    }
    true
}

fn is_data_safe(data: &DefinitionData, shared: bool, facts: &OwnershipFacts) -> (r: bool)
    ensures
        r == data_safe(*data, shared, facts.send@.to_set(), facts.sync@.to_set()),
{
    match data {
        DefinitionData::Struct { fields, .. } => are_fields_safe(fields, shared, facts),
        DefinitionData::Class { fields, .. } => are_fields_safe(fields, shared, facts),
        DefinitionData::Enum { variants, .. } => are_variants_safe(variants, shared, facts),
        _ => true,
    }
}

/// Larger sets make no definition unsafe.
pub proof fn lemma_data_safe_grows(
    data: DefinitionData,
    shared: bool,
    send: Set<DeclarationId>,
    sync: Set<DeclarationId>,
    larger_send: Set<DeclarationId>,
    larger_sync: Set<DeclarationId>,
)
    requires
        send.subset_of(larger_send),
        sync.subset_of(larger_sync),
    ensures
        data_safe(data, shared, send, sync) ==> data_safe(data, shared, larger_send, larger_sync),
{
    if data_safe(data, shared, send, sync) {
        match data {
            DefinitionData::Struct { fields, .. } | DefinitionData::Class { fields, .. } => {
                lemma_fields_safe_grows(fields@, shared, send, sync, larger_send, larger_sync);
            },
            DefinitionData::Enum { variants, .. } => {
                assert forall|index: int| 0 <= index < variants@.len() implies fields_safe(
                    (#[trigger] variants@[index]).fields@,
                    shared,
                    larger_send,
                    larger_sync,
                ) by {
                    lemma_fields_safe_grows(
                        variants@[index].fields@,
                        shared,
                        send,
                        sync,
                        larger_send,
                        larger_sync,
                    );
                }
            },
            _ => {},
        }
    }
}

proof fn lemma_fields_safe_grows(
    fields: Seq<Field>,
    shared: bool,
    send: Set<DeclarationId>,
    sync: Set<DeclarationId>,
    larger_send: Set<DeclarationId>,
    larger_sync: Set<DeclarationId>,
)
    requires
        send.subset_of(larger_send),
        sync.subset_of(larger_sync),
    ensures
        fields_safe(fields, shared, send, sync) ==> fields_safe(
            fields,
            shared,
            larger_send,
            larger_sync,
        ),
{
    assert forall|index: int|
        0 <= index < fields.len() && fields_safe(
            fields,
            shared,
            send,
            sync,
        ) implies structurally_safe(
        (#[trigger] fields[index]).ty,
        shared,
        larger_send,
        larger_sync,
    ) by {
        lemma_structurally_safe_grows(
            fields[index].ty,
            shared,
            send,
            sync,
            larger_send,
            larger_sync,
        );
    }
}

/// Whether the program defines a struct, an enum or a class under this declaration.
pub open spec fn structural(program: &Program, target: DeclarationId) -> bool {
    exists|index: int|
        0 <= index < program.definitions@.len() && (
        #[trigger] program.definitions@[index]).declaration == target && is_aggregate(
            &program.definitions@[index].data,
        )
}

/// Whether everything that is defined under this declaration stores only safe fields.
pub open spec fn target_safe(
    program: &Program,
    target: DeclarationId,
    shared: bool,
    send: Set<DeclarationId>,
    sync: Set<DeclarationId>,
) -> bool {
    forall|index: int|
        0 <= index < program.definitions@.len() && (
        #[trigger] program.definitions@[index]).declaration == target ==> data_safe(
            program.definitions@[index].data,
            shared,
            send,
            sync,
        )
}

/// Whether a type may be marked, given the marks of all types: it is declared to be, or it is a
/// struct, an enum or a class all of whose fields are safe.
pub open spec fn justified(
    program: &Program,
    target: DeclarationId,
    shared: bool,
    send: Set<DeclarationId>,
    sync: Set<DeclarationId>,
) -> bool {
    ||| explicit(
        program,
        if shared {
            Name::Sync
        } else {
            Name::Send
        },
        target,
    )
    ||| structural(program, target) && target_safe(program, target, shared, send, sync)
}

/// Whether every mark for sending and for sharing is justified by the marks themselves.
pub open spec fn consistent(
    program: &Program,
    send: Set<DeclarationId>,
    sync: Set<DeclarationId>,
) -> bool {
    &&& forall|target: DeclarationId| #[trigger]
        send.contains(target) ==> justified(program, target, false, send, sync)
    &&& forall|target: DeclarationId| #[trigger]
        sync.contains(target) ==> justified(program, target, true, send, sync)
}

/// The structs, enums and classes of the program.
fn aggregates(program: &Program) -> (r: Vec<DeclarationId>)
    ensures
        forall|target: DeclarationId| r@.contains(target) <==> structural(program, target),
{
    let mut targets: Vec<DeclarationId> = Vec::new();
    let mut index: usize = 0;
    while index < program.definitions.len()
        invariant
            index <= program.definitions.len(),
            forall|target: DeclarationId|
                targets@.contains(target) <==> exists|other: int|
                    0 <= other < index && (
                    #[trigger] program.definitions@[other]).declaration == target
                        && is_aggregate(&program.definitions@[other].data),
        decreases program.definitions.len() - index,
    {
        let ghost before = targets@;
        let definition = &program.definitions[index];
        if is_aggregate(&definition.data) {
            targets.push(definition.declaration);
        }
        proof {
            assert forall|target: DeclarationId|
                targets@.contains(target) <==> exists|other: int|
                    0 <= other < index + 1 && (
                    #[trigger] program.definitions@[other]).declaration == target
                        && is_aggregate(&program.definitions@[other].data) by {
                lemma_push_contains(before, definition.declaration, target);
                if targets@.contains(target) {
                    if before.contains(target) {
                        let other = choose|other: int|
                            0 <= other < index && (
                            #[trigger] program.definitions@[other]).declaration == target
                                && is_aggregate(&program.definitions@[other].data);
                        assert(program.definitions@[other].declaration == target);
                    } else {
                        assert(program.definitions@[index as int].declaration == target);
                    }
                }
            }
        }
        index = index + 1;
    }
    targets
}

/// Appends the declarations of another sequence.
fn append_ids(ids: &mut Vec<DeclarationId>, more: &Vec<DeclarationId>)
    ensures
        forall|id: DeclarationId| #[trigger]
            final(ids)@.contains(id) <==> old(ids)@.contains(id) || more@.contains(id),
{
    let mut index: usize = 0;
    while index < more.len()
        invariant
            index <= more.len(),
            forall|id: DeclarationId|
                ids@.contains(id) <==> old(ids)@.contains(id) || more@.take(
                    index as int,
                ).contains(id),
        decreases more.len() - index,
    {
        let ghost before = ids@;
        ids.push(more[index]);
        proof {
            assert(more@.take(index + 1) =~= more@.take(index as int).push(more@[index as int]));
            assert forall|id: DeclarationId|
                ids@.contains(id) <==> old(ids)@.contains(id) || more@.take(
                    index + 1,
                ).contains(id) by {
                lemma_push_contains(before, more@[index as int], id);
                lemma_push_contains(more@.take(index as int), more@[index as int], id);
            }
        }
        index = index + 1;
    }
    proof {
        assert(more@.take(index as int) =~= more@);
    }
}

/// The declarations whose definitions store a field that is not safe and that are not declared to
/// be marked.
fn unjustified(
    program: &Program,
    declared: &Vec<DeclarationId>,
    shared: bool,
    facts: &OwnershipFacts,
) -> (r: Vec<DeclarationId>)
    requires
        forall|target: DeclarationId|
            declared@.contains(target) <==> explicit(
                program,
                if shared {
                    Name::Sync
                } else {
                    Name::Send
                },
                target,
            ),
    ensures
        forall|target: DeclarationId|
            r@.contains(target) <==> !declared@.contains(target) && !target_safe(
                program,
                target,
                shared,
                facts.send@.to_set(),
                facts.sync@.to_set(),
            ),
{
    let mut targets: Vec<DeclarationId> = Vec::new();
    let mut index: usize = 0;
    let ghost send = facts.send@.to_set();
    let ghost sync = facts.sync@.to_set();
    while index < program.definitions.len()
        invariant
            index <= program.definitions.len(),
            send == facts.send@.to_set(),
            sync == facts.sync@.to_set(),
            forall|target: DeclarationId|
                targets@.contains(target) <==> !declared@.contains(target) && exists|other: int|
                    0 <= other < index && (
                    #[trigger] program.definitions@[other]).declaration == target && !data_safe(
                        program.definitions@[other].data,
                        shared,
                        send,
                        sync,
                    ),
        decreases program.definitions.len() - index,
    {
        let ghost before = targets@;
        let definition = &program.definitions[index];
        if !contains_id(declared, definition.declaration) && !is_data_safe(
            &definition.data,
            shared,
            facts,
        ) {
            targets.push(definition.declaration);
        }
        proof {
            assert forall|target: DeclarationId|
                targets@.contains(target) <==> !declared@.contains(target) && exists|other: int|
                    0 <= other < index + 1 && (
                    #[trigger] program.definitions@[other]).declaration == target && !data_safe(
                        program.definitions@[other].data,
                        shared,
                        send,
                        sync,
                    ) by {
                lemma_push_contains(before, definition.declaration, target);
                if targets@.contains(target) {
                    if before.contains(target) {
                        let other = choose|other: int|
                            0 <= other < index && (
                            #[trigger] program.definitions@[other]).declaration == target
                                && !data_safe(
                                program.definitions@[other].data,
                                shared,
                                send,
                                sync,
                            );
                        assert(program.definitions@[other].declaration == target);
                    } else {
                        assert(program.definitions@[index as int].declaration == target);
                    }
                }
            }
        }
        index = index + 1;
    }
    targets
}

/// Takes the given declarations out of a sequence.
fn remove_ids(ids: &mut Vec<DeclarationId>, removed: &Vec<DeclarationId>)
    ensures
        forall|id: DeclarationId|
            final(ids)@.contains(id) <==> old(ids)@.contains(id) && !removed@.contains(id),
        final(ids)@.len() <= old(ids)@.len(),
        final(ids)@.len() == old(ids)@.len() ==> final(ids)@ == old(ids)@,
{
    let mut kept: Vec<DeclarationId> = Vec::new();
    let mut index: usize = 0;
    while index < ids.len()
        invariant
            index <= ids.len(),
            ids@ == old(ids)@,
            kept@.len() <= index,
            kept@.len() == index ==> kept@ == ids@.take(index as int),
            forall|id: DeclarationId|
                kept@.contains(id) <==> ids@.take(index as int).contains(id) && !removed@.contains(
                    id,
                ),
        decreases ids.len() - index,
    {
        let ghost before = kept@;
        let id = ids[index];
        if !contains_id(removed, id) {
            kept.push(id);
        }
        proof {
            assert(ids@.take(index + 1) =~= ids@.take(index as int).push(id));
            assert forall|other: DeclarationId|
                kept@.contains(other) <==> ids@.take(index + 1).contains(other)
                    && !removed@.contains(other) by {
                lemma_push_contains(before, id, other);
                lemma_push_contains(ids@.take(index as int), id, other);
            }
        }
        index = index + 1;
    }
    proof {
        assert(ids@.take(index as int) =~= ids@);
    }
    *ids = kept;
}

/// Whether facts are those of a program: a type is copied or has a destructor where that is
/// declared, and the marks for sending and for sharing are the largest ones of which every one
/// is justified.
pub open spec fn are_facts_of(program: &Program, facts: OwnershipFacts) -> bool {
    &&& forall|target: DeclarationId|
        facts.copy@.contains(target) <==> explicit(program, Name::Copy, target)
    &&& forall|target: DeclarationId|
        facts.drop@.contains(target) <==> explicit(program, Name::Drop, target)
    &&& consistent(program, facts.send@.to_set(), facts.sync@.to_set())
    &&& forall|send: Set<DeclarationId>, sync: Set<DeclarationId>| #[trigger]
        consistent(program, send, sync) ==> send.subset_of(facts.send@.to_set())
            && sync.subset_of(facts.sync@.to_set())
}

/// Derives the ownership facts of a program.
pub fn derive_ownership_facts(program: &Program) -> (r: OwnershipFacts)
    ensures
        are_facts_of(program, r),
{
    let copy = explicit_facts(program, Name::Copy);
    let drop = explicit_facts(program, Name::Drop);
    let declared_send = explicit_facts(program, Name::Send);
    let declared_sync = explicit_facts(program, Name::Sync);
    let aggregates = aggregates(program);
    let mut send: Vec<DeclarationId> = Vec::new();
    append_ids(&mut send, &declared_send);
    let ghost declared_only = send@;
    append_ids(&mut send, &aggregates);
    let mut sync: Vec<DeclarationId> = Vec::new();
    append_ids(&mut sync, &declared_sync);
    let ghost declared_only_shared = sync@;
    append_ids(&mut sync, &aggregates);
    let mut facts = OwnershipFacts { copy, drop, send, sync };
    proof {
        assert forall|send: Set<DeclarationId>, sync: Set<DeclarationId>| #[trigger]
            consistent(program, send, sync) implies send.subset_of(facts.send@.to_set())
            && sync.subset_of(facts.sync@.to_set()) by {
            assert forall|target: DeclarationId| send.contains(
                target,
            ) implies facts.send@.to_set().contains(target) by {
                assert(justified(program, target, false, send, sync));
                assert(declared_send@.contains(target) || aggregates@.contains(target));
                assert(declared_only.contains(target) || aggregates@.contains(target));
                assert(facts.send@.contains(target));
            }
            assert forall|target: DeclarationId| sync.contains(
                target,
            ) implies facts.sync@.to_set().contains(target) by {
                assert(justified(program, target, true, send, sync));
                assert(declared_sync@.contains(target) || aggregates@.contains(target));
                assert(declared_only_shared.contains(target) || aggregates@.contains(target));
                assert(facts.sync@.contains(target));
            }
        }
    }
    loop
        invariant
            forall|target: DeclarationId|
                facts.copy@.contains(target) <==> explicit(program, Name::Copy, target),
            forall|target: DeclarationId|
                facts.drop@.contains(target) <==> explicit(program, Name::Drop, target),
            forall|target: DeclarationId|
                declared_send@.contains(target) <==> explicit(program, Name::Send, target),
            forall|target: DeclarationId|
                declared_sync@.contains(target) <==> explicit(program, Name::Sync, target),
            forall|target: DeclarationId| #[trigger]
                facts.send@.contains(target) ==> explicit(program, Name::Send, target)
                    || structural(program, target),
            forall|target: DeclarationId| #[trigger]
                facts.sync@.contains(target) ==> explicit(program, Name::Sync, target)
                    || structural(program, target),
            forall|send: Set<DeclarationId>, sync: Set<DeclarationId>| #[trigger]
                consistent(program, send, sync) ==> send.subset_of(facts.send@.to_set())
                    && sync.subset_of(facts.sync@.to_set()),
        decreases facts.send@.len() + facts.sync@.len(),
    {
        let ghost send_before = facts.send@;
        let ghost sync_before = facts.sync@;
        let remove_send = unjustified(program, &declared_send, false, &facts);
        let remove_sync = unjustified(program, &declared_sync, true, &facts);
        let send_length: usize = facts.send.len();
        let sync_length: usize = facts.sync.len();
        remove_ids(&mut facts.send, &remove_send);
        remove_ids(&mut facts.sync, &remove_sync);
        proof {
            assert forall|send: Set<DeclarationId>, sync: Set<DeclarationId>| #[trigger]
                consistent(program, send, sync) implies send.subset_of(facts.send@.to_set())
                && sync.subset_of(facts.sync@.to_set()) by {
                lemma_justified_survive(
                    program,
                    send,
                    sync,
                    send_before.to_set(),
                    sync_before.to_set(),
                );
                assert forall|target: DeclarationId| send.contains(
                    target,
                ) implies facts.send@.to_set().contains(target) by {
                    assert(send_before.to_set().contains(target));
                    assert(justified(
                        program,
                        target,
                        false,
                        send_before.to_set(),
                        sync_before.to_set(),
                    ));
                }
                assert forall|target: DeclarationId| sync.contains(
                    target,
                ) implies facts.sync@.to_set().contains(target) by {
                    assert(sync_before.to_set().contains(target));
                    assert(justified(
                        program,
                        target,
                        true,
                        send_before.to_set(),
                        sync_before.to_set(),
                    ));
                }
            }
        }
        if facts.send.len() == send_length && facts.sync.len() == sync_length {
            proof {
                assert(facts.send@ == send_before);
                assert(facts.sync@ == sync_before);
                assert forall|target: DeclarationId| #[trigger]
                    facts.send@.to_set().contains(target) implies justified(
                    program,
                    target,
                    false,
                    facts.send@.to_set(),
                    facts.sync@.to_set(),
                ) by {
                    assert(facts.send@.contains(target));
                    assert(!remove_send@.contains(target));
                }
                assert forall|target: DeclarationId| #[trigger]
                    facts.sync@.to_set().contains(target) implies justified(
                    program,
                    target,
                    true,
                    facts.send@.to_set(),
                    facts.sync@.to_set(),
                ) by {
                    assert(facts.sync@.contains(target));
                    assert(!remove_sync@.contains(target));
                }
            }
            return facts;
        }
    }
}

/// What consistent marks justify is justified by any larger marks.
proof fn lemma_justified_survive(
    program: &Program,
    send: Set<DeclarationId>,
    sync: Set<DeclarationId>,
    larger_send: Set<DeclarationId>,
    larger_sync: Set<DeclarationId>,
)
    requires
        consistent(program, send, sync),
        send.subset_of(larger_send),
        sync.subset_of(larger_sync),
    ensures
        forall|target: DeclarationId| #[trigger]
            send.contains(target) ==> justified(program, target, false, larger_send, larger_sync),
        forall|target: DeclarationId| #[trigger]
            sync.contains(target) ==> justified(program, target, true, larger_send, larger_sync),
{
    assert forall|target: DeclarationId, shared: bool|
        target_safe(program, target, shared, send, sync) implies #[trigger] target_safe(
        program,
        target,
        shared,
        larger_send,
        larger_sync,
    ) by {
        assert forall|index: int|
            0 <= index < program.definitions@.len() && (
            #[trigger] program.definitions@[index]).declaration == target implies data_safe(
            program.definitions@[index].data,
            shared,
            larger_send,
            larger_sync,
        ) by {
            lemma_data_safe_grows(
                program.definitions@[index].data,
                shared,
                send,
                sync,
                larger_send,
                larger_sync,
            );
        }
    }
}

} // verus!
