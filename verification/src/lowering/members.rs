//! Questions about members of a program's definitions.

use vstd::prelude::*;

use crate::hir::{
    Declaration, DeclarationId, DeclarationKind, Definition, DefinitionData, EnumVariant, Field,
    MemberId, Method, Module, Program, ReceiverMode, Type,
};
use crate::list::{cons, List};
use crate::lowering::types::{bind_generics, substitute_mir_type, Bindable, Substitution};
use crate::names::Name;
use crate::program::{find_method, nominal_id};

verus! {

/// A method's owner and the way it takes its object.
#[derive(Clone, Copy, Debug, PartialEq, Eq, Structural)]
pub struct MethodSite {
    pub owner: DeclarationId,
    pub receiver: ReceiverMode,
}

/// The method with an identity.
pub open spec fn method_with_id_from<'a>(
    methods: Seq<Method>,
    member: MemberId,
    from: nat,
) -> Option<&'a Method>
    decreases methods.len() - from,
{
    if from >= methods.len() {
        None
    } else {
        let item = &methods[from as int];
        let found = {
            if item.id == member {
                Some(item)
            } else {
                None
            }
        };
        match found {
            Some(found) => Some(found),
            None => method_with_id_from(methods, member, from + 1),
        }
    }
}

/// The method with an identity.
#[verifier::allow_in_spec]
pub fn method_with_id(methods: &Vec<Method>, member: MemberId) -> (r: Option<&Method>)
    returns
        method_with_id_from(methods@, member, 0),
{
    let mut index: usize = 0;
    while index < methods.len()
        invariant
            method_with_id_from(methods@, member, 0)
                == method_with_id_from(methods@, member, index as nat),
        decreases methods.len() - index,
    {
        let item = &methods[index];
        let found = {
            if item.id == member {
                Some(item)
            } else {
                None
            }
        };
        match found {
            Some(found) => {
                return Some(found);
            },
            None => {},
        }
        index = index + 1;
    }
    None
}

/// The methods of a definition that hold code, and with `declared` those that only declare it.
#[verifier::opaque]
pub open spec fn spec_methods_of(data: &DefinitionData, declared: bool) -> Option<&Vec<Method>> {
    match data {
        DefinitionData::Struct { methods, .. } => Some(methods),
        DefinitionData::Enum { methods, .. } => Some(methods),
        DefinitionData::Class { methods, .. } => Some(methods),
        DefinitionData::Implementation { methods, .. } => Some(methods),
        DefinitionData::Interface { methods } => {
            if declared {
                Some(methods)
            } else {
                None
            }
        },
        DefinitionData::Foreign { functions } => {
            if declared {
                Some(functions)
            } else {
                None
            }
        },
        _ => None,
    }
}

/// The methods of a definition that hold code, and with `declared` those that only declare it.
#[verifier::allow_in_spec]
pub fn methods_of(data: &DefinitionData, declared: bool) -> (r: Option<&Vec<Method>>)
    returns
        spec_methods_of(data, declared),
{
    proof {
        reveal(spec_methods_of);
    }
    match data {
        DefinitionData::Struct { methods, .. } => Some(methods),
        DefinitionData::Enum { methods, .. } => Some(methods),
        DefinitionData::Class { methods, .. } => Some(methods),
        DefinitionData::Implementation { methods, .. } => Some(methods),
        DefinitionData::Interface { methods } => {
            if declared {
                Some(methods)
            } else {
                None
            }
        },
        DefinitionData::Foreign { functions } => {
            if declared {
                Some(functions)
            } else {
                None
            }
        },
        _ => None,
    }
}

/// The first definition that has a method, and the way the method takes its object.
pub open spec fn method_site_from(
    definitions: Seq<Definition>,
    member: MemberId,
    declared: bool,
    from: nat,
) -> Option<MethodSite>
    decreases definitions.len() - from,
{
    if from >= definitions.len() {
        None
    } else {
        let item = &definitions[from as int];
        let found = {
            match spec_methods_of(&item.data, declared) {
                Some(methods) => {
                    match method_with_id(methods, member) {
                        Some(method) => {
                            Some(
                                MethodSite { owner: item.declaration, receiver: method.receiver },
                            )
                        },
                        None => None,
                    }
                },
                None => None,
            }
        };
        match found {
            Some(found) => Some(found),
            None => method_site_from(definitions, member, declared, from + 1),
        }
    }
}

/// The first definition that has a method, and the way the method takes its object.
#[verifier::allow_in_spec]
pub fn method_site(
    definitions: &Vec<Definition>,
    member: MemberId,
    declared: bool,
) -> (r: Option<MethodSite>)
    returns
        method_site_from(definitions@, member, declared, 0),
{
    let mut index: usize = 0;
    while index < definitions.len()
        invariant
            method_site_from(definitions@, member, declared, 0)
                == method_site_from(definitions@, member, declared, index as nat),
        decreases definitions.len() - index,
    {
        let item = &definitions[index];
        let found = {
            match methods_of(&item.data, declared) {
                Some(methods) => match method_with_id(methods, member) {
                    Some(method) => Some(
                        MethodSite { owner: item.declaration, receiver: method.receiver },
                    ),
                    None => None,
                },
                None => None,
            }
        };
        match found {
            Some(found) => {
                return Some(found);
            },
            None => {},
        }
        index = index + 1;
    }
    None
}

/// The definition that holds the code of a method.
#[verifier::allow_in_spec]
pub fn direct_method(program: &Program, member: MemberId) -> (r: Option<MethodSite>)
    returns
        method_site(&program.definitions, member, false),
{
    method_site(&program.definitions, member, false)
}

/// The way a method takes its object.
#[verifier::allow_in_spec]
pub fn method_receiver(program: &Program, member: MemberId) -> (r: Option<ReceiverMode>)
    returns
        match method_site(&program.definitions, member, true) {
            Some(site) => Some(site.receiver),
            None => None,
        },
{
    match method_site(&program.definitions, member, true) {
        Some(site) => Some(site.receiver),
        None => None,
    }
}

/// Whether a member is a method without an object.
#[verifier::allow_in_spec]
pub fn is_static_method(program: &Program, member: MemberId) -> (r: bool)
    returns
        method_receiver(program, member) == Some(ReceiverMode::Static),
{
    method_receiver(program, member) == Some(ReceiverMode::Static)
}

/// The definition that a method belongs to.
#[verifier::allow_in_spec]
pub fn method_owner(program: &Program, member: MemberId) -> (r: Option<DeclarationId>)
    returns
        match method_site(&program.definitions, member, true) {
            Some(site) => Some(site.owner),
            None => None,
        },
{
    match method_site(&program.definitions, member, true) {
        Some(site) => Some(site.owner),
        None => None,
    }
}

/// The position of a variant.
pub open spec fn variant_position_from(
    variants: Seq<EnumVariant>,
    member: MemberId,
    from: nat,
) -> Option<usize>
    decreases variants.len() - from,
{
    if from >= variants.len() {
        None
    } else {
        let item = &variants[from as int];
        let index = from as usize;
        let found = {
            if item.id == member {
                Some(index)
            } else {
                None
            }
        };
        match found {
            Some(found) => Some(found),
            None => variant_position_from(variants, member, from + 1),
        }
    }
}

/// The position of a variant.
#[verifier::allow_in_spec]
pub fn variant_position(variants: &Vec<EnumVariant>, member: MemberId) -> (r: Option<usize>)
    returns
        variant_position_from(variants@, member, 0),
{
    let mut index: usize = 0;
    while index < variants.len()
        invariant
            variant_position_from(variants@, member, 0)
                == variant_position_from(variants@, member, index as nat),
        decreases variants.len() - index,
    {
        let item = &variants[index];
        let found = {
            if item.id == member {
                Some(index)
            } else {
                None
            }
        };
        match found {
            Some(found) => {
                return Some(found);
            },
            None => {},
        }
        index = index + 1;
    }
    None
}

/// A variant of an enum.
pub struct FoundVariant<'a> {
    pub owner: DeclarationId,
    pub index: usize,
    pub variant: &'a EnumVariant,
}

/// The variant with an identity.
pub open spec fn variant_with_id_from<'a>(
    variants: Seq<EnumVariant>,
    member: MemberId,
    from: nat,
) -> Option<&'a EnumVariant>
    decreases variants.len() - from,
{
    if from >= variants.len() {
        None
    } else {
        let item = &variants[from as int];
        let found = {
            if item.id == member {
                Some(item)
            } else {
                None
            }
        };
        match found {
            Some(found) => Some(found),
            None => variant_with_id_from(variants, member, from + 1),
        }
    }
}

/// The variant with an identity.
#[verifier::allow_in_spec]
pub fn variant_with_id(variants: &Vec<EnumVariant>, member: MemberId) -> (r: Option<&EnumVariant>)
    returns
        variant_with_id_from(variants@, member, 0),
{
    let mut index: usize = 0;
    while index < variants.len()
        invariant
            variant_with_id_from(variants@, member, 0)
                == variant_with_id_from(variants@, member, index as nat),
        decreases variants.len() - index,
    {
        let item = &variants[index];
        let found = {
            if item.id == member {
                Some(item)
            } else {
                None
            }
        };
        match found {
            Some(found) => {
                return Some(found);
            },
            None => {},
        }
        index = index + 1;
    }
    None
}

/// The first enum that has a variant, and the variant.
pub open spec fn variant_in_from<'a>(
    definitions: Seq<Definition>,
    member: MemberId,
    from: nat,
) -> Option<FoundVariant<'a>>
    decreases definitions.len() - from,
{
    if from >= definitions.len() {
        None
    } else {
        let item = &definitions[from as int];
        let index = from as usize;
        let found = {
            match &item.data {
                DefinitionData::Enum { variants, .. } => {
                    match (
                        variant_position(variants, member),
                        variant_with_id(variants, member),
                    ) {
                        (Some(index), Some(variant)) => {
                            Some(
                                FoundVariant { owner: item.declaration, index, variant },
                            )
                        },
                        _ => None,
                    }
                },
                _ => None,
            }
        };
        match found {
            Some(found) => Some(found),
            None => variant_in_from(definitions, member, from + 1),
        }
    }
}

/// The first enum that has a variant, and the variant.
#[verifier::allow_in_spec]
pub fn variant_in<'a>(
    definitions: &'a Vec<Definition>,
    member: MemberId,
) -> (r: Option<FoundVariant<'a>>)
    returns
        variant_in_from(definitions@, member, 0),
{
    let mut index: usize = 0;
    while index < definitions.len()
        invariant
            variant_in_from(definitions@, member, 0)
                == variant_in_from(definitions@, member, index as nat),
        decreases definitions.len() - index,
    {
        let item = &definitions[index];
        let found = {
            match &item.data {
                DefinitionData::Enum { variants, .. } => match (
                    variant_position(variants, member),
                    variant_with_id(variants, member),
                ) {
                    (Some(index), Some(variant)) => Some(
                        FoundVariant { owner: item.declaration, index, variant },
                    ),
                    _ => None,
                },
                _ => None,
            }
        };
        match found {
            Some(found) => {
                return Some(found);
            },
            None => {},
        }
        index = index + 1;
    }
    None
}

/// The variant with an identity and the enum it belongs to.
#[verifier::allow_in_spec]
pub fn enum_variant<'a>(program: &'a Program, member: MemberId) -> (r: Option<FoundVariant<'a>>)
    returns
        variant_in(&program.definitions, member),
{
    variant_in(&program.definitions, member)
}

/// A method of a class and its name.
#[derive(Clone, Copy, Debug, PartialEq, Eq, Structural)]
pub struct Slot {
    pub name: Name,
    pub member: MemberId,
}

/// The slots with a method in the slot of its name, or in a new last slot.
pub open spec fn spec_filled_slots(slots: List<Slot>, slot: Slot) -> List<Slot>
    decreases slots,
{
    match slots {
        List::Nil => cons(slot, List::Nil),
        List::Cons(head, tail) => {
            if head.name == slot.name {
                List::Cons(Box::new(slot), tail)
            } else {
                List::Cons(head, Box::new(spec_filled_slots(*tail, slot)))
            }
        },
    }
}

/// The slots with a method in the slot of its name, or in a new last slot.
#[verifier::allow_in_spec]
pub fn filled_slots(slots: List<Slot>, slot: Slot) -> (r: List<Slot>)
    returns
        spec_filled_slots(slots, slot),
    decreases slots,
{
    proof {
        reveal_with_fuel(spec_filled_slots, 2);
    }
    match slots {
        List::Nil => cons(slot, List::Nil),
        List::Cons(head, tail) => {
            if head.name == slot.name {
                List::Cons(Box::new(slot), tail)
            } else {
                List::Cons(head, Box::new(filled_slots(*tail, slot)))
            }
        },
    }
}

/// The slots with each of the methods in its slot.
pub open spec fn slots_with_from(methods: Seq<Method>, slots: List<Slot>, from: nat) -> List<Slot>
    decreases methods.len() - from,
{
    if from >= methods.len() {
        slots
    } else {
        let item = &methods[from as int];
        let folded = spec_filled_slots(slots, Slot { name: item.name, member: item.id });
        slots_with_from(methods, folded, from + 1)
    }
}

/// The slots with each of the methods in its slot.
#[verifier::allow_in_spec]
pub fn slots_with(methods: &Vec<Method>, slots: List<Slot>) -> (r: List<Slot>)
    returns
        slots_with_from(methods@, slots, 0),
{
    let ghost given = slots;
    let mut slots = slots;
    let mut index: usize = 0;
    while index < methods.len()
        invariant
            slots_with_from(methods@, given, 0) == slots_with_from(methods@, slots, index as nat),
        decreases methods.len() - index,
    {
        let item = &methods[index];
        let folded = filled_slots(slots, Slot { name: item.name, member: item.id });
        slots = folded;
        index = index + 1;
    }
    slots
}

/// The methods of a class and of the classes above it: an override has the slot of what it
/// overrides. `limit` bounds the number of classes.
pub open spec fn spec_class_vtable_methods(
    program: &Program,
    declaration: DeclarationId,
    limit: usize,
) -> List<Slot>
    decreases limit,
{
    if limit == 0 {
        List::Nil
    } else {
        match program.definition(declaration) {
            Some(definition) => {
                match &definition.data {
                    DefinitionData::Class { base, methods, .. } => {
                        let inherited = match base {
                            Some(base) => {
                                spec_class_vtable_methods(program, *base, (limit - 1) as usize)
                            },
                            None => List::Nil,
                        };
                        slots_with(methods, inherited)
                    },
                    _ => List::Nil,
                }
            },
            None => List::Nil,
        }
    }
}

/// The methods of a class and of the classes above it: an override has the slot of what it
/// overrides. `limit` bounds the number of classes.
#[verifier::allow_in_spec]
pub fn class_vtable_methods(
    program: &Program,
    declaration: DeclarationId,
    limit: usize,
) -> (r: List<Slot>)
    returns
        spec_class_vtable_methods(program, declaration, limit),
    decreases limit,
{
    proof {
        reveal_with_fuel(spec_class_vtable_methods, 2);
    }
    if limit == 0 {
        return List::Nil;
    }
    match program.definition(declaration) {
        Some(definition) => match &definition.data {
            DefinitionData::Class { base, methods, .. } => {
                let inherited = match base {
                    Some(base) => class_vtable_methods(program, *base, limit - 1),
                    None => List::Nil,
                };
                slots_with(methods, inherited)
            },
            _ => List::Nil,
        },
        None => List::Nil,
    }
}

/// The position of a method among slots that are numbered from `index` on.
pub open spec fn spec_slot_position(
    slots: &List<Slot>,
    member: MemberId,
    index: usize,
) -> Option<usize>
    decreases slots,
{
    match slots {
        List::Nil => None,
        List::Cons(head, tail) => {
            if head.member == member {
                Some(index)
            } else {
                spec_slot_position(tail, member, index.saturating_add(1))
            }
        },
    }
}

/// The position of a method among slots that are numbered from `index` on.
#[verifier::allow_in_spec]
pub fn slot_position(slots: &List<Slot>, member: MemberId, index: usize) -> (r: Option<usize>)
    returns
        spec_slot_position(slots, member, index),
    decreases slots,
{
    proof {
        reveal_with_fuel(spec_slot_position, 2);
    }
    match slots {
        List::Nil => None,
        List::Cons(head, tail) => {
            if head.member == member {
                Some(index)
            } else {
                slot_position(tail, member, index.saturating_add(1))
            }
        },
    }
}

/// The slot of a method in the table of its class. The first slot of the table is taken.
#[verifier::allow_in_spec]
pub fn class_vtable_slot(
    program: &Program,
    declaration: DeclarationId,
    member: MemberId,
) -> (r: Option<usize>)
    returns
        spec_slot_position(
            &spec_class_vtable_methods(program, declaration, program.definitions.len()),
            member,
            1,
        ),
{
    slot_position(
        &class_vtable_methods(program, declaration, program.definitions.len()),
        member,
        1,
    )
}

/// Whether a method with an identity has an attribute.
pub open spec fn has_decorated_from(methods: Seq<Method>, member: MemberId, from: nat) -> bool
    decreases methods.len() - from,
{
    if from >= methods.len() {
        false
    } else {
        let item = &methods[from as int];
        let found = item.id == member && item.attributes.len() > 0;
        found || has_decorated_from(methods, member, from + 1)
    }
}

/// Whether a method with an identity has an attribute.
#[verifier::allow_in_spec]
pub fn has_decorated(methods: &Vec<Method>, member: MemberId) -> (r: bool)
    returns
        has_decorated_from(methods@, member, 0),
{
    let mut index: usize = 0;
    while index < methods.len()
        invariant
            has_decorated_from(methods@, member, 0)
                == has_decorated_from(methods@, member, index as nat),
        decreases methods.len() - index,
    {
        let item = &methods[index];
        let found = item.id == member && item.attributes.len() > 0;
        if found {
            return true;
        }
        index = index + 1;
    }
    false
}

/// Whether a method of a definition has an attribute.
#[verifier::allow_in_spec]
pub fn method_has_decorator(
    program: &Program,
    declaration: DeclarationId,
    member: MemberId,
) -> (r: bool)
    returns
        match program.definition(declaration) {
            Some(definition) => {
                match &definition.data {
                    DefinitionData::Class { methods, .. } => has_decorated(methods, member),
                    DefinitionData::Struct { methods, .. } => has_decorated(methods, member),
                    DefinitionData::Implementation { methods, .. } => {
                        has_decorated(methods, member)
                    },
                    _ => false,
                }
            },
            None => false,
        },
{
    match program.definition(declaration) {
        Some(definition) => match &definition.data {
            DefinitionData::Class { methods, .. } => has_decorated(methods, member),
            DefinitionData::Struct { methods, .. } => has_decorated(methods, member),
            DefinitionData::Implementation { methods, .. } => has_decorated(methods, member),
            _ => false,
        },
        None => false,
    }
}

/// The position of a method.
pub open spec fn method_position_from(
    methods: Seq<Method>,
    member: MemberId,
    from: nat,
) -> Option<usize>
    decreases methods.len() - from,
{
    if from >= methods.len() {
        None
    } else {
        let item = &methods[from as int];
        let index = from as usize;
        let found = {
            if item.id == member {
                Some(index)
            } else {
                None
            }
        };
        match found {
            Some(found) => Some(found),
            None => method_position_from(methods, member, from + 1),
        }
    }
}

/// The position of a method.
#[verifier::allow_in_spec]
pub fn method_position(methods: &Vec<Method>, member: MemberId) -> (r: Option<usize>)
    returns
        method_position_from(methods@, member, 0),
{
    let mut index: usize = 0;
    while index < methods.len()
        invariant
            method_position_from(methods@, member, 0)
                == method_position_from(methods@, member, index as nat),
        decreases methods.len() - index,
    {
        let item = &methods[index];
        let found = {
            if item.id == member {
                Some(index)
            } else {
                None
            }
        };
        match found {
            Some(found) => {
                return Some(found);
            },
            None => {},
        }
        index = index + 1;
    }
    None
}

/// The slot of a method in the table of its interface.
#[verifier::allow_in_spec]
pub fn interface_witness_slot(
    program: &Program,
    interface: DeclarationId,
    member: MemberId,
) -> (r: Option<usize>)
    returns
        match program.definition(interface) {
            Some(definition) => {
                match &definition.data {
                    DefinitionData::Interface { methods } => method_position(methods, member),
                    _ => None,
                }
            },
            None => None,
        },
{
    match program.definition(interface) {
        Some(definition) => match &definition.data {
            DefinitionData::Interface { methods } => method_position(methods, member),
            _ => None,
        },
        None => None,
    }
}

/// The position of a field.
pub open spec fn field_position_from(
    fields: Seq<Field>,
    member: MemberId,
    from: nat,
) -> Option<usize>
    decreases fields.len() - from,
{
    if from >= fields.len() {
        None
    } else {
        let item = &fields[from as int];
        let index = from as usize;
        let found = {
            if item.id == member {
                Some(index)
            } else {
                None
            }
        };
        match found {
            Some(found) => Some(found),
            None => field_position_from(fields, member, from + 1),
        }
    }
}

/// The position of a field.
#[verifier::allow_in_spec]
pub fn field_position(fields: &Vec<Field>, member: MemberId) -> (r: Option<usize>)
    returns
        field_position_from(fields@, member, 0),
{
    let mut index: usize = 0;
    while index < fields.len()
        invariant
            field_position_from(fields@, member, 0)
                == field_position_from(fields@, member, index as nat),
        decreases fields.len() - index,
    {
        let item = &fields[index];
        let found = {
            if item.id == member {
                Some(index)
            } else {
                None
            }
        };
        match found {
            Some(found) => {
                return Some(found);
            },
            None => {},
        }
        index = index + 1;
    }
    None
}

/// The field with an identity.
pub open spec fn field_with_id_from<'a>(
    fields: Seq<Field>,
    member: MemberId,
    from: nat,
) -> Option<&'a Field>
    decreases fields.len() - from,
{
    if from >= fields.len() {
        None
    } else {
        let item = &fields[from as int];
        let found = {
            if item.id == member {
                Some(item)
            } else {
                None
            }
        };
        match found {
            Some(found) => Some(found),
            None => field_with_id_from(fields, member, from + 1),
        }
    }
}

/// The field with an identity.
#[verifier::allow_in_spec]
pub fn field_with_id(fields: &Vec<Field>, member: MemberId) -> (r: Option<&Field>)
    returns
        field_with_id_from(fields@, member, 0),
{
    let mut index: usize = 0;
    while index < fields.len()
        invariant
            field_with_id_from(fields@, member, 0)
                == field_with_id_from(fields@, member, index as nat),
        decreases fields.len() - index,
    {
        let item = &fields[index];
        let found = {
            if item.id == member {
                Some(item)
            } else {
                None
            }
        };
        match found {
            Some(found) => {
                return Some(found);
            },
            None => {},
        }
        index = index + 1;
    }
    None
}

/// The number of fields of a struct, or of a class and the classes above it. `limit` bounds the
/// number of classes.
pub open spec fn spec_field_count(
    program: &Program,
    declaration: DeclarationId,
    limit: usize,
) -> usize
    decreases limit,
{
    if limit == 0 {
        0
    } else {
        match program.definition(declaration) {
            Some(definition) => {
                match &definition.data {
                    DefinitionData::Struct { fields, .. } => fields.len(),
                    DefinitionData::Class { base, fields, .. } => {
                        let inherited: usize = match base {
                            Some(base) => {
                                spec_field_count(program, *base, (limit - 1) as usize)
                            },
                            None => 0,
                        };
                        inherited.saturating_add(fields.len())
                    },
                    _ => 0,
                }
            },
            None => 0,
        }
    }
}

/// The number of fields of a struct, or of a class and the classes above it. `limit` bounds the
/// number of classes.
#[verifier::allow_in_spec]
pub fn field_count(program: &Program, declaration: DeclarationId, limit: usize) -> (r: usize)
    returns
        spec_field_count(program, declaration, limit),
    decreases limit,
{
    proof {
        reveal_with_fuel(spec_field_count, 2);
    }
    if limit == 0 {
        return 0;
    }
    match program.definition(declaration) {
        Some(definition) => match &definition.data {
            DefinitionData::Struct { fields, .. } => fields.len(),
            DefinitionData::Class { base, fields, .. } => {
                let inherited: usize = match base {
                    Some(base) => field_count(program, *base, limit - 1),
                    None => 0,
                };
                inherited.saturating_add(fields.len())
            },
            _ => 0,
        },
        None => 0,
    }
}

/// The position of a field in a struct, or in a class behind the fields of the classes above it.
/// `limit` bounds the number of classes.
pub open spec fn spec_field_index_in(
    program: &Program,
    declaration: DeclarationId,
    member: MemberId,
    limit: usize,
) -> Option<usize>
    decreases limit,
{
    if limit == 0 {
        None
    } else {
        match program.definition(declaration) {
            Some(definition) => {
                match &definition.data {
                    DefinitionData::Struct { fields, .. } => field_position(fields, member),
                    DefinitionData::Class { base, fields, .. } => {
                        let inherited = match base {
                            Some(base) => {
                                spec_field_index_in(program, *base, member, (limit - 1) as usize)
                            },
                            None => None,
                        };
                        if inherited.is_some() {
                            inherited
                        } else {
                            let offset: usize = match base {
                                Some(base) => {
                                    spec_field_count(program, *base, (limit - 1) as usize)
                                },
                                None => 0,
                            };
                            match field_position(fields, member) {
                                Some(position) => offset.checked_add(position),
                                None => None,
                            }
                        }
                    },
                    _ => None,
                }
            },
            None => None,
        }
    }
}

/// The position of a field in a struct, or in a class behind the fields of the classes above it.
/// `limit` bounds the number of classes.
#[verifier::allow_in_spec]
pub fn field_index_in(
    program: &Program,
    declaration: DeclarationId,
    member: MemberId,
    limit: usize,
) -> (r: Option<usize>)
    returns
        spec_field_index_in(program, declaration, member, limit),
    decreases limit,
{
    proof {
        reveal_with_fuel(spec_field_index_in, 2);
    }
    if limit == 0 {
        return None;
    }
    match program.definition(declaration) {
        Some(definition) => match &definition.data {
            DefinitionData::Struct { fields, .. } => field_position(fields, member),
            DefinitionData::Class { base, fields, .. } => {
                let inherited = match base {
                    Some(base) => field_index_in(program, *base, member, limit - 1),
                    None => None,
                };
                if inherited.is_some() {
                    return inherited;
                }
                let offset: usize = match base {
                    Some(base) => field_count(program, *base, limit - 1),
                    None => 0,
                };
                match field_position(fields, member) {
                    Some(position) => offset.checked_add(position),
                    None => None,
                }
            },
            _ => None,
        },
        None => None,
    }
}

/// The position of a field in a value of a nominal type.
#[verifier::allow_in_spec]
pub fn field_index(program: &Program, owner: &Type, member: MemberId) -> (r: Option<usize>)
    returns
        match owner {
            Type::Nominal(declaration, _) => {
                spec_field_index_in(
                    program,
                    *declaration,
                    member,
                    program.definitions.len(),
                )
            },
            _ => None,
        },
{
    match owner {
        Type::Nominal(declaration, _) => field_index_in(
            program,
            *declaration,
            member,
            program.definitions.len(),
        ),
        _ => None,
    }
}

/// What the type and lifetime parameters of a definition stand for.
#[verifier::allow_in_spec]
pub fn type_substitutions(
    definition: &Definition,
    arguments: &List<Type>,
) -> (r: List<Substitution>)
    returns
        bind_generics(&definition.generics, arguments, Bindable::TypesAndLifetimes, List::Nil),
{
    bind_generics(&definition.generics, arguments, Bindable::TypesAndLifetimes, List::Nil)
}

/// The type of a field of a struct, or of a class or one above it. `limit` bounds the number of
/// classes.
pub open spec fn spec_resolved_field_type_in(
    program: &Program,
    declaration: DeclarationId,
    arguments: &List<Type>,
    member: MemberId,
    limit: usize,
) -> Option<Type>
    decreases limit,
{
    if limit == 0 {
        None
    } else {
        match program.definition(declaration) {
            Some(definition) => {
                let substitutions = type_substitutions(definition, arguments);
                match &definition.data {
                    DefinitionData::Struct { fields, .. } => {
                        match field_with_id(fields, member) {
                            Some(field) => Some(substitute_mir_type(&field.ty, &substitutions)),
                            None => None,
                        }
                    },
                    DefinitionData::Class { base, fields, .. } => {
                        match field_with_id(fields, member) {
                            Some(field) => Some(substitute_mir_type(&field.ty, &substitutions)),
                            None => {
                                match base {
                                    Some(base) => {
                                        spec_resolved_field_type_in(
                                            program,
                                            *base,
                                            &List::Nil,
                                            member,
                                            (limit - 1) as usize,
                                        )
                                    },
                                    None => None,
                                }
                            },
                        }
                    },
                    _ => None,
                }
            },
            None => None,
        }
    }
}

/// The type of a field of a struct, or of a class or one above it. `limit` bounds the number of
/// classes.
#[verifier::allow_in_spec]
pub fn resolved_field_type_in(
    program: &Program,
    declaration: DeclarationId,
    arguments: &List<Type>,
    member: MemberId,
    limit: usize,
) -> (r: Option<Type>)
    returns
        spec_resolved_field_type_in(program, declaration, arguments, member, limit),
    decreases limit,
{
    proof {
        reveal_with_fuel(spec_resolved_field_type_in, 2);
    }
    if limit == 0 {
        return None;
    }
    match program.definition(declaration) {
        Some(definition) => {
            let substitutions = type_substitutions(definition, arguments);
            match &definition.data {
                DefinitionData::Struct { fields, .. } => match field_with_id(fields, member) {
                    Some(field) => Some(substitute_mir_type(&field.ty, &substitutions)),
                    None => None,
                },
                DefinitionData::Class { base, fields, .. } => match field_with_id(fields, member) {
                    Some(field) => Some(substitute_mir_type(&field.ty, &substitutions)),
                    None => match base {
                        Some(base) => resolved_field_type_in(
                            program,
                            *base,
                            &List::Nil,
                            member,
                            limit - 1,
                        ),
                        None => None,
                    },
                },
                _ => None,
            }
        },
        None => None,
    }
}

/// The type of a field of a value of a nominal type.
#[verifier::allow_in_spec]
pub fn resolved_field_type(program: &Program, owner: &Type, member: MemberId) -> (r: Option<Type>)
    returns
        match owner {
            Type::Nominal(declaration, arguments) => {
                spec_resolved_field_type_in(
                    program,
                    *declaration,
                    arguments,
                    member,
                    program.definitions.len(),
                )
            },
            _ => None,
        },
{
    match owner {
        Type::Nominal(declaration, arguments) => resolved_field_type_in(
            program,
            *declaration,
            arguments,
            member,
            program.definitions.len(),
        ),
        _ => None,
    }
}

/// A field's name and its type in a value.
#[derive(Debug, PartialEq, Eq)]
pub struct SchemaField {
    pub name: Name,
    pub ty: Type,
}

/// The fields of a struct with their types in a value.
pub open spec fn schema_fields_from(
    fields: Seq<Field>,
    substitutions: &List<Substitution>,
    from: nat,
) -> List<SchemaField>
    decreases fields.len() - from,
{
    if from >= fields.len() {
        List::Nil
    } else {
        let item = &fields[from as int];
        let found = Some(
            SchemaField { name: item.name, ty: substitute_mir_type(&item.ty, substitutions) },
        );
        match found {
            Some(found) => cons(found, schema_fields_from(fields, substitutions, from + 1)),
            None => schema_fields_from(fields, substitutions, from + 1),
        }
    }
}

/// The fields of a struct with their types in a value.
#[verifier::allow_in_spec]
pub fn schema_fields(
    fields: &Vec<Field>,
    substitutions: &List<Substitution>,
) -> (r: List<SchemaField>)
    returns
        schema_fields_from(fields@, substitutions, 0),
{
    let mut list: List<SchemaField> = List::Nil;
    let mut index: usize = fields.len();
    while index > 0
        invariant
            index <= fields@.len(),
            list == schema_fields_from(fields@, substitutions, index as nat),
        decreases index,
    {
        index = index - 1;
        let item = &fields[index];
        let found = Some(
            SchemaField { name: item.name, ty: substitute_mir_type(&item.ty, substitutions) },
        );
        match found {
            Some(found) => {
                list = cons(found, list);
            },
            None => {},
        }
    }
    list
}

/// The fields of a value of a struct type; a value of any other type has none.
#[verifier::allow_in_spec]
pub fn aggregate_schema(program: &Program, ty: &Type) -> (r: List<SchemaField>)
    returns
        match ty {
            Type::Nominal(declaration, arguments) => {
                match program.definition(*declaration) {
                    Some(definition) => {
                        match &definition.data {
                            DefinitionData::Struct { fields, .. } => {
                                schema_fields(
                                    fields,
                                    &type_substitutions(definition, arguments),
                                )
                            },
                            _ => List::Nil,
                        }
                    },
                    None => List::Nil,
                }
            },
            _ => List::Nil,
        },
{
    match ty {
        Type::Nominal(declaration, arguments) => match program.definition(*declaration) {
            Some(definition) => match &definition.data {
                DefinitionData::Struct { fields, .. } => schema_fields(
                    fields,
                    &type_substitutions(definition, arguments),
                ),
                _ => List::Nil,
            },
            None => List::Nil,
        },
        _ => List::Nil,
    }
}

/// The types of fields.
pub open spec fn spec_schema_types(schema: &List<SchemaField>) -> List<Type>
    decreases schema,
{
    match schema {
        List::Nil => List::Nil,
        List::Cons(head, tail) => cons(head.ty.dup(), spec_schema_types(tail)),
    }
}

/// The types of fields.
#[verifier::allow_in_spec]
pub fn schema_types(schema: &List<SchemaField>) -> (r: List<Type>)
    returns
        spec_schema_types(schema),
    decreases schema,
{
    proof {
        reveal_with_fuel(spec_schema_types, 2);
    }
    match schema {
        List::Nil => List::Nil,
        List::Cons(head, tail) => cons(head.ty.dup(), schema_types(tail)),
    }
}

/// The type of the field at a position.
pub open spec fn spec_schema_type(schema: &List<SchemaField>, index: usize) -> Option<Type>
    decreases schema,
{
    match schema {
        List::Nil => None,
        List::Cons(head, tail) => {
            if index == 0 {
                Some(head.ty.dup())
            } else {
                spec_schema_type(tail, index.saturating_sub(1))
            }
        },
    }
}

/// The type of the field at a position.
#[verifier::allow_in_spec]
pub fn schema_type(schema: &List<SchemaField>, index: usize) -> (r: Option<Type>)
    returns
        spec_schema_type(schema, index),
    decreases schema,
{
    proof {
        reveal_with_fuel(spec_schema_type, 2);
    }
    match schema {
        List::Nil => None,
        List::Cons(head, tail) => {
            if index == 0 {
                Some(head.ty.dup())
            } else {
                schema_type(tail, index.saturating_sub(1))
            }
        },
    }
}

/// The position of a field among fields that are numbered from `index` on.
pub open spec fn spec_schema_position(
    schema: &List<SchemaField>,
    name: Name,
    index: usize,
) -> Option<usize>
    decreases schema,
{
    match schema {
        List::Nil => None,
        List::Cons(head, tail) => {
            if head.name == name {
                Some(index)
            } else {
                spec_schema_position(tail, name, index.saturating_add(1))
            }
        },
    }
}

/// The position of a field among fields that are numbered from `index` on.
#[verifier::allow_in_spec]
pub fn schema_position(schema: &List<SchemaField>, name: Name, index: usize) -> (r: Option<usize>)
    returns
        spec_schema_position(schema, name, index),
    decreases schema,
{
    proof {
        reveal_with_fuel(spec_schema_position, 2);
    }
    match schema {
        List::Nil => None,
        List::Cons(head, tail) => {
            if head.name == name {
                Some(index)
            } else {
                schema_position(tail, name, index.saturating_add(1))
            }
        },
    }
}

/// The variants of the enum that a type is.
#[verifier::opaque]
pub open spec fn spec_variants_of<'a>(
    program: &'a Program,
    scrutinee: &Type,
) -> Option<&'a Vec<EnumVariant>> {
    match scrutinee {
        Type::Nominal(declaration, _) => {
            match program.definition(*declaration) {
                Some(definition) => {
                    match &definition.data {
                        DefinitionData::Enum { variants, .. } => Some(variants),
                        _ => None,
                    }
                },
                None => None,
            }
        },
        _ => None,
    }
}

/// The variants of the enum that a type is.
#[verifier::allow_in_spec]
pub fn variants_of<'a>(
    program: &'a Program,
    scrutinee: &Type,
) -> (r: Option<&'a Vec<EnumVariant>>)
    returns
        spec_variants_of(program, scrutinee),
{
    proof {
        reveal(spec_variants_of);
    }
    match scrutinee {
        Type::Nominal(declaration, _) => match program.definition(*declaration) {
            Some(definition) => match &definition.data {
                DefinitionData::Enum { variants, .. } => Some(variants),
                _ => None,
            },
            None => None,
        },
        _ => None,
    }
}

/// The position of a variant in an enum type.
#[verifier::allow_in_spec]
pub fn variant_index(program: &Program, scrutinee: &Type, member: MemberId) -> (r: Option<usize>)
    returns
        match spec_variants_of(program, scrutinee) {
            Some(variants) => variant_position(variants, member),
            None => None,
        },
{
    match variants_of(program, scrutinee) {
        Some(variants) => variant_position(variants, member),
        None => None,
    }
}

/// The bits of a number, read as one without a sign.
#[verifier::allow_in_spec]
pub fn unsigned_bits(value: i128) -> (r: u128)
    returns
        if value >= 0 {
            value as u128
        } else {
            (value + u128::MAX + 1) as u128
        },
{
    if value >= 0 {
        value as u128
    } else {
        let distance: u128 = (-(value + 1)) as u128;
        u128::MAX - distance
    }
}

/// The number that stands for a variant, as the bits of its discriminant: the one that is
/// declared, or else its position.
#[verifier::allow_in_spec]
pub fn variant_discriminant(
    program: &Program,
    scrutinee: &Type,
    member: MemberId,
) -> (r: Option<u128>)
    returns
        match spec_variants_of(program, scrutinee) {
            Some(variants) => {
                match (
                    variant_position(variants, member),
                    variant_with_id(variants, member),
                ) {
                    (Some(index), Some(variant)) => {
                        match variant.discriminant {
                            Some(value) => Some(unsigned_bits(value)),
                            None => Some(index as u128),
                        }
                    },
                    _ => None,
                }
            },
            None => None,
        },
{
    match variants_of(program, scrutinee) {
        Some(variants) => match (
            variant_position(variants, member),
            variant_with_id(variants, member),
        ) {
            (Some(index), Some(variant)) => match variant.discriminant {
                Some(value) => Some(unsigned_bits(value)),
                None => Some(index as u128),
            },
            _ => None,
        },
        None => None,
    }
}

/// Whether a class stands above another. `limit` bounds the number of classes.
pub open spec fn spec_has_base(
    program: &Program,
    class: DeclarationId,
    above: DeclarationId,
    limit: usize,
) -> bool
    decreases limit,
{
    if limit == 0 {
        false
    } else {
        match program.definition(class) {
            Some(definition) => {
                match &definition.data {
                    DefinitionData::Class { base: Some(base), .. } => {
                        *base == above || spec_has_base(
                            program,
                            *base,
                            above,
                            (limit - 1) as usize,
                        )
                    },
                    _ => false,
                }
            },
            None => false,
        }
    }
}

/// Whether a class stands above another. `limit` bounds the number of classes.
#[verifier::allow_in_spec]
pub fn has_base(
    program: &Program,
    class: DeclarationId,
    above: DeclarationId,
    limit: usize,
) -> (r: bool)
    returns
        spec_has_base(program, class, above, limit),
    decreases limit,
{
    proof {
        reveal_with_fuel(spec_has_base, 2);
    }
    if limit == 0 {
        return false;
    }
    match program.definition(class) {
        Some(definition) => match &definition.data {
            DefinitionData::Class { base: Some(base), .. } => *base == above || has_base(
                program,
                *base,
                above,
                limit - 1,
            ),
            _ => false,
        },
        None => false,
    }
}

/// Whether one of the types is a nominal type with a declaration.
pub open spec fn names_interface_from(interfaces: Seq<Type>, id: DeclarationId, from: nat) -> bool
    decreases interfaces.len() - from,
{
    if from >= interfaces.len() {
        false
    } else {
        let item = &interfaces[from as int];
        let found = {
            match item {
                Type::Nominal(interface, _) => *interface == id,
                _ => false,
            }
        };
        found || names_interface_from(interfaces, id, from + 1)
    }
}

/// Whether one of the types is a nominal type with a declaration.
#[verifier::allow_in_spec]
pub fn names_interface(interfaces: &Vec<Type>, id: DeclarationId) -> (r: bool)
    returns
        names_interface_from(interfaces@, id, 0),
{
    let mut index: usize = 0;
    while index < interfaces.len()
        invariant
            names_interface_from(interfaces@, id, 0)
                == names_interface_from(interfaces@, id, index as nat),
        decreases interfaces.len() - index,
    {
        let item = &interfaces[index];
        let found = {
            match item {
                Type::Nominal(interface, _) => *interface == id,
                _ => false,
            }
        };
        if found {
            return true;
        }
        index = index + 1;
    }
    false
}

/// Whether a definition makes one declared type conform to another.
pub open spec fn conforms_by_from(
    definitions: Seq<Definition>,
    id: DeclarationId,
    interface: DeclarationId,
    from: nat,
) -> bool
    decreases definitions.len() - from,
{
    if from >= definitions.len() {
        false
    } else {
        let item = &definitions[from as int];
        let found = {
            match &item.data {
                DefinitionData::Class { interfaces, .. } => {
                    item.declaration == id && names_interface(
                        interfaces,
                        interface,
                    )
                },
                DefinitionData::Implementation {
                    interface: Some(Type::Nominal(implemented, _)),
                    target: Type::Nominal(target, _),
                    ..
                } => {
                    *implemented == interface && *target == id
                },
                _ => false,
            }
        };
        found || conforms_by_from(definitions, id, interface, from + 1)
    }
}

/// Whether a definition makes one declared type conform to another.
#[verifier::allow_in_spec]
pub fn conforms_by(
    definitions: &Vec<Definition>,
    id: DeclarationId,
    interface: DeclarationId,
) -> (r: bool)
    returns
        conforms_by_from(definitions@, id, interface, 0),
{
    let mut index: usize = 0;
    while index < definitions.len()
        invariant
            conforms_by_from(definitions@, id, interface, 0)
                == conforms_by_from(definitions@, id, interface, index as nat),
        decreases definitions.len() - index,
    {
        let item = &definitions[index];
        let found = {
            match &item.data {
                DefinitionData::Class { interfaces, .. } => item.declaration == id
                    && names_interface(
                    interfaces,
                    interface,
                ),
                DefinitionData::Implementation {
                    interface: Some(Type::Nominal(implemented, _)),
                    target: Type::Nominal(target, _),
                    ..
                } => *implemented == interface && *target == id,
                _ => false,
            }
        };
        if found {
            return true;
        }
        index = index + 1;
    }
    false
}

/// Whether a clause that catches a type catches an error: the type itself, a class below it or
/// what conforms to it.
#[verifier::allow_in_spec]
pub fn catch_handles(program: &Program, caught: &Type, effect: DeclarationId) -> (r: bool)
    returns
        match nominal_id(caught) {
            Some(id) => {
                id == effect || spec_has_base(program, effect, id, program.definitions.len())
                || conforms_by(&program.definitions, effect, id)
            },
            None => false,
        },
{
    match nominal_id(caught) {
        Some(id) => id == effect || has_base(program, effect, id, program.definitions.len())
            || conforms_by(&program.definitions, effect, id),
        None => false,
    }
}

/// The method that disposes of a value asynchronously.
#[verifier::opaque]
pub open spec fn spec_disposal_method<'a>(program: &'a Program, ty: &Type) -> Option<&'a Method> {
    match nominal_id(ty) {
        Some(declaration) => {
            match program.definition(declaration) {
                Some(definition) => {
                    match &definition.data {
                        DefinitionData::Struct { methods, .. } => {
                            find_method(methods, Name::AsyncDispose)
                        },
                        DefinitionData::Class { methods, .. } => {
                            find_method(methods, Name::AsyncDispose)
                        },
                        DefinitionData::Implementation { methods, .. } => {
                            find_method(
                                methods,
                                Name::AsyncDispose,
                            )
                        },
                        _ => None,
                    }
                },
                None => None,
            }
        },
        None => None,
    }
}

/// The method that disposes of a value asynchronously.
#[verifier::allow_in_spec]
pub fn disposal_method<'a>(program: &'a Program, ty: &Type) -> (r: Option<&'a Method>)
    returns
        spec_disposal_method(program, ty),
{
    proof {
        reveal(spec_disposal_method);
    }
    match nominal_id(ty) {
        Some(declaration) => match program.definition(declaration) {
            Some(definition) => match &definition.data {
                DefinitionData::Struct { methods, .. } => find_method(methods, Name::AsyncDispose),
                DefinitionData::Class { methods, .. } => find_method(methods, Name::AsyncDispose),
                DefinitionData::Implementation { methods, .. } => find_method(
                    methods,
                    Name::AsyncDispose,
                ),
                _ => None,
            },
            None => None,
        },
        None => None,
    }
}

/// The class or struct with a name among declarations.
pub open spec fn nominal_among_from(
    declarations: Seq<Declaration>,
    name: Name,
    from: nat,
) -> Option<DeclarationId>
    decreases declarations.len() - from,
{
    if from >= declarations.len() {
        None
    } else {
        let item = &declarations[from as int];
        let found = {
            if (item.kind == DeclarationKind::Class || item.kind == DeclarationKind::Struct)
            && item.name == Some(name) {
                Some(item.id)
            } else {
                None
            }
        };
        match found {
            Some(found) => Some(found),
            None => nominal_among_from(declarations, name, from + 1),
        }
    }
}

/// The class or struct with a name among declarations.
#[verifier::allow_in_spec]
pub fn nominal_among(declarations: &Vec<Declaration>, name: Name) -> (r: Option<DeclarationId>)
    returns
        nominal_among_from(declarations@, name, 0),
{
    let mut index: usize = 0;
    while index < declarations.len()
        invariant
            nominal_among_from(declarations@, name, 0)
                == nominal_among_from(declarations@, name, index as nat),
        decreases declarations.len() - index,
    {
        let item = &declarations[index];
        let found = {
            if (item.kind == DeclarationKind::Class || item.kind == DeclarationKind::Struct)
                && item.name == Some(name) {
                Some(item.id)
            } else {
                None
            }
        };
        match found {
            Some(found) => {
                return Some(found);
            },
            None => {},
        }
        index = index + 1;
    }
    None
}

/// The first class or struct with a name in any module.
pub open spec fn nominal_in_from(
    modules: Seq<Module>,
    name: Name,
    from: nat,
) -> Option<DeclarationId>
    decreases modules.len() - from,
{
    if from >= modules.len() {
        None
    } else {
        let item = &modules[from as int];
        let found = nominal_among(&item.declarations, name);
        match found {
            Some(found) => Some(found),
            None => nominal_in_from(modules, name, from + 1),
        }
    }
}

/// The first class or struct with a name in any module.
#[verifier::allow_in_spec]
pub fn nominal_in(modules: &Vec<Module>, name: Name) -> (r: Option<DeclarationId>)
    returns
        nominal_in_from(modules@, name, 0),
{
    let mut index: usize = 0;
    while index < modules.len()
        invariant
            nominal_in_from(modules@, name, 0) == nominal_in_from(modules@, name, index as nat),
        decreases modules.len() - index,
    {
        let item = &modules[index];
        let found = nominal_among(&item.declarations, name);
        match found {
            Some(found) => {
                return Some(found);
            },
            None => {},
        }
        index = index + 1;
    }
    None
}

/// The first class or struct of the program with a name.
#[verifier::allow_in_spec]
pub fn nominal_named(program: &Program, name: Name) -> (r: Option<DeclarationId>)
    returns
        nominal_in(&program.modules, name),
{
    nominal_in(&program.modules, name)
}

/// The constructor of a class.
#[verifier::opaque]
pub open spec fn spec_constructor_of<'a>(
    program: &'a Program,
    class: DeclarationId,
) -> Option<&'a Method> {
    match program.definition(class) {
        Some(definition) => {
            match &definition.data {
                DefinitionData::Class { constructor: Some(constructor), .. } => {
                    Some(constructor)
                },
                _ => None,
            }
        },
        None => None,
    }
}

/// The constructor of a class.
#[verifier::allow_in_spec]
pub fn constructor_of<'a>(program: &'a Program, class: DeclarationId) -> (r: Option<&'a Method>)
    returns
        spec_constructor_of(program, class),
{
    proof {
        reveal(spec_constructor_of);
    }
    match program.definition(class) {
        Some(definition) => match &definition.data {
            DefinitionData::Class { constructor: Some(constructor), .. } => Some(constructor),
            _ => None,
        },
        None => None,
    }
}

/// Whether a declaration is a constant or a static.
#[verifier::allow_in_spec]
pub fn is_global_declaration(program: &Program, declaration: DeclarationId) -> (r: bool)
    returns
        match program.declaration(declaration) {
            Some(declaration) => {
                declaration.kind == DeclarationKind::Const || declaration.kind
                == DeclarationKind::Static
            },
            None => false,
        },
{
    match program.declaration(declaration) {
        Some(declaration) => declaration.kind == DeclarationKind::Const || declaration.kind
            == DeclarationKind::Static,
        None => false,
    }
}

/// The type of a constant or static.
#[verifier::opaque]
pub open spec fn spec_global_type(program: &Program, declaration: DeclarationId) -> Option<Type> {
    if !is_global_declaration(program, declaration) {
        None
    } else {
        match program.definition(declaration) {
            Some(definition) => {
                match &definition.data {
                    DefinitionData::Constant { ty, .. } => Some(ty.dup()),
                    _ => None,
                }
            },
            None => None,
        }
    }
}

/// The type of a constant or static.
#[verifier::allow_in_spec]
pub fn global_type(program: &Program, declaration: DeclarationId) -> (r: Option<Type>)
    returns
        spec_global_type(program, declaration),
{
    proof {
        reveal(spec_global_type);
    }
    if !is_global_declaration(program, declaration) {
        return None;
    }
    match program.definition(declaration) {
        Some(definition) => match &definition.data {
            DefinitionData::Constant { ty, .. } => Some(ty.dup()),
            _ => None,
        },
        None => None,
    }
}

} // verus!
