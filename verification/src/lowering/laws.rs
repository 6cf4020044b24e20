//! What holds of the tables of classes, and of the errors that a clause catches.

use vstd::prelude::*;

use crate::chains::{
    defined_at, extended_class, is_numbered, lemma_is_defined, lemma_reached, lemma_repeats,
    lemma_walked_before, lemma_walked_on, walked,
};
use crate::hir::{DeclarationId, DefinitionData, Method, Program, Type};
use crate::list::List;
use crate::lowering::members::{
    catch_handles, conforms_by, slots_with_from, spec_class_vtable_methods, spec_filled_slots,
    spec_has_base, Slot,
};
use crate::names::Name;
use crate::program::nominal_id;

verus! {

/// Whether a table goes on where another ends: what stands in both has the same name there.
pub open spec fn keeps_places(before: Seq<Slot>, after: Seq<Slot>) -> bool {
    before.len() <= after.len() && forall|index: int|
        0 <= index < before.len() ==> (#[trigger] after[index]).name == before[index].name
}

/// Whether no two slots have the same name.
pub open spec fn has_distinct_names(slots: Seq<Slot>) -> bool {
    forall|left: int, right: int|
        0 <= left < right < slots.len() ==> (#[trigger] slots[left]).name != (
        #[trigger] slots[right]).name
}

/// Whether a slot stands in a table.
pub open spec fn has_slot(slots: Seq<Slot>, slot: Slot) -> bool {
    exists|index: int| 0 <= index < slots.len() && #[trigger] slots[index] == slot
}

proof fn lemma_filled(slots: List<Slot>, slot: Slot)
    ensures
        keeps_places(slots.seq(), spec_filled_slots(slots, slot).seq()),
        has_slot(spec_filled_slots(slots, slot).seq(), slot),
        forall|index: int|
            0 <= index < spec_filled_slots(slots, slot).seq().len() ==> (
            #[trigger] spec_filled_slots(slots, slot).seq()[index]).name == slot.name || (index
                < slots.seq().len() && spec_filled_slots(slots, slot).seq()[index]
                == slots.seq()[index]),
        has_distinct_names(slots.seq()) ==> has_distinct_names(
            spec_filled_slots(slots, slot).seq(),
        ),
    decreases slots,
{
    let filled = spec_filled_slots(slots, slot).seq();
    match slots {
        List::Nil => {
            assert(List::<Slot>::Nil.seq() =~= Seq::empty());
            assert(filled =~= seq![slot]);
            assert(filled[0] == slot);
        },
        List::Cons(head, tail) => {
            let given = slots.seq();
            assert(given =~= seq![*head] + tail.seq());
            if head.name == slot.name {
                assert(filled =~= seq![slot] + tail.seq());
                assert(filled[0] == slot);
                assert forall|index: int| 0 <= index < given.len() implies (
                #[trigger] filled[index]).name == given[index].name by {}
                if has_distinct_names(given) {
                    assert forall|left: int, right: int|
                        0 <= left < right < filled.len() implies (#[trigger] filled[left]).name
                        != (#[trigger] filled[right]).name by {
                        assert(given[left].name != given[right].name);
                    }
                }
            } else {
                lemma_filled(*tail, slot);
                let rest = spec_filled_slots(*tail, slot).seq();
                assert(filled =~= seq![*head] + rest);
                let place = choose|place: int| 0 <= place < rest.len() && rest[place] == slot;
                assert(filled[place + 1] == slot);
                assert forall|index: int| 0 <= index < given.len() implies (
                #[trigger] filled[index]).name == given[index].name by {
                    if index > 0 {
                        assert(rest[index - 1].name == tail.seq()[index - 1].name);
                    }
                }
                assert forall|index: int| 0 <= index < filled.len() implies (
                #[trigger] filled[index]).name == slot.name || (index < given.len()
                    && filled[index] == given[index]) by {
                    if index > 0 {
                        assert(rest[index - 1].name == slot.name || (index - 1 < tail.seq().len()
                            && rest[index - 1] == tail.seq()[index - 1]));
                    }
                }
                if has_distinct_names(given) {
                    assert forall|left: int, right: int|
                        0 <= left < right < tail.seq().len() implies (
                    #[trigger] tail.seq()[left]).name != (#[trigger] tail.seq()[right]).name by {
                        assert(given[left + 1].name != given[right + 1].name);
                    }
                    assert forall|left: int, right: int|
                        0 <= left < right < filled.len() implies (#[trigger] filled[left]).name
                        != (#[trigger] filled[right]).name by {
                        if left > 0 {
                            assert(rest[left - 1].name != rest[right - 1].name);
                        } else if rest[right - 1].name != slot.name {
                            assert(given[0].name != given[right].name);
                        }
                    }
                }
            }
        },
    }
}

proof fn lemma_slots_with(methods: Seq<Method>, slots: List<Slot>, from: nat)
    ensures
        keeps_places(slots.seq(), slots_with_from(methods, slots, from).seq()),
        has_distinct_names(slots.seq()) ==> has_distinct_names(
            slots_with_from(methods, slots, from).seq(),
        ),
    decreases methods.len() - from,
{
    if from < methods.len() {
        let item = methods[from as int];
        let folded = spec_filled_slots(slots, Slot { name: item.name, member: item.id });
        lemma_filled(slots, Slot { name: item.name, member: item.id });
        lemma_slots_with(methods, folded, from + 1);
        let whole = slots_with_from(methods, folded, from + 1);
        assert forall|index: int| 0 <= index < slots.seq().len() implies (
        #[trigger] whole.seq()[index]).name == slots.seq()[index].name by {
            assert(folded.seq()[index].name == slots.seq()[index].name);
        }
    }
}

proof fn lemma_slot_stays(methods: Seq<Method>, slots: List<Slot>, from: nat, slot: Slot)
    requires
        has_slot(slots.seq(), slot),
        forall|index: int|
            from <= index < methods.len() ==> (#[trigger] methods[index]).name != slot.name,
    ensures
        has_slot(slots_with_from(methods, slots, from).seq(), slot),
    decreases methods.len() - from,
{
    if from < methods.len() {
        let item = methods[from as int];
        let folded = spec_filled_slots(slots, Slot { name: item.name, member: item.id });
        lemma_filled(slots, Slot { name: item.name, member: item.id });
        let place = choose|place: int|
            0 <= place < slots.seq().len() && slots.seq()[place] == slot;
        assert(folded.seq()[place].name == slots.seq()[place].name);
        assert(folded.seq()[place] == slot);
        lemma_slot_stays(methods, folded, from + 1, slot);
    }
}

proof fn lemma_method_has_slot(methods: Seq<Method>, slots: List<Slot>, from: nat, index: int)
    requires
        from <= index < methods.len(),
        forall|later: int|
            index < later < methods.len() ==> (#[trigger] methods[later]).name
                != methods[index].name,
    ensures
        has_slot(
            slots_with_from(methods, slots, from).seq(),
            Slot { name: methods[index].name, member: methods[index].id },
        ),
    decreases methods.len() - from,
{
    let item = methods[from as int];
    let slot = Slot { name: item.name, member: item.id };
    let folded = spec_filled_slots(slots, slot);
    lemma_filled(slots, slot);
    if from < index {
        lemma_method_has_slot(methods, folded, from + 1, index);
    } else {
        lemma_slot_stays(methods, folded, from + 1, slot);
    }
}

/// The table of a class starts with the slots of the class that it extends, each under its name,
/// so that a method has one position in the tables of all classes below.
pub proof fn inherited_slots_keep_their_places(
    program: &Program,
    declaration: DeclarationId,
    limit: usize,
)
    requires
        limit > 0,
        program.definition(declaration) is Some,
        program.definition(declaration)->0.data is Class,
        program.definition(declaration)->0.data->Class_base is Some,
    ensures
        keeps_places(
            spec_class_vtable_methods(
                program,
                program.definition(declaration)->0.data->Class_base->0,
                (limit - 1) as usize,
            ).seq(),
            spec_class_vtable_methods(program, declaration, limit).seq(),
        ),
{
    reveal_with_fuel(spec_class_vtable_methods, 2);
    let data = program.definition(declaration)->0.data;
    let inherited = spec_class_vtable_methods(program, data->Class_base->0, (limit - 1) as usize);
    lemma_slots_with(data->Class_methods@, inherited, 0);
}

/// No two slots of a table have the same name.
pub proof fn slots_have_distinct_names(
    program: &Program,
    declaration: DeclarationId,
    limit: usize,
)
    ensures
        has_distinct_names(spec_class_vtable_methods(program, declaration, limit).seq()),
    decreases limit,
{
    reveal_with_fuel(spec_class_vtable_methods, 2);
    assert(List::<Slot>::Nil.seq() =~= Seq::empty());
    if limit > 0 {
        if let Some(definition) = program.definition(declaration) {
            if let DefinitionData::Class { base, methods, .. } = &definition.data {
                let inherited = match base {
                    Some(base) => spec_class_vtable_methods(program, *base, (limit - 1) as usize),
                    None => List::Nil,
                };
                if let Some(base) = base {
                    slots_have_distinct_names(program, *base, (limit - 1) as usize);
                }
                lemma_slots_with(methods@, inherited, 0);
            }
        }
    }
}

/// A method of a class, the last one of its name, stands in the table of the class.
pub proof fn methods_have_slots(
    program: &Program,
    declaration: DeclarationId,
    limit: usize,
    index: int,
)
    requires
        limit > 0,
        program.definition(declaration) is Some,
        program.definition(declaration)->0.data is Class,
        0 <= index < program.definition(declaration)->0.data->Class_methods@.len(),
        forall|later: int|
            index < later < program.definition(declaration)->0.data->Class_methods@.len() ==> (
            #[trigger] program.definition(declaration)->0.data->Class_methods@[later]).name
                != program.definition(declaration)->0.data->Class_methods@[index].name,
    ensures
        has_slot(
            spec_class_vtable_methods(program, declaration, limit).seq(),
            Slot {
                name: program.definition(declaration)->0.data->Class_methods@[index].name,
                member: program.definition(declaration)->0.data->Class_methods@[index].id,
            },
        ),
{
    reveal_with_fuel(spec_class_vtable_methods, 2);
    let data = program.definition(declaration)->0.data;
    let inherited = match data->Class_base {
        Some(base) => spec_class_vtable_methods(program, base, (limit - 1) as usize),
        None => List::Nil,
    };
    lemma_method_has_slot(data->Class_methods@, inherited, 0, index);
}

/// Whether a slot has a name.
pub open spec fn names_slot(slots: Seq<Slot>, name: Name) -> bool {
    exists|index: int| 0 <= index < slots.len() && (#[trigger] slots[index]).name == name
}

/// Whether no two methods have the same name.
pub open spec fn are_distinct(methods: Seq<Method>) -> bool {
    forall|left: int, right: int|
        0 <= left < right < methods.len() ==> (#[trigger] methods[left]).name != (
        #[trigger] methods[right]).name
}

/// The slot with the method from position `from` on that has its name, if there is one.
pub open spec fn overridden(methods: Seq<Method>, slot: Slot, from: nat) -> Slot
    decreases methods.len() - from,
{
    if from >= methods.len() {
        slot
    } else if methods[from as int].name == slot.name {
        Slot { name: slot.name, member: methods[from as int].id }
    } else {
        overridden(methods, slot, from + 1)
    }
}

/// The slots of the methods from position `from` on that other slots do not name, in their order.
pub open spec fn new_slots(methods: Seq<Method>, slots: Seq<Slot>, from: nat) -> Seq<Slot>
    decreases methods.len() - from,
{
    if from >= methods.len() {
        Seq::empty()
    } else {
        let method = methods[from as int];
        let others = new_slots(methods, slots, from + 1);
        if names_slot(slots, method.name) {
            others
        } else {
            seq![Slot { name: method.name, member: method.id }] + others
        }
    }
}

proof fn lemma_filled_exactly(slots: List<Slot>, slot: Slot)
    requires
        has_distinct_names(slots.seq()),
    ensures
        !names_slot(slots.seq(), slot.name) ==> spec_filled_slots(slots, slot).seq()
            == slots.seq().push(slot),
        names_slot(slots.seq(), slot.name) ==> spec_filled_slots(slots, slot).seq().len()
            == slots.seq().len() && forall|index: int|
            0 <= index < slots.seq().len() ==> #[trigger] spec_filled_slots(
                slots,
                slot,
            ).seq()[index] == if slots.seq()[index].name == slot.name {
                slot
            } else {
                slots.seq()[index]
            },
    decreases slots,
{
    let given = slots.seq();
    let filled = spec_filled_slots(slots, slot).seq();
    match slots {
        List::Nil => {
            assert(given =~= Seq::empty());
            assert(List::<Slot>::Nil.seq() =~= Seq::empty());
            assert(filled =~= given.push(slot));
        },
        List::Cons(head, tail) => {
            assert(given =~= seq![*head] + tail.seq());
            assert(given[0] == *head);
            assert forall|index: int| 0 <= index < tail.seq().len() implies #[trigger] tail.seq()[
            index] == given[index + 1] by {}
            if head.name == slot.name {
                assert(filled =~= seq![slot] + tail.seq());
                assert(names_slot(given, slot.name));
                assert forall|index: int| 0 < index < given.len() implies (
                #[trigger] given[index]).name != slot.name by {
                    assert(given[0].name != given[index].name);
                }
            } else {
                assert forall|left: int, right: int| 0 <= left < right < tail.seq().len() implies (
                #[trigger] tail.seq()[left]).name != (#[trigger] tail.seq()[right]).name by {
                    assert(given[left + 1].name != given[right + 1].name);
                }
                lemma_filled_exactly(*tail, slot);
                let rest = spec_filled_slots(*tail, slot).seq();
                assert(filled =~= seq![*head] + rest);
                if names_slot(given, slot.name) {
                    let index = choose|index: int|
                        0 <= index < given.len() && (#[trigger] given[index]).name == slot.name;
                    assert(tail.seq()[index - 1].name == slot.name);
                    assert(names_slot(tail.seq(), slot.name));
                    assert forall|index: int| 0 <= index < given.len() implies #[trigger] filled[
                    index] == if given[index].name == slot.name {
                        slot
                    } else {
                        given[index]
                    } by {
                        if index > 0 {
                            assert(filled[index] == rest[index - 1]);
                            assert(given[index] == tail.seq()[index - 1]);
                        }
                    }
                } else {
                    if names_slot(tail.seq(), slot.name) {
                        let index = choose|index: int|
                            0 <= index < tail.seq().len() && (#[trigger] tail.seq()[index]).name
                                == slot.name;
                        assert(given[index + 1].name == slot.name);
                    }
                    assert(filled =~= given.push(slot));
                }
            }
        },
    }
}

proof fn lemma_same_new_slots(
    methods: Seq<Method>,
    left: Seq<Slot>,
    right: Seq<Slot>,
    from: nat,
)
    requires
        forall|index: int|
            from <= index < methods.len() ==> names_slot(
                left,
                (#[trigger] methods[index]).name,
            ) == names_slot(right, methods[index].name),
    ensures
        new_slots(methods, left, from) == new_slots(methods, right, from),
    decreases methods.len() - from,
{
    if from < methods.len() {
        lemma_same_new_slots(methods, left, right, from + 1);
        assert(names_slot(left, methods[from as int].name) == names_slot(
            right,
            methods[from as int].name,
        ));
    }
}

proof fn lemma_not_overridden(methods: Seq<Method>, slot: Slot, from: nat)
    requires
        forall|index: int|
            from <= index < methods.len() ==> (#[trigger] methods[index]).name != slot.name,
    ensures
        overridden(methods, slot, from) == slot,
    decreases methods.len() - from,
{
    if from < methods.len() {
        lemma_not_overridden(methods, slot, from + 1);
    }
}

proof fn lemma_slots_exactly(methods: Seq<Method>, slots: List<Slot>, from: nat)
    requires
        are_distinct(methods),
        has_distinct_names(slots.seq()),
    ensures
        slots_with_from(methods, slots, from).seq() == slots.seq().map_values(
            |slot: Slot| overridden(methods, slot, from),
        ) + new_slots(methods, slots.seq(), from),
    decreases methods.len() - from,
{
    let given = slots.seq();
    let table = slots_with_from(methods, slots, from).seq();
    let changed = given.map_values(|slot: Slot| overridden(methods, slot, from));
    if from >= methods.len() {
        assert(table =~= changed + new_slots(methods, given, from));
    } else {
        let item = methods[from as int];
        let slot = Slot { name: item.name, member: item.id };
        let folded = spec_filled_slots(slots, slot);
        lemma_filled(slots, slot);
        lemma_filled_exactly(slots, slot);
        lemma_slots_exactly(methods, folded, from + 1);
        let later = folded.seq().map_values(|slot: Slot| overridden(methods, slot, from + 1));
        assert forall|index: int| from + 1 <= index < methods.len() implies (
        #[trigger] methods[index]).name != slot.name by {
            assert(methods[from as int].name != methods[index].name);
        }
        lemma_not_overridden(methods, slot, from + 1);
        assert forall|index: int| 0 <= index < given.len() implies #[trigger] later[index]
            == changed[index] by {
            if given[index].name != slot.name {
                if !names_slot(given, slot.name) {
                    assert(folded.seq()[index] == given.push(slot)[index]);
                }
                assert(folded.seq()[index] == given[index]);
            } else {
                assert(names_slot(given, slot.name));
                assert(folded.seq()[index] == slot);
            }
        }
        assert forall|index: int| from + 1 <= index < methods.len() implies names_slot(
            given,
            (#[trigger] methods[index]).name,
        ) == names_slot(folded.seq(), methods[index].name) by {
            let name = methods[index].name;
            if names_slot(given, name) {
                let place = choose|place: int|
                    0 <= place < given.len() && (#[trigger] given[place]).name == name;
                assert(folded.seq()[place].name == given[place].name);
            }
            if names_slot(folded.seq(), name) {
                let place = choose|place: int|
                    0 <= place < folded.seq().len() && (#[trigger] folded.seq()[place]).name
                        == name;
                assert(folded.seq()[place] != slot);
                assert(given[place].name == name);
            }
        }
        lemma_same_new_slots(methods, given, folded.seq(), from + 1);
        let others = new_slots(methods, given, from + 1);
        if names_slot(given, slot.name) {
            assert(later =~= changed);
        } else {
            assert(folded.seq().last() == slot);
            assert(later =~= changed.push(slot));
            assert(changed.push(slot) + others =~= changed + (seq![slot] + others));
        }
    }
}

/// Where the methods of a class have names of their own, its table holds first the slots of the
/// class that it extends, each with the class's own method of that name, or unchanged if there is
/// none, and then the methods that have no such slot, in their order.
pub proof fn tables_extend_those_above(
    program: &Program,
    declaration: DeclarationId,
    limit: usize,
)
    requires
        limit > 0,
        program.definition(declaration) is Some,
        program.definition(declaration)->0.data is Class,
        program.definition(declaration)->0.data->Class_base is Some,
        are_distinct(program.definition(declaration)->0.data->Class_methods@),
    ensures
        ({
            let data = program.definition(declaration)->0.data;
            let methods = data->Class_methods@;
            let above = spec_class_vtable_methods(
                program,
                data->Class_base->0,
                (limit - 1) as usize,
            ).seq();
            let table = spec_class_vtable_methods(program, declaration, limit).seq();
            &&& table == above.map_values(|slot: Slot| overridden(methods, slot, 0)) + new_slots(
                methods,
                above,
                0,
            )
            &&& forall|index: int, own: int|
                0 <= index < above.len() && 0 <= own < methods.len() && (
                #[trigger] methods[own]).name == above[index].name ==> #[trigger] table[index] == (
                Slot { name: above[index].name, member: methods[own].id })
            &&& forall|index: int|
                0 <= index < above.len() && (forall|own: int|
                    0 <= own < methods.len() ==> (#[trigger] methods[own]).name
                        != above[index].name) ==> #[trigger] table[index] == above[index]
        }),
{
    reveal_with_fuel(spec_class_vtable_methods, 2);
    let data = program.definition(declaration)->0.data;
    let methods = data->Class_methods@;
    let inherited = spec_class_vtable_methods(program, data->Class_base->0, (limit - 1) as usize);
    let above = inherited.seq();
    let table = spec_class_vtable_methods(program, declaration, limit).seq();
    slots_have_distinct_names(program, data->Class_base->0, (limit - 1) as usize);
    lemma_slots_exactly(methods, inherited, 0);
    assert forall|index: int, own: int|
        0 <= index < above.len() && 0 <= own < methods.len() && (#[trigger] methods[own]).name
            == above[index].name implies #[trigger] table[index] == (Slot {
        name: above[index].name,
        member: methods[own].id,
    }) by {
        lemma_overridden_by(methods, above[index], 0, own);
    }
    assert forall|index: int|
        0 <= index < above.len() && (forall|own: int|
            0 <= own < methods.len() ==> (#[trigger] methods[own]).name
                != above[index].name) implies #[trigger] table[index] == above[index] by {
        lemma_not_overridden(methods, above[index], 0);
    }
}

proof fn lemma_overridden_by(methods: Seq<Method>, slot: Slot, from: nat, own: int)
    requires
        are_distinct(methods),
        from <= own < methods.len(),
        methods[own].name == slot.name,
    ensures
        overridden(methods, slot, from) == (Slot { name: slot.name, member: methods[own].id }),
    decreases methods.len() - from,
{
    if from < own {
        assert(methods[from as int].name != methods[own].name);
        lemma_overridden_by(methods, slot, from + 1, own);
    }
}

/// Where none of the methods of a class has a slot above it, and they have names of their own,
/// they stand in their order behind all slots above.
pub proof fn new_methods_follow_in_order(
    program: &Program,
    declaration: DeclarationId,
    limit: usize,
    own: int,
)
    requires
        limit > 0,
        program.definition(declaration) is Some,
        program.definition(declaration)->0.data is Class,
        program.definition(declaration)->0.data->Class_base is Some,
        are_distinct(program.definition(declaration)->0.data->Class_methods@),
        0 <= own < program.definition(declaration)->0.data->Class_methods@.len(),
        ({
            let data = program.definition(declaration)->0.data;
            let above = spec_class_vtable_methods(
                program,
                data->Class_base->0,
                (limit - 1) as usize,
            ).seq();
            forall|index: int|
                0 <= index < data->Class_methods@.len() ==> !names_slot(
                    above,
                    (#[trigger] data->Class_methods@[index]).name,
                )
        }),
    ensures
        ({
            let data = program.definition(declaration)->0.data;
            let above = spec_class_vtable_methods(
                program,
                data->Class_base->0,
                (limit - 1) as usize,
            ).seq();
            let table = spec_class_vtable_methods(program, declaration, limit).seq();
            &&& table.len() == above.len() + data->Class_methods@.len()
            &&& table[above.len() + own] == (Slot {
                name: data->Class_methods@[own].name,
                member: data->Class_methods@[own].id,
            })
        }),
{
    tables_extend_those_above(program, declaration, limit);
    let data = program.definition(declaration)->0.data;
    let above = spec_class_vtable_methods(program, data->Class_base->0, (limit - 1) as usize);
    lemma_all_new(data->Class_methods@, above.seq(), 0, own);
}

proof fn lemma_all_new(methods: Seq<Method>, slots: Seq<Slot>, from: nat, own: int)
    requires
        from <= own < methods.len(),
        forall|index: int|
            from <= index < methods.len() ==> !names_slot(slots, (#[trigger] methods[index]).name),
    ensures
        new_slots(methods, slots, from).len() == methods.len() - from,
        new_slots(methods, slots, from)[own - from] == (Slot {
            name: methods[own].name,
            member: methods[own].id,
        }),
    decreases methods.len() - from,
{
    assert(!names_slot(slots, methods[from as int].name));
    if from + 1 < methods.len() {
        lemma_all_new(
            methods,
            slots,
            from + 1,
            if own == from {
                own + 1
            } else {
                own
            },
        );
    } else {
        assert(new_slots(methods, slots, from + 1) =~= Seq::empty());
    }
}

/// The class that a class extends.
pub open spec fn base_above(program: &Program, class: DeclarationId) -> Option<DeclarationId> {
    extended_class(program.definition(class))
}

/// Whether a declaration is a class.
pub open spec fn is_defined_class(program: &Program, id: DeclarationId) -> bool {
    match program.definition(id) {
        Some(definition) => definition.data is Class,
        None => false,
    }
}

/// The class that a number of classes stands below, each of which extends the next.
pub open spec fn base_ancestor(program: &Program, class: DeclarationId, count: nat) -> Option<
    DeclarationId,
> {
    walked(|id: DeclarationId| base_above(program, id), class, count)
}

/// Whether a chain of classes, each of which extends the next, ends within a number of steps.
pub open spec fn ends_within(program: &Program, class: DeclarationId, count: nat) -> bool {
    match base_ancestor(program, class, count) {
        Some(id) => !is_defined_class(program, id),
        None => true,
    }
}

proof fn lemma_classes_numbered(program: &Program)
    ensures
        is_numbered(
            |id: DeclarationId| is_defined_class(program, id),
            |id: DeclarationId| defined_at(program, id),
            program.definitions@.len(),
        ),
{
    assert forall|id: DeclarationId| is_defined_class(program, id) implies 0
        <= #[trigger] defined_at(program, id) < program.definitions@.len()
        && program.definitions@[defined_at(program, id)].declaration == id by {
        lemma_is_defined(program.definitions@, id, 0);
    }
    let inside = |id: DeclarationId| is_defined_class(program, id);
    let number = |id: DeclarationId| defined_at(program, id);
    assert forall|id: DeclarationId| #[trigger] inside(id) implies 0 <= number(id)
        < program.definitions@.len() by {
        assert(0 <= defined_at(program, id) < program.definitions@.len());
    }
    assert forall|left: DeclarationId, right: DeclarationId|
        #[trigger] inside(left) && #[trigger] inside(right) && number(left) == number(
            right,
        ) implies left == right by {
        assert(program.definitions@[defined_at(program, left)].declaration == left);
        assert(program.definitions@[defined_at(program, right)].declaration == right);
    }
}

proof fn lemma_ends_later(program: &Program, class: DeclarationId, count: nat, later: nat)
    requires
        ends_within(program, class, count),
        count <= later,
    ensures
        ends_within(program, class, later),
    decreases later,
{
    if count < later {
        lemma_ends_later(program, class, count, (later - 1) as nat);
    }
}

proof fn lemma_ends_within_definitions(program: &Program, class: DeclarationId, count: nat)
    requires
        ends_within(program, class, count),
    ensures
        ends_within(program, class, program.definitions@.len()),
    decreases count,
{
    let bound = program.definitions@.len();
    if count <= bound {
        lemma_ends_later(program, class, count, bound);
    } else if ends_within(program, class, (count - 1) as nat) {
        lemma_ends_within_definitions(program, class, (count - 1) as nat);
    } else {
        let step = |id: DeclarationId| base_above(program, id);
        let inside = |id: DeclarationId| is_defined_class(program, id);
        assert forall|index: nat| index < count implies (#[trigger] walked(step, class, index))
            is Some && inside(walked(step, class, index)->0) by {
            if ends_within(program, class, index) {
                lemma_ends_later(program, class, index, (count - 1) as nat);
            }
        }
        lemma_classes_numbered(program);
        let (first, second) = lemma_repeats(
            step,
            inside,
            |id: DeclarationId| defined_at(program, id),
            bound,
            class,
            count,
        );
        let more = (count - second) as nat;
        lemma_walked_on(step, class, first, more);
        lemma_walked_on(step, class, second, more);
        assert(second + more == count);
        assert(base_ancestor(program, class, first + more) == base_ancestor(program, class, count));
        lemma_ends_within_definitions(program, class, first + more);
    }
}

proof fn lemma_table_settled(
    program: &Program,
    class: DeclarationId,
    count: usize,
    limit: usize,
)
    requires
        ends_within(program, class, count as nat),
        count <= limit,
    ensures
        spec_class_vtable_methods(program, class, limit) == spec_class_vtable_methods(
            program,
            class,
            count,
        ),
    decreases count,
{
    reveal_with_fuel(spec_class_vtable_methods, 2);
    if count > 0 {
        match base_above(program, class) {
            Some(base) => {
                reveal_with_fuel(walked, 2);
                let step = |id: DeclarationId| base_above(program, id);
                assert(walked(step, class, 1) == Some(base));
                lemma_walked_on(step, class, 1, (count - 1) as nat);
                assert(1 + (count - 1) as nat == count as nat);
                assert(ends_within(program, base, (count - 1) as nat));
                lemma_table_settled(program, base, (count - 1) as usize, (limit - 1) as usize);
            },
            None => {},
        }
    }
}

/// Where a chain of classes ends, however long it is, the table of a class holds the methods of
/// all of them: more steps up the chain would not change it.
pub proof fn tables_are_complete(
    program: &Program,
    class: DeclarationId,
    count: nat,
    limit: usize,
)
    requires
        ends_within(program, class, count),
        program.definitions@.len() <= limit,
    ensures
        spec_class_vtable_methods(program, class, limit) == spec_class_vtable_methods(
            program,
            class,
            program.definitions.len(),
        ),
{
    lemma_ends_within_definitions(program, class, count);
    lemma_table_settled(program, class, program.definitions.len(), limit);
}

proof fn lemma_base_within(
    program: &Program,
    class: DeclarationId,
    above: DeclarationId,
    limit: usize,
)
    ensures
        spec_has_base(program, class, above, limit) <==> exists|count: nat|
            0 < count <= limit && #[trigger] base_ancestor(program, class, count) == Some(above),
    decreases limit,
{
    reveal_with_fuel(spec_has_base, 2);
    let step = |id: DeclarationId| base_above(program, id);
    assert(base_ancestor(program, class, 0) == Some(class));
    assert(base_ancestor(program, class, 1) == base_above(program, class)) by {
        reveal_with_fuel(walked, 2);
    }
    if limit > 0 {
        match base_above(program, class) {
            Some(base) => {
                lemma_base_within(program, base, above, (limit - 1) as usize);
                if spec_has_base(program, class, above, limit) {
                    if base == above {
                        assert(base_ancestor(program, class, 1) == Some(above));
                    } else {
                        let count = choose|count: nat|
                            0 < count <= limit - 1 && #[trigger] base_ancestor(
                                program,
                                base,
                                count,
                            ) == Some(above);
                        lemma_walked_on(step, class, 1, count);
                        assert(base_ancestor(program, class, 1 + count) == Some(above));
                    }
                }
                if exists|count: nat|
                    0 < count <= limit && #[trigger] base_ancestor(program, class, count)
                        == Some(above) {
                    let count = choose|count: nat|
                        0 < count <= limit && #[trigger] base_ancestor(program, class, count)
                            == Some(above);
                    lemma_walked_on(step, class, 1, (count - 1) as nat);
                    assert(1 + (count - 1) as nat == count);
                    assert(base_ancestor(program, base, (count - 1) as nat) == Some(above));
                    if count == 1 {
                        assert(base == above);
                    }
                }
            },
            None => {
                assert forall|count: nat| 0 < count <= limit implies #[trigger] base_ancestor(
                    program,
                    class,
                    count,
                ) is None by {
                    if base_ancestor(program, class, count) is Some {
                        lemma_walked_before(step, class, count, 1);
                    }
                }
            },
        }
    }
}

/// A clause catches an error exactly if it names the error's type, some class above that, or an
/// interface that the type conforms to. No chain of classes is too long for that.
pub proof fn errors_are_caught_by_classes_above(
    program: &Program,
    caught: &Type,
    effect: DeclarationId,
)
    ensures
        catch_handles(program, caught, effect) <==> match nominal_id(caught) {
            Some(id) => (exists|count: nat|
                #[trigger] base_ancestor(program, effect, count) == Some(id)) || conforms_by(
                &program.definitions,
                effect,
                id,
            ),
            None => false,
        },
{
    if let Some(id) = nominal_id(caught) {
        lemma_base_within(program, effect, id, program.definitions.len());
        assert(base_ancestor(program, effect, 0) == Some(effect));
        if exists|count: nat| #[trigger] base_ancestor(program, effect, count) == Some(id) {
            let count = choose|count: nat|
                #[trigger] base_ancestor(program, effect, count) == Some(id);
            if count > 0 {
                lemma_classes_numbered(program);
                let fewer = lemma_reached(
                    |id: DeclarationId| base_above(program, id),
                    |id: DeclarationId| is_defined_class(program, id),
                    |id: DeclarationId| defined_at(program, id),
                    program.definitions@.len(),
                    effect,
                    count,
                );
                assert(base_ancestor(program, effect, fewer) == Some(id));
            }
        }
    }
}

} // verus!
