//! Which places are apart, which types hold borrows, and which locals a body mentions where.

use vstd::prelude::*;

use crate::hir::{DeclarationId, FunctionType, Type};
use crate::list::List;
use crate::mir::{Body, LocalId, Operand, Place, Projection, Rvalue, StatementKind, TerminatorKind};
use crate::names::Name;
use crate::ownership::places::{
    any_holds_borrow, block_point, blocks_mentions, contains_non_static_borrow, destination_locals,
    mentions, operand_locals, operands_locals, optional_operand_locals, places_overlap,
    rvalue_locals, statement_locals, terminator_locals, ways_meet,
};
use crate::ownership::safety::{
    filling_accesses, is_bound_already, operand_accesses, operands_accesses, statement_accesses,
    terminator_accesses, value_accesses, Access,
};

verus! {

/// Whether two steps lead to different fields, or to the payloads of different variants.
pub open spec fn lead_apart(left: Projection, right: Projection) -> bool {
    match (left, right) {
        (Projection::Field { index, .. }, Projection::Field { index: other, .. }) => index != other,
        (Projection::Downcast(variant), Projection::Downcast(other)) => variant != other,
        _ => false,
    }
}

proof fn lemma_ways_meet(left: List<Projection>, right: List<Projection>)
    ensures
        ways_meet(left, right) <==> forall|index: int|
            0 <= index < left.seq().len() && index < right.seq().len() ==> !lead_apart(
                #[trigger] left.seq()[index],
                right.seq()[index],
            ),
    decreases left,
{
    if let (List::Cons(one, rest), List::Cons(other, others)) = (left, right) {
        lemma_ways_meet(*rest, *others);
        let first = left.seq();
        let second = right.seq();
        assert(first =~= seq![*one] + rest.seq());
        assert(second =~= seq![*other] + others.seq());
        assert(first[0] == *one && second[0] == *other);
        assert forall|index: int| 0 <= index < rest.seq().len() implies #[trigger] rest.seq()[index]
            == first[index + 1] by {}
        assert forall|index: int| 0 <= index < others.seq().len() implies
            #[trigger] others.seq()[index] == second[index + 1] by {}
        if forall|index: int|
            0 <= index < first.len() && index < second.len() ==> !lead_apart(
                #[trigger] first[index],
                second[index],
            ) {
            assert(!lead_apart(first[0], second[0]));
            assert forall|index: int|
                0 <= index < rest.seq().len() && index < others.seq().len() implies !lead_apart(
                #[trigger] rest.seq()[index],
                others.seq()[index],
            ) by {
                assert(!lead_apart(first[index + 1], second[index + 1]));
            }
        }
        if !lead_apart(*one, *other) && forall|index: int|
            0 <= index < rest.seq().len() && index < others.seq().len() ==> !lead_apart(
                #[trigger] rest.seq()[index],
                others.seq()[index],
            ) {
            assert forall|index: int|
                0 <= index < first.len() && index < second.len() implies !lead_apart(
                #[trigger] first[index],
                second[index],
            ) by {
                if index > 0 {
                    assert(!lead_apart(rest.seq()[index - 1], others.seq()[index - 1]));
                }
            }
        }
    } else {
        assert(left.seq().len() == 0 || right.seq().len() == 0);
    }
}

/// Two places overlap exactly if they lie in the same local and nowhere on their common way lead to
/// different fields or variants. Elements of a sequence are not told apart.
pub proof fn places_are_apart_where_their_ways_part(left: Place, right: Place)
    ensures
        places_overlap(&left, &right) <==> left.local == right.local && forall|index: int|
            0 <= index < left.projection.seq().len() && index < right.projection.seq().len()
                ==> !lead_apart(
                #[trigger] left.projection.seq()[index],
                right.projection.seq()[index],
            ),
{
    lemma_ways_meet(left.projection, right.projection);
}

proof fn lemma_any_holds(types: List<Type>)
    ensures
        any_holds_borrow(types) <==> exists|index: int|
            0 <= index < types.seq().len() && contains_non_static_borrow(
                &#[trigger] types.seq()[index],
            ),
    decreases types,
{
    if let List::Cons(head, tail) = types {
        lemma_any_holds(*tail);
        let all = types.seq();
        assert(all =~= seq![*head] + tail.seq());
        assert(all[0] == *head);
        if any_holds_borrow(*tail) {
            let index = choose|index: int|
                0 <= index < tail.seq().len() && contains_non_static_borrow(
                    &#[trigger] tail.seq()[index],
                );
            assert(contains_non_static_borrow(&all[index + 1]));
        }
        if exists|index: int|
            0 <= index < all.len() && contains_non_static_borrow(&#[trigger] all[index]) {
            let index = choose|index: int|
                0 <= index < all.len() && contains_non_static_borrow(&#[trigger] all[index]);
            if index > 0 {
                assert(contains_non_static_borrow(&tail.seq()[index - 1]));
            }
        }
    }
}

/// Whether one of some types can hold a borrow that ends.
pub open spec fn some_hold_borrows(types: List<Type>) -> bool {
    exists|index: int|
        0 <= index < types.seq().len() && contains_non_static_borrow(&#[trigger] types.seq()[index])
}

/// A reference that ends is a borrow, and so is what holds one: a type can hold a borrow that ends
/// exactly if it is such a reference or one of its parts can.
pub proof fn borrows_are_held_by_parts(
    mutable: bool,
    lifetime: Name,
    one: Type,
    types: List<Type>,
    id: DeclarationId,
    length: u64,
    function: FunctionType,
)
    ensures
        contains_non_static_borrow(
            &Type::Reference { mutable, lifetime, referent: Box::new(one) },
        ) <==> lifetime != Name::Static || contains_non_static_borrow(&one),
        contains_non_static_borrow(&Type::Lifetime(lifetime)) <==> lifetime != Name::Static,
        contains_non_static_borrow(&Type::Optional(Box::new(one))) == contains_non_static_borrow(
            &one,
        ),
        contains_non_static_borrow(&Type::Slice(Box::new(one))) == contains_non_static_borrow(&one),
        contains_non_static_borrow(&Type::Array(Box::new(one), length))
            == contains_non_static_borrow(&one),
        contains_non_static_borrow(&Type::RawPointer { mutable, pointee: Box::new(one) })
            == contains_non_static_borrow(&one),
        contains_non_static_borrow(&Type::Nominal(id, types)) <==> some_hold_borrows(types),
        contains_non_static_borrow(&Type::DynamicInterface(id, types)) <==> some_hold_borrows(
            types,
        ),
        contains_non_static_borrow(&Type::Tuple(types)) <==> some_hold_borrows(types),
        contains_non_static_borrow(&Type::Template(types)) <==> some_hold_borrows(types),
        contains_non_static_borrow(&Type::Function(function)) <==> some_hold_borrows(
            function.parameters,
        ) || contains_non_static_borrow(&function.result),
        !contains_non_static_borrow(&Type::String),
        !contains_non_static_borrow(&Type::Str),
{
    lemma_any_holds(types);
    lemma_any_holds(function.parameters);
}

/// The local that an access is to.
pub open spec fn accessed(access: Access) -> Option<LocalId> {
    match access {
        Access::Read(place) => Some(place.local),
        Access::Write(place) => Some(place.local),
        Access::Use(place) => Some(place.local),
        Access::Take(place) => Some(place.local),
        Access::Restore(place) => Some(place.local),
        Access::Lend(_, place) => Some(place.local),
        Access::Forget(local) => Some(local),
        Access::Wait | Access::Close(_) => None,
    }
}

/// Whether every local that is accessed is among some locals.
pub open spec fn are_accesses_to(accesses: Seq<Access>, locals: Seq<LocalId>) -> bool {
    forall|index: int|
        0 <= index < accesses.len() && accessed(#[trigger] accesses[index]) is Some
            ==> locals.contains(accessed(accesses[index])->0)
}

proof fn lemma_both(
    first: Seq<Access>,
    second: Seq<Access>,
    locals: Seq<LocalId>,
    more: Seq<LocalId>,
)
    requires
        are_accesses_to(first, locals),
        are_accesses_to(second, more),
    ensures
        are_accesses_to(first + second, locals + more),
{
    let both = first + second;
    let all = locals + more;
    assert forall|index: int|
        0 <= index < both.len() && accessed(#[trigger] both[index]) is Some implies all.contains(
        accessed(both[index])->0,
    ) by {
        let local = accessed(both[index])->0;
        if index < first.len() {
            assert(both[index] == first[index]);
            let place = choose|place: int| 0 <= place < locals.len() && locals[place] == local;
            assert(all[place] == local);
        } else {
            assert(both[index] == second[index - first.len()]);
            let place = choose|place: int| 0 <= place < more.len() && more[place] == local;
            assert(all[place + locals.len()] == local);
        }
    }
}

proof fn lemma_operand(operand: Operand)
    ensures
        are_accesses_to(operand_accesses(operand), operand_locals(operand)),
{
    match operand {
        Operand::Copy(place) => {
            assert(operand_locals(operand)[0] == place.local);
        },
        Operand::Move(place) => {
            assert(operand_locals(operand)[0] == place.local);
        },
        Operand::Constant(_) => {},
    }
}

proof fn lemma_operands(operands: List<Operand>)
    ensures
        are_accesses_to(operands_accesses(operands), operands_locals(operands)),
    decreases operands,
{
    if let List::Cons(head, tail) = operands {
        lemma_operand(*head);
        lemma_operands(*tail);
        lemma_both(
            operand_accesses(*head),
            operands_accesses(*tail),
            operand_locals(*head),
            operands_locals(*tail),
        );
    }
}

proof fn lemma_value(rvalue: Rvalue)
    ensures
        are_accesses_to(value_accesses(rvalue), rvalue_locals(rvalue)),
{
    let locals = rvalue_locals(rvalue);
    match rvalue {
        Rvalue::Use(operand) => lemma_operand(operand),
        Rvalue::Unary { operand, .. } => lemma_operand(operand),
        Rvalue::Cast { operand, .. } => lemma_operand(operand),
        Rvalue::TypeTest { operand, .. } => lemma_operand(operand),
        Rvalue::CheckedBinary { left, right, .. } => {
            lemma_operand(left);
            lemma_operand(right);
            lemma_both(
                operand_accesses(left),
                operand_accesses(right),
                operand_locals(left),
                operand_locals(right),
            );
        },
        Rvalue::CheckedIndex { collection, index } => {
            lemma_operand(index);
            assert(seq![collection.local][0] == collection.local);
            lemma_both(
                seq![Access::Use(collection)],
                operand_accesses(index),
                seq![collection.local],
                operand_locals(index),
            );
        },
        Rvalue::Aggregate { fields, .. } => lemma_operands(fields),
        Rvalue::Template { captures, .. } => lemma_operands(captures),
        Rvalue::Closure { captures, body, .. } => {
            lemma_operands(captures);
            lemma_both(
                operands_accesses(captures),
                seq![Access::Close(body)],
                operands_locals(captures),
                Seq::empty(),
            );
            assert(operands_locals(captures) + Seq::<LocalId>::empty() =~= locals);
        },
        Rvalue::Length(place) => {
            assert(locals[0] == place.local);
        },
        Rvalue::VtableLookup { object, .. } => {
            assert(locals[0] == object.local);
        },
        Rvalue::WitnessLookup { object, .. } => {
            assert(locals[0] == object.local);
        },
        Rvalue::DirectMethod { object, .. } => {
            assert(locals[0] == object.local);
        },
        Rvalue::RawOperation { operands, .. } => lemma_operands(operands),
    }
}

/// Every local that a statement accesses is one that it mentions, so that no loan in it has ended
/// before.
pub proof fn what_a_statement_accesses_is_mentioned(statement: StatementKind)
    ensures
        are_accesses_to(statement_accesses(statement), statement_locals(statement)),
        statement matches StatementKind::Borrow { destination, .. } ==> statement_locals(
            statement,
        ).contains(destination),
{
    let locals = statement_locals(statement);
    match statement {
        StatementKind::Assign(place, rvalue) => {
            lemma_value(rvalue);
            let written = seq![Access::Write(place)];
            let restored = seq![Access::Restore(place)];
            assert(seq![place.local][0] == place.local);
            lemma_both(
                written,
                value_accesses(rvalue),
                seq![place.local],
                rvalue_locals(rvalue),
            );
            assert(locals[0] == place.local);
            assert(are_accesses_to(restored, locals));
            let accesses = statement_accesses(statement);
            assert forall|index: int|
                0 <= index < accesses.len() && accessed(
                    #[trigger] accesses[index],
                ) is Some implies locals.contains(accessed(accesses[index])->0) by {
                let before = written + value_accesses(rvalue);
                if index < before.len() {
                    assert(accesses[index] == before[index]);
                } else {
                    assert(accesses[index] == restored[0]);
                }
            }
        },
        StatementKind::Borrow { destination, place, .. } => {
            assert(locals[0] == destination);
            assert(locals[1] == place.local);
        },
        StatementKind::StorageDead(local) => {
            assert(locals[0] == local);
        },
        StatementKind::SetDiscriminant(place, _) => {
            assert(locals[0] == place.local);
        },
        StatementKind::Retag(place) => {
            assert(locals[0] == place.local);
        },
        StatementKind::SetDropFlag(place, _) => {
            assert(locals[0] == place.local);
        },
        StatementKind::StorageLive(_) => {},
    }
}

proof fn lemma_filling(destination: Option<Place>, error_destination: Option<Place>)
    ensures
        are_accesses_to(
            filling_accesses(destination) + filling_accesses(error_destination),
            destination_locals(destination, error_destination),
        ),
{
    let locals = match destination {
        Some(place) => seq![place.local],
        None => Seq::empty(),
    };
    let more = match error_destination {
        Some(place) => seq![place.local],
        None => Seq::empty(),
    };
    if let Some(place) = destination {
        assert(locals[0] == place.local);
    }
    if let Some(place) = error_destination {
        assert(more[0] == place.local);
    }
    lemma_both(
        filling_accesses(destination),
        filling_accesses(error_destination),
        locals,
        more,
    );
}

/// Every local that a terminator accesses is one that it mentions.
pub proof fn what_a_terminator_accesses_is_mentioned(body: &Body, terminator: TerminatorKind)
    ensures
        are_accesses_to(terminator_accesses(body, terminator), terminator_locals(terminator)),
{
    let locals = terminator_locals(terminator);
    match terminator {
        TerminatorKind::Switch { value, .. } => lemma_operand(value),
        TerminatorKind::Throw(value) => lemma_operand(value),
        TerminatorKind::Suspend { value, destination, error_destination, .. } => {
            lemma_operand(value);
            lemma_filling(destination, error_destination);
            let filling = filling_accesses(destination) + filling_accesses(error_destination);
            let filled = destination_locals(destination, error_destination);
            lemma_both(operand_accesses(value), filling, operand_locals(value), filled);
            lemma_both(operand_accesses(value) + filling, seq![Access::Wait], locals, seq![]);
            assert(locals + Seq::<LocalId>::empty() =~= locals);
            assert(terminator_accesses(body, terminator) =~= operand_accesses(value) + filling
                + seq![Access::Wait]);
        },
        TerminatorKind::Call {
            function,
            receiver,
            arguments,
            destination,
            error_destination,
            ..
        } => {
            lemma_operand(function);
            lemma_operands(arguments);
            lemma_filling(destination, error_destination);
            let second = match receiver {
                Some(object) => if is_bound_already(body, function, object) {
                    seq![]
                } else {
                    operand_accesses(object)
                },
                None => seq![],
            };
            if let Some(object) = receiver {
                lemma_operand(object);
            }
            let first = operand_accesses(function);
            let third = operands_accesses(arguments);
            let filling = filling_accesses(destination) + filling_accesses(error_destination);
            let filled = destination_locals(destination, error_destination);
            let named = operand_locals(function);
            let received = optional_operand_locals(receiver);
            let passed = operands_locals(arguments);
            lemma_both(first, second, named, received);
            lemma_both(first + second, third, named + received, passed);
            lemma_both(first + second + third, filling, named + received + passed, filled);
            assert(terminator_accesses(body, terminator) =~= first + second + third + filling);
        },
        TerminatorKind::Return(value) => {
            if let Some(operand) = value {
                lemma_operand(operand);
            }
        },
        TerminatorKind::TaggedReturn { payload, .. } => {
            if let Some(operand) = payload {
                lemma_operand(operand);
            }
        },
        TerminatorKind::Drop { place, .. } => {
            assert(locals[0] == place.local);
        },
        TerminatorKind::Goto(_) | TerminatorKind::Abort | TerminatorKind::Unreachable => {},
    }
}

proof fn lemma_points(body: &Body, block: nat, count: nat)
    requires
        block < count <= body.blocks@.len(),
    ensures
        ({
            let code = body.blocks@[block as int];
            let all = blocks_mentions(body, count);
            &&& block_point(body, block) + code.statements@.len() < all.len()
            &&& forall|index: int|
                0 <= index < code.statements@.len() ==> all[block_point(body, block) + index]
                    == statement_locals((#[trigger] code.statements@[index]).kind)
            &&& all[(block_point(body, block) + code.statements@.len()) as int]
                == terminator_locals(code.terminator.kind)
        }),
    decreases count,
{
    reveal_with_fuel(blocks_mentions, 2);
    if block + 1 < count {
        lemma_points(body, block, (count - 1) as nat);
    }
}

/// The point of a statement mentions what the statement mentions, and the point behind the
/// statements of a block what its terminator mentions.
pub proof fn points_mention_what_their_code_does(body: &Body, block: nat)
    requires
        block < body.blocks@.len(),
    ensures
        ({
            let code = body.blocks@[block as int];
            let from = block_point(body, block);
            &&& forall|index: int|
                0 <= index < code.statements@.len() ==> mentions(body)[from + index]
                    == statement_locals((#[trigger] code.statements@[index]).kind)
            &&& mentions(body)[(from + code.statements@.len()) as int] == terminator_locals(
                code.terminator.kind,
            )
        }),
{
    lemma_points(body, block, body.blocks@.len());
}

} // verus!
