//! How places relate to one another, and which locals a statement mentions.

use vstd::prelude::*;

use crate::hir::Type;
use crate::list::List;
use crate::mir::{
    same_projection, Body, LocalId, Operand, Place, Projection, Rvalue, Statement, StatementKind,
    TerminatorKind,
};
use crate::names::Name;

verus! {

/// Whether two steps from the same place lead to parts that cannot overlap: different fields, or
/// the payloads of different variants.
#[verifier::allow_in_spec]
pub fn steps_part(left: &Projection, right: &Projection) -> (r: bool)
    returns
        match (*left, *right) {
            (
                Projection::Field { index: left, .. },
                Projection::Field { index: right, .. },
            ) => left != right,
            (Projection::Downcast(left), Projection::Downcast(right)) => left != right,
            _ => false,
        },
{
    match (left, right) {
        (
            Projection::Field { index: left, .. },
            Projection::Field { index: right, .. },
        ) => *left != *right,
        (Projection::Downcast(left), Projection::Downcast(right)) => *left != *right,
        _ => false,
    }
}

/// Whether two ways from the same place never part.
pub open spec fn ways_meet(left: List<Projection>, right: List<Projection>) -> bool
    decreases left,
{
    match (left, right) {
        (List::Cons(left, left_rest), List::Cons(right, right_rest)) => !steps_part(&*left, &*right)
            && ways_meet(*left_rest, *right_rest),
        _ => true,
    }
}

fn do_ways_meet(left: &List<Projection>, right: &List<Projection>) -> (r: bool)
    ensures
        r == ways_meet(*left, *right),
    decreases left,
{
    match (left, right) {
        (List::Cons(left, left_rest), List::Cons(right, right_rest)) => !steps_part(left, right)
            && do_ways_meet(left_rest, right_rest),
        _ => true,
    }
}

/// Whether two places can have a part in common.
#[verifier::allow_in_spec]
pub fn places_overlap(left: &Place, right: &Place) -> (r: bool)
    returns
        left.local == right.local && ways_meet(left.projection, right.projection),
{
    left.local == right.local && do_ways_meet(&left.projection, &right.projection)
}

/// Whether one way is the start of another.
pub open spec fn way_starts(start: List<Projection>, way: List<Projection>) -> bool
    decreases start,
{
    match (start, way) {
        (List::Nil, _) => true,
        (List::Cons(left, left_rest), List::Cons(right, right_rest)) => *left == *right
            && way_starts(*left_rest, *right_rest),
        _ => false,
    }
}

fn does_way_start(start: &List<Projection>, way: &List<Projection>) -> (r: bool)
    ensures
        r == way_starts(*start, *way),
    decreases start,
{
    match (start, way) {
        (List::Nil, _) => true,
        (List::Cons(left, left_rest), List::Cons(right, right_rest)) => same_projection(left, right)
            && does_way_start(left_rest, right_rest),
        _ => false,
    }
}

/// Whether a place is a part of another, or the same.
#[verifier::allow_in_spec]
pub fn place_contains(parent: &Place, child: &Place) -> (r: bool)
    returns
        parent.local == child.local && way_starts(parent.projection, child.projection),
{
    parent.local == child.local && does_way_start(&parent.projection, &child.projection)
}

proof fn lemma_ways_meet_symmetric(left: List<Projection>, right: List<Projection>)
    ensures
        ways_meet(left, right) == ways_meet(right, left),
    decreases left,
{
    match (left, right) {
        (List::Cons(_, left_rest), List::Cons(_, right_rest)) => {
            lemma_ways_meet_symmetric(*left_rest, *right_rest);
        },
        _ => {},
    }
}

proof fn lemma_start_meets(start: List<Projection>, way: List<Projection>)
    requires
        way_starts(start, way),
    ensures
        ways_meet(start, way),
    decreases start,
{
    match (start, way) {
        (List::Cons(_, start_rest), List::Cons(_, way_rest)) => {
            lemma_start_meets(*start_rest, *way_rest);
        },
        _ => {},
    }
}

proof fn lemma_way_starts_itself(way: List<Projection>)
    ensures
        way_starts(way, way),
    decreases way,
{
    match way {
        List::Nil => {},
        List::Cons(_, rest) => {
            lemma_way_starts_itself(*rest);
        },
    }
}

proof fn lemma_way_starts_transitive(
    first: List<Projection>,
    second: List<Projection>,
    third: List<Projection>,
)
    requires
        way_starts(first, second),
        way_starts(second, third),
    ensures
        way_starts(first, third),
    decreases first,
{
    match (first, second, third) {
        (List::Cons(_, first_rest), List::Cons(_, second_rest), List::Cons(_, third_rest)) => {
            lemma_way_starts_transitive(*first_rest, *second_rest, *third_rest);
        },
        _ => {},
    }
}

/// Overlap does not depend on the order of the two places.
pub proof fn overlap_is_symmetric(left: Place, right: Place)
    ensures
        places_overlap(&left, &right) == places_overlap(&right, &left),
{
    lemma_ways_meet_symmetric(left.projection, right.projection);
}

/// A place contains itself.
pub proof fn containment_is_reflexive(place: Place)
    ensures
        place_contains(&place, &place),
{
    lemma_way_starts_itself(place.projection);
}

/// A part of a part is a part.
pub proof fn containment_is_transitive(first: Place, second: Place, third: Place)
    requires
        place_contains(&first, &second),
        place_contains(&second, &third),
    ensures
        place_contains(&first, &third),
{
    lemma_way_starts_transitive(first.projection, second.projection, third.projection);
}

/// A place overlaps every part of it.
pub proof fn containment_is_overlap(parent: Place, child: Place)
    requires
        place_contains(&parent, &child),
    ensures
        places_overlap(&parent, &child),
{
    lemma_start_meets(parent.projection, child.projection);
}

/// A whole local contains every place in it.
pub proof fn whole_local_contains_its_places(place: Place)
    ensures
        place_contains(&crate::mir::whole(place.local), &place),
{
}

/// Whether a value of the type can hold a borrow that is not static.
pub open spec fn holds_borrow(ty: Type) -> bool
    decreases ty,
{
    match ty {
        Type::Reference { lifetime, referent, .. } => lifetime != Name::Static || holds_borrow(
            *referent,
        ),
        Type::Lifetime(lifetime) => lifetime != Name::Static,
        Type::Nominal(_, arguments)
        | Type::DynamicInterface(_, arguments)
        | Type::Tuple(arguments)
        | Type::Template(arguments) => any_holds_borrow(arguments),
        Type::Optional(inner)
        | Type::Array(inner, _)
        | Type::Slice(inner)
        | Type::RawPointer { pointee: inner, .. } => holds_borrow(*inner),
        Type::Promise { result, .. } => holds_borrow(*result),
        Type::Function(function) => any_holds_borrow(function.parameters) || holds_borrow(
            *function.result,
        ),
        _ => false,
    }
}

/// Whether a value of one of the types can hold a borrow that is not static.
pub open spec fn any_holds_borrow(types: List<Type>) -> bool
    decreases types,
{
    match types {
        List::Nil => false,
        List::Cons(head, tail) => holds_borrow(*head) || any_holds_borrow(*tail),
    }
}

/// Whether a value of the type can hold a borrow that is not static.
#[verifier::allow_in_spec]
pub fn contains_non_static_borrow(ty: &Type) -> (r: bool)
    returns
        holds_borrow(*ty),
    decreases ty,
{
    match ty {
        Type::Reference { lifetime, referent, .. } => *lifetime != Name::Static
            || contains_non_static_borrow(referent),
        Type::Lifetime(lifetime) => *lifetime != Name::Static,
        Type::Nominal(_, arguments) => any_contains_non_static_borrow(arguments),
        Type::DynamicInterface(_, arguments) => any_contains_non_static_borrow(arguments),
        Type::Tuple(elements) => any_contains_non_static_borrow(elements),
        Type::Template(elements) => any_contains_non_static_borrow(elements),
        Type::Optional(inner) => contains_non_static_borrow(inner),
        Type::Array(inner, _) => contains_non_static_borrow(inner),
        Type::Slice(inner) => contains_non_static_borrow(inner),
        Type::RawPointer { pointee, .. } => contains_non_static_borrow(pointee),
        Type::Promise { result, .. } => contains_non_static_borrow(result),
        Type::Function(function) => any_contains_non_static_borrow(&function.parameters)
            || contains_non_static_borrow(&function.result),
        _ => false,
    }
}

fn any_contains_non_static_borrow(types: &List<Type>) -> (r: bool)
    ensures
        r == any_holds_borrow(*types),
    decreases types,
{
    match types {
        List::Nil => false,
        List::Cons(head, tail) => contains_non_static_borrow(head)
            || any_contains_non_static_borrow(tail),
    }
}

/// The locals that the index steps of a way read.
pub open spec fn way_locals(way: List<Projection>) -> Seq<LocalId>
    decreases way,
{
    match way {
        List::Nil => Seq::empty(),
        List::Cons(head, tail) => match *head {
            Projection::Index(local) => seq![local] + way_locals(*tail),
            _ => way_locals(*tail),
        },
    }
}

/// The locals that an operand mentions.
pub open spec fn operand_locals(operand: Operand) -> Seq<LocalId> {
    match operand {
        Operand::Copy(place) | Operand::Move(place) => seq![place.local] + way_locals(
            place.projection,
        ),
        Operand::Constant(_) => Seq::empty(),
    }
}

/// The locals that the operands mention.
pub open spec fn operands_locals(operands: List<Operand>) -> Seq<LocalId>
    decreases operands,
{
    match operands {
        List::Nil => Seq::empty(),
        List::Cons(head, tail) => operand_locals(*head) + operands_locals(*tail),
    }
}

/// The locals that the computation of a value mentions.
pub open spec fn rvalue_locals(rvalue: Rvalue) -> Seq<LocalId> {
    match rvalue {
        Rvalue::Use(operand)
        | Rvalue::Unary { operand, .. }
        | Rvalue::Cast { operand, .. }
        | Rvalue::TypeTest { operand, .. } => operand_locals(operand),
        Rvalue::CheckedBinary { left, right, .. } => operand_locals(left) + operand_locals(right),
        Rvalue::CheckedIndex { collection, index } => seq![collection.local] + operand_locals(
            index,
        ),
        Rvalue::Aggregate { fields, .. } => operands_locals(fields),
        Rvalue::Template { captures, .. } | Rvalue::Closure { captures, .. } => operands_locals(
            captures,
        ),
        Rvalue::Length(place)
        | Rvalue::VtableLookup { object: place, .. }
        | Rvalue::WitnessLookup { object: place, .. }
        | Rvalue::DirectMethod { object: place, .. } => seq![place.local],
        Rvalue::RawOperation { operands, .. } => operands_locals(operands),
    }
}

/// The locals that a statement mentions.
pub open spec fn statement_locals(statement: StatementKind) -> Seq<LocalId> {
    match statement {
        StatementKind::Assign(place, rvalue) => seq![place.local] + rvalue_locals(rvalue),
        StatementKind::SetDiscriminant(place, _)
        | StatementKind::Retag(place)
        | StatementKind::SetDropFlag(place, _) => seq![place.local],
        StatementKind::StorageLive(local) | StatementKind::StorageDead(local) => seq![local],
        StatementKind::Borrow { destination, place, .. } => seq![destination, place.local],
    }
}

/// The locals of the places that a terminator fills.
pub open spec fn destination_locals(
    destination: Option<Place>,
    error_destination: Option<Place>,
) -> Seq<LocalId> {
    (match destination {
        Some(place) => seq![place.local],
        None => Seq::empty(),
    }) + (match error_destination {
        Some(place) => seq![place.local],
        None => Seq::empty(),
    })
}

/// The locals that an operand mentions, if there is one.
pub open spec fn optional_operand_locals(operand: Option<Operand>) -> Seq<LocalId> {
    match operand {
        Some(operand) => operand_locals(operand),
        None => Seq::empty(),
    }
}

/// The locals that a terminator mentions.
pub open spec fn terminator_locals(terminator: TerminatorKind) -> Seq<LocalId> {
    match terminator {
        TerminatorKind::Switch { value, .. } | TerminatorKind::Throw(value) => operand_locals(
            value,
        ),
        TerminatorKind::Suspend { value, destination, error_destination, .. } => operand_locals(
            value,
        ) + destination_locals(destination, error_destination),
        TerminatorKind::Call {
            function,
            receiver,
            arguments,
            destination,
            error_destination,
            ..
        } => operand_locals(function) + optional_operand_locals(receiver) + operands_locals(
            arguments,
        ) + destination_locals(destination, error_destination),
        TerminatorKind::Return(value) | TerminatorKind::TaggedReturn { payload: value, .. } =>
        optional_operand_locals(value),
        TerminatorKind::Drop { place, .. } => seq![place.local],
        TerminatorKind::Goto(_) | TerminatorKind::Abort | TerminatorKind::Unreachable =>
        Seq::empty(),
    }
}

fn add_way_locals(way: &List<Projection>, locals: &mut Vec<LocalId>)
    ensures
        final(locals)@ == old(locals)@ + way_locals(*way),
    decreases way,
{
    match way {
        List::Nil => {},
        List::Cons(head, tail) => {
            match &**head {
                Projection::Index(local) => {
                    locals.push(*local);
                },
                _ => {},
            }
            add_way_locals(tail, locals);
        },
    }
    proof {
        assert(locals@ =~= old(locals)@ + way_locals(*way));
    }
}

fn visit_operand_local(operand: &Operand, locals: &mut Vec<LocalId>)
    ensures
        final(locals)@ == old(locals)@ + operand_locals(*operand),
{
    match operand {
        Operand::Copy(place) => {
            locals.push(place.local);
            add_way_locals(&place.projection, locals);
        },
        Operand::Move(place) => {
            locals.push(place.local);
            add_way_locals(&place.projection, locals);
        },
        Operand::Constant(_) => {},
    }
    proof {
        assert(locals@ =~= old(locals)@ + operand_locals(*operand));
    }
}

fn visit_operand_locals(operands: &List<Operand>, locals: &mut Vec<LocalId>)
    ensures
        final(locals)@ == old(locals)@ + operands_locals(*operands),
    decreases operands,
{
    match operands {
        List::Nil => {},
        List::Cons(head, tail) => {
            visit_operand_local(head, locals);
            visit_operand_locals(tail, locals);
        },
    }
    proof {
        assert(locals@ =~= old(locals)@ + operands_locals(*operands));
    }
}

fn visit_rvalue_locals(rvalue: &Rvalue, locals: &mut Vec<LocalId>)
    ensures
        final(locals)@ == old(locals)@ + rvalue_locals(*rvalue),
{
    match rvalue {
        Rvalue::Use(operand) => visit_operand_local(operand, locals),
        Rvalue::Unary { operand, .. } => visit_operand_local(operand, locals),
        Rvalue::Cast { operand, .. } => visit_operand_local(operand, locals),
        Rvalue::TypeTest { operand, .. } => visit_operand_local(operand, locals),
        Rvalue::CheckedBinary { left, right, .. } => {
            visit_operand_local(left, locals);
            visit_operand_local(right, locals);
        },
        Rvalue::CheckedIndex { collection, index } => {
            locals.push(collection.local);
            visit_operand_local(index, locals);
        },
        Rvalue::Aggregate { fields, .. } => visit_operand_locals(fields, locals),
        Rvalue::Template { captures, .. } => visit_operand_locals(captures, locals),
        Rvalue::Closure { captures, .. } => visit_operand_locals(captures, locals),
        Rvalue::Length(place) => locals.push(place.local),
        Rvalue::VtableLookup { object, .. } => locals.push(object.local),
        Rvalue::WitnessLookup { object, .. } => locals.push(object.local),
        Rvalue::DirectMethod { object, .. } => locals.push(object.local),
        Rvalue::RawOperation { operands, .. } => visit_operand_locals(operands, locals),
    }
    proof {
        assert(locals@ =~= old(locals)@ + rvalue_locals(*rvalue));
    }
}

fn visit_statement_locals(statement: &StatementKind, locals: &mut Vec<LocalId>)
    ensures
        final(locals)@ == old(locals)@ + statement_locals(*statement),
{
    match statement {
        StatementKind::Assign(place, rvalue) => {
            locals.push(place.local);
            visit_rvalue_locals(rvalue, locals);
        },
        StatementKind::SetDiscriminant(place, _) => locals.push(place.local),
        StatementKind::Retag(place) => locals.push(place.local),
        StatementKind::SetDropFlag(place, _) => locals.push(place.local),
        StatementKind::StorageLive(local) => locals.push(*local),
        StatementKind::StorageDead(local) => locals.push(*local),
        StatementKind::Borrow { destination, place, .. } => {
            locals.push(*destination);
            locals.push(place.local);
        },
    }
    proof {
        assert(locals@ =~= old(locals)@ + statement_locals(*statement));
    }
}

fn add_destination_locals(
    destination: &Option<Place>,
    error_destination: &Option<Place>,
    locals: &mut Vec<LocalId>,
)
    ensures
        final(locals)@ == old(locals)@ + destination_locals(*destination, *error_destination),
{
    match destination {
        Some(place) => locals.push(place.local),
        None => {},
    }
    match error_destination {
        Some(place) => locals.push(place.local),
        None => {},
    }
    proof {
        assert(locals@ =~= old(locals)@ + destination_locals(*destination, *error_destination));
    }
}

fn visit_terminator_locals(terminator: &TerminatorKind, locals: &mut Vec<LocalId>)
    ensures
        final(locals)@ == old(locals)@ + terminator_locals(*terminator),
{
    match terminator {
        TerminatorKind::Switch { value, .. } => visit_operand_local(value, locals),
        TerminatorKind::Throw(value) => visit_operand_local(value, locals),
        TerminatorKind::Suspend { value, destination, error_destination, .. } => {
            visit_operand_local(value, locals);
            add_destination_locals(destination, error_destination, locals);
        },
        TerminatorKind::Call {
            function,
            receiver,
            arguments,
            destination,
            error_destination,
            ..
        } => {
            visit_operand_local(function, locals);
            match receiver {
                Some(receiver) => visit_operand_local(receiver, locals),
                None => {},
            }
            visit_operand_locals(arguments, locals);
            add_destination_locals(destination, error_destination, locals);
        },
        TerminatorKind::Return(Some(value)) => visit_operand_local(value, locals),
        TerminatorKind::Return(None) => {},
        TerminatorKind::TaggedReturn { payload: Some(value), .. } => visit_operand_local(
            value,
            locals,
        ),
        TerminatorKind::TaggedReturn { payload: None, .. } => {},
        TerminatorKind::Drop { place, .. } => locals.push(place.local),
        TerminatorKind::Goto(_) => {},
        TerminatorKind::Abort => {},
        TerminatorKind::Unreachable => {},
    }
    proof {
        assert(locals@ =~= old(locals)@ + terminator_locals(*terminator));
    }
}

/// The locals that each of the statements mentions.
pub open spec fn statements_mentions(statements: Seq<Statement>) -> Seq<Seq<LocalId>> {
    Seq::new(statements.len(), |index: int| statement_locals(statements[index].kind))
}

/// The locals that the body mentions at each point of the first `count` blocks. The points of a
/// block are its statements and its terminator.
pub open spec fn blocks_mentions(body: &Body, count: nat) -> Seq<Seq<LocalId>>
    decreases count,
{
    if count == 0 || count > body.blocks@.len() {
        Seq::empty()
    } else {
        let block = body.blocks@[count - 1];
        blocks_mentions(body, (count - 1) as nat) + statements_mentions(block.statements@).push(
            terminator_locals(block.terminator.kind),
        )
    }
}

/// The locals that the body mentions at each point.
pub open spec fn mentions(body: &Body) -> Seq<Seq<LocalId>> {
    blocks_mentions(body, body.blocks@.len())
}

/// The first point of a block.
pub open spec fn block_point(body: &Body, block: nat) -> nat {
    blocks_mentions(body, block).len()
}

/// The sequences that the vectors hold.
pub open spec fn views(vectors: Seq<Vec<LocalId>>) -> Seq<Seq<LocalId>> {
    Seq::new(vectors.len(), |index: int| vectors[index]@)
}

/// Whether a local is mentioned at or after a point.
pub open spec fn used_from(points: Seq<Seq<LocalId>>, local: LocalId, point: int) -> bool {
    exists|other: int|
        point <= other < points.len() && 0 <= other && (#[trigger] points[other]).contains(local)
}

/// The locals that the body mentions at each point.
pub fn last_uses(body: &Body) -> (r: Vec<Vec<LocalId>>)
    ensures
        views(r@) == mentions(body),
{
    let mut points: Vec<Vec<LocalId>> = Vec::new();
    let mut block_index: usize = 0;
    proof {
        assert(views(points@) =~= blocks_mentions(body, 0));
    }
    while block_index < body.blocks.len()
        invariant
            block_index <= body.blocks.len(),
            views(points@) == blocks_mentions(body, block_index as nat),
        decreases body.blocks.len() - block_index,
    {
        let block = &body.blocks[block_index];
        let ghost before = points@;
        let mut index: usize = 0;
        while index < block.statements.len()
            invariant
                index <= block.statements.len(),
                views(points@) == views(before) + statements_mentions(block.statements@).take(
                    index as int,
                ),
            decreases block.statements.len() - index,
        {
            let mut locals: Vec<LocalId> = Vec::new();
            visit_statement_locals(&block.statements[index].kind, &mut locals);
            proof {
                assert(locals@ =~= statement_locals(block.statements@[index as int].kind));
                assert(views(points@.push(locals)) =~= views(before) + statements_mentions(
                    block.statements@,
                ).take(index + 1)) by {
                    assert(views(points@.push(locals)) =~= views(points@).push(locals@));
                    assert(statements_mentions(block.statements@).take(index + 1)
                        =~= statements_mentions(block.statements@).take(index as int).push(
                        locals@,
                    ));
                }
            }
            points.push(locals);
            index = index + 1;
        }
        let mut locals: Vec<LocalId> = Vec::new();
        visit_terminator_locals(&block.terminator.kind, &mut locals);
        proof {
            assert(locals@ =~= terminator_locals(block.terminator.kind));
            assert(statements_mentions(block.statements@).take(index as int)
                =~= statements_mentions(block.statements@));
            assert(views(points@.push(locals)) =~= views(points@).push(locals@));
            assert(views(points@.push(locals)) =~= blocks_mentions(
                body,
                (block_index + 1) as nat,
            ));
        }
        points.push(locals);
        block_index = block_index + 1;
    }
    points
}

fn mentions_local(locals: &Vec<LocalId>, local: LocalId) -> (r: bool)
    ensures
        r == locals@.contains(local),
{
    let mut index: usize = 0;
    while index < locals.len()
        invariant
            index <= locals.len(),
            forall|other: int| 0 <= other < index ==> locals@[other] != local,
        decreases locals.len() - index,
    {
        if locals[index] == local {
            return true;
        }
        index = index + 1;
    }
    false
}

/// Whether a local is mentioned at or after a point.
pub fn is_used_from(points: &Vec<Vec<LocalId>>, local: LocalId, point: usize) -> (r: bool)
    ensures
        r == used_from(views(points@), local, point as int),
{
    let mut index: usize = point;
    while index < points.len()
        invariant
            point <= index,
            forall|other: int|
                point <= other < index && other < points@.len() ==> !(#[trigger] views(
                    points@,
                )[other]).contains(local),
        decreases points.len() - index,
    {
        if mentions_local(&points[index], local) {
            proof {
                assert(views(points@)[index as int].contains(local));
            }
            return true;
        }
        index = index + 1;
    }
    false
}

} // verus!
