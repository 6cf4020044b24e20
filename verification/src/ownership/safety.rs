//! Which ways through a body are safe, said of what its statements access.

use vstd::prelude::*;

use crate::acceptance::meaning::lemma_filtered;
use crate::diagnostics::{Diagnostic, Finding};
use crate::hir::ReceiverMode;
use crate::list::List;
use crate::mir::{
    operand_place_ref, Body, BorrowKind, LocalId, Operand, Place, Rvalue, Statement, StatementKind,
    TerminatorKind,
};
use crate::ownership::analysis::{
    analysis_of, block_checked, borrow_checked, destination_filled, loan_held_by, lookup_visited,
    operand_visited, operands_visited, receiver_visited, rvalue_visited, statement_checked,
    statements_checked, suspension_checked, terminator_visited, value_returned, with_receiver_loan,
    Track,
};
use crate::ownership::facts::OwnershipFacts;
use crate::ownership::loans::{
    argument_loans, arguments_loans, carries, is_optional_payload_move, live_loans,
    method_binding_for_function, moves_outside, moves_without, operand_reads, overlapping_loan,
    overlapping_move, place_root_type, read_checked, receiver_loan, result_loans,
    some_operand_reads, transferred, united, united_is_union, use_checked, write_checked, Loan,
    Moved,
};
use crate::ownership::places::{
    block_point, contains_non_static_borrow, mentions, place_contains, places_overlap, used_from,
};
use crate::ownership::soundness::{
    along, is_path, only_returned_references, unreported_ways_are_safe,
};
use crate::syntax::Span;

verus! {

/// What a statement does to a place or to the body.
pub enum Access {
    /// A value is looked at.
    Read(Place),
    /// A value is changed or goes away.
    Write(Place),
    /// A value has to be there.
    Use(Place),
    /// A value leaves its place, unless it is copied.
    Take(Place),
    /// A value is put into its place.
    Restore(Place),
    /// The storage of a local ends.
    Forget(LocalId),
    /// A place is lent.
    Lend(BorrowKind, Place),
    /// The body waits.
    Wait,
    /// A closure of the body is made.
    Close(usize),
}

/// A loan of a place that a local holds.
pub struct Held {
    pub by: LocalId,
    pub kind: BorrowKind,
    pub place: Place,
}

/// The loans that are held at a point of a way, and the places that were moved away from.
pub struct Situation {
    pub loans: Set<Held>,
    pub moved: Set<Place>,
}

/// What reading an operand does.
pub open spec fn operand_accesses(operand: Operand) -> Seq<Access> {
    match operand {
        Operand::Constant(_) => seq![],
        Operand::Copy(place) => seq![Access::Use(place), Access::Read(place)],
        Operand::Move(place) => seq![
            Access::Use(place),
            Access::Write(place),
            Access::Take(place),
        ],
    }
}

/// What reading operands does, one after the other.
pub open spec fn operands_accesses(operands: List<Operand>) -> Seq<Access>
    decreases operands,
{
    match operands {
        List::Nil => seq![],
        List::Cons(head, tail) => operand_accesses(*head) + operands_accesses(*tail),
    }
}

/// What looking up a method does to the object: a method that may change it needs it as a write
/// does, and one that consumes it needs it as a move does.
pub open spec fn receiver_accesses(object: Place, receiver: ReceiverMode) -> Seq<Access> {
    match receiver {
        ReceiverMode::Shared | ReceiverMode::Static => seq![
            Access::Read(object),
            Access::Use(object),
        ],
        ReceiverMode::Mutable => seq![Access::Use(object), Access::Write(object)],
        ReceiverMode::Move => operand_accesses(Operand::Move(object)),
    }
}

/// What computing a value does.
pub open spec fn value_accesses(rvalue: Rvalue) -> Seq<Access> {
    match rvalue {
        Rvalue::Use(operand) => operand_accesses(operand),
        Rvalue::Unary { operand, .. } => operand_accesses(operand),
        Rvalue::Cast { operand, .. } => operand_accesses(operand),
        Rvalue::TypeTest { operand, .. } => operand_accesses(operand),
        Rvalue::CheckedBinary { left, right, .. } => operand_accesses(left) + operand_accesses(
            right,
        ),
        Rvalue::CheckedIndex { collection, index } => seq![Access::Use(collection)]
            + operand_accesses(index),
        Rvalue::Aggregate { fields, .. } => operands_accesses(fields),
        Rvalue::Template { captures, .. } => operands_accesses(captures),
        Rvalue::Closure { captures, body, .. } => operands_accesses(captures) + seq![
            Access::Close(body),
        ],
        Rvalue::Length(place) => seq![Access::Read(place), Access::Use(place)],
        Rvalue::VtableLookup { object, receiver, .. } => receiver_accesses(object, receiver),
        Rvalue::WitnessLookup { object, receiver, .. } => receiver_accesses(object, receiver),
        Rvalue::DirectMethod { object, receiver, .. } => receiver_accesses(object, receiver),
        Rvalue::RawOperation { operands, .. } => operands_accesses(operands),
    }
}

/// What a statement does.
pub open spec fn statement_accesses(statement: StatementKind) -> Seq<Access> {
    match statement {
        StatementKind::Assign(place, rvalue) => seq![Access::Write(place)] + value_accesses(rvalue)
            + seq![Access::Restore(place)],
        StatementKind::Borrow { kind, place, .. } => seq![
            Access::Use(place),
            Access::Lend(kind, place),
        ],
        StatementKind::StorageDead(local) => seq![Access::Forget(local)],
        StatementKind::SetDiscriminant(place, _) => seq![Access::Write(place)],
        StatementKind::Retag(place) => seq![Access::Write(place)],
        StatementKind::SetDropFlag(place, _) => seq![Access::Write(place)],
        StatementKind::StorageLive(_) => seq![],
    }
}

/// What filling the place for a result does.
pub open spec fn filling_accesses(destination: Option<Place>) -> Seq<Access> {
    match destination {
        Some(place) => seq![Access::Write(place), Access::Restore(place)],
        None => seq![],
    }
}

/// What reading an operand does, if there is one.
pub open spec fn optional_accesses(operand: Option<Operand>) -> Seq<Access> {
    match operand {
        Some(operand) => operand_accesses(operand),
        None => seq![],
    }
}

/// Whether the object of a call was accessed where its method was looked up.
pub open spec fn is_bound_already(body: &Body, function: Operand, receiver: Operand) -> bool {
    match (operand_place_ref(&receiver), method_binding_for_function(body, &function)) {
        (Some(place), Some(object)) => places_overlap(object, place),
        _ => false,
    }
}

/// What a terminator does.
pub open spec fn terminator_accesses(body: &Body, terminator: TerminatorKind) -> Seq<Access> {
    match terminator {
        TerminatorKind::Switch { value, .. } => operand_accesses(value),
        TerminatorKind::Throw(value) => operand_accesses(value),
        TerminatorKind::Suspend { value, destination, error_destination, .. } => operand_accesses(
            value,
        ) + filling_accesses(destination) + filling_accesses(error_destination) + seq![
            Access::Wait,
        ],
        TerminatorKind::Call {
            function,
            receiver,
            arguments,
            destination,
            error_destination,
            ..
        } => operand_accesses(function) + (match receiver {
            Some(object) => if is_bound_already(body, function, object) {
                seq![]
            } else {
                operand_accesses(object)
            },
            None => seq![],
        }) + operands_accesses(arguments) + filling_accesses(destination) + filling_accesses(
            error_destination,
        ),
        TerminatorKind::Return(value) => optional_accesses(value),
        TerminatorKind::TaggedReturn { payload, .. } => optional_accesses(payload),
        TerminatorKind::Drop { place, .. } => seq![Access::Write(place), Access::Use(place)],
        TerminatorKind::Goto(_) | TerminatorKind::Abort | TerminatorKind::Unreachable => seq![],
    }
}

/// Whether an access is allowed where certain loans are held and certain places were moved away
/// from.
///
/// What is lent for changes is not read, and what is lent is not changed. What was moved away is not
/// used. A place is not lent twice, if one of the two may change it. A part is not moved out of a
/// value with a destructor, but for the payload of an optional value. While the body waits, only
/// storage of its arguments is lent.
pub open spec fn is_allowed(
    body: &Body,
    facts: &OwnershipFacts,
    situation: Situation,
    access: Access,
) -> bool {
    match access {
        Access::Read(place) => forall|loan: Held| #[trigger]
            situation.loans.contains(loan) && loan.kind == BorrowKind::Mutable
                ==> !places_overlap(&loan.place, &place),
        Access::Write(place) => forall|loan: Held| #[trigger]
            situation.loans.contains(loan) ==> !places_overlap(&loan.place, &place),
        Access::Use(place) => forall|other: Place| #[trigger]
            situation.moved.contains(other) ==> !places_overlap(&other, &place),
        Access::Lend(kind, place) => forall|loan: Held| #[trigger]
            situation.loans.contains(loan) && (kind == BorrowKind::Mutable || loan.kind
                == BorrowKind::Mutable) ==> !places_overlap(&loan.place, &place),
        Access::Take(place) => match place_root_type(body, &place) {
            Some(ty) => facts.is_copy(ty) || place.is_whole() || !facts.has_drop(ty)
                || is_optional_payload_move(body, &place),
            None => true,
        },
        Access::Wait => forall|loan: Held| #[trigger]
            situation.loans.contains(loan) && loan.place.local.0 < body.locals@.len()
                ==> body.locals@[loan.place.local.0 as int].argument,
        Access::Close(closure) => closure < body.closures@.len() ==> only_returned_references(
            analysis_of(&body.closures@[closure as int], facts),
        ),
        Access::Restore(_) | Access::Forget(_) => true,
    }
}

/// The places that were moved away from behind an access.
pub open spec fn moved_behind(
    body: &Body,
    facts: &OwnershipFacts,
    moved: Set<Place>,
    access: Access,
) -> Set<Place> {
    match access {
        Access::Take(place) => match place_root_type(body, &place) {
            Some(ty) => if facts.is_copy(ty) {
                moved
            } else {
                moved.insert(place)
            },
            None => moved,
        },
        Access::Restore(place) => moved.filter(|other: Place| !place_contains(&place, &other)),
        Access::Forget(local) => moved.filter(|other: Place| other.local != local),
        _ => moved,
    }
}

/// The situation behind accesses, one after the other.
pub open spec fn behind_accesses(
    body: &Body,
    facts: &OwnershipFacts,
    situation: Situation,
    accesses: Seq<Access>,
) -> Situation
    decreases accesses.len(),
{
    if accesses.len() == 0 {
        situation
    } else {
        let before = behind_accesses(body, facts, situation, accesses.drop_last());
        Situation { moved: moved_behind(body, facts, before.moved, accesses.last()), ..before }
    }
}

/// Whether accesses are allowed, each in the situation behind those before.
pub open spec fn are_allowed(
    body: &Body,
    facts: &OwnershipFacts,
    situation: Situation,
    accesses: Seq<Access>,
) -> bool {
    forall|index: int|
        0 <= index < accesses.len() ==> is_allowed(
            body,
            facts,
            behind_accesses(body, facts, situation, accesses.take(index)),
            #[trigger] accesses[index],
        )
}

/// The situation at a point of a body: a loan ends behind the last mention of the local that holds
/// it.
pub open spec fn at_point(body: &Body, situation: Situation, point: int) -> Situation {
    Situation {
        loans: situation.loans.filter(
            |loan: Held| used_from(mentions(body), loan.by, point),
        ),
        ..situation
    }
}

/// Whether a value is made from what a local holds.
pub open spec fn is_made_from(rvalue: Rvalue, local: LocalId) -> bool {
    match rvalue {
        Rvalue::Use(operand) => operand_reads(&operand, local),
        Rvalue::Unary { operand, .. } => operand_reads(&operand, local),
        Rvalue::Cast { operand, .. } => operand_reads(&operand, local),
        Rvalue::TypeTest { operand, .. } => operand_reads(&operand, local),
        Rvalue::Aggregate { fields, .. } => are_read(fields.seq(), local),
        Rvalue::Template { captures, .. } => are_read(captures.seq(), local),
        Rvalue::Closure { captures, .. } => are_read(captures.seq(), local),
        _ => false,
    }
}

/// Whether one of some operands reads a local.
pub open spec fn are_read(operands: Seq<Operand>, local: LocalId) -> bool {
    exists|index: int|
        0 <= index < operands.len() && operand_reads(&#[trigger] operands[index], local)
}

/// Whether a local that holds a method holds a loan: one of the object, for changes if the method
/// may change it.
pub open spec fn lends_object(rvalue: Rvalue, loan: Held) -> bool {
    match rvalue {
        Rvalue::VtableLookup { object, receiver, .. } => is_lent_to(receiver, object, loan),
        Rvalue::WitnessLookup { object, receiver, .. } => is_lent_to(receiver, object, loan),
        Rvalue::DirectMethod { object, receiver, .. } => is_lent_to(receiver, object, loan),
        _ => false,
    }
}

/// Whether a method that takes its object in a certain way holds a loan of it.
pub open spec fn is_lent_to(receiver: ReceiverMode, object: Place, loan: Held) -> bool {
    loan.place == object && (receiver == ReceiverMode::Shared && loan.kind == BorrowKind::Shared
        || receiver == ReceiverMode::Mutable && loan.kind == BorrowKind::Mutable)
}

/// The loans behind a statement. What is made from a local that holds a loan holds it too.
pub open spec fn loans_behind(statement: StatementKind, loans: Set<Held>) -> Set<Held> {
    match statement {
        StatementKind::Assign(place, rvalue) => Set::new(
            |loan: Held|
                loans.contains(loan) || loan.by == place.local && (is_passed_on(
                    loans,
                    rvalue,
                    loan,
                ) || place.is_whole() && lends_object(rvalue, loan)),
        ),
        StatementKind::Borrow { destination, kind, place, .. } => loans.insert(
            Held { by: destination, kind, place },
        ),
        StatementKind::StorageDead(local) => loans.filter(
            |loan: Held| loan.by != local && loan.place.local != local,
        ),
        _ => loans,
    }
}

/// Whether a value is made from a local that holds a loan of the same place and kind.
pub open spec fn is_passed_on(loans: Set<Held>, rvalue: Rvalue, loan: Held) -> bool {
    exists|holder: LocalId| #[trigger]
        is_made_from(rvalue, holder) && loans.contains(Held { by: holder, ..loan })
}

/// The loans behind a terminator: where the result of a call can hold borrows, it holds those of
/// the arguments.
pub open spec fn loans_behind_call(
    body: &Body,
    terminator: TerminatorKind,
    loans: Set<Held>,
) -> Set<Held> {
    match terminator {
        TerminatorKind::Call { receiver, arguments, destination: Some(destination), .. } =>
            if destination.local.0 < body.locals@.len() && contains_non_static_borrow(
            &body.locals@[destination.local.0 as int].ty,
        ) {
            Set::new(
                |loan: Held|
                    loans.contains(loan) || loan.by == destination.local && is_passed_in(
                        loans,
                        receiver,
                        arguments,
                        loan,
                    ),
            )
        } else {
            loans
        },
        _ => loans,
    }
}

/// Whether an argument of a call holds a loan of the same place and kind.
pub open spec fn is_passed_in(
    loans: Set<Held>,
    receiver: Option<Operand>,
    arguments: List<Operand>,
    loan: Held,
) -> bool {
    exists|holder: LocalId|
        #![trigger loans.contains(Held { by: holder, ..loan })]
        loans.contains(Held { by: holder, ..loan }) && (are_read(arguments.seq(), holder)
            || receiver is Some && operand_reads(&receiver->0, holder))
}

/// The situation behind a statement at a point of a body.
pub open spec fn behind_statement(
    body: &Body,
    facts: &OwnershipFacts,
    statement: StatementKind,
    point: int,
    situation: Situation,
) -> Situation {
    let now = at_point(body, situation, point);
    Situation {
        loans: loans_behind(statement, now.loans),
        moved: behind_accesses(body, facts, now, statement_accesses(statement)).moved,
    }
}

/// The situation behind the first statements of a block.
pub open spec fn within_block(
    body: &Body,
    facts: &OwnershipFacts,
    block: nat,
    situation: Situation,
    count: nat,
) -> Situation
    decreases count,
{
    if count == 0 {
        situation
    } else {
        behind_statement(
            body,
            facts,
            body.blocks@[block as int].statements@[count - 1].kind,
            block_point(body, block) + count - 1,
            within_block(body, facts, block, situation, (count - 1) as nat),
        )
    }
}

/// The situation where the control leaves a block.
pub open spec fn at_terminator(
    body: &Body,
    facts: &OwnershipFacts,
    block: nat,
    situation: Situation,
) -> Situation {
    let count = body.blocks@[block as int].statements@.len();
    at_point(
        body,
        within_block(body, facts, block, situation, count),
        (block_point(body, block) + count) as int,
    )
}

/// The situation behind a block.
#[verifier::opaque]
pub open spec fn behind_block(
    body: &Body,
    facts: &OwnershipFacts,
    block: nat,
    situation: Situation,
) -> Situation {
    let now = at_terminator(body, facts, block, situation);
    let terminator = body.blocks@[block as int].terminator.kind;
    Situation {
        loans: loans_behind_call(body, terminator, now.loans),
        moved: behind_accesses(body, facts, now, terminator_accesses(body, terminator)).moved,
    }
}

/// Whether a statement of a block does only what is allowed.
pub open spec fn is_safe_statement(
    body: &Body,
    facts: &OwnershipFacts,
    block: nat,
    situation: Situation,
    index: int,
) -> bool {
    are_allowed(
        body,
        facts,
        at_point(
            body,
            within_block(body, facts, block, situation, index as nat),
            block_point(body, block) + index,
        ),
        statement_accesses(body.blocks@[block as int].statements@[index].kind),
    )
}

/// Whether a block does only what is allowed.
#[verifier::opaque]
pub open spec fn is_safe_block(
    body: &Body,
    facts: &OwnershipFacts,
    block: nat,
    situation: Situation,
) -> bool {
    &&& forall|index: int|
        0 <= index < body.blocks@[block as int].statements@.len() ==> #[trigger] is_safe_statement(
            body,
            facts,
            block,
            situation,
            index,
        )
    &&& are_allowed(
        body,
        facts,
        at_terminator(body, facts, block, situation),
        terminator_accesses(body, body.blocks@[block as int].terminator.kind),
    )
}

/// The situation behind a way through a body.
#[verifier::opaque]
pub open spec fn behind_way(body: &Body, facts: &OwnershipFacts, path: Seq<usize>) -> Situation
    decreases path.len(),
{
    if path.len() == 0 {
        Situation { loans: Set::empty(), moved: Set::empty() }
    } else {
        behind_block(
            body,
            facts,
            path.last() as nat,
            behind_way(body, facts, path.drop_last()),
        )
    }
}

/// Whether a way through a body does only what is allowed.
#[verifier::opaque]
pub open spec fn is_safe_way(body: &Body, facts: &OwnershipFacts, path: Seq<usize>) -> bool {
    forall|index: int|
        0 <= index < path.len() ==> is_safe_block(
            body,
            facts,
            #[trigger] path[index] as nat,
            behind_way(body, facts, path.take(index)),
        )
}

// How the analysis follows accesses.

/// Whether a loan is one that is held.
spec fn is_held(loan: Loan, held: Held) -> bool {
    loan.destination == held.by && loan.kind == held.kind && loan.place == held.place
}

/// The loans that are held.
spec fn holding(loans: Seq<Loan>) -> Set<Held> {
    Set::new(|held: Held| exists|loan: Loan| #[trigger] loans.contains(loan) && is_held(loan, held))
}

/// The places that were moved away from.
spec fn left(moved: Seq<Moved>) -> Set<Place> {
    Set::new(|place: Place| exists|other: Moved| #[trigger]
        moved.contains(other) && other.place == place)
}

/// The situation that the analysis knows.
spec fn known(track: Track) -> Situation {
    Situation { loans: holding(track.loans), moved: left(track.moved) }
}

spec fn is_quiet(track: Track) -> bool {
    only_returned_references(track.diagnostics)
}

/// Whether the analysis follows accesses: it knows the situation behind them, and something is found
/// exactly if one of them is not allowed.
spec fn follows(
    body: &Body,
    facts: &OwnershipFacts,
    before: Track,
    after: Track,
    accesses: Seq<Access>,
) -> bool {
    &&& after.loans == before.loans
    &&& known(after) == behind_accesses(body, facts, known(before), accesses)
    &&& is_quiet(after) <==> is_quiet(before) && are_allowed(body, facts, known(before), accesses)
}

proof fn lemma_behind_both(
    body: &Body,
    facts: &OwnershipFacts,
    situation: Situation,
    first: Seq<Access>,
    second: Seq<Access>,
)
    ensures
        behind_accesses(body, facts, situation, first + second) == behind_accesses(
            body,
            facts,
            behind_accesses(body, facts, situation, first),
            second,
        ),
    decreases second.len(),
{
    if second.len() == 0 {
        assert(first + second =~= first);
    } else {
        assert((first + second).drop_last() =~= first + second.drop_last());
        lemma_behind_both(body, facts, situation, first, second.drop_last());
    }
}

#[verifier::rlimit(40)]
proof fn lemma_follows_both(
    body: &Body,
    facts: &OwnershipFacts,
    before: Track,
    between: Track,
    after: Track,
    first: Seq<Access>,
    second: Seq<Access>,
)
    requires
        follows(body, facts, before, between, first),
        follows(body, facts, between, after, second),
    ensures
        follows(body, facts, before, after, first + second),
{
    let both = first + second;
    let situation = known(before);
    lemma_behind_both(body, facts, situation, first, second);
    assert forall|index: int| 0 <= index < first.len() implies #[trigger] first[index]
        == both[index] && first.take(index) == both.take(index) by {
        assert(first.take(index) =~= both.take(index));
    }
    assert forall|index: int| 0 <= index < second.len() implies #[trigger] second[index]
        == both[index + first.len()] && behind_accesses(
        body,
        facts,
        known(between),
        second.take(index),
    ) == behind_accesses(body, facts, situation, both.take(index + first.len())) by {
        assert(both.take(index + first.len()) =~= first + second.take(index));
        lemma_behind_both(body, facts, situation, first, second.take(index));
    }
    if are_allowed(body, facts, situation, both) {
        assert forall|index: int| 0 <= index < first.len() implies is_allowed(
            body,
            facts,
            behind_accesses(body, facts, situation, first.take(index)),
            #[trigger] first[index],
        ) by {
            assert(is_allowed(
                body,
                facts,
                behind_accesses(body, facts, situation, both.take(index)),
                both[index],
            ));
        }
        assert forall|index: int| 0 <= index < second.len() implies is_allowed(
            body,
            facts,
            behind_accesses(body, facts, known(between), second.take(index)),
            #[trigger] second[index],
        ) by {
            assert(is_allowed(
                body,
                facts,
                behind_accesses(body, facts, situation, both.take(index + first.len())),
                both[index + first.len()],
            ));
        }
    }
    if are_allowed(body, facts, situation, first) && are_allowed(
        body,
        facts,
        known(between),
        second,
    ) {
        assert forall|index: int| 0 <= index < both.len() implies is_allowed(
            body,
            facts,
            behind_accesses(body, facts, situation, both.take(index)),
            #[trigger] both[index],
        ) by {
            if index < first.len() {
                assert(first[index] == both[index]);
            } else {
                assert(second[index - first.len()] == both[index]);
            }
        }
    }
}

proof fn lemma_follows_nothing(body: &Body, facts: &OwnershipFacts, track: Track)
    ensures
        follows(body, facts, track, track, seq![]),
{
}

proof fn lemma_one_access(
    body: &Body,
    facts: &OwnershipFacts,
    situation: Situation,
    access: Access,
)
    ensures
        behind_accesses(body, facts, situation, seq![access]) == (Situation {
            moved: moved_behind(body, facts, situation.moved, access),
            ..situation
        }),
        are_allowed(body, facts, situation, seq![access]) <==> is_allowed(
            body,
            facts,
            situation,
            access,
        ),
{
    let one = seq![access];
    assert(one.drop_last() =~= Seq::empty());
    assert(one.take(0) =~= Seq::empty());
    assert(behind_accesses(body, facts, situation, one.drop_last()) == situation);
    if are_allowed(body, facts, situation, one) {
        assert(is_allowed(
            body,
            facts,
            behind_accesses(body, facts, situation, one.take(0)),
            one[0],
        ));
    }
}

proof fn lemma_pushed(diagnostics: Seq<Diagnostic>, diagnostic: Diagnostic)
    ensures
        only_returned_references(diagnostics.push(diagnostic)) <==> only_returned_references(
            diagnostics,
        ) && diagnostic.finding == Finding::ReturnedLocalReference,
{
    let more = diagnostics.push(diagnostic);
    if only_returned_references(more) {
        assert(more[diagnostics.len() as int].finding == Finding::ReturnedLocalReference);
        assert forall|index: int| 0 <= index < diagnostics.len() implies (
        #[trigger] diagnostics[index]).finding == Finding::ReturnedLocalReference by {
            assert(more[index].finding == Finding::ReturnedLocalReference);
        }
    }
}

proof fn lemma_no_loan(loans: Seq<Loan>, place: Place, mutable_only: bool, from: nat)
    ensures
        overlapping_loan(loans, place, mutable_only, from) is None <==> forall|index: int|
            from <= index < loans.len() && (!mutable_only || loans[index].kind
                == BorrowKind::Mutable) ==> !places_overlap(
                &(#[trigger] loans[index]).place,
                &place,
            ),
    decreases loans.len() - from,
{
    if from < loans.len() {
        lemma_no_loan(loans, place, mutable_only, from + 1);
        assert(loans[from as int] == loans[from as int]);
    }
}

proof fn lemma_held(loans: Seq<Loan>, index: int)
    requires
        0 <= index < loans.len(),
    ensures
        holding(loans).contains(
            Held {
                by: loans[index].destination,
                kind: loans[index].kind,
                place: loans[index].place,
            },
        ),
{
    assert(loans.contains(loans[index]));
    assert(is_held(
        loans[index],
        Held { by: loans[index].destination, kind: loans[index].kind, place: loans[index].place },
    ));
}

proof fn lemma_no_move(moved: Seq<Moved>, place: Place, from: nat)
    ensures
        overlapping_move(moved, place, from) is None <==> forall|index: int|
            from <= index < moved.len() ==> !places_overlap(
                &(#[trigger] moved[index]).place,
                &place,
            ),
    decreases moved.len() - from,
{
    if from < moved.len() {
        lemma_no_move(moved, place, from + 1);
        assert(moved[from as int] == moved[from as int]);
    }
}

proof fn lemma_use(
    body: &Body,
    facts: &OwnershipFacts,
    track: Track,
    place: Place,
    moving: bool,
    span: Span,
)
    ensures
        follows(
            body,
            facts,
            track,
            Track {
                diagnostics: use_checked(track.diagnostics, place, moving, track.moved, span),
                ..track
            },
            seq![Access::Use(place)],
        ),
{
    lemma_one_access(body, facts, known(track), Access::Use(place));
    lemma_no_move(track.moved, place, 0);
    let finding = if moving {
        Finding::MoveAfterMove
    } else {
        Finding::UseAfterMove
    };
    match overlapping_move(track.moved, place, 0) {
        Some(origin) => {
            lemma_pushed(
                track.diagnostics,
                crate::diagnostics::report_conflict(finding, span, origin),
            );
            let index = choose|index: int|
                0 <= index < track.moved.len() && places_overlap(
                    &(#[trigger] track.moved[index]).place,
                    &place,
                );
            assert(track.moved.contains(track.moved[index]));
            assert(left(track.moved).contains(track.moved[index].place));
        },
        None => {
            assert forall|other: Place| #[trigger]
                left(track.moved).contains(other) implies !places_overlap(&other, &place) by {
                let moved = choose|moved: Moved| #[trigger]
                    track.moved.contains(moved) && moved.place == other;
                let index = choose|index: int|
                    0 <= index < track.moved.len() && track.moved[index] == moved;
                assert(!places_overlap(&track.moved[index].place, &place));
            }
        },
    }
}

proof fn lemma_read(
    body: &Body,
    facts: &OwnershipFacts,
    track: Track,
    place: Place,
    span: Span,
)
    ensures
        follows(
            body,
            facts,
            track,
            Track {
                diagnostics: read_checked(track.diagnostics, place, track.loans, span),
                ..track
            },
            seq![Access::Read(place)],
        ),
{
    lemma_one_access(body, facts, known(track), Access::Read(place));
    lemma_no_loan(track.loans, place, true, 0);
    lemma_forbidding(track.loans, place, true);
    if let Some(origin) = overlapping_loan(track.loans, place, true, 0) {
        lemma_pushed(
            track.diagnostics,
            crate::diagnostics::report_conflict(Finding::ReadDuringMutableBorrow, span, origin),
        );
    }
}

proof fn lemma_write(
    body: &Body,
    facts: &OwnershipFacts,
    track: Track,
    place: Place,
    span: Span,
)
    ensures
        follows(
            body,
            facts,
            track,
            Track {
                diagnostics: write_checked(track.diagnostics, place, track.loans, span),
                ..track
            },
            seq![Access::Write(place)],
        ),
{
    lemma_one_access(body, facts, known(track), Access::Write(place));
    lemma_no_loan(track.loans, place, false, 0);
    lemma_forbidding(track.loans, place, false);
    if let Some(origin) = overlapping_loan(track.loans, place, false, 0) {
        lemma_pushed(
            track.diagnostics,
            crate::diagnostics::report_conflict(Finding::WriteDuringBorrow, span, origin),
        );
    }
}

proof fn lemma_forbidding(loans: Seq<Loan>, place: Place, mutable_only: bool)
    ensures
        (forall|index: int|
            0 <= index < loans.len() && (!mutable_only || loans[index].kind == BorrowKind::Mutable)
                ==> !places_overlap(&(#[trigger] loans[index]).place, &place)) <==> forall|
            held: Held,
        | #[trigger]
            holding(loans).contains(held) && (!mutable_only || held.kind == BorrowKind::Mutable)
                ==> !places_overlap(&held.place, &place),
{
    if forall|held: Held| #[trigger]
        holding(loans).contains(held) && (!mutable_only || held.kind == BorrowKind::Mutable)
            ==> !places_overlap(&held.place, &place) {
        assert forall|index: int|
            0 <= index < loans.len() && (!mutable_only || loans[index].kind
                == BorrowKind::Mutable) implies !places_overlap(
            &(#[trigger] loans[index]).place,
            &place,
        ) by {
            lemma_held(loans, index);
        }
    }
    if forall|index: int|
        0 <= index < loans.len() && (!mutable_only || loans[index].kind == BorrowKind::Mutable)
            ==> !places_overlap(&(#[trigger] loans[index]).place, &place) {
        assert forall|held: Held| #[trigger]
            holding(loans).contains(held) && (!mutable_only || held.kind
                == BorrowKind::Mutable) implies !places_overlap(&held.place, &place) by {
            let loan = choose|loan: Loan| #[trigger] loans.contains(loan) && is_held(loan, held);
            let index = choose|index: int| 0 <= index < loans.len() && loans[index] == loan;
            assert(!places_overlap(&loans[index].place, &place));
        }
    }
}

proof fn lemma_left_push(moved: Seq<Moved>, more: Moved)
    ensures
        left(moved.push(more)) == left(moved).insert(more.place),
{
    let all = moved.push(more);
    assert forall|place: Place| left(all).contains(place) <==> left(moved).insert(
        more.place,
    ).contains(place) by {
        if left(moved).contains(place) {
            let other = choose|other: Moved| #[trigger]
                moved.contains(other) && other.place == place;
            let index = choose|index: int| 0 <= index < moved.len() && moved[index] == other;
            assert(all[index] == other);
            assert(all.contains(other));
        }
        if place == more.place {
            assert(all[moved.len() as int] == more);
            assert(all.contains(more));
        }
        if left(all).contains(place) {
            let other = choose|other: Moved| #[trigger] all.contains(other) && other.place == place;
            let index = choose|index: int| 0 <= index < all.len() && all[index] == other;
            if index < moved.len() {
                assert(moved[index] == other);
                assert(moved.contains(other));
            }
        }
    }
    assert(left(all) =~= left(moved).insert(more.place));
}

proof fn lemma_left_filter(
    moved: Seq<Moved>,
    keep: spec_fn(Moved) -> bool,
    keep_place: spec_fn(Place) -> bool,
)
    requires
        forall|other: Moved| #[trigger] keep(other) == keep_place(other.place),
    ensures
        left(moved.filter(keep)) == left(moved).filter(keep_place),
{
    lemma_filtered(moved, keep);
    assert forall|place: Place| left(moved.filter(keep)).contains(place) <==> left(moved).filter(
        keep_place,
    ).contains(place) by {
        if left(moved.filter(keep)).contains(place) {
            let other = choose|other: Moved| #[trigger]
                moved.filter(keep).contains(other) && other.place == place;
            assert(moved.contains(other) && keep(other));
        }
        if left(moved).filter(keep_place).contains(place) {
            let other = choose|other: Moved| #[trigger]
                moved.contains(other) && other.place == place;
            assert(keep(other));
            assert(moved.filter(keep).contains(other));
        }
    }
    assert(left(moved.filter(keep)) =~= left(moved).filter(keep_place));
}

proof fn lemma_restore(body: &Body, facts: &OwnershipFacts, track: Track, place: Place)
    ensures
        follows(
            body,
            facts,
            track,
            Track { moved: moves_outside(track.moved, place), ..track },
            seq![Access::Restore(place)],
        ),
{
    lemma_one_access(body, facts, known(track), Access::Restore(place));
    lemma_left_filter(
        track.moved,
        |other: Moved| !place_contains(&place, &other.place),
        |other: Place| !place_contains(&place, &other),
    );
}

proof fn lemma_forget(body: &Body, facts: &OwnershipFacts, track: Track, local: LocalId)
    ensures
        follows(
            body,
            facts,
            track,
            Track { moved: moves_without(track.moved, local), ..track },
            seq![Access::Forget(local)],
        ),
{
    lemma_one_access(body, facts, known(track), Access::Forget(local));
    lemma_left_filter(
        track.moved,
        |other: Moved| other.place.local != local,
        |other: Place| other.local != local,
    );
}

proof fn lemma_operand(
    body: &Body,
    operand: Operand,
    facts: &OwnershipFacts,
    track: Track,
    span: Span,
)
    ensures
        follows(
            body,
            facts,
            track,
            operand_visited(body, operand, facts, track, span),
            operand_accesses(operand),
        ),
{
    match operand {
        Operand::Constant(_) => {
            lemma_follows_nothing(body, facts, track);
        },
        Operand::Copy(place) => {
            let used = Track {
                diagnostics: use_checked(track.diagnostics, place, false, track.moved, span),
                ..track
            };
            lemma_use(body, facts, track, place, false, span);
            lemma_read(body, facts, used, place, span);
            let after = operand_visited(body, operand, facts, track, span);
            lemma_follows_both(
                body,
                facts,
                track,
                used,
                after,
                seq![Access::Use(place)],
                seq![Access::Read(place)],
            );
            assert(seq![Access::Use(place)] + seq![Access::Read(place)] =~= operand_accesses(
                operand,
            ));
        },
        Operand::Move(place) => {
            let used = Track {
                diagnostics: use_checked(track.diagnostics, place, true, track.moved, span),
                ..track
            };
            let written = Track {
                diagnostics: write_checked(used.diagnostics, place, track.loans, span),
                ..track
            };
            lemma_use(body, facts, track, place, true, span);
            lemma_write(body, facts, used, place, span);
            lemma_follows_both(
                body,
                facts,
                track,
                used,
                written,
                seq![Access::Use(place)],
                seq![Access::Write(place)],
            );
            let after = operand_visited(body, operand, facts, track, span);
            lemma_one_access(body, facts, known(written), Access::Take(place));
            lemma_left_push(track.moved, Moved { place, origin: span });
            lemma_pushed(
                written.diagnostics,
                crate::diagnostics::report(Finding::PartialMoveFromDropType, span),
            );
            assert(follows(body, facts, written, after, seq![Access::Take(place)]));
            lemma_follows_both(
                body,
                facts,
                track,
                written,
                after,
                seq![Access::Use(place)] + seq![Access::Write(place)],
                seq![Access::Take(place)],
            );
            assert(seq![Access::Use(place)] + seq![Access::Write(place)] + seq![
                Access::Take(place),
            ] =~= operand_accesses(operand));
        },
    }
}

proof fn lemma_operands(
    body: &Body,
    operands: List<Operand>,
    facts: &OwnershipFacts,
    track: Track,
    span: Span,
)
    ensures
        follows(
            body,
            facts,
            track,
            operands_visited(body, operands, facts, track, span),
            operands_accesses(operands),
        ),
    decreases operands,
{
    match operands {
        List::Nil => {
            lemma_follows_nothing(body, facts, track);
        },
        List::Cons(head, tail) => {
            let visited = operand_visited(body, *head, facts, track, span);
            lemma_operand(body, *head, facts, track, span);
            lemma_operands(body, *tail, facts, visited, span);
            lemma_follows_both(
                body,
                facts,
                track,
                visited,
                operands_visited(body, operands, facts, track, span),
                operand_accesses(*head),
                operands_accesses(*tail),
            );
        },
    }
}

proof fn lemma_read_and_use(
    body: &Body,
    facts: &OwnershipFacts,
    track: Track,
    place: Place,
    span: Span,
)
    ensures
        follows(
            body,
            facts,
            track,
            Track {
                diagnostics: use_checked(
                    read_checked(track.diagnostics, place, track.loans, span),
                    place,
                    false,
                    track.moved,
                    span,
                ),
                ..track
            },
            seq![Access::Read(place), Access::Use(place)],
        ),
{
    let read = Track {
        diagnostics: read_checked(track.diagnostics, place, track.loans, span),
        ..track
    };
    let used = Track {
        diagnostics: use_checked(read.diagnostics, place, false, track.moved, span),
        ..track
    };
    lemma_read(body, facts, track, place, span);
    lemma_use(body, facts, read, place, false, span);
    lemma_follows_both(
        body,
        facts,
        track,
        read,
        used,
        seq![Access::Read(place)],
        seq![Access::Use(place)],
    );
    assert(seq![Access::Read(place)] + seq![Access::Use(place)] =~= seq![
        Access::Read(place),
        Access::Use(place),
    ]);
}

proof fn lemma_lookup(
    body: &Body,
    object: Place,
    receiver: ReceiverMode,
    facts: &OwnershipFacts,
    track: Track,
    span: Span,
)
    ensures
        follows(
            body,
            facts,
            track,
            lookup_visited(body, object, receiver, facts, track, span),
            receiver_accesses(object, receiver),
        ),
{
    match receiver {
        ReceiverMode::Shared | ReceiverMode::Static => {
            lemma_read_and_use(body, facts, track, object, span);
        },
        ReceiverMode::Mutable => {
            let used = Track {
                diagnostics: use_checked(track.diagnostics, object, false, track.moved, span),
                ..track
            };
            lemma_use(body, facts, track, object, false, span);
            lemma_write(body, facts, used, object, span);
            lemma_follows_both(
                body,
                facts,
                track,
                used,
                lookup_visited(body, object, receiver, facts, track, span),
                seq![Access::Use(object)],
                seq![Access::Write(object)],
            );
            assert(seq![Access::Use(object)] + seq![Access::Write(object)] =~= receiver_accesses(
                object,
                receiver,
            ));
        },
        ReceiverMode::Move => {
            lemma_operand(body, Operand::Move(object), facts, track, span);
        },
    }
}

proof fn lemma_joined(first: Seq<Diagnostic>, second: Seq<Diagnostic>)
    ensures
        only_returned_references(first + second) <==> only_returned_references(first)
            && only_returned_references(second),
{
    let both = first + second;
    if only_returned_references(both) {
        assert forall|index: int| 0 <= index < first.len() implies (#[trigger] first[index]).finding
            == Finding::ReturnedLocalReference by {
            assert(both[index].finding == Finding::ReturnedLocalReference);
        }
        assert forall|index: int| 0 <= index < second.len() implies (
        #[trigger] second[index]).finding == Finding::ReturnedLocalReference by {
            assert(both[index + first.len()].finding == Finding::ReturnedLocalReference);
        }
    }
}

proof fn lemma_value(
    body: &Body,
    rvalue: Rvalue,
    facts: &OwnershipFacts,
    track: Track,
    span: Span,
)
    ensures
        follows(
            body,
            facts,
            track,
            rvalue_visited(body, rvalue, facts, track, span),
            value_accesses(rvalue),
        ),
{
    let after = rvalue_visited(body, rvalue, facts, track, span);
    match rvalue {
        Rvalue::Use(operand) => {
            lemma_operand(body, operand, facts, track, span);
        },
        Rvalue::Unary { operand, .. } => {
            lemma_operand(body, operand, facts, track, span);
        },
        Rvalue::Cast { operand, .. } => {
            lemma_operand(body, operand, facts, track, span);
        },
        Rvalue::TypeTest { operand, .. } => {
            lemma_operand(body, operand, facts, track, span);
        },
        Rvalue::CheckedBinary { left, right, .. } => {
            let visited = operand_visited(body, left, facts, track, span);
            lemma_operand(body, left, facts, track, span);
            lemma_operand(body, right, facts, visited, span);
            lemma_follows_both(
                body,
                facts,
                track,
                visited,
                after,
                operand_accesses(left),
                operand_accesses(right),
            );
        },
        Rvalue::CheckedIndex { collection, index } => {
            let used = Track {
                diagnostics: use_checked(track.diagnostics, collection, false, track.moved, span),
                ..track
            };
            lemma_use(body, facts, track, collection, false, span);
            lemma_operand(body, index, facts, used, span);
            lemma_follows_both(
                body,
                facts,
                track,
                used,
                after,
                seq![Access::Use(collection)],
                operand_accesses(index),
            );
        },
        Rvalue::Aggregate { fields, .. } => {
            lemma_operands(body, fields, facts, track, span);
        },
        Rvalue::Template { captures, .. } => {
            lemma_operands(body, captures, facts, track, span);
        },
        Rvalue::Closure { captures, body: closure, .. } => {
            let visited = operands_visited(body, captures, facts, track, span);
            lemma_operands(body, captures, facts, track, span);
            lemma_one_access(body, facts, known(visited), Access::Close(closure));
            if closure < body.closures@.len() {
                lemma_joined(
                    visited.diagnostics,
                    analysis_of(&body.closures@[closure as int], facts),
                );
            }
            assert(follows(body, facts, visited, after, seq![Access::Close(closure)]));
            lemma_follows_both(
                body,
                facts,
                track,
                visited,
                after,
                operands_accesses(captures),
                seq![Access::Close(closure)],
            );
        },
        Rvalue::Length(place) => {
            lemma_read_and_use(body, facts, track, place, span);
        },
        Rvalue::VtableLookup { object, receiver, .. } => {
            lemma_lookup(body, object, receiver, facts, track, span);
        },
        Rvalue::WitnessLookup { object, receiver, .. } => {
            lemma_lookup(body, object, receiver, facts, track, span);
        },
        Rvalue::DirectMethod { object, receiver, .. } => {
            lemma_lookup(body, object, receiver, facts, track, span);
        },
        Rvalue::RawOperation { operands, .. } => {
            lemma_operands(body, operands, facts, track, span);
        },
    }
}

proof fn lemma_filled(
    body: &Body,
    facts: &OwnershipFacts,
    destination: Option<Place>,
    track: Track,
    span: Span,
)
    ensures
        follows(
            body,
            facts,
            track,
            destination_filled(destination, track, span),
            filling_accesses(destination),
        ),
{
    match destination {
        Some(place) => {
            let written = Track {
                diagnostics: write_checked(track.diagnostics, place, track.loans, span),
                ..track
            };
            lemma_write(body, facts, track, place, span);
            lemma_restore(body, facts, written, place);
            lemma_follows_both(
                body,
                facts,
                track,
                written,
                destination_filled(destination, track, span),
                seq![Access::Write(place)],
                seq![Access::Restore(place)],
            );
            assert(seq![Access::Write(place)] + seq![Access::Restore(place)] =~= filling_accesses(
                destination,
            ));
        },
        None => {
            lemma_follows_nothing(body, facts, track);
        },
    }
}

proof fn lemma_lend(
    body: &Body,
    facts: &OwnershipFacts,
    track: Track,
    kind: BorrowKind,
    place: Place,
    span: Span,
    count: nat,
)
    requires
        count <= track.loans.len(),
    ensures
        only_returned_references(
            borrow_checked(track.diagnostics, track.loans, kind, place, span, count),
        ) <==> is_quiet(track) && forall|index: int|
            0 <= index < count && (kind == BorrowKind::Mutable || track.loans[index].kind
                == BorrowKind::Mutable) ==> !places_overlap(
                &(#[trigger] track.loans[index]).place,
                &place,
            ),
    decreases count,
{
    if count > 0 {
        let less = (count - 1) as nat;
        lemma_lend(body, facts, track, kind, place, span, less);
        let before = borrow_checked(track.diagnostics, track.loans, kind, place, span, less);
        lemma_pushed(
            before,
            crate::diagnostics::report_conflict(
                Finding::ConflictingBorrow,
                span,
                track.loans[less as int].origin,
            ),
        );
        assert(track.loans[less as int] == track.loans[less as int]);
    }
}

proof fn lemma_wait(
    body: &Body,
    facts: &OwnershipFacts,
    track: Track,
    span: Span,
    count: nat,
)
    requires
        count <= track.loans.len(),
    ensures
        only_returned_references(
            suspension_checked(body, track.diagnostics, track.loans, span, count),
        ) <==> is_quiet(track) && forall|index: int|
            0 <= index < count && (#[trigger] track.loans[index]).place.local.0
                < body.locals@.len()
                ==> body.locals@[track.loans[index].place.local.0 as int].argument,
    decreases count,
{
    if count > 0 {
        let less = (count - 1) as nat;
        lemma_wait(body, facts, track, span, less);
        let before = suspension_checked(body, track.diagnostics, track.loans, span, less);
        lemma_pushed(
            before,
            crate::diagnostics::report_conflict(
                Finding::BorrowAcrossSuspend,
                span,
                track.loans[less as int].origin,
            ),
        );
        assert(track.loans[less as int] == track.loans[less as int]);
    }
}

proof fn lemma_lending(
    body: &Body,
    facts: &OwnershipFacts,
    track: Track,
    kind: BorrowKind,
    place: Place,
    span: Span,
)
    ensures
        follows(
            body,
            facts,
            track,
            Track {
                diagnostics: borrow_checked(
                    track.diagnostics,
                    track.loans,
                    kind,
                    place,
                    span,
                    track.loans.len(),
                ),
                ..track
            },
            seq![Access::Lend(kind, place)],
        ),
{
    let loans = track.loans;
    lemma_one_access(body, facts, known(track), Access::Lend(kind, place));
    lemma_lend(body, facts, track, kind, place, span, loans.len());
    if is_allowed(body, facts, known(track), Access::Lend(kind, place)) {
        assert forall|index: int|
            0 <= index < loans.len() && (kind == BorrowKind::Mutable || loans[index].kind
                == BorrowKind::Mutable) implies !places_overlap(
            &(#[trigger] loans[index]).place,
            &place,
        ) by {
            lemma_held(loans, index);
        }
    }
    if forall|index: int|
        0 <= index < loans.len() && (kind == BorrowKind::Mutable || loans[index].kind
            == BorrowKind::Mutable) ==> !places_overlap(
            &(#[trigger] loans[index]).place,
            &place,
        ) {
        assert forall|held: Held| #[trigger]
            holding(loans).contains(held) && (kind == BorrowKind::Mutable || held.kind
                == BorrowKind::Mutable) implies !places_overlap(&held.place, &place) by {
            let loan = choose|loan: Loan| #[trigger] loans.contains(loan) && is_held(loan, held);
            let index = choose|index: int| 0 <= index < loans.len() && loans[index] == loan;
            assert(!places_overlap(&loans[index].place, &place));
        }
    }
}

proof fn lemma_waiting(body: &Body, facts: &OwnershipFacts, track: Track, span: Span)
    ensures
        follows(
            body,
            facts,
            track,
            Track {
                diagnostics: suspension_checked(
                    body,
                    track.diagnostics,
                    track.loans,
                    span,
                    track.loans.len(),
                ),
                ..track
            },
            seq![Access::Wait],
        ),
{
    let loans = track.loans;
    lemma_one_access(body, facts, known(track), Access::Wait);
    lemma_wait(body, facts, track, span, loans.len());
    if is_allowed(body, facts, known(track), Access::Wait) {
        assert forall|index: int|
            0 <= index < loans.len() && (#[trigger] loans[index]).place.local.0
                < body.locals@.len() implies body.locals@[loans[index].place.local.0 as int].argument
        by {
            lemma_held(loans, index);
        }
    }
    if forall|index: int|
        0 <= index < loans.len() && (#[trigger] loans[index]).place.local.0 < body.locals@.len()
            ==> body.locals@[loans[index].place.local.0 as int].argument {
        assert forall|held: Held| #[trigger]
            holding(loans).contains(held) && held.place.local.0
                < body.locals@.len() implies body.locals@[held.place.local.0 as int].argument by {
            let loan = choose|loan: Loan| #[trigger] loans.contains(loan) && is_held(loan, held);
            let index = choose|index: int| 0 <= index < loans.len() && loans[index] == loan;
            assert(body.locals@[loans[index].place.local.0 as int].argument);
        }
    }
}

spec fn as_held(loan: Loan) -> Held {
    Held { by: loan.destination, kind: loan.kind, place: loan.place }
}

proof fn lemma_holding(loans: Seq<Loan>)
    ensures
        forall|loan: Loan| #[trigger]
            loans.contains(loan) ==> holding(loans).contains(as_held(loan)),
        forall|held: Held| #[trigger]
            holding(loans).contains(held) ==> exists|loan: Loan| #[trigger]
                loans.contains(loan) && as_held(loan) == held,
{
    assert forall|loan: Loan| #[trigger] loans.contains(loan) implies holding(loans).contains(
        as_held(loan),
    ) by {
        assert(is_held(loan, as_held(loan)));
    }
    assert forall|held: Held| #[trigger] holding(loans).contains(held) implies exists|loan: Loan|
        #[trigger] loans.contains(loan) && as_held(loan) == held by {
        let loan = choose|loan: Loan| #[trigger] loans.contains(loan) && is_held(loan, held);
        assert(loans.contains(loan) && as_held(loan) == held);
    }
}

proof fn lemma_holding_filter(
    loans: Seq<Loan>,
    keep: spec_fn(Loan) -> bool,
    keep_held: spec_fn(Held) -> bool,
)
    requires
        forall|loan: Loan| #[trigger] keep(loan) == keep_held(as_held(loan)),
    ensures
        holding(loans.filter(keep)) == holding(loans).filter(keep_held),
{
    lemma_filtered(loans, keep);
    lemma_holding(loans);
    lemma_holding(loans.filter(keep));
    assert forall|held: Held| holding(loans.filter(keep)).contains(held) <==> holding(loans).filter(
        keep_held,
    ).contains(held) by {
        if holding(loans.filter(keep)).contains(held) {
            let loan = choose|loan: Loan| #[trigger]
                loans.filter(keep).contains(loan) && as_held(loan) == held;
            assert(loans.contains(loan) && keep(loan));
        }
        if holding(loans).filter(keep_held).contains(held) {
            let loan = choose|loan: Loan| #[trigger]
                loans.contains(loan) && as_held(loan) == held;
            assert(keep(loan));
            assert(loans.filter(keep).contains(loan));
        }
    }
    assert(holding(loans.filter(keep)) =~= holding(loans).filter(keep_held));
}

proof fn lemma_holding_united(loans: Seq<Loan>, more: Seq<Loan>)
    ensures
        holding(united(loans, more)) == holding(loans).union(holding(more)),
{
    united_is_union(loans, more);
    lemma_holding(loans);
    lemma_holding(more);
    let all = united(loans, more);
    lemma_holding(all);
    assert forall|held: Held| holding(all).contains(held) <==> holding(loans).union(
        holding(more),
    ).contains(held) by {
        if holding(all).contains(held) {
            let loan = choose|loan: Loan| #[trigger] all.contains(loan) && as_held(loan) == held;
            assert(loans.contains(loan) || more.contains(loan));
        }
        if holding(loans).contains(held) {
            let loan = choose|loan: Loan| #[trigger] loans.contains(loan) && as_held(loan) == held;
            assert(all.contains(loan));
        }
        if holding(more).contains(held) {
            let loan = choose|loan: Loan| #[trigger] more.contains(loan) && as_held(loan) == held;
            assert(all.contains(loan));
        }
    }
    assert(holding(all) =~= holding(loans).union(holding(more)));
}

proof fn lemma_holding_one(loan: Loan)
    ensures
        holding(seq![loan]) == Set::empty().insert(as_held(loan)),
{
    let one = seq![loan];
    lemma_holding(one);
    assert(one[0] == loan);
    assert(one.contains(loan));
    assert forall|held: Held| holding(one).contains(held) <==> held == as_held(loan) by {
        if holding(one).contains(held) {
            let other = choose|other: Loan| #[trigger] one.contains(other) && as_held(other)
                == held;
            assert(other == loan);
        }
    }
    assert(holding(one) =~= Set::empty().insert(as_held(loan)));
}

proof fn lemma_are_read(operands: List<Operand>, local: LocalId)
    ensures
        some_operand_reads(operands, local) == are_read(operands.seq(), local),
    decreases operands,
{
    if let List::Cons(head, tail) = operands {
        lemma_are_read(*tail, local);
        let all = operands.seq();
        assert(all =~= seq![*head] + tail.seq());
        assert(all[0] == *head);
        if are_read(tail.seq(), local) {
            let index = choose|index: int|
                0 <= index < tail.seq().len() && operand_reads(
                    &#[trigger] tail.seq()[index],
                    local,
                );
            assert(all[index + 1] == tail.seq()[index]);
            assert(are_read(all, local));
        }
        if are_read(all, local) {
            let index = choose|index: int|
                0 <= index < all.len() && operand_reads(&#[trigger] all[index], local);
            if index > 0 {
                assert(tail.seq()[index - 1] == all[index]);
            }
        }
    }
}

proof fn lemma_made_from(rvalue: Rvalue, local: LocalId)
    ensures
        carries(rvalue, local) == is_made_from(rvalue, local),
{
    match rvalue {
        Rvalue::Aggregate { fields, .. } => {
            lemma_are_read(fields, local);
        },
        Rvalue::Template { captures, .. } => {
            lemma_are_read(captures, local);
        },
        Rvalue::Closure { captures, .. } => {
            lemma_are_read(captures, local);
        },
        _ => {},
    }
}

/// What loans become in the hands of another local.
proof fn lemma_handed_on(
    loans: Seq<Loan>,
    keep: spec_fn(Loan) -> bool,
    change: spec_fn(Loan) -> Loan,
    destination: LocalId,
    holders: spec_fn(LocalId) -> bool,
    held: Held,
)
    requires
        forall|loan: Loan| #[trigger] keep(loan) == holders(loan.destination),
        forall|loan: Loan|
            as_held(#[trigger] change(loan)) == (Held { by: destination, ..as_held(loan) }),
    ensures
        holding(loans.filter(keep).map_values(change)).contains(held) <==> held.by == destination
            && exists|holder: LocalId| #[trigger]
            holders(holder) && holding(loans).contains(Held { by: holder, ..held }),
{
    let kept = loans.filter(keep);
    let changed = kept.map_values(change);
    lemma_filtered(loans, keep);
    lemma_holding(loans);
    lemma_holding(changed);
    if holding(changed).contains(held) {
        let loan = choose|loan: Loan| #[trigger] changed.contains(loan) && as_held(loan) == held;
        let index = choose|index: int| 0 <= index < changed.len() && changed[index] == loan;
        assert(changed[index] == change(kept[index]));
        let before = kept[index];
        assert(kept.contains(before));
        assert(loans.contains(before) && keep(before));
        assert(holders(before.destination));
        assert(as_held(before) == (Held { by: before.destination, ..held }));
        assert(holding(loans).contains(as_held(before)));
    }
    if held.by == destination && exists|holder: LocalId| #[trigger]
        holders(holder) && holding(loans).contains(Held { by: holder, ..held }) {
        let holder = choose|holder: LocalId| #[trigger]
            holders(holder) && holding(loans).contains(Held { by: holder, ..held });
        let before = choose|before: Loan| #[trigger]
            loans.contains(before) && as_held(before) == (Held { by: holder, ..held });
        assert(keep(before));
        assert(kept.contains(before));
        let index = choose|index: int| 0 <= index < kept.len() && kept[index] == before;
        assert(changed[index] == change(before));
        assert(changed.contains(change(before)));
        assert(as_held(change(before)) == held);
    }
}

proof fn lemma_assigned(
    loans: Seq<Loan>,
    place: Place,
    rvalue: Rvalue,
    span: Span,
)
    ensures
        holding(
            with_receiver_loan(
                united(loans, transferred(rvalue, place.local, loans)),
                place,
                rvalue,
                span,
            ),
        ) == loans_behind(StatementKind::Assign(place, rvalue), holding(loans)),
{
    let handed = transferred(rvalue, place.local, loans);
    let carried = united(loans, handed);
    let after = with_receiver_loan(carried, place, rvalue, span);
    lemma_holding_united(loans, handed);
    if let Some(loan) = receiver_loan(&rvalue, place.local, span) {
        lemma_holding_united(carried, seq![loan]);
        lemma_holding_one(loan);
    }
    let expected = loans_behind(StatementKind::Assign(place, rvalue), holding(loans));
    assert forall|held: Held| holding(after).contains(held) <==> expected.contains(held) by {
        assert forall|local: LocalId| carries(rvalue, local) == #[trigger] is_made_from(
            rvalue,
            local,
        ) by {
            lemma_made_from(rvalue, local);
        }
        lemma_handed_on(
            loans,
            |loan: Loan| carries(rvalue, loan.destination),
            |loan: Loan| (Loan { destination: place.local, ..loan }),
            place.local,
            |local: LocalId| is_made_from(rvalue, local),
            held,
        );
        let holders = |local: LocalId| is_made_from(rvalue, local);
        if is_passed_on(holding(loans), rvalue, held) {
            let holder = choose|holder: LocalId| #[trigger]
                is_made_from(rvalue, holder) && holding(loans).contains(
                    Held { by: holder, ..held },
                );
            assert(holders(holder));
        }
        if exists|holder: LocalId| #[trigger]
            holders(holder) && holding(loans).contains(Held { by: holder, ..held }) {
            let holder = choose|holder: LocalId| #[trigger]
                holders(holder) && holding(loans).contains(Held { by: holder, ..held });
            assert(is_made_from(rvalue, holder));
        }
        assert(holding(handed).contains(held) <==> held.by == place.local && is_passed_on(
            holding(loans),
            rvalue,
            held,
        ));
    }
    assert(holding(after) =~= expected);
}

proof fn lemma_statement(
    body: &Body,
    facts: &OwnershipFacts,
    statement: Statement,
    point: int,
    track: Track,
)
    ensures
        ({
            let after = statement_checked(body, facts, statement, point, track);
            &&& known(after) == behind_statement(
                body,
                facts,
                statement.kind,
                point,
                known(track),
            )
            &&& is_quiet(after) <==> is_quiet(track) && are_allowed(
                body,
                facts,
                at_point(body, known(track), point),
                statement_accesses(statement.kind),
            )
        }),
{
    let span = statement.span;
    let live = Track { loans: live_loans(track.loans, mentions(body), point), ..track };
    let after = statement_checked(body, facts, statement, point, track);
    lemma_holding_filter(
        track.loans,
        |loan: Loan| used_from(mentions(body), loan.destination, point),
        |held: Held| used_from(mentions(body), held.by, point),
    );
    assert(known(live) == at_point(body, known(track), point));
    match statement.kind {
        StatementKind::Assign(place, rvalue) => {
            let written = Track {
                diagnostics: write_checked(live.diagnostics, place, live.loans, span),
                ..live
            };
            let visited = rvalue_visited(body, rvalue, facts, written, span);
            let restored = Track { moved: moves_outside(visited.moved, place), ..visited };
            lemma_write(body, facts, live, place, span);
            lemma_value(body, rvalue, facts, written, span);
            lemma_restore(body, facts, visited, place);
            let first = seq![Access::Write(place)];
            let second = value_accesses(rvalue);
            lemma_follows_both(body, facts, live, written, visited, first, second);
            lemma_follows_both(
                body,
                facts,
                live,
                visited,
                restored,
                first + second,
                seq![Access::Restore(place)],
            );
            lemma_assigned(live.loans, place, rvalue, span);
        },
        StatementKind::Borrow { destination, kind, place, .. } => {
            let used = Track {
                diagnostics: use_checked(live.diagnostics, place, false, live.moved, span),
                ..live
            };
            let lent = Track {
                diagnostics: borrow_checked(
                    used.diagnostics,
                    live.loans,
                    kind,
                    place,
                    span,
                    live.loans.len(),
                ),
                ..live
            };
            lemma_use(body, facts, live, place, false, span);
            lemma_lending(body, facts, used, kind, place, span);
            lemma_follows_both(
                body,
                facts,
                live,
                used,
                lent,
                seq![Access::Use(place)],
                seq![Access::Lend(kind, place)],
            );
            assert(seq![Access::Use(place)] + seq![Access::Lend(kind, place)]
                =~= statement_accesses(statement.kind));
            let loan = Loan { destination, kind, place, origin: span };
            lemma_holding_united(live.loans, seq![loan]);
            lemma_holding_one(loan);
            assert(holding(after.loans) =~= loans_behind(statement.kind, holding(live.loans)));
        },
        StatementKind::StorageDead(local) => {
            lemma_forget(body, facts, live, local);
            lemma_holding_filter(
                live.loans,
                |loan: Loan| loan.destination != local && loan.place.local != local,
                |held: Held| held.by != local && held.place.local != local,
            );
        },
        StatementKind::SetDiscriminant(place, _) => {
            lemma_write(body, facts, live, place, span);
        },
        StatementKind::Retag(place) => {
            lemma_write(body, facts, live, place, span);
        },
        StatementKind::SetDropFlag(place, _) => {
            lemma_write(body, facts, live, place, span);
        },
        StatementKind::StorageLive(_) => {
            lemma_follows_nothing(body, facts, live);
        },
    }
}

proof fn lemma_receiver(
    body: &Body,
    function: Operand,
    receiver: Option<Operand>,
    facts: &OwnershipFacts,
    track: Track,
    span: Span,
)
    ensures
        follows(
            body,
            facts,
            track,
            receiver_visited(body, function, receiver, facts, track, span),
            match receiver {
                Some(object) => if is_bound_already(body, function, object) {
                    seq![]
                } else {
                    operand_accesses(object)
                },
                None => seq![],
            },
        ),
{
    lemma_follows_nothing(body, facts, track);
    if let Some(object) = receiver {
        lemma_operand(body, object, facts, track, span);
    }
}

proof fn lemma_returned(
    body: &Body,
    value: Option<Operand>,
    facts: &OwnershipFacts,
    track: Track,
    span: Span,
)
    ensures
        follows(
            body,
            facts,
            track,
            value_returned(body, value, facts, track, span),
            optional_accesses(value),
        ),
{
    lemma_follows_nothing(body, facts, track);
    if let Some(operand) = value {
        lemma_operand(body, operand, facts, track, span);
        let visited = operand_visited(body, operand, facts, track, span);
        if let Some(place) = operand_place_ref(&operand) {
            if let Some(loan) = loan_held_by(visited.loans, place.local, 0) {
                lemma_pushed(
                    visited.diagnostics,
                    crate::diagnostics::report_conflict(
                        Finding::ReturnedLocalReference,
                        span,
                        loan.origin,
                    ),
                );
            }
        }
    }
}

proof fn lemma_terminator(
    body: &Body,
    terminator: TerminatorKind,
    facts: &OwnershipFacts,
    track: Track,
    span: Span,
)
    ensures
        follows(
            body,
            facts,
            track,
            terminator_visited(body, terminator, facts, track, span),
            terminator_accesses(body, terminator),
        ),
{
    let after = terminator_visited(body, terminator, facts, track, span);
    match terminator {
        TerminatorKind::Switch { value, .. } => {
            lemma_operand(body, value, facts, track, span);
        },
        TerminatorKind::Throw(value) => {
            lemma_operand(body, value, facts, track, span);
        },
        TerminatorKind::Suspend { value, destination, error_destination, .. } => {
            let visited = operand_visited(body, value, facts, track, span);
            let filled = destination_filled(destination, visited, span);
            let ready = destination_filled(error_destination, filled, span);
            lemma_operand(body, value, facts, track, span);
            lemma_filled(body, facts, destination, visited, span);
            lemma_filled(body, facts, error_destination, filled, span);
            lemma_waiting(body, facts, ready, span);
            let first = operand_accesses(value);
            let second = filling_accesses(destination);
            let third = filling_accesses(error_destination);
            lemma_follows_both(body, facts, track, visited, filled, first, second);
            lemma_follows_both(body, facts, track, filled, ready, first + second, third);
            lemma_follows_both(
                body,
                facts,
                track,
                ready,
                after,
                first + second + third,
                seq![Access::Wait],
            );
        },
        TerminatorKind::Call {
            function,
            receiver,
            arguments,
            destination,
            error_destination,
            ..
        } => {
            let called = operand_visited(body, function, facts, track, span);
            let received = receiver_visited(body, function, receiver, facts, called, span);
            let passed = operands_visited(body, arguments, facts, received, span);
            let filled = destination_filled(destination, passed, span);
            lemma_operand(body, function, facts, track, span);
            lemma_receiver(body, function, receiver, facts, called, span);
            lemma_operands(body, arguments, facts, received, span);
            lemma_filled(body, facts, destination, passed, span);
            lemma_filled(body, facts, error_destination, filled, span);
            let first = operand_accesses(function);
            let second = match receiver {
                Some(object) => if is_bound_already(body, function, object) {
                    seq![]
                } else {
                    operand_accesses(object)
                },
                None => seq![],
            };
            let third = operands_accesses(arguments);
            let fourth = filling_accesses(destination);
            let fifth = filling_accesses(error_destination);
            lemma_follows_both(body, facts, track, called, received, first, second);
            lemma_follows_both(body, facts, track, received, passed, first + second, third);
            lemma_follows_both(
                body,
                facts,
                track,
                passed,
                filled,
                first + second + third,
                fourth,
            );
            lemma_follows_both(
                body,
                facts,
                track,
                filled,
                after,
                first + second + third + fourth,
                fifth,
            );
        },
        TerminatorKind::Return(value) => {
            lemma_returned(body, value, facts, track, span);
        },
        TerminatorKind::TaggedReturn { completion, payload } => {
            lemma_returned(body, payload, facts, track, span);
            lemma_follows_nothing(body, facts, track);
            if let Some(value) = payload {
                lemma_operand(body, value, facts, track, span);
            }
        },
        TerminatorKind::Drop { place, .. } => {
            let written = Track {
                diagnostics: write_checked(track.diagnostics, place, track.loans, span),
                ..track
            };
            lemma_write(body, facts, track, place, span);
            lemma_use(body, facts, written, place, true, span);
            lemma_follows_both(
                body,
                facts,
                track,
                written,
                after,
                seq![Access::Write(place)],
                seq![Access::Use(place)],
            );
            assert(seq![Access::Write(place)] + seq![Access::Use(place)] =~= terminator_accesses(
                body,
                terminator,
            ));
        },
        TerminatorKind::Goto(_) | TerminatorKind::Abort | TerminatorKind::Unreachable => {
            lemma_follows_nothing(body, facts, track);
        },
    }
}

proof fn lemma_holding_both(first: Seq<Loan>, second: Seq<Loan>)
    ensures
        holding(first + second) == holding(first).union(holding(second)),
{
    let both = first + second;
    lemma_holding(first);
    lemma_holding(second);
    lemma_holding(both);
    assert forall|held: Held| holding(both).contains(held) <==> holding(first).union(
        holding(second),
    ).contains(held) by {
        if holding(both).contains(held) {
            let loan = choose|loan: Loan| #[trigger] both.contains(loan) && as_held(loan) == held;
            let index = choose|index: int| 0 <= index < both.len() && both[index] == loan;
            if index < first.len() {
                assert(first[index] == loan);
                assert(first.contains(loan));
            } else {
                assert(second[index - first.len()] == loan);
                assert(second.contains(loan));
            }
        }
        if holding(first).contains(held) {
            let loan = choose|loan: Loan| #[trigger] first.contains(loan) && as_held(loan) == held;
            let index = choose|index: int| 0 <= index < first.len() && first[index] == loan;
            assert(both[index] == loan);
            assert(both.contains(loan));
        }
        if holding(second).contains(held) {
            let loan = choose|loan: Loan| #[trigger] second.contains(loan) && as_held(loan) == held;
            let index = choose|index: int| 0 <= index < second.len() && second[index] == loan;
            assert(both[index + first.len()] == loan);
            assert(both.contains(loan));
        }
    }
    assert(holding(both) =~= holding(first).union(holding(second)));
}

proof fn lemma_argument(
    argument: Operand,
    destination: LocalId,
    loans: Seq<Loan>,
    origin: Span,
    held: Held,
)
    ensures
        holding(argument_loans(argument, destination, loans, origin)).contains(held) <==> held.by
            == destination && exists|holder: LocalId|
            #![trigger holding(loans).contains(Held { by: holder, ..held })]
            holding(loans).contains(Held { by: holder, ..held }) && operand_reads(
                &argument,
                holder,
            ),
{
    let holders = |local: LocalId| operand_reads(&argument, local);
    lemma_handed_on(
        loans,
        |loan: Loan| operand_reads(&argument, loan.destination),
        |loan: Loan| (Loan { destination, origin, ..loan }),
        destination,
        holders,
        held,
    );
    if exists|holder: LocalId|
        #![trigger holding(loans).contains(Held { by: holder, ..held })]
        holding(loans).contains(Held { by: holder, ..held }) && operand_reads(&argument, holder) {
        let holder = choose|holder: LocalId|
            #![trigger holding(loans).contains(Held { by: holder, ..held })]
            holding(loans).contains(Held { by: holder, ..held }) && operand_reads(
                &argument,
                holder,
            );
        assert(holders(holder));
    }
    if exists|holder: LocalId| #[trigger]
        holders(holder) && holding(loans).contains(Held { by: holder, ..held }) {
        let holder = choose|holder: LocalId| #[trigger]
            holders(holder) && holding(loans).contains(Held { by: holder, ..held });
        assert(operand_reads(&argument, holder));
    }
}

proof fn lemma_arguments(
    arguments: List<Operand>,
    destination: LocalId,
    loans: Seq<Loan>,
    origin: Span,
    held: Held,
)
    ensures
        holding(arguments_loans(arguments, destination, loans, origin)).contains(held) <==> held.by
            == destination && exists|holder: LocalId|
            #![trigger holding(loans).contains(Held { by: holder, ..held })]
            holding(loans).contains(Held { by: holder, ..held }) && some_operand_reads(
                arguments,
                holder,
            ),
    decreases arguments,
{
    match arguments {
        List::Nil => {
            lemma_holding(Seq::empty());
        },
        List::Cons(head, tail) => {
            lemma_arguments(*tail, destination, loans, origin, held);
            lemma_argument(*head, destination, loans, origin, held);
            lemma_holding_both(
                argument_loans(*head, destination, loans, origin),
                arguments_loans(*tail, destination, loans, origin),
            );
        },
    }
}

proof fn lemma_results(
    body: &Body,
    terminator: TerminatorKind,
    loans: Seq<Loan>,
    origin: Span,
)
    ensures
        holding(united(loans, result_loans(body, terminator, loans, origin)))
            == loans_behind_call(body, terminator, holding(loans)),
{
    let more = result_loans(body, terminator, loans, origin);
    lemma_holding_united(loans, more);
    lemma_holding(Seq::empty());
    let expected = loans_behind_call(body, terminator, holding(loans));
    let none = Seq::<Loan>::empty();
    assert(holding(none) =~= Set::empty());
    match terminator {
        TerminatorKind::Call { receiver, arguments, destination: Some(destination), .. } => {
            if destination.local.0 < body.locals@.len() && contains_non_static_borrow(
                &body.locals@[destination.local.0 as int].ty,
            ) {
                let received = match receiver {
                    Some(receiver) => argument_loans(receiver, destination.local, loans, origin),
                    None => none,
                };
                lemma_holding_both(
                    received,
                    arguments_loans(arguments, destination.local, loans, origin),
                );
                assert forall|held: Held| holding(more).contains(held) <==> held.by
                    == destination.local && is_passed_in(
                    holding(loans),
                    receiver,
                    arguments,
                    held,
                ) by {
                    if let Some(object) = receiver {
                        lemma_argument(object, destination.local, loans, origin, held);
                    }
                    lemma_arguments(arguments, destination.local, loans, origin, held);
                    assert forall|holder: LocalId| #[trigger] some_operand_reads(arguments, holder)
                        == are_read(arguments.seq(), holder) by {
                        lemma_are_read(arguments, holder);
                    }
                    assert forall|holder: LocalId| some_operand_reads(arguments, holder)
                        == #[trigger] are_read(arguments.seq(), holder) by {
                        lemma_are_read(arguments, holder);
                    }
                }
                assert(holding(united(loans, more)) =~= expected);
            } else {
                assert(holding(united(loans, more)) =~= expected);
            }
        },
        _ => {
            assert(holding(united(loans, more)) =~= expected);
        },
    }
}

#[verifier::rlimit(40)]
proof fn lemma_statements(
    body: &Body,
    facts: &OwnershipFacts,
    block: nat,
    track: Track,
    count: nat,
)
    requires
        block < body.blocks@.len(),
        count <= body.blocks@[block as int].statements@.len(),
    ensures
        ({
            let after = statements_checked(body, facts, block, track, count);
            &&& known(after) == within_block(body, facts, block, known(track), count)
            &&& is_quiet(after) <==> is_quiet(track) && forall|index: int|
                0 <= index < count ==> #[trigger] is_safe_statement(
                    body,
                    facts,
                    block,
                    known(track),
                    index,
                )
        }),
    decreases count,
{
    reveal_with_fuel(statements_checked, 2);
    if count > 0 {
        let less = (count - 1) as nat;
        lemma_statements(body, facts, block, track, less);
        lemma_statement(
            body,
            facts,
            body.blocks@[block as int].statements@[less as int],
            block_point(body, block) + count - 1,
            statements_checked(body, facts, block, track, less),
        );
        let before = statements_checked(body, facts, block, track, less);
        let statement = body.blocks@[block as int].statements@[less as int];
        let point = block_point(body, block) + count - 1;
        assert(statements_checked(body, facts, block, track, count) == statement_checked(
            body,
            facts,
            statement,
            point,
            before,
        ));
        assert(is_safe_statement(body, facts, block, known(track), less as int) <==> are_allowed(
            body,
            facts,
            at_point(body, known(before), point),
            statement_accesses(statement.kind),
        ));
        assert((forall|index: int|
            0 <= index < count ==> #[trigger] is_safe_statement(
                body,
                facts,
                block,
                known(track),
                index,
            )) <==> is_safe_statement(body, facts, block, known(track), less as int) && (forall|
            index: int,
        |
            0 <= index < less ==> #[trigger] is_safe_statement(
                body,
                facts,
                block,
                known(track),
                index,
            )));
    }
}

#[verifier::rlimit(40)]
proof fn lemma_block(body: &Body, facts: &OwnershipFacts, block: nat, track: Track)
    requires
        block < body.blocks@.len(),
    ensures
        ({
            let after = block_checked(body, facts, block, track);
            &&& known(after) == behind_block(body, facts, block, known(track))
            &&& is_quiet(after) <==> is_quiet(track) && is_safe_block(
                body,
                facts,
                block,
                known(track),
            )
        }),
{
    reveal_with_fuel(block_checked, 2);
    reveal(is_safe_block);
    reveal(behind_block);
    let statements = body.blocks@[block as int].statements@;
    let terminator = body.blocks@[block as int].terminator;
    let after = statements_checked(body, facts, block, track, statements.len());
    let point = (block_point(body, block) + statements.len()) as int;
    lemma_statements(body, facts, block, track, statements.len());
    lemma_holding_filter(
        after.loans,
        |loan: Loan| used_from(mentions(body), loan.destination, point),
        |held: Held| used_from(mentions(body), held.by, point),
    );
    let live = Track { loans: live_loans(after.loans, mentions(body), point), ..after };
    assert(known(live) == at_terminator(body, facts, block, known(track)));
    lemma_terminator(body, terminator.kind, facts, live, terminator.span);
    let visited = terminator_visited(body, terminator.kind, facts, live, terminator.span);
    lemma_results(body, terminator.kind, visited.loans, terminator.span);
}

/// What the analysis of a way finds, besides references that are returned, is exactly what is not
/// allowed on it.
pub proof fn a_way_is_reported_exactly_if_it_is_not_safe(
    body: &Body,
    facts: &OwnershipFacts,
    path: Seq<usize>,
)
    requires
        forall|index: int| 0 <= index < path.len() ==> #[trigger] path[index] < body.blocks@.len(),
    ensures
        only_returned_references(along(body, facts, path).diagnostics) <==> is_safe_way(
            body,
            facts,
            path,
        ),
{
    lemma_way(body, facts, path);
}

#[verifier::rlimit(40)]
proof fn lemma_safe_way(body: &Body, facts: &OwnershipFacts, path: Seq<usize>)
    requires
        path.len() > 0,
    ensures
        is_safe_way(body, facts, path) <==> is_safe_way(body, facts, path.drop_last())
            && is_safe_block(
            body,
            facts,
            path.last() as nat,
            behind_way(body, facts, path.drop_last()),
        ),
{
    reveal(is_safe_way);
    let less = path.drop_last();
    let last = path.len() - 1;
    assert forall|index: int| 0 <= index < less.len() implies #[trigger] less[index] == path[index]
        && less.take(index) == path.take(index) by {
        assert(less.take(index) =~= path.take(index));
    }
    assert(path.take(last) =~= less);
    if is_safe_way(body, facts, path) {
        assert forall|index: int| 0 <= index < less.len() implies is_safe_block(
            body,
            facts,
            #[trigger] less[index] as nat,
            behind_way(body, facts, less.take(index)),
        ) by {
            assert(is_safe_block(
                body,
                facts,
                path[index] as nat,
                behind_way(body, facts, path.take(index)),
            ));
        }
        assert(is_safe_block(
            body,
            facts,
            path[last] as nat,
            behind_way(body, facts, path.take(last)),
        ));
    }
    if is_safe_way(body, facts, less) && is_safe_block(
        body,
        facts,
        path.last() as nat,
        behind_way(body, facts, less),
    ) {
        assert forall|index: int| 0 <= index < path.len() implies is_safe_block(
            body,
            facts,
            #[trigger] path[index] as nat,
            behind_way(body, facts, path.take(index)),
        ) by {
            if index < last {
                assert(less[index] == path[index]);
            }
        }
    }
}

#[verifier::rlimit(40)]
proof fn lemma_way(body: &Body, facts: &OwnershipFacts, path: Seq<usize>)
    requires
        forall|index: int| 0 <= index < path.len() ==> #[trigger] path[index] < body.blocks@.len(),
    ensures
        known(along(body, facts, path)) == behind_way(body, facts, path),
        is_quiet(along(body, facts, path)) <==> is_safe_way(body, facts, path),
    decreases path.len(),
{
    reveal_with_fuel(behind_way, 2);
    if path.len() == 0 {
        reveal(is_safe_way);
        assert(holding(Seq::empty()) =~= Set::empty());
        assert(left(Seq::empty()) =~= Set::empty());
    } else {
        let less = path.drop_last();
        let last = path.len() - 1;
        assert forall|index: int| 0 <= index < less.len() implies #[trigger] less[index]
            < body.blocks@.len() by {
            assert(path[index] < body.blocks@.len());
        }
        assert(path[last] < body.blocks@.len());
        lemma_way(body, facts, less);
        let before = along(body, facts, less);
        let after = block_checked(body, facts, path.last() as nat, before);
        lemma_block(body, facts, path.last() as nat, before);
        lemma_safe_way(body, facts, path);
        assert(along(body, facts, path) == after);
    }
}

/// Where the analysis of a body finds nothing, every way through the body does only what is
/// allowed.
pub proof fn unreported_ways_do_only_what_is_allowed(
    body: &Body,
    facts: &OwnershipFacts,
    path: Seq<usize>,
)
    requires
        is_path(body, path),
        analysis_of(body, facts).len() == 0,
    ensures
        is_safe_way(body, facts, path),
{
    unreported_ways_are_safe(body, facts, path);
    a_way_is_reported_exactly_if_it_is_not_safe(body, facts, path);
}

/// Whether a value is a method that may change its object, looked up on a place.
pub open spec fn may_change(rvalue: Rvalue, object: Place) -> bool {
    match rvalue {
        Rvalue::VtableLookup { object: place, receiver, .. } => place == object && receiver
            == ReceiverMode::Mutable,
        Rvalue::WitnessLookup { object: place, receiver, .. } => place == object && receiver
            == ReceiverMode::Mutable,
        Rvalue::DirectMethod { object: place, receiver, .. } => place == object && receiver
            == ReceiverMode::Mutable,
        _ => false,
    }
}

/// The situation at a statement on a way: behind the blocks of the way but for the last, and behind
/// the statements of that block before it.
pub open spec fn at_statement(
    body: &Body,
    facts: &OwnershipFacts,
    path: Seq<usize>,
    index: int,
) -> Situation {
    let block = path.last() as nat;
    at_point(
        body,
        within_block(
            body,
            facts,
            block,
            behind_way(body, facts, path.drop_last()),
            index as nat,
        ),
        block_point(body, block) + index,
    )
}

/// Where a method that may change its object is looked up while a loan of the object or of a part of
/// it is held, shared or not, the body is reported.
pub proof fn a_method_that_may_change_a_lent_object_is_reported(
    body: &Body,
    facts: &OwnershipFacts,
    path: Seq<usize>,
    index: int,
    object: Place,
    loan: Held,
)
    requires
        is_path(body, path),
        0 <= index < body.blocks@[path.last() as int].statements@.len(),
        match body.blocks@[path.last() as int].statements@[index].kind {
            StatementKind::Assign(_, rvalue) => may_change(rvalue, object),
            _ => false,
        },
        at_statement(body, facts, path, index).loans.contains(loan),
        places_overlap(&loan.place, &object),
    ensures
        analysis_of(body, facts).len() > 0,
{
    if analysis_of(body, facts).len() == 0 {
        unreported_ways_do_only_what_is_allowed(body, facts, path);
        reveal(is_safe_way);
        let last = path.len() - 1;
        let block = path.last() as nat;
        assert(path.take(last) =~= path.drop_last());
        assert(is_safe_block(
            body,
            facts,
            path[last] as nat,
            behind_way(body, facts, path.take(last)),
        ));
        let before = behind_way(body, facts, path.drop_last());
        reveal(is_safe_block);
        assert(is_safe_statement(body, facts, block, before, index));
        let now = at_statement(body, facts, path, index);
        let kind = body.blocks@[block as int].statements@[index].kind;
        let accesses = statement_accesses(kind);
        assert(accesses[2] == Access::Write(object));
        assert(is_allowed(
            body,
            facts,
            behind_accesses(body, facts, now, accesses.take(2)),
            accesses[2],
        ));
        lemma_loans_stay(body, facts, now, accesses.take(2));
        assert(behind_accesses(body, facts, now, accesses.take(2)).loans.contains(loan));
    }
}

proof fn lemma_loans_stay(
    body: &Body,
    facts: &OwnershipFacts,
    situation: Situation,
    accesses: Seq<Access>,
)
    ensures
        behind_accesses(body, facts, situation, accesses).loans == situation.loans,
    decreases accesses.len(),
{
    if accesses.len() > 0 {
        lemma_loans_stay(body, facts, situation, accesses.drop_last());
    }
}

} // verus!
