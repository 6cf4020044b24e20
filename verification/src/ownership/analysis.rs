//! The flow of loans and moves through a body.

use vstd::prelude::*;

use crate::diagnostics::{report, report_conflict, CheckResult, Diagnostic, Finding};
use crate::hir::{ReceiverMode, Type};
use crate::list::{list_of, List};
use crate::mir::{
    operand_place_ref, BasicBlockId, Body, BorrowKind, Completion, LocalId, Operand, Place,
    Projection, Rvalue, Statement, StatementKind, TerminatorKind,
};
use crate::names::Name;
use crate::ownership::arrange::{arrange, arranged};
use crate::ownership::facts::OwnershipFacts;
use crate::ownership::loans::{
    call_result_loans, check_read, check_use, check_write, extend_unique, forget_local,
    is_optional_payload_move, live_loans, loans_without, method_binding_for_function, moves_outside,
    moves_without, ownership_successors, place_root_type, read_checked, receiver_loan,
    release_local, restore_place, result_loans, retain_live, successors, transferred,
    transferred_loans, united, united_grows_with_news, united_is_idempotent, use_checked,
    write_checked, Distinct, Loan, Moved,
};
use crate::ownership::places::{
    block_point, contains_non_static_borrow, last_uses, mentions, places_overlap, views,
};
use crate::ownership::reach::{lemma_advance, lemma_initial_within, potential, run_within};
use crate::syntax::{empty_span, File, Span};

verus! {

/// The loans and moves at a point of a body, and what was found up to there.
pub struct Track {
    pub loans: Seq<Loan>,
    pub moved: Seq<Moved>,
    pub diagnostics: Seq<Diagnostic>,
}

/// The running state of the analysis of a block.
pub struct Tracker {
    pub loans: Vec<Loan>,
    pub moved: Vec<Moved>,
    pub diagnostics: Vec<Diagnostic>,
}

impl Tracker {
    pub open spec fn view(&self) -> Track {
        Track { loans: self.loans@, moved: self.moved@, diagnostics: self.diagnostics@ }
    }
}

/// The state after an operand is read. A moved value that is not copied leaves its place.
pub open spec fn operand_visited(
    body: &Body,
    operand: Operand,
    facts: &OwnershipFacts,
    track: Track,
    span: Span,
) -> Track {
    match operand {
        Operand::Constant(_) => track,
        Operand::Copy(place) => {
            let used = use_checked(track.diagnostics, place, false, track.moved, span);
            Track { diagnostics: read_checked(used, place, track.loans, span), ..track }
        },
        Operand::Move(place) => {
            let used = use_checked(track.diagnostics, place, true, track.moved, span);
            let written = write_checked(used, place, track.loans, span);
            match place_root_type(body, &place) {
                Some(ty) => if facts.is_copy(ty) {
                    Track { diagnostics: written, ..track }
                } else {
                    Track {
                        moved: track.moved.push(Moved { place, origin: span }),
                        diagnostics: if !place.is_whole() && facts.has_drop(ty)
                            && !is_optional_payload_move(body, &place) {
                            written.push(report(Finding::PartialMoveFromDropType, span))
                        } else {
                            written
                        },
                        ..track
                    }
                },
                None => Track { diagnostics: written, ..track },
            }
        },
    }
}

/// The state after the operands are read, in order.
pub open spec fn operands_visited(
    body: &Body,
    operands: List<Operand>,
    facts: &OwnershipFacts,
    track: Track,
    span: Span,
) -> Track
    decreases operands,
{
    match operands {
        List::Nil => track,
        List::Cons(head, tail) => operands_visited(
            body,
            *tail,
            facts,
            operand_visited(body, *head, facts, track, span),
            span,
        ),
    }
}

/// The state after a method is looked up on an object.
pub open spec fn lookup_visited(
    body: &Body,
    object: Place,
    receiver: ReceiverMode,
    facts: &OwnershipFacts,
    track: Track,
    span: Span,
) -> Track {
    match receiver {
        ReceiverMode::Shared | ReceiverMode::Static => {
            let read = read_checked(track.diagnostics, object, track.loans, span);
            Track { diagnostics: use_checked(read, object, false, track.moved, span), ..track }
        },
        ReceiverMode::Mutable => {
            let used = use_checked(track.diagnostics, object, false, track.moved, span);
            Track { diagnostics: write_checked(used, object, track.loans, span), ..track }
        },
        ReceiverMode::Move => operand_visited(body, Operand::Move(object), facts, track, span),
    }
}

/// The state after a value is computed. The body of a closure is analysed on its own.
pub open spec fn rvalue_visited(
    body: &Body,
    rvalue: Rvalue,
    facts: &OwnershipFacts,
    track: Track,
    span: Span,
) -> Track
    decreases body, 0nat, 0nat,
{
    match rvalue {
        Rvalue::Use(operand)
        | Rvalue::Unary { operand, .. }
        | Rvalue::Cast { operand, .. }
        | Rvalue::TypeTest { operand, .. } => operand_visited(body, operand, facts, track, span),
        Rvalue::CheckedBinary { left, right, .. } => operand_visited(
            body,
            right,
            facts,
            operand_visited(body, left, facts, track, span),
            span,
        ),
        Rvalue::CheckedIndex { collection, index } => operand_visited(
            body,
            index,
            facts,
            Track {
                diagnostics: use_checked(track.diagnostics, collection, false, track.moved, span),
                ..track
            },
            span,
        ),
        Rvalue::Aggregate { fields, .. } => operands_visited(body, fields, facts, track, span),
        Rvalue::Template { captures, .. } => operands_visited(body, captures, facts, track, span),
        Rvalue::Closure { captures, body: closure, .. } => {
            let visited = operands_visited(body, captures, facts, track, span);
            if closure < body.closures@.len() {
                Track {
                    diagnostics: visited.diagnostics + analysis_of(
                        &body.closures@[closure as int],
                        facts,
                    ),
                    ..visited
                }
            } else {
                visited
            }
        },
        Rvalue::Length(place) => {
            let read = read_checked(track.diagnostics, place, track.loans, span);
            Track { diagnostics: use_checked(read, place, false, track.moved, span), ..track }
        },
        Rvalue::VtableLookup { object, receiver, .. }
        | Rvalue::WitnessLookup { object, receiver, .. }
        | Rvalue::DirectMethod { object, receiver, .. } => lookup_visited(
            body,
            object,
            receiver,
            facts,
            track,
            span,
        ),
        Rvalue::RawOperation { operands, .. } => operands_visited(
            body,
            operands,
            facts,
            track,
            span,
        ),
    }
}

/// The diagnostics on a borrow: one for each loan of the first `count` that it conflicts with.
pub open spec fn borrow_checked(
    diagnostics: Seq<Diagnostic>,
    loans: Seq<Loan>,
    kind: BorrowKind,
    place: Place,
    span: Span,
    count: nat,
) -> Seq<Diagnostic>
    decreases count,
{
    if count == 0 || count > loans.len() {
        diagnostics
    } else {
        let before = borrow_checked(diagnostics, loans, kind, place, span, (count - 1) as nat);
        let loan = loans[count - 1];
        if places_overlap(&loan.place, &place) && (kind == BorrowKind::Mutable || loan.kind
            == BorrowKind::Mutable) {
            before.push(report_conflict(Finding::ConflictingBorrow, span, loan.origin))
        } else {
            before
        }
    }
}

/// The loans after a method lookup is stored in a whole local.
pub open spec fn with_receiver_loan(
    loans: Seq<Loan>,
    place: Place,
    rvalue: Rvalue,
    span: Span,
) -> Seq<Loan> {
    if place.is_whole() {
        match receiver_loan(&rvalue, place.local, span) {
            Some(loan) => united(loans, seq![loan]),
            None => loans,
        }
    } else {
        loans
    }
}

/// The state after a statement at a point of the body.
pub open spec fn statement_checked(
    body: &Body,
    facts: &OwnershipFacts,
    statement: Statement,
    point: int,
    track: Track,
) -> Track
    decreases body, 1nat, 0nat,
{
    let span = statement.span;
    let live = Track { loans: live_loans(track.loans, mentions(body), point), ..track };
    match statement.kind {
        StatementKind::Assign(place, rvalue) => {
            let written = Track {
                diagnostics: write_checked(live.diagnostics, place, live.loans, span),
                ..live
            };
            let visited = rvalue_visited(body, rvalue, facts, written, span);
            let carried = united(visited.loans, transferred(rvalue, place.local, visited.loans));
            Track {
                loans: with_receiver_loan(carried, place, rvalue, span),
                moved: moves_outside(visited.moved, place),
                diagnostics: visited.diagnostics,
            }
        },
        StatementKind::Borrow { destination, kind, place, .. } => {
            let used = use_checked(live.diagnostics, place, false, live.moved, span);
            Track {
                loans: united(live.loans, seq![Loan { destination, kind, place, origin: span }]),
                moved: live.moved,
                diagnostics: borrow_checked(
                    used,
                    live.loans,
                    kind,
                    place,
                    span,
                    live.loans.len(),
                ),
            }
        },
        StatementKind::StorageDead(local) => Track {
            loans: loans_without(live.loans, local),
            moved: moves_without(live.moved, local),
            diagnostics: live.diagnostics,
        },
        StatementKind::SetDiscriminant(place, _)
        | StatementKind::Retag(place)
        | StatementKind::SetDropFlag(place, _) => Track {
            diagnostics: write_checked(live.diagnostics, place, live.loans, span),
            ..live
        },
        StatementKind::StorageLive(_) => live,
    }
}

/// The state after a terminator fills a place.
pub open spec fn destination_filled(destination: Option<Place>, track: Track, span: Span) -> Track {
    match destination {
        Some(place) => Track {
            moved: moves_outside(track.moved, place),
            diagnostics: write_checked(track.diagnostics, place, track.loans, span),
            ..track
        },
        None => track,
    }
}

/// The state after the receiver of a call is read, unless the callee is a method that was looked
/// up on the same object.
pub open spec fn receiver_visited(
    body: &Body,
    function: Operand,
    receiver: Option<Operand>,
    facts: &OwnershipFacts,
    track: Track,
    span: Span,
) -> Track {
    match receiver {
        Some(receiver) => {
            let bound = match operand_place_ref(&receiver) {
                Some(place) => match method_binding_for_function(body, &function) {
                    Some(object) => places_overlap(object, place),
                    None => false,
                },
                None => false,
            };
            if bound {
                track
            } else {
                operand_visited(body, receiver, facts, track, span)
            }
        },
        None => track,
    }
}

/// The first loan from position `from` on that a local holds.
pub open spec fn loan_held_by<'a>(loans: Seq<Loan>, local: LocalId, from: nat) -> Option<&'a Loan>
    decreases loans.len() - from,
{
    if from >= loans.len() {
        None
    } else if loans[from as int].destination == local {
        Some(&loans[from as int])
    } else {
        loan_held_by(loans, local, from + 1)
    }
}

/// Whether a loan is on storage that ends with the body: neither an argument's nor what a raw
/// pointer points to.
#[verifier::allow_in_spec]
pub fn is_local_loan(body: &Body, loan: &Loan) -> (r: bool)
    returns
        !(loan.place.local.0 < body.locals@.len() && (
        body.locals@[loan.place.local.0 as int].argument || (
        body.locals@[loan.place.local.0 as int].ty is RawPointer && (match loan.place.projection {
            List::Cons(step, _) => *step is Dereference,
            List::Nil => false,
        })))),
{
    if loan.place.local.0 < body.locals.len() {
        let local = &body.locals[loan.place.local.0];
        let raw = matches!(local.ty, Type::RawPointer { .. });
        let dereferenced = match &loan.place.projection {
            List::Cons(step, _) => matches!(**step, Projection::Dereference),
            List::Nil => false,
        };
        !(local.argument || raw && dereferenced)
    } else {
        true
    }
}

/// The state after a value is returned.
pub open spec fn value_returned(
    body: &Body,
    value: Option<Operand>,
    facts: &OwnershipFacts,
    track: Track,
    span: Span,
) -> Track {
    match value {
        Some(value) => {
            let visited = operand_visited(body, value, facts, track, span);
            match operand_place_ref(&value) {
                Some(place) => if contains_non_static_borrow(&body.return_type) {
                    match loan_held_by(visited.loans, place.local, 0) {
                        Some(loan) => if is_local_loan(body, loan) {
                            Track {
                                diagnostics: visited.diagnostics.push(
                                    report_conflict(
                                        Finding::ReturnedLocalReference,
                                        span,
                                        loan.origin,
                                    ),
                                ),
                                ..visited
                            }
                        } else {
                            visited
                        },
                        None => visited,
                    }
                } else {
                    visited
                },
                None => visited,
            }
        },
        None => track,
    }
}

/// The diagnostics on a suspension: one for each loan of the first `count` on storage of the body
/// that is no argument.
pub open spec fn suspension_checked(
    body: &Body,
    diagnostics: Seq<Diagnostic>,
    loans: Seq<Loan>,
    span: Span,
    count: nat,
) -> Seq<Diagnostic>
    decreases count,
{
    if count == 0 || count > loans.len() {
        diagnostics
    } else {
        let before = suspension_checked(body, diagnostics, loans, span, (count - 1) as nat);
        let loan = loans[count - 1];
        if loan.place.local.0 < body.locals@.len()
            && !body.locals@[loan.place.local.0 as int].argument {
            before.push(report_conflict(Finding::BorrowAcrossSuspend, span, loan.origin))
        } else {
            before
        }
    }
}

/// The state after a terminator.
pub open spec fn terminator_visited(
    body: &Body,
    terminator: TerminatorKind,
    facts: &OwnershipFacts,
    track: Track,
    span: Span,
) -> Track {
    match terminator {
        TerminatorKind::Switch { value, .. } | TerminatorKind::Throw(value) => operand_visited(
            body,
            value,
            facts,
            track,
            span,
        ),
        TerminatorKind::Suspend { value, destination, error_destination, .. } => {
            let visited = operand_visited(body, value, facts, track, span);
            let filled = destination_filled(
                error_destination,
                destination_filled(destination, visited, span),
                span,
            );
            Track {
                diagnostics: suspension_checked(
                    body,
                    filled.diagnostics,
                    filled.loans,
                    span,
                    filled.loans.len(),
                ),
                ..filled
            }
        },
        TerminatorKind::Call {
            function,
            receiver,
            arguments,
            destination,
            error_destination,
            ..
        } => {
            let called = operand_visited(body, function, facts, track, span);
            let received = receiver_visited(body, function, receiver, facts, called, span);
            let passed = operands_visited(body, arguments, facts, received, span);
            destination_filled(
                error_destination,
                destination_filled(destination, passed, span),
                span,
            )
        },
        TerminatorKind::Return(value) => value_returned(body, value, facts, track, span),
        TerminatorKind::TaggedReturn { completion, payload } => match completion {
            Completion::Success => value_returned(body, payload, facts, track, span),
            Completion::Error => match payload {
                Some(value) => operand_visited(body, value, facts, track, span),
                None => track,
            },
        },
        TerminatorKind::Drop { place, .. } => {
            let written = write_checked(track.diagnostics, place, track.loans, span);
            Track { diagnostics: use_checked(written, place, true, track.moved, span), ..track }
        },
        TerminatorKind::Goto(_) | TerminatorKind::Abort | TerminatorKind::Unreachable => track,
    }
}

/// The state after the first `count` statements of a block.
pub open spec fn statements_checked(
    body: &Body,
    facts: &OwnershipFacts,
    block: nat,
    track: Track,
    count: nat,
) -> Track
    decreases body, 2nat, count,
{
    if block >= body.blocks@.len() || count == 0
        || count > body.blocks@[block as int].statements@.len() {
        track
    } else {
        statement_checked(
            body,
            facts,
            body.blocks@[block as int].statements@[count - 1],
            block_point(body, block) + count - 1,
            statements_checked(body, facts, block, track, (count - 1) as nat),
        )
    }
}

/// The state at the end of a block.
pub open spec fn block_checked(
    body: &Body,
    facts: &OwnershipFacts,
    block: nat,
    track: Track,
) -> Track
    decreases body, 3nat, 0nat,
{
    let statements = body.blocks@[block as int].statements@;
    let terminator = body.blocks@[block as int].terminator;
    let after = statements_checked(body, facts, block, track, statements.len());
    let live = Track {
        loans: live_loans(
            after.loans,
            mentions(body),
            (block_point(body, block) + statements.len()) as int,
        ),
        ..after
    };
    let visited = terminator_visited(body, terminator.kind, facts, live, terminator.span);
    Track {
        loans: united(
            visited.loans,
            result_loans(body, terminator.kind, visited.loans, terminator.span),
        ),
        ..visited
    }
}

/// What is known on entry to a block.
pub struct Entry {
    pub loans: Seq<Loan>,
    pub moved: Seq<Moved>,
}

/// The state of the analysis of a body: what is known on entry to each block, the blocks that are
/// still to be visited, and what was found.
pub struct Run {
    pub entries: Seq<Option<Entry>>,
    pub work: Seq<usize>,
    pub diagnostics: Seq<Diagnostic>,
}

/// The state after what is known at the end of a block is merged into its successors from
/// position `from` on. A successor that learns something is visited again.
pub open spec fn merged(run: Run, out: Entry, successors: Seq<BasicBlockId>, from: nat) -> Run
    decreases successors.len() - from,
{
    if from >= successors.len() {
        run
    } else {
        let target = successors[from as int].0;
        if target < run.entries.len() {
            let known = match run.entries[target as int] {
                Some(entry) => Entry {
                    loans: united(entry.loans, out.loans),
                    moved: united(entry.moved, out.moved),
                },
                None => out,
            };
            let changed = match run.entries[target as int] {
                Some(entry) => known.loans.len() != entry.loans.len() || known.moved.len()
                    != entry.moved.len(),
                None => true,
            };
            merged(
                Run {
                    entries: run.entries.update(target as int, Some(known)),
                    work: if changed {
                        run.work.push(target)
                    } else {
                        run.work
                    },
                    ..run
                },
                out,
                successors,
                from + 1,
            )
        } else {
            merged(run, out, successors, from + 1)
        }
    }
}

/// The state after the first block that is still to be visited is visited.
pub open spec fn advanced(body: &Body, facts: &OwnershipFacts, run: Run) -> Run
    decreases body, 4nat, 0nat,
{
    if run.work.len() == 0 || run.work[0] >= run.entries.len() || run.work[0]
        >= body.blocks@.len() {
        run
    } else {
        let block = run.work[0] as nat;
        let entry = match run.entries[block as int] {
            Some(entry) => entry,
            None => Entry { loans: Seq::empty(), moved: Seq::empty() },
        };
        let track = block_checked(
            body,
            facts,
            block,
            Track { loans: entry.loans, moved: entry.moved, diagnostics: run.diagnostics },
        );
        merged(
            Run {
                entries: run.entries,
                work: run.work.drop_first(),
                diagnostics: track.diagnostics,
            },
            Entry { loans: track.loans, moved: track.moved },
            successors(body.blocks@[block as int].terminator.kind),
            0,
        )
    }
}

/// The state before any block is visited: nothing is known on entry to the body.
pub open spec fn initial(body: &Body) -> Run {
    Run {
        entries: Seq::new(
            body.blocks@.len(),
            |index: int|
                if index == 0 {
                    Some(Entry { loans: Seq::empty(), moved: Seq::empty() })
                } else {
                    None
                },
        ),
        work: if body.blocks@.len() > 0 {
            seq![0usize]
        } else {
            Seq::empty()
        },
        diagnostics: Seq::empty(),
    }
}

/// The state after a number of visits.
pub open spec fn run_for(body: &Body, facts: &OwnershipFacts, visits: nat) -> Run
    decreases body, 5nat, visits,
{
    if visits == 0 {
        initial(body)
    } else {
        advanced(body, facts, run_for(body, facts, (visits - 1) as nat))
    }
}

/// The findings on a body: those of the analysis that goes on until no block is left to visit,
/// which takes no more visits than there is to learn.
pub open spec fn analysis_of(body: &Body, facts: &OwnershipFacts) -> Seq<Diagnostic>
    decreases body, 6nat, 0nat,
{
    arranged(run_for(body, facts, potential(body, initial(body))).diagnostics)
}

impl Tracker {
    fn visit_operand(&mut self, body: &Body, operand: &Operand, facts: &OwnershipFacts, span: Span)
        ensures
            final(self)@ == operand_visited(body, *operand, facts, old(self)@, span),
    {
        match operand {
            Operand::Constant(_) => {},
            Operand::Copy(place) => {
                check_use(place, false, &self.moved, span, &mut self.diagnostics);
                check_read(place, &self.loans, span, &mut self.diagnostics);
            },
            Operand::Move(place) => {
                check_use(place, true, &self.moved, span, &mut self.diagnostics);
                check_write(place, &self.loans, span, &mut self.diagnostics);
                match place_root_type(body, place) {
                    Some(ty) => {
                        if !facts.is_copy(ty) {
                            if !place.is_whole() && facts.has_drop(ty) && !is_optional_payload_move(
                                body,
                                place,
                            ) {
                                self.diagnostics.push(
                                    report(Finding::PartialMoveFromDropType, span),
                                );
                            }
                            self.moved.push(Moved { place: place.dup(), origin: span });
                        }
                    },
                    None => {},
                }
            },
        }
    }

    fn visit_operands(
        &mut self,
        body: &Body,
        operands: &List<Operand>,
        facts: &OwnershipFacts,
        span: Span,
    )
        ensures
            final(self)@ == operands_visited(body, *operands, facts, old(self)@, span),
        decreases operands,
    {
        match operands {
            List::Nil => {},
            List::Cons(head, tail) => {
                self.visit_operand(body, head, facts, span);
                self.visit_operands(body, tail, facts, span);
            },
        }
    }

    fn visit_lookup(
        &mut self,
        body: &Body,
        object: &Place,
        receiver: ReceiverMode,
        facts: &OwnershipFacts,
        span: Span,
    )
        ensures
            final(self)@ == lookup_visited(body, *object, receiver, facts, old(self)@, span),
    {
        match receiver {
            ReceiverMode::Shared => {
                check_read(object, &self.loans, span, &mut self.diagnostics);
                check_use(object, false, &self.moved, span, &mut self.diagnostics);
            },
            ReceiverMode::Static => {
                check_read(object, &self.loans, span, &mut self.diagnostics);
                check_use(object, false, &self.moved, span, &mut self.diagnostics);
            },
            ReceiverMode::Mutable => {
                check_use(object, false, &self.moved, span, &mut self.diagnostics);
                check_write(object, &self.loans, span, &mut self.diagnostics);
            },
            ReceiverMode::Move => {
                let operand = Operand::Move(object.dup());
                self.visit_operand(body, &operand, facts, span);
            },
        }
    }

    fn visit_rvalue(&mut self, body: &Body, rvalue: &Rvalue, facts: &OwnershipFacts, span: Span)
        ensures
            final(self)@ == rvalue_visited(body, *rvalue, facts, old(self)@, span),
        decreases body, 0nat,
    {
        match rvalue {
            Rvalue::Use(operand) => self.visit_operand(body, operand, facts, span),
            Rvalue::Unary { operand, .. } => self.visit_operand(body, operand, facts, span),
            Rvalue::Cast { operand, .. } => self.visit_operand(body, operand, facts, span),
            Rvalue::TypeTest { operand, .. } => self.visit_operand(body, operand, facts, span),
            Rvalue::CheckedBinary { left, right, .. } => {
                self.visit_operand(body, left, facts, span);
                self.visit_operand(body, right, facts, span);
            },
            Rvalue::CheckedIndex { collection, index } => {
                check_use(collection, false, &self.moved, span, &mut self.diagnostics);
                self.visit_operand(body, index, facts, span);
            },
            Rvalue::Aggregate { fields, .. } => self.visit_operands(body, fields, facts, span),
            Rvalue::Template { captures, .. } => self.visit_operands(body, captures, facts, span),
            Rvalue::Closure { captures, body: closure, .. } => {
                self.visit_operands(body, captures, facts, span);
                if *closure < body.closures.len() {
                    let mut found = analyze_blocks(&body.closures[*closure], facts);
                    self.diagnostics.append(&mut found);
                }
            },
            Rvalue::Length(place) => {
                check_read(place, &self.loans, span, &mut self.diagnostics);
                check_use(place, false, &self.moved, span, &mut self.diagnostics);
            },
            Rvalue::VtableLookup { object, receiver, .. } => self.visit_lookup(
                body,
                object,
                *receiver,
                facts,
                span,
            ),
            Rvalue::WitnessLookup { object, receiver, .. } => self.visit_lookup(
                body,
                object,
                *receiver,
                facts,
                span,
            ),
            Rvalue::DirectMethod { object, receiver, .. } => self.visit_lookup(
                body,
                object,
                *receiver,
                facts,
                span,
            ),
            Rvalue::RawOperation { operands, .. } => self.visit_operands(
                body,
                operands,
                facts,
                span,
            ),
        }
    }

    fn check_borrow(&mut self, destination: LocalId, kind: BorrowKind, place: &Place, span: Span)
        ensures
            final(self)@ == (Track {
                loans: united(
                    old(self)@.loans,
                    seq![Loan { destination, kind, place: *place, origin: span }],
                ),
                moved: old(self)@.moved,
                diagnostics: borrow_checked(
                    use_checked(old(self)@.diagnostics, *place, false, old(self)@.moved, span),
                    old(self)@.loans,
                    kind,
                    *place,
                    span,
                    old(self)@.loans.len(),
                ),
            }),
    {
        check_use(place, false, &self.moved, span, &mut self.diagnostics);
        let ghost used = self.diagnostics@;
        let mut index: usize = 0;
        while index < self.loans.len()
            invariant
                index <= self.loans.len(),
                self.loans@ == old(self).loans@,
                self.moved@ == old(self).moved@,
                self.diagnostics@ == borrow_checked(
                    used,
                    self.loans@,
                    kind,
                    *place,
                    span,
                    index as nat,
                ),
            decreases self.loans.len() - index,
        {
            let loan = &self.loans[index];
            if places_overlap(&loan.place, place) && (kind == BorrowKind::Mutable || loan.kind
                == BorrowKind::Mutable) {
                self.diagnostics.push(
                    report_conflict(Finding::ConflictingBorrow, span, loan.origin),
                );
            }
            index = index + 1;
        }
        let mut added: Vec<Loan> = Vec::new();
        added.push(Loan { destination, kind, place: place.dup(), origin: span });
        proof {
            assert(added@ =~= seq![Loan { destination, kind, place: *place, origin: span }]);
        }
        extend_unique(&mut self.loans, &added);
    }

    fn check_statement(
        &mut self,
        body: &Body,
        facts: &OwnershipFacts,
        points: &Vec<Vec<LocalId>>,
        statement: &Statement,
        point: usize,
    )
        requires
            views(points@) == mentions(body),
        ensures
            final(self)@ == statement_checked(body, facts, *statement, point as int, old(self)@),
        decreases body, 1nat,
    {
        let span = statement.span;
        retain_live(&mut self.loans, points, point);
        match &statement.kind {
            StatementKind::Assign(place, rvalue) => {
                check_write(place, &self.loans, span, &mut self.diagnostics);
                self.visit_rvalue(body, rvalue, facts, span);
                let carried = transferred_loans(rvalue, place.local, &self.loans);
                extend_unique(&mut self.loans, &carried);
                if place.is_whole() {
                    match receiver_loan(rvalue, place.local, span) {
                        Some(loan) => {
                            let ghost expected = loan;
                            let mut added: Vec<Loan> = Vec::new();
                            added.push(loan);
                            proof {
                                assert(added@ =~= seq![expected]);
                            }
                            extend_unique(&mut self.loans, &added);
                        },
                        None => {},
                    }
                }
                restore_place(&mut self.moved, place);
            },
            StatementKind::Borrow { destination, kind, place, .. } => {
                self.check_borrow(*destination, *kind, place, span);
            },
            StatementKind::StorageDead(local) => {
                release_local(&mut self.loans, *local);
                forget_local(&mut self.moved, *local);
            },
            StatementKind::SetDiscriminant(place, _) => {
                check_write(place, &self.loans, span, &mut self.diagnostics);
            },
            StatementKind::Retag(place) => {
                check_write(place, &self.loans, span, &mut self.diagnostics);
            },
            StatementKind::SetDropFlag(place, _) => {
                check_write(place, &self.loans, span, &mut self.diagnostics);
            },
            StatementKind::StorageLive(_) => {},
        }
    }

    fn fill_destination(&mut self, destination: &Option<Place>, span: Span)
        ensures
            final(self)@ == destination_filled(*destination, old(self)@, span),
    {
        match destination {
            Some(place) => {
                check_write(place, &self.loans, span, &mut self.diagnostics);
                restore_place(&mut self.moved, place);
            },
            None => {},
        }
    }

    fn visit_receiver(
        &mut self,
        body: &Body,
        function: &Operand,
        receiver: &Option<Operand>,
        facts: &OwnershipFacts,
        span: Span,
    )
        ensures
            final(self)@ == receiver_visited(body, *function, *receiver, facts, old(self)@, span),
    {
        match receiver {
            Some(receiver) => {
                let bound = match operand_place_ref(receiver) {
                    Some(place) => match method_binding_for_function(body, function) {
                        Some(object) => places_overlap(object, place),
                        None => false,
                    },
                    None => false,
                };
                if !bound {
                    self.visit_operand(body, receiver, facts, span);
                }
            },
            None => {},
        }
    }

    fn return_value(
        &mut self,
        body: &Body,
        value: &Option<Operand>,
        facts: &OwnershipFacts,
        span: Span,
    )
        ensures
            final(self)@ == value_returned(body, *value, facts, old(self)@, span),
    {
        let value = match value {
            Some(value) => value,
            None => {
                return;
            },
        };
        self.visit_operand(body, value, facts, span);
        match operand_place_ref(value) {
            Some(place) => {
                if contains_non_static_borrow(&body.return_type) {
                    match find_loan_held_by(&self.loans, place.local) {
                        Some(loan) => {
                            if is_local_loan(body, loan) {
                                self.diagnostics.push(
                                    report_conflict(
                                        Finding::ReturnedLocalReference,
                                        span,
                                        loan.origin,
                                    ),
                                );
                            }
                        },
                        None => {},
                    }
                }
            },
            None => {},
        }
    }

    fn check_suspension(&mut self, body: &Body, span: Span)
        ensures
            final(self)@ == (Track {
                diagnostics: suspension_checked(
                    body,
                    old(self)@.diagnostics,
                    old(self)@.loans,
                    span,
                    old(self)@.loans.len(),
                ),
                ..old(self)@
            }),
    {
        let mut index: usize = 0;
        while index < self.loans.len()
            invariant
                index <= self.loans.len(),
                self.loans@ == old(self).loans@,
                self.moved@ == old(self).moved@,
                self.diagnostics@ == suspension_checked(
                    body,
                    old(self).diagnostics@,
                    self.loans@,
                    span,
                    index as nat,
                ),
            decreases self.loans.len() - index,
        {
            let loan = &self.loans[index];
            if loan.place.local.0 < body.locals.len() && !body.locals[loan.place.local.0].argument {
                self.diagnostics.push(
                    report_conflict(Finding::BorrowAcrossSuspend, span, loan.origin),
                );
            }
            index = index + 1;
        }
    }

    fn visit_terminator(
        &mut self,
        body: &Body,
        terminator: &TerminatorKind,
        facts: &OwnershipFacts,
        span: Span,
    )
        ensures
            final(self)@ == terminator_visited(body, *terminator, facts, old(self)@, span),
    {
        match terminator {
            TerminatorKind::Switch { value, .. } => self.visit_operand(body, value, facts, span),
            TerminatorKind::Throw(value) => self.visit_operand(body, value, facts, span),
            TerminatorKind::Suspend { value, destination, error_destination, .. } => {
                self.visit_operand(body, value, facts, span);
                self.fill_destination(destination, span);
                self.fill_destination(error_destination, span);
                self.check_suspension(body, span);
            },
            TerminatorKind::Call {
                function,
                receiver,
                arguments,
                destination,
                error_destination,
                ..
            } => {
                self.visit_operand(body, function, facts, span);
                self.visit_receiver(body, function, receiver, facts, span);
                self.visit_operands(body, arguments, facts, span);
                self.fill_destination(destination, span);
                self.fill_destination(error_destination, span);
            },
            TerminatorKind::Return(value) => self.return_value(body, value, facts, span),
            TerminatorKind::TaggedReturn { completion, payload } => match completion {
                Completion::Success => self.return_value(body, payload, facts, span),
                Completion::Error => match payload {
                    Some(value) => self.visit_operand(body, value, facts, span),
                    None => {},
                },
            },
            TerminatorKind::Drop { place, .. } => {
                check_write(place, &self.loans, span, &mut self.diagnostics);
                check_use(place, true, &self.moved, span, &mut self.diagnostics);
            },
            TerminatorKind::Goto(_) => {},
            TerminatorKind::Abort => {},
            TerminatorKind::Unreachable => {},
        }
    }
}

fn find_loan_held_by(loans: &Vec<Loan>, local: LocalId) -> (r: Option<&Loan>)
    ensures
        r == loan_held_by(loans@, local, 0),
{
    let mut index: usize = 0;
    while index < loans.len()
        invariant
            index <= loans.len(),
            loan_held_by(loans@, local, 0) == loan_held_by(loans@, local, index as nat),
        decreases loans.len() - index,
    {
        if loans[index].destination == local {
            return Some(&loans[index]);
        }
        index = index + 1;
    }
    None
}

/// What is known on entry to a block.
pub struct Known {
    pub loans: Vec<Loan>,
    pub moved: Vec<Moved>,
}

impl Known {
    pub open spec fn view(&self) -> Entry {
        Entry { loans: self.loans@, moved: self.moved@ }
    }

    fn dup(&self) -> (r: Known)
        ensures
            r@ == self@,
    {
        let mut loans: Vec<Loan> = Vec::new();
        let mut index: usize = 0;
        while index < self.loans.len()
            invariant
                index <= self.loans.len(),
                loans@ == self.loans@.take(index as int),
            decreases self.loans.len() - index,
        {
            loans.push(self.loans[index].dup());
            index = index + 1;
            proof {
                assert(loans@ =~= self.loans@.take(index as int));
            }
        }
        let mut moved: Vec<Moved> = Vec::new();
        index = 0;
        while index < self.moved.len()
            invariant
                index <= self.moved.len(),
                moved@ == self.moved@.take(index as int),
            decreases self.moved.len() - index,
        {
            moved.push(self.moved[index].dup());
            index = index + 1;
            proof {
                assert(moved@ =~= self.moved@.take(index as int));
            }
        }
        proof {
            assert(loans@ =~= self.loans@);
            assert(moved@ =~= self.moved@);
        }
        Known { loans, moved }
    }
}

/// Adds what another way to a block knows, and tells whether something was new.
pub fn merge_analysis_state(destination: &mut Known, source: &Known) -> (r: bool)
    ensures
        final(destination)@ == (Entry {
            loans: united(old(destination)@.loans, source@.loans),
            moved: united(old(destination)@.moved, source@.moved),
        }),
        r == (final(destination)@.loans.len() != old(destination)@.loans.len()
            || final(destination)@.moved.len() != old(destination)@.moved.len()),
{
    let loans: usize = destination.loans.len();
    let moved: usize = destination.moved.len();
    extend_unique(&mut destination.loans, &source.loans);
    extend_unique(&mut destination.moved, &source.moved);
    destination.loans.len() != loans || destination.moved.len() != moved
}

/// Merging changes something exactly when the source knows a loan or a move that the destination
/// does not know, and merging the same again changes nothing.
pub proof fn merge_reports_news(destination: Entry, source: Entry)
    ensures
        (united(destination.loans, source.loans).len() != destination.loans.len() || united(
            destination.moved,
            source.moved,
        ).len() != destination.moved.len()) <==> (exists|index: int|
            0 <= index < source.loans.len() && !destination.loans.contains(
                #[trigger] source.loans[index],
            )) || (exists|index: int|
            0 <= index < source.moved.len() && !destination.moved.contains(
                #[trigger] source.moved[index],
            )),
        united(united(destination.loans, source.loans), source.loans) == united(
            destination.loans,
            source.loans,
        ),
        united(united(destination.moved, source.moved), source.moved) == united(
            destination.moved,
            source.moved,
        ),
{
    united_grows_with_news(destination.loans, source.loans);
    united_grows_with_news(destination.moved, source.moved);
    united_is_idempotent(destination.loans, source.loans);
    united_is_idempotent(destination.moved, source.moved);
}

/// What the analysis has learned so far.
struct Progress {
    entries: Vec<Option<Known>>,
    work: Vec<usize>,
    diagnostics: Vec<Diagnostic>,
}

/// What is known on entry to each block.
spec fn entries_of(entries: Seq<Option<Known>>) -> Seq<Option<Entry>> {
    Seq::new(
        entries.len(),
        |index: int|
            match entries[index] {
                Some(known) => Some(known@),
                None => None,
            },
    )
}

impl Progress {
    spec fn view(&self) -> Run {
        Run {
            entries: entries_of(self.entries@),
            work: self.work@,
            diagnostics: self.diagnostics@,
        }
    }

    spec fn wf(&self, body: &Body) -> bool {
        &&& self.entries@.len() == body.blocks@.len()
        &&& forall|index: int|
            0 <= index < self.work@.len() ==> (#[trigger] self.work@[index])
                < body.blocks@.len()
    }

    fn merge_successors(&mut self, body: &Body, out: &Known, targets: &Vec<BasicBlockId>)
        requires
            old(self).wf(body),
        ensures
            final(self).wf(body),
            final(self)@ == merged(old(self)@, out@, targets@, 0),
    {
        let ghost start = self@;
        let mut index: usize = 0;
        while index < targets.len()
            invariant
                index <= targets.len(),
                self.wf(body),
                merged(start, out@, targets@, 0) == merged(self@, out@, targets@, index as nat),
            decreases targets.len() - index,
        {
            let ghost before = self@;
            let target: usize = targets[index].0;
            if target < self.entries.len() {
                let mut entry: Option<Known> = None;
                std::mem::swap(&mut entry, &mut self.entries[target]);
                let (known, changed) = match entry {
                    Some(entry) => {
                        let mut known = entry;
                        let changed = merge_analysis_state(&mut known, out);
                        (known, changed)
                    },
                    None => (out.dup(), true),
                };
                let ghost view = known@;
                let mut filled: Option<Known> = Some(known);
                std::mem::swap(&mut filled, &mut self.entries[target]);
                if changed {
                    self.work.push(target);
                }
                proof {
                    assert(entries_of(self.entries@) =~= before.entries.update(
                        target as int,
                        Some(view),
                    ));
                }
            }
            index = index + 1;
        }
    }
}

fn check_block(
    body: &Body,
    facts: &OwnershipFacts,
    points: &Vec<Vec<LocalId>>,
    block_index: usize,
    first_point: usize,
    tracker: Tracker,
) -> (r: Tracker)
    requires
        views(points@) == mentions(body),
        block_index < body.blocks@.len(),
        first_point == block_point(body, block_index as nat),
        first_point + body.blocks@[block_index as int].statements@.len() < points@.len(),
    ensures
        r@ == block_checked(body, facts, block_index as nat, tracker@),
    decreases body, 3nat,
{
    let mut tracker = tracker;
    let ghost start = tracker@;
    let total: usize = points.len();
    let block = &body.blocks[block_index];
    let mut index: usize = 0;
    while index < block.statements.len()
        invariant
            index <= block.statements.len(),
            *block == body.blocks@[block_index as int],
            block_index < body.blocks@.len(),
            views(points@) == mentions(body),
            first_point == block_point(body, block_index as nat),
            first_point + block.statements@.len() < points@.len() == total,
            tracker@ == statements_checked(body, facts, block_index as nat, start, index as nat),
        decreases block.statements.len() - index,
    {
        tracker.check_statement(
            body,
            facts,
            points,
            &block.statements[index],
            first_point + index,
        );
        index = index + 1;
    }
    retain_live(&mut tracker.loans, points, first_point + index);
    tracker.visit_terminator(body, &block.terminator.kind, facts, block.terminator.span);
    let returned = call_result_loans(
        body,
        &block.terminator.kind,
        &tracker.loans,
        block.terminator.span,
    );
    extend_unique(&mut tracker.loans, &returned);
    tracker
}

fn empty_entries(count: usize) -> (r: Vec<Option<Known>>)
    ensures
        r@.len() == count,
        forall|index: int|
            0 <= index < count ==> (#[trigger] entries_of(r@)[index]) == (if index == 0 {
                Some(Entry { loans: Seq::empty(), moved: Seq::empty() })
            } else {
                None::<Entry>
            }),
{
    let mut entries: Vec<Option<Known>> = Vec::new();
    while entries.len() < count
        invariant
            entries@.len() <= count,
            forall|index: int|
                0 <= index < entries@.len() ==> (#[trigger] entries_of(entries@)[index]) == (
                if index == 0 {
                    Some(Entry { loans: Seq::empty(), moved: Seq::empty() })
                } else {
                    None::<Entry>
                }),
        decreases count - entries.len(),
    {
        let ghost before = entries@;
        if entries.len() == 0 {
            let known = Known { loans: Vec::new(), moved: Vec::new() };
            proof {
                assert(known@ == (Entry { loans: Seq::empty(), moved: Seq::empty() }));
            }
            entries.push(Some(known));
        } else {
            entries.push(None);
        }
        proof {
            assert forall|index: int| 0 <= index < before.len() implies (#[trigger] entries_of(
                entries@,
            )[index]) == entries_of(before)[index] by {}
        }
    }
    entries
}

proof fn lemma_block_points(body: &Body, block: nat)
    requires
        block < body.blocks@.len(),
    ensures
        block_point(body, block) + body.blocks@[block as int].statements@.len() < mentions(
            body,
        ).len(),
{
    lemma_points_grow(body, block + 1, body.blocks@.len());
}

proof fn lemma_points_grow(body: &Body, first: nat, second: nat)
    requires
        first <= second <= body.blocks@.len(),
    ensures
        block_point(body, first) <= block_point(body, second),
    decreases second - first,
{
    if first < second {
        lemma_points_grow(body, first, (second - 1) as nat);
    }
}

fn first_point(body: &Body, points: &Vec<Vec<LocalId>>, block: usize) -> (r: usize)
    requires
        views(points@) == mentions(body),
        block < body.blocks@.len(),
    ensures
        r == block_point(body, block as nat),
{
    let total: usize = points.len();
    let mut point: usize = 0;
    let mut index: usize = 0;
    while index < block
        invariant
            index <= block < body.blocks@.len(),
            total == points@.len(),
            views(points@) == mentions(body),
            point == block_point(body, index as nat),
        decreases block - index,
    {
        proof {
            lemma_block_points(body, index as nat);
            assert(views(points@).len() == points@.len());
        }
        point = point + body.blocks[index].statements.len() + 1;
        index = index + 1;
    }
    point
}

/// An analysis that has no block left to visit is over: continuing it changes nothing.
pub proof fn analysis_stays_over(body: &Body, facts: &OwnershipFacts, visits: nat, more: nat)
    requires
        run_for(body, facts, visits).work.len() == 0,
        visits <= more,
    ensures
        run_for(body, facts, more) == run_for(body, facts, visits),
    decreases more,
{
    reveal_with_fuel(run_for, 2);
    reveal_with_fuel(advanced, 2);
    if visits < more {
        analysis_stays_over(body, facts, visits, (more - 1) as nat);
    }
}

/// Analyses the flow of loans and moves through a body.
pub fn analyze_blocks(body: &Body, facts: &OwnershipFacts) -> (r: Vec<Diagnostic>)
    ensures
        r@ == analysis_of(body, facts),
    decreases body, 6nat,
{
    let points = last_uses(body);
    let mut progress = Progress {
        entries: empty_entries(body.blocks.len()),
        work: Vec::new(),
        diagnostics: Vec::new(),
    };
    if body.blocks.len() > 0 {
        progress.work.push(0);
    }
    let ghost mut visits: nat = 0;
    proof {
        assert(progress@.entries =~= initial(body).entries);
        assert(progress@.work =~= initial(body).work);
        lemma_initial_within(body);
    }
    while progress.work.len() > 0
        invariant
            views(points@) == mentions(body),
            progress.wf(body),
            progress@ == run_for(body, facts, visits),
            run_within(body, progress@),
            visits + potential(body, progress@) <= potential(body, initial(body)),
        decreases potential(body, progress@),
    {
        let block_index: usize = progress.work.remove(0);
        let ghost before = run_for(body, facts, visits);
        proof {
            assert(block_index == before.work[0]);
            assert(progress.work@ =~= before.work.drop_first());
        }
        let known = match &progress.entries[block_index] {
            Some(known) => known.dup(),
            None => Known { loans: Vec::new(), moved: Vec::new() },
        };
        proof {
            lemma_block_points(body, block_index as nat);
            assert(views(points@).len() == points@.len());
            assert(known@ == (match before.entries[block_index as int] {
                Some(entry) => entry,
                None => Entry { loans: Seq::empty(), moved: Seq::empty() },
            }));
        }
        let point = first_point(body, &points, block_index);
        let mut diagnostics: Vec<Diagnostic> = Vec::new();
        std::mem::swap(&mut diagnostics, &mut progress.diagnostics);
        let tracker = check_block(
            body,
            facts,
            &points,
            block_index,
            point,
            Tracker { loans: known.loans, moved: known.moved, diagnostics },
        );
        let targets = ownership_successors(&body.blocks[block_index].terminator.kind);
        progress.diagnostics = tracker.diagnostics;
        let out = Known { loans: tracker.loans, moved: tracker.moved };
        proof {
            lemma_advance(body, facts, before);
        }
        progress.merge_successors(body, &out, &targets);
        proof {
            visits = visits + 1;
            assert(progress@ == advanced(body, facts, before));
        }
    }
    proof {
        analysis_stays_over(body, facts, visits, potential(body, initial(body)));
    }
    arrange(progress.diagnostics)
}

/// An error that the validation of a body reported.
#[derive(Clone, Copy, Debug, PartialEq, Eq, Structural)]
pub struct ValidationError {
    pub text: Name,
}

/// The texts of the errors.
pub open spec fn error_texts(errors: Seq<ValidationError>) -> Seq<Name> {
    errors.map_values(|error: ValidationError| error.text)
}

/// The report on a body that is not valid.
pub open spec fn invalid_body(body: &Body, errors: Seq<ValidationError>) -> Diagnostic {
    Diagnostic {
        finding: Finding::InvalidMir,
        primary: if body.locals@.len() > 0 {
            body.locals@[0].span
        } else {
            empty_span(File::Compiler)
        },
        secondary: None,
        notes: list_of(error_texts(errors)),
    }
}

/// The findings on a body whose validation reported the given errors: only a valid body is
/// analysed.
pub open spec fn ownership_findings(
    body: &Body,
    errors: Seq<ValidationError>,
    facts: &OwnershipFacts,
) -> Seq<Diagnostic> {
    if errors.len() > 0 {
        seq![invalid_body(body, errors)]
    } else {
        analysis_of(body, facts)
    }
}

/// Checks moves, partial moves, loans, returned references and suspensions in a body.
///
/// `errors` is what the validation of the body reported. Where it reported anything, that is
/// reported in place of an analysis, which would take for granted what does not hold of the body.
pub fn check_ownership(
    body: &Body,
    errors: &Vec<ValidationError>,
    facts: &OwnershipFacts,
) -> (r: CheckResult)
    ensures
        r.diagnostics@ == ownership_findings(body, errors@, facts),
{
    if errors.len() == 0 {
        return CheckResult { diagnostics: analyze_blocks(body, facts) };
    }
    let mut texts: Vec<Name> = Vec::new();
    let mut index: usize = 0;
    while index < errors.len()
        invariant
            index <= errors.len(),
            texts@ == error_texts(errors@.take(index as int)),
        decreases errors.len() - index,
    {
        proof {
            assert(errors@.take(index + 1) =~= errors@.take(index as int).push(
                errors@[index as int],
            ));
        }
        texts.push(errors[index].text);
        index = index + 1;
        proof {
            assert(texts@ =~= error_texts(errors@.take(index as int)));
        }
    }
    proof {
        assert(errors@.take(index as int) =~= errors@);
    }
    let primary = if body.locals.len() > 0 {
        body.locals[0].span
    } else {
        empty_span(File::Compiler)
    };
    let mut diagnostics: Vec<Diagnostic> = Vec::new();
    diagnostics.push(
        Diagnostic {
            finding: Finding::InvalidMir,
            primary,
            secondary: None,
            notes: List::from_vec(texts),
        },
    );
    proof {
        assert(diagnostics@ =~= ownership_findings(body, errors@, facts));
    }
    CheckResult { diagnostics }
}

} // verus!
