//! Why the analysis of a body comes to an end: all loans and moves it can ever know are made up of
//! the places, spans and locals that the body mentions, and it never forgets one that is known on
//! entry to a block.

use vstd::prelude::*;
use vstd::set_lib::{lemma_len_subset, lemma_set_subset_finite};

use crate::list::List;
use crate::mir::{
    BasicBlock, BasicBlockId, Body, BorrowKind, LocalId, Operand, Place, Rvalue, Statement,
    StatementKind, Terminator, TerminatorKind,
};
use crate::ownership::analysis::{
    advanced, block_checked, destination_filled, initial, merged, operand_visited, operands_visited,
    receiver_visited, rvalue_visited, statement_checked, statements_checked, terminator_visited,
    Entry, Run, Track,
};
use crate::ownership::facts::OwnershipFacts;
use crate::ownership::loans::{
    argument_loans, arguments_loans, live_loans, receiver_loan, result_loans, successors,
    transferred, united, united_grows_with_news, united_is_union, Loan, Moved,
};
use crate::ownership::places::{block_point, mentions};
use crate::syntax::Span;

verus! {

/// What loans and moves can be made up of.
pub struct Reach {
    pub places: Set<Place>,
    pub spans: Set<Span>,
    pub targets: Set<LocalId>,
}

pub open spec fn nothing() -> Reach {
    Reach { places: Set::empty(), spans: Set::empty(), targets: Set::empty() }
}

pub open spec fn both(left: Reach, right: Reach) -> Reach {
    Reach {
        places: left.places.union(right.places),
        spans: left.spans.union(right.spans),
        targets: left.targets.union(right.targets),
    }
}

pub open spec fn covers(larger: Reach, smaller: Reach) -> bool {
    &&& smaller.places.subset_of(larger.places)
    &&& smaller.spans.subset_of(larger.spans)
    &&& smaller.targets.subset_of(larger.targets)
}

pub open spec fn is_finite(reach: Reach) -> bool {
    reach.places.finite() && reach.spans.finite() && reach.targets.finite()
}

pub open spec fn operand_places(operand: Operand) -> Set<Place> {
    match operand {
        Operand::Copy(place) | Operand::Move(place) => Set::empty().insert(place),
        Operand::Constant(_) => Set::empty(),
    }
}

pub open spec fn operands_places(operands: List<Operand>) -> Set<Place>
    decreases operands,
{
    match operands {
        List::Nil => Set::empty(),
        List::Cons(head, tail) => operand_places(*head).union(operands_places(*tail)),
    }
}

pub open spec fn optional_places(operand: Option<Operand>) -> Set<Place> {
    match operand {
        Some(operand) => operand_places(operand),
        None => Set::empty(),
    }
}

pub open spec fn rvalue_places(rvalue: Rvalue) -> Set<Place> {
    match rvalue {
        Rvalue::Use(operand)
        | Rvalue::Unary { operand, .. }
        | Rvalue::Cast { operand, .. }
        | Rvalue::TypeTest { operand, .. } => operand_places(operand),
        Rvalue::CheckedBinary { left, right, .. } => operand_places(left).union(
            operand_places(right),
        ),
        Rvalue::CheckedIndex { index, .. } => operand_places(index),
        Rvalue::Aggregate { fields, .. } => operands_places(fields),
        Rvalue::Template { captures, .. } | Rvalue::Closure { captures, .. } => operands_places(
            captures,
        ),
        Rvalue::Length(_) => Set::empty(),
        Rvalue::VtableLookup { object, .. }
        | Rvalue::WitnessLookup { object, .. }
        | Rvalue::DirectMethod { object, .. } => Set::empty().insert(object),
        Rvalue::RawOperation { operands, .. } => operands_places(operands),
    }
}

pub open spec fn statement_reach(statement: Statement) -> Reach {
    Reach {
        places: match statement.kind {
            StatementKind::Assign(_, rvalue) => rvalue_places(rvalue),
            StatementKind::Borrow { place, .. } => Set::empty().insert(place),
            _ => Set::empty(),
        },
        spans: Set::empty().insert(statement.span),
        targets: match statement.kind {
            StatementKind::Assign(place, _) => Set::empty().insert(place.local),
            StatementKind::Borrow { destination, .. } => Set::empty().insert(destination),
            _ => Set::empty(),
        },
    }
}

pub open spec fn terminator_reach(terminator: Terminator) -> Reach {
    Reach {
        places: match terminator.kind {
            TerminatorKind::Switch { value, .. }
            | TerminatorKind::Throw(value)
            | TerminatorKind::Suspend { value, .. } => operand_places(value),
            TerminatorKind::Call { function, receiver, arguments, .. } => operand_places(
                function,
            ).union(optional_places(receiver)).union(operands_places(arguments)),
            TerminatorKind::Return(value)
            | TerminatorKind::TaggedReturn { payload: value, .. } => optional_places(value),
            _ => Set::empty(),
        },
        spans: Set::empty().insert(terminator.span),
        targets: match terminator.kind {
            TerminatorKind::Call { destination: Some(destination), .. } => Set::empty().insert(
                destination.local,
            ),
            _ => Set::empty(),
        },
    }
}

pub open spec fn statements_reach(statements: Seq<Statement>, count: nat) -> Reach
    decreases count,
{
    if count == 0 || count > statements.len() {
        nothing()
    } else {
        both(
            statements_reach(statements, (count - 1) as nat),
            statement_reach(statements[count - 1]),
        )
    }
}

pub open spec fn block_reach(block: BasicBlock) -> Reach {
    both(
        statements_reach(block.statements@, block.statements@.len()),
        terminator_reach(block.terminator),
    )
}

pub open spec fn blocks_reach(blocks: Seq<BasicBlock>, count: nat) -> Reach
    decreases count,
{
    if count == 0 || count > blocks.len() {
        nothing()
    } else {
        both(blocks_reach(blocks, (count - 1) as nat), block_reach(blocks[count - 1]))
    }
}

/// What the loans and moves in a body can be made up of.
pub open spec fn body_reach(body: &Body) -> Reach {
    blocks_reach(body.blocks@, body.blocks@.len())
}

pub open spec fn loan_within(reach: Reach, loan: Loan) -> bool {
    reach.targets.contains(loan.destination) && reach.places.contains(loan.place)
        && reach.spans.contains(loan.origin)
}

pub open spec fn move_within(reach: Reach, moved: Moved) -> bool {
    reach.places.contains(moved.place) && reach.spans.contains(moved.origin)
}

pub open spec fn loans_within(reach: Reach, loans: Seq<Loan>) -> bool {
    forall|index: int| 0 <= index < loans.len() ==> loan_within(reach, #[trigger] loans[index])
}

pub open spec fn moves_within(reach: Reach, moved: Seq<Moved>) -> bool {
    forall|index: int| 0 <= index < moved.len() ==> move_within(reach, #[trigger] moved[index])
}

pub open spec fn track_within(reach: Reach, track: Track) -> bool {
    loans_within(reach, track.loans) && moves_within(reach, track.moved)
}

pub open spec fn entry_within(reach: Reach, entry: Entry) -> bool {
    loans_within(reach, entry.loans) && moves_within(reach, entry.moved)
}

/// Whether everything that is known on entry to a block is made up of what the body mentions.
pub open spec fn run_within(body: &Body, run: Run) -> bool {
    &&& run.entries.len() == body.blocks@.len()
    &&& forall|index: int|
        0 <= index < run.entries.len() ==> ((#[trigger] run.entries[index]) matches Some(entry)
            ==> entry_within(body_reach(body), entry))
}

proof fn lemma_operands_finite(operands: List<Operand>)
    ensures
        operands_places(operands).finite(),
    decreases operands,
{
    match operands {
        List::Nil => {},
        List::Cons(_, tail) => {
            lemma_operands_finite(*tail);
        },
    }
}

proof fn lemma_rvalue_finite(rvalue: Rvalue)
    ensures
        rvalue_places(rvalue).finite(),
{
    match rvalue {
        Rvalue::Aggregate { fields, .. } => {
            lemma_operands_finite(fields);
        },
        Rvalue::Template { captures, .. } | Rvalue::Closure { captures, .. } => {
            lemma_operands_finite(captures);
        },
        Rvalue::RawOperation { operands, .. } => {
            lemma_operands_finite(operands);
        },
        _ => {},
    }
}

proof fn lemma_statements_finite(statements: Seq<Statement>, count: nat)
    ensures
        is_finite(statements_reach(statements, count)),
    decreases count,
{
    if count > 0 && count <= statements.len() {
        lemma_statements_finite(statements, (count - 1) as nat);
        match statements[count - 1].kind {
            StatementKind::Assign(_, rvalue) => {
                lemma_rvalue_finite(rvalue);
            },
            _ => {},
        }
    }
}

proof fn lemma_blocks_finite(blocks: Seq<BasicBlock>, count: nat)
    ensures
        is_finite(blocks_reach(blocks, count)),
    decreases count,
{
    if count > 0 && count <= blocks.len() {
        lemma_blocks_finite(blocks, (count - 1) as nat);
        let block = blocks[count - 1];
        lemma_statements_finite(block.statements@, block.statements@.len());
        match block.terminator.kind {
            TerminatorKind::Call { arguments, .. } => {
                lemma_operands_finite(arguments);
            },
            _ => {},
        }
    }
}

proof fn lemma_statement_covered(statements: Seq<Statement>, count: nat, index: int)
    requires
        0 <= index < count <= statements.len(),
    ensures
        covers(statements_reach(statements, count), statement_reach(statements[index])),
    decreases count,
{
    if index < count - 1 {
        lemma_statement_covered(statements, (count - 1) as nat, index);
    }
}

proof fn lemma_block_covered(blocks: Seq<BasicBlock>, count: nat, index: int)
    requires
        0 <= index < count <= blocks.len(),
    ensures
        covers(blocks_reach(blocks, count), block_reach(blocks[index])),
    decreases count,
{
    if index < count - 1 {
        lemma_block_covered(blocks, (count - 1) as nat, index);
    }
}

proof fn lemma_filter_keeps<T>(items: Seq<T>, keep: spec_fn(T) -> bool)
    ensures
        forall|index: int|
            0 <= index < items.filter(keep).len() ==> items.contains(
                #[trigger] items.filter(keep)[index],
            ),
    decreases items.len(),
{
    reveal(Seq::filter);
    if items.len() > 0 {
        let shorter = items.drop_last();
        lemma_filter_keeps(shorter, keep);
        assert forall|index: int| 0 <= index < items.filter(keep).len() implies items.contains(
            #[trigger] items.filter(keep)[index],
        ) by {
            if index < shorter.filter(keep).len() {
                let item = shorter.filter(keep)[index];
                assert(shorter.contains(item));
                let other = choose|other: int| 0 <= other < shorter.len() && shorter[other] == item;
                assert(items[other] == item);
            } else {
                assert(items[items.len() - 1] == items.last());
            }
        }
    }
}

proof fn lemma_loans_filter_within(reach: Reach, loans: Seq<Loan>, keep: spec_fn(Loan) -> bool)
    requires
        loans_within(reach, loans),
    ensures
        loans_within(reach, loans.filter(keep)),
{
    lemma_filter_keeps(loans, keep);
    assert forall|index: int| 0 <= index < loans.filter(keep).len() implies loan_within(
        reach,
        #[trigger] loans.filter(keep)[index],
    ) by {
        let loan = loans.filter(keep)[index];
        let other = choose|other: int| 0 <= other < loans.len() && loans[other] == loan;
        assert(loan_within(reach, loans[other]));
    }
}

proof fn lemma_moves_filter_within(reach: Reach, moved: Seq<Moved>, keep: spec_fn(Moved) -> bool)
    requires
        moves_within(reach, moved),
    ensures
        moves_within(reach, moved.filter(keep)),
{
    lemma_filter_keeps(moved, keep);
    assert forall|index: int| 0 <= index < moved.filter(keep).len() implies move_within(
        reach,
        #[trigger] moved.filter(keep)[index],
    ) by {
        let item = moved.filter(keep)[index];
        let other = choose|other: int| 0 <= other < moved.len() && moved[other] == item;
        assert(move_within(reach, moved[other]));
    }
}

proof fn lemma_united_loans_within(reach: Reach, left: Seq<Loan>, right: Seq<Loan>)
    requires
        loans_within(reach, left),
        loans_within(reach, right),
    ensures
        loans_within(reach, united(left, right)),
{
    united_is_union(left, right);
    let all = united(left, right);
    assert forall|index: int| 0 <= index < all.len() implies loan_within(
        reach,
        #[trigger] all[index],
    ) by {
        assert(all.contains(all[index]));
        if left.contains(all[index]) {
            let other = choose|other: int| 0 <= other < left.len() && left[other] == all[index];
            assert(loan_within(reach, left[other]));
        } else {
            let other = choose|other: int| 0 <= other < right.len() && right[other] == all[index];
            assert(loan_within(reach, right[other]));
        }
    }
}

proof fn lemma_united_moves_within(reach: Reach, left: Seq<Moved>, right: Seq<Moved>)
    requires
        moves_within(reach, left),
        moves_within(reach, right),
    ensures
        moves_within(reach, united(left, right)),
{
    united_is_union(left, right);
    let all = united(left, right);
    assert forall|index: int| 0 <= index < all.len() implies move_within(
        reach,
        #[trigger] all[index],
    ) by {
        assert(all.contains(all[index]));
        if left.contains(all[index]) {
            let other = choose|other: int| 0 <= other < left.len() && left[other] == all[index];
            assert(move_within(reach, left[other]));
        } else {
            let other = choose|other: int| 0 <= other < right.len() && right[other] == all[index];
            assert(move_within(reach, right[other]));
        }
    }
}

proof fn lemma_operand_within(
    body: &Body,
    operand: Operand,
    facts: &OwnershipFacts,
    track: Track,
    span: Span,
    reach: Reach,
)
    requires
        track_within(reach, track),
        operand_places(operand).subset_of(reach.places),
        reach.spans.contains(span),
    ensures
        track_within(reach, operand_visited(body, operand, facts, track, span)),
        operand_visited(body, operand, facts, track, span).loans == track.loans,
{
    match operand {
        Operand::Move(place) => {
            assert(operand_places(operand).contains(place));
        },
        _ => {},
    }
}

proof fn lemma_operands_within(
    body: &Body,
    operands: List<Operand>,
    facts: &OwnershipFacts,
    track: Track,
    span: Span,
    reach: Reach,
)
    requires
        track_within(reach, track),
        operands_places(operands).subset_of(reach.places),
        reach.spans.contains(span),
    ensures
        track_within(reach, operands_visited(body, operands, facts, track, span)),
        operands_visited(body, operands, facts, track, span).loans == track.loans,
    decreases operands,
{
    match operands {
        List::Nil => {},
        List::Cons(head, tail) => {
            assert(operand_places(*head).subset_of(operands_places(operands)));
            assert(operands_places(*tail).subset_of(operands_places(operands)));
            lemma_operand_within(body, *head, facts, track, span, reach);
            lemma_operands_within(
                body,
                *tail,
                facts,
                operand_visited(body, *head, facts, track, span),
                span,
                reach,
            );
        },
    }
}

proof fn lemma_rvalue_within(
    body: &Body,
    rvalue: Rvalue,
    facts: &OwnershipFacts,
    track: Track,
    span: Span,
    reach: Reach,
)
    requires
        track_within(reach, track),
        rvalue_places(rvalue).subset_of(reach.places),
        reach.spans.contains(span),
    ensures
        track_within(reach, rvalue_visited(body, rvalue, facts, track, span)),
        rvalue_visited(body, rvalue, facts, track, span).loans == track.loans,
{
    match rvalue {
        Rvalue::Use(operand)
        | Rvalue::Unary { operand, .. }
        | Rvalue::Cast { operand, .. }
        | Rvalue::TypeTest { operand, .. } => {
            lemma_operand_within(body, operand, facts, track, span, reach);
        },
        Rvalue::CheckedBinary { left, right, .. } => {
            assert(operand_places(left).subset_of(rvalue_places(rvalue)));
            assert(operand_places(right).subset_of(rvalue_places(rvalue)));
            lemma_operand_within(body, left, facts, track, span, reach);
            lemma_operand_within(
                body,
                right,
                facts,
                operand_visited(body, left, facts, track, span),
                span,
                reach,
            );
        },
        Rvalue::CheckedIndex { collection, index } => {
            let used = Track {
                diagnostics: crate::ownership::loans::use_checked(
                    track.diagnostics,
                    collection,
                    false,
                    track.moved,
                    span,
                ),
                ..track
            };
            lemma_operand_within(body, index, facts, used, span, reach);
        },
        Rvalue::Aggregate { fields, .. } => {
            lemma_operands_within(body, fields, facts, track, span, reach);
        },
        Rvalue::Template { captures, .. } | Rvalue::Closure { captures, .. } => {
            lemma_operands_within(body, captures, facts, track, span, reach);
        },
        Rvalue::Length(_) => {},
        Rvalue::VtableLookup { object, receiver, .. }
        | Rvalue::WitnessLookup { object, receiver, .. }
        | Rvalue::DirectMethod { object, receiver, .. } => {
            assert(operand_places(Operand::Move(object)).subset_of(rvalue_places(rvalue)));
            lemma_operand_within(body, Operand::Move(object), facts, track, span, reach);
        },
        Rvalue::RawOperation { operands, .. } => {
            lemma_operands_within(body, operands, facts, track, span, reach);
        },
    }
}

proof fn lemma_transferred_within(
    reach: Reach,
    rvalue: Rvalue,
    destination: LocalId,
    loans: Seq<Loan>,
)
    requires
        loans_within(reach, loans),
        reach.targets.contains(destination),
    ensures
        loans_within(reach, transferred(rvalue, destination, loans)),
{
    let keep = |loan: Loan| crate::ownership::loans::carries(rvalue, loan.destination);
    lemma_loans_filter_within(reach, loans, keep);
    let kept = loans.filter(keep);
    assert forall|index: int| 0 <= index < kept.len() implies loan_within(
        reach,
        #[trigger] transferred(rvalue, destination, loans)[index],
    ) by {
        assert(loan_within(reach, kept[index]));
    }
}

proof fn lemma_argument_within(
    reach: Reach,
    argument: Operand,
    destination: LocalId,
    loans: Seq<Loan>,
    origin: Span,
)
    requires
        loans_within(reach, loans),
        reach.targets.contains(destination),
        reach.spans.contains(origin),
    ensures
        loans_within(reach, argument_loans(argument, destination, loans, origin)),
{
    let keep = |loan: Loan| crate::ownership::loans::operand_reads(&argument, loan.destination);
    lemma_loans_filter_within(reach, loans, keep);
    let kept = loans.filter(keep);
    assert forall|index: int| 0 <= index < kept.len() implies loan_within(
        reach,
        #[trigger] argument_loans(argument, destination, loans, origin)[index],
    ) by {
        assert(loan_within(reach, kept[index]));
    }
}

proof fn lemma_arguments_within(
    reach: Reach,
    arguments: List<Operand>,
    destination: LocalId,
    loans: Seq<Loan>,
    origin: Span,
)
    requires
        loans_within(reach, loans),
        reach.targets.contains(destination),
        reach.spans.contains(origin),
    ensures
        loans_within(reach, arguments_loans(arguments, destination, loans, origin)),
    decreases arguments,
{
    match arguments {
        List::Nil => {},
        List::Cons(head, tail) => {
            lemma_argument_within(reach, *head, destination, loans, origin);
            lemma_arguments_within(reach, *tail, destination, loans, origin);
        },
    }
}

proof fn lemma_statement_within(
    body: &Body,
    facts: &OwnershipFacts,
    statement: Statement,
    point: int,
    track: Track,
    reach: Reach,
)
    requires
        track_within(reach, track),
        covers(reach, statement_reach(statement)),
    ensures
        track_within(reach, statement_checked(body, facts, statement, point, track)),
{
    let span = statement.span;
    assert(statement_reach(statement).spans.contains(span));
    let alive = |loan: Loan|
        crate::ownership::places::used_from(mentions(body), loan.destination, point);
    lemma_loans_filter_within(reach, track.loans, alive);
    let live = Track { loans: live_loans(track.loans, mentions(body), point), ..track };
    assert(track_within(reach, live));
    match statement.kind {
        StatementKind::Assign(place, rvalue) => {
            let written = Track {
                diagnostics: crate::ownership::loans::write_checked(
                    live.diagnostics,
                    place,
                    live.loans,
                    span,
                ),
                ..live
            };
            assert(statement_reach(statement).targets.contains(place.local));
            lemma_rvalue_within(body, rvalue, facts, written, span, reach);
            let visited = rvalue_visited(body, rvalue, facts, written, span);
            lemma_transferred_within(reach, rvalue, place.local, visited.loans);
            let moved_in = transferred(rvalue, place.local, visited.loans);
            lemma_united_loans_within(reach, visited.loans, moved_in);
            let carried = united(visited.loans, moved_in);
            match receiver_loan(&rvalue, place.local, span) {
                Some(loan) => {
                    assert(rvalue_places(rvalue).contains(loan.place));
                    assert(statement_reach(statement).places.contains(loan.place));
                    assert(loan_within(reach, loan));
                    lemma_united_loans_within(reach, carried, seq![loan]);
                },
                None => {},
            }
            let outside = |other: Moved|
                !crate::ownership::places::place_contains(&place, &other.place);
            lemma_moves_filter_within(reach, visited.moved, outside);
        },
        StatementKind::Borrow { destination, kind, place, .. } => {
            let loan = Loan { destination, kind, place, origin: span };
            assert(statement_reach(statement).places.contains(place));
            assert(statement_reach(statement).targets.contains(destination));
            assert(loan_within(reach, loan));
            lemma_united_loans_within(reach, live.loans, seq![loan]);
        },
        StatementKind::StorageDead(local) => {
            lemma_loans_filter_within(
                reach,
                live.loans,
                |loan: Loan| loan.destination != local && loan.place.local != local,
            );
            lemma_moves_filter_within(
                reach,
                live.moved,
                |other: Moved| other.place.local != local,
            );
        },
        _ => {},
    }
}

proof fn lemma_filled_within(
    destination: Option<Place>,
    track: Track,
    span: Span,
    reach: Reach,
)
    requires
        track_within(reach, track),
    ensures
        track_within(reach, destination_filled(destination, track, span)),
        destination_filled(destination, track, span).loans == track.loans,
{
    match destination {
        Some(place) => {
            lemma_moves_filter_within(
                reach,
                track.moved,
                |other: Moved| !crate::ownership::places::place_contains(&place, &other.place),
            );
        },
        None => {},
    }
}

proof fn lemma_terminator_within(
    body: &Body,
    terminator: Terminator,
    facts: &OwnershipFacts,
    track: Track,
    reach: Reach,
)
    requires
        track_within(reach, track),
        covers(reach, terminator_reach(terminator)),
    ensures
        track_within(
            reach,
            terminator_visited(body, terminator.kind, facts, track, terminator.span),
        ),
{
    let span = terminator.span;
    assert(terminator_reach(terminator).spans.contains(span));
    let places = terminator_reach(terminator).places;
    match terminator.kind {
        TerminatorKind::Switch { value, .. } | TerminatorKind::Throw(value) => {
            lemma_operand_within(body, value, facts, track, span, reach);
        },
        TerminatorKind::Suspend { value, destination, error_destination, .. } => {
            lemma_operand_within(body, value, facts, track, span, reach);
            let visited = operand_visited(body, value, facts, track, span);
            lemma_filled_within(destination, visited, span, reach);
            lemma_filled_within(
                error_destination,
                destination_filled(destination, visited, span),
                span,
                reach,
            );
        },
        TerminatorKind::Call {
            function,
            receiver,
            arguments,
            destination,
            error_destination,
            ..
        } => {
            assert(operand_places(function).subset_of(places));
            assert(optional_places(receiver).subset_of(places));
            assert(operands_places(arguments).subset_of(places));
            lemma_operand_within(body, function, facts, track, span, reach);
            let called = operand_visited(body, function, facts, track, span);
            match receiver {
                Some(receiver) => {
                    lemma_operand_within(body, receiver, facts, called, span, reach);
                },
                None => {},
            }
            let received = receiver_visited(body, function, receiver, facts, called, span);
            lemma_operands_within(body, arguments, facts, received, span, reach);
            let passed = operands_visited(body, arguments, facts, received, span);
            lemma_filled_within(destination, passed, span, reach);
            lemma_filled_within(
                error_destination,
                destination_filled(destination, passed, span),
                span,
                reach,
            );
        },
        TerminatorKind::Return(value) | TerminatorKind::TaggedReturn { payload: value, .. } => {
            match value {
                Some(value) => {
                    lemma_operand_within(body, value, facts, track, span, reach);
                },
                None => {},
            }
        },
        _ => {},
    }
}

proof fn lemma_statements_within(
    body: &Body,
    facts: &OwnershipFacts,
    block: nat,
    track: Track,
    count: nat,
)
    requires
        block < body.blocks@.len(),
        count <= body.blocks@[block as int].statements@.len(),
        track_within(body_reach(body), track),
    ensures
        track_within(body_reach(body), statements_checked(body, facts, block, track, count)),
    decreases count,
{
    if count > 0 {
        let statements = body.blocks@[block as int].statements@;
        lemma_statements_within(body, facts, block, track, (count - 1) as nat);
        lemma_block_covered(body.blocks@, body.blocks@.len(), block as int);
        lemma_statement_covered(statements, statements.len(), count - 1);
        lemma_statement_within(
            body,
            facts,
            statements[count - 1],
            block_point(body, block) + count - 1,
            statements_checked(body, facts, block, track, (count - 1) as nat),
            body_reach(body),
        );
    }
}

/// What is known at the end of a block is made up of what the body mentions.
proof fn lemma_block_within(body: &Body, facts: &OwnershipFacts, block: nat, track: Track)
    requires
        block < body.blocks@.len(),
        track_within(body_reach(body), track),
    ensures
        track_within(body_reach(body), block_checked(body, facts, block, track)),
{
    let reach = body_reach(body);
    let statements = body.blocks@[block as int].statements@;
    let terminator = body.blocks@[block as int].terminator;
    lemma_statements_within(body, facts, block, track, statements.len());
    lemma_block_covered(body.blocks@, body.blocks@.len(), block as int);
    let after = statements_checked(body, facts, block, track, statements.len());
    let point = (block_point(body, block) + statements.len()) as int;
    lemma_loans_filter_within(
        reach,
        after.loans,
        |loan: Loan| crate::ownership::places::used_from(mentions(body), loan.destination, point),
    );
    let live = Track { loans: live_loans(after.loans, mentions(body), point), ..after };
    assert(track_within(reach, live));
    lemma_terminator_within(body, terminator, facts, live, reach);
    let visited = terminator_visited(body, terminator.kind, facts, live, terminator.span);
    assert(terminator_reach(terminator).spans.contains(terminator.span));
    match terminator.kind {
        TerminatorKind::Call { receiver, arguments, destination: Some(destination), .. } => {
            assert(terminator_reach(terminator).targets.contains(destination.local));
            match receiver {
                Some(receiver) => {
                    lemma_argument_within(
                        reach,
                        receiver,
                        destination.local,
                        visited.loans,
                        terminator.span,
                    );
                },
                None => {},
            }
            lemma_arguments_within(
                reach,
                arguments,
                destination.local,
                visited.loans,
                terminator.span,
            );
        },
        _ => {},
    }
    lemma_united_loans_within(
        reach,
        visited.loans,
        result_loans(body, terminator.kind, visited.loans, terminator.span),
    );
}

spec fn pairs<A, B>(left: Set<A>, right: Set<B>) -> Set<(A, B)> {
    Set::new(|pair: (A, B)| left.contains(pair.0) && right.contains(pair.1))
}

proof fn lemma_pairs_finite<A, B>(left: Set<A>, right: Set<B>)
    requires
        left.finite(),
        right.finite(),
    ensures
        pairs(left, right).finite(),
    decreases left.len(),
{
    if left.is_empty() {
        assert(pairs(left, right) =~= Set::empty());
    } else {
        let item = left.choose();
        lemma_pairs_finite(left.remove(item), right);
        let with = |other: B| (item, other);
        right.lemma_map_finite(with);
        let row = right.map(with);
        assert forall|pair: (A, B)| pairs(left, right).contains(pair) implies pairs(
            left.remove(item),
            right,
        ).union(row).contains(pair) by {
            if pair.0 == item {
                assert(right.contains(pair.1) && with(pair.1) == pair);
            }
        }
        assert(pairs(left, right) =~= pairs(left.remove(item), right).union(row));
    }
}

/// All loans that are made up of what can be reached.
pub open spec fn all_loans(reach: Reach) -> Set<Loan> {
    Set::new(|loan: Loan| loan_within(reach, loan))
}

/// All moves that are made up of what can be reached.
pub open spec fn all_moves(reach: Reach) -> Set<Moved> {
    Set::new(|moved: Moved| move_within(reach, moved))
}

proof fn lemma_all_finite(reach: Reach)
    requires
        is_finite(reach),
    ensures
        all_loans(reach).finite(),
        all_moves(reach).finite(),
{
    lemma_pairs_finite(reach.places, reach.spans);
    let sources = pairs(reach.places, reach.spans);
    let make_move = |pair: (Place, Span)| Moved { place: pair.0, origin: pair.1 };
    sources.lemma_map_finite(make_move);
    assert forall|moved: Moved| all_moves(reach).contains(moved) implies sources.map(
        make_move,
    ).contains(moved) by {
        let pair = (moved.place, moved.origin);
        assert(sources.contains(pair) && make_move(pair) == moved);
    }
    lemma_set_subset_finite(sources.map(make_move), all_moves(reach));
    lemma_pairs_finite(reach.targets, sources);
    let shapes = pairs(reach.targets, sources);
    let make_shared = |shape: (LocalId, (Place, Span))| Loan {
        destination: shape.0,
        kind: BorrowKind::Shared,
        place: shape.1.0,
        origin: shape.1.1,
    };
    let make_mutable = |shape: (LocalId, (Place, Span))| Loan {
        destination: shape.0,
        kind: BorrowKind::Mutable,
        place: shape.1.0,
        origin: shape.1.1,
    };
    shapes.lemma_map_finite(make_shared);
    shapes.lemma_map_finite(make_mutable);
    let made = shapes.map(make_shared).union(shapes.map(make_mutable));
    assert forall|loan: Loan| all_loans(reach).contains(loan) implies made.contains(loan) by {
        let shape = (loan.destination, (loan.place, loan.origin));
        assert(sources.contains(shape.1));
        assert(shapes.contains(shape));
        if loan.kind == BorrowKind::Shared {
            assert(make_shared(shape) == loan);
        } else {
            assert(make_mutable(shape) == loan);
        }
    }
    lemma_set_subset_finite(made, all_loans(reach));
}

/// How many loans and moves are known on entry to a block.
spec fn known_count(entry: Option<Entry>) -> nat {
    match entry {
        Some(entry) => 1 + entry.loans.to_set().len() + entry.moved.to_set().len(),
        None => 0,
    }
}

/// How many loans and moves can be known on entry to a block.
spec fn most(reach: Reach) -> nat {
    1 + all_loans(reach).len() + all_moves(reach).len()
}

/// How much can still become known on entry to the first `count` blocks.
spec fn slack_of(reach: Reach, entries: Seq<Option<Entry>>, count: nat) -> nat
    decreases count,
{
    if count == 0 || count > entries.len() {
        0
    } else {
        let known = known_count(entries[count - 1]);
        slack_of(reach, entries, (count - 1) as nat) + (if known <= most(reach) {
            (most(reach) - known) as nat
        } else {
            0
        })
    }
}

/// How much the analysis can still learn, and how many blocks it still has to visit.
pub open spec fn potential(body: &Body, run: Run) -> nat {
    slack(body, run.entries) + run.work.len()
}

/// How much the analysis can still learn.
pub closed spec fn slack(body: &Body, entries: Seq<Option<Entry>>) -> nat {
    slack_of(body_reach(body), entries, entries.len())
}

proof fn lemma_known_bounded(reach: Reach, entry: Entry)
    requires
        is_finite(reach),
        entry_within(reach, entry),
    ensures
        known_count(Some(entry)) <= most(reach),
        entry.loans.to_set().finite(),
        entry.moved.to_set().finite(),
{
    lemma_all_finite(reach);
    assert forall|loan: Loan| entry.loans.to_set().contains(loan) implies all_loans(
        reach,
    ).contains(loan) by {
        let index = choose|index: int| 0 <= index < entry.loans.len() && entry.loans[index] == loan;
        assert(loan_within(reach, entry.loans[index]));
    }
    assert forall|moved: Moved| entry.moved.to_set().contains(moved) implies all_moves(
        reach,
    ).contains(moved) by {
        let index = choose|index: int|
            0 <= index < entry.moved.len() && entry.moved[index] == moved;
        assert(move_within(reach, entry.moved[index]));
    }
    lemma_len_subset(entry.loans.to_set(), all_loans(reach));
    lemma_len_subset(entry.moved.to_set(), all_moves(reach));
    lemma_set_subset_finite(all_loans(reach), entry.loans.to_set());
    lemma_set_subset_finite(all_moves(reach), entry.moved.to_set());
}

proof fn lemma_united_set_grows<T>(left: Seq<T>, right: Seq<T>)
    requires
        united(left, right).to_set().finite(),
        left.to_set().finite(),
    ensures
        left.to_set().len() <= united(left, right).to_set().len(),
        united(left, right).len() != left.len() ==> left.to_set().len() < united(
            left,
            right,
        ).to_set().len(),
{
    united_is_union(left, right);
    united_grows_with_news(left, right);
    let small = left.to_set();
    let large = united(left, right).to_set();
    assert forall|item: T| small.contains(item) implies large.contains(item) by {
        assert(united(left, right).contains(item));
    }
    lemma_len_subset(small, large);
    if united(left, right).len() != left.len() {
        let index = choose|index: int|
            0 <= index < right.len() && !left.contains(#[trigger] right[index]);
        let item = right[index];
        assert(right.contains(item));
        assert(united(left, right).contains(item));
        assert(large.contains(item) && !small.contains(item));
        small.lemma_subset_not_in_lt(large, item);
    }
}

proof fn lemma_slack_update(
    reach: Reach,
    entries: Seq<Option<Entry>>,
    index: int,
    entry: Option<Entry>,
    count: nat,
)
    requires
        0 <= index < entries.len(),
        count <= entries.len(),
        known_count(entries[index]) <= known_count(entry) <= most(reach),
    ensures
        slack_of(reach, entries.update(index, entry), count) <= slack_of(reach, entries, count),
        index < count && known_count(entries[index]) < known_count(entry) ==> slack_of(
            reach,
            entries.update(index, entry),
            count,
        ) < slack_of(reach, entries, count),
    decreases count,
{
    if count > 0 {
        lemma_slack_update(reach, entries, index, entry, (count - 1) as nat);
    }
}

proof fn lemma_merged_progress(
    body: &Body,
    run: Run,
    out: Entry,
    targets: Seq<BasicBlockId>,
    from: nat,
)
    requires
        run_within(body, run),
        entry_within(body_reach(body), out),
    ensures
        run_within(body, merged(run, out, targets, from)),
        potential(body, merged(run, out, targets, from)) <= potential(body, run),
    decreases targets.len() - from,
{
    let reach = body_reach(body);
    lemma_blocks_finite(body.blocks@, body.blocks@.len());
    if from < targets.len() {
        let target = targets[from as int].0;
        if target < run.entries.len() {
            let old_entry = run.entries[target as int];
            let known = match old_entry {
                Some(entry) => Entry {
                    loans: united(entry.loans, out.loans),
                    moved: united(entry.moved, out.moved),
                },
                None => out,
            };
            let changed = match old_entry {
                Some(entry) => known.loans.len() != entry.loans.len() || known.moved.len()
                    != entry.moved.len(),
                None => true,
            };
            match old_entry {
                Some(entry) => {
                    lemma_united_loans_within(reach, entry.loans, out.loans);
                    lemma_united_moves_within(reach, entry.moved, out.moved);
                    lemma_known_bounded(reach, known);
                    lemma_known_bounded(reach, entry);
                    lemma_united_set_grows(entry.loans, out.loans);
                    lemma_united_set_grows(entry.moved, out.moved);
                },
                None => {
                    lemma_known_bounded(reach, known);
                },
            }
            lemma_slack_update(
                reach,
                run.entries,
                target as int,
                Some(known),
                run.entries.len(),
            );
            let next = Run {
                entries: run.entries.update(target as int, Some(known)),
                work: if changed {
                    run.work.push(target)
                } else {
                    run.work
                },
                ..run
            };
            lemma_merged_progress(body, next, out, targets, from + 1);
        } else {
            lemma_merged_progress(body, run, out, targets, from + 1);
        }
    }
}

/// Nothing is known before the first visit.
pub proof fn lemma_initial_within(body: &Body)
    ensures
        run_within(body, initial(body)),
{
}

/// A visit leaves less to learn or fewer blocks to visit.
pub proof fn lemma_advance(body: &Body, facts: &OwnershipFacts, run: Run)
    requires
        run_within(body, run),
        run.work.len() > 0,
        run.work[0] < body.blocks@.len(),
    ensures
        run_within(body, advanced(body, facts, run)),
        potential(body, advanced(body, facts, run)) < potential(body, run),
{
    let block = run.work[0] as nat;
    let entry = match run.entries[block as int] {
        Some(entry) => entry,
        None => Entry { loans: Seq::empty(), moved: Seq::empty() },
    };
    let start = Track { loans: entry.loans, moved: entry.moved, diagnostics: run.diagnostics };
    assert(track_within(body_reach(body), start));
    lemma_block_within(body, facts, block, start);
    let track = block_checked(body, facts, block, start);
    let middle = Run {
        entries: run.entries,
        work: run.work.drop_first(),
        diagnostics: track.diagnostics,
    };
    lemma_merged_progress(
        body,
        middle,
        Entry { loans: track.loans, moved: track.moved },
        successors(body.blocks@[block as int].terminator.kind),
        0,
    );
}

} // verus!
