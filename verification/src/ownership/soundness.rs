//! What the analysis says of every way through a body.

use vstd::prelude::*;

use crate::diagnostics::{Diagnostic, Finding};
use crate::hir::ReceiverMode;
use crate::list::List;
use crate::mir::{
    operand_place_ref, BasicBlockId, Body, BorrowKind, Completion, LocalId, Operand, Place, Rvalue,
    Statement, StatementKind, TerminatorKind,
};
use crate::ownership::analysis::{
    advanced, analysis_of, block_checked, borrow_checked, destination_filled, initial,
    is_local_loan, loan_held_by, lookup_visited, merged, operand_visited, operands_visited,
    ownership_findings, receiver_visited, run_for, rvalue_visited, statement_checked,
    statements_checked, suspension_checked, terminator_visited, value_returned, Entry, Run, Track,
    ValidationError,
};
use crate::ownership::arrange::{arranged, arranged_is_in_order, is_said_in};
use crate::ownership::facts::OwnershipFacts;
use crate::ownership::loans::{
    argument_loans, arguments_loans, live_loans, method_binding_for_function, overlapping_loan,
    overlapping_move, read_checked, receiver_loan, result_loans, successors, transferred, united,
    united_grows_with_news, united_is_union, use_checked, with_conflict, write_checked, Loan, Moved,
};
use crate::ownership::places::{block_point, contains_non_static_borrow, mentions, places_overlap};
use crate::ownership::reach::{lemma_advance, lemma_initial_within, potential, run_within};
use crate::syntax::Span;

verus! {

/// Whether everything in one sequence is in another.
pub open spec fn included<T>(small: Seq<T>, large: Seq<T>) -> bool {
    forall|item: T| #[trigger] small.contains(item) ==> large.contains(item)
}

/// Whether every loan and every move of one state is one of another.
pub open spec fn is_below(small: Track, large: Track) -> bool {
    included(small.loans, large.loans) && included(small.moved, large.moved)
}

/// Whether nothing was found but references to local storage that are returned.
pub open spec fn only_returned_references(diagnostics: Seq<Diagnostic>) -> bool {
    forall|index: int|
        0 <= index < diagnostics.len() ==> (#[trigger] diagnostics[index]).finding
            == Finding::ReturnedLocalReference
}

/// Whether nothing was found, or, where `strict` does not ask for that, nothing but references to
/// local storage that are returned.
spec fn is_settled(strict: bool, diagnostics: Seq<Diagnostic>) -> bool {
    if strict {
        diagnostics.len() == 0
    } else {
        only_returned_references(diagnostics)
    }
}

/// A way through a body: it starts at the first block, and each block is followed by one that
/// control can go to.
pub open spec fn is_path(body: &Body, path: Seq<usize>) -> bool {
    &&& path.len() > 0
    &&& path[0] == 0
    &&& forall|index: int| 0 <= index < path.len() ==> #[trigger] path[index] < body.blocks@.len()
    &&& forall|index: int|
        0 <= index < path.len() - 1 ==> leads_to(body, #[trigger] path[index], path[index + 1])
}

/// Whether control can go from one block to another.
pub open spec fn leads_to(body: &Body, from: usize, to: usize) -> bool {
    from < body.blocks@.len() && successors(
        body.blocks@[from as int].terminator.kind,
    ).contains(BasicBlockId(to))
}

/// The loans and moves at the end of a way through a body, and what is wrong on it, where nothing
/// is joined with other ways. A loan is dropped behind the last mention of the local that holds
/// it, in the order in which the blocks and statements of the body stand.
pub open spec fn along(body: &Body, facts: &OwnershipFacts, path: Seq<usize>) -> Track
    decreases path.len(),
{
    if path.len() == 0 {
        Track { loans: Seq::empty(), moved: Seq::empty(), diagnostics: Seq::empty() }
    } else {
        block_checked(body, facts, path.last() as nat, along(body, facts, path.drop_last()))
    }
}

/// What is known on entry to a block, as a state in which certain things were found.
pub open spec fn entered(entry: Entry, diagnostics: Seq<Diagnostic>) -> Track {
    Track { loans: entry.loans, moved: entry.moved, diagnostics }
}

/// The loans that are still used at the end of a block, where its control leaves it.
pub open spec fn loans_at_end(
    body: &Body,
    facts: &OwnershipFacts,
    block: nat,
    track: Track,
) -> Seq<Loan> {
    let count = body.blocks@[block as int].statements@.len();
    live_loans(
        statements_checked(body, facts, block, track, count).loans,
        mentions(body),
        (block_point(body, block) + count) as int,
    )
}

/// The local whose value is returned, where the body may return borrows.
pub open spec fn returned_local(body: &Body, terminator: TerminatorKind) -> Option<LocalId> {
    let value = match terminator {
        TerminatorKind::Return(value) => value,
        TerminatorKind::TaggedReturn { completion: Completion::Success, payload } => payload,
        _ => None,
    };
    match value {
        Some(value) => match operand_place_ref(&value) {
            Some(place) => if contains_non_static_borrow(&body.return_type) {
                Some(place.local)
            } else {
                None
            },
            None => None,
        },
        None => None,
    }
}

/// Whether the first loan of the returned local is on local storage if any loan of it is.
pub open spec fn first_loan_tells(
    body: &Body,
    terminator: TerminatorKind,
    loans: Seq<Loan>,
) -> bool {
    match returned_local(body, terminator) {
        Some(local) => forall|index: int|
            0 <= index < loans.len() && (#[trigger] loans[index]).destination == local
                && is_local_loan(body, &loans[index]) ==> is_local_loan(
                body,
                loan_held_by(loans, local, 0)->0,
            ),
        None => true,
    }
}

/// Whether, of the loans that the analysis knows where control leaves a block, the first one of
/// the returned local is on local storage if any of them is.
pub open spec fn is_told_at(body: &Body, facts: &OwnershipFacts, block: usize) -> bool {
    let run = run_for(body, facts, potential(body, initial(body)));
    match run.entries[block as int] {
        Some(entry) => first_loan_tells(
            body,
            body.blocks@[block as int].terminator.kind,
            loans_at_end(body, facts, block as nat, entered(entry, Seq::empty())),
        ),
        None => true,
    }
}

proof fn lemma_loan_held(loans: Seq<Loan>, local: LocalId, from: nat)
    ensures
        match loan_held_by(loans, local, from) {
            Some(loan) => loan.destination == local && loans.contains(*loan),
            None => forall|index: int|
                from <= index < loans.len() ==> (#[trigger] loans[index]).destination != local,
        },
    decreases loans.len() - from,
{
    if from < loans.len() && loans[from as int].destination != local {
        lemma_loan_held(loans, local, from + 1);
    }
}

proof fn lemma_filter_contains<T>(items: Seq<T>, keep: spec_fn(T) -> bool, item: T)
    ensures
        items.filter(keep).contains(item) <==> items.contains(item) && keep(item),
    decreases items.len(),
{
    reveal(Seq::filter);
    if items.len() > 0 {
        let shorter = items.drop_last();
        lemma_filter_contains(shorter, keep, item);
        assert(items =~= shorter.push(items.last()));
        lemma_push_contains(shorter, items.last(), item);
        if keep(items.last()) {
            lemma_push_contains(shorter.filter(keep), items.last(), item);
        }
    }
}

proof fn lemma_push_contains<T>(items: Seq<T>, pushed: T, item: T)
    ensures
        items.push(pushed).contains(item) <==> items.contains(item) || pushed == item,
{
    let all = items.push(pushed);
    if items.contains(item) {
        let index = choose|index: int| 0 <= index < items.len() && items[index] == item;
        assert(all[index] == item);
    }
    if pushed == item {
        assert(all[items.len() as int] == item);
    }
    if all.contains(item) {
        let index = choose|index: int| 0 <= index < all.len() && all[index] == item;
        if index < items.len() {
            assert(items[index] == item);
        }
    }
}

proof fn lemma_filter_included<T>(small: Seq<T>, large: Seq<T>, keep: spec_fn(T) -> bool)
    requires
        included(small, large),
    ensures
        included(small.filter(keep), large.filter(keep)),
{
    assert forall|item: T| #[trigger] small.filter(keep).contains(item) implies large.filter(
        keep,
    ).contains(item) by {
        lemma_filter_contains(small, keep, item);
        lemma_filter_contains(large, keep, item);
    }
}

proof fn lemma_map_included<A, B>(small: Seq<A>, large: Seq<A>, change: spec_fn(A) -> B)
    requires
        included(small, large),
    ensures
        included(small.map_values(change), large.map_values(change)),
{
    assert forall|item: B| #[trigger] small.map_values(change).contains(
        item,
    ) implies large.map_values(
        change,
    ).contains(item) by {
        let index = choose|index: int|
            0 <= index < small.map_values(change).len() && small.map_values(change)[index] == item;
        assert(small.contains(small[index]));
        let other = choose|other: int|
            0 <= other < large.len() && large[other] == small[index];
        assert(large.map_values(change)[other] == item);
    }
}

proof fn lemma_united_included<T>(small: Seq<T>, more: Seq<T>, large: Seq<T>, most: Seq<T>)
    requires
        included(small, large),
        included(more, most),
    ensures
        included(united(small, more), united(large, most)),
{
    united_is_union(small, more);
    united_is_union(large, most);
}

proof fn lemma_united_includes<T>(left: Seq<T>, right: Seq<T>)
    ensures
        included(left, united(left, right)),
        included(right, united(left, right)),
{
    united_is_union(left, right);
    assert forall|item: T| #[trigger] left.contains(item) implies united(left, right).contains(
        item,
    ) by {}
    assert forall|item: T| #[trigger] right.contains(item) implies united(left, right).contains(
        item,
    ) by {}
}

proof fn lemma_push_included<T>(small: Seq<T>, large: Seq<T>, item: T)
    requires
        included(small, large),
    ensures
        included(small.push(item), large.push(item)),
{
    assert forall|other: T| #[trigger] small.push(item).contains(other) implies large.push(
        item,
    ).contains(other) by {
        lemma_push_contains(small, item, other);
        lemma_push_contains(large, item, other);
    }
}

proof fn lemma_add_included<T>(small: Seq<T>, more: Seq<T>, large: Seq<T>, most: Seq<T>)
    requires
        included(small, large),
        included(more, most),
    ensures
        included(small + more, large + most),
{
    assert forall|item: T| #[trigger] (small + more).contains(item) implies (large
        + most).contains(item) by {
        let index = choose|index: int|
            0 <= index < (small + more).len() && (small + more)[index] == item;
        if index < small.len() {
            assert(small.contains(item));
            let other = choose|other: int| 0 <= other < large.len() && large[other] == item;
            assert((large + most)[other] == item);
        } else {
            assert(more[index - small.len()] == item);
            assert(more.contains(item));
            let other = choose|other: int| 0 <= other < most.len() && most[other] == item;
            assert((large + most)[large.len() + other] == item);
        }
    }
}

/// Whether a loan forbids an access.
spec fn forbids(loan: Loan, place: Place, mutable_only: bool) -> bool {
    (!mutable_only || loan.kind == BorrowKind::Mutable) && places_overlap(&loan.place, &place)
}

proof fn lemma_overlapping_loan(loans: Seq<Loan>, place: Place, mutable_only: bool, from: nat)
    ensures
        overlapping_loan(loans, place, mutable_only, from) is Some <==> exists|index: int|
            from <= index < loans.len() && forbids(#[trigger] loans[index], place, mutable_only),
    decreases loans.len() - from,
{
    if from < loans.len() {
        lemma_overlapping_loan(loans, place, mutable_only, from + 1);
        if forbids(loans[from as int], place, mutable_only) {
        } else if exists|index: int|
            from <= index < loans.len() && forbids(#[trigger] loans[index], place, mutable_only) {
            let index = choose|index: int|
                from <= index < loans.len()
                    && forbids(#[trigger] loans[index], place, mutable_only);
            assert(index != from);
        }
    }
}

proof fn lemma_overlapping_loan_included(
    small: Seq<Loan>,
    large: Seq<Loan>,
    place: Place,
    mutable_only: bool,
)
    requires
        included(small, large),
        overlapping_loan(large, place, mutable_only, 0) is None,
    ensures
        overlapping_loan(small, place, mutable_only, 0) is None,
{
    lemma_overlapping_loan(small, place, mutable_only, 0);
    lemma_overlapping_loan(large, place, mutable_only, 0);
    if overlapping_loan(small, place, mutable_only, 0) is Some {
        let index = choose|index: int|
            0 <= index < small.len() && forbids(#[trigger] small[index], place, mutable_only);
        assert(small.contains(small[index]));
        let other = choose|other: int| 0 <= other < large.len() && large[other] == small[index];
        assert(forbids(large[other], place, mutable_only));
    }
}

proof fn lemma_overlapping_move(moved: Seq<Moved>, place: Place, from: nat)
    ensures
        overlapping_move(moved, place, from) is Some <==> exists|index: int|
            from <= index < moved.len() && places_overlap(
                &(#[trigger] moved[index]).place,
                &place,
            ),
    decreases moved.len() - from,
{
    if from < moved.len() {
        lemma_overlapping_move(moved, place, from + 1);
        if places_overlap(&moved[from as int].place, &place) {
        } else if exists|index: int|
            from <= index < moved.len() && places_overlap(
                &(#[trigger] moved[index]).place,
                &place,
            ) {
            let index = choose|index: int|
                from <= index < moved.len() && places_overlap(
                    &(#[trigger] moved[index]).place,
                    &place,
                );
            assert(index != from);
        }
    }
}

proof fn lemma_overlapping_move_included(small: Seq<Moved>, large: Seq<Moved>, place: Place)
    requires
        included(small, large),
        overlapping_move(large, place, 0) is None,
    ensures
        overlapping_move(small, place, 0) is None,
{
    lemma_overlapping_move(small, place, 0);
    lemma_overlapping_move(large, place, 0);
    if overlapping_move(small, place, 0) is Some {
        let index = choose|index: int|
            0 <= index < small.len() && places_overlap(&(#[trigger] small[index]).place, &place);
        assert(small.contains(small[index]));
        let other = choose|other: int| 0 <= other < large.len() && large[other] == small[index];
        assert(places_overlap(&large[other].place, &place));
    }
}

proof fn lemma_conflict_settled(
    strict: bool,
    diagnostics: Seq<Diagnostic>,
    finding: Finding,
    span: Span,
    origin: Option<Span>,
)
    requires
        is_settled(strict, with_conflict(diagnostics, finding, span, origin)),
        finding != Finding::ReturnedLocalReference,
    ensures
        origin is None,
        is_settled(strict, diagnostics),
{
    let all = with_conflict(diagnostics, finding, span, origin);
    match origin {
        Some(_) => {
            assert(all[diagnostics.len() as int].finding == finding);
        },
        None => {},
    }
}

proof fn lemma_use_below(
    strict: bool,
    small: Seq<Diagnostic>,
    small_moved: Seq<Moved>,
    large: Seq<Diagnostic>,
    large_moved: Seq<Moved>,
    place: Place,
    moving: bool,
    span: Span,
)
    requires
        included(small_moved, large_moved),
        is_settled(strict, small),
        is_settled(strict, use_checked(large, place, moving, large_moved, span)),
    ensures
        is_settled(strict, large),
        is_settled(strict, use_checked(small, place, moving, small_moved, span)),
{
    let finding = if moving {
        Finding::MoveAfterMove
    } else {
        Finding::UseAfterMove
    };
    lemma_conflict_settled(strict, large, finding, span, overlapping_move(large_moved, place, 0));
    lemma_overlapping_move_included(small_moved, large_moved, place);
}

proof fn lemma_read_below(
    strict: bool,
    small: Seq<Diagnostic>,
    small_loans: Seq<Loan>,
    large: Seq<Diagnostic>,
    large_loans: Seq<Loan>,
    place: Place,
    span: Span,
)
    requires
        included(small_loans, large_loans),
        is_settled(strict, small),
        is_settled(strict, read_checked(large, place, large_loans, span)),
    ensures
        is_settled(strict, large),
        is_settled(strict, read_checked(small, place, small_loans, span)),
{
    lemma_conflict_settled(
        strict,
        large,
        Finding::ReadDuringMutableBorrow,
        span,
        overlapping_loan(large_loans, place, true, 0),
    );
    lemma_overlapping_loan_included(small_loans, large_loans, place, true);
}

proof fn lemma_write_below(
    strict: bool,
    small: Seq<Diagnostic>,
    small_loans: Seq<Loan>,
    large: Seq<Diagnostic>,
    large_loans: Seq<Loan>,
    place: Place,
    span: Span,
)
    requires
        included(small_loans, large_loans),
        is_settled(strict, small),
        is_settled(strict, write_checked(large, place, large_loans, span)),
    ensures
        is_settled(strict, large),
        is_settled(strict, write_checked(small, place, small_loans, span)),
{
    lemma_conflict_settled(
        strict,
        large,
        Finding::WriteDuringBorrow,
        span,
        overlapping_loan(large_loans, place, false, 0),
    );
    lemma_overlapping_loan_included(small_loans, large_loans, place, false);
}

proof fn lemma_operand_below(
    strict: bool,
    body: &Body,
    operand: Operand,
    facts: &OwnershipFacts,
    small: Track,
    large: Track,
    span: Span,
)
    requires
        is_below(small, large),
        is_settled(strict, small.diagnostics),
        is_settled(strict, operand_visited(body, operand, facts, large, span).diagnostics),
    ensures
        is_settled(strict, large.diagnostics),
        is_below(
            operand_visited(body, operand, facts, small, span),
            operand_visited(body, operand, facts, large, span),
        ),
        is_settled(strict, operand_visited(body, operand, facts, small, span).diagnostics),
{
    match operand {
        Operand::Constant(_) => {},
        Operand::Copy(place) => {
            let small_used = use_checked(small.diagnostics, place, false, small.moved, span);
            let large_used = use_checked(large.diagnostics, place, false, large.moved, span);
            lemma_conflict_settled(
                strict,
                large_used,
                Finding::ReadDuringMutableBorrow,
                span,
                overlapping_loan(large.loans, place, true, 0),
            );
            lemma_use_below(
                strict,
                small.diagnostics,
                small.moved,
                large.diagnostics,
                large.moved,
                place,
                false,
                span,
            );
            lemma_read_below(strict, small_used, small.loans, large_used, large.loans, place, span);
        },
        Operand::Move(place) => {
            let small_used = use_checked(small.diagnostics, place, true, small.moved, span);
            let large_used = use_checked(large.diagnostics, place, true, large.moved, span);
            let large_written = write_checked(large_used, place, large.loans, span);
            let visited = operand_visited(body, operand, facts, large, span).diagnostics;
            if visited.len() > large_written.len() {
                assert(visited[large_written.len() as int].finding
                    == Finding::PartialMoveFromDropType);
            }
            assert(visited == large_written);
            lemma_conflict_settled(
                strict,
                large_used,
                Finding::WriteDuringBorrow,
                span,
                overlapping_loan(large.loans, place, false, 0),
            );
            lemma_use_below(
                strict,
                small.diagnostics,
                small.moved,
                large.diagnostics,
                large.moved,
                place,
                true,
                span,
            );
            lemma_write_below(
                strict,
                small_used,
                small.loans,
                large_used,
                large.loans,
                place,
                span,
            );
            lemma_push_included(small.moved, large.moved, Moved { place, origin: span });
        },
    }
}

proof fn lemma_operands_below(
    strict: bool,
    body: &Body,
    operands: List<Operand>,
    facts: &OwnershipFacts,
    small: Track,
    large: Track,
    span: Span,
)
    requires
        is_below(small, large),
        is_settled(strict, small.diagnostics),
        is_settled(strict, operands_visited(body, operands, facts, large, span).diagnostics),
    ensures
        is_settled(strict, large.diagnostics),
        is_below(
            operands_visited(body, operands, facts, small, span),
            operands_visited(body, operands, facts, large, span),
        ),
        is_settled(strict, operands_visited(body, operands, facts, small, span).diagnostics),
    decreases operands,
{
    match operands {
        List::Nil => {},
        List::Cons(head, tail) => {
            let large_next = operand_visited(body, *head, facts, large, span);
            lemma_operands_settled(strict, body, *tail, facts, large_next, span);
            lemma_operand_below(strict, body, *head, facts, small, large, span);
            lemma_operands_below(
                strict,
                body,
                *tail,
                facts,
                operand_visited(body, *head, facts, small, span),
                large_next,
                span,
            );
        },
    }
}

proof fn lemma_operand_settled(
    strict: bool,
    body: &Body,
    operand: Operand,
    facts: &OwnershipFacts,
    track: Track,
    span: Span,
)
    requires
        is_settled(strict, operand_visited(body, operand, facts, track, span).diagnostics),
    ensures
        is_settled(strict, track.diagnostics),
{
    lemma_operand_below(
        strict,
        body,
        operand,
        facts,
        Track { loans: Seq::empty(), moved: Seq::empty(), diagnostics: Seq::empty() },
        track,
        span,
    );
}

proof fn lemma_operands_settled(
    strict: bool,
    body: &Body,
    operands: List<Operand>,
    facts: &OwnershipFacts,
    track: Track,
    span: Span,
)
    requires
        is_settled(strict, operands_visited(body, operands, facts, track, span).diagnostics),
    ensures
        is_settled(strict, track.diagnostics),
    decreases operands,
{
    match operands {
        List::Nil => {},
        List::Cons(head, tail) => {
            lemma_operands_settled(
                strict,
                body,
                *tail,
                facts,
                operand_visited(body, *head, facts, track, span),
                span,
            );
            lemma_operand_settled(strict, body, *head, facts, track, span);
        },
    }
}

proof fn lemma_lookup_below(
    strict: bool,
    body: &Body,
    object: Place,
    receiver: ReceiverMode,
    facts: &OwnershipFacts,
    small: Track,
    large: Track,
    span: Span,
)
    requires
        is_below(small, large),
        is_settled(strict, small.diagnostics),
        is_settled(
            strict,
            lookup_visited(body, object, receiver, facts, large, span).diagnostics,
        ),
    ensures
        is_settled(strict, large.diagnostics),
        is_below(
            lookup_visited(body, object, receiver, facts, small, span),
            lookup_visited(body, object, receiver, facts, large, span),
        ),
        is_settled(
            strict,
            lookup_visited(body, object, receiver, facts, small, span).diagnostics,
        ),
{
    match receiver {
        ReceiverMode::Shared | ReceiverMode::Static => {
            let small_read = read_checked(small.diagnostics, object, small.loans, span);
            let large_read = read_checked(large.diagnostics, object, large.loans, span);
            lemma_conflict_settled(
                strict,
                large_read,
                Finding::UseAfterMove,
                span,
                overlapping_move(large.moved, object, 0),
            );
            lemma_read_below(
                strict,
                small.diagnostics,
                small.loans,
                large.diagnostics,
                large.loans,
                object,
                span,
            );
            lemma_use_below(
                strict,
                small_read,
                small.moved,
                large_read,
                large.moved,
                object,
                false,
                span,
            );
        },
        ReceiverMode::Mutable => {
            let small_used = use_checked(small.diagnostics, object, false, small.moved, span);
            let large_used = use_checked(large.diagnostics, object, false, large.moved, span);
            lemma_conflict_settled(
                strict,
                large_used,
                Finding::WriteDuringBorrow,
                span,
                overlapping_loan(large.loans, object, false, 0),
            );
            lemma_use_below(
                strict,
                small.diagnostics,
                small.moved,
                large.diagnostics,
                large.moved,
                object,
                false,
                span,
            );
            lemma_write_below(
                strict,
                small_used,
                small.loans,
                large_used,
                large.loans,
                object,
                span,
            );
        },
        ReceiverMode::Move => {
            lemma_operand_below(strict, body, Operand::Move(object), facts, small, large, span);
        },
    }
}

proof fn lemma_rvalue_below(
    strict: bool,
    body: &Body,
    rvalue: Rvalue,
    facts: &OwnershipFacts,
    small: Track,
    large: Track,
    span: Span,
)
    requires
        is_below(small, large),
        is_settled(strict, small.diagnostics),
        is_settled(strict, rvalue_visited(body, rvalue, facts, large, span).diagnostics),
    ensures
        is_settled(strict, large.diagnostics),
        is_below(
            rvalue_visited(body, rvalue, facts, small, span),
            rvalue_visited(body, rvalue, facts, large, span),
        ),
        is_settled(strict, rvalue_visited(body, rvalue, facts, small, span).diagnostics),
{
    reveal_with_fuel(rvalue_visited, 2);
    match rvalue {
        Rvalue::Use(operand)
        | Rvalue::Unary { operand, .. }
        | Rvalue::Cast { operand, .. }
        | Rvalue::TypeTest { operand, .. } => {
            lemma_operand_below(strict, body, operand, facts, small, large, span);
        },
        Rvalue::CheckedBinary { left, right, .. } => {
            let large_left = operand_visited(body, left, facts, large, span);
            lemma_operand_settled(strict, body, right, facts, large_left, span);
            lemma_operand_below(strict, body, left, facts, small, large, span);
            lemma_operand_below(
                strict,
                body,
                right,
                facts,
                operand_visited(body, left, facts, small, span),
                large_left,
                span,
            );
        },
        Rvalue::CheckedIndex { collection, index } => {
            let small_used = Track {
                diagnostics: use_checked(small.diagnostics, collection, false, small.moved, span),
                ..small
            };
            let large_used = Track {
                diagnostics: use_checked(large.diagnostics, collection, false, large.moved, span),
                ..large
            };
            lemma_operand_settled(strict, body, index, facts, large_used, span);
            lemma_use_below(
                strict,
                small.diagnostics,
                small.moved,
                large.diagnostics,
                large.moved,
                collection,
                false,
                span,
            );
            lemma_operand_below(strict, body, index, facts, small_used, large_used, span);
        },
        Rvalue::Aggregate { fields, .. } => {
            lemma_operands_below(strict, body, fields, facts, small, large, span);
        },
        Rvalue::Template { captures, .. } => {
            lemma_operands_below(strict, body, captures, facts, small, large, span);
        },
        Rvalue::Closure { captures, body: closure, .. } => {
            let large_visited = operands_visited(body, captures, facts, large, span);
            let all = rvalue_visited(body, rvalue, facts, large, span).diagnostics;
            assert forall|index: int| 0 <= index < large_visited.diagnostics.len() implies (
            #[trigger] large_visited.diagnostics[index]).finding
                == Finding::ReturnedLocalReference by {
                assert(all[index] == large_visited.diagnostics[index]);
            }
            lemma_operands_below(strict, body, captures, facts, small, large, span);
            if closure < body.closures@.len() {
                let found = analysis_of(&body.closures@[closure as int], facts);
                let own = operands_visited(body, captures, facts, small, span).diagnostics;
                assert forall|index: int| 0 <= index < (own + found).len() implies (
                #[trigger] (own + found)[index]).finding == Finding::ReturnedLocalReference by {
                    if index >= own.len() {
                        assert((own + found)[index] == all[large_visited.diagnostics.len() + index
                            - own.len()]);
                    }
                }
            }
        },
        Rvalue::Length(place) => {
            let small_read = read_checked(small.diagnostics, place, small.loans, span);
            let large_read = read_checked(large.diagnostics, place, large.loans, span);
            lemma_conflict_settled(
                strict,
                large_read,
                Finding::UseAfterMove,
                span,
                overlapping_move(large.moved, place, 0),
            );
            lemma_read_below(
                strict,
                small.diagnostics,
                small.loans,
                large.diagnostics,
                large.loans,
                place,
                span,
            );
            lemma_use_below(
                strict,
                small_read,
                small.moved,
                large_read,
                large.moved,
                place,
                false,
                span,
            );
        },
        Rvalue::VtableLookup { object, receiver, .. }
        | Rvalue::WitnessLookup { object, receiver, .. }
        | Rvalue::DirectMethod { object, receiver, .. } => {
            lemma_lookup_below(strict, body, object, receiver, facts, small, large, span);
        },
        Rvalue::RawOperation { operands, .. } => {
            lemma_operands_below(strict, body, operands, facts, small, large, span);
        },
    }
}

proof fn lemma_rvalue_settled(
    strict: bool,
    body: &Body,
    rvalue: Rvalue,
    facts: &OwnershipFacts,
    track: Track,
    span: Span,
)
    requires
        is_settled(strict, rvalue_visited(body, rvalue, facts, track, span).diagnostics),
    ensures
        is_settled(strict, track.diagnostics),
{
    lemma_rvalue_below(
        strict,
        body,
        rvalue,
        facts,
        Track { loans: Seq::empty(), moved: Seq::empty(), diagnostics: Seq::empty() },
        track,
        span,
    );
}

/// Whether a loan conflicts with a borrow.
spec fn conflicts(loan: Loan, kind: BorrowKind, place: Place) -> bool {
    places_overlap(&loan.place, &place) && (kind == BorrowKind::Mutable || loan.kind
        == BorrowKind::Mutable)
}

proof fn lemma_borrow_settled(
    strict: bool,
    diagnostics: Seq<Diagnostic>,
    loans: Seq<Loan>,
    kind: BorrowKind,
    place: Place,
    span: Span,
    count: nat,
)
    requires
        count <= loans.len(),
        is_settled(strict, borrow_checked(diagnostics, loans, kind, place, span, count)),
    ensures
        is_settled(strict, diagnostics),
        forall|index: int| 0 <= index < count ==> !conflicts(#[trigger] loans[index], kind, place),
    decreases count,
{
    if count > 0 {
        let before = borrow_checked(diagnostics, loans, kind, place, span, (count - 1) as nat);
        let all = borrow_checked(diagnostics, loans, kind, place, span, count);
        if conflicts(loans[count - 1], kind, place) {
            assert(all[before.len() as int].finding == Finding::ConflictingBorrow);
        }
        assert(all == before);
        lemma_borrow_settled(strict, diagnostics, loans, kind, place, span, (count - 1) as nat);
    }
}

proof fn lemma_borrow_quiet(
    diagnostics: Seq<Diagnostic>,
    loans: Seq<Loan>,
    kind: BorrowKind,
    place: Place,
    span: Span,
    count: nat,
)
    requires
        count <= loans.len(),
        forall|index: int| 0 <= index < count ==> !conflicts(#[trigger] loans[index], kind, place),
    ensures
        borrow_checked(diagnostics, loans, kind, place, span, count) == diagnostics,
    decreases count,
{
    if count > 0 {
        assert(!conflicts(loans[count - 1], kind, place));
        lemma_borrow_quiet(diagnostics, loans, kind, place, span, (count - 1) as nat);
    }
}

proof fn lemma_statement_below(
    strict: bool,
    body: &Body,
    facts: &OwnershipFacts,
    statement: Statement,
    point: int,
    small: Track,
    large: Track,
)
    requires
        is_below(small, large),
        is_settled(strict, small.diagnostics),
        is_settled(
            strict,
            statement_checked(body, facts, statement, point, large).diagnostics,
        ),
    ensures
        is_settled(strict, large.diagnostics),
        is_below(
            statement_checked(body, facts, statement, point, small),
            statement_checked(body, facts, statement, point, large),
        ),
        is_settled(
            strict,
            statement_checked(body, facts, statement, point, small).diagnostics,
        ),
{
    reveal_with_fuel(statement_checked, 2);
    let span = statement.span;
    let small_live = Track { loans: live_loans(small.loans, mentions(body), point), ..small };
    let large_live = Track { loans: live_loans(large.loans, mentions(body), point), ..large };
    let is_live = |loan: Loan|
        crate::ownership::places::used_from(mentions(body), loan.destination, point);
    lemma_filter_included(small.loans, large.loans, is_live);
    match statement.kind {
        StatementKind::Assign(place, rvalue) => {
            let small_written = Track {
                diagnostics: write_checked(small_live.diagnostics, place, small_live.loans, span),
                ..small_live
            };
            let large_written = Track {
                diagnostics: write_checked(large_live.diagnostics, place, large_live.loans, span),
                ..large_live
            };
            lemma_rvalue_settled(strict, body, rvalue, facts, large_written, span);
            lemma_write_below(
                strict,
                small_live.diagnostics,
                small_live.loans,
                large_live.diagnostics,
                large_live.loans,
                place,
                span,
            );
            lemma_rvalue_below(strict, body, rvalue, facts, small_written, large_written, span);
            let small_visited = rvalue_visited(body, rvalue, facts, small_written, span);
            let large_visited = rvalue_visited(body, rvalue, facts, large_written, span);
            lemma_transferred_included(
                rvalue,
                place.local,
                small_visited.loans,
                large_visited.loans,
            );
            lemma_united_included(
                small_visited.loans,
                transferred(rvalue, place.local, small_visited.loans),
                large_visited.loans,
                transferred(rvalue, place.local, large_visited.loans),
            );
            let small_carried = united(
                small_visited.loans,
                transferred(rvalue, place.local, small_visited.loans),
            );
            let large_carried = united(
                large_visited.loans,
                transferred(rvalue, place.local, large_visited.loans),
            );
            match receiver_loan(&rvalue, place.local, span) {
                Some(loan) => {
                    lemma_united_included(small_carried, seq![loan], large_carried, seq![loan]);
                },
                None => {},
            }
            let outside = |other: Moved|
                !crate::ownership::places::place_contains(&place, &other.place);
            lemma_filter_included(small_visited.moved, large_visited.moved, outside);
        },
        StatementKind::Borrow { destination, kind, place, .. } => {
            let small_used = use_checked(
                small_live.diagnostics,
                place,
                false,
                small_live.moved,
                span,
            );
            let large_used = use_checked(
                large_live.diagnostics,
                place,
                false,
                large_live.moved,
                span,
            );
            lemma_borrow_settled(
                strict,
                large_used,
                large_live.loans,
                kind,
                place,
                span,
                large_live.loans.len(),
            );
            lemma_use_below(
                strict,
                small_live.diagnostics,
                small_live.moved,
                large_live.diagnostics,
                large_live.moved,
                place,
                false,
                span,
            );
            assert forall|index: int| 0 <= index < small_live.loans.len() implies !conflicts(
                #[trigger] small_live.loans[index],
                kind,
                place,
            ) by {
                assert(small_live.loans.contains(small_live.loans[index]));
                let other = choose|other: int|
                    0 <= other < large_live.loans.len() && large_live.loans[other]
                        == small_live.loans[index];
                assert(!conflicts(large_live.loans[other], kind, place));
            }
            lemma_borrow_quiet(
                small_used,
                small_live.loans,
                kind,
                place,
                span,
                small_live.loans.len(),
            );
            let added = seq![Loan { destination, kind, place, origin: span }];
            lemma_united_included(small_live.loans, added, large_live.loans, added);
        },
        StatementKind::StorageDead(local) => {
            let kept = |loan: Loan| loan.destination != local && loan.place.local != local;
            let other = |moved: Moved| moved.place.local != local;
            lemma_filter_included(small_live.loans, large_live.loans, kept);
            lemma_filter_included(small_live.moved, large_live.moved, other);
        },
        StatementKind::SetDiscriminant(place, _)
        | StatementKind::Retag(place)
        | StatementKind::SetDropFlag(place, _) => {
            lemma_write_below(
                strict,
                small_live.diagnostics,
                small_live.loans,
                large_live.diagnostics,
                large_live.loans,
                place,
                span,
            );
        },
        StatementKind::StorageLive(_) => {},
    }
}

proof fn lemma_transferred_included(
    rvalue: Rvalue,
    destination: crate::mir::LocalId,
    small: Seq<Loan>,
    large: Seq<Loan>,
)
    requires
        included(small, large),
    ensures
        included(transferred(rvalue, destination, small), transferred(rvalue, destination, large)),
{
    let keep = |loan: Loan| crate::ownership::loans::carries(rvalue, loan.destination);
    let rename = |loan: Loan| (Loan { destination, ..loan });
    lemma_filter_included(small, large, keep);
    lemma_map_included(small.filter(keep), large.filter(keep), rename);
}

proof fn lemma_argument_included(
    argument: Operand,
    destination: crate::mir::LocalId,
    small: Seq<Loan>,
    large: Seq<Loan>,
    origin: Span,
)
    requires
        included(small, large),
    ensures
        included(
            argument_loans(argument, destination, small, origin),
            argument_loans(argument, destination, large, origin),
        ),
{
    let keep = |loan: Loan| crate::ownership::loans::operand_reads(&argument, loan.destination);
    let rename = |loan: Loan| (Loan { destination, origin, ..loan });
    lemma_filter_included(small, large, keep);
    lemma_map_included(small.filter(keep), large.filter(keep), rename);
}

proof fn lemma_arguments_included(
    arguments: List<Operand>,
    destination: crate::mir::LocalId,
    small: Seq<Loan>,
    large: Seq<Loan>,
    origin: Span,
)
    requires
        included(small, large),
    ensures
        included(
            arguments_loans(arguments, destination, small, origin),
            arguments_loans(arguments, destination, large, origin),
        ),
    decreases arguments,
{
    match arguments {
        List::Nil => {},
        List::Cons(head, tail) => {
            lemma_argument_included(*head, destination, small, large, origin);
            lemma_arguments_included(*tail, destination, small, large, origin);
            lemma_add_included(
                argument_loans(*head, destination, small, origin),
                arguments_loans(*tail, destination, small, origin),
                argument_loans(*head, destination, large, origin),
                arguments_loans(*tail, destination, large, origin),
            );
        },
    }
}

proof fn lemma_result_included(
    body: &Body,
    terminator: TerminatorKind,
    small: Seq<Loan>,
    large: Seq<Loan>,
    origin: Span,
)
    requires
        included(small, large),
    ensures
        included(
            result_loans(body, terminator, small, origin),
            result_loans(body, terminator, large, origin),
        ),
{
    match terminator {
        TerminatorKind::Call { receiver, arguments, destination: Some(destination), .. } => {
            lemma_arguments_included(arguments, destination.local, small, large, origin);
            match receiver {
                Some(receiver) => {
                    lemma_argument_included(receiver, destination.local, small, large, origin);
                    lemma_add_included(
                        argument_loans(receiver, destination.local, small, origin),
                        arguments_loans(arguments, destination.local, small, origin),
                        argument_loans(receiver, destination.local, large, origin),
                        arguments_loans(arguments, destination.local, large, origin),
                    );
                },
                None => {
                    lemma_add_included(
                        Seq::empty(),
                        arguments_loans(arguments, destination.local, small, origin),
                        Seq::empty(),
                        arguments_loans(arguments, destination.local, large, origin),
                    );
                },
            }
        },
        _ => {},
    }
}

proof fn lemma_filled_below(
    strict: bool,
    destination: Option<Place>,
    small: Track,
    large: Track,
    span: Span,
)
    requires
        is_below(small, large),
        is_settled(strict, small.diagnostics),
        is_settled(strict, destination_filled(destination, large, span).diagnostics),
    ensures
        is_settled(strict, large.diagnostics),
        is_below(
            destination_filled(destination, small, span),
            destination_filled(destination, large, span),
        ),
        is_settled(strict, destination_filled(destination, small, span).diagnostics),
{
    match destination {
        Some(place) => {
            lemma_write_below(
                strict,
                small.diagnostics,
                small.loans,
                large.diagnostics,
                large.loans,
                place,
                span,
            );
            let outside = |other: Moved|
                !crate::ownership::places::place_contains(&place, &other.place);
            lemma_filter_included(small.moved, large.moved, outside);
        },
        None => {},
    }
}

proof fn lemma_filled_settled(strict: bool, destination: Option<Place>, track: Track, span: Span)
    requires
        is_settled(strict, destination_filled(destination, track, span).diagnostics),
    ensures
        is_settled(strict, track.diagnostics),
{
    lemma_filled_below(
        strict,
        destination,
        Track { loans: Seq::empty(), moved: Seq::empty(), diagnostics: Seq::empty() },
        track,
        span,
    );
}

proof fn lemma_receiver_below(
    strict: bool,
    body: &Body,
    function: Operand,
    receiver: Option<Operand>,
    facts: &OwnershipFacts,
    small: Track,
    large: Track,
    span: Span,
)
    requires
        is_below(small, large),
        is_settled(strict, small.diagnostics),
        is_settled(
            strict,
            receiver_visited(body, function, receiver, facts, large, span).diagnostics,
        ),
    ensures
        is_settled(strict, large.diagnostics),
        is_below(
            receiver_visited(body, function, receiver, facts, small, span),
            receiver_visited(body, function, receiver, facts, large, span),
        ),
        is_settled(
            strict,
            receiver_visited(body, function, receiver, facts, small, span).diagnostics,
        ),
{
    match receiver {
        Some(receiver) => {
            let bound = match operand_place_ref(&receiver) {
                Some(place) => match method_binding_for_function(body, &function) {
                    Some(object) => places_overlap(object, place),
                    None => false,
                },
                None => false,
            };
            if !bound {
                lemma_operand_below(strict, body, receiver, facts, small, large, span);
            }
        },
        None => {},
    }
}

proof fn lemma_returned_below(
    strict: bool,
    body: &Body,
    terminator: TerminatorKind,
    value: Option<Operand>,
    facts: &OwnershipFacts,
    small: Track,
    large: Track,
    span: Span,
)
    requires
        terminator == TerminatorKind::Return(value) || terminator == (
        TerminatorKind::TaggedReturn { completion: Completion::Success, payload: value }),
        is_below(small, large),
        is_settled(strict, small.diagnostics),
        is_settled(strict, value_returned(body, value, facts, large, span).diagnostics),
    ensures
        is_settled(strict, large.diagnostics),
        is_below(
            value_returned(body, value, facts, small, span),
            value_returned(body, value, facts, large, span),
        ),
        strict && !first_loan_tells(body, terminator, large.loans) || is_settled(
            strict,
            value_returned(body, value, facts, small, span).diagnostics,
        ),
{
    match value {
        Some(value) => {
            let visited = operand_visited(body, value, facts, large, span);
            let all = value_returned(body, Some(value), facts, large, span).diagnostics;
            assert forall|index: int| 0 <= index < visited.diagnostics.len() && !strict implies (
            #[trigger] visited.diagnostics[index]).finding == Finding::ReturnedLocalReference by {
                assert(all[index] == visited.diagnostics[index]);
            }
            lemma_operand_below(strict, body, value, facts, small, large, span);
            if let Some(place) = operand_place_ref(&value) {
                lemma_loan_held(small.loans, place.local, 0);
                lemma_loan_held(large.loans, place.local, 0);
                if let Some(loan) = loan_held_by(small.loans, place.local, 0) {
                    assert(large.loans.contains(*loan));
                    let index = choose|index: int|
                        0 <= index < large.loans.len() && large.loans[index] == *loan;
                    assert(large.loans[index].destination == place.local);
                }
            }
        },
        None => {},
    }
}

proof fn lemma_suspension_settled(
    strict: bool,
    body: &Body,
    diagnostics: Seq<Diagnostic>,
    loans: Seq<Loan>,
    span: Span,
    count: nat,
)
    requires
        count <= loans.len(),
        is_settled(strict, suspension_checked(body, diagnostics, loans, span, count)),
    ensures
        is_settled(strict, diagnostics),
        forall|index: int| 0 <= index < count ==> !is_own_storage(body, #[trigger] loans[index]),
    decreases count,
{
    if count > 0 {
        let before = suspension_checked(body, diagnostics, loans, span, (count - 1) as nat);
        let all = suspension_checked(body, diagnostics, loans, span, count);
        if is_own_storage(body, loans[count - 1]) {
            assert(all[before.len() as int].finding == Finding::BorrowAcrossSuspend);
        }
        assert(all == before);
        lemma_suspension_settled(strict, body, diagnostics, loans, span, (count - 1) as nat);
    }
}

proof fn lemma_suspension_quiet(
    body: &Body,
    diagnostics: Seq<Diagnostic>,
    loans: Seq<Loan>,
    span: Span,
    count: nat,
)
    requires
        count <= loans.len(),
        forall|index: int| 0 <= index < count ==> !is_own_storage(body, #[trigger] loans[index]),
    ensures
        suspension_checked(body, diagnostics, loans, span, count) == diagnostics,
    decreases count,
{
    if count > 0 {
        assert(!is_own_storage(body, loans[count - 1]));
        lemma_suspension_quiet(body, diagnostics, loans, span, (count - 1) as nat);
    }
}

/// Whether a loan is on storage of the body that is no argument.
spec fn is_own_storage(body: &Body, loan: Loan) -> bool {
    loan.place.local.0 < body.locals@.len() && !body.locals@[loan.place.local.0 as int].argument
}

proof fn lemma_terminator_below(
    strict: bool,
    body: &Body,
    terminator: TerminatorKind,
    facts: &OwnershipFacts,
    small: Track,
    large: Track,
    span: Span,
)
    requires
        is_below(small, large),
        is_settled(strict, small.diagnostics),
        is_settled(
            strict,
            terminator_visited(body, terminator, facts, large, span).diagnostics,
        ),
    ensures
        is_settled(strict, large.diagnostics),
        is_below(
            terminator_visited(body, terminator, facts, small, span),
            terminator_visited(body, terminator, facts, large, span),
        ),
        strict && !first_loan_tells(body, terminator, large.loans) || is_settled(
            strict,
            terminator_visited(body, terminator, facts, small, span).diagnostics,
        ),
{
    match terminator {
        TerminatorKind::Switch { value, .. } | TerminatorKind::Throw(value) => {
            lemma_operand_below(strict, body, value, facts, small, large, span);
        },
        TerminatorKind::Suspend { value, destination, error_destination, .. } => {
            let small_visited = operand_visited(body, value, facts, small, span);
            let large_visited = operand_visited(body, value, facts, large, span);
            let small_filled = destination_filled(destination, small_visited, span);
            let large_filled = destination_filled(destination, large_visited, span);
            let small_all = destination_filled(error_destination, small_filled, span);
            let large_all = destination_filled(error_destination, large_filled, span);
            lemma_suspension_settled(
                strict,
                body,
                large_all.diagnostics,
                large_all.loans,
                span,
                large_all.loans.len(),
            );
            lemma_filled_settled(strict, error_destination, large_filled, span);
            lemma_filled_settled(strict, destination, large_visited, span);
            lemma_operand_below(strict, body, value, facts, small, large, span);
            lemma_filled_below(strict, destination, small_visited, large_visited, span);
            lemma_filled_below(strict, error_destination, small_filled, large_filled, span);
            assert forall|index: int| 0 <= index < small_all.loans.len() implies !is_own_storage(
                body,
                #[trigger] small_all.loans[index],
            ) by {
                assert(small_all.loans.contains(small_all.loans[index]));
                let other = choose|other: int|
                    0 <= other < large_all.loans.len() && large_all.loans[other]
                        == small_all.loans[index];
                assert(!is_own_storage(body, large_all.loans[other]));
            }
            lemma_suspension_quiet(
                body,
                small_all.diagnostics,
                small_all.loans,
                span,
                small_all.loans.len(),
            );
        },
        TerminatorKind::Call {
            function,
            receiver,
            arguments,
            destination,
            error_destination,
            ..
        } => {
            let small_called = operand_visited(body, function, facts, small, span);
            let large_called = operand_visited(body, function, facts, large, span);
            let small_received = receiver_visited(
                body,
                function,
                receiver,
                facts,
                small_called,
                span,
            );
            let large_received = receiver_visited(
                body,
                function,
                receiver,
                facts,
                large_called,
                span,
            );
            let small_passed = operands_visited(body, arguments, facts, small_received, span);
            let large_passed = operands_visited(body, arguments, facts, large_received, span);
            let small_filled = destination_filled(destination, small_passed, span);
            let large_filled = destination_filled(destination, large_passed, span);
            lemma_filled_settled(strict, error_destination, large_filled, span);
            lemma_filled_settled(strict, destination, large_passed, span);
            lemma_operands_settled(strict, body, arguments, facts, large_received, span);
            let nothing = Track {
                loans: Seq::empty(),
                moved: Seq::empty(),
                diagnostics: Seq::empty(),
            };
            lemma_receiver_below(
                strict,
                body,
                function,
                receiver,
                facts,
                nothing,
                large_called,
                span,
            );
            lemma_operand_below(strict, body, function, facts, small, large, span);
            lemma_receiver_below(
                strict,
                body,
                function,
                receiver,
                facts,
                small_called,
                large_called,
                span,
            );
            lemma_operands_below(
                strict,
                body,
                arguments,
                facts,
                small_received,
                large_received,
                span,
            );
            lemma_filled_below(strict, destination, small_passed, large_passed, span);
            lemma_filled_below(strict, error_destination, small_filled, large_filled, span);
        },
        TerminatorKind::Return(value) => {
            lemma_returned_below(strict, body, terminator, value, facts, small, large, span);
        },
        TerminatorKind::TaggedReturn { completion, payload } => match completion {
            Completion::Success => {
                lemma_returned_below(strict, body, terminator, payload, facts, small, large, span);
            },
            Completion::Error => match payload {
                Some(value) => {
                    lemma_operand_below(strict, body, value, facts, small, large, span);
                },
                None => {},
            },
        },
        TerminatorKind::Drop { place, .. } => {
            let small_written = write_checked(small.diagnostics, place, small.loans, span);
            let large_written = write_checked(large.diagnostics, place, large.loans, span);
            lemma_conflict_settled(
                strict,
                large_written,
                Finding::MoveAfterMove,
                span,
                overlapping_move(large.moved, place, 0),
            );
            lemma_write_below(
                strict,
                small.diagnostics,
                small.loans,
                large.diagnostics,
                large.loans,
                place,
                span,
            );
            lemma_use_below(
                strict,
                small_written,
                small.moved,
                large_written,
                large.moved,
                place,
                true,
                span,
            );
        },
        TerminatorKind::Goto(_) | TerminatorKind::Abort | TerminatorKind::Unreachable => {},
    }
}

proof fn lemma_statements_below(
    strict: bool,
    body: &Body,
    facts: &OwnershipFacts,
    block: nat,
    small: Track,
    large: Track,
    count: nat,
)
    requires
        is_below(small, large),
        is_settled(strict, small.diagnostics),
        is_settled(
            strict,
            statements_checked(body, facts, block, large, count).diagnostics,
        ),
    ensures
        is_settled(strict, large.diagnostics),
        is_below(
            statements_checked(body, facts, block, small, count),
            statements_checked(body, facts, block, large, count),
        ),
        is_settled(
            strict,
            statements_checked(body, facts, block, small, count).diagnostics,
        ),
    decreases count,
{
    reveal_with_fuel(statements_checked, 2);
    if block < body.blocks@.len() && 0 < count <= body.blocks@[block as int].statements@.len() {
        let statement = body.blocks@[block as int].statements@[count - 1];
        let point = block_point(body, block) + count - 1;
        let before = (count - 1) as nat;
        let large_before = statements_checked(body, facts, block, large, before);
        let nothing = Track {
            loans: Seq::empty(),
            moved: Seq::empty(),
            diagnostics: Seq::empty(),
        };
        lemma_statement_below(strict, body, facts, statement, point, nothing, large_before);
        lemma_statements_below(strict, body, facts, block, small, large, before);
        lemma_statement_below(
            strict,
            body,
            facts,
            statement,
            point,
            statements_checked(body, facts, block, small, before),
            large_before,
        );
    }
}

proof fn lemma_block_below(
    strict: bool,
    body: &Body,
    facts: &OwnershipFacts,
    block: nat,
    small: Track,
    large: Track,
)
    requires
        block < body.blocks@.len(),
        is_below(small, large),
        is_settled(strict, small.diagnostics),
        is_settled(strict, block_checked(body, facts, block, large).diagnostics),
    ensures
        is_settled(strict, large.diagnostics),
        is_below(
            block_checked(body, facts, block, small),
            block_checked(body, facts, block, large),
        ),
        strict && !first_loan_tells(
            body,
            body.blocks@[block as int].terminator.kind,
            loans_at_end(body, facts, block, large),
        ) || is_settled(strict, block_checked(body, facts, block, small).diagnostics),
{
    reveal_with_fuel(block_checked, 2);
    let statements = body.blocks@[block as int].statements@;
    let terminator = body.blocks@[block as int].terminator;
    let small_after = statements_checked(body, facts, block, small, statements.len());
    let large_after = statements_checked(body, facts, block, large, statements.len());
    let point = (block_point(body, block) + statements.len()) as int;
    let is_live = |loan: Loan|
        crate::ownership::places::used_from(mentions(body), loan.destination, point);
    let small_live = Track {
        loans: live_loans(small_after.loans, mentions(body), point),
        ..small_after
    };
    let large_live = Track {
        loans: live_loans(large_after.loans, mentions(body), point),
        ..large_after
    };
    let nothing = Track { loans: Seq::empty(), moved: Seq::empty(), diagnostics: Seq::empty() };
    lemma_terminator_below(
        strict,
        body,
        terminator.kind,
        facts,
        nothing,
        large_live,
        terminator.span,
    );
    lemma_statements_below(strict, body, facts, block, small, large, statements.len());
    lemma_filter_included(small_after.loans, large_after.loans, is_live);
    lemma_terminator_below(
        strict,
        body,
        terminator.kind,
        facts,
        small_live,
        large_live,
        terminator.span,
    );
    let small_visited = terminator_visited(
        body,
        terminator.kind,
        facts,
        small_live,
        terminator.span,
    );
    let large_visited = terminator_visited(
        body,
        terminator.kind,
        facts,
        large_live,
        terminator.span,
    );
    lemma_result_included(
        body,
        terminator.kind,
        small_visited.loans,
        large_visited.loans,
        terminator.span,
    );
    lemma_united_included(
        small_visited.loans,
        result_loans(body, terminator.kind, small_visited.loans, terminator.span),
        large_visited.loans,
        result_loans(body, terminator.kind, large_visited.loans, terminator.span),
    );
}

/// Whether an entry knows every loan and every move of a state.
spec fn knows(entry: Option<Entry>, track: Track) -> bool {
    match entry {
        Some(entry) => included(track.loans, entry.loans) && included(track.moved, entry.moved),
        None => false,
    }
}

/// Whether the analysis keeps to the blocks of the body, and only plans to visit such as it knows
/// something of.
spec fn is_well_kept(body: &Body, run: Run) -> bool {
    &&& run.entries.len() == body.blocks@.len()
    &&& body.blocks@.len() > 0 ==> run.entries[0] is Some
    &&& forall|index: int|
        0 <= index < run.work.len() ==> (#[trigger] run.work[index]) < body.blocks@.len()
            && run.entries[run.work[index] as int] is Some
}

/// Whether a block was visited with what is known on entry to it now, where certain things had
/// been found before: the blocks behind it know what is known at its end, and what is wrong in it
/// was found.
spec fn is_visited_after(
    strict: bool,
    body: &Body,
    facts: &OwnershipFacts,
    run: Run,
    block: usize,
    before: Seq<Diagnostic>,
) -> bool {
    match run.entries[block as int] {
        Some(entry) => {
            let track = block_checked(body, facts, block as nat, entered(entry, before));
            let targets = successors(body.blocks@[block as int].terminator.kind);
            &&& is_settled(strict, run.diagnostics) ==> is_settled(
                strict,
                track.diagnostics,
            )
            &&& forall|index: int|
                0 <= index < targets.len() && (#[trigger] targets[index]).0 < run.entries.len()
                    ==> knows(run.entries[targets[index].0 as int], track)
        },
        None => false,
    }
}

/// Whether every block of which something is known was visited with it, unless a visit is planned.
spec fn is_consistent(strict: bool, body: &Body, facts: &OwnershipFacts, run: Run) -> bool {
    forall|block: usize|
        block < run.entries.len() && (#[trigger] run.entries[block as int]) is Some
            && !run.work.contains(block) ==> exists|before: Seq<Diagnostic>|
            is_visited_after(strict, body, facts, run, block, before)
}

proof fn lemma_merged(
    body: &Body,
    run: Run,
    out: Entry,
    targets: Seq<BasicBlockId>,
    from: nat,
)
    requires
        is_well_kept(body, run),
    ensures
        is_well_kept(body, merged(run, out, targets, from)),
        merged(run, out, targets, from).diagnostics == run.diagnostics,
        forall|block: usize| #[trigger]
            run.work.contains(block) ==> merged(run, out, targets, from).work.contains(block),
        forall|block: int|
            0 <= block < run.entries.len() ==> ((#[trigger] run.entries[block]) matches Some(entry)
                ==> knows(
                merged(run, out, targets, from).entries[block],
                entered(entry, Seq::empty()),
            )),
        forall|block: usize|
            block < run.entries.len() && #[trigger] merged(
                run,
                out,
                targets,
                from,
            ).entries[block as int] != run.entries[block as int] ==> merged(
                run,
                out,
                targets,
                from,
            ).work.contains(block),
        forall|index: int|
            from <= index < targets.len() && (#[trigger] targets[index]).0 < run.entries.len()
                ==> knows(
                merged(run, out, targets, from).entries[targets[index].0 as int],
                entered(out, Seq::empty()),
            ),
    decreases targets.len() - from,
{
    let all = merged(run, out, targets, from);
    if from < targets.len() {
        let target = targets[from as int].0;
        if target < run.entries.len() {
            let old_entry = run.entries[target as int];
            let known = match old_entry {
                Some(entry) => Entry {
                    loans: united(entry.loans, out.loans),
                    moved: united(entry.moved, out.moved),
                },
                None => out,
            };
            let changed = match old_entry {
                Some(entry) => known.loans.len() != entry.loans.len() || known.moved.len()
                    != entry.moved.len(),
                None => true,
            };
            let next = Run {
                entries: run.entries.update(target as int, Some(known)),
                work: if changed {
                    run.work.push(target)
                } else {
                    run.work
                },
                ..run
            };
            match old_entry {
                Some(entry) => {
                    lemma_united_includes(entry.loans, out.loans);
                    lemma_united_includes(entry.moved, out.moved);
                    united_grows_with_news(entry.loans, out.loans);
                    united_grows_with_news(entry.moved, out.moved);
                },
                None => {},
            }
            assert(is_well_kept(body, next));
            lemma_merged(body, next, out, targets, from + 1);
            assert forall|block: usize| #[trigger] run.work.contains(
                block,
            ) implies all.work.contains(
                block,
            ) by {
                lemma_push_contains(run.work, target, block);
                assert(next.work.contains(block));
            }
            assert forall|block: int| 0 <= block < run.entries.len() implies ((
            #[trigger] run.entries[block]) matches Some(entry) ==> knows(
                all.entries[block],
                entered(entry, Seq::empty()),
            )) by {
                match run.entries[block] {
                    Some(entry) => {
                        let kept = next.entries[block]->0;
                        assert(next.entries[block] == Some(kept));
                        assert(included(entry.loans, kept.loans));
                        assert(included(entry.moved, kept.moved));
                        assert(knows(all.entries[block], entered(kept, Seq::empty())));
                    },
                    None => {},
                }
            }
            assert forall|block: usize|
                block < run.entries.len() && #[trigger] all.entries[block as int]
                    != run.entries[block as int] implies all.work.contains(block) by {
                if block == target && changed {
                    lemma_push_contains(run.work, target, target);
                    assert(next.work.contains(target));
                } else {
                    assert(next.entries[block as int] == run.entries[block as int]);
                    assert(all.entries[block as int] != next.entries[block as int]);
                }
            }
            assert(next.entries[target as int] == Some(known));
            assert forall|index: int|
                from <= index < targets.len() && (#[trigger] targets[index]).0
                    < run.entries.len() implies knows(
                all.entries[targets[index].0 as int],
                entered(out, Seq::empty()),
            ) by {
                if index == from {
                    assert(knows(all.entries[target as int], entered(known, Seq::empty())));
                    assert(included(out.loans, known.loans));
                    assert(included(out.moved, known.moved));
                } else {
                    assert(targets[index].0 < next.entries.len());
                }
            }
        } else {
            lemma_merged(body, run, out, targets, from + 1);
        }
    }
}

proof fn lemma_advanced_consistent(strict: bool, body: &Body, facts: &OwnershipFacts, run: Run)
    requires
        is_well_kept(body, run),
        is_consistent(strict, body, facts, run),
        run.work.len() > 0,
    ensures
        is_well_kept(body, advanced(body, facts, run)),
        is_consistent(strict, body, facts, advanced(body, facts, run)),
{
    reveal_with_fuel(advanced, 2);
    let visited = run.work[0];
    assert(run.entries[run.work[0] as int] is Some);
    let entry = run.entries[visited as int]->0;
    let track = block_checked(body, facts, visited as nat, entered(entry, run.diagnostics));
    let out = Entry { loans: track.loans, moved: track.moved };
    let targets = successors(body.blocks@[visited as int].terminator.kind);
    let middle = Run {
        entries: run.entries,
        work: run.work.drop_first(),
        diagnostics: track.diagnostics,
    };
    assert forall|index: int| 0 <= index < middle.work.len() implies (#[trigger] middle.work[index])
        < body.blocks@.len() && middle.entries[middle.work[index] as int] is Some by {
        assert(middle.work[index] == run.work[index + 1]);
    }
    lemma_merged(body, middle, out, targets, 0);
    let after = advanced(body, facts, run);
    assert(after == merged(middle, out, targets, 0));
    if is_settled(strict, after.diagnostics) {
        lemma_block_below(
            strict,
            body,
            facts,
            visited as nat,
            Track { loans: Seq::empty(), moved: Seq::empty(), diagnostics: Seq::empty() },
            entered(entry, run.diagnostics),
        );
    }
    assert forall|block: usize|
        block < after.entries.len() && (#[trigger] after.entries[block as int]) is Some
            && !after.work.contains(block) implies exists|before: Seq<Diagnostic>|
        is_visited_after(strict, body, facts, after, block, before) by {
        assert(after.entries[block as int] == middle.entries[block as int]);
        if block == visited {
            assert(is_visited_after(strict, body, facts, after, block, run.diagnostics));
        } else {
            assert(!middle.work.contains(block));
            assert(!run.work.contains(block)) by {
                if run.work.contains(block) {
                    let index = choose|index: int|
                        0 <= index < run.work.len() && run.work[index] == block;
                    assert(index != 0);
                    assert(middle.work[index - 1] == block);
                }
            }
            assert(run.entries[block as int] is Some);
            let before = choose|before: Seq<Diagnostic>|
                is_visited_after(strict, body, facts, run, block, before);
            let own = block_checked(
                body,
                facts,
                block as nat,
                entered(run.entries[block as int]->0, before),
            );
            let own_targets = successors(body.blocks@[block as int].terminator.kind);
            assert forall|index: int|
                0 <= index < own_targets.len() && (#[trigger] own_targets[index]).0
                    < after.entries.len() implies knows(
                after.entries[own_targets[index].0 as int],
                own,
            ) by {
                let target = own_targets[index].0 as int;
                assert(knows(run.entries[target], own));
                assert(middle.entries[target] is Some);
            }
            assert(is_visited_after(strict, body, facts, after, block, before));
        }
    }
}

proof fn lemma_run_consistent(strict: bool, body: &Body, facts: &OwnershipFacts, visits: nat)
    ensures
        is_well_kept(body, run_for(body, facts, visits)),
        is_consistent(strict, body, facts, run_for(body, facts, visits)),
        run_within(body, run_for(body, facts, visits)),
        run_for(body, facts, visits).work.len() == 0 || visits + potential(
            body,
            run_for(body, facts, visits),
        ) <= potential(body, initial(body)),
    decreases visits,
{
    reveal_with_fuel(run_for, 2);
    lemma_initial_within(body);
    if visits == 0 {
        let run = initial(body);
        assert forall|block: usize|
            block < run.entries.len() && (#[trigger] run.entries[block as int]) is Some
                && !run.work.contains(block) implies exists|before: Seq<Diagnostic>|
            is_visited_after(strict, body, facts, run, block, before) by {
            assert(block == 0);
            assert(run.work[0] == 0);
        }
    } else {
        let before = run_for(body, facts, (visits - 1) as nat);
        lemma_run_consistent(strict, body, facts, (visits - 1) as nat);
        if before.work.len() == 0 {
            reveal_with_fuel(advanced, 2);
            assert(run_for(body, facts, visits) == before);
        } else {
            lemma_advanced_consistent(strict, body, facts, before);
            lemma_advance(body, facts, before);
        }
    }
}

/// The analysis ends: after as many visits as there was to learn, no block is left to visit.
pub proof fn analysis_ends(body: &Body, facts: &OwnershipFacts)
    ensures
        run_for(body, facts, potential(body, initial(body))).work.len() == 0,
{
    lemma_run_consistent(true, body, facts, potential(body, initial(body)));
}

/// Whether the blocks behind a block know what is known at its end.
spec fn is_passed_on(body: &Body, run: Run, block: usize, track: Track) -> bool {
    let targets = successors(body.blocks@[block as int].terminator.kind);
    forall|index: int|
        0 <= index < targets.len() && (#[trigger] targets[index]).0 < run.entries.len() ==> knows(
            run.entries[targets[index].0 as int],
            track,
        )
}

#[verifier::rlimit(60)]
proof fn lemma_path_is_covered(
    strict: bool,
    body: &Body,
    facts: &OwnershipFacts,
    run: Run,
    path: Seq<usize>,
)
    requires
        is_path(body, path),
        is_well_kept(body, run),
        is_consistent(strict, body, facts, run),
        run.work.len() == 0,
        is_settled(strict, run.diagnostics),
        strict ==> run == run_for(body, facts, potential(body, initial(body))) && is_told_at(
            body,
            facts,
            path.last(),
        ),
    ensures
        run.entries[path.last() as int] is Some,
        knows(run.entries[path.last() as int], along(body, facts, path.drop_last())),
        is_settled(strict, along(body, facts, path.drop_last()).diagnostics),
        is_settled(strict, along(body, facts, path).diagnostics),
        is_passed_on(body, run, path.last(), along(body, facts, path)),
    decreases path.len(),
{
    let last = path.last();
    let shorter = path.drop_last();
    assert(path[path.len() - 1] < body.blocks@.len());
    if path.len() > 1 {
        assert(is_path(body, shorter)) by {
            assert forall|index: int| 0 <= index < shorter.len() implies #[trigger] shorter[index]
                < body.blocks@.len() by {
                assert(path[index] < body.blocks@.len());
            }
            assert forall|index: int| 0 <= index < shorter.len() - 1 implies leads_to(
                body,
                #[trigger] shorter[index],
                shorter[index + 1],
            ) by {
                assert(leads_to(body, path[index], path[index + 1]));
            }
        }
        assert(leads_to(body, path[path.len() - 2], path[path.len() - 2 + 1]));
        assert(shorter.last() == path[path.len() - 2]);
        lemma_path_is_covered(strict, body, facts, run, shorter);
        let targets = successors(body.blocks@[shorter.last() as int].terminator.kind);
        let index = choose|index: int|
            0 <= index < targets.len() && targets[index] == BasicBlockId(last);
        assert(targets[index].0 < run.entries.len());
    } else {
        assert(last == 0);
        assert(shorter =~= Seq::empty());
        assert(along(body, facts, shorter).loans =~= Seq::empty());
    }
    assert(run.entries[last as int] is Some);
    let before = choose|before: Seq<Diagnostic>|
        is_visited_after(strict, body, facts, run, last, before);
    let entry = run.entries[last as int]->0;
    let nothing = Track { loans: Seq::empty(), moved: Seq::empty(), diagnostics: Seq::empty() };
    lemma_block_below(strict, body, facts, last as nat, nothing, entered(entry, before));
    if strict {
        assert(before =~= Seq::empty());
    }
    lemma_block_below(
        strict,
        body,
        facts,
        last as nat,
        along(body, facts, shorter),
        entered(entry, before),
    );
    let track = block_checked(body, facts, last as nat, entered(entry, before));
    let targets = successors(body.blocks@[last as int].terminator.kind);
    assert forall|index: int|
        0 <= index < targets.len() && (#[trigger] targets[index]).0
            < run.entries.len() implies knows(
        run.entries[targets[index].0 as int],
        along(body, facts, path),
    ) by {
        assert(knows(run.entries[targets[index].0 as int], track));
    }
}

/// Where the analysis of a body finds nothing, no way through the body uses or moves what it has
/// moved away, reads or writes what it has borrowed, borrows what conflicts with a loan, moves a
/// part out of a value with a destructor, or waits while storage of the body is borrowed.
///
/// A loan lasts on a way up to the last mention of the local that holds it, in the order in which
/// the blocks and statements of the body stand. A use of that local which a loop comes back to, and
/// which stands earlier in the body, is therefore not covered.
///
/// Of references to local storage that are returned nothing is said either: of the loans that a
/// returned local holds, the analysis looks at the first one it came to know.
pub proof fn unreported_ways_are_safe(body: &Body, facts: &OwnershipFacts, path: Seq<usize>)
    requires
        is_path(body, path),
        analysis_of(body, facts).len() == 0,
    ensures
        only_returned_references(along(body, facts, path).diagnostics),
{
    reveal_with_fuel(analysis_of, 2);
    let visits = potential(body, initial(body));
    let run = run_for(body, facts, visits);
    arranged_is_in_order(run.diagnostics);
    if run.diagnostics.len() > 0 {
        assert(is_said_in(run.diagnostics[0], arranged(run.diagnostics)));
    }
    lemma_run_consistent(false, body, facts, visits);
    lemma_path_is_covered(false, body, facts, run, path);
}

/// Where the analysis of a body finds nothing, no way through the body returns a reference to
/// storage that ends with it either, if the first of the loans that the analysis knows of the
/// returned local is on such storage whenever one of them is.
pub proof fn unreported_ways_return_no_local_storage(
    body: &Body,
    facts: &OwnershipFacts,
    path: Seq<usize>,
)
    requires
        is_path(body, path),
        analysis_of(body, facts).len() == 0,
        is_told_at(body, facts, path.last()),
    ensures
        along(body, facts, path).diagnostics.len() == 0,
{
    reveal_with_fuel(analysis_of, 2);
    let visits = potential(body, initial(body));
    let run = run_for(body, facts, visits);
    arranged_is_in_order(run.diagnostics);
    if run.diagnostics.len() > 0 {
        assert(is_said_in(run.diagnostics[0], arranged(run.diagnostics)));
    }
    lemma_run_consistent(true, body, facts, visits);
    lemma_path_is_covered(true, body, facts, run, path);
}

/// A body on which nothing is reported is valid, and every way through it is safe in all
/// that does not concern references that are returned.
pub proof fn accepted_bodies_are_safe(
    body: &Body,
    errors: Seq<ValidationError>,
    facts: &OwnershipFacts,
    path: Seq<usize>,
)
    requires
        ownership_findings(body, errors, facts).len() == 0,
        is_path(body, path),
    ensures
        errors.len() == 0,
        only_returned_references(along(body, facts, path).diagnostics),
{
    unreported_ways_are_safe(body, facts, path);
}

} // verus!
