//! Loans, moves, and what an access finds of them.

use vstd::prelude::*;

use crate::diagnostics::{report_conflict, Diagnostic, Finding};
use crate::hir::{ReceiverMode, Type};
use crate::list::List;
use crate::mir::{
    operand_place_ref, same_place, BasicBlock, BasicBlockId, Body, BorrowKind, LocalId, Operand,
    Place, Projection, Rvalue, Statement, StatementKind, TerminatorKind,
};
use crate::ownership::places::{
    contains_non_static_borrow, is_used_from, place_contains, places_overlap, used_from, views,
};
use crate::syntax::Span;

verus! {

/// A value that can be compared with another and be copied.
pub trait Distinct: Sized {
    /// Whether two values are the same.
    fn same(&self, other: &Self) -> (r: bool)
        ensures
            r == (*self == *other),
    ;

    /// A copy of the value.
    fn dup(&self) -> (r: Self)
        ensures
            r == *self,
    ;
}

impl Distinct for u32 {
    fn same(&self, other: &Self) -> (r: bool) {
        *self == *other
    }

    fn dup(&self) -> (r: Self) {
        *self
    }
}

/// A borrow that is held by a local.
#[derive(Debug, PartialEq, Eq)]
pub struct Loan {
    pub destination: LocalId,
    pub kind: BorrowKind,
    pub place: Place,
    pub origin: Span,
}

/// A place that was moved away from, and where.
#[derive(Debug, PartialEq, Eq)]
pub struct Moved {
    pub place: Place,
    pub origin: Span,
}

impl Distinct for Loan {
    fn same(&self, other: &Self) -> (r: bool) {
        self.destination == other.destination && self.kind == other.kind && same_place(
            &self.place,
            &other.place,
        ) && self.origin == other.origin
    }

    fn dup(&self) -> (r: Self) {
        Loan {
            destination: self.destination,
            kind: self.kind,
            place: self.place.dup(),
            origin: self.origin,
        }
    }
}

impl Distinct for Moved {
    fn same(&self, other: &Self) -> (r: bool) {
        same_place(&self.place, &other.place) && self.origin == other.origin
    }

    fn dup(&self) -> (r: Self) {
        Moved { place: self.place.dup(), origin: self.origin }
    }
}

/// The sequence with each of the first `count` values behind it that is not yet in it.
pub open spec fn extended<T>(destination: Seq<T>, values: Seq<T>, count: nat) -> Seq<T>
    decreases count,
{
    if count == 0 || count > values.len() {
        destination
    } else {
        let before = extended(destination, values, (count - 1) as nat);
        if before.contains(values[count - 1]) {
            before
        } else {
            before.push(values[count - 1])
        }
    }
}

/// The sequence with each of the values behind it that is not yet in it.
pub open spec fn united<T>(destination: Seq<T>, values: Seq<T>) -> Seq<T> {
    extended(destination, values, values.len())
}

fn holds<T: Distinct>(items: &Vec<T>, item: &T) -> (r: bool)
    ensures
        r == items@.contains(*item),
{
    let mut index: usize = 0;
    while index < items.len()
        invariant
            index <= items.len(),
            forall|other: int| 0 <= other < index ==> items@[other] != *item,
        decreases items.len() - index,
    {
        if items[index].same(item) {
            proof {
                assert(items@[index as int] == *item);
            }
            return true;
        }
        index = index + 1;
    }
    false
}

/// Appends each of the values that is not yet there.
pub fn extend_unique<T: Distinct>(destination: &mut Vec<T>, values: &Vec<T>)
    ensures
        final(destination)@ == united(old(destination)@, values@),
{
    let mut index: usize = 0;
    while index < values.len()
        invariant
            index <= values.len(),
            destination@ == extended(old(destination)@, values@, index as nat),
        decreases values.len() - index,
    {
        if !holds(destination, &values[index]) {
            destination.push(values[index].dup());
        }
        index = index + 1;
    }
}

/// Uniting keeps what was there in front, and holds what either held and nothing else.
pub proof fn united_is_union<T>(destination: Seq<T>, values: Seq<T>)
    ensures
        destination.len() <= united(destination, values).len(),
        united(destination, values).take(destination.len() as int) == destination,
        forall|item: T| #[trigger]
            united(destination, values).contains(item) <==> destination.contains(item)
                || values.contains(item),
{
    lemma_extended(destination, values, values.len());
    assert(values.take(values.len() as int) =~= values);
}

/// Uniting repeats nothing that was not repeated before.
pub proof fn united_repeats_nothing<T>(destination: Seq<T>, values: Seq<T>)
    requires
        destination.no_duplicates(),
    ensures
        united(destination, values).no_duplicates(),
{
    lemma_extended_no_duplicates(destination, values, values.len());
}

/// Uniting with the same values again changes nothing.
pub proof fn united_is_idempotent<T>(destination: Seq<T>, values: Seq<T>)
    ensures
        united(united(destination, values), values) == united(destination, values),
{
    united_is_union(destination, values);
    lemma_extended_within(united(destination, values), values, values.len());
}

/// Uniting makes a sequence longer exactly when it adds something new.
pub proof fn united_grows_with_news<T>(destination: Seq<T>, values: Seq<T>)
    ensures
        united(destination, values).len() != destination.len() <==> exists|index: int|
            0 <= index < values.len() && !destination.contains(#[trigger] values[index]),
        united(destination, values).len() == destination.len() ==> united(destination, values)
            == destination,
{
    united_is_union(destination, values);
    let all = united(destination, values);
    if all.len() == destination.len() {
        assert(all.take(destination.len() as int) =~= all);
        assert forall|index: int| 0 <= index < values.len() implies destination.contains(
            #[trigger] values[index],
        ) by {
            assert(all.contains(values[index]));
        }
    } else {
        let item = all[destination.len() as int];
        if forall|index: int|
            0 <= index < values.len() ==> destination.contains(#[trigger] values[index]) {
            lemma_extended_within(destination, values, values.len());
        }
    }
}

proof fn lemma_extended<T>(destination: Seq<T>, values: Seq<T>, count: nat)
    requires
        count <= values.len(),
    ensures
        destination.len() <= extended(destination, values, count).len(),
        extended(destination, values, count).take(destination.len() as int) == destination,
        forall|item: T| #[trigger]
            extended(destination, values, count).contains(item) <==> destination.contains(item)
                || values.take(count as int).contains(item),
    decreases count,
{
    if count == 0 {
        assert(extended(destination, values, count).take(destination.len() as int)
            =~= destination);
        assert(values.take(0) =~= Seq::empty());
    } else {
        let before = extended(destination, values, (count - 1) as nat);
        let after = extended(destination, values, count);
        let value = values[count - 1];
        lemma_extended(destination, values, (count - 1) as nat);
        assert(after.take(destination.len() as int) =~= before.take(destination.len() as int));
        assert(values.take(count as int) =~= values.take(count - 1).push(value));
        assert forall|item: T| #[trigger]
            after.contains(item) <==> destination.contains(item) || values.take(
                count as int,
            ).contains(item) by {
            lemma_push_holds(before, value, item);
            lemma_push_holds(values.take(count - 1), value, item);
        }
    }
}

proof fn lemma_push_holds<T>(items: Seq<T>, item: T, other: T)
    ensures
        items.push(item).contains(other) <==> items.contains(other) || item == other,
{
    let pushed = items.push(item);
    if items.contains(other) {
        let index = choose|index: int| 0 <= index < items.len() && items[index] == other;
        assert(pushed[index] == other);
    }
    if item == other {
        assert(pushed[items.len() as int] == other);
    }
    if pushed.contains(other) {
        let index = choose|index: int| 0 <= index < pushed.len() && pushed[index] == other;
        if index < items.len() {
            assert(items[index] == other);
        }
    }
}

proof fn lemma_extended_no_duplicates<T>(destination: Seq<T>, values: Seq<T>, count: nat)
    requires
        destination.no_duplicates(),
        count <= values.len(),
    ensures
        extended(destination, values, count).no_duplicates(),
    decreases count,
{
    if count > 0 {
        lemma_extended_no_duplicates(destination, values, (count - 1) as nat);
        let before = extended(destination, values, (count - 1) as nat);
        let after = extended(destination, values, count);
        if after != before {
            assert forall|left: int, right: int|
                0 <= left < after.len() && 0 <= right < after.len() && left
                    != right implies after[left] != after[right] by {
                if left == before.len() {
                    assert(before.contains(before[right]));
                } else if right == before.len() {
                    assert(before.contains(before[left]));
                }
            }
        }
    }
}

proof fn lemma_extended_within<T>(destination: Seq<T>, values: Seq<T>, count: nat)
    requires
        count <= values.len(),
        forall|index: int|
            0 <= index < values.len() ==> destination.contains(#[trigger] values[index]),
    ensures
        extended(destination, values, count) == destination,
    decreases count,
{
    if count > 0 {
        lemma_extended_within(destination, values, (count - 1) as nat);
    }
}

/// Where the first loan from position `from` on that overlaps the place was made; only mutable
/// loans count where `mutable_only` asks for that.
pub open spec fn overlapping_loan(
    loans: Seq<Loan>,
    place: Place,
    mutable_only: bool,
    from: nat,
) -> Option<Span>
    decreases loans.len() - from,
{
    if from >= loans.len() {
        None
    } else if (!mutable_only || loans[from as int].kind == BorrowKind::Mutable) && places_overlap(
        &loans[from as int].place,
        &place,
    ) {
        Some(loans[from as int].origin)
    } else {
        overlapping_loan(loans, place, mutable_only, from + 1)
    }
}

fn find_overlapping_loan(loans: &Vec<Loan>, place: &Place, mutable_only: bool) -> (r: Option<Span>)
    ensures
        r == overlapping_loan(loans@, *place, mutable_only, 0),
{
    let mut index: usize = 0;
    while index < loans.len()
        invariant
            index <= loans.len(),
            overlapping_loan(loans@, *place, mutable_only, 0) == overlapping_loan(
                loans@,
                *place,
                mutable_only,
                index as nat,
            ),
        decreases loans.len() - index,
    {
        let loan = &loans[index];
        if (!mutable_only || loan.kind == BorrowKind::Mutable) && places_overlap(
            &loan.place,
            place,
        ) {
            return Some(loan.origin);
        }
        index = index + 1;
    }
    None
}

/// Where the first move from position `from` on that overlaps the place took place.
pub open spec fn overlapping_move(moved: Seq<Moved>, place: Place, from: nat) -> Option<Span>
    decreases moved.len() - from,
{
    if from >= moved.len() {
        None
    } else if places_overlap(&moved[from as int].place, &place) {
        Some(moved[from as int].origin)
    } else {
        overlapping_move(moved, place, from + 1)
    }
}

fn find_overlapping_move(moved: &Vec<Moved>, place: &Place) -> (r: Option<Span>)
    ensures
        r == overlapping_move(moved@, *place, 0),
{
    let mut index: usize = 0;
    while index < moved.len()
        invariant
            index <= moved.len(),
            overlapping_move(moved@, *place, 0) == overlapping_move(moved@, *place, index as nat),
        decreases moved.len() - index,
    {
        if places_overlap(&moved[index].place, place) {
            return Some(moved[index].origin);
        }
        index = index + 1;
    }
    None
}

/// The diagnostics with a finding at the end, if there is something to conflict with.
pub open spec fn with_conflict(
    diagnostics: Seq<Diagnostic>,
    finding: Finding,
    span: Span,
    origin: Option<Span>,
) -> Seq<Diagnostic> {
    match origin {
        Some(origin) => diagnostics.push(report_conflict(finding, span, origin)),
        None => diagnostics,
    }
}

/// The diagnostics after a check that the place was not moved away from.
pub open spec fn use_checked(
    diagnostics: Seq<Diagnostic>,
    place: Place,
    moving: bool,
    moved: Seq<Moved>,
    span: Span,
) -> Seq<Diagnostic> {
    with_conflict(
        diagnostics,
        if moving {
            Finding::MoveAfterMove
        } else {
            Finding::UseAfterMove
        },
        span,
        overlapping_move(moved, place, 0),
    )
}

/// The diagnostics after a check that the place may be read.
pub open spec fn read_checked(
    diagnostics: Seq<Diagnostic>,
    place: Place,
    loans: Seq<Loan>,
    span: Span,
) -> Seq<Diagnostic> {
    with_conflict(
        diagnostics,
        Finding::ReadDuringMutableBorrow,
        span,
        overlapping_loan(loans, place, true, 0),
    )
}

/// The diagnostics after a check that the place may be written.
pub open spec fn write_checked(
    diagnostics: Seq<Diagnostic>,
    place: Place,
    loans: Seq<Loan>,
    span: Span,
) -> Seq<Diagnostic> {
    with_conflict(
        diagnostics,
        Finding::WriteDuringBorrow,
        span,
        overlapping_loan(loans, place, false, 0),
    )
}

/// Checks that the place was not moved away from.
pub fn check_use(
    place: &Place,
    moving: bool,
    moved: &Vec<Moved>,
    span: Span,
    diagnostics: &mut Vec<Diagnostic>,
)
    ensures
        final(diagnostics)@ == use_checked(old(diagnostics)@, *place, moving, moved@, span),
{
    match find_overlapping_move(moved, place) {
        Some(origin) => {
            let finding = if moving {
                Finding::MoveAfterMove
            } else {
                Finding::UseAfterMove
            };
            diagnostics.push(report_conflict(finding, span, origin));
        },
        None => {},
    }
}

/// Checks that no mutable loan forbids reading the place.
pub fn check_read(place: &Place, loans: &Vec<Loan>, span: Span, diagnostics: &mut Vec<Diagnostic>)
    ensures
        final(diagnostics)@ == read_checked(old(diagnostics)@, *place, loans@, span),
{
    match find_overlapping_loan(loans, place, true) {
        Some(origin) => {
            diagnostics.push(report_conflict(Finding::ReadDuringMutableBorrow, span, origin));
        },
        None => {},
    }
}

/// Checks that no loan forbids writing the place.
pub fn check_write(place: &Place, loans: &Vec<Loan>, span: Span, diagnostics: &mut Vec<Diagnostic>)
    ensures
        final(diagnostics)@ == write_checked(old(diagnostics)@, *place, loans@, span),
{
    match find_overlapping_loan(loans, place, false) {
        Some(origin) => {
            diagnostics.push(report_conflict(Finding::WriteDuringBorrow, span, origin));
        },
        None => {},
    }
}

/// The loans whose holder is still mentioned at or after the point.
pub open spec fn live_loans(loans: Seq<Loan>, points: Seq<Seq<LocalId>>, point: int) -> Seq<Loan> {
    loans.filter(|loan: Loan| used_from(points, loan.destination, point))
}

/// Drops the loans whose holder is not mentioned any more.
pub fn retain_live(loans: &mut Vec<Loan>, points: &Vec<Vec<LocalId>>, point: usize)
    ensures
        final(loans)@ == live_loans(old(loans)@, views(points@), point as int),
{
    let ghost keep = |loan: Loan| used_from(views(points@), loan.destination, point as int);
    let mut kept: Vec<Loan> = Vec::new();
    let mut index: usize = 0;
    proof {
        reveal(Seq::filter);
        assert(loans@.take(0).filter(keep) =~= Seq::empty());
    }
    while index < loans.len()
        invariant
            index <= loans.len(),
            keep == (|loan: Loan| used_from(views(points@), loan.destination, point as int)),
            kept@ == loans@.take(index as int).filter(keep),
        decreases loans.len() - index,
    {
        proof {
            lemma_filter_step(loans@, keep, index as int);
        }
        if is_used_from(points, loans[index].destination, point) {
            kept.push(loans[index].dup());
        }
        index = index + 1;
    }
    proof {
        assert(loans@.take(index as int) =~= loans@);
    }
    *loans = kept;
}

/// Filtering one more element.
pub proof fn lemma_filter_step<T>(items: Seq<T>, keep: spec_fn(T) -> bool, index: int)
    requires
        0 <= index < items.len(),
    ensures
        items.take(index + 1).filter(keep) == if keep(items[index]) {
            items.take(index).filter(keep).push(items[index])
        } else {
            items.take(index).filter(keep)
        },
{
    reveal(Seq::filter);
    assert(items.take(index + 1).drop_last() =~= items.take(index));
}

/// The loans that neither a local holds nor borrow from it.
pub open spec fn loans_without(loans: Seq<Loan>, local: LocalId) -> Seq<Loan> {
    loans.filter(|loan: Loan| loan.destination != local && loan.place.local != local)
}

/// Drops the loans that a local holds and those that borrow from it.
pub fn release_local(loans: &mut Vec<Loan>, local: LocalId)
    ensures
        final(loans)@ == loans_without(old(loans)@, local),
{
    let ghost keep = |loan: Loan| loan.destination != local && loan.place.local != local;
    let mut kept: Vec<Loan> = Vec::new();
    let mut index: usize = 0;
    proof {
        reveal(Seq::filter);
        assert(loans@.take(0).filter(keep) =~= Seq::empty());
    }
    while index < loans.len()
        invariant
            index <= loans.len(),
            keep == (|loan: Loan| loan.destination != local && loan.place.local != local),
            kept@ == loans@.take(index as int).filter(keep),
        decreases loans.len() - index,
    {
        proof {
            lemma_filter_step(loans@, keep, index as int);
        }
        let loan = &loans[index];
        if loan.destination != local && loan.place.local != local {
            kept.push(loan.dup());
        }
        index = index + 1;
    }
    proof {
        assert(loans@.take(index as int) =~= loans@);
    }
    *loans = kept;
}

/// The moves from places that are no part of the given one.
pub open spec fn moves_outside(moved: Seq<Moved>, place: Place) -> Seq<Moved> {
    moved.filter(|other: Moved| !place_contains(&place, &other.place))
}

/// Forgets the moves from parts of a place that gets a new value.
pub fn restore_place(moved: &mut Vec<Moved>, place: &Place)
    ensures
        final(moved)@ == moves_outside(old(moved)@, *place),
{
    let ghost keep = |other: Moved| !place_contains(place, &other.place);
    let mut kept: Vec<Moved> = Vec::new();
    let mut index: usize = 0;
    proof {
        reveal(Seq::filter);
        assert(moved@.take(0).filter(keep) =~= Seq::empty());
    }
    while index < moved.len()
        invariant
            index <= moved.len(),
            keep == (|other: Moved| !place_contains(place, &other.place)),
            kept@ == moved@.take(index as int).filter(keep),
        decreases moved.len() - index,
    {
        proof {
            lemma_filter_step(moved@, keep, index as int);
        }
        if !place_contains(place, &moved[index].place) {
            kept.push(moved[index].dup());
        }
        index = index + 1;
    }
    proof {
        assert(moved@.take(index as int) =~= moved@);
    }
    *moved = kept;
}

/// The moves from places in other locals.
pub open spec fn moves_without(moved: Seq<Moved>, local: LocalId) -> Seq<Moved> {
    moved.filter(|other: Moved| other.place.local != local)
}

/// Forgets the moves from a local whose storage ends.
pub fn forget_local(moved: &mut Vec<Moved>, local: LocalId)
    ensures
        final(moved)@ == moves_without(old(moved)@, local),
{
    let ghost keep = |other: Moved| other.place.local != local;
    let mut kept: Vec<Moved> = Vec::new();
    let mut index: usize = 0;
    proof {
        reveal(Seq::filter);
        assert(moved@.take(0).filter(keep) =~= Seq::empty());
    }
    while index < moved.len()
        invariant
            index <= moved.len(),
            keep == (|other: Moved| other.place.local != local),
            kept@ == moved@.take(index as int).filter(keep),
        decreases moved.len() - index,
    {
        proof {
            lemma_filter_step(moved@, keep, index as int);
        }
        if moved[index].place.local != local {
            kept.push(moved[index].dup());
        }
        index = index + 1;
    }
    proof {
        assert(moved@.take(index as int) =~= moved@);
    }
    *moved = kept;
}

/// The loan that looking up a method takes on the object it is bound to.
#[verifier::allow_in_spec]
pub fn receiver_loan(rvalue: &Rvalue, destination: LocalId, origin: Span) -> (r: Option<Loan>)
    returns
        match rvalue {
            Rvalue::VtableLookup { object, receiver, .. }
            | Rvalue::WitnessLookup { object, receiver, .. }
            | Rvalue::DirectMethod { object, receiver, .. } => match receiver {
                ReceiverMode::Shared => Some(
                    Loan { destination, kind: BorrowKind::Shared, place: *object, origin },
                ),
                ReceiverMode::Mutable => Some(
                    Loan { destination, kind: BorrowKind::Mutable, place: *object, origin },
                ),
                ReceiverMode::Move | ReceiverMode::Static => None,
            },
            _ => None,
        },
{
    let (object, receiver) = match rvalue {
        Rvalue::VtableLookup { object, receiver, .. } => (object, *receiver),
        Rvalue::WitnessLookup { object, receiver, .. } => (object, *receiver),
        Rvalue::DirectMethod { object, receiver, .. } => (object, *receiver),
        _ => {
            return None;
        },
    };
    let kind = match receiver {
        ReceiverMode::Shared => BorrowKind::Shared,
        ReceiverMode::Mutable => BorrowKind::Mutable,
        ReceiverMode::Move => {
            return None;
        },
        ReceiverMode::Static => {
            return None;
        },
    };
    Some(Loan { destination, kind, place: object.dup(), origin })
}

/// Whether an operand reads a local.
#[verifier::allow_in_spec]
pub fn operand_reads(operand: &Operand, local: LocalId) -> (r: bool)
    returns
        match operand_place_ref(operand) {
            Some(place) => place.local == local,
            None => false,
        },
{
    match operand_place_ref(operand) {
        Some(place) => place.local == local,
        None => false,
    }
}

/// Whether one of the operands reads a local.
pub open spec fn some_operand_reads(operands: List<Operand>, local: LocalId) -> bool
    decreases operands,
{
    match operands {
        List::Nil => false,
        List::Cons(head, tail) => operand_reads(&*head, local) || some_operand_reads(*tail, local),
    }
}

fn does_some_operand_read(operands: &List<Operand>, local: LocalId) -> (r: bool)
    ensures
        r == some_operand_reads(*operands, local),
    decreases operands,
{
    match operands {
        List::Nil => false,
        List::Cons(head, tail) => operand_reads(head, local) || does_some_operand_read(tail, local),
    }
}

/// Whether a value carries on what a local holds.
pub open spec fn carries(rvalue: Rvalue, local: LocalId) -> bool {
    match rvalue {
        Rvalue::Use(operand)
        | Rvalue::Unary { operand, .. }
        | Rvalue::Cast { operand, .. }
        | Rvalue::TypeTest { operand, .. } => operand_reads(&operand, local),
        Rvalue::Aggregate { fields, .. } => some_operand_reads(fields, local),
        Rvalue::Template { captures, .. } | Rvalue::Closure { captures, .. } => some_operand_reads(
            captures,
            local,
        ),
        _ => false,
    }
}

fn does_carry(rvalue: &Rvalue, local: LocalId) -> (r: bool)
    ensures
        r == carries(*rvalue, local),
{
    match rvalue {
        Rvalue::Use(operand) => operand_reads(operand, local),
        Rvalue::Unary { operand, .. } => operand_reads(operand, local),
        Rvalue::Cast { operand, .. } => operand_reads(operand, local),
        Rvalue::TypeTest { operand, .. } => operand_reads(operand, local),
        Rvalue::Aggregate { fields, .. } => does_some_operand_read(fields, local),
        Rvalue::Template { captures, .. } => does_some_operand_read(captures, local),
        Rvalue::Closure { captures, .. } => does_some_operand_read(captures, local),
        _ => false,
    }
}

/// The loans that a value brings to the local it is stored in.
pub open spec fn transferred(rvalue: Rvalue, destination: LocalId, loans: Seq<Loan>) -> Seq<Loan> {
    loans.filter(|loan: Loan| carries(rvalue, loan.destination)).map_values(
        |loan: Loan| (Loan { destination, ..loan }),
    )
}

/// The loans that a value brings to the local it is stored in.
pub fn transferred_loans(rvalue: &Rvalue, destination: LocalId, loans: &Vec<Loan>) -> (r: Vec<Loan>)
    ensures
        r@ == transferred(*rvalue, destination, loans@),
{
    let ghost keep = |loan: Loan| carries(*rvalue, loan.destination);
    let ghost rename = |loan: Loan| (Loan { destination, ..loan });
    let mut result: Vec<Loan> = Vec::new();
    let mut index: usize = 0;
    proof {
        reveal(Seq::filter);
        assert(loans@.take(0).filter(keep).map_values(rename) =~= Seq::empty());
    }
    while index < loans.len()
        invariant
            index <= loans.len(),
            keep == (|loan: Loan| carries(*rvalue, loan.destination)),
            rename == (|loan: Loan| (Loan { destination, ..loan })),
            result@ == loans@.take(index as int).filter(keep).map_values(rename),
        decreases loans.len() - index,
    {
        proof {
            lemma_filter_step(loans@, keep, index as int);
        }
        let loan = &loans[index];
        if does_carry(rvalue, loan.destination) {
            result.push(
                Loan { destination, kind: loan.kind, place: loan.place.dup(), origin: loan.origin },
            );
        }
        index = index + 1;
        proof {
            assert(result@ =~= loans@.take(index as int).filter(keep).map_values(rename));
        }
    }
    proof {
        assert(loans@.take(index as int) =~= loans@);
    }
    result
}

/// The loans that an argument hands to the result of a call.
pub open spec fn argument_loans(
    argument: Operand,
    destination: LocalId,
    loans: Seq<Loan>,
    origin: Span,
) -> Seq<Loan> {
    loans.filter(|loan: Loan| operand_reads(&argument, loan.destination)).map_values(
        |loan: Loan| (Loan { destination, origin, ..loan }),
    )
}

/// The loans that the arguments hand to the result of a call.
pub open spec fn arguments_loans(
    arguments: List<Operand>,
    destination: LocalId,
    loans: Seq<Loan>,
    origin: Span,
) -> Seq<Loan>
    decreases arguments,
{
    match arguments {
        List::Nil => Seq::empty(),
        List::Cons(head, tail) => argument_loans(*head, destination, loans, origin)
            + arguments_loans(*tail, destination, loans, origin),
    }
}

/// The loans that the result of a call holds: those of its receiver and its arguments, where the
/// type of the result can hold a borrow.
pub open spec fn result_loans(
    body: &Body,
    terminator: TerminatorKind,
    loans: Seq<Loan>,
    origin: Span,
) -> Seq<Loan> {
    match terminator {
        TerminatorKind::Call { receiver, arguments, destination: Some(destination), .. } =>
            if destination.local.0
            < body.locals@.len() && contains_non_static_borrow(
            &body.locals@[destination.local.0 as int].ty,
        ) {
            (match receiver {
                Some(receiver) => argument_loans(receiver, destination.local, loans, origin),
                None => Seq::empty(),
            }) + arguments_loans(arguments, destination.local, loans, origin)
        } else {
            Seq::empty()
        },
        _ => Seq::empty(),
    }
}

fn add_argument_loans(
    argument: &Operand,
    destination: LocalId,
    loans: &Vec<Loan>,
    origin: Span,
    result: &mut Vec<Loan>,
)
    ensures
        final(result)@ == old(result)@ + argument_loans(*argument, destination, loans@, origin),
{
    let ghost keep = |loan: Loan| operand_reads(argument, loan.destination);
    let ghost rename = |loan: Loan| (Loan { destination, origin, ..loan });
    let mut index: usize = 0;
    proof {
        reveal(Seq::filter);
        assert(loans@.take(0).filter(keep).map_values(rename) =~= Seq::empty());
        assert(result@ =~= old(result)@ + loans@.take(0).filter(keep).map_values(rename));
    }
    while index < loans.len()
        invariant
            index <= loans.len(),
            keep == (|loan: Loan| operand_reads(argument, loan.destination)),
            rename == (|loan: Loan| (Loan { destination, origin, ..loan })),
            result@ == old(result)@ + loans@.take(index as int).filter(keep).map_values(rename),
        decreases loans.len() - index,
    {
        proof {
            lemma_filter_step(loans@, keep, index as int);
        }
        let loan = &loans[index];
        if operand_reads(argument, loan.destination) {
            result.push(Loan { destination, kind: loan.kind, place: loan.place.dup(), origin });
        }
        index = index + 1;
        proof {
            assert(result@ =~= old(result)@ + loans@.take(index as int).filter(keep).map_values(
                rename,
            ));
        }
    }
    proof {
        assert(loans@.take(index as int) =~= loans@);
    }
}

fn add_arguments_loans(
    arguments: &List<Operand>,
    destination: LocalId,
    loans: &Vec<Loan>,
    origin: Span,
    result: &mut Vec<Loan>,
)
    ensures
        final(result)@ == old(result)@ + arguments_loans(*arguments, destination, loans@, origin),
    decreases arguments,
{
    match arguments {
        List::Nil => {},
        List::Cons(head, tail) => {
            add_argument_loans(head, destination, loans, origin, result);
            add_arguments_loans(tail, destination, loans, origin, result);
        },
    }
    proof {
        assert(result@ =~= old(result)@ + arguments_loans(*arguments, destination, loans@, origin));
    }
}

/// The loans that the result of a call holds.
pub fn call_result_loans(
    body: &Body,
    terminator: &TerminatorKind,
    loans: &Vec<Loan>,
    origin: Span,
) -> (r: Vec<Loan>)
    ensures
        r@ == result_loans(body, *terminator, loans@, origin),
{
    let mut result: Vec<Loan> = Vec::new();
    match terminator {
        TerminatorKind::Call { receiver, arguments, destination: Some(destination), .. } => {
            if destination.local.0 < body.locals.len() && contains_non_static_borrow(
                &body.locals[destination.local.0].ty,
            ) {
                match receiver {
                    Some(receiver) => {
                        add_argument_loans(
                            receiver,
                            destination.local,
                            loans,
                            origin,
                            &mut result,
                        );
                    },
                    None => {},
                }
                add_arguments_loans(arguments, destination.local, loans, origin, &mut result);
            }
        },
        _ => {},
    }
    proof {
        assert(result@ =~= result_loans(body, *terminator, loans@, origin));
    }
    result
}

/// The blocks that the targets of a switch lead to.
pub open spec fn target_blocks(targets: List<crate::mir::SwitchTarget>) -> Seq<BasicBlockId>
    decreases targets,
{
    match targets {
        List::Nil => Seq::empty(),
        List::Cons(head, tail) => seq![head.block] + target_blocks(*tail),
    }
}

/// The blocks that control can go to from a terminator.
pub open spec fn successors(terminator: TerminatorKind) -> Seq<BasicBlockId> {
    match terminator {
        TerminatorKind::Goto(target) => seq![target],
        TerminatorKind::Switch { targets, otherwise, .. } => target_blocks(targets).push(otherwise),
        TerminatorKind::Call { success, error, .. } => match error {
            Some(error) => seq![success, error],
            None => seq![success],
        },
        TerminatorKind::Suspend { resume, error, cancel, .. } => match error {
            Some(error) => seq![resume, error, cancel],
            None => seq![resume, cancel],
        },
        TerminatorKind::Drop { success, .. } => seq![success],
        _ => Seq::empty(),
    }
}

fn add_target_blocks(targets: &List<crate::mir::SwitchTarget>, blocks: &mut Vec<BasicBlockId>)
    ensures
        final(blocks)@ == old(blocks)@ + target_blocks(*targets),
    decreases targets,
{
    match targets {
        List::Nil => {},
        List::Cons(head, tail) => {
            blocks.push(head.block);
            add_target_blocks(tail, blocks);
        },
    }
    proof {
        assert(blocks@ =~= old(blocks)@ + target_blocks(*targets));
    }
}

/// The blocks that control can go to from a terminator.
pub fn ownership_successors(terminator: &TerminatorKind) -> (r: Vec<BasicBlockId>)
    ensures
        r@ == successors(*terminator),
{
    let mut blocks: Vec<BasicBlockId> = Vec::new();
    match terminator {
        TerminatorKind::Goto(target) => blocks.push(*target),
        TerminatorKind::Switch { targets, otherwise, .. } => {
            add_target_blocks(targets, &mut blocks);
            blocks.push(*otherwise);
        },
        TerminatorKind::Call { success, error, .. } => {
            blocks.push(*success);
            match error {
                Some(error) => blocks.push(*error),
                None => {},
            }
        },
        TerminatorKind::Suspend { resume, error, cancel, .. } => {
            blocks.push(*resume);
            match error {
                Some(error) => blocks.push(*error),
                None => {},
            }
            blocks.push(*cancel);
        },
        TerminatorKind::Drop { success, .. } => blocks.push(*success),
        _ => {},
    }
    proof {
        assert(blocks@ =~= successors(*terminator));
    }
    blocks
}

/// The type of the local that a place lies in.
#[verifier::allow_in_spec]
pub fn place_root_type<'a>(body: &'a Body, place: &Place) -> (r: Option<&'a Type>)
    returns
        if place.local.0 < body.locals@.len() {
            Some(&body.locals@[place.local.0 as int].ty)
        } else {
            None
        },
{
    if place.local.0 < body.locals.len() {
        Some(&body.locals[place.local.0].ty)
    } else {
        None
    }
}

/// Whether a place is the payload of an optional local.
#[verifier::allow_in_spec]
pub fn is_optional_payload_move(body: &Body, place: &Place) -> (r: bool)
    returns
        (match place.projection {
            List::Cons(step, rest) => *step == Projection::Downcast(1) && *rest is Nil,
            List::Nil => false,
        }) && (match place_root_type(body, place) {
            Some(ty) => *ty is Optional,
            None => false,
        }),
{
    let payload = match &place.projection {
        List::Cons(step, rest) => match &**step {
            Projection::Downcast(variant) => *variant == 1 && rest.is_empty(),
            _ => false,
        },
        List::Nil => false,
    };
    let optional = match place_root_type(body, place) {
        Some(ty) => matches!(ty, Type::Optional(_)),
        None => false,
    };
    payload && optional
}

/// The object that a statement binds a method to, if it looks one up for the local.
pub open spec fn bound_by<'a>(statement: &'a Statement, local: LocalId) -> Option<&'a Place> {
    match &statement.kind {
        StatementKind::Assign(destination, rvalue) => if destination.local == local
            && destination.is_whole() {
            match rvalue {
                Rvalue::VtableLookup { object, .. }
                | Rvalue::WitnessLookup { object, .. }
                | Rvalue::DirectMethod { object, .. } => Some(object),
                _ => None,
            }
        } else {
            None
        },
        _ => None,
    }
}

/// The object that the last of the first `count` statements that looks up a method binds it to.
pub open spec fn bound_in_statements<'a>(
    statements: Seq<Statement>,
    local: LocalId,
    count: nat,
) -> Option<&'a Place>
    decreases count,
{
    if count == 0 || count > statements.len() {
        None
    } else {
        match bound_by(&statements[count - 1], local) {
            Some(object) => Some(object),
            None => bound_in_statements(statements, local, (count - 1) as nat),
        }
    }
}

/// The object that the last lookup in the first `count` blocks binds a method to.
pub open spec fn bound_in_blocks<'a>(blocks: Seq<BasicBlock>, local: LocalId, count: nat) -> Option<
    &'a Place,
>
    decreases count,
{
    if count == 0 || count > blocks.len() {
        None
    } else {
        match bound_in_statements(
            blocks[count - 1].statements@,
            local,
            blocks[count - 1].statements@.len(),
        ) {
            Some(object) => Some(object),
            None => bound_in_blocks(blocks, local, (count - 1) as nat),
        }
    }
}

fn find_bound_by(statement: &Statement, local: LocalId) -> (r: Option<&Place>)
    ensures
        r == bound_by(statement, local),
{
    match &statement.kind {
        StatementKind::Assign(destination, rvalue) => if destination.local == local
            && destination.is_whole() {
            match rvalue {
                Rvalue::VtableLookup { object, .. } => Some(object),
                Rvalue::WitnessLookup { object, .. } => Some(object),
                Rvalue::DirectMethod { object, .. } => Some(object),
                _ => None,
            }
        } else {
            None
        },
        _ => None,
    }
}

/// The object that the method in a callable local is bound to.
#[verifier::allow_in_spec]
pub fn method_binding_for_function<'a>(body: &'a Body, function: &Operand) -> (r: Option<&'a Place>)
    returns
        match operand_place_ref(function) {
            Some(place) => if place.is_whole() {
                bound_in_blocks(body.blocks@, place.local, body.blocks@.len())
            } else {
                None
            },
            None => None,
        },
{
    let local = match operand_place_ref(function) {
        Some(place) => if place.is_whole() {
            place.local
        } else {
            return None;
        },
        None => {
            return None;
        },
    };
    let mut block_count: usize = body.blocks.len();
    while block_count > 0
        invariant
            block_count <= body.blocks.len(),
            bound_in_blocks(body.blocks@, local, body.blocks@.len()) == bound_in_blocks(
                body.blocks@,
                local,
                block_count as nat,
            ),
            operand_place_ref(function) matches Some(place) && place.local == local
                && place.is_whole(),
        decreases block_count,
    {
        let statements = &body.blocks[block_count - 1].statements;
        let mut count: usize = statements.len();
        while count > 0
            invariant
                count <= statements.len(),
                bound_in_statements(statements@, local, statements@.len()) == bound_in_statements(
                    statements@,
                    local,
                    count as nat,
                ),
                0 < block_count <= body.blocks.len(),
                *statements == body.blocks@[block_count - 1].statements,
                bound_in_blocks(body.blocks@, local, body.blocks@.len()) == bound_in_blocks(
                    body.blocks@,
                    local,
                    block_count as nat,
                ),
                operand_place_ref(function) matches Some(place) && place.local == local
                    && place.is_whole(),
            decreases count,
        {
            match find_bound_by(&statements[count - 1], local) {
                Some(object) => {
                    return Some(object);
                },
                None => {},
            }
            count = count - 1;
        }
        block_count = block_count - 1;
    }
    None
}

} // verus!
