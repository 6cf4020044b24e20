//! The order of findings is that of their texts.

use vstd::prelude::*;

use crate::diagnostics::{Diagnostic, Finding};
use crate::names::Names;
use crate::text::comes_before;

verus! {

/// Whether a finding is one that the analysis of a body reports.
pub open spec fn is_of_analysis(finding: Finding) -> bool {
    match finding {
        Finding::BorrowAcrossSuspend
        | Finding::ConflictingBorrow
        | Finding::PartialMoveFromDropType
        | Finding::ReadDuringMutableBorrow
        | Finding::ReturnedLocalReference
        | Finding::MoveAfterMove
        | Finding::UseAfterMove
        | Finding::WriteDuringBorrow => true,
        _ => false,
    }
}

/// Whether the texts of a diagnostic come before those of another: by the condition, and then by
/// the message.
pub open spec fn texts_come_before(left: &Diagnostic, right: &Diagnostic, names: &Names) -> bool {
    comes_before(left.finding.condition()@, right.finding.condition()@, 0) || (
    left.finding.condition()@ == right.finding.condition()@ && comes_before(
        left.spec_message(names),
        right.spec_message(names),
        0,
    ))
}

proof fn lemma_difference(left: Seq<char>, right: Seq<char>, at: nat, from: nat)
    requires
        from <= at < left.len(),
        at < right.len(),
        forall|index: int| 0 <= index < at ==> left[index] == right[index],
        left[at as int] < right[at as int],
    ensures
        comes_before(left, right, from),
        !comes_before(right, left, from),
    decreases at - from,
{
    if from < at {
        lemma_difference(left, right, at, from + 1);
    }
}

proof fn lemma_not_before_itself(text: Seq<char>, from: nat)
    ensures
        !comes_before(text, text, from),
    decreases text.len() - from,
{
    if from < text.len() {
        lemma_not_before_itself(text, from + 1);
    }
}

/// The first letter in which the conditions of the findings differ.
spec fn letter(finding: Finding) -> char {
    match finding {
        Finding::BorrowAcrossSuspend => 'B',
        Finding::ConflictingBorrow => 'C',
        Finding::PartialMoveFromDropType => 'P',
        Finding::ReadDuringMutableBorrow | Finding::ReturnedLocalReference => 'R',
        Finding::MoveAfterMove | Finding::UseAfterMove => 'U',
        _ => 'W',
    }
}

proof fn lemma_condition(finding: Finding)
    requires
        is_of_analysis(finding),
    ensures
        finding.condition()@.len() > 12,
        finding.condition()@.take(10) == "OWNERSHIP_"@,
        finding.condition()@[10] == letter(finding),
{
    reveal_strlit("OWNERSHIP_");
    reveal_strlit("OWNERSHIP_BORROW_ACROSS_SUSPEND");
    reveal_strlit("OWNERSHIP_CONFLICTING_BORROW");
    reveal_strlit("OWNERSHIP_PARTIAL_MOVE_FROM_DROP_TYPE");
    reveal_strlit("OWNERSHIP_READ_DURING_MUTABLE_BORROW");
    reveal_strlit("OWNERSHIP_RETURNED_LOCAL_REFERENCE");
    reveal_strlit("OWNERSHIP_USE_AFTER_MOVE");
    reveal_strlit("OWNERSHIP_WRITE_DURING_BORROW");
    assert(finding.condition()@.take(10) =~= "OWNERSHIP_"@);
}

proof fn lemma_lower_rank(left: &Diagnostic, right: &Diagnostic, names: &Names)
    requires
        is_of_analysis(left.finding),
        is_of_analysis(right.finding),
        left.finding.rank() < right.finding.rank(),
    ensures
        texts_come_before(left, right, names),
        !texts_come_before(right, left, names),
{
    let first = left.finding.condition()@;
    let second = right.finding.condition()@;
    reveal_strlit("OWNERSHIP_");
    lemma_condition(left.finding);
    lemma_condition(right.finding);
    assert forall|index: int| 0 <= index < 10 implies first[index] == second[index] by {
        assert(first.take(10)[index] == second.take(10)[index]);
    }
    if letter(left.finding) != letter(right.finding) {
        lemma_difference(first, second, 10, 0);
    } else if left.finding == Finding::ReadDuringMutableBorrow {
        reveal_strlit("OWNERSHIP_READ_DURING_MUTABLE_BORROW");
        reveal_strlit("OWNERSHIP_RETURNED_LOCAL_REFERENCE");
        lemma_difference(first, second, 12, 0);
    } else {
        lemma_not_before_itself(first, 0);
        reveal_strlit("cannot move a value that was already moved");
        reveal_strlit("cannot use a value after it was moved");
        lemma_difference(left.spec_message(names), right.spec_message(names), 7, 0);
    }
}

/// Of two findings of the analysis the one with the lower rank is the one whose texts come first.
pub proof fn ranks_follow_texts(left: &Diagnostic, right: &Diagnostic, names: &Names)
    requires
        is_of_analysis(left.finding),
        is_of_analysis(right.finding),
    ensures
        left.finding.rank() < right.finding.rank() <==> texts_come_before(left, right, names),
{
    if left.finding.rank() < right.finding.rank() {
        lemma_lower_rank(left, right, names);
    } else if right.finding.rank() < left.finding.rank() {
        lemma_lower_rank(right, left, names);
    } else {
        assert(left.finding == right.finding);
        lemma_not_before_itself(left.finding.condition()@, 0);
        lemma_not_before_itself(left.spec_message(names), 0);
    }
}

} // verus!
