//! Chains of declarations, each of which leads to the next, in a program with finitely many
//! definitions.

use vstd::prelude::*;
use vstd::set_lib::{lemma_int_range, lemma_len_subset, set_int_range};

use crate::hir::{DeclarationId, Definition, DefinitionData, Program};
use crate::program::definition_from;

verus! {

/// The declaration that a number of steps leads to.
pub open spec fn walked(
    step: spec_fn(DeclarationId) -> Option<DeclarationId>,
    start: DeclarationId,
    count: nat,
) -> Option<DeclarationId>
    decreases count,
{
    if count == 0 {
        Some(start)
    } else {
        match walked(step, start, (count - 1) as nat) {
            Some(id) => step(id),
            None => None,
        }
    }
}

/// Whether the declarations that satisfy a predicate have numbers of their own below a bound.
pub open spec fn is_numbered(
    inside: spec_fn(DeclarationId) -> bool,
    number: spec_fn(DeclarationId) -> int,
    bound: nat,
) -> bool {
    &&& forall|id: DeclarationId| #[trigger] inside(id) ==> 0 <= number(id) < bound
    &&& forall|left: DeclarationId, right: DeclarationId|
        #[trigger] inside(left) && #[trigger] inside(right) && number(left) == number(right)
            ==> left == right
}

/// To go on from where some steps lead is to take more steps.
pub proof fn lemma_walked_on(
    step: spec_fn(DeclarationId) -> Option<DeclarationId>,
    start: DeclarationId,
    first: nat,
    more: nat,
)
    requires
        walked(step, start, first) is Some,
    ensures
        walked(step, start, first + more) == walked(step, walked(step, start, first)->0, more),
    decreases more,
{
    if more > 0 {
        lemma_walked_on(step, start, first, (more - 1) as nat);
        assert(first + more - 1 == first + (more - 1));
    }
}

/// Where many steps lead to a declaration, fewer lead to one.
pub proof fn lemma_walked_before(
    step: spec_fn(DeclarationId) -> Option<DeclarationId>,
    start: DeclarationId,
    count: nat,
    fewer: nat,
)
    requires
        walked(step, start, count) is Some,
        fewer <= count,
    ensures
        walked(step, start, fewer) is Some,
    decreases count,
{
    if fewer < count {
        lemma_walked_before(step, start, (count - 1) as nat, fewer);
    }
}

proof fn lemma_pigeonhole(items: Seq<int>, bound: nat)
    requires
        items.len() > bound,
        forall|index: int| 0 <= index < items.len() ==> 0 <= #[trigger] items[index] < bound,
    ensures
        exists|first: int, second: int|
            0 <= first < second < items.len() && #[trigger] items[first] == #[trigger] items[second],
{
    if items.no_duplicates() {
        items.unique_seq_to_set();
        lemma_int_range(0, bound as int);
        assert forall|item: int| items.to_set().contains(item) implies set_int_range(
            0,
            bound as int,
        ).contains(item) by {
            let index = choose|index: int| 0 <= index < items.len() && items[index] == item;
            assert(0 <= items[index] < bound);
        }
        lemma_len_subset(items.to_set(), set_int_range(0, bound as int));
    } else {
        let (first, second) = choose|first: int, second: int|
            0 <= first < items.len() && 0 <= second < items.len() && first != second
                && items[first] == items[second];
        if first < second {
            assert(items[first] == items[second]);
        } else {
            assert(items[second] == items[first]);
        }
    }
}

/// On a way that is longer than there are declarations, one comes twice.
pub proof fn lemma_repeats(
    step: spec_fn(DeclarationId) -> Option<DeclarationId>,
    inside: spec_fn(DeclarationId) -> bool,
    number: spec_fn(DeclarationId) -> int,
    bound: nat,
    start: DeclarationId,
    count: nat,
) -> (found: (nat, nat))
    requires
        is_numbered(inside, number, bound),
        count > bound,
        forall|index: nat|
            index < count ==> (#[trigger] walked(step, start, index)) is Some && inside(
                walked(step, start, index)->0,
            ),
    ensures
        found.0 < found.1 < count,
        walked(step, start, found.0) == walked(step, start, found.1),
{
    let items = Seq::new(count, |index: int| number(walked(step, start, index as nat)->0));
    assert forall|index: int| 0 <= index < items.len() implies 0 <= #[trigger] items[index]
        < bound by {
        assert(walked(step, start, index as nat) is Some);
        assert(inside(walked(step, start, index as nat)->0));
    }
    lemma_pigeonhole(items, bound);
    let (first, second) = choose|first: int, second: int|
        0 <= first < second < items.len() && #[trigger] items[first] == #[trigger] items[second];
    assert(walked(step, start, first as nat) is Some);
    assert(walked(step, start, second as nat) is Some);
    assert(inside(walked(step, start, first as nat)->0));
    assert(inside(walked(step, start, second as nat)->0));
    (first as nat, second as nat)
}

/// What can be reached in some steps can be reached in no more steps than there are declarations
/// that lead on.
pub proof fn lemma_reached(
    step: spec_fn(DeclarationId) -> Option<DeclarationId>,
    inside: spec_fn(DeclarationId) -> bool,
    number: spec_fn(DeclarationId) -> int,
    bound: nat,
    start: DeclarationId,
    count: nat,
) -> (fewer: nat)
    requires
        is_numbered(inside, number, bound),
        forall|id: DeclarationId| (#[trigger] step(id)) is Some ==> inside(id),
        count > 0,
        walked(step, start, count) is Some,
    ensures
        0 < fewer <= bound,
        walked(step, start, fewer) == walked(step, start, count),
    decreases count,
{
    if count <= bound {
        count
    } else {
        assert forall|index: nat| index < count implies (#[trigger] walked(step, start, index))
            is Some && inside(walked(step, start, index)->0) by {
            lemma_walked_before(step, start, count, index);
            lemma_walked_before(step, start, count, index + 1);
            assert(step(walked(step, start, index)->0) is Some);
        }
        let (first, second) = lemma_repeats(step, inside, number, bound, start, count);
        let more = (count - second) as nat;
        lemma_walked_on(step, start, first, more);
        lemma_walked_on(step, start, second, more);
        assert(second + more == count);
        lemma_reached(step, inside, number, bound, start, first + more)
    }
}

/// The position of a definition of a declaration.
pub open spec fn defined_at(program: &Program, id: DeclarationId) -> int {
    choose|index: int|
        0 <= index < program.definitions@.len() && program.definitions@[index].declaration == id
}

/// What has a definition stands among the definitions.
pub proof fn lemma_is_defined(definitions: Seq<Definition>, id: DeclarationId, from: nat)
    requires
        definition_from(definitions, id, from) is Some,
    ensures
        exists|index: int|
            0 <= index < definitions.len() && (#[trigger] definitions[index]).declaration == id,
    decreases definitions.len() - from,
{
    if definitions[from as int].declaration != id {
        lemma_is_defined(definitions, id, from + 1);
    }
}

/// The class that a definition extends.
pub open spec fn extended_class(definition: Option<&Definition>) -> Option<DeclarationId> {
    match definition {
        Some(definition) => match definition.data {
            DefinitionData::Class { base, .. } => base,
            _ => None,
        },
        None => None,
    }
}

} // verus!
