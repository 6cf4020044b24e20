//! Ascending sequences of declarations.

use vstd::prelude::*;

use crate::hir::DeclarationId;
use crate::list::{list_of, List};

verus! {

/// The first position from `from` on whose declaration is not below `id`.
pub open spec fn lower_bound(ids: Seq<DeclarationId>, id: DeclarationId, from: nat) -> nat
    decreases ids.len() - from,
{
    if from >= ids.len() || ids[from as int].0 >= id.0 {
        from
    } else {
        lower_bound(ids, id, from + 1)
    }
}

/// An ascending sequence with `id` at its place, if it is not there yet.
pub open spec fn inserted(ids: Seq<DeclarationId>, id: DeclarationId) -> Seq<DeclarationId> {
    let place = lower_bound(ids, id, 0);
    if place < ids.len() && ids[place as int] == id {
        ids
    } else {
        ids.insert(place as int, id)
    }
}

/// Whether every declaration is below the next.
pub open spec fn ascending(ids: Seq<DeclarationId>) -> bool {
    forall|left: int, right: int|
        0 <= left < right < ids.len() ==> (#[trigger] ids[left]).0 < (#[trigger] ids[right]).0
}

/// Puts `id` at its place in an ascending sequence, if it is not there yet.
pub fn insert_id(ids: &mut Vec<DeclarationId>, id: DeclarationId)
    ensures
        final(ids)@ == inserted(old(ids)@, id),
{
    let mut place: usize = 0;
    while place < ids.len() && ids[place].0 < id.0
        invariant
            place <= ids.len(),
            ids@ == old(ids)@,
            lower_bound(ids@, id, 0) == lower_bound(ids@, id, place as nat),
        decreases ids.len() - place,
    {
        place = place + 1;
    }
    if place < ids.len() && ids[place] == id {
        return;
    }
    proof {
        lemma_lower_bound(ids@, id, 0);
    }
    ids.insert(place, id);
}

/// The place of a declaration lies in the sequence or right behind it, and only smaller ones come
/// before it.
pub proof fn lemma_lower_bound(ids: Seq<DeclarationId>, id: DeclarationId, from: nat)
    requires
        from <= ids.len(),
    ensures
        from <= lower_bound(ids, id, from) <= ids.len(),
        forall|index: int|
            from <= index < lower_bound(ids, id, from) ==> (#[trigger] ids[index]).0 < id.0,
        lower_bound(ids, id, from) < ids.len() ==> ids[lower_bound(ids, id, from) as int].0 >= id.0,
    decreases ids.len() - from,
{
    if from < ids.len() && ids[from as int].0 < id.0 {
        lemma_lower_bound(ids, id, from + 1);
    }
}

/// Inserting a declaration keeps a sequence ascending and adds that declaration and no other.
pub proof fn lemma_inserted(ids: Seq<DeclarationId>, id: DeclarationId)
    requires
        ascending(ids),
    ensures
        ascending(inserted(ids, id)),
        forall|other: DeclarationId|
            inserted(ids, id).contains(other) <==> ids.contains(other) || other == id,
{
    lemma_lower_bound(ids, id, 0);
    let place = lower_bound(ids, id, 0) as int;
    let result = inserted(ids, id);
    assert(ids.take(place) + ids.skip(place) =~= ids);
    assert forall|other: DeclarationId|
        result.contains(other) <==> ids.contains(other) || other == id by {
        if ids.contains(other) {
            let index = choose|index: int| 0 <= index < ids.len() && ids[index] == other;
            if result != ids {
                if index < place {
                    assert(result[index] == other);
                } else {
                    assert(result[index + 1] == other);
                }
            }
        }
        if other == id {
            if result != ids {
                assert(result[place] == id);
            }
        }
        if result.contains(other) && result != ids {
            let index = choose|index: int| 0 <= index < result.len() && result[index] == other;
            if index < place {
                assert(ids[index] == other);
            } else if index > place {
                assert(ids[index - 1] == other);
            }
        }
    }
    if result != ids {
        assert forall|left: int, right: int| 0 <= left < right < result.len() implies (
        #[trigger] result[left]).0 < (#[trigger] result[right]).0 by {
            if right == place {
                assert(result[left] == ids[left]);
            } else if left == place {
                assert(result[right] == ids[right - 1]);
                assert(ids[place].0 >= id.0);
                assert(ids[place] != id);
                assert(ids[place].0 > id.0);
                if right - 1 > place {
                    assert(ids[place].0 < ids[right - 1].0);
                }
            } else {
                let l = if left < place {
                    left
                } else {
                    left - 1
                };
                let r = if right < place {
                    right
                } else {
                    right - 1
                };
                assert(ids[l].0 < ids[r].0);
            }
        }
    }
}

/// The declarations of a list, put one after another into an ascending sequence.
pub open spec fn inserted_all(ids: Seq<DeclarationId>, list: List<DeclarationId>) -> Seq<
    DeclarationId,
>
    decreases list,
{
    match list {
        List::Nil => ids,
        List::Cons(head, tail) => inserted_all(inserted(ids, *head), *tail),
    }
}

/// Puts the declarations of a list into an ascending sequence.
pub fn insert_ids(ids: &mut Vec<DeclarationId>, list: &List<DeclarationId>)
    ensures
        final(ids)@ == inserted_all(old(ids)@, *list),
    decreases list,
{
    match list {
        List::Nil => {},
        List::Cons(head, tail) => {
            insert_id(ids, **head);
            insert_ids(ids, tail);
        },
    }
}

/// A list in ascending order, without repetitions.
#[verifier::allow_in_spec]
pub fn sorted_ids(list: &List<DeclarationId>) -> (r: List<DeclarationId>)
    returns
        list_of(inserted_all(Seq::empty(), *list)),
{
    let mut ids: Vec<DeclarationId> = Vec::new();
    insert_ids(&mut ids, list);
    List::from_vec(ids)
}

/// Whether a declaration is among the given ones.
#[verifier::allow_in_spec]
pub fn contains_id(ids: &Vec<DeclarationId>, id: DeclarationId) -> (r: bool)
    returns
        ids@.contains(id),
{
    let mut index: usize = 0;
    while index < ids.len()
        invariant
            index <= ids.len(),
            forall|other: int| 0 <= other < index ==> ids@[other] != id,
        decreases ids.len() - index,
    {
        if ids[index] == id {
            return true;
        }
        index = index + 1;
    }
    false
}

/// Whether a declaration is an element of a list.
pub open spec fn spec_list_contains(list: List<DeclarationId>, id: DeclarationId) -> bool
    decreases list,
{
    match list {
        List::Nil => false,
        List::Cons(head, tail) => *head == id || spec_list_contains(*tail, id),
    }
}

/// Whether a declaration is an element of a list.
#[verifier::allow_in_spec]
pub fn list_contains(list: &List<DeclarationId>, id: DeclarationId) -> (r: bool)
    returns
        spec_list_contains(*list, id),
    decreases list,
{
    match list {
        List::Nil => false,
        List::Cons(head, tail) => **head == id || list_contains(tail, id),
    }
}

} // verus!
