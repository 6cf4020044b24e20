//! An immutable sequence whose equality is the equality of its elements.

use vstd::prelude::*;

verus! {

/// A sequence that is part of a type, an operand or a statement.
///
/// Two lists with the same elements in the same order are the same value, so a data type that
/// holds lists can be compared as a whole in a contract.
#[derive(Debug, PartialEq, Eq)]
pub enum List<T> {
    Nil,
    Cons(Box<T>, Box<List<T>>),
}

/// The list with the elements of `items`, in order.
pub open spec fn list_of<T>(items: Seq<T>) -> List<T>
    decreases items.len(),
{
    if items.len() == 0 {
        List::Nil
    } else {
        List::Cons(Box::new(items.first()), Box::new(list_of(items.drop_first())))
    }
}

impl<T> List<T> {
    /// The elements as a sequence.
    pub open spec fn seq(self) -> Seq<T>
        decreases self,
    {
        match self {
            List::Nil => Seq::empty(),
            List::Cons(head, tail) => seq![*head] + tail.seq(),
        }
    }

    /// Whether there is no element.
    #[verifier::allow_in_spec]
    pub fn is_empty(&self) -> (r: bool)
        returns
            *self is Nil,
    {
        matches!(self, List::Nil)
    }

    /// The number of elements.
    pub fn length(&self) -> (r: Option<usize>)
        ensures
            r == if self.seq().len() <= usize::MAX {
                Some(self.seq().len() as usize)
            } else {
                None::<usize>
            },
    {
        let mut count: usize = 0;
        let mut rest = self;
        loop
            invariant
                self.seq().len() == count + rest.seq().len(),
            decreases rest,
        {
            match rest {
                List::Nil => {
                    return Some(count);
                },
                List::Cons(_, tail) => {
                    if count == usize::MAX {
                        return None;
                    }
                    count = count + 1;
                    rest = tail;
                },
            }
        }
    }

    /// The element at `index`, if there is one.
    pub fn nth(&self, index: usize) -> (r: Option<&T>)
        ensures
            r == self.spec_nth(index as nat),
        decreases self,
    {
        match self {
            List::Nil => None,
            List::Cons(head, tail) => if index == 0 {
                Some(head)
            } else {
                tail.nth(index - 1)
            },
        }
    }

    /// What [`List::nth`] returns.
    pub open spec fn spec_nth(&self, index: nat) -> Option<&T>
        decreases self,
    {
        match self {
            List::Nil => None,
            List::Cons(head, tail) => if index == 0 {
                Some(&**head)
            } else {
                tail.spec_nth((index - 1) as nat)
            },
        }
    }

    /// The list with the elements of `items`.
    pub fn from_vec(items: Vec<T>) -> (r: List<T>)
        ensures
            r == list_of(items@),
    {
        let mut items = items;
        let ghost all = items@;
        let mut list: List<T> = List::Nil;
        proof {
            assert(items@ + list.seq() =~= all);
        }
        while items.len() > 0
            invariant
                items@ + list.seq() == all,
            decreases items.len(),
        {
            let ghost before = items@;
            let ghost rest = list.seq();
            let item = items.pop();
            match item {
                Some(item) => {
                    list = List::Cons(Box::new(item), Box::new(list));
                    proof {
                        assert(items@ + list.seq() =~= before + rest);
                    }
                },
                None => {},
            }
        }
        proof {
            assert(list.seq() =~= all);
            lemma_list_of_seq(list);
        }
        list
    }
}

/// A list is determined by its elements.
pub proof fn lemma_list_of_seq<T>(list: List<T>)
    ensures
        list_of(list.seq()) == list,
    decreases list,
{
    match list {
        List::Nil => {},
        List::Cons(head, tail) => {
            lemma_list_of_seq(*tail);
            assert(list.seq().drop_first() =~= tail.seq());
        },
    }
}

/// The elements of the list built from a sequence are that sequence.
pub proof fn lemma_seq_of_list<T>(items: Seq<T>)
    ensures
        list_of(items).seq() == items,
    decreases items.len(),
{
    if items.len() > 0 {
        lemma_seq_of_list(items.drop_first());
        assert(seq![items.first()] + items.drop_first() =~= items);
    }
}

/// A copy of a list of plain values.
#[verifier::allow_in_spec]
pub fn dup_plain<T: Copy>(list: &List<T>) -> (r: List<T>)
    returns
        *list,
    decreases list,
{
    match list {
        List::Nil => List::Nil,
        List::Cons(head, tail) => List::Cons(Box::new(**head), Box::new(dup_plain(tail))),
    }
}

/// The elements of a list, and behind them those of another.
pub open spec fn concatenated<T>(left: List<T>, right: List<T>) -> List<T>
    decreases left,
{
    match left {
        List::Nil => right,
        List::Cons(head, tail) => List::Cons(head, Box::new(concatenated(*tail, right))),
    }
}

/// The elements of a list of plain values, and behind them those of another.
#[verifier::allow_in_spec]
pub fn joined_plain<T: Copy>(left: &List<T>, right: List<T>) -> (r: List<T>)
    returns
        concatenated(*left, right),
    decreases left,
{
    match left {
        List::Nil => right,
        List::Cons(head, tail) => List::Cons(Box::new(**head), Box::new(joined_plain(tail, right))),
    }
}

/// The list of one element.
#[verifier::allow_in_spec]
pub fn one<T>(item: T) -> (r: List<T>)
    returns
        List::Cons(Box::new(item), Box::new(List::Nil)),
{
    List::Cons(Box::new(item), Box::new(List::Nil))
}

/// The list that starts with `head` and goes on with `tail`.
#[verifier::allow_in_spec]
pub fn cons<T>(head: T, tail: List<T>) -> (r: List<T>)
    returns
        List::Cons(Box::new(head), Box::new(tail)),
{
    List::Cons(Box::new(head), Box::new(tail))
}

} // verus!
