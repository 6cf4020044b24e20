//! When the rules for the names in a body report nothing, said of its tokens.

use vstd::prelude::*;

use crate::acceptance::meaning::lemma_filtered;
use crate::appending::source::{lemma_check_token, lemma_check_tokens};
use crate::diagnostics::{report_conflict, Diagnostic, Finding};
use crate::hir::{Parameter, Type};
use crate::list::{cons, List};
use crate::lowering::context::{behind, next};
use crate::lowering::types::{atom_type, reference};
use crate::names::Name;
use crate::reports::spec_add;
use crate::signatures::construction::{kind_at, name_of_token, span_of_token, spec_has_name};
use crate::source_rules::{
    behind_local, is_declaration_name, is_used_from, last_use_of_from, local_end, moved_name,
    name_behind, parameter_variables_from, spec_borrowed_name, spec_check_borrowing_local,
    spec_check_conflicts, spec_check_local, spec_check_move, spec_check_moved_name,
    spec_check_plain_token, spec_check_returned_reference, spec_check_suspension_loans,
    spec_check_token, spec_check_tokens, spec_check_use, spec_first_of_kind, spec_live_loans,
    spec_loan_of, spec_moved_at, spec_variable_type, spec_with_initialized, spec_with_loan,
    spec_with_reference, starts_local, BodyTokens, Flow, NameLoan, Variable,
};
use crate::syntax::{Span, Token, TokenKind};

verus! {

/// Whether a name stands in a body at a token or behind it.
pub open spec fn stands_from(view: &BodyTokens, name: Name, index: int) -> bool {
    exists|place: int| index <= place && #[trigger] names_at(view, name, place)
}

/// Whether a token of a body is a name.
pub open spec fn names_at(view: &BodyTokens, name: Name, place: int) -> bool {
    &&& view.start <= place < view.end
    &&& place < view.tokens@.len()
    &&& view.tokens@[place].kind == TokenKind::Identifier
    &&& view.tokens@[place].name == name
}

proof fn lemma_last_use(view: &BodyTokens, found: Option<usize>, name: Name, from: nat)
    requires
        from <= view.tokens@.len() <= usize::MAX,
    ensures
        match last_use_of_from(view.tokens@, found, name, view.start, view.end, from) {
            Some(last) => {
                ||| from <= last && names_at(view, name, last as int) && forall|place: int|
                    last < place ==> !#[trigger] names_at(view, name, place)
                ||| found == Some(last) && forall|place: int|
                    from <= place ==> !#[trigger] names_at(view, name, place)
            },
            None => found is None && forall|place: int|
                from <= place ==> !#[trigger] names_at(view, name, place),
        },
    decreases view.tokens@.len() - from,
{
    if from < view.tokens@.len() {
        let index = from as usize;
        let item = &view.tokens@[from as int];
        let folded = if view.start <= index && index < view.end && item.kind
            == TokenKind::Identifier && item.name == name {
            Some(index)
        } else {
            found
        };
        lemma_last_use(view, folded, name, from + 1);
    }
}

/// A name counts as used from a token on exactly if it stands there or behind it in the body.
pub proof fn names_are_used_where_they_stand(view: &BodyTokens, name: Name, index: usize)
    ensures
        is_used_from(view, name, index) <==> stands_from(view, name, index as int),
{
    assert(view.tokens.len() <= usize::MAX);
    lemma_last_use(view, None, name, 0);
    if let Some(last) = last_use_of_from(view.tokens@, None, name, view.start, view.end, 0) {
        assert(names_at(view, name, last as int));
    }
}

/// Whether two borrows, one made before a token and one at it, are in each other's way: they are of
/// the same name, one of the two is mutable, and the binding that holds the first is still used.
pub open spec fn are_in_conflict(
    view: &BodyTokens,
    earlier: NameLoan,
    referent: Name,
    mutable: bool,
    start: usize,
) -> bool {
    &&& earlier.referent == referent
    &&& earlier.mutable || mutable
    &&& stands_from(view, earlier.binding, start as int)
}

/// A borrow is reported exactly once for each earlier loan that is in its way, in their order, at
/// the borrow and with the place of the loan.
pub proof fn conflicts_are_reported_for_each_loan_in_the_way(
    st: Seq<Diagnostic>,
    referent: Name,
    mutable: bool,
    span: Span,
    loans: &List<NameLoan>,
    view: &BodyTokens,
    start: usize,
)
    ensures
        spec_check_conflicts(st, referent, mutable, span, loans, view, start) == st
            + loans.seq().filter(
            |loan: NameLoan| are_in_conflict(view, loan, referent, mutable, start),
        ).map_values(
            |loan: NameLoan|
                report_conflict(Finding::NameBorrowConflict(referent), span, loan.span),
        ),
    decreases loans,
{
    reveal_with_fuel(spec_check_conflicts, 2);
    let hit = |loan: NameLoan| are_in_conflict(view, loan, referent, mutable, start);
    let told = |loan: NameLoan|
        report_conflict(Finding::NameBorrowConflict(referent), span, loan.span);
    match loans {
        List::Nil => {
            assert(loans.seq() =~= Seq::empty());
            assert(loans.seq().filter(hit) =~= Seq::empty()) by {
                reveal(Seq::filter);
            }
            assert(st + loans.seq().filter(hit).map_values(told) =~= st);
        },
        List::Cons(head, tail) => {
            names_are_used_where_they_stand(view, head.binding, start);
            let one = seq![**head];
            let reported = if hit(**head) {
                spec_add(
                    st,
                    report_conflict(Finding::NameBorrowConflict(referent), span, head.span),
                )
            } else {
                st
            };
            conflicts_are_reported_for_each_loan_in_the_way(
                reported,
                referent,
                mutable,
                span,
                tail,
                view,
                start,
            );
            assert(loans.seq() =~= one + tail.seq());
            Seq::filter_distributes_over_add(one, tail.seq(), hit);
            lemma_filter_one(**head, hit);
            assert(st + loans.seq().filter(hit).map_values(told) =~= reported
                + tail.seq().filter(hit).map_values(told));
        },
    }
}

proof fn lemma_filter_one<T>(item: T, hit: spec_fn(T) -> bool)
    ensures
        seq![item].filter(hit) == if hit(item) {
            seq![item]
        } else {
            Seq::empty()
        },
{
    reveal_with_fuel(Seq::filter, 2);
    assert(seq![item].drop_last() =~= Seq::empty());
    assert(seq![item].filter(hit) =~= if hit(item) {
        seq![item]
    } else {
        Seq::empty()
    });
}

/// The reports grow with a borrow exactly if an earlier loan of the same name is held by a binding
/// that is used at or behind it, and one of the two borrows is mutable.
pub proof fn conflicts_are_found(
    st: Seq<Diagnostic>,
    referent: Name,
    mutable: bool,
    span: Span,
    loans: &List<NameLoan>,
    view: &BodyTokens,
    start: usize,
)
    ensures
        spec_check_conflicts(st, referent, mutable, span, loans, view, start).len() == st.len()
            <==> forall|index: int|
            0 <= index < loans.seq().len() ==> !are_in_conflict(
                view,
                #[trigger] loans.seq()[index],
                referent,
                mutable,
                start,
            ),
{
    let hit = |loan: NameLoan| are_in_conflict(view, loan, referent, mutable, start);
    conflicts_are_reported_for_each_loan_in_the_way(
        st,
        referent,
        mutable,
        span,
        loans,
        view,
        start,
    );
    lemma_filtered(loans.seq(), hit);
}

/// Which of two borrows of a name is the mutable one does not matter: the reports grow for the
/// later one of them either way, or neither way.
pub proof fn either_borrow_may_be_the_mutable_one(
    st: Seq<Diagnostic>,
    referent: Name,
    mutable: bool,
    span: Span,
    earlier: NameLoan,
    view: &BodyTokens,
    start: usize,
)
    requires
        earlier.referent == referent,
    ensures
        ({
            let swapped = NameLoan { mutable, ..earlier };
            let one = spec_check_conflicts(
                st,
                referent,
                mutable,
                span,
                &cons(earlier, List::Nil),
                view,
                start,
            );
            let other = spec_check_conflicts(
                st,
                referent,
                earlier.mutable,
                span,
                &cons(swapped, List::Nil),
                view,
                start,
            );
            one == other
        }),
        !mutable && !earlier.mutable ==> spec_check_conflicts(
            st,
            referent,
            mutable,
            span,
            &cons(earlier, List::Nil),
            view,
            start,
        ) == st,
{
    let swapped = NameLoan { mutable, ..earlier };
    let own = cons(earlier, List::Nil);
    let other = cons(swapped, List::Nil);
    conflicts_are_reported_for_each_loan_in_the_way(
        st,
        referent,
        mutable,
        span,
        &own,
        view,
        start,
    );
    conflicts_are_reported_for_each_loan_in_the_way(
        st,
        referent,
        earlier.mutable,
        span,
        &other,
        view,
        start,
    );
    let told = |loan: NameLoan|
        report_conflict(Finding::NameBorrowConflict(referent), span, loan.span);
    let hit = |loan: NameLoan| are_in_conflict(view, loan, referent, mutable, start);
    let hit_swapped = |loan: NameLoan|
        are_in_conflict(view, loan, referent, earlier.mutable, start);
    assert(List::<NameLoan>::Nil.seq() =~= Seq::empty());
    assert(own.seq() =~= seq![earlier]);
    assert(other.seq() =~= seq![swapped]);
    lemma_filter_one(earlier, hit);
    lemma_filter_one(swapped, hit_swapped);
    assert(own.seq().filter(hit).map_values(told) =~= other.seq().filter(hit_swapped).map_values(
        told,
    ));
    assert(st + Seq::<NameLoan>::empty().map_values(told) =~= st);
}

/// The first token of a kind in a range is found.
pub proof fn the_first_of_a_kind_is_found(
    tokens: &Vec<Token>,
    kind: TokenKind,
    index: usize,
    end: usize,
)
    ensures
        match spec_first_of_kind(tokens, kind, index, end) {
            Some(found) => {
                &&& index <= found < end
                &&& kind_at(tokens, end, found) == Some(kind)
                &&& forall|place: usize|
                    index <= place < found ==> #[trigger] kind_at(tokens, end, place) != Some(kind)
            },
            None => forall|place: usize|
                index <= place < end ==> #[trigger] kind_at(tokens, end, place) != Some(kind),
        },
    decreases end - index,
{
    reveal_with_fuel(spec_first_of_kind, 2);
    if index < end {
        the_first_of_a_kind_is_found(tokens, kind, next(index), end);
    }
}

/// The name that a statement declares, if one is declared at a token.
pub open spec fn declared_at(view: &BodyTokens, index: usize) -> Option<Name> {
    if starts_local(view, index) && next(index) < view.end {
        name_of_token(view.tokens, next(index))
    } else {
        None
    }
}

/// Where the initializer of a declaration begins: at its first equals sign.
pub open spec fn initialized_at(view: &BodyTokens, index: usize) -> Option<usize> {
    spec_first_of_kind(view.tokens, TokenKind::Equal, index, local_end(view, index))
}

/// The borrow that a declaration makes, if its initializer is `&name` or `&mut name`.
pub open spec fn borrow_at(view: &BodyTokens, index: usize) -> Option<NameLoan> {
    match (declared_at(view, index), initialized_at(view, index)) {
        (Some(binding), Some(equal)) => {
            let mutable = kind_at(view.tokens, view.end, behind(equal, 2)) == Some(TokenKind::Mut);
            let place: usize = if mutable {
                behind(equal, 3)
            } else {
                behind(equal, 2)
            };
            if kind_at(view.tokens, view.end, next(equal)) == Some(TokenKind::Amp) && place
                < view.end && place < view.tokens@.len() {
                Some(
                    NameLoan {
                        binding,
                        referent: view.tokens@[place as int].name,
                        mutable,
                        span: span_of_token(view.tokens, view.file, place),
                    },
                )
            } else {
                None
            }
        },
        _ => None,
    }
}

/// The types of names.
pub type Types = spec_fn(Name) -> Option<Type>;

/// The type that a declaration gives to its name: a reference to the type of what it borrows, or
/// the type of the single token that it is initialized with.
pub open spec fn type_given(view: &BodyTokens, index: usize, types: Types) -> Option<Type> {
    match (borrow_at(view, index), initialized_at(view, index)) {
        (Some(loan), _) => match types(loan.referent) {
            Some(ty) => Some(reference(loan.mutable, Name::Scope, ty)),
            None => None,
        },
        (None, Some(equal)) => if behind(equal, 2) == local_end(view, index) {
            match kind_at(view.tokens, view.end, next(equal)) {
                Some(TokenKind::Identifier) => types(view.tokens@[next(equal) as int].name),
                Some(kind) => if atom_type(kind) == Type::Error {
                    None
                } else {
                    Some(atom_type(kind))
                },
                None => None,
            }
        } else {
            None
        },
        (None, None) => None,
    }
}

/// The types of names behind tokens.
pub open spec fn types_behind(view: &BodyTokens, given: Types, seen: Seq<usize>) -> Types
    decreases seen.len(),
{
    if seen.len() == 0 {
        given
    } else {
        let before = types_behind(view, given, seen.drop_last());
        match (declared_at(view, seen.last()), type_given(view, seen.last(), before)) {
            (Some(declared), Some(ty)) => |name: Name|
                if name == declared {
                    Some(ty)
                } else {
                    before(name)
                },
            _ => before,
        }
    }
}

/// Where the rules go on behind a token: behind a declaration, behind a moved name, or at the next
/// token.
pub open spec fn following(view: &BodyTokens, index: usize) -> usize {
    if declared_at(view, index) is Some {
        behind_local(view, local_end(view, index))
    } else if moved_name(view, index) is Some {
        behind(index, 2)
    } else {
        next(index)
    }
}

/// The tokens at which the rules look, from one on.
pub open spec fn looked_at(view: &BodyTokens, from: usize) -> Seq<usize>
    decreases view.end.saturating_sub(from),
{
    if from >= view.end {
        Seq::empty()
    } else if following(view, from) <= from {
        seq![from]
    } else {
        seq![from] + looked_at(view, following(view, from))
    }
}

/// Whether what happens at a token respects what happened at the tokens before.
///
/// A borrow is in conflict with no borrow before it. A reference is not moved from. A borrow that is
/// returned by name is one of a parameter, and so is a borrow that is still used where the body
/// waits. A name that was moved is used only where it is declared again.
pub open spec fn is_respectful(
    view: &BodyTokens,
    given: Types,
    seen: Seq<usize>,
    index: usize,
) -> bool {
    match kind_at(view.tokens, view.end, index) {
        Some(TokenKind::Const) | Some(TokenKind::Let) => match borrow_at(view, index) {
            Some(loan) => forall|earlier: int|
                0 <= earlier < seen.len() && borrow_at(view, #[trigger] seen[earlier]) is Some
                    ==> !are_in_conflict(
                    view,
                    borrow_at(view, seen[earlier])->0,
                    loan.referent,
                    loan.mutable,
                    index,
                ),
            None => true,
        },
        Some(TokenKind::Move) => match name_behind(view, index) {
            Some(name) => !is_reference(types_behind(view, given, seen)(name)),
            None => true,
        },
        Some(TokenKind::Return) => match name_behind(view, index) {
            Some(name) => forall|earlier: int|
                0 <= earlier < seen.len() && #[trigger] is_first_borrow_for(
                    view,
                    seen,
                    earlier,
                    name,
                ) ==> view.parameters.seq().contains(borrow_at(view, seen[earlier])->0.referent),
            None => true,
        },
        Some(TokenKind::Await) => forall|earlier: int|
            0 <= earlier < seen.len() && borrow_at(view, #[trigger] seen[earlier]) is Some
                && stands_from(view, borrow_at(view, seen[earlier])->0.binding, index as int)
                ==> view.parameters.seq().contains(borrow_at(view, seen[earlier])->0.referent),
        Some(TokenKind::Identifier) => (exists|earlier: int|
            0 <= earlier < seen.len() && moved_name(view, #[trigger] seen[earlier]) == Some(
                view.tokens@[index as int].name,
            )) ==> is_declaration_name(view, index),
        _ => true,
    }
}

/// Whether the first borrow that is held by a name is the one at a token.
pub open spec fn is_first_borrow_for(
    view: &BodyTokens,
    seen: Seq<usize>,
    place: int,
    name: Name,
) -> bool {
    &&& borrow_at(view, seen[place]) is Some
    &&& borrow_at(view, seen[place])->0.binding == name
    &&& forall|earlier: int|
        0 <= earlier < place && borrow_at(view, #[trigger] seen[earlier]) is Some ==> borrow_at(
            view,
            seen[earlier],
        )->0.binding != name
}

/// Whether a type is that of a reference.
pub open spec fn is_reference(ty: Option<Type>) -> bool {
    ty matches Some(Type::Reference { .. })
}

/// The borrows at tokens.
pub open spec fn borrows_at(view: &BodyTokens, seen: Seq<usize>) -> Seq<NameLoan>
    decreases seen.len(),
{
    if seen.len() == 0 {
        Seq::empty()
    } else {
        let before = borrows_at(view, seen.drop_last());
        match borrow_at(view, seen.last()) {
            Some(loan) => before.push(loan),
            None => before,
        }
    }
}

/// Whether what the rules know is what happened at the tokens before.
spec fn is_known(
    view: &BodyTokens,
    given: Types,
    seen: Seq<usize>,
    flow: Flow,
    index: int,
) -> bool {
    &&& forall|from: int|
        index <= from ==> #[trigger] flow.loans.seq().filter(held(view, from)) == borrows_at(
            view,
            seen,
        ).filter(held(view, from))
    &&& forall|name: Name|
        (#[trigger] spec_moved_at(&flow.moved, name)) is Some <==> exists|earlier: int|
            0 <= earlier < seen.len() && moved_name(view, #[trigger] seen[earlier]) == Some(name)
    &&& forall|name: Name|
        same_type(
            #[trigger] spec_variable_type(&flow.variables, name),
            types_behind(view, given, seen)(name),
        )
}

spec fn same_type(ty: Option<&Type>, other: Option<Type>) -> bool {
    match (ty, other) {
        (Some(ty), Some(other)) => *ty == other,
        (None, None) => true,
        _ => false,
    }
}

/// Whether the binding of a loan is used from a token on.
spec fn held(view: &BodyTokens, from: int) -> spec_fn(NameLoan) -> bool {
    |loan: NameLoan| stands_from(view, loan.binding, from)
}

proof fn lemma_live(loans: List<NameLoan>, view: &BodyTokens, index: usize)
    ensures
        spec_live_loans(loans, view, index).seq() == loans.seq().filter(held(view, index as int)),
    decreases loans,
{
    reveal_with_fuel(spec_live_loans, 2);
    let hit = held(view, index as int);
    match loans {
        List::Nil => {
            reveal(Seq::filter);
            assert(loans.seq().filter(hit) =~= Seq::empty());
        },
        List::Cons(head, tail) => {
            names_are_used_where_they_stand(view, head.binding, index);
            lemma_live(*tail, view, index);
            assert(loans.seq() =~= seq![*head] + tail.seq());
            Seq::filter_distributes_over_add(seq![*head], tail.seq(), hit);
            lemma_filter_one(*head, hit);
            assert(spec_live_loans(loans, view, index).seq() =~= loans.seq().filter(hit));
        },
    }
}

proof fn lemma_with_loan(loans: List<NameLoan>, loan: NameLoan)
    ensures
        spec_with_loan(loans, loan).seq() == loans.seq().push(loan),
    decreases loans,
{
    reveal_with_fuel(spec_with_loan, 2);
    match loans {
        List::Nil => {
            assert(List::<NameLoan>::Nil.seq() =~= Seq::empty());
            assert(cons(loan, List::<NameLoan>::Nil).seq() =~= seq![loan]);
        },
        List::Cons(_, tail) => {
            lemma_with_loan(*tail, loan);
        },
    }
    assert(spec_with_loan(loans, loan).seq() =~= loans.seq().push(loan));
}

proof fn lemma_filter_push<T>(items: Seq<T>, item: T, hit: spec_fn(T) -> bool)
    ensures
        items.push(item).filter(hit) == if hit(item) {
            items.filter(hit).push(item)
        } else {
            items.filter(hit)
        },
{
    Seq::filter_distributes_over_add(items, seq![item], hit);
    lemma_filter_one(item, hit);
    assert(items.push(item) =~= items + seq![item]);
    assert(items.push(item).filter(hit) =~= if hit(item) {
        items.filter(hit).push(item)
    } else {
        items.filter(hit)
    });
}

proof fn lemma_held_on(items: Seq<NameLoan>, view: &BodyTokens, index: int, from: int)
    requires
        index <= from,
    ensures
        items.filter(held(view, index)).filter(held(view, from)) == items.filter(held(view, from)),
    decreases items.len(),
{
    let before = held(view, index);
    let later = held(view, from);
    if items.len() == 0 {
        reveal(Seq::filter);
        assert(items.filter(before) =~= Seq::empty());
        assert(items =~= Seq::empty());
    } else {
        let less = items.drop_last();
        let last = items.last();
        lemma_held_on(less, view, index, from);
        assert(items =~= less.push(last));
        lemma_filter_push(less, last, before);
        lemma_filter_push(less, last, later);
        lemma_filter_push(less.filter(before), last, later);
        if later(last) {
            let place = choose|place: int|
                from <= place && #[trigger] names_at(view, last.binding, place);
            assert(index <= place && names_at(view, last.binding, place));
            assert(before(last));
        }
    }
}

/// The first loan that is held by a name.
spec fn first_loan(loans: Seq<NameLoan>, name: Name) -> Option<NameLoan>
    decreases loans.len(),
{
    if loans.len() == 0 {
        None
    } else {
        match first_loan(loans.drop_last(), name) {
            Some(loan) => Some(loan),
            None => if loans.last().binding == name {
                Some(loans.last())
            } else {
                None
            },
        }
    }
}

proof fn lemma_first_loan_behind(head: NameLoan, rest: Seq<NameLoan>, name: Name)
    ensures
        first_loan(seq![head] + rest, name) == if head.binding == name {
            Some(head)
        } else {
            first_loan(rest, name)
        },
    decreases rest.len(),
{
    let all = seq![head] + rest;
    if rest.len() == 0 {
        assert(all.drop_last() =~= Seq::empty());
        assert(first_loan(all.drop_last(), name) is None);
    } else {
        assert(all.drop_last() =~= seq![head] + rest.drop_last());
        lemma_first_loan_behind(head, rest.drop_last(), name);
    }
}

proof fn lemma_loan_of(loans: List<NameLoan>, name: Name)
    ensures
        spec_loan_of(&loans, name) == first_loan(loans.seq(), name),
    decreases loans,
{
    reveal_with_fuel(spec_loan_of, 2);
    if let List::Cons(head, tail) = loans {
        lemma_loan_of(*tail, name);
        lemma_first_loan_behind(*head, tail.seq(), name);
    }
}

proof fn lemma_first_loan_held(loans: Seq<NameLoan>, view: &BodyTokens, name: Name, from: int)
    requires
        stands_from(view, name, from),
    ensures
        first_loan(loans.filter(held(view, from)), name) == first_loan(loans, name),
    decreases loans.len(),
{
    let hit = held(view, from);
    if loans.len() == 0 {
        reveal(Seq::filter);
        assert(loans.filter(hit) =~= loans);
    } else {
        let less = loans.drop_last();
        lemma_first_loan_held(less, view, name, from);
        assert(loans =~= less.push(loans.last()));
        lemma_filter_push(less, loans.last(), hit);
        assert(less.filter(hit).push(loans.last()).drop_last() =~= less.filter(hit));
    }
}

proof fn lemma_first_borrow(view: &BodyTokens, seen: Seq<usize>, name: Name)
    ensures
        match first_loan(borrows_at(view, seen), name) {
            Some(loan) => exists|place: int|
                0 <= place < seen.len() && #[trigger] is_first_borrow_for(view, seen, place, name)
                    && borrow_at(view, seen[place]) == Some(loan),
            None => forall|place: int|
                0 <= place < seen.len() && borrow_at(view, #[trigger] seen[place]) is Some
                    ==> borrow_at(view, seen[place])->0.binding != name,
        },
    decreases seen.len(),
{
    if seen.len() > 0 {
        let less = seen.drop_last();
        lemma_first_borrow(view, less, name);
        if let Some(loan) = borrow_at(view, seen.last()) {
            assert(borrows_at(view, less).push(loan).drop_last() =~= borrows_at(view, less));
        }
        assert forall|place: int| 0 <= place < less.len() implies #[trigger] less[place]
            == seen[place] by {}
        match first_loan(borrows_at(view, less), name) {
            Some(loan) => {
                let place = choose|place: int|
                    0 <= place < less.len() && #[trigger] is_first_borrow_for(
                        view,
                        less,
                        place,
                        name,
                    ) && borrow_at(view, less[place]) == Some(loan);
                assert forall|earlier: int|
                    0 <= earlier < place && borrow_at(
                        view,
                        #[trigger] seen[earlier],
                    ) is Some implies borrow_at(view, seen[earlier])->0.binding != name by {
                    assert(less[earlier] == seen[earlier]);
                }
                assert(is_first_borrow_for(view, seen, place, name));
                if let Some(other) = borrow_at(view, seen.last()) {
                    assert(first_loan(borrows_at(view, seen), name) == Some(loan));
                }
            },
            None => {
                let place = seen.len() - 1;
                assert forall|earlier: int|
                    0 <= earlier < place && borrow_at(
                        view,
                        #[trigger] seen[earlier],
                    ) is Some implies borrow_at(view, seen[earlier])->0.binding != name by {
                    assert(less[earlier] == seen[earlier]);
                }
                if let Some(other) = borrow_at(view, seen.last()) {
                    if other.binding == name {
                        assert(is_first_borrow_for(view, seen, place, name));
                    }
                }
            },
        }
    }
}

proof fn lemma_only_first_borrow(
    view: &BodyTokens,
    seen: Seq<usize>,
    name: Name,
    one: int,
    other: int,
)
    requires
        0 <= one < seen.len(),
        0 <= other < seen.len(),
        is_first_borrow_for(view, seen, one, name),
        is_first_borrow_for(view, seen, other, name),
    ensures
        one == other,
{
    if one < other {
        assert(borrow_at(view, seen[one]) is Some);
    } else if other < one {
        assert(borrow_at(view, seen[other]) is Some);
    }
}

proof fn lemma_borrows_at(view: &BodyTokens, seen: Seq<usize>)
    ensures
        forall|loan: NameLoan| #[trigger]
            borrows_at(view, seen).contains(loan) <==> exists|earlier: int|
                0 <= earlier < seen.len() && borrow_at(view, #[trigger] seen[earlier]) == Some(
                    loan,
                ),
    decreases seen.len(),
{
    if seen.len() > 0 {
        let less = seen.drop_last();
        lemma_borrows_at(view, less);
        let before = borrows_at(view, less);
        let all = borrows_at(view, seen);
        assert forall|loan: NameLoan| #[trigger]
            all.contains(loan) <==> exists|earlier: int|
                0 <= earlier < seen.len() && borrow_at(view, #[trigger] seen[earlier]) == Some(
                    loan,
                ) by {
            if before.contains(loan) {
                let earlier = choose|earlier: int|
                    0 <= earlier < less.len() && borrow_at(view, #[trigger] less[earlier]) == Some(
                        loan,
                    );
                assert(borrow_at(view, seen[earlier]) == Some(loan));
                let place = choose|place: int| 0 <= place < before.len() && before[place] == loan;
                assert(all[place] == loan);
            }
            if borrow_at(view, seen.last()) == Some(loan) {
                assert(borrow_at(view, seen[seen.len() - 1]) == Some(loan));
                assert(all[all.len() - 1] == loan);
            }
            if all.contains(loan) {
                let place = choose|place: int| 0 <= place < all.len() && all[place] == loan;
                if place < before.len() {
                    assert(before[place] == loan);
                }
            }
            if exists|earlier: int|
                0 <= earlier < seen.len() && borrow_at(view, #[trigger] seen[earlier]) == Some(
                    loan,
                ) {
                let earlier = choose|earlier: int|
                    0 <= earlier < seen.len() && borrow_at(view, #[trigger] seen[earlier]) == Some(
                        loan,
                    );
                if earlier < less.len() {
                    assert(borrow_at(view, less[earlier]) == Some(loan));
                }
            }
        }
    }
}

proof fn lemma_has_name(names: List<Name>, name: Name)
    ensures
        spec_has_name(&names, name) == names.seq().contains(name),
    decreases names,
{
    reveal_with_fuel(spec_has_name, 2);
    if let List::Cons(head, tail) = names {
        lemma_has_name(*tail, name);
        let all = names.seq();
        assert(all =~= seq![*head] + tail.seq());
        assert(all[0] == *head);
        if tail.seq().contains(name) {
            let place = choose|place: int|
                0 <= place < tail.seq().len() && tail.seq()[place] == name;
            assert(all[place + 1] == name);
        }
        if all.contains(name) {
            let place = choose|place: int| 0 <= place < all.len() && all[place] == name;
            if place > 0 {
                assert(tail.seq()[place - 1] == name);
            }
        }
    }
}

/// Where a body waits, exactly the loans of what is no parameter are reported, in their order.
pub proof fn loans_are_reported_where_a_body_waits(
    st: Seq<Diagnostic>,
    span: Span,
    view: &BodyTokens,
    loans: &List<NameLoan>,
)
    ensures
        spec_check_suspension_loans(st, span, view, loans) == st + loans.seq().filter(
            |loan: NameLoan| !view.parameters.seq().contains(loan.referent),
        ).map_values(
            |loan: NameLoan|
                report_conflict(Finding::NameBorrowedAcrossAwait(loan.referent), span, loan.span),
        ),
    decreases loans,
{
    reveal_with_fuel(spec_check_suspension_loans, 2);
    let hit = |loan: NameLoan| !view.parameters.seq().contains(loan.referent);
    let told = |loan: NameLoan|
        report_conflict(Finding::NameBorrowedAcrossAwait(loan.referent), span, loan.span);
    match loans {
        List::Nil => {
            assert(loans.seq() =~= Seq::empty());
            assert(loans.seq().filter(hit) =~= Seq::empty()) by {
                reveal(Seq::filter);
            }
            assert(st + loans.seq().filter(hit).map_values(told) =~= st);
        },
        List::Cons(head, tail) => {
            lemma_has_name(view.parameters, head.referent);
            let one = seq![**head];
            let reported = if hit(**head) {
                spec_add(st, told(**head))
            } else {
                st
            };
            loans_are_reported_where_a_body_waits(reported, span, view, tail);
            assert(loans.seq() =~= one + tail.seq());
            Seq::filter_distributes_over_add(one, tail.seq(), hit);
            lemma_filter_one(**head, hit);
            assert(st + loans.seq().filter(hit).map_values(told) =~= reported
                + tail.seq().filter(hit).map_values(told));
        },
    }
}

proof fn lemma_borrowing(view: &BodyTokens, index: usize)
    requires
        declared_at(view, index) is Some,
        initialized_at(view, index) is Some,
    ensures
        ({
            let equal = initialized_at(view, index)->0;
            match (spec_borrowed_name(view, equal), borrow_at(view, index)) {
                (Some(borrowed), Some(loan)) => loan == (NameLoan {
                    binding: declared_at(view, index)->0,
                    referent: borrowed.name,
                    mutable: borrowed.mutable,
                    span: span_of_token(view.tokens, view.file, borrowed.index),
                }),
                (None, None) => true,
                _ => false,
            }
        }),
{
    reveal(spec_borrowed_name);
}

/// The loans at a token are those of the borrows before that are still held.
proof fn lemma_loans_now(
    view: &BodyTokens,
    given: Types,
    seen: Seq<usize>,
    flow: Flow,
    index: usize,
)
    requires
        is_known(view, given, seen, flow, index as int),
    ensures
        spec_live_loans(flow.loans, view, index).seq() == borrows_at(view, seen).filter(
            held(view, index as int),
        ),
        forall|loan: NameLoan| #[trigger]
            spec_live_loans(flow.loans, view, index).seq().contains(loan) <==> {
                &&& stands_from(view, loan.binding, index as int)
                &&& exists|earlier: int|
                    0 <= earlier < seen.len() && borrow_at(view, #[trigger] seen[earlier]) == Some(
                        loan,
                    )
            },
{
    lemma_live(flow.loans, view, index);
    assert(flow.loans.seq().filter(held(view, index as int)) == borrows_at(view, seen).filter(
        held(view, index as int),
    ));
    lemma_filtered(borrows_at(view, seen), held(view, index as int));
    lemma_borrows_at(view, seen);
}

/// What is known goes on being known.
proof fn lemma_known_on(
    st: Seq<Diagnostic>,
    view: &BodyTokens,
    given: Types,
    seen: Seq<usize>,
    flow: Flow,
    index: usize,
    later: int,
)
    requires
        is_known(view, given, seen, flow, index as int),
        index <= later,
    ensures
        ({
            let (_, step) = spec_check_token(st, view, flow, index);
            is_known(view, given, seen.push(index), step.flow, later)
        }),
{
    reveal(spec_check_token);
    reveal(spec_check_local);
    reveal(spec_check_borrowing_local);
    reveal(spec_check_moved_name);
    reveal(spec_with_reference);
    reveal(spec_with_initialized);
    let live = spec_live_loans(flow.loans, view, index);
    let (_, step) = spec_check_token(st, view, flow, index);
    let longer = seen.push(index);
    assert(longer.drop_last() =~= seen);
    lemma_live(flow.loans, view, index);
    let before = borrows_at(view, seen);
    if declared_at(view, index) is Some && initialized_at(view, index) is Some {
        lemma_borrowing(view, index);
    }
    // The loans.
    assert forall|from: int| later <= from implies #[trigger] step.flow.loans.seq().filter(
        held(view, from),
    ) == borrows_at(view, longer).filter(held(view, from)) by {
        lemma_held_on(flow.loans.seq(), view, index as int, from);
        assert(flow.loans.seq().filter(held(view, from)) == before.filter(held(view, from)));
        assert(live.seq().filter(held(view, from)) == before.filter(held(view, from)));
        if let Some(loan) = borrow_at(view, index) {
            lemma_with_loan(live, loan);
            lemma_filter_push(live.seq(), loan, held(view, from));
            lemma_filter_push(before, loan, held(view, from));
            assert(step.flow.loans == spec_with_loan(live, loan));
        } else {
            assert(step.flow.loans == live);
        }
    }
    // The moves.
    assert forall|name: Name|
        (#[trigger] spec_moved_at(&step.flow.moved, name)) is Some <==> exists|earlier: int|
            0 <= earlier < longer.len() && moved_name(view, #[trigger] longer[earlier]) == Some(
                name,
            ) by {
        reveal_with_fuel(spec_moved_at, 2);
        assert(spec_moved_at(&flow.moved, name) is Some <==> exists|earlier: int|
            0 <= earlier < seen.len() && moved_name(view, #[trigger] seen[earlier]) == Some(name));
        if spec_moved_at(&flow.moved, name) is Some {
            let earlier = choose|earlier: int|
                0 <= earlier < seen.len() && moved_name(view, #[trigger] seen[earlier]) == Some(
                    name,
                );
            assert(moved_name(view, longer[earlier]) == Some(name));
        }
        assert(longer[seen.len() as int] == index);
        if exists|earlier: int|
            0 <= earlier < longer.len() && moved_name(view, #[trigger] longer[earlier]) == Some(
                name,
            ) {
            let earlier = choose|earlier: int|
                0 <= earlier < longer.len() && moved_name(view, #[trigger] longer[earlier]) == Some(
                    name,
                );
            if earlier < seen.len() {
                assert(moved_name(view, seen[earlier]) == Some(name));
            }
        }
    }
    // The types.
    assert forall|name: Name|
        same_type(
            #[trigger] spec_variable_type(&step.flow.variables, name),
            types_behind(view, given, longer)(name),
        ) by {
        reveal_with_fuel(spec_variable_type, 2);
        let types = types_behind(view, given, seen);
        assert(same_type(spec_variable_type(&flow.variables, name), types(name)));
        if let Some(equal) = initialized_at(view, index) {
            if next(equal) < view.tokens@.len() {
                let other = view.tokens@[next(equal) as int].name;
                assert(same_type(spec_variable_type(&flow.variables, other), types(other)));
            }
        }
        if let Some(loan) = borrow_at(view, index) {
            assert(same_type(
                spec_variable_type(&flow.variables, loan.referent),
                types(loan.referent),
            ));
        }
    }
}

/// The rules go on behind a token where they are said to.
proof fn lemma_following(st: Seq<Diagnostic>, view: &BodyTokens, flow: Flow, index: usize)
    requires
        index < view.end,
    ensures
        spec_check_token(st, view, flow, index).1.index == following(view, index),
{
    reveal(spec_check_token);
    reveal(spec_check_local);
    reveal(spec_check_borrowing_local);
    reveal(spec_check_moved_name);
}

/// Nothing is reported at a token exactly if it respects what happened before.
proof fn lemma_token_quiet(
    st: Seq<Diagnostic>,
    view: &BodyTokens,
    given: Types,
    seen: Seq<usize>,
    flow: Flow,
    index: usize,
)
    requires
        is_known(view, given, seen, flow, index as int),
        view.start <= index < view.end,
    ensures
        spec_check_token(st, view, flow, index).0.len() == st.len() <==> is_respectful(
            view,
            given,
            seen,
            index,
        ),
{
    reveal(spec_check_token);
    reveal(spec_check_local);
    reveal(spec_check_borrowing_local);
    reveal(spec_check_moved_name);
    reveal(spec_check_move);
    reveal(spec_check_plain_token);
    reveal(spec_check_use);
    reveal(spec_check_returned_reference);
    lemma_loans_now(view, given, seen, flow, index);
    let live = spec_live_loans(flow.loans, view, index);
    match kind_at(view.tokens, view.end, index) {
        Some(TokenKind::Const) | Some(TokenKind::Let) => {
            if declared_at(view, index) is Some && initialized_at(view, index) is Some {
                lemma_borrowing(view, index);
            }
            if let Some(loan) = borrow_at(view, index) {
                conflicts_are_found(
                    st,
                    loan.referent,
                    loan.mutable,
                    loan.span,
                    &live,
                    view,
                    index,
                );
                if forall|place: int|
                    0 <= place < live.seq().len() ==> !are_in_conflict(
                        view,
                        #[trigger] live.seq()[place],
                        loan.referent,
                        loan.mutable,
                        index,
                    ) {
                    assert forall|earlier: int|
                        0 <= earlier < seen.len() && borrow_at(
                            view,
                            #[trigger] seen[earlier],
                        ) is Some implies !are_in_conflict(
                        view,
                        borrow_at(view, seen[earlier])->0,
                        loan.referent,
                        loan.mutable,
                        index,
                    ) by {
                        let other = borrow_at(view, seen[earlier])->0;
                        if stands_from(view, other.binding, index as int) {
                            assert(live.seq().contains(other));
                            let place = choose|place: int|
                                0 <= place < live.seq().len() && live.seq()[place] == other;
                            assert(!are_in_conflict(
                                view,
                                live.seq()[place],
                                loan.referent,
                                loan.mutable,
                                index,
                            ));
                        }
                    }
                }
                if is_respectful(view, given, seen, index) {
                    assert forall|place: int| 0 <= place < live.seq().len() implies
                        !are_in_conflict(
                        view,
                        #[trigger] live.seq()[place],
                        loan.referent,
                        loan.mutable,
                        index,
                    ) by {
                        let other = live.seq()[place];
                        assert(live.seq().contains(other));
                        let earlier = choose|earlier: int|
                            0 <= earlier < seen.len() && borrow_at(view, #[trigger] seen[earlier])
                                == Some(other);
                        assert(borrow_at(view, seen[earlier]) is Some);
                    }
                }
            }
        },
        Some(TokenKind::Move) => {
            if let Some(name) = name_behind(view, index) {
                assert(same_type(
                    spec_variable_type(&flow.variables, name),
                    types_behind(view, given, seen)(name),
                ));
            }
        },
        Some(TokenKind::Return) => {
            if let Some(name) = name_behind(view, index) {
                assert(names_at(view, name, index + 1));
                assert(stands_from(view, name, index as int));
                lemma_loan_of(live, name);
                lemma_first_loan_held(borrows_at(view, seen), view, name, index as int);
                lemma_first_borrow(view, seen, name);
                match spec_loan_of(&live, name) {
                    Some(loan) => {
                        lemma_has_name(view.parameters, loan.referent);
                        let place = choose|place: int|
                            0 <= place < seen.len() && #[trigger] is_first_borrow_for(
                                view,
                                seen,
                                place,
                                name,
                            ) && borrow_at(view, seen[place]) == Some(loan);
                        assert forall|earlier: int|
                            0 <= earlier < seen.len() && #[trigger] is_first_borrow_for(
                                view,
                                seen,
                                earlier,
                                name,
                            ) implies earlier == place by {
                            lemma_only_first_borrow(view, seen, name, place, earlier);
                        }
                        assert(is_first_borrow_for(view, seen, place, name));
                    },
                    None => {
                        assert forall|earlier: int|
                            0 <= earlier < seen.len() implies !#[trigger] is_first_borrow_for(
                            view,
                            seen,
                            earlier,
                            name,
                        ) by {
                            assert(seen[earlier] == seen[earlier]);
                        }
                    },
                }
            }
        },
        Some(TokenKind::Await) => {
            let hit = |loan: NameLoan| !view.parameters.seq().contains(loan.referent);
            loans_are_reported_where_a_body_waits(
                st,
                span_of_token(view.tokens, view.file, index),
                view,
                &live,
            );
            lemma_filtered(live.seq(), hit);
            if forall|place: int|
                0 <= place < live.seq().len() ==> !hit(#[trigger] live.seq()[place]) {
                assert forall|earlier: int|
                    0 <= earlier < seen.len() && borrow_at(view, #[trigger] seen[earlier]) is Some
                        && stands_from(
                        view,
                        borrow_at(view, seen[earlier])->0.binding,
                        index as int,
                    ) implies view.parameters.seq().contains(
                    borrow_at(view, seen[earlier])->0.referent,
                ) by {
                    let other = borrow_at(view, seen[earlier])->0;
                    assert(live.seq().contains(other));
                    let place = choose|place: int|
                        0 <= place < live.seq().len() && live.seq()[place] == other;
                    assert(!hit(live.seq()[place]));
                }
            }
            if is_respectful(view, given, seen, index) {
                assert forall|place: int| 0 <= place < live.seq().len() implies !hit(
                    #[trigger] live.seq()[place],
                ) by {
                    let other = live.seq()[place];
                    assert(live.seq().contains(other));
                    let earlier = choose|earlier: int|
                        0 <= earlier < seen.len() && borrow_at(view, #[trigger] seen[earlier])
                            == Some(other);
                    assert(borrow_at(view, seen[earlier]) is Some);
                }
            }
        },
        Some(TokenKind::Identifier) => {
            let name = view.tokens@[index as int].name;
            assert(spec_moved_at(&flow.moved, name) is Some <==> exists|earlier: int|
                0 <= earlier < seen.len() && moved_name(view, #[trigger] seen[earlier]) == Some(
                    name,
                ));
        },
        _ => {},
    }
}

/// The tokens of a body are accepted exactly if each respects what happened at the tokens before.
proof fn lemma_tokens_quiet(
    st: Seq<Diagnostic>,
    view: &BodyTokens,
    given: Types,
    seen: Seq<usize>,
    flow: Flow,
    index: usize,
)
    requires
        is_known(view, given, seen, flow, index as int),
        view.start <= index,
    ensures
        spec_check_tokens(st, view, flow, index).len() == st.len() <==> are_respectful(
            view,
            given,
            seen,
            looked_at(view, index),
        ),
    decreases view.end.saturating_sub(index),
{
    if index < view.end {
        let (after, step) = spec_check_token(st, view, flow, index);
        lemma_following(st, view, flow, index);
        lemma_token_quiet(st, view, given, seen, flow, index);
        lemma_check_token(st, view, flow, index);
        let all = looked_at(view, index);
        assert(seen + all.take(0) =~= seen);
        assert(all[0] == index);
        if step.index > index {
            lemma_known_on(st, view, given, seen, flow, index, step.index as int);
            let longer = seen.push(index);
            let rest = looked_at(view, step.index);
            lemma_tokens_quiet(after, view, given, longer, step.flow, step.index);
            lemma_check_tokens(after, view, step.flow, step.index);
            assert(all =~= seq![index] + rest);
            assert forall|place: int| 0 <= place < rest.len() implies #[trigger] rest[place]
                == all[place + 1] && longer + rest.take(place) == seen + all.take(place + 1) by {
                assert(longer + rest.take(place) =~= seen + all.take(place + 1));
            }
            if are_respectful(view, given, seen, all) {
                assert forall|place: int| 0 <= place < rest.len() implies is_respectful(
                    view,
                    given,
                    longer + rest.take(place),
                    #[trigger] rest[place],
                ) by {
                    assert(is_respectful(
                        view,
                        given,
                        seen + all.take(place + 1),
                        all[place + 1],
                    ));
                }
                assert(is_respectful(view, given, seen + all.take(0), all[0]));
            }
            if are_respectful(view, given, longer, rest) && is_respectful(
                view,
                given,
                seen,
                index,
            ) {
                assert forall|place: int| 0 <= place < all.len() implies is_respectful(
                    view,
                    given,
                    seen + all.take(place),
                    #[trigger] all[place],
                ) by {
                    if place > 0 {
                        assert(rest[place - 1] == all[place]);
                    }
                }
            }
        } else {
            assert(all =~= seq![index]);
            if are_respectful(view, given, seen, all) {
                assert(is_respectful(view, given, seen + all.take(0), all[0]));
            }
        }
    }
}

/// Whether each of some tokens respects what happened at the tokens before.
pub open spec fn are_respectful(
    view: &BodyTokens,
    given: Types,
    seen: Seq<usize>,
    tokens: Seq<usize>,
) -> bool {
    forall|place: int|
        0 <= place < tokens.len() ==> is_respectful(
            view,
            given,
            seen + tokens.take(place),
            #[trigger] tokens[place],
        )
}

/// The types of parameters: of two with the same name the last counts.
pub open spec fn parameter_types(parameters: Seq<Parameter>) -> Types
    decreases parameters.len(),
{
    if parameters.len() == 0 {
        |name: Name| None
    } else {
        let before = parameter_types(parameters.drop_last());
        let last = parameters.last();
        |name: Name|
            if name == last.name {
                Some(last.ty)
            } else {
                before(name)
            }
    }
}

proof fn lemma_parameter_types(
    parameters: Seq<Parameter>,
    variables: List<Variable>,
    from: nat,
    name: Name,
)
    requires
        from <= parameters.len(),
        same_type(
            spec_variable_type(&variables, name),
            parameter_types(parameters.take(from as int))(name),
        ),
    ensures
        same_type(
            spec_variable_type(&parameter_variables_from(parameters, variables, from), name),
            parameter_types(parameters)(name),
        ),
    decreases parameters.len() - from,
{
    if from < parameters.len() {
        let item = &parameters[from as int];
        let folded = cons(Variable { name: item.name, ty: item.ty.dup() }, variables);
        let longer = parameters.take((from + 1) as int);
        assert(longer.drop_last() =~= parameters.take(from as int));
        assert(longer.last() == parameters[from as int]);
        reveal_with_fuel(spec_variable_type, 2);
        lemma_parameter_types(parameters, folded, from + 1, name);
    } else {
        assert(parameters.take(from as int) =~= parameters);
    }
}

/// A body is accepted exactly if each of its tokens respects what happened at the tokens before.
pub proof fn accepted_bodies_respect_their_borrows_and_moves(
    st: Seq<Diagnostic>,
    view: &BodyTokens,
    parameters: Seq<Parameter>,
)
    ensures
        ({
            let flow = Flow {
                variables: parameter_variables_from(parameters, List::Nil, 0),
                moved: List::Nil,
                loans: List::Nil,
            };
            spec_check_tokens(st, view, flow, view.start).len() == st.len() <==> are_respectful(
                view,
                parameter_types(parameters),
                Seq::empty(),
                looked_at(view, view.start),
            )
        }),
{
    let flow = Flow {
        variables: parameter_variables_from(parameters, List::Nil, 0),
        moved: List::Nil,
        loans: List::Nil,
    };
    let given = parameter_types(parameters);
    let seen = Seq::<usize>::empty();
    assert(flow.loans.seq() =~= borrows_at(view, seen));
    assert forall|name: Name|
        same_type(
            #[trigger] spec_variable_type(&flow.variables, name),
            types_behind(view, given, seen)(name),
        ) by {
        reveal_with_fuel(spec_variable_type, 2);
        assert(parameters.take(0) =~= Seq::empty());
        lemma_parameter_types(parameters, List::Nil, 0, name);
    }
    assert forall|name: Name| (#[trigger] spec_moved_at(&flow.moved, name)) is None by {
        reveal_with_fuel(spec_moved_at, 2);
    }
    assert(is_known(view, given, seen, flow, view.start as int));
    lemma_tokens_quiet(st, view, given, seen, flow, view.start);
}

} // verus!
