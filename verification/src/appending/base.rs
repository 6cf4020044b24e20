//! When one list of reports goes on where another ends.

use vstd::prelude::*;

use crate::diagnostics::Diagnostic;
use crate::reports::spec_add;

verus! {

/// Whether the reports are those before with others behind them.
pub open spec fn extends(before: Seq<Diagnostic>, after: Seq<Diagnostic>) -> bool {
    before.len() <= after.len() && after.take(before.len() as int) == before
}

/// Adding can be continued.
pub proof fn lemma_extends_on(
    first: Seq<Diagnostic>,
    second: Seq<Diagnostic>,
    third: Seq<Diagnostic>,
)
    requires
        extends(first, second),
        extends(second, third),
    ensures
        extends(first, third),
{
    assert(third.take(first.len() as int) =~= third.take(second.len() as int).take(
        first.len() as int,
    ));
}

/// To add nothing is to add.
pub proof fn lemma_extends_itself(st: Seq<Diagnostic>)
    ensures
        extends(st, st),
{
    assert(st.take(st.len() as int) =~= st);
}

/// Where nothing was reported, nothing was reported before.
pub proof fn lemma_extends_nothing(before: Seq<Diagnostic>, after: Seq<Diagnostic>)
    requires
        extends(before, after),
        after.len() == 0,
    ensures
        before == Seq::<Diagnostic>::empty(),
        after == Seq::<Diagnostic>::empty(),
{
    assert(before =~= Seq::<Diagnostic>::empty());
    assert(after =~= Seq::<Diagnostic>::empty());
}

pub proof fn lemma_add(st: Seq<Diagnostic>, diagnostic: Diagnostic)
    ensures
        extends(st, spec_add(st, diagnostic)),
{
    assert(st.push(diagnostic).take(st.len() as int) =~= st);
}

} // verus!
