//! The reports of a check, in the order in which they are made.

use vstd::prelude::*;

use crate::diagnostics::Diagnostic;

verus! {

/// The reports that a check has made so far.
pub struct Reports {
    pub diagnostics: Vec<Diagnostic>,
}

/// The reports with one more.
pub open spec fn spec_add(st: Seq<Diagnostic>, diagnostic: Diagnostic) -> Seq<Diagnostic> {
    st.push(diagnostic)
}

impl Reports {
    pub open spec fn view(&self) -> Seq<Diagnostic> {
        self.diagnostics@
    }

    /// No reports.
    pub fn new() -> (r: Reports)
        ensures
            r@ == Seq::<Diagnostic>::empty(),
    {
        Reports { diagnostics: Vec::new() }
    }

    pub(crate) fn add(&mut self, diagnostic: Diagnostic)
        ensures
            final(self)@ == spec_add(old(self)@, diagnostic),
    {
        self.diagnostics.push(diagnostic);
    }
}

} // verus!
