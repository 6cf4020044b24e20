//! How the lowering of an expression or a statement gets to those inside it.

use vstd::prelude::*;

use crate::hir::Type;
use crate::lowering::builder::{spec_is_open, spec_new_block, Builder, State};
use crate::lowering::context::Context;
use crate::lowering::emit::Value;
use crate::lowering::expressions::spec_lower_expression_range;
use crate::lowering::statements::spec_lower_statement;
use crate::syntax::TokenKind;

verus! {

/// How nested expressions and statements are lowered.
pub struct Lowering<'a> {
    pub expression: spec_fn(&'a Context<'a>, State, usize, usize, Option<&'a Type>) -> (
        State,
        Option<Value>,
    ),
    pub statement: spec_fn(&'a Context<'a>, State) -> State,
}

/// The lowering of code that is nested up to `limit` levels deep. Deeper expressions have no
/// value, and deeper statements do nothing.
#[verifier::opaque]
pub open spec fn lowering<'a>(limit: nat) -> Lowering<'a>
    decreases limit,
{
    if limit == 0 {
        Lowering {
            expression: |
                cx: &'a Context<'a>,
                st: State,
                start: usize,
                end: usize,
                expected: Option<&'a Type>,
            |
                (st, None),
            statement: |cx: &'a Context<'a>, st: State| st,
        }
    } else {
        let low = lowering((limit - 1) as nat);
        Lowering {
            expression: |
                cx: &'a Context<'a>,
                st: State,
                start: usize,
                end: usize,
                expected: Option<&'a Type>,
            |
                spec_lower_expression_range(cx, st, start, end, expected, low),
            statement: |cx: &'a Context<'a>, st: State| spec_lower_statement(cx, st, low),
        }
    }
}

impl Builder {
    /// The value of the expression that is a range of tokens.
    pub(crate) fn expression(
        &mut self,
        cx: &Context,
        start: usize,
        end: usize,
        expected: Option<&Type>,
        limit: usize,
    ) -> (r: Option<Value>)
        ensures
            (final(self)@, r) == (lowering(limit as nat).expression)(
                cx,
                old(self)@,
                start,
                end,
                expected,
            ),
        decreases limit, 0nat, 0nat,
    {
        proof {
            reveal_with_fuel(lowering, 2);
        }
        if limit == 0 {
            None
        } else {
            self.lower_expression_range(cx, start, end, expected, limit - 1)
        }
    }

    /// The statement at the current position.
    pub(crate) fn source_statement(&mut self, cx: &Context, limit: usize)
        ensures
            final(self)@ == (lowering(limit as nat).statement)(cx, old(self)@),
        decreases limit, 0nat, 0nat,
    {
        proof {
            reveal_with_fuel(lowering, 2);
        }
        if limit > 0 {
            self.lower_statement(cx, limit - 1);
        }
    }
}

/// The kind of a token of the body.
#[verifier::allow_in_spec]
pub fn body_kind(cx: &Context, index: usize) -> (r: Option<TokenKind>)
    returns
        if index < cx.body_limit {
            cx.kind(index)
        } else {
            None
        },
{
    if index < cx.body_limit {
        cx.kind(index)
    } else {
        None
    }
}

/// The kind of the token at the current position.
#[verifier::opaque]
pub open spec fn spec_here(cx: &Context, st: State) -> Option<TokenKind> {
    body_kind(cx, st.index)
}

impl Builder {
    /// The kind of the token at the current position.
    pub(crate) fn here(&self, cx: &Context) -> (r: Option<TokenKind>)
        ensures
            r == spec_here(cx, self@),
    {
        proof {
            reveal(spec_here);
        }
        body_kind(cx, self.index)
    }
}

/// The graph with an open block: the current one, or a new one behind it.
#[verifier::opaque]
pub open spec fn spec_reopen(st: State) -> State {
    if !spec_is_open(st) {
        let (st, block) = spec_new_block(st);
        let st = State { current: block, ..st };
        st
    } else {
        st
    }
}

impl Builder {
    /// The graph with an open block: the current one, or a new one behind it.
    pub(crate) fn reopen(&mut self)
        ensures
            final(self)@ == spec_reopen(old(self)@),
    {
        proof {
            reveal(spec_reopen);
        }
        if !self.is_open() {
            let block = self.new_block();
            self.current = block;
        }
    }
}

/// The graph with the statements from the current position on, up to a token that ends them.
pub open spec fn spec_lower_sequence(
    cx: &Context,
    st: State,
    end: Option<TokenKind>,
    low: Lowering,
) -> State
    decreases cx.body_limit.saturating_sub(st.index),
{
    if st.index >= cx.body_limit || cx.kind(st.index) is None || cx.kind(st.index) == end {
        st
    } else {
        let lowered = (low.statement)(cx, spec_reopen(st));
        if lowered.index <= st.index {
            lowered
        } else {
            spec_lower_sequence(cx, lowered, end, low)
        }
    }
}

impl Builder {
    /// The statements from the current position on, up to a token that ends them.
    pub(crate) fn lower_sequence(&mut self, cx: &Context, end: Option<TokenKind>, limit: usize)
        ensures
            final(self)@ == spec_lower_sequence(cx, old(self)@, end, lowering(limit as nat)),
        decreases limit, 1nat, 0nat,
    {
        let ghost low = lowering(limit as nat);
        let ghost given = self@;
        while self.index < cx.body_limit && cx.kind(self.index).is_some() && cx.kind(self.index)
            != end
            invariant
                low == lowering(limit as nat),
                given == old(self)@,
                spec_lower_sequence(cx, given, end, low) == spec_lower_sequence(
                    cx,
                    self@,
                    end,
                    low,
                ),
            decreases cx.body_limit.saturating_sub(self.index),
        {
            let start: usize = self.index;
            self.reopen();
            self.source_statement(cx, limit);
            if self.index <= start {
                return;
            }
        }
    }
}

} // verus!
