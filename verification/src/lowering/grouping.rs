//! Parentheses around an expression do not change it.

use vstd::prelude::*;

use crate::hir::Type;
use crate::lowering::builder::State;
use crate::lowering::context::{before, depth_behind, matching_from, next, top_level_from, Context};
use crate::lowering::expressions::{
    spec_lower_bracketed, spec_lower_expression_range, spec_lower_keyword,
};
use crate::lowering::recursion::lowering;
use crate::syntax::TokenKind;

verus! {

/// The number of brackets that the tokens from `start` up to `end` open and do not close.
pub open spec fn open_brackets(cx: &Context, start: usize, end: usize) -> usize
    decreases end,
{
    if end <= start {
        0
    } else {
        let before = open_brackets(cx, start, (end - 1) as usize);
        match cx.kind((end - 1) as usize) {
            Some(kind) => depth_behind(before, kind),
            None => before,
        }
    }
}

/// Whether a range is made of an opening parenthesis, the one that closes it, and tokens between
/// them that stand in it, because their own brackets are balanced.
pub open spec fn is_grouped(cx: &Context, start: usize, end: usize) -> bool {
    &&& start + 1 < end
    &&& cx.matching_token(start, TokenKind::LeftParen, TokenKind::RightParen) == Some(
        (end - 1) as usize,
    )
    &&& forall|index: usize| start < index < end ==> #[trigger] open_brackets(cx, start, index) > 0
}

proof fn lemma_matching_closes(
    cx: &Context,
    open: TokenKind,
    close: TokenKind,
    index: usize,
    depth: usize,
)
    ensures
        matching_from(cx, open, close, index, depth) matches Some(found) ==> cx.kind(found)
            == Some(close),
    decreases cx.count - index,
{
    if index < cx.count {
        match cx.kind(index) {
            Some(kind) => {
                if kind == open {
                    lemma_matching_closes(
                        cx,
                        open,
                        close,
                        (index + 1) as usize,
                        depth.saturating_add(1),
                    );
                } else if kind == close {
                    if depth > 1 {
                        lemma_matching_closes(
                            cx,
                            open,
                            close,
                            (index + 1) as usize,
                            (depth - 1) as usize,
                        );
                    }
                } else {
                    lemma_matching_closes(cx, open, close, (index + 1) as usize, depth);
                }
            },
            None => {},
        }
    }
}

proof fn lemma_nothing_outside(
    cx: &Context,
    start: usize,
    end: usize,
    needle: TokenKind,
    index: usize,
)
    requires
        is_grouped(cx, start, end),
        needle != TokenKind::LeftParen,
        start <= index,
    ensures
        top_level_from(cx, end, needle, index, open_brackets(cx, start, index)) is None,
    decreases end - index,
{
    if index < end {
        if start < index {
            assert(open_brackets(cx, start, index) > 0);
        }
        match cx.kind(index) {
            Some(kind) => {
                let behind = (index + 1) as usize;
                assert(open_brackets(cx, start, behind) == depth_behind(
                    open_brackets(cx, start, index),
                    kind,
                ));
                lemma_nothing_outside(cx, start, end, needle, behind);
            },
            None => {},
        }
    }
}

/// An expression in parentheses, which holds no comma outside of inner brackets and is no checked
/// expression of its own, is lowered as the expression inside: with the same value and the same
/// effect. The parentheses are one level of nesting.
pub proof fn parentheses_are_transparent(
    cx: &Context,
    st: State,
    start: usize,
    end: usize,
    expected: Option<&Type>,
    limit: nat,
)
    requires
        is_grouped(cx, start, end),
        cx.find_top_level((start + 1) as usize, (end - 1) as usize, TokenKind::Comma) is None,
        cx.hir_expression_range(start, end) is None,
    ensures
        spec_lower_expression_range(cx, st, start, end, expected, lowering(limit + 1))
            == spec_lower_expression_range(
            cx,
            st,
            (start + 1) as usize,
            (end - 1) as usize,
            expected,
            lowering(limit),
        ),
        (lowering(limit + 1).expression)(cx, st, start, end, expected) == (lowering(
            limit,
        ).expression)(cx, st, (start + 1) as usize, (end - 1) as usize, expected),
{
    reveal(spec_lower_keyword);
    reveal(spec_lower_bracketed);
    lemma_matching_closes(cx, TokenKind::LeftParen, TokenKind::RightParen, start, 0);
    lemma_nothing_outside(cx, start, end, TokenKind::QuestionQuestion, start);
    lemma_nothing_outside(cx, start, end, TokenKind::Question, start);
    let inside: usize = (start + 1) as usize;
    let last: usize = (end - 1) as usize;
    assert(next(start) == inside);
    assert(before(end) == last);
    assert forall|low_limit: nat| #[trigger]
        spec_lower_expression_range(cx, st, start, end, expected, lowering(low_limit)) == (lowering(
            low_limit,
        ).expression)(cx, st, inside, last, expected) by {
        reveal(spec_lower_expression_range);
    }
    assert((limit + 1 - 1) as nat == limit);
    assert(spec_lower_expression_range(cx, st, start, end, expected, lowering(limit + 1)) == (
    lowering(limit + 1).expression)(cx, st, inside, last, expected));
    assert(spec_lower_expression_range(cx, st, start, end, expected, lowering(limit)) == (lowering(
        limit,
    ).expression)(cx, st, inside, last, expected));
    reveal_with_fuel(lowering, 2);
}

} // verus!
