//! Expressions.

use vstd::prelude::*;

use crate::hir::{
    DefinitionData, HirExpressionKind, Method, PrimitiveType, Program, ResolvedValue, Type,
};
use crate::list::{one, List};
use crate::lowering::access::{
    accessed_type, dereferenced, reference_mode, spec_lower_computed_member, spec_lower_field,
    spec_lower_index, spec_lower_member_chain, spec_lower_optional_chain,
    spec_lower_string_byte_length, spec_lower_string_length,
};
use crate::lowering::bindings::undefined;
use crate::lowering::builder::{
    spec_is_captured, spec_local_type, spec_lowered_local, spec_new_block, spec_terminate, Builder,
    State,
};
use crate::lowering::calls::{checked_type, spec_lower_aggregate, spec_lower_call, spec_lower_new};
use crate::lowering::closures::{spec_lower_closure, spec_lower_template};
use crate::lowering::constants::constant;
use crate::lowering::context::{before, behind, next, Context, OperatorAt};
use crate::lowering::emit::{
    converted, spec_assign, spec_borrowed, spec_branch, spec_computed, spec_live,
    spec_lower_await_operand, spec_materialize_operand, TypedPlace, Value,
};
use crate::lowering::jsx::{spec_lower_jsx, spec_owned_text};
use crate::lowering::literals::literal_suffix_type;
use crate::lowering::members::is_global_declaration;
use crate::lowering::parser::parse_type_range;
use crate::lowering::recursion::{lowering, Lowering};
use crate::lowering::statements::{
    global_declaration, literal_type_of, makes_owned_string, spec_local_at,
    spec_lower_pointer_target, spec_type_of_local,
};
use crate::lowering::switches::spec_lower_match;
use crate::lowering::types::{
    atom_type, binary_operand_type, is_float_type, is_integer_type, mir_cast_kind,
    non_consuming_operand, normalize_string_comparison_operand, pointee_of, primitive, reference,
    task_promise_type, yields_bool,
};
use crate::mir::{
    operand_place, whole, BinaryOperator, Constant, LocalId, Operand, Projection, RawOperation,
    Rvalue, TerminatorKind, UnaryOperator,
};
use crate::names::Name;
use crate::program::find_method;
use crate::syntax::{Span, TokenKind};

verus! {

/// Whether a range is an expression with a mark behind it that says it is present.
#[verifier::allow_in_spec]
pub fn is_force_unwrap(cx: &Context, start: usize, end: usize) -> (r: bool)
    returns
        end > next(start) && cx.is(before(end), TokenKind::Bang) && cx.find_binary_operator(
            start,
            end,
        ).is_none() && !cx.is(start, TokenKind::Amp) && !cx.is(start, TokenKind::Bang) && !cx.is(
            start,
            TokenKind::Minus,
        ) && !cx.is(start, TokenKind::Star) && !cx.is(start, TokenKind::Tilde),
{
    end > next(start) && cx.is(before(end), TokenKind::Bang) && cx.find_binary_operator(
        start,
        end,
    ).is_none() && !cx.is(start, TokenKind::Amp) && !cx.is(start, TokenKind::Bang) && !cx.is(
        start,
        TokenKind::Minus,
    ) && !cx.is(start, TokenKind::Star) && !cx.is(start, TokenKind::Tilde)
}

/// The marks of a choice between two values.
#[derive(Clone, Copy, Debug, PartialEq, Eq, Structural)]
pub struct ConditionalAt {
    pub question: usize,
    pub colon: usize,
}

/// The marks of a choice between two values, if a range is one.
#[verifier::allow_in_spec]
pub fn conditional_at(cx: &Context, start: usize, end: usize) -> (r: Option<ConditionalAt>)
    returns
        match cx.find_top_level(start, end, TokenKind::Question) {
            Some(question) => {
                match cx.find_top_level(next(question), end, TokenKind::Colon) {
                    Some(colon) => Some(ConditionalAt { question, colon }),
                    None => None,
                }
            },
            None => None,
        },
{
    match cx.find_top_level(start, end, TokenKind::Question) {
        Some(question) => match cx.find_top_level(next(question), end, TokenKind::Colon) {
            Some(colon) => Some(ConditionalAt { question, colon }),
            None => None,
        },
        None => None,
    }
}

/// Whether a bracket at a position is closed by the last token of a range.
#[verifier::allow_in_spec]
pub fn closes_range(
    cx: &Context,
    start: usize,
    end: usize,
    open: TokenKind,
    close: TokenKind,
) -> (r: bool)
    returns
        cx.matching_token(start, open, close) == Some(before(end)),
{
    cx.matching_token(start, open, close) == Some(before(end))
}

/// Whether a range is an array or an object that is written out.
#[verifier::allow_in_spec]
pub fn is_literal_aggregate(cx: &Context, start: usize, end: usize) -> (r: bool)
    returns
        closes_range(cx, start, end, TokenKind::LeftBracket, TokenKind::RightBracket)
            || closes_range(
            cx,
            start,
            end,
            TokenKind::LeftBrace,
            TokenKind::RightBrace,
        ),
{
    closes_range(cx, start, end, TokenKind::LeftBracket, TokenKind::RightBracket) || closes_range(
        cx,
        start,
        end,
        TokenKind::LeftBrace,
        TokenKind::RightBrace,
    )
}

/// The logical operator that is applied last, if a range is made with one.
#[verifier::allow_in_spec]
pub fn short_circuit_at(cx: &Context, start: usize, end: usize) -> (r: Option<OperatorAt>)
    returns
        match cx.find_binary_operator(start, end) {
            Some(found) => {
                if found.index > start && (found.operator == BinaryOperator::LogicalAnd
                || found.operator == BinaryOperator::LogicalOr) {
                    Some(found)
                } else {
                    None
                }
            },
            None => None,
        },
{
    match cx.find_binary_operator(start, end) {
        Some(found) => {
            if found.index > start && (found.operator == BinaryOperator::LogicalAnd
                || found.operator == BinaryOperator::LogicalOr) {
                Some(found)
            } else {
                None
            }
        },
        None => None,
    }
}

/// Whether a range starts with an operator that stands before its only operand.
#[verifier::allow_in_spec]
pub fn is_prefixed(cx: &Context, start: usize) -> (r: bool)
    returns
        cx.is(start, TokenKind::Bang) || cx.is(start, TokenKind::Minus) || cx.is(
            start,
            TokenKind::Tilde,
        ),
{
    cx.is(start, TokenKind::Bang) || cx.is(start, TokenKind::Minus) || cx.is(
        start,
        TokenKind::Tilde,
    )
}

/// Whether a binary operator is applied to what starts with a prefixed operand.
#[verifier::allow_in_spec]
pub fn is_prefixed_binary(cx: &Context, start: usize, end: usize) -> (r: bool)
    returns
        match cx.find_binary_operator(start, end) {
            Some(found) => found.index > next(start),
            None => false,
        },
{
    match cx.find_binary_operator(start, end) {
        Some(found) => found.index > next(start),
        None => false,
    }
}

/// Whether a range has no binary operator before the type arguments or the parenthesis of a call.
#[verifier::allow_in_spec]
pub fn is_plain_callee(cx: &Context, start: usize, open: usize) -> (r: bool)
    returns
        match cx.generic_call_bounds(start, open) {
            Some(bounds) => cx.find_binary_operator(start, bounds.start).is_none(),
            None => cx.find_binary_operator(start, open).is_none(),
        },
{
    match cx.generic_call_bounds(start, open) {
        Some(bounds) => cx.find_binary_operator(start, bounds.start).is_none(),
        None => cx.find_binary_operator(start, open).is_none(),
    }
}

/// Whether a token can start a callee.
#[verifier::allow_in_spec]
pub fn starts_callee(cx: &Context, start: usize) -> (r: bool)
    returns
        !is_prefixed(cx, start) && !cx.is(start, TokenKind::Amp) && !cx.is(start, TokenKind::Star)
            && !cx.is(start, TokenKind::Move) && !cx.is(start, TokenKind::Try) && !cx.is(
            start,
            TokenKind::Await,
        ),
{
    !is_prefixed(cx, start) && !cx.is(start, TokenKind::Amp) && !cx.is(start, TokenKind::Star)
        && !cx.is(start, TokenKind::Move) && !cx.is(start, TokenKind::Try) && !cx.is(
        start,
        TokenKind::Await,
    )
}

/// The parenthesis that opens the arguments, if a range is a call.
#[verifier::allow_in_spec]
pub fn call_open(cx: &Context, start: usize, end: usize) -> (r: Option<usize>)
    returns
        match cx.find_top_level(start, end, TokenKind::LeftParen) {
            Some(open) => {
                if open > start && starts_callee(cx, start) && is_plain_callee(cx, start, open)
                && closes_range(cx, open, end, TokenKind::LeftParen, TokenKind::RightParen) {
                    Some(open)
                } else {
                    None
                }
            },
            None => None,
        },
{
    match cx.find_top_level(start, end, TokenKind::LeftParen) {
        Some(open) => {
            if open > start && starts_callee(cx, start) && is_plain_callee(cx, start, open)
                && closes_range(cx, open, end, TokenKind::LeftParen, TokenKind::RightParen) {
                Some(open)
            } else {
                None
            }
        },
        None => None,
    }
}

/// The bracket that opens the index, if a range is an element of a sequence.
#[verifier::opaque]
pub open spec fn spec_index_open(cx: &Context, start: usize, end: usize) -> Option<usize> {
    match cx.find_top_level(start, end, TokenKind::LeftBracket) {
        Some(open) => {
            if open > start && cx.find_binary_operator(start, open).is_none() && closes_range(
                cx,
                open,
                end,
                TokenKind::LeftBracket,
                TokenKind::RightBracket,
            ) {
                Some(open)
            } else {
                None
            }
        },
        None => None,
    }
}

/// The bracket that opens the index, if a range is an element of a sequence.
#[verifier::allow_in_spec]
pub fn index_open(cx: &Context, start: usize, end: usize) -> (r: Option<usize>)
    returns
        spec_index_open(cx, start, end),
{
    proof {
        reveal(spec_index_open);
    }
    match cx.find_top_level(start, end, TokenKind::LeftBracket) {
        Some(open) => {
            if open > start && cx.find_binary_operator(start, open).is_none() && closes_range(
                cx,
                open,
                end,
                TokenKind::LeftBracket,
                TokenKind::RightBracket,
            ) {
                Some(open)
            } else {
                None
            }
        },
        None => None,
    }
}

/// The keyword of a cast.
#[verifier::allow_in_spec]
pub fn cast_at(cx: &Context, start: usize, end: usize) -> (r: Option<usize>)
    returns
        match cx.find_top_level(start, end, TokenKind::As) {
            Some(cast) => Some(cast),
            None => cx.find_top_level(start, end, TokenKind::AsQuestion),
        },
{
    match cx.find_top_level(start, end, TokenKind::As) {
        Some(cast) => Some(cast),
        None => cx.find_top_level(start, end, TokenKind::AsQuestion),
    }
}

/// The first dot, if a range is a member or a chain of them.
#[verifier::allow_in_spec]
pub fn member_dot(cx: &Context, start: usize, end: usize) -> (r: Option<usize>)
    returns
        match cx.find_top_level(start, end, TokenKind::Dot) {
            Some(dot) => {
                if dot > start && !cx.is(start, TokenKind::Amp) && !cx.is(start, TokenKind::Star)
                    && cast_at(cx, start, end).is_none() && cx.find_binary_operator(
                    start,
                    end,
                ).is_none() {
                    Some(dot)
                } else {
                    None
                }
            },
            None => None,
        },
{
    match cx.find_top_level(start, end, TokenKind::Dot) {
        Some(dot) => {
            if dot > start && !cx.is(start, TokenKind::Amp) && !cx.is(start, TokenKind::Star)
                && cast_at(cx, start, end).is_none() && cx.find_binary_operator(
                start,
                end,
            ).is_none() {
                Some(dot)
            } else {
                None
            }
        },
        None => None,
    }
}

/// Whether a range has a binary operator between two operands.
#[verifier::allow_in_spec]
pub fn is_binary(cx: &Context, start: usize, end: usize) -> (r: bool)
    returns
        match cx.find_binary_operator(start, end) {
            Some(found) => found.index > start,
            None => false,
        },
{
    match cx.find_binary_operator(start, end) {
        Some(found) => found.index > start,
        None => false,
    }
}

/// The markup that a range is.
#[verifier::allow_in_spec]
pub fn jsx_at(cx: &Context, start: usize, end: usize) -> (r: Option<crate::hir::HirJsxId>)
    returns
        match cx.hir_expression_range(start, end) {
            Some(expression) => {
                match expression.kind {
                    HirExpressionKind::Jsx(id) => Some(id),
                    _ => None,
                }
            },
            None => None,
        },
{
    match cx.hir_expression_range(start, end) {
        Some(expression) => match expression.kind {
            HirExpressionKind::Jsx(id) => Some(id),
            _ => None,
        },
        None => None,
    }
}

/// The value of the expression that is a range of tokens.
#[verifier::opaque]
pub open spec fn spec_lower_expression_range(
    cx: &Context,
    st: State,
    start: usize,
    end: usize,
    expected: Option<&Type>,
    low: Lowering,
) -> (State, Option<Value>) {
    if start >= end {
        (st, None)
    } else if let Some(id) = jsx_at(cx, start, end) {
        spec_lower_jsx(cx, st, id, start, low)
    } else {
        match cx.resolution(start, end) {
            Some(ResolvedValue::Closure(closure)) => {
                spec_lower_closure(cx, st, start, closure, low)
            },
            Some(ResolvedValue::Template(template)) => {
                spec_lower_template(cx, st, start, template, low)
            },
            Some(ResolvedValue::StringLength) => {
                spec_lower_string_length(cx, st, start, end, low)
            },
            Some(ResolvedValue::StringByteLength) => {
                spec_lower_string_byte_length(cx, st, start, end, low)
            },
            _ => spec_lower_keyword(cx, st, start, end, expected, low),
        }
    }
}

impl Builder {
    /// The value of the expression that is a range of tokens.
    pub(crate) fn lower_expression_range(
        &mut self,
        cx: &Context,
        start: usize,
        end: usize,
        expected: Option<&Type>,
        limit: usize,
    ) -> (r: Option<Value>)
        ensures
            (final(self)@, r) == spec_lower_expression_range(
                cx,
                old(self)@,
                start,
                end,
                expected,
                lowering(limit as nat),
            ),
        decreases limit, 11nat, 0nat,
    {
        proof {
            reveal(spec_lower_expression_range);
        }
        if start >= end {
            return None;
        }
        if let Some(id) = jsx_at(cx, start, end) {
            return self.lower_jsx(cx, id, start, limit);
        }
        match cx.resolution(start, end) {
            Some(ResolvedValue::Closure(closure)) => self.lower_closure(cx, start, closure, limit),
            Some(ResolvedValue::Template(template)) =>
                self.lower_template(cx, start, template, limit),
            Some(ResolvedValue::StringLength) => self.lower_string_length(cx, start, end, limit),
            Some(ResolvedValue::StringByteLength) => {
                self.lower_string_byte_length(cx, start, end, limit)
            },
            _ => self.lower_keyword(cx, start, end, expected, limit),
        }
    }
}

/// An expression that may start with a keyword or end with a mark.
#[verifier::opaque]
pub open spec fn spec_lower_keyword(
    cx: &Context,
    st: State,
    start: usize,
    end: usize,
    expected: Option<&Type>,
    low: Lowering,
) -> (State, Option<Value>) {
    if cx.is(start, TokenKind::Try) && cx.is(next(start), TokenKind::Await) {
        spec_lower_await(cx, st, next(start), end, low)
    } else if cx.is(start, TokenKind::Await) {
        spec_lower_await(cx, st, start, end, low)
    } else if cx.is(start, TokenKind::Try) {
        (low.expression)(cx, st, next(start), end, expected)
    } else if is_force_unwrap(cx, start, end) {
        spec_lower_force_unwrap(cx, st, start, before(end), low)
    } else if cx.is(start, TokenKind::Switch) {
        spec_lower_match(cx, st, start, end, expected, low)
    } else if cx.is(start, TokenKind::New) {
        spec_lower_new(cx, st, start, end, low)
    } else if let Some(operator) = cx.find_top_level(start, end, TokenKind::QuestionQuestion) {
        spec_lower_coalesce(cx, st, start, operator, end, low)
    } else if let Some(marks) = conditional_at(cx, start, end) {
        spec_lower_conditional(cx, st, start, marks, end, expected, low)
    } else {
        spec_lower_bracketed(cx, st, start, end, expected, low)
    }
}

impl Builder {
    /// An expression that may start with a keyword or end with a mark.
    pub(crate) fn lower_keyword(
        &mut self,
        cx: &Context,
        start: usize,
        end: usize,
        expected: Option<&Type>,
        limit: usize,
    ) -> (r: Option<Value>)
        ensures
            (final(self)@, r) == spec_lower_keyword(
                cx,
                old(self)@,
                start,
                end,
                expected,
                lowering(limit as nat),
            ),
        decreases limit, 10nat, 0nat,
    {
        proof {
            reveal(spec_lower_keyword);
        }
        if cx.is(start, TokenKind::Try) && cx.is(next(start), TokenKind::Await) {
            return self.lower_await(cx, next(start), end, limit);
        }
        if cx.is(start, TokenKind::Await) {
            return self.lower_await(cx, start, end, limit);
        }
        if cx.is(start, TokenKind::Try) {
            return self.expression(cx, next(start), end, expected, limit);
        }
        if is_force_unwrap(cx, start, end) {
            return self.lower_force_unwrap(cx, start, before(end), limit);
        }
        if cx.is(start, TokenKind::Switch) {
            return self.lower_match(cx, start, end, expected, limit);
        }
        if cx.is(start, TokenKind::New) {
            return self.lower_new(cx, start, end, limit);
        }
        if let Some(operator) = cx.find_top_level(start, end, TokenKind::QuestionQuestion) {
            return self.lower_coalesce(cx, start, operator, end, limit);
        }
        if let Some(marks) = conditional_at(cx, start, end) {
            return self.lower_conditional(cx, start, marks, end, expected, limit);
        }
        self.lower_bracketed(cx, start, end, expected, limit)
    }
}

/// An expression that may stand in brackets or be made with a logical or prefixed operator.
#[verifier::opaque]
pub open spec fn spec_lower_bracketed(
    cx: &Context,
    st: State,
    start: usize,
    end: usize,
    expected: Option<&Type>,
    low: Lowering,
) -> (State, Option<Value>) {
    if is_literal_aggregate(cx, start, end) {
        spec_lower_aggregate(cx, st, start, end, expected, low)
    } else if closes_range(cx, start, end, TokenKind::LeftParen, TokenKind::RightParen) {
        if cx.find_top_level(next(start), before(end), TokenKind::Comma).is_some() {
            spec_lower_aggregate(cx, st, start, end, expected, low)
        } else {
            (low.expression)(cx, st, next(start), before(end), expected)
        }
    } else if let Some(found) = short_circuit_at(cx, start, end) {
        spec_lower_short_circuit(cx, st, start, found.index, end, found.operator, low)
    } else if is_prefixed(cx, start) {
        if is_prefixed_binary(cx, start, end) {
            spec_lower_binary_expression(cx, st, start, end, expected, low)
        } else {
            spec_lower_unary(cx, st, start, end, expected, low)
        }
    } else {
        spec_lower_postfix(cx, st, start, end, expected, low)
    }
}

impl Builder {
    /// An expression that may stand in brackets or be made with a logical or prefixed operator.
    pub(crate) fn lower_bracketed(
        &mut self,
        cx: &Context,
        start: usize,
        end: usize,
        expected: Option<&Type>,
        limit: usize,
    ) -> (r: Option<Value>)
        ensures
            (final(self)@, r) == spec_lower_bracketed(
                cx,
                old(self)@,
                start,
                end,
                expected,
                lowering(limit as nat),
            ),
        decreases limit, 9nat, 0nat,
    {
        proof {
            reveal(spec_lower_bracketed);
        }
        if is_literal_aggregate(cx, start, end) {
            return self.lower_aggregate(cx, start, end, expected, limit);
        }
        if closes_range(cx, start, end, TokenKind::LeftParen, TokenKind::RightParen) {
            if cx.find_top_level(next(start), before(end), TokenKind::Comma).is_some() {
                return self.lower_aggregate(cx, start, end, expected, limit);
            }
            return self.expression(cx, next(start), before(end), expected, limit);
        }
        if let Some(found) = short_circuit_at(cx, start, end) {
            return self.lower_short_circuit(cx, start, found.index, end, found.operator, limit);
        }
        if is_prefixed(cx, start) {
            if is_prefixed_binary(cx, start, end) {
                return self.lower_binary_expression(cx, start, end, expected, limit);
            }
            return self.lower_unary(cx, start, end, expected, limit);
        }
        self.lower_postfix(cx, start, end, expected, limit)
    }
}

/// An expression that may be a chain, a call, an element or a member.
#[verifier::opaque]
pub open spec fn spec_lower_postfix(
    cx: &Context,
    st: State,
    start: usize,
    end: usize,
    expected: Option<&Type>,
    low: Lowering,
) -> (State, Option<Value>) {
    if let Some(question_dot) = cx.find_top_level(start, end, TokenKind::QuestionDot) {
        spec_lower_optional_chain(cx, st, start, question_dot, end, low)
    } else if let Some(open) = call_open(cx, start, end) {
        spec_lower_call(cx, st, start, open, end, low)
    } else if let Some(open) = spec_index_open(cx, start, end) {
        if cx.direct_member_access(start, end).is_some() {
            spec_lower_computed_member(cx, st, start, open, end, low)
        } else {
            spec_lower_index(cx, st, start, open, end, low)
        }
    } else if let Some(dot) = member_dot(cx, start, end) {
        if behind(dot, 2) == end {
            spec_lower_field(cx, st, start, dot, end, low)
        } else {
            spec_lower_member_chain(cx, st, start, end, low)
        }
    } else if let Some(cast) = cast_at(cx, start, end) {
        spec_lower_cast(cx, st, start, cast, end, low)
    } else if let Some(operator) = cx.find_top_level(start, end, TokenKind::InstanceOf) {
        spec_lower_type_test(cx, st, start, operator, end, low)
    } else if is_binary(cx, start, end) {
        spec_lower_binary_expression(cx, st, start, end, expected, low)
    } else if cx.is(start, TokenKind::Star) {
        spec_lower_dereference(cx, st, start, end, expected, low)
    } else if cx.is(start, TokenKind::Amp) {
        spec_lower_borrow(cx, st, start, end, low)
    } else if cx.is(start, TokenKind::Move) {
        (st, spec_moved_local(cx, st, next(start)))
    } else {
        spec_lower_atom(cx, st, start, expected)
    }
}

impl Builder {
    /// An expression that may be a chain, a call, an element or a member.
    pub(crate) fn lower_postfix(
        &mut self,
        cx: &Context,
        start: usize,
        end: usize,
        expected: Option<&Type>,
        limit: usize,
    ) -> (r: Option<Value>)
        ensures
            (final(self)@, r) == spec_lower_postfix(
                cx,
                old(self)@,
                start,
                end,
                expected,
                lowering(limit as nat),
            ),
        decreases limit, 8nat, 0nat,
    {
        proof {
            reveal(spec_lower_postfix);
        }
        if let Some(question_dot) = cx.find_top_level(start, end, TokenKind::QuestionDot) {
            return self.lower_optional_chain(cx, start, question_dot, end, limit);
        }
        if let Some(open) = call_open(cx, start, end) {
            return self.lower_call(cx, start, open, end, limit);
        }
        if let Some(open) = index_open(cx, start, end) {
            if cx.direct_member_access(start, end).is_some() {
                return self.lower_computed_member(cx, start, open, end, limit);
            }
            return self.lower_index(cx, start, open, end, limit);
        }
        if let Some(dot) = member_dot(cx, start, end) {
            if behind(dot, 2) == end {
                return self.lower_field(cx, start, dot, end, limit);
            }
            return self.lower_member_chain(cx, start, end, limit);
        }
        if let Some(cast) = cast_at(cx, start, end) {
            return self.lower_cast(cx, start, cast, end, limit);
        }
        if let Some(operator) = cx.find_top_level(start, end, TokenKind::InstanceOf) {
            return self.lower_type_test(cx, start, operator, end, limit);
        }
        if is_binary(cx, start, end) {
            return self.lower_binary_expression(cx, start, end, expected, limit);
        }
        if cx.is(start, TokenKind::Star) {
            return self.lower_dereference(cx, start, end, expected, limit);
        }
        if cx.is(start, TokenKind::Amp) {
            return self.lower_borrow(cx, start, end, limit);
        }
        if cx.is(start, TokenKind::Move) {
            return self.moved_local(cx, next(start));
        }
        self.lower_atom(cx, start, expected)
    }
}

/// The value that is moved out of a local.
#[verifier::opaque]
pub open spec fn spec_moved_local(cx: &Context, st: State, index: usize) -> Option<Value> {
    match spec_local_at(cx, st, index) {
        Some(local) => {
            Some(
                Value { operand: Operand::Move(whole(local)), ty: spec_type_of_local(st, local) },
            )
        },
        None => None,
    }
}

impl Builder {
    /// The value that is moved out of a local.
    pub(crate) fn moved_local(&self, cx: &Context, index: usize) -> (r: Option<Value>)
        ensures
            r == spec_moved_local(cx, self@, index),
    {
        proof {
            reveal(spec_moved_local);
        }
        match self.local_at(cx, index) {
            Some(local) => Some(
                Value { operand: Operand::Move(whole(local)), ty: self.type_of_local(local) },
            ),
            None => None,
        }
    }
}

/// The type that a cast leads to: the one that was checked, but for a raw pointer the one that
/// is written.
#[verifier::opaque]
pub open spec fn spec_cast_target(
    cx: &Context,
    start: usize,
    cast: usize,
    end: usize,
) -> Option<Type> {
    let checked = match cx.type_of_range(start, end) {
        Some(Type::Error) => None,
        other => other,
    };
    if cx.is(cast, TokenKind::As) && matches!(checked, Some(Type::RawPointer { .. })) {
        match parse_type_range(cx, next(cast), end) {
            Some(written) => Some(written),
            None => checked,
        }
    } else {
        match checked {
            Some(ty) => Some(ty),
            None => parse_type_range(cx, next(cast), end),
        }
    }
}

/// The type that a cast leads to: the one that was checked, but for a raw pointer the one that
/// is written.
#[verifier::allow_in_spec]
pub fn cast_target(cx: &Context, start: usize, cast: usize, end: usize) -> (r: Option<Type>)
    returns
        spec_cast_target(cx, start, cast, end),
{
    proof {
        reveal(spec_cast_target);
    }
    let checked = match cx.type_of_range(start, end) {
        Some(Type::Error) => None,
        other => other,
    };
    if cx.is(cast, TokenKind::As) && matches!(checked, Some(Type::RawPointer { .. })) {
        match parse_type_range(cx, next(cast), end) {
            Some(written) => Some(written),
            None => checked,
        }
    } else {
        match checked {
            Some(ty) => Some(ty),
            None => parse_type_range(cx, next(cast), end),
        }
    }
}

/// The operand of a plain cast. A promise stays where it is when its address is taken.
#[verifier::allow_in_spec]
pub fn cast_operand(value: Value, target: &Type) -> (r: Value)
    returns
        if matches!(value.ty, Type::Promise { .. }) && matches!(target, Type::RawPointer { .. }) {
            Value { operand: non_consuming_operand(value.operand), ty: value.ty }
        } else {
            value
        },
{
    if matches!(value.ty, Type::Promise { .. }) && matches!(target, Type::RawPointer { .. }) {
        Value { operand: non_consuming_operand(value.operand), ty: value.ty }
    } else {
        value
    }
}

/// The operand of a cast.
#[verifier::opaque]
pub open spec fn spec_lower_cast_operand(
    cx: &Context,
    st: State,
    value: Value,
    target: &Type,
    cast: usize,
) -> (State, Option<Value>) {
    if cx.is(cast, TokenKind::AsQuestion) {
        spec_lower_checked_downcast_borrow(cx, st, value, target, cast)
    } else {
        (st, Some(cast_operand(value, target)))
    }
}

impl Builder {
    /// The operand of a cast.
    pub(crate) fn lower_cast_operand(
        &mut self,
        cx: &Context,
        value: Value,
        target: &Type,
        cast: usize,
    ) -> (r: Option<Value>)
        ensures
            (final(self)@, r) == spec_lower_cast_operand(cx, old(self)@, value, target, cast),
    {
        proof {
            reveal(spec_lower_cast_operand);
        }
        if cx.is(cast, TokenKind::AsQuestion) {
            return self.lower_checked_downcast_borrow(cx, value, target, cast);
        }
        Some(cast_operand(value, target))
    }
}

/// A cast.
#[verifier::opaque]
pub open spec fn spec_lower_cast(
    cx: &Context,
    st: State,
    start: usize,
    cast: usize,
    end: usize,
    low: Lowering,
) -> (State, Option<Value>) {
    let (st, attempt) = (low.expression)(cx, st, start, cast, None);
    match attempt {
        Some(value) => {
            match spec_cast_target(cx, start, cast, end) {
                Some(target) => {
                    let (st, attempt) = spec_lower_cast_operand(cx, st, value, &target, cast);
                    match attempt {
                        Some(source) => {
                            let (st, operand) = spec_computed(
                                st, target.dup(),
                                Rvalue::Cast {
                                    operand: source.operand,
                                    ty: target.dup(),
                                    kind: mir_cast_kind(&source.ty, &target),
                                },
                                cx.span_at(cast),
                            );
                            (st, Some(Value { operand, ty: target }))
                        },
                        _ => (st, None),
                    }
                },
                _ => (st, None),
            }
        },
        _ => (st, None),
    }
}

impl Builder {
    /// A cast.
    pub(crate) fn lower_cast(
        &mut self,
        cx: &Context,
        start: usize,
        cast: usize,
        end: usize,
        limit: usize,
    ) -> (r: Option<Value>)
        ensures
            (final(self)@, r) == spec_lower_cast(
                cx,
                old(self)@,
                start,
                cast,
                end,
                lowering(limit as nat),
            ),
        decreases limit, 1nat, 0nat,
    {
        proof {
            reveal(spec_lower_cast);
        }
        let Some(value) = self.expression(cx, start, cast, None, limit) else {
            return None;
        };
        let Some(target) = cast_target(cx, start, cast, end) else {
            return None;
        };
        let Some(source) = self.lower_cast_operand(cx, value, &target, cast) else {
            return None;
        };
        let operand = self.computed(
            target.dup(),
            Rvalue::Cast {
                operand: source.operand,
                ty: target.dup(),
                kind: mir_cast_kind(&source.ty, &target),
            },
            cx.span_at(cast),
        );
        Some(Value { operand, ty: target })
    }
}

/// The type of the reference that is cast to the optional reference `target`.
#[verifier::allow_in_spec]
pub fn downcast_source(source: &Type, target: &Type) -> (r: Option<Type>)
    returns
        match target {
            Type::Optional(inner) => {
                match &**inner {
                    Type::Reference { mutable, lifetime, .. } => {
                        Some(
                            reference(
                                *mutable,
                                *lifetime,
                                accessed_type(source).dup(),
                            ),
                        )
                    },
                    _ => None,
                }
            },
            _ => None,
        },
{
    match target {
        Type::Optional(inner) => match &**inner {
            Type::Reference { mutable, lifetime, .. } => Some(
                reference(
                    *mutable,
                    *lifetime,
                    accessed_type(source).dup(),
                ),
            ),
            _ => None,
        },
        _ => None,
    }
}

/// A reference to what is cast to a type that it may not have.
#[verifier::opaque]
pub open spec fn spec_lower_checked_downcast_borrow(
    cx: &Context,
    st: State,
    source: Value,
    target: &Type,
    token: usize,
) -> (State, Option<Value>) {
    match downcast_source(&source.ty, target) {
        Some(ty) => {
            match operand_place(source.operand) {
                Some(place) => {
                    let referent = dereferenced(
                        place,
                        reference_mode(&source.ty).is_some(),
                    );
                    let mutable = matches!(ty, Type::Reference { mutable: true, .. });
                    let (st, operand) = spec_borrowed(
                        st,
                        ty.dup(),
                        mutable,
                        referent,
                        cx.span_at(token),
                    );
                    (st, Some(Value { operand, ty }))
                },
                _ => (st, None),
            }
        },
        _ => (st, None),
    }
}

impl Builder {
    /// A reference to what is cast to a type that it may not have.
    pub(crate) fn lower_checked_downcast_borrow(
        &mut self,
        cx: &Context,
        source: Value,
        target: &Type,
        token: usize,
    ) -> (r: Option<Value>)
        ensures
            (final(self)@, r) == spec_lower_checked_downcast_borrow(
                cx,
                old(self)@,
                source,
                target,
                token,
            ),
    {
        proof {
            reveal(spec_lower_checked_downcast_borrow);
        }
        let Some(ty) = downcast_source(&source.ty, target) else {
            return None;
        };
        let Some(place) = operand_place(source.operand) else {
            return None;
        };
        let referent = dereferenced(
            place,
            reference_mode(&source.ty).is_some(),
        );
        let mutable = matches!(ty, Type::Reference { mutable: true, .. });
        let operand = self.borrowed(ty.dup(), mutable, referent, cx.span_at(token));
        Some(Value { operand, ty })
    }
}

/// A test of a value's type.
#[verifier::opaque]
pub open spec fn spec_lower_type_test(
    cx: &Context,
    st: State,
    start: usize,
    operator: usize,
    end: usize,
    low: Lowering,
) -> (State, Option<Value>) {
    let (st, attempt) = (low.expression)(cx, st, start, operator, None);
    match attempt {
        Some(value) => {
            match parse_type_range(cx, next(operator), end) {
                Some(target) => {
                    let (st, operand) = spec_computed(
                        st, primitive(PrimitiveType::Bool),
                        Rvalue::TypeTest { operand: value.operand, target },
                        cx.span_at(operator),
                    );
                    (st, Some(Value { operand, ty: primitive(PrimitiveType::Bool) }))
                },
                _ => (st, None),
            }
        },
        _ => (st, None),
    }
}

impl Builder {
    /// A test of a value's type.
    pub(crate) fn lower_type_test(
        &mut self,
        cx: &Context,
        start: usize,
        operator: usize,
        end: usize,
        limit: usize,
    ) -> (r: Option<Value>)
        ensures
            (final(self)@, r) == spec_lower_type_test(
                cx,
                old(self)@,
                start,
                operator,
                end,
                lowering(limit as nat),
            ),
        decreases limit, 1nat, 0nat,
    {
        proof {
            reveal(spec_lower_type_test);
        }
        let Some(value) = self.expression(cx, start, operator, None, limit) else {
            return None;
        };
        let Some(target) = parse_type_range(cx, next(operator), end) else {
            return None;
        };
        let operand = self.computed(
            primitive(PrimitiveType::Bool),
            Rvalue::TypeTest { operand: value.operand, target },
            cx.span_at(operator),
        );
        Some(Value { operand, ty: primitive(PrimitiveType::Bool) })
    }
}

/// A pointer that a named local holds.
#[verifier::opaque]
pub open spec fn spec_pointer_local(cx: &Context, st: State, index: usize) -> Option<Value> {
    match spec_local_at(cx, st, index) {
        Some(local) => {
            let ty = spec_type_of_local(st, local);
            if pointee_of(ty.dup()).is_some() {
                Some(Value { operand: Operand::Copy(whole(local)), ty })
            } else {
                None
            }
        },
        None => None,
    }
}

impl Builder {
    /// A pointer that a named local holds.
    pub(crate) fn pointer_local(&self, cx: &Context, index: usize) -> (r: Option<Value>)
        ensures
            r == spec_pointer_local(cx, self@, index),
    {
        proof {
            reveal(spec_pointer_local);
        }
        match self.local_at(cx, index) {
            Some(local) => {
                let ty = self.type_of_local(local);
                if pointee_of(ty.dup()).is_some() {
                    Some(Value { operand: Operand::Copy(whole(local)), ty })
                } else {
                    None
                }
            },
            None => None,
        }
    }
}

/// The pointer that is dereferenced: a local that holds one, or an expression.
#[verifier::opaque]
pub open spec fn spec_lower_pointer(
    cx: &Context,
    st: State,
    start: usize,
    end: usize,
    expected: Option<&Type>,
    low: Lowering,
) -> (State, Option<Value>) {
    if cx.is(before(end), TokenKind::Bang) {
        (low.expression)(cx, st, next(start), end, expected)
    } else {
        let held = spec_pointer_local(cx, st, next(start));
        if held.is_some() {
            (st, held)
        } else {
            (low.expression)(cx, st, next(start), end, None)
        }
    }
}

impl Builder {
    /// The pointer that is dereferenced: a local that holds one, or an expression.
    pub(crate) fn lower_pointer(
        &mut self,
        cx: &Context,
        start: usize,
        end: usize,
        expected: Option<&Type>,
        limit: usize,
    ) -> (r: Option<Value>)
        ensures
            (final(self)@, r) == spec_lower_pointer(
                cx,
                old(self)@,
                start,
                end,
                expected,
                lowering(limit as nat),
            ),
        decreases limit, 1nat, 0nat,
    {
        proof {
            reveal(spec_lower_pointer);
        }
        if cx.is(before(end), TokenKind::Bang) {
            return self.expression(cx, next(start), end, expected, limit);
        }
        let held = self.pointer_local(cx, next(start));
        if held.is_some() {
            return held;
        }
        self.expression(cx, next(start), end, None, limit)
    }
}

/// What a pointer leads to.
#[verifier::opaque]
pub open spec fn spec_lower_dereference(
    cx: &Context,
    st: State,
    start: usize,
    end: usize,
    expected: Option<&Type>,
    low: Lowering,
) -> (State, Option<Value>) {
    let (st, attempt) = spec_lower_pointer(cx, st, start, end, expected, low);
    match attempt {
        Some(pointer) => {
            match pointee_of(pointer.ty) {
                Some(ty) => {
                    let (st, operand) = spec_computed(
                        st, ty.dup(),
                        Rvalue::RawOperation {
                            operation: RawOperation::Dereference,
                            operands: one(pointer.operand),
                            ty: ty.dup(),
                        },
                        cx.span_at(start),
                    );
                    (st, Some(Value { operand, ty }))
                },
                _ => (st, None),
            }
        },
        _ => (st, None),
    }
}

impl Builder {
    /// What a pointer leads to.
    pub(crate) fn lower_dereference(
        &mut self,
        cx: &Context,
        start: usize,
        end: usize,
        expected: Option<&Type>,
        limit: usize,
    ) -> (r: Option<Value>)
        ensures
            (final(self)@, r) == spec_lower_dereference(
                cx,
                old(self)@,
                start,
                end,
                expected,
                lowering(limit as nat),
            ),
        decreases limit, 2nat, 0nat,
    {
        proof {
            reveal(spec_lower_dereference);
        }
        let Some(pointer) = self.lower_pointer(cx, start, end, expected, limit) else {
            return None;
        };
        let Some(ty) = pointee_of(pointer.ty) else {
            return None;
        };
        let operand = self.computed(
            ty.dup(),
            Rvalue::RawOperation {
                operation: RawOperation::Dereference,
                operands: one(pointer.operand),
                ty: ty.dup(),
            },
            cx.span_at(start),
        );
        Some(Value { operand, ty })
    }
}

/// The type of what a cast pointer leads to.
#[verifier::opaque]
pub open spec fn spec_cast_pointee(
    cx: &Context,
    start: usize,
    cast: usize,
    end: usize,
) -> Option<Type> {
    let target = match cx.type_of_range(start, end) {
        Some(ty) => Some(ty),
        None => parse_type_range(cx, next(cast), end),
    };
    match target {
        Some(Type::RawPointer { pointee, .. }) => Some(*pointee),
        _ => None,
    }
}

/// The type of what a cast pointer leads to.
#[verifier::allow_in_spec]
pub fn cast_pointee(cx: &Context, start: usize, cast: usize, end: usize) -> (r: Option<Type>)
    returns
        spec_cast_pointee(cx, start, cast, end),
{
    proof {
        reveal(spec_cast_pointee);
    }
    let target = match cx.type_of_range(start, end) {
        Some(ty) => Some(ty),
        None => parse_type_range(cx, next(cast), end),
    };
    match target {
        Some(Type::RawPointer { pointee, .. }) => Some(*pointee),
        _ => None,
    }
}

/// The place that a dereferenced pointer leads to.
#[verifier::opaque]
pub open spec fn spec_lower_dereference_place(
    cx: &Context,
    st: State,
    start: usize,
    end: usize,
    low: Lowering,
) -> (State, Option<TypedPlace>) {
    if !cx.is(start, TokenKind::Star) {
        (st, None)
    } else {
        match cast_at(cx, next(start), end) {
            Some(cast) => {
                let (st, attempt) = (low.expression)(cx, st, next(start), cast, None);
                match attempt {
                    Some(pointer) => {
                        match (spec_cast_pointee(cx, next(start), cast, end), operand_place(pointer.operand)) {
                            (Some(ty), Some(place)) => {
                                (st, Some(
                                    TypedPlace { place: place.step(Projection::Dereference), ty },
                                ))
                            },
                            _ => (st, None),
                        }
                    },
                    _ => (st, None),
                }
            },
            None => spec_lower_pointer_target(cx, st, start, end, low),
        }
    }
}

impl Builder {
    /// The place that a dereferenced pointer leads to.
    pub(crate) fn lower_dereference_place(
        &mut self,
        cx: &Context,
        start: usize,
        end: usize,
        limit: usize,
    ) -> (r: Option<TypedPlace>)
        ensures
            (final(self)@, r) == spec_lower_dereference_place(
                cx,
                old(self)@,
                start,
                end,
                lowering(limit as nat),
            ),
        decreases limit, 2nat, 0nat,
    {
        proof {
            reveal(spec_lower_dereference_place);
        }
        if !cx.is(start, TokenKind::Star) {
            return None;
        }
        match cast_at(cx, next(start), end) {
            Some(cast) => {
                let Some(pointer) = self.expression(cx, next(start), cast, None, limit) else {
                    return None;
                };
                match (cast_pointee(cx, next(start), cast, end), operand_place(pointer.operand)) {
                    (Some(ty), Some(place)) => Some(
                        TypedPlace { place: place.step(Projection::Dereference), ty },
                    ),
                    _ => None,
                }
            },
            None => self.lower_pointer_target(cx, start, end, limit),
        }
    }
}

/// The address of a global.
#[verifier::opaque]
pub open spec fn spec_lower_global_address(
    cx: &Context,
    st: State,
    global: crate::lowering::statements::Global,
    mutable: bool,
    start: usize,
) -> (State, Value) {
    let ty = reference(mutable, Name::Scope, global.ty);
    let (st, operand) = spec_computed(
        st, ty.dup(),
        Rvalue::RawOperation {
            operation: RawOperation::GlobalAddress(global.declaration),
            operands: List::Nil,
            ty: ty.dup(),
        },
        cx.span_at(start),
    );
    (st, Value { operand, ty })
}

impl Builder {
    /// The address of a global.
    pub(crate) fn lower_global_address(
        &mut self,
        cx: &Context,
        global: crate::lowering::statements::Global,
        mutable: bool,
        start: usize,
    ) -> (r: Value)
        ensures
            (final(self)@, r) == spec_lower_global_address(
                cx,
                old(self)@,
                global,
                mutable,
                start,
            ),
    {
        proof {
            reveal(spec_lower_global_address);
        }
        let ty = reference(mutable, Name::Scope, global.ty);
        let operand = self.computed(
            ty.dup(),
            Rvalue::RawOperation {
                operation: RawOperation::GlobalAddress(global.declaration),
                operands: List::Nil,
                ty: ty.dup(),
            },
            cx.span_at(start),
        );
        Value { operand, ty }
    }
}

/// A reference to a place.
#[verifier::opaque]
pub open spec fn spec_lower_reference(
    cx: &Context,
    st: State,
    target: TypedPlace,
    mutable: bool,
    start: usize,
) -> (State, Value) {
    let ty = reference(mutable, Name::Scope, target.ty);
    let (st, operand) = spec_borrowed(st, ty.dup(), mutable, target.place, cx.span_at(start));
    (st, Value { operand, ty })
}

impl Builder {
    /// A reference to a place.
    pub(crate) fn lower_reference(
        &mut self,
        cx: &Context,
        target: TypedPlace,
        mutable: bool,
        start: usize,
    ) -> (r: Value)
        ensures
            (final(self)@, r) == spec_lower_reference(cx, old(self)@, target, mutable, start),
    {
        proof {
            reveal(spec_lower_reference);
        }
        let ty = reference(mutable, Name::Scope, target.ty);
        let operand = self.borrowed(ty.dup(), mutable, target.place, cx.span_at(start));
        Value { operand, ty }
    }
}

/// The place that a value is read from.
#[verifier::opaque]
pub open spec fn spec_lower_place(
    cx: &Context,
    st: State,
    start: usize,
    end: usize,
    low: Lowering,
) -> (State, Option<TypedPlace>) {
    let (st, attempt) = (low.expression)(cx, st, start, end, None);
    match attempt {
        Some(value) => {
            match operand_place(value.operand) {
                Some(place) => (st, Some(TypedPlace { place, ty: value.ty })),
                None => (st, None),
            }
        },
        _ => (st, None),
    }
}

impl Builder {
    /// The place that a value is read from.
    pub(crate) fn lower_place(
        &mut self,
        cx: &Context,
        start: usize,
        end: usize,
        limit: usize,
    ) -> (r: Option<TypedPlace>)
        ensures
            (final(self)@, r) == spec_lower_place(
                cx,
                old(self)@,
                start,
                end,
                lowering(limit as nat),
            ),
        decreases limit, 1nat, 0nat,
    {
        proof {
            reveal(spec_lower_place);
        }
        let Some(value) = self.expression(cx, start, end, None, limit) else {
            return None;
        };
        match operand_place(value.operand) {
            Some(place) => Some(TypedPlace { place, ty: value.ty }),
            None => None,
        }
    }
}

/// A reference to what an expression names: a pointer's target, a global, or any other place.
#[verifier::opaque]
pub open spec fn spec_lower_borrow(
    cx: &Context,
    st: State,
    start: usize,
    end: usize,
    low: Lowering,
) -> (State, Option<Value>) {
    let mutable = cx.is(next(start), TokenKind::Mut);
    let name: usize = if mutable {
        behind(start, 2)
    } else {
        next(start)
    };
    let (st, pointed) = spec_lower_dereference_place(cx, st, name, end, low);
    if let Some(target) = pointed {
        let (st, value) = spec_lower_reference(cx, st, target, mutable, start);
        (st, Some(value))
    } else if let Some(global) = global_declaration(cx, name, end) {
        let (st, value) = spec_lower_global_address(cx, st, global, mutable, start);
        (st, Some(value))
    } else {
        let (st, attempt) = spec_lower_place(cx, st, name, end, low);
        match attempt {
            Some(target) => {
                let (st, value) = spec_lower_reference(cx, st, target, mutable, start);
                (st, Some(value))
            },
            _ => (st, None),
        }
    }
}

impl Builder {
    /// A reference to what an expression names: a pointer's target, a global, or any other place.
    pub(crate) fn lower_borrow(
        &mut self,
        cx: &Context,
        start: usize,
        end: usize,
        limit: usize,
    ) -> (r: Option<Value>)
        ensures
            (final(self)@, r) == spec_lower_borrow(
                cx,
                old(self)@,
                start,
                end,
                lowering(limit as nat),
            ),
        decreases limit, 3nat, 0nat,
    {
        proof {
            reveal(spec_lower_borrow);
        }
        let mutable = cx.is(next(start), TokenKind::Mut);
        let name: usize = if mutable {
            behind(start, 2)
        } else {
            next(start)
        };
        let pointed = self.lower_dereference_place(cx, name, end, limit);
        if let Some(target) = pointed {
            let value = self.lower_reference(cx, target, mutable, start);
            return Some(value);
        }
        if let Some(global) = global_declaration(cx, name, end) {
            let value = self.lower_global_address(cx, global, mutable, start);
            return Some(value);
        }
        let Some(target) = self.lower_place(cx, name, end, limit) else {
            return None;
        };
        let value = self.lower_reference(cx, target, mutable, start);
        Some(value)
    }
}

/// A prefixed operator and the type of its result.
pub struct UnaryResult {
    pub operator: UnaryOperator,
    pub ty: Type,
}

/// The prefixed operator at a position.
#[verifier::allow_in_spec]
pub fn unary_result(cx: &Context, start: usize, ty: &Type) -> (r: Option<UnaryResult>)
    returns
        match cx.kind(start) {
            Some(TokenKind::Bang) => {
                Some(
                    UnaryResult {
                        operator: UnaryOperator::LogicalNot,
                        ty: primitive(PrimitiveType::Bool),
                    },
                )
            },
            Some(TokenKind::Minus) => {
                Some(
                    UnaryResult { operator: UnaryOperator::Negate, ty: ty.dup() },
                )
            },
            Some(TokenKind::Tilde) => {
                Some(
                    UnaryResult { operator: UnaryOperator::BitNot, ty: ty.dup() },
                )
            },
            _ => None,
        },
{
    match cx.kind(start) {
        Some(TokenKind::Bang) => Some(
            UnaryResult {
                operator: UnaryOperator::LogicalNot,
                ty: primitive(PrimitiveType::Bool),
            },
        ),
        Some(TokenKind::Minus) => Some(
            UnaryResult { operator: UnaryOperator::Negate, ty: ty.dup() },
        ),
        Some(TokenKind::Tilde) => Some(
            UnaryResult { operator: UnaryOperator::BitNot, ty: ty.dup() },
        ),
        _ => None,
    }
}

/// A prefixed operator with its operand.
#[verifier::opaque]
pub open spec fn spec_lower_unary(
    cx: &Context,
    st: State,
    start: usize,
    end: usize,
    expected: Option<&Type>,
    low: Lowering,
) -> (State, Option<Value>) {
    let (st, attempt) = (low.expression)(cx, st, next(start), end, expected);
    match attempt {
        Some(value) => {
            match unary_result(cx, start, &value.ty) {
                Some(result) => {
                    let (st, operand) = spec_computed(
                        st, result.ty.dup(),
                        Rvalue::Unary {
                            operator: result.operator,
                            operand: value.operand,
                            operand_type: value.ty,
                            result_type: result.ty.dup(),
                        },
                        cx.span_at(start),
                    );
                    (st, Some(Value { operand, ty: result.ty }))
                },
                _ => (st, None),
            }
        },
        _ => (st, None),
    }
}

impl Builder {
    /// A prefixed operator with its operand.
    pub(crate) fn lower_unary(
        &mut self,
        cx: &Context,
        start: usize,
        end: usize,
        expected: Option<&Type>,
        limit: usize,
    ) -> (r: Option<Value>)
        ensures
            (final(self)@, r) == spec_lower_unary(
                cx,
                old(self)@,
                start,
                end,
                expected,
                lowering(limit as nat),
            ),
        decreases limit, 1nat, 0nat,
    {
        proof {
            reveal(spec_lower_unary);
        }
        let Some(value) = self.expression(cx, next(start), end, expected, limit) else {
            return None;
        };
        let Some(result) = unary_result(cx, start, &value.ty) else {
            return None;
        };
        let operand = self.computed(
            result.ty.dup(),
            Rvalue::Unary {
                operator: result.operator,
                operand: value.operand,
                operand_type: value.ty,
                result_type: result.ty.dup(),
            },
            cx.span_at(start),
        );
        Some(Value { operand, ty: result.ty })
    }
}

/// An operand of a binary operator. A comparison does not give its operands up.
#[verifier::opaque]
pub open spec fn spec_compared(value: Value, operator: BinaryOperator) -> Value {
    let operand = if operator == BinaryOperator::Equal || operator == BinaryOperator::NotEqual {
        non_consuming_operand(value.operand)
    } else {
        value.operand
    };
    let normalized = normalize_string_comparison_operand(operand, value.ty);
    Value { operand: normalized.0, ty: normalized.1 }
}

/// An operand of a binary operator. A comparison does not give its operands up.
#[verifier::allow_in_spec]
pub fn compared(value: Value, operator: BinaryOperator) -> (r: Value)
    returns
        spec_compared(value, operator),
{
    proof {
        reveal(spec_compared);
    }
    let operand = if operator == BinaryOperator::Equal || operator == BinaryOperator::NotEqual {
        non_consuming_operand(value.operand)
    } else {
        value.operand
    };
    let normalized = normalize_string_comparison_operand(operand, value.ty);
    Value { operand: normalized.0, ty: normalized.1 }
}

/// The type of what a binary operator makes.
#[verifier::allow_in_spec]
pub fn binary_result_type(operator: BinaryOperator, operand: &Type) -> (r: Type)
    returns
        if yields_bool(operator) {
            primitive(PrimitiveType::Bool)
        } else {
            operand.dup()
        },
{
    if yields_bool(operator) {
        primitive(PrimitiveType::Bool)
    } else {
        operand.dup()
    }
}

/// A binary operator with its operands.
#[verifier::opaque]
pub open spec fn spec_lower_binary_expression(
    cx: &Context,
    st: State,
    start: usize,
    end: usize,
    expected: Option<&Type>,
    low: Lowering,
) -> (State, Option<Value>) {
    match cx.find_binary_operator(start, end) {
        Some(found) => {
            if found.index <= start {
                (st, None)
            } else {
                let (st, attempt) = (low.expression)(cx, st, start, found.index, expected);
                match attempt {
                    Some(first) => {
                        let (st, attempt) = (low.expression)(cx, st, next(found.index), end, Some(&first.ty));
                        match attempt {
                            Some(second) => {
                                let left = spec_compared(first, found.operator);
                                let right = spec_compared(second, found.operator);
                                let operand_type = binary_operand_type(&left.ty, &right.ty);
                                let ty = binary_result_type(found.operator, &operand_type);
                                let (st, operand) = spec_computed(
                                    st, ty.dup(),
                                    Rvalue::CheckedBinary {
                                        operator: found.operator,
                                        left: left.operand,
                                        right: right.operand,
                                        operand_type,
                                        result_type: ty.dup(),
                                    },
                                    cx.span_at(found.index),
                                );
                                (st, Some(Value { operand, ty }))
                            },
                            _ => (st, None),
                        }
                    },
                    _ => (st, None),
                }
            }
        },
        _ => (st, None),
    }
}

impl Builder {
    /// A binary operator with its operands.
    pub(crate) fn lower_binary_expression(
        &mut self,
        cx: &Context,
        start: usize,
        end: usize,
        expected: Option<&Type>,
        limit: usize,
    ) -> (r: Option<Value>)
        ensures
            (final(self)@, r) == spec_lower_binary_expression(
                cx,
                old(self)@,
                start,
                end,
                expected,
                lowering(limit as nat),
            ),
        decreases limit, 1nat, 0nat,
    {
        proof {
            reveal(spec_lower_binary_expression);
        }
        let Some(found) = cx.find_binary_operator(start, end) else {
            return None;
        };
        if found.index <= start {
            return None;
        }
        let Some(first) = self.expression(cx, start, found.index, expected, limit) else {
            return None;
        };
        let Some(second) = self.expression(
            cx,
            next(found.index),
            end,
            Some(&first.ty),
            limit,
        ) else {
            return None;
        };
        let left = compared(first, found.operator);
        let right = compared(second, found.operator);
        let operand_type = binary_operand_type(&left.ty, &right.ty);
        let ty = binary_result_type(found.operator, &operand_type);
        let operand = self.computed(
            ty.dup(),
            Rvalue::CheckedBinary {
                operator: found.operator,
                left: left.operand,
                right: right.operand,
                operand_type,
                result_type: ty.dup(),
            },
            cx.span_at(found.index),
        );
        Some(Value { operand, ty })
    }
}

/// One of the two values of a choice.
#[verifier::opaque]
pub open spec fn spec_lower_choice(
    cx: &Context,
    st: State,
    block: crate::mir::BasicBlockId,
    start: usize,
    end: usize,
    destination: LocalId,
    ty: &Type,
    join: crate::mir::BasicBlockId,
    low: Lowering,
) -> (State, bool) {
    let st = State { current: block, ..st };
    let (st, attempt) = (low.expression)(cx, st, start, end, Some(ty));
    match attempt {
        Some(value) => {
            let st = spec_assign(
                st,
                destination,
                converted(value.operand, &value.ty, ty),
                cx.span_at(start),
            );
            let st = spec_terminate(st, TerminatorKind::Goto(join), cx.span_at(start));
            (st, true)
        },
        _ => (st, false),
    }
}

impl Builder {
    /// One of the two values of a choice.
    pub(crate) fn lower_choice(
        &mut self,
        cx: &Context,
        block: crate::mir::BasicBlockId,
        start: usize,
        end: usize,
        destination: LocalId,
        ty: &Type,
        join: crate::mir::BasicBlockId,
        limit: usize,
    ) -> (r: bool)
        ensures
            (final(self)@, r) == spec_lower_choice(
                cx,
                old(self)@,
                block,
                start,
                end,
                destination,
                ty,
                join,
                lowering(limit as nat),
            ),
        decreases limit, 1nat, 0nat,
    {
        proof {
            reveal(spec_lower_choice);
        }
        self.current = block;
        let Some(value) = self.expression(cx, start, end, Some(ty), limit) else {
            return false;
        };
        self.assign(destination, converted(value.operand, &value.ty, ty), cx.span_at(start));
        self.terminate(TerminatorKind::Goto(join), cx.span_at(start));
        true
    }
}

/// A choice between two values.
#[verifier::opaque]
pub open spec fn spec_lower_conditional(
    cx: &Context,
    st: State,
    start: usize,
    marks: ConditionalAt,
    end: usize,
    expected: Option<&Type>,
    low: Lowering,
) -> (State, Option<Value>) {
    let span = cx.span_at(marks.question);
    let bool_type = primitive(PrimitiveType::Bool);
    let (st, attempt) = (low.expression)(cx, st, start, marks.question, Some(&bool_type));
    match attempt {
        Some(condition) => {
            match checked_type(cx, start, end, expected) {
                Some(ty) => {
                    let (st, destination) = spec_live(st, ty.dup(), span);
                    let (st, then_block) = spec_new_block(st);
                    let (st, else_block) = spec_new_block(st);
                    let (st, join) = spec_new_block(st);
                    let st = spec_branch(st, condition.operand, then_block, else_block, span);
                    let (st, first) = spec_lower_choice(
                        cx,
                        st,
                        then_block,
                        next(marks.question),
                        marks.colon,
                        destination,
                        &ty,
                        join,
                        low,
                    );
                    if !first {
                        (st, None)
                    } else {
                        let (st, second) = spec_lower_choice(
                            cx,
                            st,
                            else_block,
                            next(marks.colon),
                            end,
                            destination,
                            &ty,
                            join,
                            low,
                        );
                        if !second {
                            (st, None)
                        } else {
                            let st = State { current: join, ..st };
                            (st, Some(Value { operand: Operand::Move(whole(destination)), ty }))
                        }
                    }
                },
                _ => (st, None),
            }
        },
        _ => (st, None),
    }
}

impl Builder {
    /// A choice between two values.
    pub(crate) fn lower_conditional(
        &mut self,
        cx: &Context,
        start: usize,
        marks: ConditionalAt,
        end: usize,
        expected: Option<&Type>,
        limit: usize,
    ) -> (r: Option<Value>)
        ensures
            (final(self)@, r) == spec_lower_conditional(
                cx,
                old(self)@,
                start,
                marks,
                end,
                expected,
                lowering(limit as nat),
            ),
        decreases limit, 2nat, 0nat,
    {
        proof {
            reveal(spec_lower_conditional);
        }
        let span = cx.span_at(marks.question);
        let bool_type = primitive(PrimitiveType::Bool);
        let Some(condition) = self.expression(
            cx,
            start,
            marks.question,
            Some(&bool_type),
            limit,
        ) else {
            return None;
        };
        let Some(ty) = checked_type(cx, start, end, expected) else {
            return None;
        };
        let destination = self.live(ty.dup(), span);
        let then_block = self.new_block();
        let else_block = self.new_block();
        let join = self.new_block();
        self.branch(condition.operand, then_block, else_block, span);
        let first = self.lower_choice(
            cx,
            then_block,
            next(marks.question),
            marks.colon,
            destination,
            &ty,
            join,
            limit,
        );
        if !first {
            return None;
        }
        let second = self.lower_choice(
            cx,
            else_block,
            next(marks.colon),
            end,
            destination,
            &ty,
            join,
            limit,
        );
        if !second {
            return None;
        }
        self.current = join;
        Some(Value { operand: Operand::Move(whole(destination)), ty })
    }
}

/// A logical operator, the second operand of which is only looked at where the first does not
/// decide.
#[verifier::opaque]
pub open spec fn spec_lower_short_circuit(
    cx: &Context,
    st: State,
    start: usize,
    operator_index: usize,
    end: usize,
    operator: BinaryOperator,
    low: Lowering,
) -> (State, Option<Value>) {
    let span = cx.span_at(operator_index);
    let bool_type = primitive(PrimitiveType::Bool);
    let (st, attempt) = (low.expression)(cx, st, start, operator_index, Some(&bool_type));
    match attempt {
        Some(left) => {
            let (st, destination) = spec_live(st, primitive(PrimitiveType::Bool), span);
            let (st, right_block) = spec_new_block(st);
            let (st, short_block) = spec_new_block(st);
            let (st, join) = spec_new_block(st);
            let is_and = operator == BinaryOperator::LogicalAnd;
            let st = if is_and {
                spec_branch(st, left.operand, right_block, short_block, span)
            } else {
                spec_branch(st, left.operand, short_block, right_block, span)
            };
            let st = State { current: short_block, ..st };
            let st = spec_assign(
                st,
                destination,
                Rvalue::Use(Operand::Constant(Constant::Bool(!is_and))),
                span,
            );
            let st = spec_terminate(st, TerminatorKind::Goto(join), span);
            let st = State { current: right_block, ..st };
            let (st, attempt) = (low.expression)(cx, st, next(operator_index), end, Some(&bool_type));
            match attempt {
                Some(right) => {
                    let st = spec_assign(st, destination, Rvalue::Use(right.operand), span);
                    let st = spec_terminate(st, TerminatorKind::Goto(join), span);
                    let st = State { current: join, ..st };
                    (st, Some(
                        Value {
                            operand: Operand::Move(whole(destination)),
                            ty: primitive(PrimitiveType::Bool),
                        },
                    ))
                },
                _ => (st, None),
            }
        },
        _ => (st, None),
    }
}

impl Builder {
    /// A logical operator, the second operand of which is only looked at where the first does not
    /// decide.
    pub(crate) fn lower_short_circuit(
        &mut self,
        cx: &Context,
        start: usize,
        operator_index: usize,
        end: usize,
        operator: BinaryOperator,
        limit: usize,
    ) -> (r: Option<Value>)
        ensures
            (final(self)@, r) == spec_lower_short_circuit(
                cx,
                old(self)@,
                start,
                operator_index,
                end,
                operator,
                lowering(limit as nat),
            ),
        decreases limit, 1nat, 0nat,
    {
        proof {
            reveal(spec_lower_short_circuit);
        }
        let span = cx.span_at(operator_index);
        let bool_type = primitive(PrimitiveType::Bool);
        let Some(left) = self.expression(cx, start, operator_index, Some(&bool_type), limit) else {
            return None;
        };
        let destination = self.live(primitive(PrimitiveType::Bool), span);
        let right_block = self.new_block();
        let short_block = self.new_block();
        let join = self.new_block();
        let is_and = operator == BinaryOperator::LogicalAnd;
        if is_and {
            self.branch(left.operand, right_block, short_block, span);
        } else {
            self.branch(left.operand, short_block, right_block, span);
        }
        self.current = short_block;
        self.assign(destination, Rvalue::Use(Operand::Constant(Constant::Bool(!is_and))), span);
        self.terminate(TerminatorKind::Goto(join), span);
        self.current = right_block;
        let Some(right) = self.expression(
            cx,
            next(operator_index),
            end,
            Some(&bool_type),
            limit,
        ) else {
            return None;
        };
        self.assign(destination, Rvalue::Use(right.operand), span);
        self.terminate(TerminatorKind::Goto(join), span);
        self.current = join;
        Some(
            Value {
                operand: Operand::Move(whole(destination)),
                ty: primitive(PrimitiveType::Bool),
            },
        )
    }
}

/// A task as the promise of its result.
#[verifier::opaque]
pub open spec fn spec_task_promise(
    cx: &Context,
    st: State,
    value: Value,
    span: Span,
) -> (State, Value) {
    match task_promise_type(cx.program, &value.ty) {
        Some(ty) => {
            let (st, operand) = spec_computed(
                st, ty.dup(),
                Rvalue::RawOperation {
                    operation: RawOperation::TaskIntoPromise,
                    operands: one(value.operand),
                    ty: ty.dup(),
                },
                span,
            );
            (st, Value { operand, ty })
        },
        None => (st, value),
    }
}

impl Builder {
    /// A task as the promise of its result.
    pub(crate) fn task_promise(&mut self, cx: &Context, value: Value, span: Span) -> (r: Value)
        ensures
            (final(self)@, r) == spec_task_promise(cx, old(self)@, value, span),
    {
        proof {
            reveal(spec_task_promise);
        }
        match task_promise_type(cx.program, &value.ty) {
            Some(ty) => {
                let operand = self.computed(
                    ty.dup(),
                    Rvalue::RawOperation {
                        operation: RawOperation::TaskIntoPromise,
                        operands: one(value.operand),
                        ty: ty.dup(),
                    },
                    span,
                );
                Value { operand, ty }
            },
            None => value,
        }
    }
}

/// A wait for a promise or a task.
#[verifier::opaque]
pub open spec fn spec_lower_await(
    cx: &Context,
    st: State,
    start: usize,
    end: usize,
    low: Lowering,
) -> (State, Option<Value>) {
    let (st, attempt) = (low.expression)(cx, st, next(start), end, None);
    match attempt {
        Some(value) => {
            let (st, promise) = spec_task_promise(cx, st, value, cx.span_at(start));
            spec_lower_await_operand(cx, st, promise, start)
        },
        _ => (st, None),
    }
}

impl Builder {
    /// A wait for a promise or a task.
    pub(crate) fn lower_await(
        &mut self,
        cx: &Context,
        start: usize,
        end: usize,
        limit: usize,
    ) -> (r: Option<Value>)
        ensures
            (final(self)@, r) == spec_lower_await(
                cx,
                old(self)@,
                start,
                end,
                lowering(limit as nat),
            ),
        decreases limit, 1nat, 0nat,
    {
        proof {
            reveal(spec_lower_await);
        }
        let Some(value) = self.expression(cx, next(start), end, None, limit) else {
            return None;
        };
        let promise = self.task_promise(cx, value, cx.span_at(start));
        self.lower_await_operand(cx, promise, start)
    }
}

/// A value if it is present, or else another.
#[verifier::opaque]
pub open spec fn spec_lower_coalesce(
    cx: &Context,
    st: State,
    start: usize,
    operator_index: usize,
    end: usize,
    low: Lowering,
) -> (State, Option<Value>) {
    let span = cx.span_at(operator_index);
    let (st, attempt) = (low.expression)(cx, st, start, operator_index, None);
    match attempt {
        Some(left) => {
            match left.ty {
                Type::Optional(inner) => {
                    let ty = inner.dup();
                    let (st, held) = spec_materialize_operand(
                        st,
                        left.operand,
                        Type::Optional(inner),
                        cx.span_at(start),
                    );
                    let (st, destination) = spec_live(st, ty.dup(), span);
                    let (st, fallback) = spec_new_block(st);
                    let (st, present) = spec_new_block(st);
                    let (st, join) = spec_new_block(st);
                    let st = spec_branch(st, Operand::Copy(held.dup()), present, fallback, span);
                    let st = State { current: present, ..st };
                    let st = spec_assign(
                        st,
                        destination,
                        Rvalue::Use(Operand::Copy(held.step(Projection::Downcast(1)))),
                        span,
                    );
                    let st = spec_terminate(st, TerminatorKind::Goto(join), span);
                    let st = State { current: fallback, ..st };
                    let (st, attempt) = (low.expression)(cx, st, next(operator_index), end, Some(&ty));
                    match attempt {
                        Some(right) => {
                            let st = spec_assign(
                                st,
                                destination,
                                converted(right.operand, &right.ty, &ty),
                                span,
                            );
                            let st = spec_terminate(st, TerminatorKind::Goto(join), span);
                            let st = State { current: join, ..st };
                            (st, Some(Value { operand: Operand::Move(whole(destination)), ty }))
                        },
                        _ => (st, None),
                    }
                },
                _ => (st, None),
            }
        },
        _ => (st, None),
    }
}

impl Builder {
    /// A value if it is present, or else another.
    pub(crate) fn lower_coalesce(
        &mut self,
        cx: &Context,
        start: usize,
        operator_index: usize,
        end: usize,
        limit: usize,
    ) -> (r: Option<Value>)
        ensures
            (final(self)@, r) == spec_lower_coalesce(
                cx,
                old(self)@,
                start,
                operator_index,
                end,
                lowering(limit as nat),
            ),
        decreases limit, 1nat, 0nat,
    {
        proof {
            reveal(spec_lower_coalesce);
        }
        let span = cx.span_at(operator_index);
        let Some(left) = self.expression(cx, start, operator_index, None, limit) else {
            return None;
        };
        let Type::Optional(inner) = left.ty else {
            return None;
        };
        let ty = inner.dup();
        let held = self.materialize_operand(left.operand, Type::Optional(inner), cx.span_at(start));
        let destination = self.live(ty.dup(), span);
        let fallback = self.new_block();
        let present = self.new_block();
        let join = self.new_block();
        self.branch(Operand::Copy(held.dup()), present, fallback, span);
        self.current = present;
        self.assign(
            destination,
            Rvalue::Use(Operand::Copy(held.step(Projection::Downcast(1)))),
            span,
        );
        self.terminate(TerminatorKind::Goto(join), span);
        self.current = fallback;
        let Some(right) = self.expression(cx, next(operator_index), end, Some(&ty), limit) else {
            return None;
        };
        self.assign(destination, converted(right.operand, &right.ty, &ty), span);
        self.terminate(TerminatorKind::Goto(join), span);
        self.current = join;
        Some(Value { operand: Operand::Move(whole(destination)), ty })
    }
}

/// What an optional operand holds.
#[verifier::allow_in_spec]
pub fn payload_operand(operand: Operand) -> (r: Option<Operand>)
    returns
        match operand {
            Operand::Copy(place) => Some(Operand::Copy(place.step(Projection::Downcast(1)))),
            Operand::Move(place) => Some(Operand::Move(place.step(Projection::Downcast(1)))),
            Operand::Constant(_) => None,
        },
{
    match operand {
        Operand::Copy(place) => Some(Operand::Copy(place.step(Projection::Downcast(1)))),
        Operand::Move(place) => Some(Operand::Move(place.step(Projection::Downcast(1)))),
        Operand::Constant(_) => None,
    }
}

/// A value that is known to be present.
#[verifier::opaque]
pub open spec fn spec_lower_force_unwrap(
    cx: &Context,
    st: State,
    start: usize,
    end: usize,
    low: Lowering,
) -> (State, Option<Value>) {
    let (st, attempt) = (low.expression)(cx, st, start, end, None);
    match attempt {
        Some(value) => {
            match value.ty {
                Type::Optional(inner) => {
                    match payload_operand(value.operand) {
                        Some(operand) => (st, Some(Value { operand, ty: *inner })),
                        None => (st, None),
                    }
                },
                ty => (st, Some(Value { operand: value.operand, ty })),
            }
        },
        _ => (st, None),
    }
}

impl Builder {
    /// A value that is known to be present.
    pub(crate) fn lower_force_unwrap(
        &mut self,
        cx: &Context,
        start: usize,
        end: usize,
        limit: usize,
    ) -> (r: Option<Value>)
        ensures
            (final(self)@, r) == spec_lower_force_unwrap(
                cx,
                old(self)@,
                start,
                end,
                lowering(limit as nat),
            ),
        decreases limit, 1nat, 0nat,
    {
        proof {
            reveal(spec_lower_force_unwrap);
        }
        let Some(value) = self.expression(cx, start, end, None, limit) else {
            return None;
        };
        match value.ty {
            Type::Optional(inner) => match payload_operand(value.operand) {
                Some(operand) => Some(Value { operand, ty: *inner }),
                None => None,
            },
            ty => Some(Value { operand: value.operand, ty }),
        }
    }
}

/// The value of a local. What a closure has captured is behind a reference.
#[verifier::opaque]
pub open spec fn spec_local_value(cx: &Context, st: State, local: LocalId) -> Option<Value> {
    match spec_local_type(st, local) {
        Some(ty) => {
            if spec_is_captured(st, local) {
                match ty {
                    Type::Reference { referent, .. } => Some(
                        Value {
                            operand: Operand::Copy(whole(local).step(Projection::Dereference)),
                            ty: *referent,
                        },
                    ),
                    _ => None,
                }
            } else {
                let operand = if cx.facts.is_copy(&ty) {
                    Operand::Copy(whole(local))
                } else {
                    Operand::Move(whole(local))
                };
                Some(Value { operand, ty })
            }
        },
        _ => None,
    }
}

impl Builder {
    /// The value of a local. What a closure has captured is behind a reference.
    pub(crate) fn local_value(&self, cx: &Context, local: LocalId) -> (r: Option<Value>)
        ensures
            r == spec_local_value(cx, self@, local),
    {
        proof {
            reveal(spec_local_value);
        }
        let Some(ty) = self.local_type(local) else {
            return None;
        };
        if self.is_captured(local) {
            return match ty {
                Type::Reference { referent, .. } => Some(
                    Value {
                        operand: Operand::Copy(whole(local).step(Projection::Dereference)),
                        ty: *referent,
                    },
                ),
                _ => None,
            };
        }
        let operand = if cx.facts.is_copy(&ty) {
            Operand::Copy(whole(local))
        } else {
            Operand::Move(whole(local))
        };
        Some(Value { operand, ty })
    }
}

/// An owned string that is made out of the literal at a position.
#[verifier::opaque]
pub open spec fn spec_lower_owned_literal(
    cx: &Context,
    st: State,
    index: usize,
) -> (State, Option<Value>) {
    let string_type = Type::String;
    match constant(cx, index, &string_type) {
        Some(Constant::String(text)) => {
            let (st, operand) = spec_owned_text(st, &text, cx.span_at(index));
            (st, Some(Value { operand, ty: Type::String }))
        },
        _ => (st, None),
    }
}

impl Builder {
    /// An owned string that is made out of the literal at a position.
    pub(crate) fn lower_owned_literal(&mut self, cx: &Context, index: usize) -> (r: Option<Value>)
        ensures
            (final(self)@, r) == spec_lower_owned_literal(cx, old(self)@, index),
    {
        proof {
            reveal(spec_lower_owned_literal);
        }
        let string_type = Type::String;
        match constant(cx, index, &string_type) {
            Some(Constant::String(text)) => {
                let operand = self.owned_text(&text, cx.span_at(index));
                Some(Value { operand, ty: Type::String })
            },
            _ => None,
        }
    }
}

/// The value of a global.
#[verifier::opaque]
pub open spec fn spec_lower_global_load(
    st: State,
    declaration: crate::hir::DeclarationId,
    ty: &Type,
    span: Span,
) -> (State, Value) {
    let (st, operand) = spec_computed(
        st, ty.dup(),
        Rvalue::RawOperation {
            operation: RawOperation::GlobalLoad(declaration),
            operands: List::Nil,
            ty: ty.dup(),
        },
        span,
    );
    (st, Value { operand, ty: ty.dup() })
}

impl Builder {
    /// The value of a global.
    pub(crate) fn lower_global_load(
        &mut self,
        declaration: crate::hir::DeclarationId,
        ty: &Type,
        span: Span,
    ) -> (r: Value)
        ensures
            (final(self)@, r) == spec_lower_global_load(old(self)@, declaration, ty, span),
    {
        proof {
            reveal(spec_lower_global_load);
        }
        let operand = self.computed(
            ty.dup(),
            Rvalue::RawOperation {
                operation: RawOperation::GlobalLoad(declaration),
                operands: List::Nil,
                ty: ty.dup(),
            },
            span,
        );
        Value { operand, ty: ty.dup() }
    }
}

/// The foreign function with a name in a declaration.
#[verifier::opaque]
pub open spec fn spec_foreign_function<'a>(
    program: &'a Program,
    declaration: crate::hir::DeclarationId,
    name: Name,
) -> Option<&'a Method> {
    match program.definition(declaration) {
        Some(definition) => {
            match &definition.data {
                DefinitionData::Foreign { functions } => find_method(functions, name),
                _ => None,
            }
        },
        None => None,
    }
}

/// The foreign function with a name in a declaration.
#[verifier::allow_in_spec]
pub fn foreign_function<'a>(
    program: &'a Program,
    declaration: crate::hir::DeclarationId,
    name: Name,
) -> (r: Option<&'a Method>)
    returns
        spec_foreign_function(program, declaration, name),
{
    proof {
        reveal(spec_foreign_function);
    }
    match program.definition(declaration) {
        Some(definition) => match &definition.data {
            DefinitionData::Foreign { functions } => find_method(functions, name),
            _ => None,
        },
        None => None,
    }
}

/// A function as a value.
#[verifier::opaque]
pub open spec fn spec_function_value(
    cx: &Context,
    declaration: crate::hir::DeclarationId,
    index: usize,
    ty: &Type,
) -> Value {
    let foreign = match cx.name_at(index) {
        Some(name) => spec_foreign_function(cx.program, declaration, name),
        None => None,
    };
    let constant = match foreign {
        Some(method) => {
            Constant::Method { owner: declaration, member: method.id, ty: ty.dup() }
        },
        None => Constant::Function(declaration, ty.dup()),
    };
    Value { operand: Operand::Constant(constant), ty: ty.dup() }
}

/// A function as a value.
#[verifier::allow_in_spec]
pub fn function_value(
    cx: &Context,
    declaration: crate::hir::DeclarationId,
    index: usize,
    ty: &Type,
) -> (r: Value)
    returns
        spec_function_value(cx, declaration, index, ty),
{
    proof {
        reveal(spec_function_value);
    }
    let foreign = match cx.name_at(index) {
        Some(name) => foreign_function(cx.program, declaration, name),
        None => None,
    };
    let constant = match foreign {
        Some(method) => Constant::Method { owner: declaration, member: method.id, ty: ty.dup() },
        None => Constant::Function(declaration, ty.dup()),
    };
    Value { operand: Operand::Constant(constant), ty: ty.dup() }
}

/// What a single token refers to.
pub enum AtomKind {
    OwnedLiteral,
    Local(crate::hir::HirLocalId),
    Global(crate::hir::DeclarationId),
    Function(crate::hir::DeclarationId),
    Other,
}

/// What the token at a position refers to.
#[verifier::opaque]
pub open spec fn spec_atom_kind(cx: &Context, index: usize) -> AtomKind {
    if cx.is(index, TokenKind::StringLiteral) && makes_owned_string(cx, index) {
        AtomKind::OwnedLiteral
    } else {
        match cx.hir_expression_at(index) {
            Some(expression) => {
                match expression.resolution {
                    Some(ResolvedValue::Local(local)) => AtomKind::Local(local),
                    Some(ResolvedValue::Declaration(declaration)) => {
                        match &expression.ty {
                            Type::Function(_) => AtomKind::Function(declaration),
                            _ => {
                                if is_global_declaration(cx.program, declaration) {
                                    AtomKind::Global(declaration)
                                } else {
                                    AtomKind::Other
                                }
                            },
                        }
                    },
                    _ => AtomKind::Other,
                }
            },
            None => AtomKind::Other,
        }
    }
}

/// What the token at a position refers to.
#[verifier::allow_in_spec]
pub fn atom_kind(cx: &Context, index: usize) -> (r: AtomKind)
    returns
        spec_atom_kind(cx, index),
{
    proof {
        reveal(spec_atom_kind);
    }
    if cx.is(index, TokenKind::StringLiteral) && makes_owned_string(cx, index) {
        return AtomKind::OwnedLiteral;
    }
    match cx.hir_expression_at(index) {
        Some(expression) => match expression.resolution {
            Some(ResolvedValue::Local(local)) => AtomKind::Local(local),
            Some(ResolvedValue::Declaration(declaration)) => match &expression.ty {
                Type::Function(_) => AtomKind::Function(declaration),
                _ => {
                    if is_global_declaration(cx.program, declaration) {
                        AtomKind::Global(declaration)
                    } else {
                        AtomKind::Other
                    }
                },
            },
            _ => AtomKind::Other,
        },
        None => AtomKind::Other,
    }
}

/// The type of the checked expression at a position.
#[verifier::allow_in_spec]
pub fn type_at(cx: &Context, index: usize) -> (r: Option<Type>)
    returns
        match cx.hir_expression_at(index) {
            Some(expression) => Some(expression.ty.dup()),
            None => None,
        },
{
    match cx.hir_expression_at(index) {
        Some(expression) => Some(expression.ty.dup()),
        None => None,
    }
}

/// The type that the suffix of the literal at a position names.
#[verifier::allow_in_spec]
pub fn explicit_type(cx: &Context, index: usize) -> (r: Option<Type>)
    returns
        match cx.token(index) {
            Some(token) => literal_type_of(token.text@, token.kind),
            None => None,
        },
{
    match cx.token(index) {
        Some(token) => literal_suffix_type(token.text.as_str(), token.kind),
        None => None,
    }
}

/// The type of a literal without a suffix where a type is expected.
#[verifier::opaque]
pub open spec fn spec_adopted_type(kind: TokenKind, expected: Option<&Type>) -> Option<Type> {
    match (kind, expected) {
        (TokenKind::IntegerLiteral, Some(ty)) => {
            if is_integer_type(ty) {
                Some(ty.dup())
            } else {
                None
            }
        },
        (TokenKind::FloatLiteral, Some(ty)) => {
            if is_float_type(ty) {
                Some(ty.dup())
            } else {
                None
            }
        },
        (TokenKind::Undefined, Some(ty)) => Some(ty.dup()),
        _ => None,
    }
}

/// The type of a literal without a suffix where a type is expected.
#[verifier::allow_in_spec]
pub fn adopted_type(kind: TokenKind, expected: Option<&Type>) -> (r: Option<Type>)
    returns
        spec_adopted_type(kind, expected),
{
    proof {
        reveal(spec_adopted_type);
    }
    match (kind, expected) {
        (TokenKind::IntegerLiteral, Some(ty)) => {
            if is_integer_type(ty) {
                Some(ty.dup())
            } else {
                None
            }
        },
        (TokenKind::FloatLiteral, Some(ty)) => {
            if is_float_type(ty) {
                Some(ty.dup())
            } else {
                None
            }
        },
        (TokenKind::Undefined, Some(ty)) => Some(ty.dup()),
        _ => None,
    }
}

/// The type of the literal at a position: the one its suffix names, the one that is expected, the
/// one that was checked, or the one it has by itself.
#[verifier::allow_in_spec]
pub fn literal_type_for(
    cx: &Context,
    index: usize,
    kind: TokenKind,
    expected: Option<&Type>,
) -> (r: Type)
    returns
        match (explicit_type(cx, index), spec_adopted_type(kind, expected)) {
            (Some(explicit), _) => explicit,
            (None, Some(adopted)) => adopted,
            (None, None) => {
                match type_at(cx, index) {
                    Some(ty) => ty,
                    None => atom_type(kind),
                }
            },
        },
{
    match (explicit_type(cx, index), adopted_type(kind, expected)) {
        (Some(explicit), _) => explicit,
        (None, Some(adopted)) => adopted,
        (None, None) => match type_at(cx, index) {
            Some(ty) => ty,
            None => atom_type(kind),
        },
    }
}

/// The literal at a position.
#[verifier::opaque]
pub open spec fn spec_literal_value(
    cx: &Context,
    index: usize,
    expected: Option<&Type>,
) -> Option<Value> {
    match cx.kind(index) {
        Some(kind) => {
            let ty = literal_type_for(cx, index, kind, expected);
            if kind == TokenKind::Undefined {
                Some(Value { operand: undefined(ty.dup()), ty })
            } else {
                match constant(cx, index, &ty) {
                    Some(constant) => Some(Value { operand: Operand::Constant(constant), ty }),
                    None => None,
                }
            }
        },
        _ => None,
    }
}

/// The literal at a position.
#[verifier::allow_in_spec]
pub fn literal_value(cx: &Context, index: usize, expected: Option<&Type>) -> (r: Option<Value>)
    returns
        spec_literal_value(cx, index, expected),
{
    proof {
        reveal(spec_literal_value);
    }
    let Some(kind) = cx.kind(index) else {
        return None;
    };
    let ty = literal_type_for(cx, index, kind, expected);
    if kind == TokenKind::Undefined {
        return Some(Value { operand: undefined(ty.dup()), ty });
    }
    match constant(cx, index, &ty) {
        Some(constant) => Some(Value { operand: Operand::Constant(constant), ty }),
        None => None,
    }
}

/// An expression that is a single token.
#[verifier::opaque]
pub open spec fn spec_lower_atom(
    cx: &Context,
    st: State,
    index: usize,
    expected: Option<&Type>,
) -> (State, Option<Value>) {
    match spec_atom_kind(cx, index) {
        AtomKind::OwnedLiteral => spec_lower_owned_literal(cx, st, index),
        AtomKind::Local(id) => {
            match spec_lowered_local(st, id) {
                Some(local) => (st, spec_local_value(cx, st, local)),
                None => (st, None),
            }
        },
        AtomKind::Global(declaration) => {
            match type_at(cx, index) {
                Some(ty) => {
                    let (st, value) = spec_lower_global_load(
                        st,
                        declaration,
                        &ty,
                        cx.span_at(index),
                    );
                    (st, Some(value))
                },
                None => (st, None),
            }
        },
        AtomKind::Function(declaration) => {
            match type_at(cx, index) {
                Some(ty) => (st, Some(spec_function_value(cx, declaration, index, &ty))),
                None => (st, None),
            }
        },
        AtomKind::Other => {
            match spec_local_at(cx, st, index) {
                Some(local) => (st, spec_local_value(cx, st, local)),
                None => (st, spec_literal_value(cx, index, expected)),
            }
        },
    }
}

impl Builder {
    /// An expression that is a single token.
    pub(crate) fn lower_atom(
        &mut self,
        cx: &Context,
        index: usize,
        expected: Option<&Type>,
    ) -> (r: Option<Value>)
        ensures
            (final(self)@, r) == spec_lower_atom(cx, old(self)@, index, expected),
    {
        proof {
            reveal(spec_lower_atom);
        }
        match atom_kind(cx, index) {
            AtomKind::OwnedLiteral => self.lower_owned_literal(cx, index),
            AtomKind::Local(id) => match self.lowered_local(id) {
                Some(local) => self.local_value(cx, local),
                None => None,
            },
            AtomKind::Global(declaration) => match type_at(cx, index) {
                Some(ty) => {
                    let value = self.lower_global_load(declaration, &ty, cx.span_at(index));
                    Some(value)
                },
                None => None,
            },
            AtomKind::Function(declaration) => match type_at(cx, index) {
                Some(ty) => Some(function_value(cx, declaration, index, &ty)),
                None => None,
            },
            AtomKind::Other => match self.local_at(cx, index) {
                Some(local) => self.local_value(cx, local),
                None => literal_value(cx, index, expected),
            },
        }
    }
}

} // verus!
