//! What the lowering of a body reads: its tokens, its checked form and the program around it.

use vstd::prelude::*;

use crate::hir::{
    BodyHir, BodyOwner, DeclarationId, HirBindingPattern, HirClosure, HirClosureId, HirExpression,
    HirLocal, HirLocalId, HirPattern, HirStatement, HirStatementKind, HirTemplate, HirTemplateId,
    IterationWitness, MemberId, Module, Namespace, Program, ResolvedValue, Type,
};
use crate::list::{list_of, List};
use crate::lowering::types::{assignment_operator, binary_operator};
use crate::mir::BinaryOperator;
use crate::names::Name;
use crate::ownership::facts::OwnershipFacts;
use crate::syntax::{empty_span, File, Span, Token, TokenKind};

verus! {

/// A generic parameter that is in scope.
#[derive(Clone, Copy, Debug, PartialEq, Eq, Structural)]
pub struct ScopedGeneric {
    pub name: Name,
    pub namespace: Namespace,
}

/// The surroundings of a body that is being lowered.
///
/// The body is made up of the `count` tokens from `first` on, which are numbered from zero;
/// `body_limit` is the number of the token that ends it.
pub struct Context<'a> {
    pub program: &'a Program,
    pub module: &'a Module,
    pub hir: &'a BodyHir,
    pub facts: &'a OwnershipFacts,
    pub tokens: &'a Vec<Token>,
    pub first: usize,
    pub count: usize,
    pub body_limit: usize,
    pub return_type: Type,
    pub declared_effects: List<DeclarationId>,
    pub generics: List<ScopedGeneric>,
    pub generator_item_type: Option<Type>,
    pub generator_async: bool,
}

/// A range of tokens.
#[derive(Clone, Copy, Debug, PartialEq, Eq, Structural)]
pub struct TokenRange {
    pub start: usize,
    pub end: usize,
}

/// The position behind another.
#[verifier::allow_in_spec]
pub fn next(index: usize) -> (r: usize)
    returns
        index.saturating_add(1),
{
    index.saturating_add(1)
}

/// The position that lies `distance` behind another.
#[verifier::allow_in_spec]
pub fn behind(index: usize, distance: usize) -> (r: usize)
    returns
        index.saturating_add(distance),
{
    index.saturating_add(distance)
}

/// The position before another.
#[verifier::allow_in_spec]
pub fn before(index: usize) -> (r: usize)
    returns
        index.saturating_sub(1),
{
    index.saturating_sub(1)
}

/// Whether a token opens a bracket of any kind.
#[verifier::allow_in_spec]
pub fn is_opening(kind: TokenKind) -> (r: bool)
    returns
        kind == TokenKind::LeftParen || kind == TokenKind::LeftBracket || kind
            == TokenKind::LeftBrace,
{
    kind == TokenKind::LeftParen || kind == TokenKind::LeftBracket || kind == TokenKind::LeftBrace
}

/// Whether a token closes a bracket of any kind.
#[verifier::allow_in_spec]
pub fn is_closing(kind: TokenKind) -> (r: bool)
    returns
        kind == TokenKind::RightParen || kind == TokenKind::RightBracket || kind
            == TokenKind::RightBrace,
{
    kind == TokenKind::RightParen || kind == TokenKind::RightBracket || kind
        == TokenKind::RightBrace
}

/// The number of open brackets behind a token. A closing bracket without an opening one closes
/// nothing.
#[verifier::allow_in_spec]
pub fn depth_behind(depth: usize, kind: TokenKind) -> (r: usize)
    returns
        if is_opening(kind) {
            depth.saturating_add(1)
        } else if is_closing(kind) {
            depth.saturating_sub(1)
        } else {
            depth
        },
{
    if is_opening(kind) {
        depth.saturating_add(1)
    } else if is_closing(kind) {
        depth.saturating_sub(1)
    } else {
        depth
    }
}

impl<'a> Context<'a> {
    /// The token at a position.
    #[verifier::allow_in_spec]
    pub fn token(&self, index: usize) -> (r: Option<&'a Token>)
        returns
            if index < self.count && self.first + index < self.tokens@.len() {
                Some(&self.tokens@[self.first + index])
            } else {
                None
            },
    {
        if index < self.count && self.first < self.tokens.len() && index < self.tokens.len()
            - self.first {
            Some(&self.tokens[self.first + index])
        } else {
            None
        }
    }

    /// The kind of the token at a position.
    #[verifier::allow_in_spec]
    pub fn kind(&self, index: usize) -> (r: Option<TokenKind>)
        returns
            match self.token(index) {
                Some(token) => Some(token.kind),
                None => None,
            },
    {
        match self.token(index) {
            Some(token) => Some(token.kind),
            None => None,
        }
    }

    /// Whether the token at a position is of a kind.
    #[verifier::allow_in_spec]
    pub fn is(&self, index: usize, kind: TokenKind) -> (r: bool)
        returns
            self.kind(index) == Some(kind),
    {
        match self.kind(index) {
            Some(actual) => actual == kind,
            None => false,
        }
    }

    /// The name that is written at a position.
    #[verifier::allow_in_spec]
    pub fn name_at(&self, index: usize) -> (r: Option<Name>)
        returns
            match self.token(index) {
                Some(token) => Some(token.name),
                None => None,
            },
    {
        match self.token(index) {
            Some(token) => Some(token.name),
            None => None,
        }
    }

    /// Where the token at a position stands.
    #[verifier::allow_in_spec]
    pub fn span_at(&self, index: usize) -> (r: Span)
        returns
            match self.token(index) {
                Some(token) => Span {
                    file: File::Module(self.module.file),
                    byte_start: token.start,
                    byte_end: token.end,
                },
                None => empty_span(File::Module(self.module.file)),
            },
    {
        match self.token(index) {
            Some(token) => Span {
                file: File::Module(self.module.file),
                byte_start: token.start,
                byte_end: token.end,
            },
            None => empty_span(File::Module(self.module.file)),
        }
    }

    /// The bracket that closes the one at a position.
    #[verifier::allow_in_spec]
    pub fn matching_token(&self, start: usize, open: TokenKind, close: TokenKind) -> (r: Option<
        usize,
    >)
        returns
            if self.is(start, open) {
                matching_from(self, open, close, start, 0)
            } else {
                None
            },
    {
        if !self.is(start, open) {
            return None;
        }
        let mut depth: usize = 0;
        let mut index: usize = start;
        while index < self.count
            invariant
                self.is(start, open),
                matching_from(self, open, close, start, 0) == matching_from(
                    self,
                    open,
                    close,
                    index,
                    depth,
                ),
            decreases self.count - index,
        {
            match self.kind(index) {
                Some(kind) => {
                    if kind == open {
                        depth = depth.saturating_add(1);
                    } else if kind == close {
                        if depth <= 1 {
                            return Some(index);
                        }
                        depth = depth - 1;
                    }
                },
                None => {
                    return None;
                },
            }
            index = index + 1;
        }
        None
    }

    /// The first token of a kind in a range that stands in no bracket.
    #[verifier::allow_in_spec]
    pub fn find_top_level(&self, start: usize, end: usize, needle: TokenKind) -> (r: Option<usize>)
        returns
            top_level_from(self, end, needle, start, 0),
    {
        let mut depth: usize = 0;
        let mut index: usize = start;
        while index < end
            invariant
                top_level_from(self, end, needle, start, 0) == top_level_from(
                    self,
                    end,
                    needle,
                    index,
                    depth,
                ),
            decreases end - index,
        {
            match self.kind(index) {
                Some(kind) => {
                    if kind == needle && depth == 0 {
                        return Some(index);
                    }
                    depth = depth_behind(depth, kind);
                },
                None => {
                    return None;
                },
            }
            index = index + 1;
        }
        None
    }

    /// The token that ends a statement: what follows a switch, or the next semicolon.
    #[verifier::allow_in_spec]
    pub fn statement_end(&self, start: usize) -> (r: usize)
        returns
            match self.switch_end(start) {
                Some(end) => end,
                None => match self.find_top_level(start, self.body_limit, TokenKind::Semicolon) {
                    Some(end) => end,
                    None => self.body_limit,
                },
            },
    {
        match self.switch_end(start) {
            Some(end) => end,
            None => match self.find_top_level(start, self.body_limit, TokenKind::Semicolon) {
                Some(end) => end,
                None => self.body_limit,
            },
        }
    }

    /// The position behind a switch that starts at a position.
    #[verifier::allow_in_spec]
    pub fn switch_end(&self, start: usize) -> (r: Option<usize>)
        returns
            if self.is(start, TokenKind::Switch) {
                match self.matching_token(
                    next(start),
                    TokenKind::LeftParen,
                    TokenKind::RightParen,
                ) {
                    Some(close) => match self.matching_token(
                        next(close),
                        TokenKind::LeftBrace,
                        TokenKind::RightBrace,
                    ) {
                        Some(body_close) => Some(next(body_close)),
                        None => None,
                    },
                    None => None,
                }
            } else {
                None
            },
    {
        if self.is(start, TokenKind::Switch) {
            match self.matching_token(next(start), TokenKind::LeftParen, TokenKind::RightParen) {
                Some(close) => match self.matching_token(
                    next(close),
                    TokenKind::LeftBrace,
                    TokenKind::RightBrace,
                ) {
                    Some(body_close) => Some(next(body_close)),
                    None => None,
                },
                None => None,
            }
        } else {
            None
        }
    }

    /// The position behind a statement that ends at a position: behind its last token, if there
    /// is one.
    #[verifier::allow_in_spec]
    pub fn past(&self, end: usize) -> (r: usize)
        returns
            if end < self.count {
                next(end)
            } else {
                end
            },
    {
        if end < self.count {
            next(end)
        } else {
            end
        }
    }

    /// The position behind a semicolon at a position.
    #[verifier::allow_in_spec]
    pub fn past_semicolon(&self, end: usize) -> (r: usize)
        returns
            if self.is(end, TokenKind::Semicolon) {
                next(end)
            } else {
                end
            },
    {
        if self.is(end, TokenKind::Semicolon) {
            next(end)
        } else {
            end
        }
    }

    /// The parts of a range between the commas that stand in no bracket.
    #[verifier::allow_in_spec]
    pub fn argument_ranges(&self, start: usize, end: usize) -> (r: List<TokenRange>)
        returns
            if start >= end {
                List::Nil
            } else {
                ranges_from(self, start, end, start, 0)
            },
    {
        if start >= end {
            return List::Nil;
        }
        let mut ranges: Vec<TokenRange> = Vec::new();
        let mut range_start: usize = start;
        let mut depth: usize = 0;
        let mut index: usize = start;
        while index < end
            invariant
                start < end,
                start <= index <= end,
                range_start <= index,
                ranges_from(self, start, end, start, 0) == prepended(
                    ranges@,
                    ranges_from(self, range_start, end, index, depth),
                ),
            decreases end - index,
        {
            let ghost rest = ranges_from(self, range_start, end, index, depth);
            match self.kind(index) {
                Some(kind) => {
                    if kind == TokenKind::Comma && depth == 0 {
                        proof {
                            lemma_prepended_push(
                                ranges@,
                                TokenRange { start: range_start, end: index },
                                ranges_from(self, next(index), end, next(index), depth),
                            );
                        }
                        ranges.push(TokenRange { start: range_start, end: index });
                        range_start = index + 1;
                    } else {
                        depth = depth_behind(depth, kind);
                    }
                },
                None => {},
            }
            index = index + 1;
        }
        let ghost complete = ranges@;
        if range_start < end {
            proof {
                lemma_prepended_push(
                    ranges@,
                    TokenRange { start: range_start, end },
                    List::Nil,
                );
            }
            ranges.push(TokenRange { start: range_start, end });
        }
        proof {
            lemma_prepended_nil(ranges@);
        }
        List::from_vec(ranges)
    }

    /// The angle brackets right before a parenthesis, from the first one in the range on.
    #[verifier::allow_in_spec]
    pub fn generic_call_bounds(&self, start: usize, open: usize) -> (r: Option<TokenRange>)
        returns
            match first_less(self, start, open) {
                Some(less) => bounds_from(self, less, open, less, 0),
                None => None,
            },
    {
        let mut less: usize = start;
        while less < open && !self.is(less, TokenKind::Less)
            invariant
                first_less(self, start, open) == first_less(self, less, open),
            decreases open - less,
        {
            less = less + 1;
        }
        if less >= open {
            return None;
        }
        let mut depth: usize = 0;
        let mut index: usize = less;
        while index < open
            invariant
                first_less(self, start, open) == Some(less),
                bounds_from(self, less, open, less, 0) == bounds_from(
                    self,
                    less,
                    open,
                    index,
                    depth,
                ),
            decreases open - index,
        {
            if self.is(index, TokenKind::Less) {
                depth = depth.saturating_add(1);
            } else if self.is(index, TokenKind::Greater) {
                depth = depth.saturating_sub(1);
                if depth == 0 {
                    return if next(index) == open {
                        Some(TokenRange { start: less, end: index })
                    } else {
                        None
                    };
                }
            }
            index = index + 1;
        }
        None
    }

    /// Whether the token at a position opens a list of type arguments.
    #[verifier::allow_in_spec]
    pub fn opens_generics(&self, index: usize) -> (r: bool)
        returns
            index > 0 && self.is(index, TokenKind::Less) && (self.is(
                before(index),
                TokenKind::Identifier,
            ) || self.is(before(index), TokenKind::This) || self.is(
                before(index),
                TokenKind::Greater,
            ) || self.is(before(index), TokenKind::RightBracket)),
    {
        index > 0 && self.is(index, TokenKind::Less) && (self.is(
            before(index),
            TokenKind::Identifier,
        ) || self.is(before(index), TokenKind::This) || self.is(before(index), TokenKind::Greater)
            || self.is(before(index), TokenKind::RightBracket))
    }

    /// The bracket that closes the type arguments of a call, where the one at a position opens
    /// them.
    #[verifier::allow_in_spec]
    pub fn generic_call_end(&self, index: usize) -> (r: Option<usize>)
        returns
            if self.opens_generics(index) {
                generics_end_from(self, next(index), 0)
            } else {
                None
            },
    {
        if !self.opens_generics(index) {
            return None;
        }
        let mut depth: usize = 0;
        let mut position: usize = next(index);
        while position < self.count
            invariant
                self.opens_generics(index),
                generics_end_from(self, next(index), 0) == generics_end_from(self, position, depth),
            decreases self.count - position,
        {
            if self.opens_generics(position) {
                depth = depth.saturating_add(1);
            } else if self.is(position, TokenKind::Greater) {
                if depth == 0 {
                    return if self.is(next(position), TokenKind::LeftParen) {
                        Some(position)
                    } else {
                        None
                    };
                }
                depth = depth - 1;
            }
            position = position + 1;
        }
        None
    }

    /// Whether a star at a position dereferences what follows instead of multiplying.
    #[verifier::allow_in_spec]
    pub fn is_prefix_star(&self, index: usize) -> (r: bool)
        returns
            self.is(index, TokenKind::Star) && index > 0 && match self.kind(before(index)) {
                Some(kind) => match kind {
                    TokenKind::Amp
                    | TokenKind::Mut
                    | TokenKind::LeftParen
                    | TokenKind::LeftBracket
                    | TokenKind::LeftBrace
                    | TokenKind::Comma
                    | TokenKind::Plus
                    | TokenKind::Minus
                    | TokenKind::Star
                    | TokenKind::Slash
                    | TokenKind::Percent
                    | TokenKind::AmpAmp
                    | TokenKind::PipePipe
                    | TokenKind::Pipe
                    | TokenKind::Caret => true,
                    _ => false,
                },
                None => false,
            },
    {
        self.is(index, TokenKind::Star) && index > 0 && match self.kind(before(index)) {
            Some(kind) => match kind {
                TokenKind::Amp
                | TokenKind::Mut
                | TokenKind::LeftParen
                | TokenKind::LeftBracket
                | TokenKind::LeftBrace
                | TokenKind::Comma
                | TokenKind::Plus
                | TokenKind::Minus
                | TokenKind::Star
                | TokenKind::Slash
                | TokenKind::Percent
                | TokenKind::AmpAmp
                | TokenKind::PipePipe
                | TokenKind::Pipe
                | TokenKind::Caret => true,
                _ => false,
            },
            None => false,
        }
    }

    /// The binary operator of an expression that is applied last: the last one among those that
    /// bind least tightly.
    #[verifier::allow_in_spec]
    pub fn find_binary_operator(&self, start: usize, end: usize) -> (r: Option<OperatorAt>)
        returns
            operator_from(self, start, end, start, 0, None),
    {
        let mut depth: usize = 0;
        let mut candidate: Option<OperatorAt> = None;
        let mut index: usize = start;
        while index < end
            invariant
                operator_from(self, start, end, start, 0, None) == operator_from(
                    self,
                    start,
                    end,
                    index,
                    depth,
                    candidate,
                ),
            decreases end - index,
        {
            let kind = match self.kind(index) {
                Some(kind) => kind,
                None => {
                    return candidate;
                },
            };
            let closed = match self.generic_call_end(index) {
                Some(greater) => greater >= index && greater < end,
                None => false,
            };
            if closed {
                match self.generic_call_end(index) {
                    Some(greater) => {
                        index = greater + 1;
                    },
                    None => {},
                }
            } else {
                match self.generic_call_end(index) {
                    Some(_) => {
                        return candidate;
                    },
                    None => {},
                }
                if depth == 0 && !is_opening(kind) && !is_closing(kind) && index != start
                    && !self.is_prefix_star(index) {
                    match binary_operator(kind) {
                        Some(binding) => {
                            let replaces = match candidate {
                                Some(current) => binding.precedence <= current.precedence,
                                None => true,
                            };
                            if replaces {
                                candidate = Some(
                                    OperatorAt {
                                        index,
                                        precedence: binding.precedence,
                                        operator: binding.operator,
                                    },
                                );
                            }
                        },
                        None => {},
                    }
                }
                depth = depth_behind(depth, kind);
                index = index + 1;
            }
        }
        candidate
    }

    /// The first assignment of a range that stands in no bracket.
    #[verifier::allow_in_spec]
    pub fn find_assignment(&self, start: usize, end: usize) -> (r: Option<AssignmentAt>)
        returns
            assignment_from(self, end, start, 0),
    {
        let mut depth: usize = 0;
        let mut index: usize = start;
        while index < end
            invariant
                assignment_from(self, end, start, 0) == assignment_from(self, end, index, depth),
            decreases end - index,
        {
            let kind = match self.kind(index) {
                Some(kind) => kind,
                None => {
                    return None;
                },
            };
            if depth == 0 {
                match assignment_operator(kind) {
                    Some(operator) => {
                        return Some(AssignmentAt { index, operator });
                    },
                    None => {},
                }
            }
            depth = depth_behind(depth, kind);
            index = index + 1;
        }
        None
    }

    /// The owner's end and the member of an access that is the whole range: behind a dot, or as a
    /// symbol in brackets.
    #[verifier::allow_in_spec]
    pub fn direct_member_access(&self, start: usize, end: usize) -> (r: Option<MemberAccess>)
        returns
            match self.dotted_member(start, end) {
                Some(access) => Some(access),
                None => match self.find_top_level(start, end, TokenKind::LeftBracket) {
                    Some(open) => match self.matching_token(
                        open,
                        TokenKind::LeftBracket,
                        TokenKind::RightBracket,
                    ) {
                        Some(close) => if open > start && next(close) == end && close == behind(
                            open,
                            4,
                        ) && self.is(next(open), TokenKind::Identifier) && self.is(
                            behind(open, 2),
                            TokenKind::Dot,
                        ) && self.is(behind(open, 3), TokenKind::Identifier) {
                            Some(MemberAccess { owner_end: open, member: behind(open, 3) })
                        } else {
                            None
                        },
                        None => None,
                    },
                    None => None,
                },
            },
    {
        match self.dotted_member(start, end) {
            Some(access) => Some(access),
            None => match self.find_top_level(start, end, TokenKind::LeftBracket) {
                Some(open) => match self.matching_token(
                    open,
                    TokenKind::LeftBracket,
                    TokenKind::RightBracket,
                ) {
                    Some(close) => if open > start && next(close) == end && close == behind(
                        open,
                        4,
                    ) && self.is(next(open), TokenKind::Identifier) && self.is(
                        behind(open, 2),
                        TokenKind::Dot,
                    ) && self.is(behind(open, 3), TokenKind::Identifier) {
                        Some(MemberAccess { owner_end: open, member: behind(open, 3) })
                    } else {
                        None
                    },
                    None => None,
                },
                None => None,
            },
        }
    }

    /// The owner's end and the member of an access behind the first dot, where it ends the range.
    #[verifier::allow_in_spec]
    pub fn dotted_member(&self, start: usize, end: usize) -> (r: Option<MemberAccess>)
        returns
            match self.find_top_level(start, end, TokenKind::Dot) {
                Some(dot) => if behind(dot, 2) == end {
                    Some(MemberAccess { owner_end: dot, member: next(dot) })
                } else {
                    None
                },
                None => None,
            },
    {
        match self.find_top_level(start, end, TokenKind::Dot) {
            Some(dot) => if behind(dot, 2) == end {
                Some(MemberAccess { owner_end: dot, member: next(dot) })
            } else {
                None
            },
            None => None,
        }
    }

    /// The tokens from the first one that starts at or behind a byte to the first one that ends
    /// at or behind another.
    #[verifier::allow_in_spec]
    pub fn token_range_for_bytes(&self, start: u32, end: u32) -> (r: Option<TokenRange>)
        returns
            match token_starting(self, start, 0) {
                Some(first) => match token_ending(self, end, first) {
                    Some(last) => Some(TokenRange { start: first, end: next(last) }),
                    None => None,
                },
                None => None,
            },
    {
        let mut first: usize = 0;
        loop
            invariant_except_break
                token_starting(self, start, 0) == token_starting(self, start, first),
            ensures
                token_starting(self, start, 0) == Some(first),
            decreases self.count - first,
        {
            match self.token(first) {
                Some(token) => {
                    if token.start >= start {
                        break;
                    }
                },
                None => {
                    return None;
                },
            }
            first = first + 1;
        }
        let mut last: usize = first;
        loop
            invariant_except_break
                token_starting(self, start, 0) == Some(first),
                token_ending(self, end, first) == token_ending(self, end, last),
            ensures
                token_starting(self, start, 0) == Some(first),
                token_ending(self, end, first) == Some(last),
            decreases self.count - last,
        {
            match self.token(last) {
                Some(token) => {
                    if token.end >= end {
                        break;
                    }
                },
                None => {
                    return None;
                },
            }
            last = last + 1;
        }
        Some(TokenRange { start: first, end: next(last) })
    }

    /// The smallest checked expression that covers the token at a position; of two that are
    /// equally small the first one.
    #[verifier::allow_in_spec]
    pub fn hir_expression_at(&self, index: usize) -> (r: Option<&'a HirExpression>)
        returns
            match self.token(index) {
                Some(token) => covering_from(
                    self.hir.expressions@,
                    token.start,
                    token.end,
                    self.hir.expressions@.len(),
                ),
                None => None,
            },
    {
        let token = match self.token(index) {
            Some(token) => token,
            None => {
                return None;
            },
        };
        let hir = self.hir;
        let mut best: Option<&'a HirExpression> = None;
        let mut position: usize = 0;
        while position < hir.expressions.len()
            invariant
                position <= hir.expressions@.len(),
                best == covering_from(
                    hir.expressions@,
                    token.start,
                    token.end,
                    position as nat,
                ),
            decreases hir.expressions.len() - position,
        {
            let expression = &hir.expressions[position];
            if expression.origin.byte_start <= token.start && expression.origin.byte_end
                >= token.end {
                let smaller = match best {
                    Some(current) => span_size(expression.origin) < span_size(current.origin),
                    None => true,
                };
                if smaller {
                    best = Some(expression);
                }
            }
            position = position + 1;
        }
        best
    }

    /// The last checked expression that is exactly a range of tokens.
    #[verifier::allow_in_spec]
    pub fn hir_expression_range(&self, start: usize, end: usize) -> (r: Option<&'a HirExpression>)
        returns
            match (self.token(start), self.token(before(end))) {
                (Some(first), Some(last)) => if end > 0 {
                    exact_up_to(
                        self.hir.expressions@,
                        first.start,
                        last.end,
                        self.hir.expressions@.len(),
                    )
                } else {
                    None
                },
                _ => None,
            },
    {
        if end == 0 {
            return None;
        }
        let first = match self.token(start) {
            Some(token) => token,
            None => {
                return None;
            },
        };
        let last = match self.token(before(end)) {
            Some(token) => token,
            None => {
                return None;
            },
        };
        let hir = self.hir;
        let mut count: usize = hir.expressions.len();
        while count > 0
            invariant
                count <= hir.expressions@.len(),
                *hir == *self.hir,
                end > 0,
                self.token(start) == Some(first),
                self.token(before(end)) == Some(last),
                exact_up_to(hir.expressions@, first.start, last.end, hir.expressions@.len())
                    == exact_up_to(hir.expressions@, first.start, last.end, count as nat),
            decreases count,
        {
            let expression = &hir.expressions[count - 1];
            if expression.origin.byte_start == first.start && expression.origin.byte_end
                == last.end {
                return Some(expression);
            }
            count = count - 1;
        }
        None
    }

    /// What the checked expression that is exactly a range of tokens refers to.
    #[verifier::allow_in_spec]
    pub fn resolution(&self, start: usize, end: usize) -> (r: Option<ResolvedValue>)
        returns
            match self.hir_expression_range(start, end) {
                Some(expression) => expression.resolution,
                None => None,
            },
    {
        match self.hir_expression_range(start, end) {
            Some(expression) => expression.resolution,
            None => None,
        }
    }

    /// The type of the checked expression that is exactly a range of tokens.
    #[verifier::allow_in_spec]
    pub fn type_of_range(&self, start: usize, end: usize) -> (r: Option<Type>)
        returns
            match self.hir_expression_range(start, end) {
                Some(expression) => Some(expression.ty),
                None => None,
            },
    {
        match self.hir_expression_range(start, end) {
            Some(expression) => Some(expression.ty.dup()),
            None => None,
        }
    }

    /// The checked local with an identity.
    #[verifier::allow_in_spec]
    pub fn hir_local(&self, id: HirLocalId) -> (r: Option<&'a HirLocal>)
        returns
            if id.0 < self.hir.locals@.len() {
                Some(&self.hir.locals@[id.0 as int])
            } else {
                None
            },
    {
        let hir = self.hir;
        let position: usize = id.0 as usize;
        if position < hir.locals.len() {
            Some(&hir.locals[position])
        } else {
            None
        }
    }

    /// Where a checked local is declared.
    #[verifier::allow_in_spec]
    pub fn span_from_hir_local(&self, id: HirLocalId) -> (r: Span)
        returns
            match self.hir_local(id) {
                Some(local) => local.origin,
                None => empty_span(File::Binding),
            },
    {
        match self.hir_local(id) {
            Some(local) => local.origin,
            None => empty_span(File::Binding),
        }
    }

    /// The closure with an identity.
    #[verifier::allow_in_spec]
    pub fn closure(&self, id: HirClosureId) -> (r: Option<&'a HirClosure>)
        returns
            closure_from(self.hir.closures@, id, 0),
    {
        let hir = self.hir;
        let mut index: usize = 0;
        while index < hir.closures.len()
            invariant
                index <= hir.closures@.len(),
                *hir == *self.hir,
                closure_from(hir.closures@, id, 0) == closure_from(
                    hir.closures@,
                    id,
                    index as nat,
                ),
            decreases hir.closures.len() - index,
        {
            if hir.closures[index].id == id {
                return Some(&hir.closures[index]);
            }
            index = index + 1;
        }
        None
    }

    /// The template with an identity.
    #[verifier::allow_in_spec]
    pub fn template(&self, id: HirTemplateId) -> (r: Option<&'a HirTemplate>)
        returns
            template_from(self.hir.templates@, id, 0),
    {
        let hir = self.hir;
        let mut index: usize = 0;
        while index < hir.templates.len()
            invariant
                index <= hir.templates@.len(),
                *hir == *self.hir,
                template_from(hir.templates@, id, 0) == template_from(
                    hir.templates@,
                    id,
                    index as nat,
                ),
            decreases hir.templates.len() - index,
        {
            if hir.templates[index].id == id {
                return Some(&hir.templates[index]);
            }
            index = index + 1;
        }
        None
    }

    /// How the loop that starts at a position gets its items.
    #[verifier::allow_in_spec]
    pub fn iteration_witness(&self, index: usize) -> (r: Option<&'a IterationWitness>)
        returns
            match self.token(index) {
                Some(token) => witness_from(self.hir.statements@, token.start, 0),
                None => None,
            },
    {
        let token = match self.token(index) {
            Some(token) => token,
            None => {
                return None;
            },
        };
        let hir = self.hir;
        let mut position: usize = 0;
        while position < hir.statements.len()
            invariant
                position <= hir.statements@.len(),
                self.token(index) == Some(token),
                *hir == *self.hir,
                witness_from(hir.statements@, token.start, 0) == witness_from(
                    hir.statements@,
                    token.start,
                    position as nat,
                ),
            decreases hir.statements.len() - position,
        {
            let statement = &hir.statements[position];
            if statement.origin.byte_start == token.start {
                match &statement.kind {
                    HirStatementKind::For { witness: Some(witness), .. } => {
                        return Some(witness);
                    },
                    _ => {},
                }
            }
            position = position + 1;
        }
        None
    }

    /// The pattern that takes the items of the loop at a position apart.
    #[verifier::allow_in_spec]
    pub fn for_binding_pattern(&self, index: usize) -> (r: Option<&'a HirBindingPattern>)
        returns
            match self.token(index) {
                Some(token) => match loop_binding_from(self.hir.statements@, token.start, 0) {
                    Some(root) => pattern_of_root(self.hir.binding_patterns@, root, 0),
                    None => None,
                },
                None => None,
            },
    {
        let token = match self.token(index) {
            Some(token) => token,
            None => {
                return None;
            },
        };
        let root = match loop_binding(self.hir, token.start) {
            Some(root) => root,
            None => {
                return None;
            },
        };
        let hir = self.hir;
        let mut position: usize = 0;
        while position < hir.binding_patterns.len()
            invariant
                position <= hir.binding_patterns@.len(),
                pattern_of_root(hir.binding_patterns@, root, 0) == pattern_of_root(
                    hir.binding_patterns@,
                    root,
                    position as nat,
                ),
                self.token(index) == Some(token),
                *hir == *self.hir,
                loop_binding_from(self.hir.statements@, token.start, 0) == Some(root),
            decreases hir.binding_patterns.len() - position,
        {
            if hir.binding_patterns[position].root == root {
                return Some(&hir.binding_patterns[position]);
            }
            position = position + 1;
        }
        None
    }

    /// The pattern of a declaration whose pattern starts at a position.
    #[verifier::allow_in_spec]
    pub fn binding_pattern_at(&self, index: usize) -> (r: Option<&'a HirBindingPattern>)
        returns
            match self.token(index) {
                Some(token) => pattern_starting(self.hir.binding_patterns@, token.start, 0),
                None => None,
            },
    {
        let token = match self.token(index) {
            Some(token) => token,
            None => {
                return None;
            },
        };
        let hir = self.hir;
        let mut position: usize = 0;
        while position < hir.binding_patterns.len()
            invariant
                position <= hir.binding_patterns@.len(),
                pattern_starting(hir.binding_patterns@, token.start, 0) == pattern_starting(
                    hir.binding_patterns@,
                    token.start,
                    position as nat,
                ),
                self.token(index) == Some(token),
                *hir == *self.hir,
            decreases hir.binding_patterns.len() - position,
        {
            if hir.binding_patterns[position].origin.byte_start == token.start {
                return Some(&hir.binding_patterns[position]);
            }
            position = position + 1;
        }
        None
    }

    /// The position of the switch pattern that starts with the token at a position.
    #[verifier::allow_in_spec]
    pub fn match_pattern_at(&self, index: usize) -> (r: Option<usize>)
        returns
            match self.token(index) {
                Some(token) => match_pattern_from(self.hir.patterns@, token.start, 0),
                None => None,
            },
    {
        let token = match self.token(index) {
            Some(token) => token,
            None => {
                return None;
            },
        };
        let hir = self.hir;
        let mut position: usize = 0;
        while position < hir.patterns.len()
            invariant
                position <= hir.patterns@.len(),
                match_pattern_from(hir.patterns@, token.start, 0) == match_pattern_from(
                    hir.patterns@,
                    token.start,
                    position as nat,
                ),
                self.token(index) == Some(token),
                *hir == *self.hir,
            decreases hir.patterns.len() - position,
        {
            if hir.patterns[position].origin.byte_start == token.start {
                return Some(position);
            }
            position = position + 1;
        }
        None
    }

    /// The namespace of a generic parameter that is in scope.
    #[verifier::allow_in_spec]
    pub fn generic_namespace(&self, name: Name) -> (r: Option<Namespace>)
        returns
            namespace_of(self.generics, name),
    {
        find_namespace(&self.generics, name)
    }

    /// The declaration that the body belongs to.
    #[verifier::allow_in_spec]
    pub fn owner_declaration(&self) -> (r: DeclarationId)
        returns
            match self.hir.owner {
                BodyOwner::Declaration(declaration) => declaration,
                BodyOwner::Member { declaration, .. } => declaration,
            },
    {
        match self.hir.owner {
            BodyOwner::Declaration(declaration) => declaration,
            BodyOwner::Member { declaration, .. } => declaration,
        }
    }

    /// The member that the body belongs to.
    #[verifier::allow_in_spec]
    pub fn owner_member(&self) -> (r: Option<MemberId>)
        returns
            match self.hir.owner {
                BodyOwner::Declaration(_) => None,
                BodyOwner::Member { member, .. } => Some(member),
            },
    {
        match self.hir.owner {
            BodyOwner::Declaration(_) => None,
            BodyOwner::Member { member, .. } => Some(member),
        }
    }
}

/// A binary operator in a range of tokens.
#[derive(Clone, Copy, Debug, PartialEq, Eq, Structural)]
pub struct OperatorAt {
    pub index: usize,
    pub precedence: u8,
    pub operator: BinaryOperator,
}

/// An assignment in a range of tokens.
#[derive(Clone, Copy, Debug, PartialEq, Eq, Structural)]
pub struct AssignmentAt {
    pub index: usize,
    pub operator: Option<BinaryOperator>,
}

/// An access to a member.
#[derive(Clone, Copy, Debug, PartialEq, Eq, Structural)]
pub struct MemberAccess {
    pub owner_end: usize,
    pub member: usize,
}

/// The first closing bracket from a position on that leaves no bracket open.
pub open spec fn matching_from(
    cx: &Context,
    open: TokenKind,
    close: TokenKind,
    index: usize,
    depth: usize,
) -> Option<usize>
    decreases cx.count - index,
{
    if index >= cx.count {
        None
    } else {
        match cx.kind(index) {
            Some(kind) => if kind == open {
                matching_from(cx, open, close, (index + 1) as usize, depth.saturating_add(1))
            } else if kind == close {
                if depth <= 1 {
                    Some(index)
                } else {
                    matching_from(cx, open, close, (index + 1) as usize, (depth - 1) as usize)
                }
            } else {
                matching_from(cx, open, close, (index + 1) as usize, depth)
            },
            None => None,
        }
    }
}

/// The first token of a kind from a position on that stands in no bracket.
pub open spec fn top_level_from(
    cx: &Context,
    end: usize,
    needle: TokenKind,
    index: usize,
    depth: usize,
) -> Option<usize>
    decreases end - index,
{
    if index >= end {
        None
    } else {
        match cx.kind(index) {
            Some(kind) => if kind == needle && depth == 0 {
                Some(index)
            } else {
                top_level_from(cx, end, needle, (index + 1) as usize, depth_behind(depth, kind))
            },
            None => None,
        }
    }
}

/// The parts between commas from a position on, where the first part starts at `range_start`.
pub open spec fn ranges_from(
    cx: &Context,
    range_start: usize,
    end: usize,
    index: usize,
    depth: usize,
) -> List<TokenRange>
    decreases end - index,
{
    if index >= end {
        if range_start < end {
            List::Cons(
                Box::new(TokenRange { start: range_start, end }),
                Box::new(List::Nil),
            )
        } else {
            List::Nil
        }
    } else {
        match cx.kind(index) {
            Some(kind) => if kind == TokenKind::Comma && depth == 0 {
                List::Cons(
                    Box::new(TokenRange { start: range_start, end: index }),
                    Box::new(
                        ranges_from(cx, (index + 1) as usize, end, (index + 1) as usize, depth),
                    ),
                )
            } else {
                ranges_from(cx, range_start, end, (index + 1) as usize, depth_behind(depth, kind))
            },
            None => ranges_from(cx, range_start, end, (index + 1) as usize, depth),
        }
    }
}

/// The list that goes on with `rest` behind the items.
pub open spec fn prepended<T>(items: Seq<T>, rest: List<T>) -> List<T>
    decreases items.len(),
{
    if items.len() == 0 {
        rest
    } else {
        List::Cons(Box::new(items.first()), Box::new(prepended(items.drop_first(), rest)))
    }
}

proof fn lemma_prepended_push<T>(items: Seq<T>, item: T, rest: List<T>)
    ensures
        prepended(items.push(item), rest) == prepended(
            items,
            List::Cons(Box::new(item), Box::new(rest)),
        ),
    decreases items.len(),
{
    if items.len() == 0 {
        assert(items.push(item).drop_first() =~= Seq::empty());
        assert(prepended(Seq::<T>::empty(), rest) == rest);
    } else {
        assert(items.push(item).first() == items.first());
        lemma_prepended_push(items.drop_first(), item, rest);
        assert(items.push(item).drop_first() =~= items.drop_first().push(item));
    }
}

proof fn lemma_prepended_nil<T>(items: Seq<T>)
    ensures
        prepended(items, List::Nil) == list_of(items),
    decreases items.len(),
{
    if items.len() > 0 {
        lemma_prepended_nil(items.drop_first());
    }
}

/// The first opening angle bracket of a range.
pub open spec fn first_less(cx: &Context, index: usize, open: usize) -> Option<usize>
    decreases open - index,
{
    if index >= open {
        None
    } else if cx.is(index, TokenKind::Less) {
        Some(index)
    } else {
        first_less(cx, (index + 1) as usize, open)
    }
}

/// The angle brackets from `less` on, where they end right before `open`.
pub open spec fn bounds_from(
    cx: &Context,
    less: usize,
    open: usize,
    index: usize,
    depth: usize,
) -> Option<TokenRange>
    decreases open - index,
{
    if index >= open {
        None
    } else if cx.is(index, TokenKind::Less) {
        bounds_from(cx, less, open, (index + 1) as usize, depth.saturating_add(1))
    } else if cx.is(index, TokenKind::Greater) {
        if depth.saturating_sub(1) == 0 {
            if next(index) == open {
                Some(TokenRange { start: less, end: index })
            } else {
                None
            }
        } else {
            bounds_from(cx, less, open, (index + 1) as usize, depth.saturating_sub(1))
        }
    } else {
        bounds_from(cx, less, open, (index + 1) as usize, depth)
    }
}

/// The bracket from a position on that closes type arguments, where a call follows it.
pub open spec fn generics_end_from(cx: &Context, index: usize, depth: usize) -> Option<usize>
    decreases cx.count - index,
{
    if index >= cx.count {
        None
    } else if cx.opens_generics(index) {
        generics_end_from(cx, (index + 1) as usize, depth.saturating_add(1))
    } else if cx.is(index, TokenKind::Greater) {
        if depth == 0 {
            if cx.is(next(index), TokenKind::LeftParen) {
                Some(index)
            } else {
                None
            }
        } else {
            generics_end_from(cx, (index + 1) as usize, (depth - 1) as usize)
        }
    } else {
        generics_end_from(cx, (index + 1) as usize, depth)
    }
}

/// The operator that is applied last, from a position on, given the best one before it.
pub open spec fn operator_from(
    cx: &Context,
    start: usize,
    end: usize,
    index: usize,
    depth: usize,
    candidate: Option<OperatorAt>,
) -> Option<OperatorAt>
    decreases end - index,
{
    if index >= end {
        candidate
    } else {
        match cx.kind(index) {
            Some(kind) => match cx.generic_call_end(index) {
                Some(greater) => if greater >= index && greater < end {
                    operator_from(cx, start, end, (greater + 1) as usize, depth, candidate)
                } else {
                    candidate
                },
                None => operator_from(
                    cx,
                    start,
                    end,
                    (index + 1) as usize,
                    depth_behind(depth, kind),
                    if depth == 0 && !is_opening(kind) && !is_closing(kind) && index != start
                        && !cx.is_prefix_star(index) {
                        match binary_operator(kind) {
                            Some(binding) => {
                                let found = Some(
                                    OperatorAt {
                                        index,
                                        precedence: binding.precedence,
                                        operator: binding.operator,
                                    },
                                );
                                match candidate {
                                    Some(current) => if binding.precedence
                                        <= current.precedence {
                                        found
                                    } else {
                                        candidate
                                    },
                                    None => found,
                                }
                            },
                            None => candidate,
                        }
                    } else {
                        candidate
                    },
                ),
            },
            None => candidate,
        }
    }
}

/// The first assignment from a position on that stands in no bracket.
pub open spec fn assignment_from(cx: &Context, end: usize, index: usize, depth: usize) -> Option<
    AssignmentAt,
>
    decreases end - index,
{
    if index >= end {
        None
    } else {
        match cx.kind(index) {
            Some(kind) => match (depth, assignment_operator(kind)) {
                (0, Some(operator)) => Some(AssignmentAt { index, operator }),
                _ => assignment_from(cx, end, (index + 1) as usize, depth_behind(depth, kind)),
            },
            None => None,
        }
    }
}

/// The first token from a position on that starts at or behind a byte.
pub open spec fn token_starting(cx: &Context, byte: u32, index: usize) -> Option<usize>
    decreases cx.count - index,
{
    match cx.token(index) {
        Some(token) => if token.start >= byte {
            Some(index)
        } else {
            token_starting(cx, byte, (index + 1) as usize)
        },
        None => None,
    }
}

/// The first token from a position on that ends at or behind a byte.
pub open spec fn token_ending(cx: &Context, byte: u32, index: usize) -> Option<usize>
    decreases cx.count - index,
{
    match cx.token(index) {
        Some(token) => if token.end >= byte {
            Some(index)
        } else {
            token_ending(cx, byte, (index + 1) as usize)
        },
        None => None,
    }
}

/// The number of bytes in a span.
#[verifier::allow_in_spec]
pub fn span_size(span: Span) -> (r: u32)
    returns
        span.byte_end.saturating_sub(span.byte_start),
{
    span.byte_end.saturating_sub(span.byte_start)
}

/// The smallest of the first `count` expressions that covers a range of bytes.
pub open spec fn covering_from<'a>(
    expressions: Seq<HirExpression>,
    start: u32,
    end: u32,
    count: nat,
) -> Option<&'a HirExpression>
    decreases count,
{
    if count == 0 || count > expressions.len() {
        None
    } else {
        let best = covering_from(expressions, start, end, (count - 1) as nat);
        let expression = &expressions[count - 1];
        if expression.origin.byte_start <= start && expression.origin.byte_end >= end {
            match best {
                Some(current) => if span_size(expression.origin) < span_size(current.origin) {
                    Some(expression)
                } else {
                    best
                },
                None => Some(expression),
            }
        } else {
            best
        }
    }
}

/// The last of the first `count` expressions that is exactly a range of bytes.
pub open spec fn exact_up_to<'a>(
    expressions: Seq<HirExpression>,
    start: u32,
    end: u32,
    count: nat,
) -> Option<&'a HirExpression>
    decreases count,
{
    if count == 0 || count > expressions.len() {
        None
    } else if expressions[count - 1].origin.byte_start == start && expressions[count
        - 1].origin.byte_end == end {
        Some(&expressions[count - 1])
    } else {
        exact_up_to(expressions, start, end, (count - 1) as nat)
    }
}

/// The first closure with an identity from a position on.
pub open spec fn closure_from<'a>(
    closures: Seq<HirClosure>,
    id: HirClosureId,
    from: nat,
) -> Option<&'a HirClosure>
    decreases closures.len() - from,
{
    if from >= closures.len() {
        None
    } else if closures[from as int].id == id {
        Some(&closures[from as int])
    } else {
        closure_from(closures, id, from + 1)
    }
}

/// The first template with an identity from a position on.
pub open spec fn template_from<'a>(
    templates: Seq<HirTemplate>,
    id: HirTemplateId,
    from: nat,
) -> Option<&'a HirTemplate>
    decreases templates.len() - from,
{
    if from >= templates.len() {
        None
    } else if templates[from as int].id == id {
        Some(&templates[from as int])
    } else {
        template_from(templates, id, from + 1)
    }
}

/// The witness of the first loop from a position on that starts at a byte and has one.
pub open spec fn witness_from<'a>(
    statements: Seq<HirStatement>,
    byte: u32,
    from: nat,
) -> Option<&'a IterationWitness>
    decreases statements.len() - from,
{
    if from >= statements.len() {
        None
    } else {
        let statement = &statements[from as int];
        match &statement.kind {
            HirStatementKind::For { witness: Some(witness), .. } => if statement.origin.byte_start
                == byte {
                Some(witness)
            } else {
                witness_from(statements, byte, from + 1)
            },
            _ => witness_from(statements, byte, from + 1),
        }
    }
}

/// The local that the first loop from a position on that starts at a byte binds.
pub open spec fn loop_binding_from(statements: Seq<HirStatement>, byte: u32, from: nat) -> Option<
    HirLocalId,
>
    decreases statements.len() - from,
{
    if from >= statements.len() {
        None
    } else {
        match statements[from as int].kind {
            HirStatementKind::For { binding, .. } => if statements[from as int].origin.byte_start
                == byte {
                Some(binding)
            } else {
                loop_binding_from(statements, byte, from + 1)
            },
            _ => loop_binding_from(statements, byte, from + 1),
        }
    }
}

fn loop_binding(hir: &BodyHir, byte: u32) -> (r: Option<HirLocalId>)
    ensures
        r == loop_binding_from(hir.statements@, byte, 0),
{
    let mut position: usize = 0;
    while position < hir.statements.len()
        invariant
            position <= hir.statements@.len(),
            loop_binding_from(hir.statements@, byte, 0) == loop_binding_from(
                hir.statements@,
                byte,
                position as nat,
            ),
        decreases hir.statements.len() - position,
    {
        let statement = &hir.statements[position];
        if statement.origin.byte_start == byte {
            match &statement.kind {
                HirStatementKind::For { binding, .. } => {
                    return Some(*binding);
                },
                _ => {},
            }
        }
        position = position + 1;
    }
    None
}

/// The first pattern from a position on that takes a local apart.
pub open spec fn pattern_of_root<'a>(
    patterns: Seq<HirBindingPattern>,
    root: HirLocalId,
    from: nat,
) -> Option<&'a HirBindingPattern>
    decreases patterns.len() - from,
{
    if from >= patterns.len() {
        None
    } else if patterns[from as int].root == root {
        Some(&patterns[from as int])
    } else {
        pattern_of_root(patterns, root, from + 1)
    }
}

/// The first pattern from a position on that starts at a byte.
pub open spec fn pattern_starting<'a>(
    patterns: Seq<HirBindingPattern>,
    byte: u32,
    from: nat,
) -> Option<&'a HirBindingPattern>
    decreases patterns.len() - from,
{
    if from >= patterns.len() {
        None
    } else if patterns[from as int].origin.byte_start == byte {
        Some(&patterns[from as int])
    } else {
        pattern_starting(patterns, byte, from + 1)
    }
}

/// The position of the first switch pattern from a position on that starts at a byte.
pub open spec fn match_pattern_from(patterns: Seq<HirPattern>, byte: u32, from: nat) -> Option<
    usize,
>
    decreases patterns.len() - from,
{
    if from >= patterns.len() {
        None
    } else if patterns[from as int].origin.byte_start == byte {
        Some(from as usize)
    } else {
        match_pattern_from(patterns, byte, from + 1)
    }
}

/// The namespace of the first parameter with a name.
pub open spec fn namespace_of(generics: List<ScopedGeneric>, name: Name) -> Option<Namespace>
    decreases generics,
{
    match generics {
        List::Nil => None,
        List::Cons(head, tail) => if head.name == name {
            Some(head.namespace)
        } else {
            namespace_of(*tail, name)
        },
    }
}

fn find_namespace(generics: &List<ScopedGeneric>, name: Name) -> (r: Option<Namespace>)
    ensures
        r == namespace_of(*generics, name),
    decreases generics,
{
    match generics {
        List::Nil => None,
        List::Cons(head, tail) => if head.name == name {
            Some(head.namespace)
        } else {
            find_namespace(tail, name)
        },
    }
}

} // verus!
