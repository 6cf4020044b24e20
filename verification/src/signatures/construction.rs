//! Constructors: every field is set on every way through them.

use vstd::prelude::*;

use crate::diagnostics::{report, Diagnostic, Finding};
use crate::hir::{DeclarationId, DefinitionData, Field, Method, Module, Program, Visibility};
use crate::list::{cons, dup_plain, List};
use crate::lowering::context::{behind, depth_behind, next};
use crate::names::Name;
use crate::reports::{spec_add, Reports};
use crate::signatures::types::{definition_of, spec_add_for_declaration};
use crate::syntax::{File, ModuleFile, Span, Token, TokenKind};

verus! {

/// The kind of a token before the end of a range.
#[verifier::allow_in_spec]
pub fn kind_at(tokens: &Vec<Token>, end: usize, index: usize) -> (r: Option<TokenKind>)
    returns
        if index < end && index < tokens@.len() {
            Some(tokens@[index as int].kind)
        } else {
            None
        },
{
    if index < end && index < tokens.len() {
        Some(tokens[index].kind)
    } else {
        None
    }
}

/// The name at a token.
#[verifier::allow_in_spec]
pub fn name_of_token(tokens: &Vec<Token>, index: usize) -> (r: Option<Name>)
    returns
        if index < tokens@.len() {
            Some(tokens@[index as int].name)
        } else {
            None
        },
{
    if index < tokens.len() {
        Some(tokens[index].name)
    } else {
        None
    }
}

/// Where a token stands.
#[verifier::allow_in_spec]
pub fn span_of_token(tokens: &Vec<Token>, file: ModuleFile, index: usize) -> (r: Span)
    returns
        if index < tokens@.len() {
            Span {
                file: File::Module(file),
                byte_start: tokens@[index as int].start,
                byte_end: tokens@[index as int].end,
            }
        } else {
            crate::syntax::empty_span(File::Module(file))
        },
{
    if index < tokens.len() {
        Span {
            file: File::Module(file),
            byte_start: tokens[index].start,
            byte_end: tokens[index].end,
        }
    } else {
        crate::syntax::empty_span(File::Module(file))
    }
}

/// The first token from a position on that starts behind a byte.
pub open spec fn spec_first_inside(tokens: &Vec<Token>, byte: u32, index: usize) -> usize
    decreases tokens@.len() - index,
{
    if index >= tokens.len() {
        index
    } else {
        let token = &tokens[index as int];
        if token.start > byte {
            index
        } else {
            spec_first_inside(tokens, byte, next(index))
        }
    }
}

/// The first token from a position on that starts behind a byte.
#[verifier::allow_in_spec]
pub fn first_inside(tokens: &Vec<Token>, byte: u32, index: usize) -> (r: usize)
    returns
        spec_first_inside(tokens, byte, index),
    decreases tokens@.len() - index,
{
    proof {
        reveal_with_fuel(spec_first_inside, 2);
    }
    if index >= tokens.len() {
        return index;
    }
    let token = &tokens[index];
    if token.start > byte {
        return index;
    }
    first_inside(tokens, byte, next(index))
}

/// The first token from a position on that ends at or behind a byte.
pub open spec fn spec_first_outside(tokens: &Vec<Token>, byte: u32, index: usize) -> usize
    decreases tokens@.len() - index,
{
    if index >= tokens.len() {
        index
    } else {
        let token = &tokens[index as int];
        if token.end >= byte {
            index
        } else {
            spec_first_outside(tokens, byte, next(index))
        }
    }
}

/// The first token from a position on that ends at or behind a byte.
#[verifier::allow_in_spec]
pub fn first_outside(tokens: &Vec<Token>, byte: u32, index: usize) -> (r: usize)
    returns
        spec_first_outside(tokens, byte, index),
    decreases tokens@.len() - index,
{
    proof {
        reveal_with_fuel(spec_first_outside, 2);
    }
    if index >= tokens.len() {
        return index;
    }
    let token = &tokens[index];
    if token.end >= byte {
        return index;
    }
    first_outside(tokens, byte, next(index))
}

/// The bracket that closes the one that is open `depth` times at a position.
pub open spec fn spec_closing_token(
    tokens: &Vec<Token>,
    end: usize,
    index: usize,
    open: TokenKind,
    close: TokenKind,
    depth: usize,
) -> Option<usize>
    decreases end - index,
{
    if index >= end {
        None
    } else {
        let kind = kind_at(tokens, end, index);
        if kind == Some(open) {
            spec_closing_token(tokens, end, next(index), open, close, depth.saturating_add(1))
        } else if kind == Some(close) {
            let depth: usize = depth.saturating_sub(1);
            if depth == 0 {
                Some(index)
            } else {
                spec_closing_token(tokens, end, next(index), open, close, depth)
            }
        } else {
            spec_closing_token(tokens, end, next(index), open, close, depth)
        }
    }
}

/// The bracket that closes the one that is open `depth` times at a position.
#[verifier::allow_in_spec]
pub fn closing_token(
    tokens: &Vec<Token>,
    end: usize,
    index: usize,
    open: TokenKind,
    close: TokenKind,
    depth: usize,
) -> (r: Option<usize>)
    returns
        spec_closing_token(tokens, end, index, open, close, depth),
    decreases end - index,
{
    proof {
        reveal_with_fuel(spec_closing_token, 2);
    }
    if index >= end {
        return None;
    }
    let kind = kind_at(tokens, end, index);
    if kind == Some(open) {
        return closing_token(tokens, end, next(index), open, close, depth.saturating_add(1));
    }
    if kind == Some(close) {
        let depth: usize = depth.saturating_sub(1);
        if depth == 0 {
            return Some(index);
        }
        return closing_token(tokens, end, next(index), open, close, depth);
    }
    closing_token(tokens, end, next(index), open, close, depth)
}

/// The bracket that closes the one at a position.
#[verifier::opaque]
pub open spec fn spec_matching_constructor_token(
    tokens: &Vec<Token>,
    end: usize,
    start: usize,
    open: TokenKind,
    close: TokenKind,
) -> Option<usize> {
    if kind_at(tokens, end, start) != Some(open) {
        None
    } else {
        spec_closing_token(tokens, end, start, open, close, 0)
    }
}

/// The bracket that closes the one at a position.
#[verifier::allow_in_spec]
pub fn matching_constructor_token(
    tokens: &Vec<Token>,
    end: usize,
    start: usize,
    open: TokenKind,
    close: TokenKind,
) -> (r: Option<usize>)
    returns
        spec_matching_constructor_token(tokens, end, start, open, close),
{
    proof {
        reveal(spec_matching_constructor_token);
    }
    if kind_at(tokens, end, start) != Some(open) {
        return None;
    }
    closing_token(tokens, end, start, open, close, 0)
}

/// The position behind the first semicolon from a position on that stands in no bracket.
pub open spec fn spec_behind_semicolon(
    tokens: &Vec<Token>,
    end: usize,
    index: usize,
    depth: usize,
) -> usize
    decreases end - index,
{
    if index >= end {
        end
    } else {
        match kind_at(tokens, end, index) {
            Some(kind) => {
                if depth == 0 && kind == TokenKind::Semicolon {
                    next(index)
                } else {
                    spec_behind_semicolon(tokens, end, next(index), depth_behind(depth, kind))
                }
            },
            None => end,
        }
    }
}

/// The position behind the first semicolon from a position on that stands in no bracket.
#[verifier::allow_in_spec]
pub fn behind_semicolon(tokens: &Vec<Token>, end: usize, index: usize, depth: usize) -> (r: usize)
    returns
        spec_behind_semicolon(tokens, end, index, depth),
    decreases end - index,
{
    proof {
        reveal_with_fuel(spec_behind_semicolon, 2);
    }
    if index >= end {
        return end;
    }
    match kind_at(tokens, end, index) {
        Some(kind) => {
            if depth == 0 && kind == TokenKind::Semicolon {
                return next(index);
            }
            behind_semicolon(tokens, end, next(index), depth_behind(depth, kind))
        },
        None => end,
    }
}

/// The position behind the statement at a position: a block, or what a semicolon ends.
#[verifier::opaque]
pub open spec fn spec_constructor_statement_end(
    tokens: &Vec<Token>,
    end: usize,
    start: usize,
) -> usize {
    if kind_at(tokens, end, start) == Some(TokenKind::LeftBrace) {
        match spec_matching_constructor_token(
            tokens,
            end,
            start,
            TokenKind::LeftBrace,
            TokenKind::RightBrace,
        ) {
            Some(close) => next(close),
            None => end,
        }
    } else {
        spec_behind_semicolon(tokens, end, start, 0)
    }
}

/// The position behind the statement at a position: a block, or what a semicolon ends.
#[verifier::allow_in_spec]
pub fn constructor_statement_end(tokens: &Vec<Token>, end: usize, start: usize) -> (r: usize)
    returns
        spec_constructor_statement_end(tokens, end, start),
{
    proof {
        reveal(spec_constructor_statement_end);
    }
    if kind_at(tokens, end, start) == Some(TokenKind::LeftBrace) {
        return match matching_constructor_token(
            tokens,
            end,
            start,
            TokenKind::LeftBrace,
            TokenKind::RightBrace,
        ) {
            Some(close) => next(close),
            None => end,
        };
    }
    behind_semicolon(tokens, end, start, 0)
}

/// The first parenthesis from a position on.
pub open spec fn spec_first_paren(tokens: &Vec<Token>, end: usize, index: usize) -> Option<usize>
    decreases end - index,
{
    if index >= end {
        None
    } else if kind_at(tokens, end, index) == Some(TokenKind::LeftParen) {
        Some(index)
    } else {
        spec_first_paren(tokens, end, next(index))
    }
}

/// The first parenthesis from a position on.
#[verifier::allow_in_spec]
pub fn first_paren(tokens: &Vec<Token>, end: usize, index: usize) -> (r: Option<usize>)
    returns
        spec_first_paren(tokens, end, index),
    decreases end - index,
{
    proof {
        reveal_with_fuel(spec_first_paren, 2);
    }
    if index >= end {
        return None;
    }
    if kind_at(tokens, end, index) == Some(TokenKind::LeftParen) {
        return Some(index);
    }
    first_paren(tokens, end, next(index))
}

/// Whether a name is among others.
pub open spec fn spec_has_name(names: &List<Name>, name: Name) -> bool
    decreases names,
{
    match names {
        List::Nil => false,
        List::Cons(head, tail) => **head == name || spec_has_name(tail, name),
    }
}

/// Whether a name is among others.
#[verifier::allow_in_spec]
pub fn has_name(names: &List<Name>, name: Name) -> (r: bool)
    returns
        spec_has_name(names, name),
    decreases names,
{
    proof {
        reveal_with_fuel(spec_has_name, 2);
    }
    match names {
        List::Nil => false,
        List::Cons(head, tail) => **head == name || has_name(tail, name),
    }
}

/// Whether each of the required names is among others.
pub open spec fn spec_has_names(names: &List<Name>, required: &List<Name>) -> bool
    decreases required,
{
    match required {
        List::Nil => true,
        List::Cons(head, tail) => spec_has_name(names, **head) && spec_has_names(names, tail),
    }
}

/// Whether each of the required names is among others.
#[verifier::allow_in_spec]
pub fn has_names(names: &List<Name>, required: &List<Name>) -> (r: bool)
    returns
        spec_has_names(names, required),
    decreases required,
{
    proof {
        reveal_with_fuel(spec_has_names, 2);
    }
    match required {
        List::Nil => true,
        List::Cons(head, tail) => has_name(names, **head) && has_names(names, tail),
    }
}

/// The names that are also among others.
pub open spec fn spec_common_names(left: &List<Name>, right: &List<Name>) -> List<Name>
    decreases left,
{
    match left {
        List::Nil => List::Nil,
        List::Cons(head, tail) => {
            if spec_has_name(right, **head) {
                cons(**head, spec_common_names(tail, right))
            } else {
                spec_common_names(tail, right)
            }
        },
    }
}

/// The names that are also among others.
#[verifier::allow_in_spec]
pub fn common_names(left: &List<Name>, right: &List<Name>) -> (r: List<Name>)
    returns
        spec_common_names(left, right),
    decreases left,
{
    proof {
        reveal_with_fuel(spec_common_names, 2);
    }
    match left {
        List::Nil => List::Nil,
        List::Cons(head, tail) => {
            if has_name(right, **head) {
                cons(**head, common_names(tail, right))
            } else {
                common_names(tail, right)
            }
        },
    }
}

/// The fields that are set behind two ways: those that are set on both, or on the only one that
/// goes on.
#[verifier::allow_in_spec]
pub fn set_behind(left: Option<List<Name>>, right: Option<List<Name>>) -> (r: Option<List<Name>>)
    returns
        match (left, right) {
            (Some(left), Some(right)) => Some(spec_common_names(&left, &right)),
            (Some(set), None) => Some(set),
            (None, Some(set)) => Some(set),
            (None, None) => None,
        },
{
    match (left, right) {
        (Some(left), Some(right)) => Some(common_names(&left, &right)),
        (Some(set), None) => Some(set),
        (None, Some(set)) => Some(set),
        (None, None) => None,
    }
}

/// What the analysis of a constructor reads: its tokens, the file they are in, and the fields
/// that must be set.
pub struct ConstructorView<'a> {
    pub tokens: &'a Vec<Token>,
    pub file: ModuleFile,
    pub required: List<Name>,
}

/// What follows a step of the analysis: the next position and the fields that are set there, or
/// the end, at which there are none where no way leads.
pub enum ConstructorStep {
    On { index: usize, set: List<Name> },
    End(Option<List<Name>>),
}

/// The parentheses of a condition.
#[derive(Clone, Copy, Debug, PartialEq, Eq, Structural)]
pub enum ConditionAt {
    Missing,
    Unclosed,
    Closed(usize),
}

/// The parentheses of the condition behind a keyword.
#[verifier::allow_in_spec]
pub fn condition_at(tokens: &Vec<Token>, end: usize, index: usize) -> (r: ConditionAt)
    returns
        match spec_first_paren(tokens, end, index) {
            Some(open) => {
                match spec_matching_constructor_token(
                    tokens,
                    end,
                    open,
                    TokenKind::LeftParen,
                    TokenKind::RightParen,
                ) {
                    Some(close) => ConditionAt::Closed(close),
                    None => ConditionAt::Unclosed,
                }
            },
            None => ConditionAt::Missing,
        },
{
    match first_paren(tokens, end, index) {
        Some(open) => match matching_constructor_token(
            tokens,
            end,
            open,
            TokenKind::LeftParen,
            TokenKind::RightParen,
        ) {
            Some(close) => ConditionAt::Closed(close),
            None => ConditionAt::Unclosed,
        },
        None => ConditionAt::Missing,
    }
}

/// Whether a field of the object is set at a position.
#[verifier::allow_in_spec]
pub fn sets_field(tokens: &Vec<Token>, end: usize, index: usize) -> (r: bool)
    returns
        kind_at(tokens, end, behind(index, 3)) == Some(TokenKind::Equal) && kind_at(
            tokens,
            end,
            next(index),
        ) == Some(TokenKind::Dot) && kind_at(tokens, end, behind(index, 2)) == Some(
            TokenKind::Identifier,
        ),
{
    kind_at(tokens, end, behind(index, 3)) == Some(TokenKind::Equal) && kind_at(
        tokens,
        end,
        next(index),
    ) == Some(TokenKind::Dot) && kind_at(tokens, end, behind(index, 2)) == Some(
        TokenKind::Identifier,
    )
}

/// The fields that are set when the one that is named at a position is.
#[verifier::allow_in_spec]
pub fn with_field(view: &ConstructorView, index: usize, set: List<Name>) -> (r: List<Name>)
    returns
        match name_of_token(view.tokens, index) {
            Some(name) => {
                if spec_has_name(&view.required, name) && !spec_has_name(&set, name) {
                    cons(name, set)
                } else {
                    set
                }
            },
            None => set,
        },
{
    match name_of_token(view.tokens, index) {
        Some(name) => {
            if has_name(&view.required, name) && !has_name(&set, name) {
                cons(name, set)
            } else {
                set
            }
        },
        None => set,
    }
}

/// A constructor must not return before every field is set.
#[verifier::opaque]
pub open spec fn spec_check_return(
    st: Seq<Diagnostic>,
    view: &ConstructorView,
    index: usize,
    set: &List<Name>,
) -> Seq<Diagnostic> {
    if !spec_has_names(set, &view.required) {
        spec_add(
            st, report(
                Finding::ReturnBeforeInitialization,
                span_of_token(view.tokens, view.file, index),
            ),
        )
    } else {
        st
    }
}

impl Reports {
    /// A constructor must not return before every field is set.
    pub(crate) fn check_return(&mut self, view: &ConstructorView, index: usize, set: &List<Name>)
        ensures
            final(self)@ == spec_check_return(old(self)@, view, index, set),
    {
        proof {
            reveal(spec_check_return);
        }
        if !has_names(set, &view.required) {
            self.add(
                report(
                    Finding::ReturnBeforeInitialization,
                    span_of_token(view.tokens, view.file, index),
                ),
            );
        }
    }
}

/// The object: a field of it is set, or it is used, which it must not be before every field is
/// set.
#[verifier::opaque]
pub open spec fn spec_check_object(
    st: Seq<Diagnostic>,
    view: &ConstructorView,
    end: usize,
    index: usize,
    set: List<Name>,
) -> (Seq<Diagnostic>, ConstructorStep) {
    if sets_field(view.tokens, end, index) {
        (st, ConstructorStep::On {
            index: behind(index, 4),
            set: with_field(view, behind(index, 2), set),
        })
    } else {
        let st = if !spec_has_names(&set, &view.required) {
            spec_add(
                st, report(
                    Finding::SelfUseBeforeInitialization,
                    span_of_token(view.tokens, view.file, index),
                ),
            )
        } else {
            st
        };
        (st, ConstructorStep::On { index: next(index), set })
    }
}

impl Reports {
    /// The object: a field of it is set, or it is used, which it must not be before every field is
    /// set.
    pub(crate) fn check_object(
        &mut self,
        view: &ConstructorView,
        end: usize,
        index: usize,
        set: List<Name>,
    ) -> (r: ConstructorStep)
        ensures
            (final(self)@, r) == spec_check_object(old(self)@, view, end, index, set),
    {
        proof {
            reveal(spec_check_object);
        }
        if sets_field(view.tokens, end, index) {
            return ConstructorStep::On {
                index: behind(index, 4),
                set: with_field(view, behind(index, 2), set),
            };
        }
        if !has_names(&set, &view.required) {
            self.add(
                report(
                    Finding::SelfUseBeforeInitialization,
                    span_of_token(view.tokens, view.file, index),
                ),
            );
        }
        ConstructorStep::On { index: next(index), set }
    }
}

/// The reports of the statements in a range, and the fields that are set behind them; none where
/// no way leads behind them.
pub open spec fn spec_analyze_constructor_sequence(
    st: Seq<Diagnostic>,
    view: &ConstructorView,
    index: usize,
    end: usize,
    set: List<Name>,
) -> (Seq<Diagnostic>, Option<List<Name>>)
    decreases end.saturating_sub(index), 1nat,
{
    if index >= end {
        (st, Some(set))
    } else {
        let (st, step) = spec_analyze_step(st, view, index, end, set);
        match step {
            ConstructorStep::On { index: following, set } => if following <= index {
                (st, Some(set))
            } else {
                spec_analyze_constructor_sequence(st, view, following, end, set)
            },
            ConstructorStep::End(set) => (st, set),
        }
    }
}

impl Reports {
    /// The reports of the statements in a range, and the fields that are set behind them; none
    /// where no way leads behind them.
    pub(crate) fn analyze_constructor_sequence(
        &mut self,
        view: &ConstructorView,
        index: usize,
        end: usize,
        set: List<Name>,
    ) -> (r: Option<List<Name>>)
        ensures
            (final(self)@, r) == spec_analyze_constructor_sequence(
                old(self)@,
                view,
                index,
                end,
                set,
            ),
        decreases end.saturating_sub(index), 1nat,
    {
        let ghost given = set;
        let mut position: usize = index;
        let mut current = set;
        while position < end
            invariant
                index <= position,
                given == set,
                spec_analyze_constructor_sequence(old(self)@, view, index, end, given)
                    == spec_analyze_constructor_sequence(self@, view, position, end, current),
            decreases end.saturating_sub(position),
        {
            proof {
                reveal_with_fuel(spec_analyze_constructor_sequence, 2);
            }
            match self.analyze_step(view, position, end, current) {
                ConstructorStep::On { index: following, set: next_set } => {
                    if following <= position {
                        return Some(next_set);
                    }
                    position = following;
                    current = next_set;
                },
                ConstructorStep::End(last_set) => {
                    return last_set;
                },
            }
        }
        Some(current)
    }
}

/// The statement at a position, with the statements inside it.
pub open spec fn spec_analyze_step(
    st: Seq<Diagnostic>,
    view: &ConstructorView,
    index: usize,
    end: usize,
    set: List<Name>,
) -> (Seq<Diagnostic>, ConstructorStep)
    decreases end.saturating_sub(index), 0nat,
{
    if index >= end {
        (st, ConstructorStep::End(Some(set)))
    } else {
        match kind_at(view.tokens, end, index) {
            Some(TokenKind::LeftBrace) => {
                match spec_matching_constructor_token(
                    view.tokens,
                    end,
                    index,
                    TokenKind::LeftBrace,
                    TokenKind::RightBrace,
                ) {
                    Some(close) => {
                        if close >= end {
                            (st, ConstructorStep::End(Some(set)))
                        } else {
                            let (st, inside) = spec_analyze_constructor_sequence(
                                st,
                                view,
                                next(index),
                                close,
                                set,
                            );
                            match inside {
                                Some(set) => {
                                    (st, ConstructorStep::On { index: next(close), set })
                                },
                                None => (st, ConstructorStep::End(None)),
                            }
                        }
                    },
                    _ => (st, ConstructorStep::End(Some(set))),
                }
            },
            Some(TokenKind::If) => {
                match condition_at(view.tokens, end, index) {
                    ConditionAt::Missing => {
                        (st, ConstructorStep::On { index: next(index), set })
                    },
                    ConditionAt::Unclosed => (st, ConstructorStep::End(Some(set))),
                    ConditionAt::Closed(close) => {
                        if close < index || close >= end {
                            (st, ConstructorStep::End(Some(set)))
                        } else {
                            let then_start: usize = next(close);
                            let then_end: usize = spec_constructor_statement_end(
                                view.tokens,
                                end,
                                then_start,
                            );
                            if then_end > end {
                                (st, ConstructorStep::End(Some(set)))
                            } else {
                                let (st, taken) = spec_analyze_constructor_sequence(
                                    st,
                                    view,
                                    then_start,
                                    then_end,
                                    dup_plain(&set),
                                );
                                if kind_at(view.tokens, end, then_end) != Some(TokenKind::Else) {
                                    (st, match set_behind(taken, Some(set)) {
                                        Some(set) => ConstructorStep::On { index: then_end, set },
                                        None => ConstructorStep::End(None),
                                    })
                                } else {
                                    let else_start: usize = next(then_end);
                                    let else_end: usize = spec_constructor_statement_end(
                                        view.tokens,
                                        end,
                                        else_start,
                                    );
                                    if else_end > end || else_start <= index {
                                        (st, ConstructorStep::End(Some(set)))
                                    } else {
                                        let (st, other) = spec_analyze_constructor_sequence(
                                            st,
                                            view,
                                            else_start,
                                            else_end,
                                            set,
                                        );
                                        match set_behind(taken, other) {
                                            Some(set) => {
                                                (st, ConstructorStep::On { index: else_end, set })
                                            },
                                            None => (st, ConstructorStep::End(None)),
                                        }
                                    }
                                }
                            }
                        }
                    },
                }
            },
            Some(TokenKind::While | TokenKind::For) => {
                match condition_at(view.tokens, end, index) {
                    ConditionAt::Missing => {
                        (st, ConstructorStep::On { index: next(index), set })
                    },
                    ConditionAt::Unclosed => (st, ConstructorStep::End(Some(set))),
                    ConditionAt::Closed(close) => {
                        if close < index || close >= end {
                            (st, ConstructorStep::End(Some(set)))
                        } else {
                            let body_start: usize = next(close);
                            let body_end: usize = spec_constructor_statement_end(
                                view.tokens,
                                end,
                                body_start,
                            );
                            if body_end > end {
                                (st, ConstructorStep::End(Some(set)))
                            } else {
                                let st = spec_analyze_constructor_sequence(
                                    st,
                                    view,
                                    body_start,
                                    body_end,
                                    dup_plain(&set),
                                ).0;
                                (st, ConstructorStep::On { index: body_end, set })
                            }
                        }
                    },
                }
            },
            Some(TokenKind::Return) => {
                let st = spec_check_return(st, view, index, &set);
                (st, ConstructorStep::End(None))
            },
            Some(TokenKind::This) => spec_check_object(st, view, end, index, set),
            _ => (st, ConstructorStep::On { index: next(index), set }),
        }
    }
}

impl Reports {
    /// The statement at a position, with the statements inside it.
    pub(crate) fn analyze_step(
        &mut self,
        view: &ConstructorView,
        index: usize,
        end: usize,
        set: List<Name>,
    ) -> (r: ConstructorStep)
        ensures
            (final(self)@, r) == spec_analyze_step(old(self)@, view, index, end, set),
        decreases end.saturating_sub(index), 0nat,
    {
        proof {
            reveal_with_fuel(spec_analyze_step, 2);
        }
        if index >= end {
            return ConstructorStep::End(Some(set));
        }
        match kind_at(view.tokens, end, index) {
            Some(TokenKind::LeftBrace) => {
                let Some(close) = matching_constructor_token(
                    view.tokens,
                    end,
                    index,
                    TokenKind::LeftBrace,
                    TokenKind::RightBrace,
                ) else {
                    return ConstructorStep::End(Some(set));
                };
                if close >= end {
                    return ConstructorStep::End(Some(set));
                }
                let inside = self.analyze_constructor_sequence(view, next(index), close, set);
                match inside {
                    Some(set) => ConstructorStep::On { index: next(close), set },
                    None => ConstructorStep::End(None),
                }
            },
            Some(TokenKind::If) => {
                match condition_at(view.tokens, end, index) {
                    ConditionAt::Missing => ConstructorStep::On { index: next(index), set },
                    ConditionAt::Unclosed => ConstructorStep::End(Some(set)),
                    ConditionAt::Closed(close) => {
                        if close < index || close >= end {
                            return ConstructorStep::End(Some(set));
                        }
                        let then_start: usize = next(close);
                        let then_end: usize = constructor_statement_end(
                            view.tokens,
                            end,
                            then_start,
                        );
                        if then_end > end {
                            return ConstructorStep::End(Some(set));
                        }
                        let taken = self.analyze_constructor_sequence(
                            view,
                            then_start,
                            then_end,
                            dup_plain(&set),
                        );
                        if kind_at(view.tokens, end, then_end) != Some(TokenKind::Else) {
                            return match set_behind(taken, Some(set)) {
                                Some(set) => ConstructorStep::On { index: then_end, set },
                                None => ConstructorStep::End(None),
                            };
                        }
                        let else_start: usize = next(then_end);
                        let else_end: usize = constructor_statement_end(
                            view.tokens,
                            end,
                            else_start,
                        );
                        if else_end > end || else_start <= index {
                            return ConstructorStep::End(Some(set));
                        }
                        let other = self.analyze_constructor_sequence(
                            view,
                            else_start,
                            else_end,
                            set,
                        );
                        match set_behind(taken, other) {
                            Some(set) => ConstructorStep::On { index: else_end, set },
                            None => ConstructorStep::End(None),
                        }
                    },
                }
            },
            Some(TokenKind::While | TokenKind::For) => {
                match condition_at(view.tokens, end, index) {
                    ConditionAt::Missing => ConstructorStep::On { index: next(index), set },
                    ConditionAt::Unclosed => ConstructorStep::End(Some(set)),
                    ConditionAt::Closed(close) => {
                        if close < index || close >= end {
                            return ConstructorStep::End(Some(set));
                        }
                        let body_start: usize = next(close);
                        let body_end: usize = constructor_statement_end(
                            view.tokens,
                            end,
                            body_start,
                        );
                        if body_end > end {
                            return ConstructorStep::End(Some(set));
                        }
                        let _ = self.analyze_constructor_sequence(
                            view,
                            body_start,
                            body_end,
                            dup_plain(&set),
                        );
                        ConstructorStep::On { index: body_end, set }
                    },
                }
            },
            Some(TokenKind::Return) => {
                self.check_return(view, index, &set);
                ConstructorStep::End(None)
            },
            Some(TokenKind::This) => self.check_object(view, end, index, set),
            _ => ConstructorStep::On { index: next(index), set },
        }
    }
}

/// The fields that a constructor must set: those that are not optional and have no initializer.
pub open spec fn required_fields_from(fields: Seq<Field>, from: nat) -> List<Name>
    decreases fields.len() - from,
{
    if from >= fields.len() {
        List::Nil
    } else {
        let item = &fields[from as int];
        let found = {
            if !item.optional && !item.has_initializer {
                Some(item.name)
            } else {
                None
            }
        };
        match found {
            Some(found) => cons(found, required_fields_from(fields, from + 1)),
            None => required_fields_from(fields, from + 1),
        }
    }
}

/// The fields that a constructor must set: those that are not optional and have no initializer.
#[verifier::allow_in_spec]
pub fn required_fields(fields: &Vec<Field>) -> (r: List<Name>)
    returns
        required_fields_from(fields@, 0),
{
    let mut list: List<Name> = List::Nil;
    let mut index: usize = fields.len();
    while index > 0
        invariant
            index <= fields@.len(),
            list == required_fields_from(fields@, index as nat),
        decreases index,
    {
        index = index - 1;
        let item = &fields[index];
        let found = {
            if !item.optional && !item.has_initializer {
                Some(item.name)
            } else {
                None
            }
        };
        match found {
            Some(found) => {
                list = cons(found, list);
            },
            None => {},
        }
    }
    list
}

/// The constructor of the class that another extends.
#[verifier::opaque]
pub open spec fn spec_base_constructor<'a>(
    program: &'a Program,
    base: Option<DeclarationId>,
) -> Option<&'a Method> {
    match base {
        Some(base) => {
            match definition_of(program, base) {
                Some(definition) => {
                    match &definition.data {
                        DefinitionData::Class { constructor: Some(constructor), .. } => {
                            Some(constructor)
                        },
                        _ => None,
                    }
                },
                None => None,
            }
        },
        _ => None,
    }
}

/// The constructor of the class that another extends.
#[verifier::allow_in_spec]
pub fn base_constructor<'a>(
    program: &'a Program,
    base: Option<DeclarationId>,
) -> (r: Option<&'a Method>)
    returns
        spec_base_constructor(program, base),
{
    proof {
        reveal(spec_base_constructor);
    }
    let Some(base) = base else {
        return None;
    };
    match definition_of(program, base) {
        Some(definition) => match &definition.data {
            DefinitionData::Class { constructor: Some(constructor), .. } => Some(constructor),
            _ => None,
        },
        None => None,
    }
}

/// Whether the class that another extends can be constructed without being told how.
#[verifier::allow_in_spec]
pub fn is_base_synthesizable(program: &Program, base: Option<DeclarationId>) -> (r: bool)
    returns
        match spec_base_constructor(program, base) {
            Some(constructor) => {
                constructor.function.parameters.len() == 0
                && constructor.function.effects.is_empty() && constructor.visibility
                != Visibility::Private
            },
            None => true,
        },
{
    match base_constructor(program, base) {
        Some(constructor) => constructor.function.parameters.len() == 0
            && constructor.function.effects.is_empty() && constructor.visibility
            != Visibility::Private,
        None => true,
    }
}

/// The number of calls of the constructor above in a range of tokens, and that before.
pub open spec fn super_calls_from(
    tokens: Seq<Token>,
    count: usize,
    start: usize,
    end: usize,
    from: nat,
) -> usize
    decreases tokens.len() - from,
{
    if from >= tokens.len() {
        count
    } else {
        let item = &tokens[from as int];
        let index = from as usize;
        let folded = {
            if start <= index && index < end && item.kind == TokenKind::Super {
                count.saturating_add(1)
            } else {
                count
            }
        };
        super_calls_from(tokens, folded, start, end, from + 1)
    }
}

/// The number of calls of the constructor above in a range of tokens, and that before.
#[verifier::allow_in_spec]
pub fn super_calls(tokens: &Vec<Token>, count: usize, start: usize, end: usize) -> (r: usize)
    returns
        super_calls_from(tokens@, count, start, end, 0),
{
    let ghost given = count;
    let mut count = count;
    let mut index: usize = 0;
    while index < tokens.len()
        invariant
            super_calls_from(tokens@, given, start, end, 0)
                == super_calls_from(tokens@, count, start, end, index as nat),
        decreases tokens.len() - index,
    {
        let item = &tokens[index];
        let folded = {
            if start <= index && index < end && item.kind == TokenKind::Super {
                count.saturating_add(1)
            } else {
                count
            }
        };
        count = folded;
        index = index + 1;
    }
    count
}

/// Whether a range starts with a call of the constructor above, or with an attempt.
#[verifier::allow_in_spec]
pub fn starts_with_super(tokens: &Vec<Token>, start: usize, end: usize) -> (r: bool)
    returns
        kind_at(tokens, end, start) == Some(TokenKind::Super)
            || kind_at(tokens, end, start) == Some(
            TokenKind::Try,
        ),
{
    kind_at(tokens, end, start) == Some(TokenKind::Super) || kind_at(tokens, end, start) == Some(
        TokenKind::Try,
    )
}

/// A class must call the constructor above first and once, if there is one.
#[verifier::opaque]
pub open spec fn spec_check_super_calls(
    st: Seq<Diagnostic>,
    module: &Module,
    has_base: bool,
    span: Span,
    start: usize,
    end: usize,
) -> Seq<Diagnostic> {
    let calls: usize = super_calls(&module.tokens, 0, start, end);
    if has_base {
        if calls != 1 || !starts_with_super(&module.tokens, start, end) {
            spec_add(st, report(Finding::InvalidSuperCall, span))
        } else {
            st
        }
    } else if calls != 0 {
        spec_add(st, report(Finding::SuperWithoutBase, span))
    } else {
        st
    }
}

impl Reports {
    /// A class must call the constructor above first and once, if there is one.
    pub(crate) fn check_super_calls(
        &mut self,
        module: &Module,
        has_base: bool,
        span: Span,
        start: usize,
        end: usize,
    )
        ensures
            final(self)@ == spec_check_super_calls(
                old(self)@,
                module,
                has_base,
                span,
                start,
                end,
            ),
    {
        proof {
            reveal(spec_check_super_calls);
        }
        let calls: usize = super_calls(&module.tokens, 0, start, end);
        if has_base {
            if calls != 1 || !starts_with_super(&module.tokens, start, end) {
                self.add(report(Finding::InvalidSuperCall, span));
            }
        } else if calls != 0 {
            self.add(report(Finding::SuperWithoutBase, span));
        }
    }
}

/// Each required field must be set.
pub open spec fn check_fields_set_from(
    st: Seq<Diagnostic>,
    fields: Seq<Field>,
    set: &List<Name>,
    from: nat,
) -> Seq<Diagnostic>
    decreases fields.len() - from,
{
    if from >= fields.len() {
        st
    } else {
        let item = &fields[from as int];
        let st = {
            if !item.optional && !item.has_initializer && !spec_has_name(set, item.name) {
                spec_add(st, report(Finding::UninitializedField(item.name), item.span))
            } else {
                st
            }
        };
        check_fields_set_from(st, fields, set, from + 1)
    }
}

impl Reports {
    /// Each required field must be set.
    pub(crate) fn check_fields_set(&mut self, fields: &Vec<Field>, set: &List<Name>)
        ensures
            final(self)@ == check_fields_set_from(old(self)@, fields@, set, 0),
    {
        let mut index: usize = 0;
        while index < fields.len()
            invariant
                check_fields_set_from(old(self)@, fields@, set, 0)
                    == check_fields_set_from(self@, fields@, set, index as nat),
            decreases fields.len() - index,
        {
            let item = &fields[index];
            if !item.optional && !item.has_initializer && !has_name(set, item.name) {
                self.add(report(Finding::UninitializedField(item.name), item.span));
            }
            index = index + 1;
        }
    }
}

/// The code of a constructor.
#[verifier::opaque]
pub open spec fn spec_check_constructor_code(
    st: Seq<Diagnostic>,
    module: &Module,
    constructor: &Method,
    fields: &Vec<Field>,
    has_base: bool,
) -> Seq<Diagnostic> {
    let start: usize = spec_first_inside(&module.tokens, constructor.function.body_start, 0);
    let end: usize = spec_first_outside(&module.tokens, constructor.function.body_end, start);
    let st = spec_check_super_calls(st, module, has_base, constructor.span, start, end);
    let view = ConstructorView {
        tokens: &module.tokens,
        file: module.file,
        required: required_fields(fields),
    };
    let (st, behind_code) = spec_analyze_constructor_sequence(st, &view, start, end, List::Nil);
    if let Some(set) = behind_code {
        check_fields_set_from(st, fields@, &set, 0)
    } else {
        st
    }
}

impl Reports {
    /// The code of a constructor.
    pub(crate) fn check_constructor_code(
        &mut self,
        module: &Module,
        constructor: &Method,
        fields: &Vec<Field>,
        has_base: bool,
    )
        ensures
            final(self)@ == spec_check_constructor_code(
                old(self)@,
                module,
                constructor,
                fields,
                has_base,
            ),
    {
        proof {
            reveal(spec_check_constructor_code);
        }
        let start: usize = first_inside(&module.tokens, constructor.function.body_start, 0);
        let end: usize = first_outside(&module.tokens, constructor.function.body_end, start);
        self.check_super_calls(module, has_base, constructor.span, start, end);
        let view = ConstructorView {
            tokens: &module.tokens,
            file: module.file,
            required: required_fields(fields),
        };
        let behind_code = self.analyze_constructor_sequence(&view, start, end, List::Nil);
        if let Some(set) = behind_code {
            self.check_fields_set(fields, &set);
        }
    }
}

/// The construction of a class: its constructor, or one that goes without saying.
#[verifier::opaque]
pub open spec fn spec_check_class_construction(
    st: Seq<Diagnostic>,
    program: &Program,
    declaration: DeclarationId,
    base: Option<DeclarationId>,
    constructor: &Option<Method>,
    fields: &Vec<Field>,
) -> Seq<Diagnostic> {
    match constructor {
        Some(constructor) => {
            match program.declaration(declaration) {
                Some(declared) => {
                    match program.module(declared.module) {
                        Some(module) => {
                            spec_check_constructor_code(
                                st,
                                module,
                                constructor,
                                fields,
                                base.is_some(),
                            )
                        },
                        _ => st,
                    }
                },
                _ => st,
            }
        },
        _ => {
            let st = if !required_fields(fields).is_empty()
                || !is_base_synthesizable(program, base) {
                spec_add_for_declaration(st, program, declaration, Finding::ConstructorRequired)
            } else {
                st
            };
            st
        },
    }
}

impl Reports {
    /// The construction of a class: its constructor, or one that goes without saying.
    pub(crate) fn check_class_construction(
        &mut self,
        program: &Program,
        declaration: DeclarationId,
        base: Option<DeclarationId>,
        constructor: &Option<Method>,
        fields: &Vec<Field>,
    )
        ensures
            final(self)@ == spec_check_class_construction(
                old(self)@,
                program,
                declaration,
                base,
                constructor,
                fields,
            ),
    {
        proof {
            reveal(spec_check_class_construction);
        }
        let Some(constructor) = constructor else {
            if !required_fields(fields).is_empty() || !is_base_synthesizable(program, base) {
                self.add_for_declaration(program, declaration, Finding::ConstructorRequired);
            }
            return;
        };
        let Some(declared) = program.declaration(declaration) else {
            return;
        };
        let Some(module) = program.module(declared.module) else {
            return;
        };
        self.check_constructor_code(module, constructor, fields, base.is_some());
    }
}

} // verus!
