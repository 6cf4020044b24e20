//! Closures and templates.

use vstd::prelude::*;

use crate::hir::{
    same_type, HirCapture, HirCaptureMode, HirClosure, HirClosureId, HirLocal, HirLocalId,
    HirTemplateId, HirTemplatePart, HirTemplateStorage, ResolvedValue, Type,
};
use crate::list::{cons, dup_plain, List};
use crate::lowering::access::dereferenced;
use crate::lowering::bindings::nth_type;
use crate::lowering::builder::{
    body_view, empty_state, spec_add_local, spec_bind_hir, spec_capture, spec_is_captured,
    spec_lowered_local, spec_terminate, BodyView, Builder, State,
};
use crate::lowering::context::{before, next, Context};
use crate::lowering::emit::{spec_assign, spec_borrowed, spec_computed, spec_live, Value};
use crate::lowering::recursion::{lowering, Lowering};
use crate::lowering::statements::spec_lower_body;
use crate::mir::{operand_place, whole, Body, Operand, Rvalue, TemplatePart, TerminatorKind};
use crate::syntax::{Token, TokenKind};

verus! {

/// An optional type.
#[verifier::allow_in_spec]
pub fn dup_optional(ty: &Option<Type>) -> (r: Option<Type>)
    returns
        match ty {
            Some(ty) => Some(ty.dup()),
            None => None,
        },
{
    match ty {
        Some(ty) => Some(ty.dup()),
        None => None,
    }
}

/// The surroundings of an expression that is embedded in a template, with tokens of its own.
#[verifier::opaque]
pub open spec fn spec_embedded_context<'a>(
    cx: &Context<'a>,
    tokens: &'a Vec<Token>,
) -> Context<'a> {
    Context {
        program: cx.program,
        module: cx.module,
        hir: cx.hir,
        facts: cx.facts,
        tokens,
        first: 0,
        count: tokens.len(),
        body_limit: tokens.len(),
        return_type: cx.return_type.dup(),
        declared_effects: dup_plain(&cx.declared_effects),
        generics: dup_plain(&cx.generics),
        generator_item_type: dup_optional(&cx.generator_item_type),
        generator_async: cx.generator_async,
    }
}

/// The surroundings of an expression that is embedded in a template, with tokens of its own.
#[verifier::allow_in_spec]
pub fn embedded_context<'a>(cx: &Context<'a>, tokens: &'a Vec<Token>) -> (r: Context<'a>)
    returns
        spec_embedded_context(cx, tokens),
{
    proof {
        reveal(spec_embedded_context);
    }
    Context {
        program: cx.program,
        module: cx.module,
        hir: cx.hir,
        facts: cx.facts,
        tokens,
        first: 0,
        count: tokens.len(),
        body_limit: tokens.len(),
        return_type: cx.return_type.dup(),
        declared_effects: dup_plain(&cx.declared_effects),
        generics: dup_plain(&cx.generics),
        generator_item_type: dup_optional(&cx.generator_item_type),
        generator_async: cx.generator_async,
    }
}

/// An expression that is embedded in a template. Its tokens end with a brace.
#[verifier::opaque]
pub open spec fn spec_lower_embedded_expression(
    cx: &Context,
    st: State,
    tokens: &Vec<Token>,
    expected: &Type,
    low: Lowering,
) -> (State, Option<Value>) {
    let nested = spec_embedded_context(cx, tokens);
    let position: usize = st.index;
    let st = State { index: 0, ..st };
    let (st, value) = (low.expression)(&nested, st, 0, before(tokens.len()), Some(expected));
    let st = State { index: position, ..st };
    (st, value)
}

impl Builder {
    /// An expression that is embedded in a template. Its tokens end with a brace.
    pub(crate) fn lower_embedded_expression(
        &mut self,
        cx: &Context,
        tokens: &Vec<Token>,
        expected: &Type,
        limit: usize,
    ) -> (r: Option<Value>)
        ensures
            (final(self)@, r) == spec_lower_embedded_expression(
                cx,
                old(self)@,
                tokens,
                expected,
                lowering(limit as nat),
            ),
        decreases limit, 1nat, 0nat,
    {
        proof {
            reveal(spec_lower_embedded_expression);
        }
        let nested = embedded_context(cx, tokens);
        let position: usize = self.index;
        self.index = 0;
        let value = self.expression(&nested, 0, before(tokens.len()), Some(expected), limit);
        self.index = position;
        value
    }
}

/// The parts of a template and what it captures.
pub struct TemplateContents {
    pub parts: List<TemplatePart>,
    pub captures: List<Operand>,
}

/// What a template keeps of a value: a reference to it, or the value itself.
#[verifier::opaque]
pub open spec fn spec_capture_interpolation(
    st: State,
    value: Value,
    storage: HirTemplateStorage,
    ty: Type,
    origin: crate::syntax::Span,
) -> (State, Option<Operand>) {
    match storage {
        HirTemplateStorage::SharedBorrow => {
            match operand_place(value.operand) {
                Some(place) => {
                    let (st, operand) = spec_borrowed(st, ty, false, place, origin);
                    (st, Some(operand))
                },
                _ => (st, None),
            }
        },
        HirTemplateStorage::Owned => (st, Some(value.operand)),
    }
}

impl Builder {
    /// What a template keeps of a value: a reference to it, or the value itself.
    pub(crate) fn capture_interpolation(
        &mut self,
        value: Value,
        storage: HirTemplateStorage,
        ty: Type,
        origin: crate::syntax::Span,
    ) -> (r: Option<Operand>)
        ensures
            (final(self)@, r) == spec_capture_interpolation(
                old(self)@,
                value,
                storage,
                ty,
                origin,
            ),
    {
        proof {
            reveal(spec_capture_interpolation);
        }
        match storage {
            HirTemplateStorage::SharedBorrow => {
                let Some(place) = operand_place(value.operand) else {
                    return None;
                };
                let operand = self.borrowed(ty, false, place, origin);
                Some(operand)
            },
            HirTemplateStorage::Owned => Some(value.operand),
        }
    }
}

/// The parts of a template from `index` on, whose captures are numbered from `capture` on.
#[verifier::opaque]
pub open spec fn spec_lower_template_parts(
    cx: &Context,
    st: State,
    parts: &Vec<HirTemplatePart>,
    index: usize,
    types: &List<Type>,
    capture: usize,
    low: Lowering,
) -> (State, Option<TemplateContents>)
    decreases parts@.len() - index,
{
    if index >= parts.len() {
        (st, Some(TemplateContents { parts: List::Nil, captures: List::Nil }))
    } else {
        match &parts[index as int] {
            HirTemplatePart::Literal(text) => {
                let (st, attempt) = spec_lower_template_parts(
                    cx,
                    st,
                    parts,
                    next(index),
                    types,
                    capture,
                    low,
                );
                match attempt {
                    Some(others) => {
                        (st, Some(
                            TemplateContents {
                                parts: cons(TemplatePart::Literal(dup_plain(text)), others.parts),
                                captures: others.captures,
                            },
                        ))
                    },
                    _ => (st, None),
                }
            },
            HirTemplatePart::Interpolation { ty, storage, origin, tokens } => {
                let (st, attempt) = spec_lower_embedded_expression(cx, st, tokens, ty, low);
                match attempt {
                    Some(value) => {
                        if !same_type(&value.ty, ty) {
                            (st, None)
                        } else {
                            match nth_type(types, capture) {
                                Some(capture_type) => {
                                    let (st, attempt) = spec_capture_interpolation(
                                        st,
                                        value,
                                        *storage,
                                        capture_type,
                                        *origin,
                                    );
                                    match attempt {
                                        Some(operand) => {
                                            let (st, attempt) = spec_lower_template_parts(
                                                cx,
                                                st,
                                                parts,
                                                next(index),
                                                types,
                                                next(capture),
                                                low,
                                            );
                                            match attempt {
                                                Some(others) => {
                                                    (st, Some(
                                                        TemplateContents {
                                                            parts: cons(
                                                                TemplatePart::Interpolation { capture, value_type: ty.dup() },
                                                                others.parts,
                                                            ),
                                                            captures: cons(
                                                                operand,
                                                                others.captures,
                                                            ),
                                                        },
                                                    ))
                                                },
                                                _ => (st, None),
                                            }
                                        },
                                        _ => (st, None),
                                    }
                                },
                                _ => (st, None),
                            }
                        }
                    },
                    _ => (st, None),
                }
            },
        }
    }
}

impl Builder {
    /// The parts of a template from `index` on, whose captures are numbered from `capture` on.
    pub(crate) fn lower_template_parts(
        &mut self,
        cx: &Context,
        parts: &Vec<HirTemplatePart>,
        index: usize,
        types: &List<Type>,
        capture: usize,
        limit: usize,
    ) -> (r: Option<TemplateContents>)
        ensures
            (final(self)@, r) == spec_lower_template_parts(
                cx,
                old(self)@,
                parts,
                index,
                types,
                capture,
                lowering(limit as nat),
            ),
        decreases limit, 2nat, parts@.len() - index,
    {
        proof {
            reveal_with_fuel(spec_lower_template_parts, 2);
        }
        if index >= parts.len() {
            return Some(TemplateContents { parts: List::Nil, captures: List::Nil });
        }
        match &parts[index] {
            HirTemplatePart::Literal(text) => {
                let Some(others) = self.lower_template_parts(
                    cx,
                    parts,
                    next(index),
                    types,
                    capture,
                    limit,
                ) else {
                    return None;
                };
                Some(
                    TemplateContents {
                        parts: cons(TemplatePart::Literal(dup_plain(text)), others.parts),
                        captures: others.captures,
                    },
                )
            },
            HirTemplatePart::Interpolation { ty, storage, origin, tokens } => {
                let Some(value) = self.lower_embedded_expression(cx, tokens, ty, limit) else {
                    return None;
                };
                if !same_type(&value.ty, ty) {
                    return None;
                }
                let Some(capture_type) = nth_type(types, capture) else {
                    return None;
                };
                let Some(operand) = self.capture_interpolation(
                    value,
                    *storage,
                    capture_type,
                    *origin,
                ) else {
                    return None;
                };
                let Some(others) = self.lower_template_parts(
                    cx,
                    parts,
                    next(index),
                    types,
                    next(capture),
                    limit,
                ) else {
                    return None;
                };
                Some(
                    TemplateContents {
                        parts: cons(
                            TemplatePart::Interpolation { capture, value_type: ty.dup() },
                            others.parts,
                        ),
                        captures: cons(operand, others.captures),
                    },
                )
            },
        }
    }
}

/// The type of the template that starts with a token.
#[verifier::allow_in_spec]
pub fn template_type(cx: &Context, start: usize, id: HirTemplateId) -> (r: Option<Type>)
    returns
        match cx.hir_expression_at(start) {
            Some(expression) => {
                if expression.resolution == Some(ResolvedValue::Template(id)) {
                    Some(expression.ty.dup())
                } else {
                    None
                }
            },
            None => None,
        },
{
    match cx.hir_expression_at(start) {
        Some(expression) => {
            if expression.resolution == Some(ResolvedValue::Template(id)) {
                Some(expression.ty.dup())
            } else {
                None
            }
        },
        None => None,
    }
}

/// A template.
#[verifier::opaque]
pub open spec fn spec_lower_template(
    cx: &Context,
    st: State,
    start: usize,
    id: HirTemplateId,
    low: Lowering,
) -> (State, Option<Value>) {
    match cx.template(id) {
        Some(template) => {
            match template_type(cx, start, id) {
                Some(Type::Template(types)) => {
                    let (st, attempt) = spec_lower_template_parts(
                        cx,
                        st,
                        &template.parts,
                        0,
                        &types,
                        0,
                        low,
                    );
                    match attempt {
                        Some(contents) => {
                            let ty = Type::Template(types);
                            let (st, operand) = spec_computed(
                                st, ty.dup(),
                                Rvalue::Template {
                                    id,
                                    parts: contents.parts,
                                    captures: contents.captures,
                                    ty: ty.dup(),
                                },
                                template.origin,
                            );
                            (st, Some(Value { operand, ty }))
                        },
                        _ => (st, None),
                    }
                },
                _ => (st, None),
            }
        },
        _ => (st, None),
    }
}

impl Builder {
    /// A template.
    pub(crate) fn lower_template(
        &mut self,
        cx: &Context,
        start: usize,
        id: HirTemplateId,
        limit: usize,
    ) -> (r: Option<Value>)
        ensures
            (final(self)@, r) == spec_lower_template(
                cx,
                old(self)@,
                start,
                id,
                lowering(limit as nat),
            ),
        decreases limit, 3nat, 0nat,
    {
        proof {
            reveal(spec_lower_template);
        }
        let Some(template) = cx.template(id) else {
            return None;
        };
        let Some(Type::Template(types)) = template_type(cx, start, id) else {
            return None;
        };
        let Some(contents) = self.lower_template_parts(
            cx,
            &template.parts,
            0,
            &types,
            0,
            limit,
        ) else {
            return None;
        };
        let ty = Type::Template(types);
        let operand = self.computed(
            ty.dup(),
            Rvalue::Template {
                id,
                parts: contents.parts,
                captures: contents.captures,
                ty: ty.dup(),
            },
            template.origin,
        );
        Some(Value { operand, ty })
    }
}

/// What a closure captures: the value, or a reference to it.
#[verifier::opaque]
pub open spec fn spec_lower_capture(st: State, capture: &HirCapture) -> (State, Option<Operand>) {
    match spec_lowered_local(st, capture.local) {
        Some(local) => {
            let source = dereferenced(whole(local), spec_is_captured(st, local));
            match capture.mode {
                HirCaptureMode::Move => (st, Some(Operand::Move(source))),
                HirCaptureMode::SharedBorrow => {
                    let (st, operand) = spec_borrowed(
                        st,
                        capture.ty.dup(),
                        false,
                        source,
                        capture.origin,
                    );
                    (st, Some(operand))
                },
                HirCaptureMode::MutableBorrow => {
                    let (st, operand) = spec_borrowed(
                        st,
                        capture.ty.dup(),
                        true,
                        source,
                        capture.origin,
                    );
                    (st, Some(operand))
                },
            }
        },
        _ => (st, None),
    }
}

impl Builder {
    /// What a closure captures: the value, or a reference to it.
    pub(crate) fn lower_capture(&mut self, capture: &HirCapture) -> (r: Option<Operand>)
        ensures
            (final(self)@, r) == spec_lower_capture(old(self)@, capture),
    {
        proof {
            reveal(spec_lower_capture);
        }
        let Some(local) = self.lowered_local(capture.local) else {
            return None;
        };
        let source = dereferenced(whole(local), self.is_captured(local));
        match capture.mode {
            HirCaptureMode::Move => Some(Operand::Move(source)),
            HirCaptureMode::SharedBorrow => {
                let operand = self.borrowed(capture.ty.dup(), false, source, capture.origin);
                Some(operand)
            },
            HirCaptureMode::MutableBorrow => {
                let operand = self.borrowed(capture.ty.dup(), true, source, capture.origin);
                Some(operand)
            },
        }
    }
}

/// What a closure captures, from the capture `index` on.
#[verifier::opaque]
pub open spec fn spec_lower_captures(
    st: State,
    captures: &Vec<HirCapture>,
    index: usize,
) -> (State, Option<List<Operand>>)
    decreases captures@.len() - index,
{
    if index >= captures.len() {
        (st, Some(List::Nil))
    } else {
        let (st, attempt) = spec_lower_capture(st, &captures[index as int]);
        match attempt {
            Some(operand) => {
                let (st, attempt) = spec_lower_captures(st, captures, next(index));
                match attempt {
                    Some(others) => {
                        (st, Some(cons(operand, others)))
                    },
                    _ => (st, None),
                }
            },
            _ => (st, None),
        }
    }
}

impl Builder {
    /// What a closure captures, from the capture `index` on.
    pub(crate) fn lower_captures(
        &mut self,
        captures: &Vec<HirCapture>,
        index: usize,
    ) -> (r: Option<List<Operand>>)
        ensures
            (final(self)@, r) == spec_lower_captures(old(self)@, captures, index),
        decreases captures@.len() - index,
    {
        proof {
            reveal_with_fuel(spec_lower_captures, 2);
        }
        if index >= captures.len() {
            return Some(List::Nil);
        }
        let Some(operand) = self.lower_capture(&captures[index]) else {
            return None;
        };
        let Some(others) = self.lower_captures(captures, next(index)) else {
            return None;
        };
        Some(cons(operand, others))
    }
}

/// The first token from a position on that starts at or behind a byte.
pub open spec fn spec_first_starting(cx: &Context, byte: u32, index: usize) -> usize
    decreases cx.count - index,
{
    if index >= cx.count {
        index
    } else {
        match cx.token(index) {
            Some(token) => {
                if token.start >= byte {
                    index
                } else {
                    spec_first_starting(cx, byte, next(index))
                }
            },
            None => index,
        }
    }
}

/// The first token from a position on that starts at or behind a byte.
#[verifier::allow_in_spec]
pub fn first_starting(cx: &Context, byte: u32, index: usize) -> (r: usize)
    returns
        spec_first_starting(cx, byte, index),
    decreases cx.count - index,
{
    proof {
        reveal_with_fuel(spec_first_starting, 2);
    }
    if index >= cx.count {
        return index;
    }
    match cx.token(index) {
        Some(token) => {
            if token.start >= byte {
                index
            } else {
                first_starting(cx, byte, next(index))
            }
        },
        None => index,
    }
}

/// The first token from a position on that ends behind a byte.
pub open spec fn spec_first_ending_behind(cx: &Context, byte: u32, index: usize) -> usize
    decreases cx.count - index,
{
    if index >= cx.count {
        index
    } else {
        match cx.token(index) {
            Some(token) => {
                if token.end > byte {
                    index
                } else {
                    spec_first_ending_behind(cx, byte, next(index))
                }
            },
            None => index,
        }
    }
}

/// The first token from a position on that ends behind a byte.
#[verifier::allow_in_spec]
pub fn first_ending_behind(cx: &Context, byte: u32, index: usize) -> (r: usize)
    returns
        spec_first_ending_behind(cx, byte, index),
    decreases cx.count - index,
{
    proof {
        reveal_with_fuel(spec_first_ending_behind, 2);
    }
    if index >= cx.count {
        return index;
    }
    match cx.token(index) {
        Some(token) => {
            if token.end > byte {
                index
            } else {
                first_ending_behind(cx, byte, next(index))
            }
        },
        None => index,
    }
}

/// The tokens of a closure, without the braces of a block.
#[derive(Clone, Copy, Debug, PartialEq, Eq, Structural)]
pub struct ClosureTokens {
    pub start: usize,
    pub end: usize,
    pub block: bool,
}

/// The tokens of a closure.
#[verifier::opaque]
pub open spec fn spec_closure_tokens(cx: &Context, closure: &HirClosure) -> ClosureTokens {
    let start: usize = spec_first_starting(cx, closure.body.byte_start, 0);
    let end: usize = spec_first_ending_behind(cx, closure.body.byte_end, start);
    if start < end && cx.is(start, TokenKind::LeftBrace) && cx.is(
        before(end),
        TokenKind::RightBrace,
    ) && start < before(end) {
        ClosureTokens { start: next(start), end: before(end), block: true }
    } else {
        ClosureTokens { start, end, block: false }
    }
}

/// The tokens of a closure.
#[verifier::allow_in_spec]
pub fn closure_tokens(cx: &Context, closure: &HirClosure) -> (r: ClosureTokens)
    returns
        spec_closure_tokens(cx, closure),
{
    proof {
        reveal(spec_closure_tokens);
    }
    let start: usize = first_starting(cx, closure.body.byte_start, 0);
    let end: usize = first_ending_behind(cx, closure.body.byte_end, start);
    if start < end && cx.is(start, TokenKind::LeftBrace) && cx.is(
        before(end),
        TokenKind::RightBrace,
    ) && start < before(end) {
        ClosureTokens { start: next(start), end: before(end), block: true }
    } else {
        ClosureTokens { start, end, block: false }
    }
}

/// The surroundings of the body of a closure.
#[verifier::opaque]
pub open spec fn spec_closure_context<'a>(
    cx: &Context<'a>,
    closure: &HirClosure,
    tokens: ClosureTokens,
) -> Context<'a> {
    let count: usize = tokens.end.saturating_sub(tokens.start);
    Context {
        program: cx.program,
        module: cx.module,
        hir: cx.hir,
        facts: cx.facts,
        tokens: cx.tokens,
        first: cx.first.saturating_add(tokens.start),
        count,
        body_limit: count,
        return_type: closure.function.result.dup(),
        declared_effects: dup_plain(&closure.function.effects),
        generics: dup_plain(&cx.generics),
        generator_item_type: None,
        generator_async: false,
    }
}

/// The surroundings of the body of a closure.
#[verifier::allow_in_spec]
pub fn closure_context<'a>(
    cx: &Context<'a>,
    closure: &HirClosure,
    tokens: ClosureTokens,
) -> (r: Context<'a>)
    returns
        spec_closure_context(cx, closure, tokens),
{
    proof {
        reveal(spec_closure_context);
    }
    let count: usize = tokens.end.saturating_sub(tokens.start);
    Context {
        program: cx.program,
        module: cx.module,
        hir: cx.hir,
        facts: cx.facts,
        tokens: cx.tokens,
        first: cx.first.saturating_add(tokens.start),
        count,
        body_limit: count,
        return_type: closure.function.result.dup(),
        declared_effects: dup_plain(&closure.function.effects),
        generics: dup_plain(&cx.generics),
        generator_item_type: None,
        generator_async: false,
    }
}

/// The captures of a closure from `index` on as arguments of its body.
#[verifier::opaque]
pub open spec fn spec_add_capture_arguments(
    st: State,
    captures: &Vec<HirCapture>,
    index: usize,
) -> State
    decreases captures@.len() - index,
{
    if index < captures.len() {
        let capture = &captures[index as int];
        let (st, local) = spec_add_local(
            st,
            capture.name,
            capture.ty.dup(),
            capture.mode == HirCaptureMode::MutableBorrow,
            true,
            capture.origin,
        );
        let st = spec_bind_hir(st, capture.local, local);
        let st = if capture.mode != HirCaptureMode::Move {
            spec_capture(st, local)
        } else {
            st
        };
        spec_add_capture_arguments(st, captures, next(index))
    } else {
        st
    }
}

impl Builder {
    /// The captures of a closure from `index` on as arguments of its body.
    pub(crate) fn add_capture_arguments(&mut self, captures: &Vec<HirCapture>, index: usize)
        ensures
            final(self)@ == spec_add_capture_arguments(old(self)@, captures, index),
        decreases captures@.len() - index,
    {
        proof {
            reveal_with_fuel(spec_add_capture_arguments, 2);
        }
        if index < captures.len() {
            let capture = &captures[index];
            let local = self.add_local(
                capture.name,
                capture.ty.dup(),
                capture.mode == HirCaptureMode::MutableBorrow,
                true,
                capture.origin,
            );
            self.bind_hir(capture.local, local);
            if capture.mode != HirCaptureMode::Move {
                self.capture(local);
            }
            self.add_capture_arguments(captures, next(index));
        }
    }
}

/// A checked local as an argument.
#[verifier::opaque]
pub open spec fn spec_add_argument(st: State, local: &HirLocal) -> State {
    let (st, argument) = spec_add_local(
        st,
        local.name,
        local.ty.dup(),
        local.mutable,
        true,
        local.origin,
    );
    spec_bind_hir(st, local.id, argument)
}

impl Builder {
    /// A checked local as an argument.
    pub(crate) fn add_argument(&mut self, local: &HirLocal)
        ensures
            final(self)@ == spec_add_argument(old(self)@, local),
    {
        proof {
            reveal(spec_add_argument);
        }
        let argument = self.add_local(
            local.name,
            local.ty.dup(),
            local.mutable,
            true,
            local.origin,
        );
        self.bind_hir(local.id, argument);
    }
}

/// The parameters of a closure from `index` on as arguments of its body. Whether they are all
/// known is the result.
#[verifier::opaque]
pub open spec fn spec_add_parameter_arguments(
    cx: &Context,
    st: State,
    parameters: &Vec<HirLocalId>,
    index: usize,
) -> (State, bool)
    decreases parameters@.len() - index,
{
    if index >= parameters.len() {
        (st, true)
    } else {
        let id = &parameters[index as int];
        match cx.hir_local(*id) {
            Some(local) => {
                let st = spec_add_argument(st, local);
                spec_add_parameter_arguments(cx, st, parameters, next(index))
            },
            _ => (st, false),
        }
    }
}

impl Builder {
    /// The parameters of a closure from `index` on as arguments of its body. Whether they are all
    /// known is the result.
    pub(crate) fn add_parameter_arguments(
        &mut self,
        cx: &Context,
        parameters: &Vec<HirLocalId>,
        index: usize,
    ) -> (r: bool)
        ensures
            (final(self)@, r) == spec_add_parameter_arguments(
                cx,
                old(self)@,
                parameters,
                index,
            ),
        decreases parameters@.len() - index,
    {
        proof {
            reveal_with_fuel(spec_add_parameter_arguments, 2);
        }
        if index >= parameters.len() {
            return true;
        }
        let id = &parameters[index];
        let Some(local) = cx.hir_local(*id) else {
            return false;
        };
        self.add_argument(local);
        self.add_parameter_arguments(cx, parameters, next(index))
    }
}

/// The code of a closure: a block, or an expression whose value it returns.
#[verifier::opaque]
pub open spec fn spec_lower_closure_code(
    cx: &Context,
    st: State,
    block: bool,
    low: Lowering,
) -> State {
    if block {
        let st = spec_lower_body(cx, st, low);
        st
    } else if cx.count > 0 {
        let (st, value) = (low.expression)(cx, st, 0, cx.count, Some(&cx.return_type));
        let kind = match value {
            Some(value) => TerminatorKind::Return(Some(value.operand)),
            None => TerminatorKind::Unreachable,
        };
        spec_terminate(st, kind, cx.span_at(0))
    } else {
        st
    }
}

impl Builder {
    /// The code of a closure: a block, or an expression whose value it returns.
    pub(crate) fn lower_closure_code(&mut self, cx: &Context, block: bool, limit: usize)
        ensures
            final(self)@ == spec_lower_closure_code(
                cx,
                old(self)@,
                block,
                lowering(limit as nat),
            ),
        decreases limit, 8nat, 0nat,
    {
        proof {
            reveal(spec_lower_closure_code);
        }
        if block {
            self.lower_body(cx, limit);
            return;
        }
        if cx.count > 0 {
            let value = self.expression(cx, 0, cx.count, Some(&cx.return_type), limit);
            let kind = match value {
                Some(value) => TerminatorKind::Return(Some(value.operand)),
                None => TerminatorKind::Unreachable,
            };
            self.terminate(kind, cx.span_at(0));
        }
    }
}

/// The body of a closure, unless a parameter of it or the declaration around it is not known.
#[verifier::opaque]
pub open spec fn closure_body(
    cx: &Context,
    closure: &HirClosure,
    low: crate::lowering::recursion::Lowering,
) -> Option<BodyView> {
    let tokens = spec_closure_tokens(cx, closure);
    let nested = spec_closure_context(cx, closure, tokens);
    let st = spec_add_capture_arguments(empty_state(0), &closure.captures, 0);
    let (st, known) = spec_add_parameter_arguments(&nested, st, &closure.parameters, 0);
    if !known {
        None
    } else {
        let st = spec_lower_closure_code(&nested, st, tokens.block, low);
        match cx.program.declaration(cx.owner_declaration()) {
            Some(declaration) => Some(
                crate::lowering::builder::spec_finish(
                    st,
                    declaration.id,
                    cx.owner_member(),
                    *closure.function.result,
                    closure.function.effects,
                ),
            ),
            None => None,
        }
    }
}

/// The graph with the body of a closure, and the position of that body.
#[verifier::opaque]
pub open spec fn spec_add_closure_body(
    cx: &Context,
    st: State,
    closure: &HirClosure,
    low: crate::lowering::recursion::Lowering,
) -> (
    State,
    Option<usize>,
) {
    match closure_body(cx, closure, low) {
        Some(body) => {
            let (st, position) = crate::lowering::builder::spec_add_closure(st, body);
            (st, Some(position))
        },
        None => (st, None),
    }
}

/// The body of a closure, unless a parameter of it or the declaration around it is not known.
fn make_closure_body(cx: &Context, closure: &HirClosure, limit: usize) -> (r: Option<Body>)
    ensures
        match r {
            Some(body) => closure_body(cx, closure, lowering(limit as nat)) == Some(
                body_view(body),
            ),
            None => closure_body(cx, closure, lowering(limit as nat)) is None,
        },
    decreases limit, 9nat, 0nat,
{
    proof {
        reveal(closure_body);
    }
    let tokens = closure_tokens(cx, closure);
    let nested = closure_context(cx, closure, tokens);
    let mut builder = Builder::new(0);
    builder.add_capture_arguments(&closure.captures, 0);
    let known = builder.add_parameter_arguments(&nested, &closure.parameters, 0);
    if !known {
        return None;
    }
    builder.lower_closure_code(&nested, tokens.block, limit);
    match cx.program.declaration(cx.owner_declaration()) {
        Some(declaration) => Some(
            builder.finish(
                declaration.id,
                cx.owner_member(),
                closure.function.result.dup(),
                dup_plain(&closure.function.effects),
            ),
        ),
        None => None,
    }
}

impl Builder {
    /// The body of a closure becomes a part of this one.
    pub(crate) fn add_closure_body(
        &mut self,
        cx: &Context,
        closure: &HirClosure,
        limit: usize,
    ) -> (r:
        Option<usize>)
        ensures
            (final(self)@, r) == spec_add_closure_body(
                cx,
                old(self)@,
                closure,
                lowering(limit as nat),
            ),
        decreases limit, 9nat, 1nat,
    {
        proof {
            reveal(spec_add_closure_body);
        }
        match make_closure_body(cx, closure, limit) {
            Some(body) => {
                let position: usize = self.add_closure(body);
                Some(position)
            },
            None => None,
        }
    }
}

/// A closure.
#[verifier::opaque]
pub open spec fn spec_lower_closure(
    cx: &Context,
    st: State,
    start: usize,
    id: HirClosureId,
    low: Lowering,
) -> (State, Option<Value>) {
    match cx.closure(id) {
        Some(closure) => {
            let (st, attempt) = spec_lower_captures(st, &closure.captures, 0);
            match attempt {
                Some(captures) => {
                    let (st, attempt) = spec_add_closure_body(cx, st, closure, low);
                    match attempt {
                        Some(body) => {
                            let ty = Type::Function(closure.function.dup());
                            let (st, local) = spec_live(st, ty.dup(), closure.origin);
                            let st = spec_assign(
                                st,
                                local,
                                Rvalue::Closure { id: closure.id, function: closure.function.dup(), captures, body },
                                cx.span_at(start),
                            );
                            (st, Some(Value { operand: Operand::Move(whole(local)), ty }))
                        },
                        _ => (st, None),
                    }
                },
                _ => (st, None),
            }
        },
        _ => (st, None),
    }
}

impl Builder {
    /// A closure.
    pub(crate) fn lower_closure(
        &mut self,
        cx: &Context,
        start: usize,
        id: HirClosureId,
        limit: usize,
    ) -> (r: Option<Value>)
        ensures
            (final(self)@, r) == spec_lower_closure(
                cx,
                old(self)@,
                start,
                id,
                lowering(limit as nat),
            ),
        decreases limit, 10nat, 0nat,
    {
        proof {
            reveal(spec_lower_closure);
        }
        let Some(closure) = cx.closure(id) else {
            return None;
        };
        let Some(captures) = self.lower_captures(&closure.captures, 0) else {
            return None;
        };
        let Some(body) = self.add_closure_body(cx, closure, limit) else {
            return None;
        };
        let ty = Type::Function(closure.function.dup());
        let local = self.live(ty.dup(), closure.origin);
        self.assign(
            local,
            Rvalue::Closure { id: closure.id, function: closure.function.dup(), captures, body },
            cx.span_at(start),
        );
        Some(Value { operand: Operand::Move(whole(local)), ty })
    }
}

} // verus!
