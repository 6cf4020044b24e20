//! Markup.

use vstd::prelude::*;

use crate::hir::{
    same_type, HirExpression, HirExpressionId, HirJsxChild, HirJsxElement, HirJsxId, HirJsxProperty,
    HirJsxValue, ResolvedValue, Type,
};
use crate::list::{cons, dup_plain, one, List};
use crate::lowering::access::static_method;
use crate::lowering::bindings::{undefined, usize_constant};
use crate::lowering::builder::{Builder, State};
use crate::lowering::constants::encoded_length;
use crate::lowering::context::{next, Context, TokenRange};
use crate::lowering::emit::{
    spec_computed, spec_emit_call, spec_materialize_operand, TypedPlace, Value,
};
use crate::lowering::loops::signature_of;
use crate::lowering::members::{
    aggregate_schema, is_static_method, schema_position, schema_types, SchemaField,
};
use crate::lowering::recursion::{lowering, Lowering};
use crate::lowering::types::static_str;
use crate::mir::{Constant, Operand, Projection, RawOperation, Rvalue};
use crate::names::Name;
use crate::syntax::Span;

verus! {

/// The markup with an identity.
#[verifier::allow_in_spec]
pub fn jsx_element<'a>(cx: &Context<'a>, id: HirJsxId) -> (r: Option<&'a HirJsxElement>)
    returns
        if id.0 < cx.hir.jsx_elements@.len() {
            Some(&cx.hir.jsx_elements@[id.0 as int])
        } else {
            None
        },
{
    let hir = cx.hir;
    let position: usize = id.0 as usize;
    if position < hir.jsx_elements.len() {
        Some(&hir.jsx_elements[position])
    } else {
        None
    }
}

/// The checked expression with an identity.
#[verifier::allow_in_spec]
pub fn expression_with_id<'a>(cx: &Context<'a>, id: HirExpressionId) -> (r: Option<
    &'a HirExpression,
>)
    returns
        if id.0 < cx.hir.expressions@.len() {
            Some(&cx.hir.expressions@[id.0 as int])
        } else {
            None
        },
{
    let hir = cx.hir;
    let position: usize = id.0 as usize;
    if position < hir.expressions.len() {
        Some(&hir.expressions[position])
    } else {
        None
    }
}

/// The tokens in a span.
#[verifier::allow_in_spec]
pub fn tokens_of(cx: &Context, origin: Span) -> (r: Option<TokenRange>)
    returns
        cx.token_range_for_bytes(origin.byte_start, origin.byte_end),
{
    cx.token_range_for_bytes(origin.byte_start, origin.byte_end)
}

/// The tokens of a checked expression.
#[verifier::allow_in_spec]
pub fn expression_tokens(cx: &Context, id: HirExpressionId) -> (r: Option<TokenRange>)
    returns
        match expression_with_id(cx, id) {
            Some(expression) => tokens_of(cx, expression.origin),
            None => None,
        },
{
    match expression_with_id(cx, id) {
        Some(expression) => tokens_of(cx, expression.origin),
        None => None,
    }
}

/// The value of a checked expression.
#[verifier::opaque]
pub open spec fn spec_lower_checked(
    cx: &Context,
    st: State,
    id: HirExpressionId,
    expected: Option<&Type>,
    low: Lowering,
) -> (State, Option<Value>) {
    match expression_tokens(cx, id) {
        Some(range) => {
            (low.expression)(cx, st, range.start, range.end, expected)
        },
        _ => (st, None),
    }
}

impl Builder {
    /// The value of a checked expression.
    pub(crate) fn lower_checked(
        &mut self,
        cx: &Context,
        id: HirExpressionId,
        expected: Option<&Type>,
        limit: usize,
    ) -> (r: Option<Value>)
        ensures
            (final(self)@, r) == spec_lower_checked(
                cx,
                old(self)@,
                id,
                expected,
                lowering(limit as nat),
            ),
        decreases limit, 1nat, 0nat,
    {
        proof {
            reveal(spec_lower_checked);
        }
        let Some(range) = expression_tokens(cx, id) else {
            return None;
        };
        self.expression(cx, range.start, range.end, expected, limit)
    }
}

/// An owned string with a text.
#[verifier::opaque]
pub open spec fn spec_owned_text(st: State, text: &List<char>, span: Span) -> (State, Operand) {
    spec_computed(
        st,
        Type::String,
        Rvalue::RawOperation {
            operation: RawOperation::StringFromStatic,
            operands: cons(
                Operand::Constant(Constant::String(dup_plain(text))),
                one(usize_constant(encoded_length(text))),
            ),
            ty: Type::String,
        },
        span,
    )
}

impl Builder {
    /// An owned string with a text.
    pub(crate) fn owned_text(&mut self, text: &List<char>, span: Span) -> (r: Operand)
        ensures
            (final(self)@, r) == spec_owned_text(old(self)@, text, span),
    {
        proof {
            reveal(spec_owned_text);
        }
        self.computed(
            Type::String,
            Rvalue::RawOperation {
                operation: RawOperation::StringFromStatic,
                operands: cons(
                    Operand::Constant(Constant::String(dup_plain(text))),
                    one(usize_constant(encoded_length(text))),
                ),
                ty: Type::String,
            },
            span,
        )
    }
}

/// A text as a value of a type.
#[verifier::opaque]
pub open spec fn spec_text_operand(
    st: State,
    text: &List<char>,
    ty: &Type,
    span: Span,
) -> (State, Operand) {
    match ty {
        Type::String => spec_owned_text(st, text, span),
        _ => (st, Operand::Constant(Constant::String(dup_plain(text)))),
    }
}

impl Builder {
    /// A text as a value of a type.
    pub(crate) fn text_operand(
        &mut self,
        text: &List<char>,
        ty: &Type,
        span: Span,
    ) -> (r: Operand)
        ensures
            (final(self)@, r) == spec_text_operand(old(self)@, text, ty, span),
    {
        proof {
            reveal(spec_text_operand);
        }
        match ty {
            Type::String => self.owned_text(text, span),
            _ => Operand::Constant(Constant::String(dup_plain(text))),
        }
    }
}

/// The type that is expected of the children of markup.
#[verifier::opaque]
pub open spec fn spec_child_type(expected: &Type) -> &Type {
    match expected {
        Type::Array(element, _) => element,
        Type::Slice(element) => element,
        other => other,
    }
}

/// The type that is expected of the children of markup.
#[verifier::allow_in_spec]
pub fn child_type(expected: &Type) -> (r: &Type)
    returns
        spec_child_type(expected),
{
    proof {
        reveal(spec_child_type);
    }
    match expected {
        Type::Array(element, _) => element,
        Type::Slice(element) => element,
        other => other,
    }
}

/// The type of a text among children.
#[verifier::allow_in_spec]
pub fn text_type(expected: Option<&Type>) -> (r: Type)
    returns
        match expected {
            Some(ty) => ty.dup(),
            None => static_str(),
        },
{
    match expected {
        Some(ty) => ty.dup(),
        None => static_str(),
    }
}

/// The tokens of markup.
#[verifier::allow_in_spec]
pub fn element_tokens(cx: &Context, id: HirJsxId) -> (r: Option<TokenRange>)
    returns
        match jsx_element(cx, id) {
            Some(element) => tokens_of(cx, element.origin),
            None => None,
        },
{
    match jsx_element(cx, id) {
        Some(element) => tokens_of(cx, element.origin),
        None => None,
    }
}

/// A child of markup.
#[verifier::opaque]
pub open spec fn spec_lower_jsx_child(
    cx: &Context,
    st: State,
    child: &HirJsxChild,
    expected: Option<&Type>,
    start: usize,
    low: Lowering,
) -> (State, Option<Value>) {
    match child {
        HirJsxChild::Element(id) => {
            match element_tokens(cx, *id) {
                Some(range) => {
                    (low.expression)(cx, st, range.start, range.end, expected)
                },
                _ => (st, None),
            }
        },
        HirJsxChild::Expression(id) => spec_lower_checked(cx, st, *id, expected, low),
        HirJsxChild::Text(text) => {
            let ty = text_type(expected);
            let (st, operand) = spec_text_operand(st, text, &ty, cx.span_at(start));
            (st, Some(Value { operand, ty }))
        },
    }
}

impl Builder {
    /// A child of markup.
    pub(crate) fn lower_jsx_child(
        &mut self,
        cx: &Context,
        child: &HirJsxChild,
        expected: Option<&Type>,
        start: usize,
        limit: usize,
    ) -> (r: Option<Value>)
        ensures
            (final(self)@, r) == spec_lower_jsx_child(
                cx,
                old(self)@,
                child,
                expected,
                start,
                lowering(limit as nat),
            ),
        decreases limit, 2nat, 0nat,
    {
        proof {
            reveal(spec_lower_jsx_child);
        }
        match child {
            HirJsxChild::Element(id) => {
                let Some(range) = element_tokens(cx, *id) else {
                    return None;
                };
                self.expression(cx, range.start, range.end, expected, limit)
            },
            HirJsxChild::Expression(id) => self.lower_checked(cx, *id, expected, limit),
            HirJsxChild::Text(text) => {
                let ty = text_type(expected);
                let operand = self.text_operand(text, &ty, cx.span_at(start));
                Some(Value { operand, ty })
            },
        }
    }
}

/// The children of markup and their type.
pub struct Children {
    pub operands: List<Operand>,
    pub ty: Type,
}

/// Whether a child may follow one of another type.
#[verifier::allow_in_spec]
pub fn may_follow(previous: &Option<Type>, ty: &Type) -> (r: bool)
    returns
        match previous {
            Some(Type::Unknown) => true,
            Some(previous) => same_type(previous, ty),
            None => true,
        },
{
    match previous {
        Some(Type::Unknown) => true,
        Some(previous) => same_type(previous, ty),
        None => true,
    }
}

/// The type of children: that of the last one, or the one that is expected.
#[verifier::allow_in_spec]
pub fn children_type(last: Option<Type>, expected: Option<&Type>) -> (r: Type)
    returns
        match last {
            Some(ty) => ty,
            None => {
                match expected {
                    Some(ty) => ty.dup(),
                    None => Type::String,
                }
            },
        },
{
    match last {
        Some(ty) => ty,
        None => match expected {
            Some(ty) => ty.dup(),
            None => Type::String,
        },
    }
}

/// The children of markup from `index` on, behind one of the type `previous`.
#[verifier::opaque]
pub open spec fn spec_lower_jsx_children(
    cx: &Context,
    st: State,
    children: &Vec<HirJsxChild>,
    index: usize,
    expected: Option<&Type>,
    previous: Option<Type>,
    start: usize,
    low: Lowering,
) -> (State, Option<Children>)
    decreases children@.len() - index,
{
    if index >= children.len() {
        (st, Some(Children { operands: List::Nil, ty: children_type(previous, expected) }))
    } else {
        let (st, attempt) = spec_lower_jsx_child(
            cx,
            st,
            &children[index as int],
            expected,
            start,
            low,
        );
        match attempt {
            Some(value) => {
                if !may_follow(&previous, &value.ty) {
                    (st, None)
                } else {
                    let (st, attempt) = spec_lower_jsx_children(
                        cx,
                        st,
                        children,
                        next(index),
                        expected,
                        Some(value.ty),
                        start,
                        low,
                    );
                    match attempt {
                        Some(others) => {
                            (st, Some(Children { operands: cons(value.operand, others.operands), ty: others.ty }))
                        },
                        _ => (st, None),
                    }
                }
            },
            _ => (st, None),
        }
    }
}

impl Builder {
    /// The children of markup from `index` on, behind one of the type `previous`.
    pub(crate) fn lower_jsx_children(
        &mut self,
        cx: &Context,
        children: &Vec<HirJsxChild>,
        index: usize,
        expected: Option<&Type>,
        previous: Option<Type>,
        start: usize,
        limit: usize,
    ) -> (r: Option<Children>)
        ensures
            (final(self)@, r) == spec_lower_jsx_children(
                cx,
                old(self)@,
                children,
                index,
                expected,
                previous,
                start,
                lowering(limit as nat),
            ),
        decreases limit, 3nat, children@.len() - index,
    {
        proof {
            reveal_with_fuel(spec_lower_jsx_children, 2);
        }
        if index >= children.len() {
            return Some(Children { operands: List::Nil, ty: children_type(previous, expected) });
        }
        let Some(value) = self.lower_jsx_child(cx, &children[index], expected, start, limit) else {
            return None;
        };
        if !may_follow(&previous, &value.ty) {
            return None;
        }
        let Some(others) = self.lower_jsx_children(
            cx,
            children,
            next(index),
            expected,
            Some(value.ty),
            start,
            limit,
        ) else {
            return None;
        };
        Some(Children { operands: cons(value.operand, others.operands), ty: others.ty })
    }
}

/// A type for each operand.
pub open spec fn spec_repeated(ty: &Type, operands: &List<Operand>) -> List<Type>
    decreases operands,
{
    match operands {
        List::Nil => List::Nil,
        List::Cons(_, tail) => cons(ty.dup(), spec_repeated(ty, tail)),
    }
}

/// A type for each operand.
#[verifier::allow_in_spec]
pub fn repeated(ty: &Type, operands: &List<Operand>) -> (r: List<Type>)
    returns
        spec_repeated(ty, operands),
    decreases operands,
{
    proof {
        reveal_with_fuel(spec_repeated, 2);
    }
    match operands {
        List::Nil => List::Nil,
        List::Cons(_, tail) => cons(ty.dup(), repeated(ty, tail)),
    }
}

/// An aggregate in a new temporary.
#[verifier::opaque]
pub open spec fn spec_materialize_jsx_aggregate(
    st: State,
    ty: Type,
    fields: List<Operand>,
    field_types: List<Type>,
    span: Span,
) -> (State, Operand) {
    spec_computed(
        st, ty.dup(),
        Rvalue::Aggregate { ty, variant: None, fields, field_types },
        span,
    )
}

impl Builder {
    /// An aggregate in a new temporary.
    pub(crate) fn materialize_jsx_aggregate(
        &mut self,
        ty: Type,
        fields: List<Operand>,
        field_types: List<Type>,
        span: Span,
    ) -> (r: Operand)
        ensures
            (final(self)@, r) == spec_materialize_jsx_aggregate(
                old(self)@,
                ty,
                fields,
                field_types,
                span,
            ),
    {
        proof {
            reveal(spec_materialize_jsx_aggregate);
        }
        self.computed(
            ty.dup(),
            Rvalue::Aggregate { ty, variant: None, fields, field_types },
            span,
        )
    }
}

/// An array of children in a new temporary.
#[verifier::opaque]
pub open spec fn spec_lower_child_array(
    st: State,
    ty: Type,
    children: Children,
    span: Span,
) -> (State, Operand) {
    let types = spec_repeated(&children.ty, &children.operands);
    spec_materialize_jsx_aggregate(st, ty, children.operands, types, span)
}

impl Builder {
    /// An array of children in a new temporary.
    pub(crate) fn lower_child_array(
        &mut self,
        ty: Type,
        children: Children,
        span: Span,
    ) -> (r: Operand)
        ensures
            (final(self)@, r) == spec_lower_child_array(old(self)@, ty, children, span),
    {
        proof {
            reveal(spec_lower_child_array);
        }
        let types = repeated(&children.ty, &children.operands);
        self.materialize_jsx_aggregate(ty, children.operands, types, span)
    }
}

/// A call of the function that makes markup.
#[verifier::opaque]
pub open spec fn spec_call_runtime(
    cx: &Context,
    st: State,
    element: &HirJsxElement,
    arguments: List<Operand>,
    start: usize,
) -> (State, Option<Value>) {
    match (&element.runtime_signature, element.runtime) {
        (Some(signature), Some(runtime)) => {
            let function = Operand::Constant(
                Constant::Function(runtime, Type::Function(signature.dup())),
            );
            spec_emit_call(cx, st, function, None, signature, arguments, start)
        },
        _ => (st, None),
    }
}

impl Builder {
    /// A call of the function that makes markup.
    pub(crate) fn call_runtime(
        &mut self,
        cx: &Context,
        element: &HirJsxElement,
        arguments: List<Operand>,
        start: usize,
    ) -> (r: Option<Value>)
        ensures
            (final(self)@, r) == spec_call_runtime(cx, old(self)@, element, arguments, start),
    {
        proof {
            reveal(spec_call_runtime);
        }
        match (&element.runtime_signature, element.runtime) {
            (Some(signature), Some(runtime)) => {
                let function = Operand::Constant(
                    Constant::Function(runtime, Type::Function(signature.dup())),
                );
                self.emit_call(cx, function, None, signature, arguments, start)
            },
            _ => None,
        }
    }
}

/// A fragment, which is only its children.
#[verifier::opaque]
pub open spec fn spec_lower_jsx_group(
    cx: &Context,
    st: State,
    element: &HirJsxElement,
    start: usize,
    low: Lowering,
) -> (State, Option<Value>) {
    let (st, attempt) = spec_lower_jsx_children(
        cx,
        st,
        &element.children,
        0,
        None,
        None,
        start,
        low,
    );
    match attempt {
        Some(children) => {
            let ty = Type::Array(Box::new(children.ty.dup()), element.children.len() as u64);
            let (st, array) = spec_lower_child_array(st, ty, children, cx.span_at(start));
            spec_call_runtime(cx, st, element, one(array), start)
        },
        _ => (st, None),
    }
}

impl Builder {
    /// A fragment, which is only its children.
    pub(crate) fn lower_jsx_group(
        &mut self,
        cx: &Context,
        element: &HirJsxElement,
        start: usize,
        limit: usize,
    ) -> (r: Option<Value>)
        ensures
            (final(self)@, r) == spec_lower_jsx_group(
                cx,
                old(self)@,
                element,
                start,
                lowering(limit as nat),
            ),
        decreases limit, 4nat, 0nat,
    {
        proof {
            reveal(spec_lower_jsx_group);
        }
        let Some(children) = self.lower_jsx_children(
            cx,
            &element.children,
            0,
            None,
            None,
            start,
            limit,
        ) else {
            return None;
        };
        let ty = Type::Array(Box::new(children.ty.dup()), element.children.len() as u64);
        let array = self.lower_child_array(ty, children, cx.span_at(start));
        self.call_runtime(cx, element, one(array), start)
    }
}

/// A component that is known when the code is compiled.
#[verifier::opaque]
pub open spec fn spec_known_component(cx: &Context, expression: &HirExpression) -> Option<Operand>
{
    match (expression.resolution, &expression.ty) {
        (Some(ResolvedValue::Declaration(declaration)), Type::Function(_)) => {
            Some(
                Operand::Constant(Constant::Function(declaration, expression.ty.dup())),
            )
        },
        (Some(ResolvedValue::Member(member)), Type::Function(_)) => {
            if !is_static_method(cx.program, member) {
                None
            } else {
                match static_method(cx.program, member, expression.ty.dup()) {
                    Some(value) => Some(value.operand),
                    None => None,
                }
            }
        },
        _ => None,
    }
}

/// A component that is known when the code is compiled.
#[verifier::allow_in_spec]
pub fn known_component(cx: &Context, expression: &HirExpression) -> (r: Option<Operand>)
    returns
        spec_known_component(cx, expression),
{
    proof {
        reveal(spec_known_component);
    }
    match (expression.resolution, &expression.ty) {
        (Some(ResolvedValue::Declaration(declaration)), Type::Function(_)) => Some(
            Operand::Constant(Constant::Function(declaration, expression.ty.dup())),
        ),
        (Some(ResolvedValue::Member(member)), Type::Function(_)) => {
            if !is_static_method(cx.program, member) {
                return None;
            }
            match static_method(cx.program, member, expression.ty.dup()) {
                Some(value) => Some(value.operand),
                None => None,
            }
        },
        _ => None,
    }
}

/// The component of markup.
#[verifier::opaque]
pub open spec fn spec_lower_component(
    cx: &Context,
    st: State,
    id: HirExpressionId,
    low: Lowering,
) -> (State, Option<Operand>) {
    match expression_with_id(cx, id) {
        Some(expression) => {
            match tokens_of(cx, expression.origin) {
                Some(range) => {
                    let known = spec_known_component(cx, expression);
                    if known.is_some() {
                        (st, known)
                    } else {
                        let (st, attempt) = (low.expression)(cx, st, range.start, range.end, None);
                        match attempt {
                            Some(value) => (st, Some(value.operand)),
                            None => (st, None),
                        }
                    }
                },
                _ => (st, None),
            }
        },
        _ => (st, None),
    }
}

impl Builder {
    /// The component of markup.
    pub(crate) fn lower_component(
        &mut self,
        cx: &Context,
        id: HirExpressionId,
        limit: usize,
    ) -> (r: Option<Operand>)
        ensures
            (final(self)@, r) == spec_lower_component(
                cx,
                old(self)@,
                id,
                lowering(limit as nat),
            ),
        decreases limit, 1nat, 0nat,
    {
        proof {
            reveal(spec_lower_component);
        }
        let Some(expression) = expression_with_id(cx, id) else {
            return None;
        };
        let Some(range) = tokens_of(cx, expression.origin) else {
            return None;
        };
        let known = known_component(cx, expression);
        if known.is_some() {
            return known;
        }
        match self.expression(cx, range.start, range.end, None, limit) {
            Some(value) => Some(value.operand),
            None => None,
        }
    }
}

/// The key of markup, which is undefined where none is written.
#[verifier::opaque]
pub open spec fn spec_lower_jsx_key(
    cx: &Context,
    st: State,
    key: Option<HirExpressionId>,
    start: usize,
    low: Lowering,
) -> (State, Option<Operand>) {
    match key {
        Some(id) => {
            let (st, attempt) = spec_lower_checked(cx, st, id, None, low);
            match attempt {
                Some(value) => {
                    let (st, operand) = spec_materialize_jsx_aggregate(
                        st, Type::Optional(Box::new(value.ty.dup())),
                        one(value.operand),
                        one(value.ty),
                        cx.span_at(start),
                    );
                    (st, Some(operand))
                },
                _ => (st, None),
            }
        },
        _ => (st, Some(undefined(Type::Optional(Box::new(Type::String))))),
    }
}

impl Builder {
    /// The key of markup, which is undefined where none is written.
    pub(crate) fn lower_jsx_key(
        &mut self,
        cx: &Context,
        key: Option<HirExpressionId>,
        start: usize,
        limit: usize,
    ) -> (r: Option<Operand>)
        ensures
            (final(self)@, r) == spec_lower_jsx_key(
                cx,
                old(self)@,
                key,
                start,
                lowering(limit as nat),
            ),
        decreases limit, 2nat, 0nat,
    {
        proof {
            reveal(spec_lower_jsx_key);
        }
        let Some(id) = key else {
            return Some(undefined(Type::Optional(Box::new(Type::String))));
        };
        let Some(value) = self.lower_checked(cx, id, None, limit) else {
            return None;
        };
        let operand = self.materialize_jsx_aggregate(
            Type::Optional(Box::new(value.ty.dup())),
            one(value.operand),
            one(value.ty),
            cx.span_at(start),
        );
        Some(operand)
    }
}

/// Markup.
#[verifier::opaque]
pub open spec fn spec_lower_jsx(
    cx: &Context,
    st: State,
    id: HirJsxId,
    start: usize,
    low: Lowering,
) -> (State, Option<Value>) {
    match jsx_element(cx, id) {
        Some(element) => {
            if element.fragment {
                spec_lower_jsx_group(cx, st, element, start, low)
            } else {
                match element.component {
                    Some(component_id) => {
                        let (st, attempt) = spec_lower_component(cx, st, component_id, low);
                        match attempt {
                            Some(component) => {
                                let (st, attempt) = spec_lower_jsx_properties(
                                    cx,
                                    st,
                                    element,
                                    start,
                                    low,
                                );
                                match attempt {
                                    Some(properties) => {
                                        let (st, attempt) = spec_lower_jsx_key(
                                            cx,
                                            st,
                                            element.key,
                                            start,
                                            low,
                                        );
                                        match attempt {
                                            Some(key) => {
                                                spec_call_runtime(
                                                    cx,
                                                    st,
                                                    element,
                                                    cons(component, cons(properties, one(key))),
                                                    start,
                                                )
                                            },
                                            _ => (st, None),
                                        }
                                    },
                                    _ => (st, None),
                                }
                            },
                            _ => (st, None),
                        }
                    },
                    _ => (st, None),
                }
            }
        },
        _ => (st, None),
    }
}

impl Builder {
    /// Markup.
    pub(crate) fn lower_jsx(
        &mut self,
        cx: &Context,
        id: HirJsxId,
        start: usize,
        limit: usize,
    ) -> (r: Option<Value>)
        ensures
            (final(self)@, r) == spec_lower_jsx(
                cx,
                old(self)@,
                id,
                start,
                lowering(limit as nat),
            ),
        decreases limit, 9nat, 0nat,
    {
        proof {
            reveal(spec_lower_jsx);
        }
        let Some(element) = jsx_element(cx, id) else {
            return None;
        };
        if element.fragment {
            return self.lower_jsx_group(cx, element, start, limit);
        }
        let Some(component_id) = element.component else {
            return None;
        };
        let Some(component) = self.lower_component(cx, component_id, limit) else {
            return None;
        };
        let Some(properties) = self.lower_jsx_properties(cx, element, start, limit) else {
            return None;
        };
        let Some(key) = self.lower_jsx_key(cx, element.key, start, limit) else {
            return None;
        };
        self.call_runtime(cx, element, cons(component, cons(properties, one(key))), start)
    }
}

/// The type of the properties of markup.
#[verifier::allow_in_spec]
pub fn properties_type(element: &HirJsxElement) -> (r: Type)
    returns
        match &element.properties_type {
            Type::Unknown => Type::Tuple(List::Nil),
            other => other.dup(),
        },
{
    match &element.properties_type {
        Type::Unknown => Type::Tuple(List::Nil),
        other => other.dup(),
    }
}

/// The first property that is spread.
pub open spec fn first_spread_from<'a>(
    properties: Seq<HirJsxProperty>,
    from: nat,
) -> Option<&'a HirJsxProperty>
    decreases properties.len() - from,
{
    if from >= properties.len() {
        None
    } else {
        let item = &properties[from as int];
        let found = {
            if item.spread {
                Some(item)
            } else {
                None
            }
        };
        match found {
            Some(found) => Some(found),
            None => first_spread_from(properties, from + 1),
        }
    }
}

/// The first property that is spread.
#[verifier::allow_in_spec]
pub fn first_spread(properties: &Vec<HirJsxProperty>) -> (r: Option<&HirJsxProperty>)
    returns
        first_spread_from(properties@, 0),
{
    let mut index: usize = 0;
    while index < properties.len()
        invariant
            first_spread_from(properties@, 0) == first_spread_from(properties@, index as nat),
        decreases properties.len() - index,
    {
        let item = &properties[index];
        let found = {
            if item.spread {
                Some(item)
            } else {
                None
            }
        };
        match found {
            Some(found) => {
                return Some(found);
            },
            None => {},
        }
        index = index + 1;
    }
    None
}

/// The expression that a property has as its value.
#[verifier::allow_in_spec]
pub fn value_expression(property: &HirJsxProperty) -> (r: Option<HirExpressionId>)
    returns
        match &property.value {
            HirJsxValue::Expression(id) => Some(*id),
            _ => None,
        },
{
    match &property.value {
        HirJsxValue::Expression(id) => Some(*id),
        _ => None,
    }
}

/// The properties that are spread as a whole.
#[verifier::opaque]
pub open spec fn spec_lower_spread_whole(
    cx: &Context,
    st: State,
    element: &HirJsxElement,
    ty: &Type,
    low: Lowering,
) -> (State, Option<Operand>) {
    match first_spread(&element.properties) {
        Some(property) => {
            match value_expression(property) {
                Some(id) => {
                    let (st, attempt) = spec_lower_checked(cx, st, id, Some(ty), low);
                    match attempt {
                        Some(value) => (st, Some(value.operand)),
                        None => (st, None),
                    }
                },
                _ => (st, None),
            }
        },
        _ => (st, None),
    }
}

impl Builder {
    /// The properties that are spread as a whole.
    pub(crate) fn lower_spread_whole(
        &mut self,
        cx: &Context,
        element: &HirJsxElement,
        ty: &Type,
        limit: usize,
    ) -> (r: Option<Operand>)
        ensures
            (final(self)@, r) == spec_lower_spread_whole(
                cx,
                old(self)@,
                element,
                ty,
                lowering(limit as nat),
            ),
        decreases limit, 2nat, 0nat,
    {
        proof {
            reveal(spec_lower_spread_whole);
        }
        let Some(property) = first_spread(&element.properties) else {
            return None;
        };
        let Some(id) = value_expression(property) else {
            return None;
        };
        match self.lower_checked(cx, id, Some(ty), limit) {
            Some(value) => Some(value.operand),
            None => None,
        }
    }
}

/// The value that a property spreads.
#[verifier::opaque]
pub open spec fn spec_lower_spread(
    cx: &Context,
    st: State,
    property: &HirJsxProperty,
    ty: &Type,
    start: usize,
    low: Lowering,
) -> (State, Option<TypedPlace>) {
    match value_expression(property) {
        Some(id) => {
            let (st, attempt) = spec_lower_checked(cx, st, id, Some(ty), low);
            match attempt {
                Some(value) => {
                    let (st, place) = spec_materialize_operand(
                        st,
                        value.operand,
                        value.ty.dup(),
                        cx.span_at(start),
                    );
                    (st, Some(TypedPlace { place, ty: value.ty }))
                },
                _ => (st, None),
            }
        },
        _ => (st, None),
    }
}

impl Builder {
    /// The value that a property spreads.
    pub(crate) fn lower_spread(
        &mut self,
        cx: &Context,
        property: &HirJsxProperty,
        ty: &Type,
        start: usize,
        limit: usize,
    ) -> (r: Option<TypedPlace>)
        ensures
            (final(self)@, r) == spec_lower_spread(
                cx,
                old(self)@,
                property,
                ty,
                start,
                lowering(limit as nat),
            ),
        decreases limit, 2nat, 0nat,
    {
        proof {
            reveal(spec_lower_spread);
        }
        let Some(id) = value_expression(property) else {
            return None;
        };
        let Some(value) = self.lower_checked(cx, id, Some(ty), limit) else {
            return None;
        };
        let place = self.materialize_operand(value.operand, value.ty.dup(), cx.span_at(start));
        Some(TypedPlace { place, ty: value.ty })
    }
}

/// For each property from `index` on the value that it spreads, if it does.
#[verifier::opaque]
pub open spec fn spec_spread_sources(
    cx: &Context,
    st: State,
    properties: &Vec<HirJsxProperty>,
    index: usize,
    ty: &Type,
    start: usize,
    low: Lowering,
) -> (State, Option<List<Option<TypedPlace>>>)
    decreases properties@.len() - index,
{
    if index >= properties.len() {
        (st, Some(List::Nil))
    } else {
        let property = &properties[index as int];
        if !property.spread {
            let (st, attempt) = spec_spread_sources(
                cx,
                st,
                properties,
                next(index),
                ty,
                start,
                low,
            );
            match attempt {
                Some(others) => {
                    (st, Some(cons(None, others)))
                },
                _ => (st, None),
            }
        } else {
            let (st, attempt) = spec_lower_spread(cx, st, property, ty, start, low);
            match attempt {
                Some(source) => {
                    let (st, attempt) = spec_spread_sources(
                        cx,
                        st,
                        properties,
                        next(index),
                        ty,
                        start,
                        low,
                    );
                    match attempt {
                        Some(others) => {
                            (st, Some(cons(Some(source), others)))
                        },
                        _ => (st, None),
                    }
                },
                _ => (st, None),
            }
        }
    }
}

impl Builder {
    /// For each property from `index` on the value that it spreads, if it does.
    pub(crate) fn spread_sources(
        &mut self,
        cx: &Context,
        properties: &Vec<HirJsxProperty>,
        index: usize,
        ty: &Type,
        start: usize,
        limit: usize,
    ) -> (r: Option<List<Option<TypedPlace>>>)
        ensures
            (final(self)@, r) == spec_spread_sources(
                cx,
                old(self)@,
                properties,
                index,
                ty,
                start,
                lowering(limit as nat),
            ),
        decreases limit, 3nat, properties@.len() - index,
    {
        proof {
            reveal_with_fuel(spec_spread_sources, 2);
        }
        if index >= properties.len() {
            return Some(List::Nil);
        }
        let property = &properties[index];
        if !property.spread {
            let Some(others) = self.spread_sources(
                cx,
                properties,
                next(index),
                ty,
                start,
                limit,
            ) else {
                return None;
            };
            return Some(cons(None, others));
        }
        let Some(source) = self.lower_spread(cx, property, ty, start, limit) else {
            return None;
        };
        let Some(others) = self.spread_sources(cx, properties, next(index), ty, start, limit) else {
            return None;
        };
        Some(cons(Some(source), others))
    }
}

/// The last property that has a name or is spread, or the one that was found before.
pub open spec fn last_property_from(
    properties: Seq<HirJsxProperty>,
    found: Option<usize>,
    name: Name,
    from: nat,
) -> Option<usize>
    decreases properties.len() - from,
{
    if from >= properties.len() {
        found
    } else {
        let item = &properties[from as int];
        let index = from as usize;
        let folded = {
            if item.spread || item.name == Some(name) {
                Some(index)
            } else {
                found
            }
        };
        last_property_from(properties, folded, name, from + 1)
    }
}

/// The last property that has a name or is spread, or the one that was found before.
#[verifier::allow_in_spec]
pub fn last_property(
    properties: &Vec<HirJsxProperty>,
    found: Option<usize>,
    name: Name,
) -> (r: Option<usize>)
    returns
        last_property_from(properties@, found, name, 0),
{
    let ghost given = found;
    let mut found = found;
    let mut index: usize = 0;
    while index < properties.len()
        invariant
            last_property_from(properties@, given, name, 0)
                == last_property_from(properties@, found, name, index as nat),
        decreases properties.len() - index,
    {
        let item = &properties[index];
        let folded = {
            if item.spread || item.name == Some(name) {
                Some(index)
            } else {
                found
            }
        };
        found = folded;
        index = index + 1;
    }
    found
}

/// The value that the property at a position spreads.
pub open spec fn spec_source_at(
    sources: &List<Option<TypedPlace>>,
    index: usize,
) -> Option<&TypedPlace>
    decreases sources,
{
    match sources {
        List::Nil => None,
        List::Cons(head, tail) => {
            if index == 0 {
                match &**head {
                    Some(source) => Some(source),
                    None => None,
                }
            } else {
                spec_source_at(tail, index.saturating_sub(1))
            }
        },
    }
}

/// The value that the property at a position spreads.
#[verifier::allow_in_spec]
pub fn source_at(sources: &List<Option<TypedPlace>>, index: usize) -> (r: Option<&TypedPlace>)
    returns
        spec_source_at(sources, index),
    decreases sources,
{
    proof {
        reveal_with_fuel(spec_source_at, 2);
    }
    match sources {
        List::Nil => None,
        List::Cons(head, tail) => {
            if index == 0 {
                match &**head {
                    Some(source) => Some(source),
                    None => None,
                }
            } else {
                source_at(tail, index.saturating_sub(1))
            }
        },
    }
}

/// A field of a value that is spread.
#[verifier::allow_in_spec]
pub fn spread_field(
    cx: &Context,
    source: &TypedPlace,
    field: &SchemaField,
) -> (r: Option<Operand>)
    returns
        match schema_position(&aggregate_schema(cx.program, &source.ty), field.name, 0) {
            Some(index) => {
                Some(
                    Operand::Move(
                        source.place.dup().step(Projection::Field { index, ty: field.ty.dup() }),
                    ),
                )
            },
            None => None,
        },
{
    match schema_position(&aggregate_schema(cx.program, &source.ty), field.name, 0) {
        Some(index) => Some(
            Operand::Move(
                source.place.dup().step(Projection::Field { index, ty: field.ty.dup() }),
            ),
        ),
        None => None,
    }
}

/// The value of one property: the last one that is written for it or spread over it.
#[verifier::opaque]
pub open spec fn spec_lower_jsx_field(
    cx: &Context,
    st: State,
    properties: &Vec<HirJsxProperty>,
    field: &SchemaField,
    sources: &List<Option<TypedPlace>>,
    start: usize,
    low: Lowering,
) -> (State, Option<Operand>) {
    match last_property(properties, None, field.name) {
        Some(index) => {
            if index >= properties.len() {
                (st, None)
            } else {
                let property = &properties[index as int];
                if !property.spread {
                    spec_lower_jsx_value(cx, st, &property.value, &field.ty, start, low)
                } else {
                    match spec_source_at(sources, index) {
                        Some(source) => (st, spread_field(cx, source, field)),
                        None => (st, None),
                    }
                }
            }
        },
        _ => (st, Some(undefined(field.ty.dup()))),
    }
}

impl Builder {
    /// The value of one property: the last one that is written for it or spread over it.
    pub(crate) fn lower_jsx_field(
        &mut self,
        cx: &Context,
        properties: &Vec<HirJsxProperty>,
        field: &SchemaField,
        sources: &List<Option<TypedPlace>>,
        start: usize,
        limit: usize,
    ) -> (r: Option<Operand>)
        ensures
            (final(self)@, r) == spec_lower_jsx_field(
                cx,
                old(self)@,
                properties,
                field,
                sources,
                start,
                lowering(limit as nat),
            ),
        decreases limit, 6nat, 0nat,
    {
        proof {
            reveal(spec_lower_jsx_field);
        }
        let Some(index) = last_property(properties, None, field.name) else {
            return Some(undefined(field.ty.dup()));
        };
        if index >= properties.len() {
            return None;
        }
        let property = &properties[index];
        if !property.spread {
            return self.lower_jsx_value(cx, &property.value, &field.ty, start, limit);
        }
        match source_at(sources, index) {
            Some(source) => spread_field(cx, source, field),
            None => None,
        }
    }
}

/// The values of properties.
#[verifier::opaque]
pub open spec fn spec_lower_jsx_fields(
    cx: &Context,
    st: State,
    properties: &Vec<HirJsxProperty>,
    schema: &List<SchemaField>,
    sources: &List<Option<TypedPlace>>,
    start: usize,
    low: Lowering,
) -> (State, Option<List<Operand>>)
    decreases schema,
{
    match schema {
        List::Nil => (st, Some(List::Nil)),
        List::Cons(field, rest) => {
            let (st, attempt) = spec_lower_jsx_field(
                cx,
                st,
                properties,
                field,
                sources,
                start,
                low,
            );
            match attempt {
                Some(operand) => {
                    let (st, attempt) = spec_lower_jsx_fields(
                        cx,
                        st,
                        properties,
                        rest,
                        sources,
                        start,
                        low,
                    );
                    match attempt {
                        Some(others) => {
                            (st, Some(cons(operand, others)))
                        },
                        _ => (st, None),
                    }
                },
                _ => (st, None),
            }
        },
    }
}

impl Builder {
    /// The values of properties.
    pub(crate) fn lower_jsx_fields(
        &mut self,
        cx: &Context,
        properties: &Vec<HirJsxProperty>,
        schema: &List<SchemaField>,
        sources: &List<Option<TypedPlace>>,
        start: usize,
        limit: usize,
    ) -> (r: Option<List<Operand>>)
        ensures
            (final(self)@, r) == spec_lower_jsx_fields(
                cx,
                old(self)@,
                properties,
                schema,
                sources,
                start,
                lowering(limit as nat),
            ),
        decreases limit, 7nat, schema.seq().len(),
    {
        proof {
            reveal_with_fuel(spec_lower_jsx_fields, 2);
        }
        match schema {
            List::Nil => Some(List::Nil),
            List::Cons(field, rest) => {
                let Some(operand) = self.lower_jsx_field(
                    cx,
                    properties,
                    field,
                    sources,
                    start,
                    limit,
                ) else {
                    return None;
                };
                let Some(others) = self.lower_jsx_fields(
                    cx,
                    properties,
                    rest,
                    sources,
                    start,
                    limit,
                ) else {
                    return None;
                };
                Some(cons(operand, others))
            },
        }
    }
}

/// The properties of markup.
#[verifier::opaque]
pub open spec fn spec_lower_jsx_properties(
    cx: &Context,
    st: State,
    element: &HirJsxElement,
    start: usize,
    low: Lowering,
) -> (State, Option<Operand>) {
    let ty = properties_type(element);
    let schema = aggregate_schema(cx.program, &ty);
    if schema.is_empty() && element.properties.len() > 0 {
        spec_lower_spread_whole(cx, st, element, &ty, low)
    } else {
        let (st, attempt) = spec_spread_sources(cx, st, &element.properties, 0, &ty, start, low);
        match attempt {
            Some(sources) => {
                let (st, attempt) = spec_lower_jsx_fields(
                    cx,
                    st,
                    &element.properties,
                    &schema,
                    &sources,
                    start,
                    low,
                );
                match attempt {
                    Some(fields) => {
                        let (st, operand) = spec_materialize_jsx_aggregate(
                            st,
                            ty,
                            fields,
                            schema_types(&schema),
                            cx.span_at(start),
                        );
                        (st, Some(operand))
                    },
                    _ => (st, None),
                }
            },
            _ => (st, None),
        }
    }
}

impl Builder {
    /// The properties of markup.
    pub(crate) fn lower_jsx_properties(
        &mut self,
        cx: &Context,
        element: &HirJsxElement,
        start: usize,
        limit: usize,
    ) -> (r: Option<Operand>)
        ensures
            (final(self)@, r) == spec_lower_jsx_properties(
                cx,
                old(self)@,
                element,
                start,
                lowering(limit as nat),
            ),
        decreases limit, 8nat, 0nat,
    {
        proof {
            reveal(spec_lower_jsx_properties);
        }
        let ty = properties_type(element);
        let schema = aggregate_schema(cx.program, &ty);
        if schema.is_empty() && element.properties.len() > 0 {
            return self.lower_spread_whole(cx, element, &ty, limit);
        }
        let Some(sources) = self.spread_sources(
            cx,
            &element.properties,
            0,
            &ty,
            start,
            limit,
        ) else {
            return None;
        };
        let Some(fields) = self.lower_jsx_fields(
            cx,
            &element.properties,
            &schema,
            &sources,
            start,
            limit,
        ) else {
            return None;
        };
        let operand = self.materialize_jsx_aggregate(
            ty,
            fields,
            schema_types(&schema),
            cx.span_at(start),
        );
        Some(operand)
    }
}

/// Whether a type is a sequence.
#[verifier::allow_in_spec]
pub fn is_sequence(ty: &Type) -> (r: bool)
    returns
        match ty {
            Type::Array(_, _) => true,
            Type::Slice(_) => true,
            _ => false,
        },
{
    match ty {
        Type::Array(_, _) => true,
        Type::Slice(_) => true,
        _ => false,
    }
}

/// The type of an array of children.
#[verifier::allow_in_spec]
pub fn child_array_type(expected: &Type, element: &Type, count: usize) -> (r: Type)
    returns
        match expected {
            Type::Array(_, length) => Type::Array(Box::new(element.dup()), *length),
            _ => Type::Array(Box::new(element.dup()), count as u64),
        },
{
    match expected {
        Type::Array(_, length) => Type::Array(Box::new(element.dup()), *length),
        _ => Type::Array(Box::new(element.dup()), count as u64),
    }
}

/// The first of the operands.
#[verifier::opaque]
pub open spec fn spec_first_operand(operands: List<Operand>) -> Option<Operand> {
    match operands {
        List::Cons(head, tail) => Some(*head),
        List::Nil => None,
    }
}

/// The first of the operands.
#[verifier::allow_in_spec]
pub fn first_operand(operands: List<Operand>) -> (r: Option<Operand>)
    returns
        spec_first_operand(operands),
{
    proof {
        reveal(spec_first_operand);
    }
    match operands {
        List::Cons(head, tail) => Some(*head),
        List::Nil => None,
    }
}

/// Children as the value of a property: the only one of them, an array, or a fragment.
#[verifier::opaque]
pub open spec fn spec_lower_jsx_child_value(
    cx: &Context,
    st: State,
    children: &Vec<HirJsxChild>,
    expected: &Type,
    start: usize,
    low: Lowering,
) -> (State, Option<Operand>) {
    let (st, attempt) = spec_lower_jsx_children(
        cx,
        st,
        children,
        0,
        Some(spec_child_type(expected)),
        None,
        start,
        low,
    );
    match attempt {
        Some(lowered) => {
            if children.len() == 1 && !is_sequence(expected) {
                (st, spec_first_operand(lowered.operands))
            } else {
                let ty = child_array_type(expected, &lowered.ty, children.len());
                let (st, array) = spec_lower_child_array(st, ty.dup(), lowered, cx.span_at(start));
                if is_sequence(expected) {
                    (st, Some(array))
                } else {
                    spec_lower_jsx_fragment(cx, st, array, ty, expected.dup(), start)
                }
            }
        },
        _ => (st, None),
    }
}

impl Builder {
    /// Children as the value of a property: the only one of them, an array, or a fragment.
    pub(crate) fn lower_jsx_child_value(
        &mut self,
        cx: &Context,
        children: &Vec<HirJsxChild>,
        expected: &Type,
        start: usize,
        limit: usize,
    ) -> (r: Option<Operand>)
        ensures
            (final(self)@, r) == spec_lower_jsx_child_value(
                cx,
                old(self)@,
                children,
                expected,
                start,
                lowering(limit as nat),
            ),
        decreases limit, 4nat, 0nat,
    {
        proof {
            reveal(spec_lower_jsx_child_value);
        }
        let Some(lowered) = self.lower_jsx_children(
            cx,
            children,
            0,
            Some(child_type(expected)),
            None,
            start,
            limit,
        ) else {
            return None;
        };
        if children.len() == 1 && !is_sequence(expected) {
            return first_operand(lowered.operands);
        }
        let ty = child_array_type(expected, &lowered.ty, children.len());
        let array = self.lower_child_array(ty.dup(), lowered, cx.span_at(start));
        if is_sequence(expected) {
            return Some(array);
        }
        self.lower_jsx_fragment(cx, array, ty, expected.dup(), start)
    }
}

/// A fragment that is made out of an array of children.
#[verifier::opaque]
pub open spec fn spec_lower_jsx_fragment(
    cx: &Context,
    st: State,
    children: Operand,
    children_type: Type,
    result_type: Type,
    start: usize,
) -> (State, Option<Operand>) {
    match cx.program.jsx_fragment {
        Some(runtime) => {
            let signature = signature_of(one(children_type), result_type, List::Nil, false, false);
            let function = Operand::Constant(
                Constant::Function(runtime, Type::Function(signature.dup())),
            );
            let (st, attempt) = spec_emit_call(
                cx,
                st,
                function,
                None,
                &signature,
                one(children),
                start,
            );
            match attempt {
                Some(value) => (st, Some(value.operand)),
                None => (st, None),
            }
        },
        _ => (st, None),
    }
}

impl Builder {
    /// A fragment that is made out of an array of children.
    pub(crate) fn lower_jsx_fragment(
        &mut self,
        cx: &Context,
        children: Operand,
        children_type: Type,
        result_type: Type,
        start: usize,
    ) -> (r: Option<Operand>)
        ensures
            (final(self)@, r) == spec_lower_jsx_fragment(
                cx,
                old(self)@,
                children,
                children_type,
                result_type,
                start,
            ),
    {
        proof {
            reveal(spec_lower_jsx_fragment);
        }
        let Some(runtime) = cx.program.jsx_fragment else {
            return None;
        };
        let signature = signature_of(one(children_type), result_type, List::Nil, false, false);
        let function = Operand::Constant(
            Constant::Function(runtime, Type::Function(signature.dup())),
        );
        match self.emit_call(cx, function, None, &signature, one(children), start) {
            Some(value) => Some(value.operand),
            None => None,
        }
    }
}

/// The value of a property.
#[verifier::opaque]
pub open spec fn spec_lower_jsx_value(
    cx: &Context,
    st: State,
    value: &HirJsxValue,
    expected: &Type,
    start: usize,
    low: Lowering,
) -> (State, Option<Operand>) {
    match value {
        HirJsxValue::Boolean(value) => (st, Some(Operand::Constant(Constant::Bool(*value)))),
        HirJsxValue::Text(text) => {
            let (st, operand) = spec_text_operand(st, text, expected, cx.span_at(start));
            (st, Some(operand))
        },
        HirJsxValue::Expression(id) => {
            let (st, attempt) = spec_lower_checked(cx, st, *id, Some(expected), low);
            match attempt {
                Some(value) => (st, Some(value.operand)),
                None => (st, None),
            }
        },
        HirJsxValue::Children(children) => {
            spec_lower_jsx_child_value(cx, st, children, expected, start, low)
        },
    }
}

impl Builder {
    /// The value of a property.
    pub(crate) fn lower_jsx_value(
        &mut self,
        cx: &Context,
        value: &HirJsxValue,
        expected: &Type,
        start: usize,
        limit: usize,
    ) -> (r: Option<Operand>)
        ensures
            (final(self)@, r) == spec_lower_jsx_value(
                cx,
                old(self)@,
                value,
                expected,
                start,
                lowering(limit as nat),
            ),
        decreases limit, 5nat, 0nat,
    {
        proof {
            reveal(spec_lower_jsx_value);
        }
        match value {
            HirJsxValue::Boolean(value) => Some(Operand::Constant(Constant::Bool(*value))),
            HirJsxValue::Text(text) => {
                let operand = self.text_operand(text, expected, cx.span_at(start));
                Some(operand)
            },
            HirJsxValue::Expression(id) => {
                match self.lower_checked(cx, *id, Some(expected), limit) {
                    Some(value) => Some(value.operand),
                    None => None,
                }
            },
            HirJsxValue::Children(children) => {
                self.lower_jsx_child_value(cx, children, expected, start, limit)
            },
        }
    }
}

} // verus!
