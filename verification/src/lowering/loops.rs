//! Loops over sequences, iterators and generators.

use vstd::prelude::*;

use crate::hir::{
    DeclarationId, DefinitionData, FunctionType, IterationWitness, MemberId, PrimitiveType, Program,
    ReceiverMode, Type,
};
use crate::list::List;
use crate::lowering::bindings::{spec_bind_hir_local, spec_lower_binding_pattern, usize_constant};
use crate::lowering::builder::{
    spec_add_local, spec_bind_hir, spec_new_block, spec_pop_loop, spec_push_loop, spec_statement,
    spec_temporary, spec_terminate, Builder, State,
};
use crate::lowering::context::{behind, next, Context};
use crate::lowering::emit::{
    spec_assign, spec_branch, spec_computed, spec_continue_at, spec_emit_call, spec_live,
    spec_materialize_operand, Value,
};
use crate::lowering::members::interface_witness_slot;
use crate::lowering::recursion::{lowering, Lowering};
use crate::lowering::types::{builtin_iterable_item, primitive};
use crate::mir::{
    operand_place, whole, BasicBlockId, BinaryOperator, Constant, LocalId, Operand, Place,
    Projection, Rvalue, StatementKind, TerminatorKind,
};
use crate::names::Name;
use crate::program::find_method;
use crate::syntax::{Span, TokenKind};

verus! {

/// The tokens of a loop: its first one, the one that it binds, the first one of what it runs
/// over and the one that closes its header.
#[derive(Clone, Copy, Debug, PartialEq, Eq, Structural)]
pub struct LoopHeader {
    pub start: usize,
    pub binding: usize,
    pub iterable: usize,
    pub close: usize,
}

/// The type of a callable without generic parameters.
#[verifier::allow_in_spec]
pub fn signature_of(
    parameters: List<Type>,
    result: Type,
    effects: List<DeclarationId>,
    is_async: bool,
    is_unsafe: bool,
) -> (r: FunctionType)
    returns
        (FunctionType {
            parameters,
            result: Box::new(result),
            effects,
            generics: List::Nil,
            is_async,
            is_unsafe,
        }),
{
    FunctionType {
        parameters,
        result: Box::new(result),
        effects,
        generics: List::Nil,
        is_async,
        is_unsafe,
    }
}

/// The name that is written at a position.
#[verifier::allow_in_spec]
pub fn written_name(cx: &Context, index: usize) -> (r: Name)
    returns
        match cx.name_at(index) {
            Some(name) => name,
            None => Name::Undefined,
        },
{
    match cx.name_at(index) {
        Some(name) => name,
        None => Name::Undefined,
    }
}

/// A condition, which is false where it has no value.
#[verifier::opaque]
pub open spec fn spec_condition(
    cx: &Context,
    st: State,
    start: usize,
    end: usize,
    low: Lowering,
) -> (State, Operand) {
    let bool_type = primitive(PrimitiveType::Bool);
    let (st, attempt) = (low.expression)(cx, st, start, end, Some(&bool_type));
    match attempt {
        Some(value) => (st, value.operand),
        None => (st, Operand::Constant(Constant::Bool(false))),
    }
}

impl Builder {
    /// A condition, which is false where it has no value.
    pub(crate) fn condition(
        &mut self,
        cx: &Context,
        start: usize,
        end: usize,
        limit: usize,
    ) -> (r: Operand)
        ensures
            (final(self)@, r) == spec_condition(
                cx,
                old(self)@,
                start,
                end,
                lowering(limit as nat),
            ),
        decreases limit, 1nat, 0nat,
    {
        proof {
            reveal(spec_condition);
        }
        let bool_type = primitive(PrimitiveType::Bool);
        match self.expression(cx, start, end, Some(&bool_type), limit) {
            Some(value) => value.operand,
            None => Operand::Constant(Constant::Bool(false)),
        }
    }
}

/// The body of a loop, from its first token on.
#[verifier::opaque]
pub open spec fn spec_lower_loop_body(
    cx: &Context,
    st: State,
    body: usize,
    again: BasicBlockId,
    exit: BasicBlockId,
    span: Span,
    low: Lowering,
) -> State {
    let st = State { index: body, ..st };
    let st = spec_push_loop(st, again, exit);
    let st = (low.statement)(cx, st);
    let st = spec_pop_loop(st);
    spec_continue_at(st, again, span)
}

impl Builder {
    /// The body of a loop, from its first token on.
    pub(crate) fn lower_loop_body(
        &mut self,
        cx: &Context,
        body: usize,
        again: BasicBlockId,
        exit: BasicBlockId,
        span: Span,
        limit: usize,
    )
        ensures
            final(self)@ == spec_lower_loop_body(
                cx,
                old(self)@,
                body,
                again,
                exit,
                span,
                lowering(limit as nat),
            ),
        decreases limit, 1nat, 0nat,
    {
        proof {
            reveal(spec_lower_loop_body);
        }
        self.index = body;
        self.push_loop(again, exit);
        self.source_statement(cx, limit);
        self.pop_loop();
        self.continue_at(again, span);
    }
}

/// A loop with a condition.
#[verifier::opaque]
pub open spec fn spec_lower_while(cx: &Context, st: State, low: Lowering) -> State {
    let start: usize = st.index;
    let span = cx.span_at(start);
    match cx.matching_token(next(start), TokenKind::LeftParen, TokenKind::RightParen) {
        Some(close) => {
            let (st, condition_block) = spec_new_block(st);
            let (st, body_block) = spec_new_block(st);
            let (st, exit_block) = spec_new_block(st);
            let st = spec_terminate(st, TerminatorKind::Goto(condition_block), span);
            let st = State { current: condition_block, ..st };
            let (st, condition) = spec_condition(cx, st, behind(start, 2), close, low);
            let st = spec_branch(st, condition, body_block, exit_block, span);
            let st = State { current: body_block, ..st };
            let st = spec_lower_loop_body(
                cx,
                st,
                next(close),
                condition_block,
                exit_block,
                span,
                low,
            );
            let st = State { current: exit_block, ..st };
            st
        },
        _ => {
            let st = State { index: next(start), ..st };
            st
        },
    }
}

impl Builder {
    /// A loop with a condition.
    pub(crate) fn lower_while(&mut self, cx: &Context, limit: usize)
        ensures
            final(self)@ == spec_lower_while(cx, old(self)@, lowering(limit as nat)),
        decreases limit, 2nat, 0nat,
    {
        proof {
            reveal(spec_lower_while);
        }
        let start: usize = self.index;
        let span = cx.span_at(start);
        let Some(close) = cx.matching_token(
            next(start),
            TokenKind::LeftParen,
            TokenKind::RightParen,
        ) else {
            self.index = next(start);
            return;
        };
        let condition_block = self.new_block();
        let body_block = self.new_block();
        let exit_block = self.new_block();
        self.terminate(TerminatorKind::Goto(condition_block), span);
        self.current = condition_block;
        let condition = self.condition(cx, behind(start, 2), close, limit);
        self.branch(condition, body_block, exit_block, span);
        self.current = body_block;
        self.lower_loop_body(cx, next(close), condition_block, exit_block, span, limit);
        self.current = exit_block;
    }
}

/// The statement behind the header of a loop that has no items, which is lowered once.
#[verifier::opaque]
pub open spec fn spec_lower_without_items(
    cx: &Context,
    st: State,
    header: LoopHeader,
    low: Lowering,
) -> State {
    let st = State { index: next(header.close), ..st };
    (low.statement)(cx, st)
}

impl Builder {
    /// The statement behind the header of a loop that has no items, which is lowered once.
    pub(crate) fn lower_without_items(&mut self, cx: &Context, header: LoopHeader, limit: usize)
        ensures
            final(self)@ == spec_lower_without_items(
                cx,
                old(self)@,
                header,
                lowering(limit as nat),
            ),
        decreases limit, 1nat, 0nat,
    {
        proof {
            reveal(spec_lower_without_items);
        }
        self.index = next(header.close);
        self.source_statement(cx, limit);
    }
}

/// The name of the items of a loop.
#[verifier::allow_in_spec]
pub fn item_name(cx: &Context, header: LoopHeader) -> (r: Name)
    returns
        match cx.for_binding_pattern(header.start) {
            Some(pattern) => {
                match cx.hir_local(pattern.root) {
                    Some(local) => local.name,
                    None => written_name(cx, header.binding),
                }
            },
            None => written_name(cx, header.binding),
        },
{
    match cx.for_binding_pattern(header.start) {
        Some(pattern) => match cx.hir_local(pattern.root) {
            Some(local) => local.name,
            None => written_name(cx, header.binding),
        },
        None => written_name(cx, header.binding),
    }
}

/// A local for the items of a loop.
#[verifier::opaque]
pub open spec fn spec_item_local(
    cx: &Context,
    st: State,
    header: LoopHeader,
    ty: Type,
) -> (State, LocalId) {
    let (st, local) = spec_add_local(
        st, item_name(cx, header),
        ty,
        false,
        false,
        cx.span_at(header.binding),
    );
    let st = match cx.for_binding_pattern(header.start) {
        Some(pattern) => spec_bind_hir(st, pattern.root, local),
        None => spec_bind_hir_local(cx, st, header.binding, local),
    };
    (st, local)
}

impl Builder {
    /// A local for the items of a loop.
    pub(crate) fn item_local(
        &mut self,
        cx: &Context,
        header: LoopHeader,
        ty: Type,
    ) -> (r: LocalId)
        ensures
            (final(self)@, r) == spec_item_local(cx, old(self)@, header, ty),
    {
        proof {
            reveal(spec_item_local);
        }
        let local = self.add_local(
            item_name(cx, header),
            ty,
            false,
            false,
            cx.span_at(header.binding),
        );
        match cx.for_binding_pattern(header.start) {
            Some(pattern) => {
                self.bind_hir(pattern.root, local);
            },
            None => {
                self.bind_hir_local(cx, header.binding, local);
            },
        }
        local
    }
}

/// The local for the items gets one, and a pattern takes it apart.
#[verifier::opaque]
pub open spec fn spec_fill_item(
    cx: &Context,
    st: State,
    header: LoopHeader,
    local: LocalId,
    value: Rvalue,
    low: Lowering,
) -> State {
    let span = cx.span_at(header.binding);
    let st = spec_statement(st, StatementKind::StorageLive(local), span);
    let st = spec_assign(st, local, value, span);
    if let Some(pattern) = cx.for_binding_pattern(header.start) {
        spec_lower_binding_pattern(cx, st, pattern, low)
    } else {
        st
    }
}

impl Builder {
    /// The local for the items gets one, and a pattern takes it apart.
    pub(crate) fn fill_item(
        &mut self,
        cx: &Context,
        header: LoopHeader,
        local: LocalId,
        value: Rvalue,
        limit: usize,
    )
        ensures
            final(self)@ == spec_fill_item(
                cx,
                old(self)@,
                header,
                local,
                value,
                lowering(limit as nat),
            ),
        decreases limit, 6nat, 0nat,
    {
        proof {
            reveal(spec_fill_item);
        }
        let span = cx.span_at(header.binding);
        self.statement(StatementKind::StorageLive(local), span);
        self.assign(local, value, span);
        if let Some(pattern) = cx.for_binding_pattern(header.start) {
            self.lower_binding_pattern(cx, pattern, limit);
        }
    }
}

/// The local for the items gets what an optional item holds.
#[verifier::opaque]
pub open spec fn spec_fill_present_item(
    cx: &Context,
    st: State,
    header: LoopHeader,
    local: LocalId,
    optional: Place,
    low: Lowering,
) -> State {
    spec_fill_item(
        cx,
        st,
        header,
        local,
        Rvalue::Use(Operand::Move(optional.step(Projection::Downcast(1)))),
        low,
    )
}

impl Builder {
    /// The local for the items gets what an optional item holds.
    pub(crate) fn fill_present_item(
        &mut self,
        cx: &Context,
        header: LoopHeader,
        local: LocalId,
        optional: Place,
        limit: usize,
    )
        ensures
            final(self)@ == spec_fill_present_item(
                cx,
                old(self)@,
                header,
                local,
                optional,
                lowering(limit as nat),
            ),
        decreases limit, 7nat, 0nat,
    {
        proof {
            reveal(spec_fill_present_item);
        }
        self.fill_item(
            cx,
            header,
            local,
            Rvalue::Use(Operand::Move(optional.step(Projection::Downcast(1)))),
            limit,
        );
    }
}

/// The blocks of a loop, the last one of which is behind it.
#[derive(Clone, Copy, Debug, PartialEq, Eq, Structural)]
pub struct CountedBlocks {
    pub condition: BasicBlockId,
    pub body: BasicBlockId,
    pub increment: BasicBlockId,
    pub exit: BasicBlockId,
}

/// The test of a counted loop.
#[verifier::opaque]
pub open spec fn spec_counted_test(
    st: State,
    index: LocalId,
    length: LocalId,
    blocks: CountedBlocks,
    span: Span,
) -> State {
    let st = State { current: blocks.condition, ..st };
    let (st, condition) = spec_computed(
        st, primitive(PrimitiveType::Bool),
        Rvalue::CheckedBinary {
            operator: BinaryOperator::Less,
            left: Operand::Copy(whole(index)),
            right: Operand::Copy(whole(length)),
            operand_type: primitive(PrimitiveType::Usize),
            result_type: primitive(PrimitiveType::Bool),
        },
        span,
    );
    spec_branch(st, condition, blocks.body, blocks.exit, span)
}

impl Builder {
    /// The test of a counted loop.
    pub(crate) fn counted_test(
        &mut self,
        index: LocalId,
        length: LocalId,
        blocks: CountedBlocks,
        span: Span,
    )
        ensures
            final(self)@ == spec_counted_test(old(self)@, index, length, blocks, span),
    {
        proof {
            reveal(spec_counted_test);
        }
        self.current = blocks.condition;
        let condition = self.computed(
            primitive(PrimitiveType::Bool),
            Rvalue::CheckedBinary {
                operator: BinaryOperator::Less,
                left: Operand::Copy(whole(index)),
                right: Operand::Copy(whole(length)),
                operand_type: primitive(PrimitiveType::Usize),
                result_type: primitive(PrimitiveType::Bool),
            },
            span,
        );
        self.branch(condition, blocks.body, blocks.exit, span);
    }
}

/// The step of a counted loop.
#[verifier::opaque]
pub open spec fn spec_counted_step(
    st: State,
    index: LocalId,
    blocks: CountedBlocks,
    span: Span,
) -> State {
    let st = State { current: blocks.increment, ..st };
    let st = spec_assign(
        st,
        index,
        Rvalue::CheckedBinary {
            operator: BinaryOperator::Add,
            left: Operand::Copy(whole(index)),
            right: usize_constant(1),
            operand_type: primitive(PrimitiveType::Usize),
            result_type: primitive(PrimitiveType::Usize),
        },
        span,
    );
    let st = spec_terminate(st, TerminatorKind::Goto(blocks.condition), span);
    let st = State { current: blocks.exit, ..st };
    st
}

impl Builder {
    /// The step of a counted loop.
    pub(crate) fn counted_step(&mut self, index: LocalId, blocks: CountedBlocks, span: Span)
        ensures
            final(self)@ == spec_counted_step(old(self)@, index, blocks, span),
    {
        proof {
            reveal(spec_counted_step);
        }
        self.current = blocks.increment;
        self.assign(
            index,
            Rvalue::CheckedBinary {
                operator: BinaryOperator::Add,
                left: Operand::Copy(whole(index)),
                right: usize_constant(1),
                operand_type: primitive(PrimitiveType::Usize),
                result_type: primitive(PrimitiveType::Usize),
            },
            span,
        );
        self.terminate(TerminatorKind::Goto(blocks.condition), span);
        self.current = blocks.exit;
    }
}

/// A loop over the elements of a sequence, which counts up to its length.
#[verifier::opaque]
pub open spec fn spec_lower_counted_for(
    cx: &Context,
    st: State,
    header: LoopHeader,
    iterable: Place,
    item_type: Type,
    low: Lowering,
) -> State {
    let span = cx.span_at(header.start);
    let (st, binding) = spec_item_local(cx, st, header, item_type);
    let (st, index) = spec_temporary(st, primitive(PrimitiveType::Usize), span);
    let (st, length) = spec_temporary(st, primitive(PrimitiveType::Usize), span);
    let st = spec_statement(st, StatementKind::StorageLive(index), span);
    let st = spec_statement(st, StatementKind::StorageLive(length), span);
    let st = spec_assign(st, index, Rvalue::Use(usize_constant(0)), span);
    let st = spec_assign(st, length, Rvalue::Length(iterable.dup()), span);
    let (st, condition_block) = spec_new_block(st);
    let (st, body_block) = spec_new_block(st);
    let (st, increment_block) = spec_new_block(st);
    let (st, exit_block) = spec_new_block(st);
    let blocks = CountedBlocks {
        condition: condition_block,
        body: body_block,
        increment: increment_block,
        exit: exit_block,
    };
    let st = spec_terminate(st, TerminatorKind::Goto(condition_block), span);
    let st = spec_counted_test(st, index, length, blocks, span);
    let st = State { current: body_block, ..st };
    let st = spec_fill_item(
        cx,
        st,
        header,
        binding,
        Rvalue::CheckedIndex { collection: iterable, index: Operand::Copy(whole(index)) },
        low,
    );
    let st = spec_lower_loop_body(
        cx,
        st,
        next(header.close),
        increment_block,
        exit_block,
        span,
        low,
    );
    spec_counted_step(st, index, blocks, span)
}

impl Builder {
    /// A loop over the elements of a sequence, which counts up to its length.
    pub(crate) fn lower_counted_for(
        &mut self,
        cx: &Context,
        header: LoopHeader,
        iterable: Place,
        item_type: Type,
        limit: usize,
    )
        ensures
            final(self)@ == spec_lower_counted_for(
                cx,
                old(self)@,
                header,
                iterable,
                item_type,
                lowering(limit as nat),
            ),
        decreases limit, 7nat, 0nat,
    {
        proof {
            reveal(spec_lower_counted_for);
        }
        let span = cx.span_at(header.start);
        let binding = self.item_local(cx, header, item_type);
        let index = self.temporary(primitive(PrimitiveType::Usize), span);
        let length = self.temporary(primitive(PrimitiveType::Usize), span);
        self.statement(StatementKind::StorageLive(index), span);
        self.statement(StatementKind::StorageLive(length), span);
        self.assign(index, Rvalue::Use(usize_constant(0)), span);
        self.assign(length, Rvalue::Length(iterable.dup()), span);
        let condition_block = self.new_block();
        let body_block = self.new_block();
        let increment_block = self.new_block();
        let exit_block = self.new_block();
        let blocks = CountedBlocks {
            condition: condition_block,
            body: body_block,
            increment: increment_block,
            exit: exit_block,
        };
        self.terminate(TerminatorKind::Goto(condition_block), span);
        self.counted_test(index, length, blocks, span);
        self.current = body_block;
        self.fill_item(
            cx,
            header,
            binding,
            Rvalue::CheckedIndex { collection: iterable, index: Operand::Copy(whole(index)) },
            limit,
        );
        self.lower_loop_body(cx, next(header.close), increment_block, exit_block, span, limit);
        self.counted_step(index, blocks, span);
    }
}

/// The place of a sequence, or of the one that a reference leads to.
#[verifier::allow_in_spec]
pub fn sequence_place(value: Value) -> (r: Option<Place>)
    returns
        match operand_place(value.operand) {
            Some(place) => {
                if matches!(value.ty, Type::Reference { .. }) {
                    Some(place.step(Projection::Dereference))
                } else {
                    Some(place)
                }
            },
            None => None,
        },
{
    match operand_place(value.operand) {
        Some(place) => {
            if matches!(value.ty, Type::Reference { .. }) {
                Some(place.step(Projection::Dereference))
            } else {
                Some(place)
            }
        },
        None => None,
    }
}

/// A loop over a sequence of the language itself.
#[verifier::opaque]
pub open spec fn spec_lower_builtin_for(
    cx: &Context,
    st: State,
    header: LoopHeader,
    iterable: Value,
    low: Lowering,
) -> State {
    match (builtin_iterable_item(&iterable.ty), sequence_place(iterable)) {
        (Some(item_type), Some(place)) => {
            spec_lower_counted_for(cx, st, header, place, item_type, low)
        },
        _ => spec_lower_without_items(cx, st, header, low),
    }
}

impl Builder {
    /// A loop over a sequence of the language itself.
    pub(crate) fn lower_builtin_for(
        &mut self,
        cx: &Context,
        header: LoopHeader,
        iterable: Value,
        limit: usize,
    )
        ensures
            final(self)@ == spec_lower_builtin_for(
                cx,
                old(self)@,
                header,
                iterable,
                lowering(limit as nat),
            ),
        decreases limit, 8nat, 0nat,
    {
        proof {
            reveal(spec_lower_builtin_for);
        }
        match (builtin_iterable_item(&iterable.ty), sequence_place(iterable)) {
            (Some(item_type), Some(place)) => {
                self.lower_counted_for(cx, header, place, item_type, limit);
            },
            _ => {
                self.lower_without_items(cx, header, limit);
            },
        }
    }
}

/// A loop over items.
#[verifier::opaque]
pub open spec fn spec_lower_for(cx: &Context, st: State, low: Lowering) -> State {
    let start: usize = st.index;
    let open: usize = if cx.is(next(start), TokenKind::Await) {
        behind(start, 2)
    } else {
        next(start)
    };
    match cx.matching_token(open, TokenKind::LeftParen, TokenKind::RightParen) {
        Some(close) => {
            let binding: usize = behind(open, 2);
            match cx.find_top_level(binding, close, TokenKind::Of) {
                Some(of) => {
                    let header = LoopHeader { start, binding, iterable: next(of), close };
                    let (st, attempt) = (low.expression)(cx, st, header.iterable, close, None);
                    match attempt {
                        Some(iterable) => {
                            match cx.iteration_witness(start) {
                                Some(witness) => {
                                    spec_lower_witness_for(cx, st, header, iterable, witness, low)
                                },
                                None => spec_lower_builtin_for(cx, st, header, iterable, low),
                            }
                        },
                        _ => {
                            let st = spec_lower_without_items(cx, st, header, low);
                            st
                        },
                    }
                },
                _ => {
                    let st = State { index: next(close), ..st };
                    st
                },
            }
        },
        _ => {
            let st = State { index: next(start), ..st };
            st
        },
    }
}

impl Builder {
    /// A loop over items.
    pub(crate) fn lower_for(&mut self, cx: &Context, limit: usize)
        ensures
            final(self)@ == spec_lower_for(cx, old(self)@, lowering(limit as nat)),
        decreases limit, 10nat, 0nat,
    {
        proof {
            reveal(spec_lower_for);
        }
        let start: usize = self.index;
        let open: usize = if cx.is(next(start), TokenKind::Await) {
            behind(start, 2)
        } else {
            next(start)
        };
        let Some(close) = cx.matching_token(
            open,
            TokenKind::LeftParen,
            TokenKind::RightParen,
        ) else {
            self.index = next(start);
            return;
        };
        let binding: usize = behind(open, 2);
        let Some(of) = cx.find_top_level(binding, close, TokenKind::Of) else {
            self.index = next(close);
            return;
        };
        let header = LoopHeader { start, binding, iterable: next(of), close };
        let Some(iterable) = self.expression(cx, header.iterable, close, None, limit) else {
            self.lower_without_items(cx, header, limit);
            return;
        };
        match cx.iteration_witness(start) {
            Some(witness) => {
                self.lower_witness_for(cx, header, iterable, witness, limit);
            },
            None => {
                self.lower_builtin_for(cx, header, iterable, limit);
            },
        }
    }
}

/// A loop with a witness that says how it gets its items.
#[verifier::opaque]
pub open spec fn spec_lower_witness_for(
    cx: &Context,
    st: State,
    header: LoopHeader,
    iterable: Value,
    witness: &IterationWitness,
    low: Lowering,
) -> State {
    match witness {
        IterationWitness::Generator { item_type, asynchronous } => {
            spec_lower_generator_for(cx, st, header, iterable, item_type, *asynchronous, low)
        },
        IterationWitness::Declared {
            into_iterator_implementation,
            into_iterator_method,
            iterator_implementation,
            next_method,
            next_receiver,
            iterator_type,
            item_type,
        } => {
            let (st, attempt) = spec_lower_into_iterator(
                cx,
                st,
                header,
                iterable,
                *into_iterator_implementation,
                *into_iterator_method,
                iterator_type,
            );
            match attempt {
                Some(iterator) => {
                    spec_lower_iterator_for(
                        cx,
                        st,
                        header,
                        iterator,
                        *iterator_implementation,
                        *next_method,
                        *next_receiver,
                        item_type,
                        low,
                    )
                },
                _ => {
                    let st = spec_lower_without_items(cx, st, header, low);
                    st
                },
            }
        },
        IterationWitness::Builtin => spec_lower_without_items(cx, st, header, low),
    }
}

impl Builder {
    /// A loop with a witness that says how it gets its items.
    pub(crate) fn lower_witness_for(
        &mut self,
        cx: &Context,
        header: LoopHeader,
        iterable: Value,
        witness: &IterationWitness,
        limit: usize,
    )
        ensures
            final(self)@ == spec_lower_witness_for(
                cx,
                old(self)@,
                header,
                iterable,
                witness,
                lowering(limit as nat),
            ),
        decreases limit, 9nat, 0nat,
    {
        proof {
            reveal(spec_lower_witness_for);
        }
        match witness {
            IterationWitness::Generator { item_type, asynchronous } => {
                self.lower_generator_for(cx, header, iterable, item_type, *asynchronous, limit);
            },
            IterationWitness::Declared {
                into_iterator_implementation,
                into_iterator_method,
                iterator_implementation,
                next_method,
                next_receiver,
                iterator_type,
                item_type,
            } => {
                let Some(iterator) = self.lower_into_iterator(
                    cx,
                    header,
                    iterable,
                    *into_iterator_implementation,
                    *into_iterator_method,
                    iterator_type,
                ) else {
                    self.lower_without_items(cx, header, limit);
                    return;
                };
                self.lower_iterator_for(
                    cx,
                    header,
                    iterator,
                    *iterator_implementation,
                    *next_method,
                    *next_receiver,
                    item_type,
                    limit,
                );
            },
            IterationWitness::Builtin => {
                self.lower_without_items(cx, header, limit);
            },
        }
    }
}

/// The iterator that a value is turned into.
#[verifier::opaque]
pub open spec fn spec_lower_into_iterator(
    cx: &Context,
    st: State,
    header: LoopHeader,
    iterable: Value,
    implementation: DeclarationId,
    member: MemberId,
    iterator_type: &Type,
) -> (State, Option<Place>) {
    let span = cx.span_at(header.start);
    let (st, source) = spec_materialize_operand(st, iterable.operand, iterable.ty, span);
    let signature = signature_of(List::Nil, iterator_type.dup(), List::Nil, false, false);
    let (st, method) = spec_computed(
        st, Type::Function(signature.dup()),
        Rvalue::DirectMethod {
            object: source.dup(),
            implementation,
            member,
            receiver: ReceiverMode::Move,
            ty: Type::Function(signature.dup()),
        },
        span,
    );
    let (st, attempt) = spec_emit_call(
        cx,
        st,
        method,
        Some(Operand::Move(source)),
        &signature,
        List::Nil,
        header.iterable,
    );
    match attempt {
        Some(iterator) => {
            let (st, place) = spec_materialize_operand(
                st,
                iterator.operand,
                iterator_type.dup(),
                span,
            );
            (st, Some(place))
        },
        _ => (st, None),
    }
}

impl Builder {
    /// The iterator that a value is turned into.
    pub(crate) fn lower_into_iterator(
        &mut self,
        cx: &Context,
        header: LoopHeader,
        iterable: Value,
        implementation: DeclarationId,
        member: MemberId,
        iterator_type: &Type,
    ) -> (r: Option<Place>)
        ensures
            (final(self)@, r) == spec_lower_into_iterator(
                cx,
                old(self)@,
                header,
                iterable,
                implementation,
                member,
                iterator_type,
            ),
    {
        proof {
            reveal(spec_lower_into_iterator);
        }
        let span = cx.span_at(header.start);
        let source = self.materialize_operand(iterable.operand, iterable.ty, span);
        let signature = signature_of(List::Nil, iterator_type.dup(), List::Nil, false, false);
        let method = self.computed(
            Type::Function(signature.dup()),
            Rvalue::DirectMethod {
                object: source.dup(),
                implementation,
                member,
                receiver: ReceiverMode::Move,
                ty: Type::Function(signature.dup()),
            },
            span,
        );
        let Some(iterator) = self.emit_call(
            cx,
            method,
            Some(Operand::Move(source)),
            &signature,
            List::Nil,
            header.iterable,
        ) else {
            return None;
        };
        let place = self.materialize_operand(iterator.operand, iterator_type.dup(), span);
        Some(place)
    }
}

/// A loop that asks an iterator for its next item until there is none.
#[verifier::opaque]
pub open spec fn spec_lower_iterator_for(
    cx: &Context,
    st: State,
    header: LoopHeader,
    iterator: Place,
    implementation: DeclarationId,
    member: MemberId,
    receiver: ReceiverMode,
    item_type: &Type,
    low: Lowering,
) -> State {
    let span = cx.span_at(header.start);
    let (st, binding) = spec_item_local(cx, st, header, item_type.dup());
    let (st, condition_block) = spec_new_block(st);
    let (st, body_block) = spec_new_block(st);
    let (st, exit_block) = spec_new_block(st);
    let st = spec_terminate(st, TerminatorKind::Goto(condition_block), span);
    let st = State { current: condition_block, ..st };
    let optional_item = Type::Optional(Box::new(item_type.dup()));
    let signature = signature_of(List::Nil, optional_item.dup(), List::Nil, false, false);
    let (st, method) = spec_computed(
        st, Type::Function(signature.dup()),
        Rvalue::DirectMethod {
            object: iterator.dup(),
            implementation,
            member,
            receiver,
            ty: Type::Function(signature.dup()),
        },
        span,
    );
    let (st, attempt) = spec_emit_call(
        cx,
        st,
        method,
        Some(Operand::Copy(iterator)),
        &signature,
        List::Nil,
        header.iterable,
    );
    match attempt {
        Some(item) => {
            let (st, optional) = spec_materialize_operand(st, item.operand, optional_item, span);
            let st = spec_branch(st, Operand::Copy(optional.dup()), body_block, exit_block, span);
            let st = State { current: body_block, ..st };
            let st = spec_fill_present_item(cx, st, header, binding, optional, low);
            let st = spec_lower_loop_body(
                cx,
                st,
                next(header.close),
                condition_block,
                exit_block,
                span,
                low,
            );
            let st = State { current: exit_block, ..st };
            st
        },
        _ => {
            let st = spec_lower_without_items(cx, st, header, low);
            st
        },
    }
}

impl Builder {
    /// A loop that asks an iterator for its next item until there is none.
    pub(crate) fn lower_iterator_for(
        &mut self,
        cx: &Context,
        header: LoopHeader,
        iterator: Place,
        implementation: DeclarationId,
        member: MemberId,
        receiver: ReceiverMode,
        item_type: &Type,
        limit: usize,
    )
        ensures
            final(self)@ == spec_lower_iterator_for(
                cx,
                old(self)@,
                header,
                iterator,
                implementation,
                member,
                receiver,
                item_type,
                lowering(limit as nat),
            ),
        decreases limit, 8nat, 0nat,
    {
        proof {
            reveal(spec_lower_iterator_for);
        }
        let span = cx.span_at(header.start);
        let binding = self.item_local(cx, header, item_type.dup());
        let condition_block = self.new_block();
        let body_block = self.new_block();
        let exit_block = self.new_block();
        self.terminate(TerminatorKind::Goto(condition_block), span);
        self.current = condition_block;
        let optional_item = Type::Optional(Box::new(item_type.dup()));
        let signature = signature_of(List::Nil, optional_item.dup(), List::Nil, false, false);
        let method = self.computed(
            Type::Function(signature.dup()),
            Rvalue::DirectMethod {
                object: iterator.dup(),
                implementation,
                member,
                receiver,
                ty: Type::Function(signature.dup()),
            },
            span,
        );
        let Some(item) = self.emit_call(
            cx,
            method,
            Some(Operand::Copy(iterator)),
            &signature,
            List::Nil,
            header.iterable,
        ) else {
            self.lower_without_items(cx, header, limit);
            return;
        };
        let optional = self.materialize_operand(item.operand, optional_item, span);
        self.branch(Operand::Copy(optional.dup()), body_block, exit_block, span);
        self.current = body_block;
        self.fill_present_item(cx, header, binding, optional, limit);
        self.lower_loop_body(cx, next(header.close), condition_block, exit_block, span, limit);
        self.current = exit_block;
    }
}

/// A method of an interface and its slot.
#[derive(Clone, Copy, Debug, PartialEq, Eq, Structural)]
pub struct InterfaceMethod {
    pub slot: usize,
    pub is_unsafe: bool,
}

/// The method by which an interface gives out items.
#[verifier::allow_in_spec]
pub fn next_of(program: &Program, interface: DeclarationId) -> (r: Option<InterfaceMethod>)
    returns
        match program.definition(interface) {
            Some(definition) => {
                match &definition.data {
                    DefinitionData::Interface { methods } => {
                        match find_method(methods, Name::Next) {
                            Some(method) => {
                                match interface_witness_slot(program, interface, method.id) {
                                    Some(slot) => {
                                        Some(
                                            InterfaceMethod { slot, is_unsafe: method.function.is_unsafe },
                                        )
                                    },
                                    None => None,
                                }
                            },
                            None => None,
                        }
                    },
                    _ => None,
                }
            },
            None => None,
        },
{
    match program.definition(interface) {
        Some(definition) => match &definition.data {
            DefinitionData::Interface { methods } => match find_method(methods, Name::Next) {
                Some(method) => match interface_witness_slot(program, interface, method.id) {
                    Some(slot) => Some(
                        InterfaceMethod { slot, is_unsafe: method.function.is_unsafe },
                    ),
                    None => None,
                },
                None => None,
            },
            _ => None,
        },
        None => None,
    }
}

/// What a generator returns when it is asked for its next item.
#[verifier::allow_in_spec]
pub fn next_result(optional_item: &Type, asynchronous: bool) -> (r: Type)
    returns
        if asynchronous {
            Type::Promise {
                result: Box::new(optional_item.dup()),
                error: Box::new(primitive(PrimitiveType::Never)),
                effects: List::Nil,
            }
        } else {
            optional_item.dup()
        },
{
    if asynchronous {
        Type::Promise {
            result: Box::new(optional_item.dup()),
            error: Box::new(primitive(PrimitiveType::Never)),
            effects: List::Nil,
        }
    } else {
        optional_item.dup()
    }
}

/// The item that a generator comes back with. An asynchronous one is waited for.
#[verifier::opaque]
pub open spec fn spec_awaited_item(
    st: State,
    item: Place,
    optional_item: &Type,
    asynchronous: bool,
    resume: BasicBlockId,
    exit: BasicBlockId,
    span: Span,
) -> (State, Place) {
    if !asynchronous {
        (st, item)
    } else {
        let (st, value) = spec_live(st, optional_item.dup(), span);
        let st = spec_terminate(
            st, TerminatorKind::Suspend {
                value: Operand::Move(item),
                destination: Some(whole(value)),
                error_destination: None,
                resume,
                error: None,
                cancel: exit,
            },
            span,
        );
        let st = State { current: resume, ..st };
        (st, whole(value))
    }
}

impl Builder {
    /// The item that a generator comes back with. An asynchronous one is waited for.
    pub(crate) fn awaited_item(
        &mut self,
        item: Place,
        optional_item: &Type,
        asynchronous: bool,
        resume: BasicBlockId,
        exit: BasicBlockId,
        span: Span,
    ) -> (r: Place)
        ensures
            (final(self)@, r) == spec_awaited_item(
                old(self)@,
                item,
                optional_item,
                asynchronous,
                resume,
                exit,
                span,
            ),
    {
        proof {
            reveal(spec_awaited_item);
        }
        if !asynchronous {
            return item;
        }
        let value = self.live(optional_item.dup(), span);
        self.terminate(
            TerminatorKind::Suspend {
                value: Operand::Move(item),
                destination: Some(whole(value)),
                error_destination: None,
                resume,
                error: None,
                cancel: exit,
            },
            span,
        );
        self.current = resume;
        whole(value)
    }
}

/// A loop over what a generator yields.
#[verifier::opaque]
pub open spec fn spec_lower_generator_for(
    cx: &Context,
    st: State,
    header: LoopHeader,
    iterable: Value,
    item_type: &Type,
    asynchronous: bool,
    low: Lowering,
) -> State {
    let span = cx.span_at(header.start);
    match &iterable.ty {
        Type::DynamicInterface(interface, _) => {
            let interface = *interface;
            match next_of(cx.program, interface) {
                Some(method) => {
                    let (st, generator) = spec_materialize_operand(
                        st,
                        iterable.operand,
                        iterable.ty,
                        span,
                    );
                    let (st, binding) = spec_item_local(cx, st, header, item_type.dup());
                    let (st, condition_block) = spec_new_block(st);
                    let (st, resume_block) = spec_new_block(st);
                    let (st, body_block) = spec_new_block(st);
                    let (st, exit_block) = spec_new_block(st);
                    let st = spec_terminate(st, TerminatorKind::Goto(condition_block), span);
                    let st = State { current: condition_block, ..st };
                    let optional_item = Type::Optional(Box::new(item_type.dup()));
                    let result = next_result(&optional_item, asynchronous);
                    let signature = signature_of(
                        List::Nil,
                        result.dup(),
                        List::Nil,
                        asynchronous,
                        method.is_unsafe,
                    );
                    let (st, function) = spec_computed(
                        st, Type::Function(signature.dup()),
                        Rvalue::WitnessLookup {
                            object: generator.dup(),
                            interface,
                            slot: method.slot,
                            receiver: ReceiverMode::Mutable,
                            ty: Type::Function(signature.dup()),
                        },
                        span,
                    );
                    let (st, attempt) = spec_emit_call(
                        cx,
                        st,
                        function,
                        Some(Operand::Copy(generator)),
                        &signature,
                        List::Nil,
                        header.iterable,
                    );
                    match attempt {
                        Some(item) => {
                            let (st, returned) = spec_materialize_operand(
                                st,
                                item.operand,
                                result,
                                span,
                            );
                            let (st, optional) = spec_awaited_item(
                                st,
                                returned,
                                &optional_item,
                                asynchronous,
                                resume_block,
                                exit_block,
                                span,
                            );
                            let st = spec_branch(
                                st,
                                Operand::Copy(optional.dup()),
                                body_block,
                                exit_block,
                                span,
                            );
                            let st = State { current: body_block, ..st };
                            let st = spec_fill_present_item(cx, st, header, binding, optional, low);
                            let st = spec_lower_loop_body(
                                cx,
                                st,
                                next(header.close),
                                condition_block,
                                exit_block,
                                span,
                                low,
                            );
                            let st = State { current: exit_block, ..st };
                            st
                        },
                        _ => {
                            let st = spec_lower_without_items(cx, st, header, low);
                            st
                        },
                    }
                },
                _ => {
                    let st = spec_lower_without_items(cx, st, header, low);
                    st
                },
            }
        },
        _ => {
            let st = spec_lower_without_items(cx, st, header, low);
            st
        },
    }
}

impl Builder {
    /// A loop over what a generator yields.
    pub(crate) fn lower_generator_for(
        &mut self,
        cx: &Context,
        header: LoopHeader,
        iterable: Value,
        item_type: &Type,
        asynchronous: bool,
        limit: usize,
    )
        ensures
            final(self)@ == spec_lower_generator_for(
                cx,
                old(self)@,
                header,
                iterable,
                item_type,
                asynchronous,
                lowering(limit as nat),
            ),
        decreases limit, 8nat, 0nat,
    {
        proof {
            reveal(spec_lower_generator_for);
        }
        let span = cx.span_at(header.start);
        let interface = match &iterable.ty {
            Type::DynamicInterface(interface, _) => *interface,
            _ => {
                self.lower_without_items(cx, header, limit);
                return;
            },
        };
        let Some(method) = next_of(cx.program, interface) else {
            self.lower_without_items(cx, header, limit);
            return;
        };
        let generator = self.materialize_operand(iterable.operand, iterable.ty, span);
        let binding = self.item_local(cx, header, item_type.dup());
        let condition_block = self.new_block();
        let resume_block = self.new_block();
        let body_block = self.new_block();
        let exit_block = self.new_block();
        self.terminate(TerminatorKind::Goto(condition_block), span);
        self.current = condition_block;
        let optional_item = Type::Optional(Box::new(item_type.dup()));
        let result = next_result(&optional_item, asynchronous);
        let signature = signature_of(
            List::Nil,
            result.dup(),
            List::Nil,
            asynchronous,
            method.is_unsafe,
        );
        let function = self.computed(
            Type::Function(signature.dup()),
            Rvalue::WitnessLookup {
                object: generator.dup(),
                interface,
                slot: method.slot,
                receiver: ReceiverMode::Mutable,
                ty: Type::Function(signature.dup()),
            },
            span,
        );
        let Some(item) = self.emit_call(
            cx,
            function,
            Some(Operand::Copy(generator)),
            &signature,
            List::Nil,
            header.iterable,
        ) else {
            self.lower_without_items(cx, header, limit);
            return;
        };
        let returned = self.materialize_operand(item.operand, result, span);
        let optional = self.awaited_item(
            returned,
            &optional_item,
            asynchronous,
            resume_block,
            exit_block,
            span,
        );
        self.branch(Operand::Copy(optional.dup()), body_block, exit_block, span);
        self.current = body_block;
        self.fill_present_item(cx, header, binding, optional, limit);
        self.lower_loop_body(cx, next(header.close), condition_block, exit_block, span, limit);
        self.current = exit_block;
    }
}

} // verus!
