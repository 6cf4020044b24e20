//! Statements.

use vstd::prelude::*;

use crate::hir::{
    DeclarationId, DefinitionData, HirBindingPattern, HirExpression, HirExpressionKind, Method,
    PrimitiveType, Program, Type,
};
use crate::ids::sorted_ids;
use crate::list::{cons, dup_plain, joined_plain, one, List};
use crate::lowering::bindings::{
    spec_bind_hir_local, spec_lower_binding_pattern, spec_lower_parameter_bindings, undefined,
};
use crate::lowering::builder::{
    spec_active_disposals, spec_add_local, spec_bind_hir, spec_first_span, spec_fresh_region,
    spec_innermost_loop, spec_is_open, spec_local_count, spec_local_span, spec_local_type,
    spec_manage, spec_name_count, spec_named_local, spec_new_block, spec_pop_handler,
    spec_pop_scope, spec_push_handler, spec_push_scope, spec_restore_names, spec_statement,
    spec_terminate, Builder, State,
};
use crate::lowering::constants::constant;
use crate::lowering::context::{before, behind, next, Context};
use crate::lowering::emit::{
    all_declared, converted, spec_assign, spec_branch, spec_computed, spec_continue_at,
    spec_emit_call, spec_live, spec_lower_async_disposals, type_ref, TypedPlace, Value,
};
use crate::lowering::expressions::spec_lower_await;
use crate::lowering::literals::{literal_suffix_type, suffix_type};
use crate::lowering::loops::{
    signature_of, spec_condition, spec_lower_for, spec_lower_while, written_name,
};
use crate::lowering::members::{catch_handles, constructor_of, global_type, nominal_named};
use crate::lowering::parser::parse_type_range;
use crate::lowering::recursion::{lowering, spec_here, spec_lower_sequence, Lowering};
use crate::lowering::types::{
    atom_type, binary_operand_type, is_void, mir_cast_kind, pointee_of, primitive,
    promise_effects_for_type, reference,
};
use crate::mir::{
    operand_place, whole, BasicBlockId, BinaryOperator, CastKind, Constant, LocalId, Operand,
    Projection, RawOperation, Rvalue, StatementKind, SwitchTarget, TerminatorKind,
};
use crate::names::Name;
use crate::program::find_method;
use crate::syntax::{File, Span, TokenKind};

verus! {

/// The statement at the current position.
#[verifier::opaque]
pub open spec fn spec_lower_statement(cx: &Context, st: State, low: Lowering) -> State {
    match spec_here(cx, st) {
        Some(TokenKind::LeftBrace) => spec_lower_block(cx, st, low),
        Some(TokenKind::Const | TokenKind::Let) => spec_lower_local(cx, st, low),
        Some(TokenKind::If) => spec_lower_if(cx, st, low),
        Some(TokenKind::While) => spec_lower_while(cx, st, low),
        Some(TokenKind::For) => spec_lower_for(cx, st, low),
        Some(TokenKind::Yield) => spec_lower_yield(cx, st, low),
        Some(
            TokenKind::Switch
            | TokenKind::Identifier
            | TokenKind::This
            | TokenKind::Star
            | TokenKind::Less,
        ) => {
            spec_lower_expression_statement(cx, st, low)
        },
        Some(TokenKind::Try) => {
            if cx.is(next(st.index), TokenKind::LeftBrace) {
                spec_lower_try(cx, st, low)
            } else if cx.is(next(st.index), TokenKind::Await) {
                spec_lower_suspend(cx, st, low)
            } else {
                let st = State { index: next(st.index), ..st };
                st
            }
        },
        Some(TokenKind::Unsafe) => {
            let st = State { index: next(st.index), ..st };
            (low.statement)(cx, st)
        },
        Some(TokenKind::Move) => spec_lower_explicit_move(cx, st),
        Some(TokenKind::Await) => {
            if cx.is(next(st.index), TokenKind::Using) {
                spec_lower_using(cx, st, true, low)
            } else {
                spec_lower_suspend(cx, st, low)
            }
        },
        Some(TokenKind::Return) => spec_lower_return(cx, st, low),
        Some(TokenKind::Throw) => spec_lower_throw(cx, st, low),
        Some(TokenKind::Break | TokenKind::Continue) => spec_lower_loop_control(cx, st),
        Some(TokenKind::Using) => spec_lower_using(cx, st, false, low),
        Some(_) => {
            let st = State { index: next(st.index), ..st };
            st
        },
        None => st,
    }
}

impl Builder {
    /// The statement at the current position.
    pub(crate) fn lower_statement(&mut self, cx: &Context, limit: usize)
        ensures
            final(self)@ == spec_lower_statement(cx, old(self)@, lowering(limit as nat)),
        decreases limit, 11nat, 0nat,
    {
        proof {
            reveal(spec_lower_statement);
        }
        match self.here(cx) {
            Some(TokenKind::LeftBrace) => {
                self.lower_block(cx, limit);
            },
            Some(TokenKind::Const | TokenKind::Let) => {
                self.lower_local(cx, limit);
            },
            Some(TokenKind::If) => {
                self.lower_if(cx, limit);
            },
            Some(TokenKind::While) => {
                self.lower_while(cx, limit);
            },
            Some(TokenKind::For) => {
                self.lower_for(cx, limit);
            },
            Some(TokenKind::Yield) => {
                self.lower_yield(cx, limit);
            },
            Some(
                TokenKind::Switch
                | TokenKind::Identifier
                | TokenKind::This
                | TokenKind::Star
                | TokenKind::Less,
            ) => {
                self.lower_expression_statement(cx, limit);
            },
            Some(TokenKind::Try) => {
                if cx.is(next(self.index), TokenKind::LeftBrace) {
                    self.lower_try(cx, limit);
                } else if cx.is(next(self.index), TokenKind::Await) {
                    self.lower_suspend(cx, limit);
                } else {
                    self.index = next(self.index);
                }
            },
            Some(TokenKind::Unsafe) => {
                self.index = next(self.index);
                self.source_statement(cx, limit);
            },
            Some(TokenKind::Move) => {
                self.lower_explicit_move(cx);
            },
            Some(TokenKind::Await) => {
                if cx.is(next(self.index), TokenKind::Using) {
                    self.lower_using(cx, true, limit);
                } else {
                    self.lower_suspend(cx, limit);
                }
            },
            Some(TokenKind::Return) => {
                self.lower_return(cx, limit);
            },
            Some(TokenKind::Throw) => {
                self.lower_throw(cx, limit);
            },
            Some(TokenKind::Break | TokenKind::Continue) => {
                self.lower_loop_control(cx);
            },
            Some(TokenKind::Using) => {
                self.lower_using(cx, false, limit);
            },
            Some(_) => {
                self.index = next(self.index);
            },
            None => {},
        }
    }
}

/// The end of the storage of the locals from `first` up to `end`, the last one first.
#[verifier::opaque]
pub open spec fn spec_end_locals(st: State, first: usize, end: usize) -> State
    decreases end,
{
    if first < end {
        let st = spec_statement(
            st, StatementKind::StorageDead(LocalId(before(end))),
            spec_local_span(st, before(end)),
        );
        spec_end_locals(st, first, before(end))
    } else {
        st
    }
}

impl Builder {
    /// The end of the storage of the locals from `first` up to `end`, the last one first.
    pub(crate) fn end_locals(&mut self, first: usize, end: usize)
        ensures
            final(self)@ == spec_end_locals(old(self)@, first, end),
        decreases end,
    {
        proof {
            reveal_with_fuel(spec_end_locals, 2);
        }
        if first < end {
            self.statement(
                StatementKind::StorageDead(LocalId(before(end))),
                self.local_span(before(end)),
            );
            self.end_locals(first, before(end));
        }
    }
}

/// A block: its managed locals are disposed of, and its locals end with it.
#[verifier::opaque]
pub open spec fn spec_lower_block(cx: &Context, st: State, low: Lowering) -> State {
    let names: usize = spec_name_count(st);
    let first: usize = spec_local_count(st);
    let st = spec_push_scope(st);
    let st = State { index: next(st.index), ..st };
    let st = spec_lower_sequence(cx, st, Some(TokenKind::RightBrace), low);
    let (st, managed) = spec_pop_scope(st);
    let st = if spec_is_open(st) {
        spec_lower_async_disposals(cx, st, &managed)
    } else {
        st
    };
    let st = spec_end_locals(st, first, spec_local_count(st));
    let st = spec_restore_names(st, names);
    if spec_here(cx, st) == Some(TokenKind::RightBrace) {
        let st = State { index: next(st.index), ..st };
        st
    } else {
        st
    }
}

impl Builder {
    /// A block: its managed locals are disposed of, and its locals end with it.
    pub(crate) fn lower_block(&mut self, cx: &Context, limit: usize)
        ensures
            final(self)@ == spec_lower_block(cx, old(self)@, lowering(limit as nat)),
        decreases limit, 2nat, 0nat,
    {
        proof {
            reveal(spec_lower_block);
        }
        let names: usize = self.name_count();
        let first: usize = self.local_count();
        self.push_scope();
        self.index = next(self.index);
        self.lower_sequence(cx, Some(TokenKind::RightBrace), limit);
        let managed = self.pop_scope();
        if self.is_open() {
            self.lower_async_disposals(cx, &managed);
        }
        self.end_locals(first, self.local_count());
        self.restore_names(names);
        if self.here(cx) == Some(TokenKind::RightBrace) {
            self.index = next(self.index);
        }
    }
}

/// A choice between two statements, the second of which may be missing.
#[verifier::opaque]
pub open spec fn spec_lower_if(cx: &Context, st: State, low: Lowering) -> State {
    let start: usize = st.index;
    let span = cx.span_at(start);
    match cx.matching_token(next(start), TokenKind::LeftParen, TokenKind::RightParen) {
        Some(close) => {
            let (st, condition) = spec_condition(cx, st, behind(start, 2), close, low);
            let st = State { index: next(close), ..st };
            let (st, then_block) = spec_new_block(st);
            let (st, else_block) = spec_new_block(st);
            let (st, join_block) = spec_new_block(st);
            let st = spec_branch(st, condition, then_block, else_block, span);
            let st = State { current: then_block, ..st };
            let st = (low.statement)(cx, st);
            let st = spec_continue_at(st, join_block, span);
            let st = State { current: else_block, ..st };
            let st = if spec_here(cx, st) == Some(TokenKind::Else) {
                let st = State { index: next(st.index), ..st };
                (low.statement)(cx, st)
            } else {
                st
            };
            let st = spec_continue_at(st, join_block, span);
            let st = State { current: join_block, ..st };
            st
        },
        _ => {
            let st = State { index: next(start), ..st };
            st
        },
    }
}

impl Builder {
    /// A choice between two statements, the second of which may be missing.
    pub(crate) fn lower_if(&mut self, cx: &Context, limit: usize)
        ensures
            final(self)@ == spec_lower_if(cx, old(self)@, lowering(limit as nat)),
        decreases limit, 2nat, 0nat,
    {
        proof {
            reveal(spec_lower_if);
        }
        let start: usize = self.index;
        let span = cx.span_at(start);
        let Some(close) = cx.matching_token(
            next(start),
            TokenKind::LeftParen,
            TokenKind::RightParen,
        ) else {
            self.index = next(start);
            return;
        };
        let condition = self.condition(cx, behind(start, 2), close, limit);
        self.index = next(close);
        let then_block = self.new_block();
        let else_block = self.new_block();
        let join_block = self.new_block();
        self.branch(condition, then_block, else_block, span);
        self.current = then_block;
        self.source_statement(cx, limit);
        self.continue_at(join_block, span);
        self.current = else_block;
        if self.here(cx) == Some(TokenKind::Else) {
            self.index = next(self.index);
            self.source_statement(cx, limit);
        }
        self.continue_at(join_block, span);
        self.current = join_block;
    }
}

/// The method of a class with a name.
#[verifier::opaque]
pub open spec fn spec_class_method<'a>(
    program: &'a Program,
    class: DeclarationId,
    name: Name,
) -> Option<&'a Method> {
    match program.definition(class) {
        Some(definition) => {
            match &definition.data {
                DefinitionData::Class { methods, .. } => find_method(methods, name),
                _ => None,
            }
        },
        None => None,
    }
}

/// The method of a class with a name.
#[verifier::allow_in_spec]
pub fn class_method<'a>(
    program: &'a Program,
    class: DeclarationId,
    name: Name,
) -> (r: Option<&'a Method>)
    returns
        spec_class_method(program, class, name),
{
    proof {
        reveal(spec_class_method);
    }
    match program.definition(class) {
        Some(definition) => match &definition.data {
            DefinitionData::Class { methods, .. } => find_method(methods, name),
            _ => None,
        },
        None => None,
    }
}

/// A generator's buffer gets a value.
#[verifier::opaque]
pub open spec fn spec_push_yielded(
    cx: &Context,
    st: State,
    buffer: LocalId,
    value: Operand,
    item_type: &Type,
    start: usize,
) -> State {
    let span = cx.span_at(start);
    match spec_local_type(st, buffer) {
        Some(Type::Nominal(array, arguments)) => {
            match spec_class_method(cx.program, array, Name::Push) {
                Some(push) => {
                    let element = match arguments {
                        List::Cons(head, _) => *head,
                        List::Nil => item_type.dup(),
                    };
                    let signature = signature_of(
                        one(element),
                        primitive(PrimitiveType::Void),
                        dup_plain(&push.function.effects),
                        false,
                        push.function.is_unsafe,
                    );
                    let (st, method) = spec_computed(
                        st, Type::Function(signature.dup()),
                        Rvalue::DirectMethod {
                            object: whole(buffer),
                            implementation: array,
                            member: push.id,
                            receiver: crate::hir::ReceiverMode::Mutable,
                            ty: Type::Function(signature.dup()),
                        },
                        span,
                    );
                    spec_emit_call(
                        cx,
                        st,
                        method,
                        Some(Operand::Copy(whole(buffer))),
                        &signature,
                        one(value),
                        start,
                    ).0
                },
                _ => st,
            }
        },
        _ => st,
    }
}

impl Builder {
    /// A generator's buffer gets a value.
    pub(crate) fn push_yielded(
        &mut self,
        cx: &Context,
        buffer: LocalId,
        value: Operand,
        item_type: &Type,
        start: usize,
    )
        ensures
            final(self)@ == spec_push_yielded(
                cx,
                old(self)@,
                buffer,
                value,
                item_type,
                start,
            ),
    {
        proof {
            reveal(spec_push_yielded);
        }
        let span = cx.span_at(start);
        let Some(Type::Nominal(array, arguments)) = self.local_type(buffer) else {
            return;
        };
        let Some(push) = class_method(cx.program, array, Name::Push) else {
            return;
        };
        let element = match arguments {
            List::Cons(head, _) => *head,
            List::Nil => item_type.dup(),
        };
        let signature = signature_of(
            one(element),
            primitive(PrimitiveType::Void),
            dup_plain(&push.function.effects),
            false,
            push.function.is_unsafe,
        );
        let method = self.computed(
            Type::Function(signature.dup()),
            Rvalue::DirectMethod {
                object: whole(buffer),
                implementation: array,
                member: push.id,
                receiver: crate::hir::ReceiverMode::Mutable,
                ty: Type::Function(signature.dup()),
            },
            span,
        );
        let _ = self.emit_call(
            cx,
            method,
            Some(Operand::Copy(whole(buffer))),
            &signature,
            one(value),
            start,
        );
    }
}

/// The value that a generator yields.
#[verifier::opaque]
pub open spec fn spec_lower_yielded(
    cx: &Context,
    st: State,
    start: usize,
    end: usize,
    low: Lowering,
) -> State {
    match &cx.generator_item_type {
        Some(item_type) => {
            match st.buffer {
                Some(buffer) => {
                    let (st, attempt) = (low.expression)(cx, st, next(start), end, Some(item_type));
                    match attempt {
                        Some(value) => {
                            spec_push_yielded(cx, st, buffer, value.operand, item_type, start)
                        },
                        _ => st,
                    }
                },
                _ => st,
            }
        },
        _ => st,
    }
}

impl Builder {
    /// The value that a generator yields.
    pub(crate) fn lower_yielded(&mut self, cx: &Context, start: usize, end: usize, limit: usize)
        ensures
            final(self)@ == spec_lower_yielded(
                cx,
                old(self)@,
                start,
                end,
                lowering(limit as nat),
            ),
        decreases limit, 1nat, 0nat,
    {
        proof {
            reveal(spec_lower_yielded);
        }
        let Some(item_type) = &cx.generator_item_type else {
            return;
        };
        let Some(buffer) = self.buffer else {
            return;
        };
        let Some(value) = self.expression(cx, next(start), end, Some(item_type), limit) else {
            return;
        };
        self.push_yielded(cx, buffer, value.operand, item_type, start);
    }
}

/// A statement that yields a value.
#[verifier::opaque]
pub open spec fn spec_lower_yield(cx: &Context, st: State, low: Lowering) -> State {
    let start: usize = st.index;
    let end: usize = cx.statement_end(start);
    let st = spec_lower_yielded(cx, st, start, end, low);
    let st = State { index: cx.past(end), ..st };
    st
}

impl Builder {
    /// A statement that yields a value.
    pub(crate) fn lower_yield(&mut self, cx: &Context, limit: usize)
        ensures
            final(self)@ == spec_lower_yield(cx, old(self)@, lowering(limit as nat)),
        decreases limit, 2nat, 0nat,
    {
        proof {
            reveal(spec_lower_yield);
        }
        let start: usize = self.index;
        let end: usize = cx.statement_end(start);
        self.lower_yielded(cx, start, end, limit);
        self.index = cx.past(end);
    }
}

/// A clause that catches errors of a type.
#[derive(Debug, PartialEq, Eq)]
pub struct CatchArm {
    pub binding: usize,
    pub ty: Type,
    pub block_start: usize,
    pub block_end: usize,
}

/// The clause at a position that catches errors.
#[verifier::opaque]
pub open spec fn spec_catch_arm(cx: &Context, start: usize) -> Option<CatchArm> {
    if !cx.is(start, TokenKind::Catch) {
        None
    } else {
        let open: usize = next(start);
        match cx.matching_token(open, TokenKind::LeftParen, TokenKind::RightParen) {
            Some(close) => {
                let binding: usize = next(open);
                match cx.find_top_level(next(binding), close, TokenKind::Colon) {
                    Some(colon) => {
                        match parse_type_range(cx, next(colon), close) {
                            Some(ty) => {
                                let block_start: usize = next(close);
                                match cx.matching_token(
                                    block_start,
                                    TokenKind::LeftBrace,
                                    TokenKind::RightBrace,
                                ) {
                                    Some(block_end) => {
                                        Some(CatchArm { binding, ty, block_start, block_end })
                                    },
                                    _ => None,
                                }
                            },
                            _ => None,
                        }
                    },
                    _ => None,
                }
            },
            _ => None,
        }
    }
}

/// The clause at a position that catches errors.
#[verifier::allow_in_spec]
pub fn catch_arm(cx: &Context, start: usize) -> (r: Option<CatchArm>)
    returns
        spec_catch_arm(cx, start),
{
    proof {
        reveal(spec_catch_arm);
    }
    if !cx.is(start, TokenKind::Catch) {
        return None;
    }
    let open: usize = next(start);
    let Some(close) = cx.matching_token(open, TokenKind::LeftParen, TokenKind::RightParen) else {
        return None;
    };
    let binding: usize = next(open);
    let Some(colon) = cx.find_top_level(next(binding), close, TokenKind::Colon) else {
        return None;
    };
    let Some(ty) = parse_type_range(cx, next(colon), close) else {
        return None;
    };
    let block_start: usize = next(close);
    let Some(block_end) = cx.matching_token(
        block_start,
        TokenKind::LeftBrace,
        TokenKind::RightBrace,
    ) else {
        return None;
    };
    Some(CatchArm { binding, ty, block_start, block_end })
}

/// The clauses from a position on that catch errors, up to the first that cannot be read.
pub open spec fn spec_catch_arms(cx: &Context, start: usize) -> List<CatchArm>
    decreases cx.count.saturating_sub(start),
{
    if start >= cx.count {
        List::Nil
    } else {
        match spec_catch_arm(cx, start) {
            Some(arm) => {
                let behind_arm: usize = next(arm.block_end);
                if behind_arm <= start {
                    one(arm)
                } else {
                    cons(arm, spec_catch_arms(cx, behind_arm))
                }
            },
            _ => List::Nil,
        }
    }
}

/// The clauses from a position on that catch errors, up to the first that cannot be read.
#[verifier::allow_in_spec]
pub fn catch_arms(cx: &Context, start: usize) -> (r: List<CatchArm>)
    returns
        spec_catch_arms(cx, start),
    decreases cx.count.saturating_sub(start),
{
    proof {
        reveal_with_fuel(spec_catch_arms, 2);
    }
    if start >= cx.count {
        return List::Nil;
    }
    let Some(arm) = catch_arm(cx, start) else {
        return List::Nil;
    };
    let behind_arm: usize = next(arm.block_end);
    if behind_arm <= start {
        return one(arm);
    }
    cons(arm, catch_arms(cx, behind_arm))
}

/// The position behind the last clause.
pub open spec fn spec_behind_catches(catches: &List<CatchArm>, otherwise: usize) -> usize
    decreases catches,
{
    match catches {
        List::Nil => otherwise,
        List::Cons(head, tail) => spec_behind_catches(tail, next(head.block_end)),
    }
}

/// The position behind the last clause.
#[verifier::allow_in_spec]
pub fn behind_catches(catches: &List<CatchArm>, otherwise: usize) -> (r: usize)
    returns
        spec_behind_catches(catches, otherwise),
    decreases catches,
{
    proof {
        reveal_with_fuel(spec_behind_catches, 2);
    }
    match catches {
        List::Nil => otherwise,
        List::Cons(head, tail) => behind_catches(tail, next(head.block_end)),
    }
}

/// The errors of what a type calls.
#[verifier::allow_in_spec]
pub fn function_effects(ty: &Type) -> (r: List<DeclarationId>)
    returns
        match ty {
            Type::Function(function) => dup_plain(&function.effects),
            _ => List::Nil,
        },
{
    match ty {
        Type::Function(function) => dup_plain(&function.effects),
        _ => List::Nil,
    }
}

/// The errors of the expressions in a range of bytes, before others.
pub open spec fn effects_between_from(
    expressions: Seq<HirExpression>,
    effects: List<DeclarationId>,
    program: &Program,
    start: u32,
    end: u32,
    from: nat,
) -> List<DeclarationId>
    decreases expressions.len() - from,
{
    if from >= expressions.len() {
        effects
    } else {
        let item = &expressions[from as int];
        let folded = {
            if item.origin.byte_start >= start && item.origin.byte_end <= end {
                joined_plain(
                    &item.effects,
                    joined_plain(
                        &function_effects(&item.ty),
                        joined_plain(&promise_effects_for_type(program, &item.ty), effects),
                    ),
                )
            } else {
                effects
            }
        };
        effects_between_from(expressions, folded, program, start, end, from + 1)
    }
}

/// The errors of the expressions in a range of bytes, before others.
#[verifier::allow_in_spec]
pub fn effects_between(
    expressions: &Vec<HirExpression>,
    effects: List<DeclarationId>,
    program: &Program,
    start: u32,
    end: u32,
) -> (r: List<DeclarationId>)
    returns
        effects_between_from(expressions@, effects, program, start, end, 0),
{
    let ghost given = effects;
    let mut effects = effects;
    let mut index: usize = 0;
    while index < expressions.len()
        invariant
            effects_between_from(expressions@, given, program, start, end, 0)
                == effects_between_from(expressions@, effects, program, start, end, index as nat),
        decreases expressions.len() - index,
    {
        let item = &expressions[index];
        let folded = {
            if item.origin.byte_start >= start && item.origin.byte_end <= end {
                joined_plain(
                    &item.effects,
                    joined_plain(
                        &function_effects(&item.ty),
                        joined_plain(&promise_effects_for_type(program, &item.ty), effects),
                    ),
                )
            } else {
                effects
            }
        };
        effects = folded;
        index = index + 1;
    }
    effects
}

/// The errors of the expressions between two tokens.
#[verifier::opaque]
pub open spec fn spec_effects_of_tokens(
    cx: &Context,
    first: usize,
    last: usize,
) -> List<DeclarationId> {
    let start: u32 = match cx.token(first) {
        Some(token) => token.start,
        None => u32::MAX,
    };
    let end: u32 = match cx.token(last) {
        Some(token) => token.end,
        None => 0,
    };
    sorted_ids(&effects_between(&cx.hir.expressions, List::Nil, cx.program, start, end))
}

/// The errors of the expressions between two tokens.
#[verifier::allow_in_spec]
pub fn effects_of_tokens(cx: &Context, first: usize, last: usize) -> (r: List<DeclarationId>)
    returns
        spec_effects_of_tokens(cx, first, last),
{
    proof {
        reveal(spec_effects_of_tokens);
    }
    let start: u32 = match cx.token(first) {
        Some(token) => token.start,
        None => u32::MAX,
    };
    let end: u32 = match cx.token(last) {
        Some(token) => token.end,
        None => 0,
    };
    sorted_ids(&effects_between(&cx.hir.expressions, List::Nil, cx.program, start, end))
}

/// A block for each clause.
#[verifier::opaque]
pub open spec fn spec_catch_blocks(
    st: State,
    catches: &List<CatchArm>,
) -> (State, List<BasicBlockId>)
    decreases catches,
{
    match catches {
        List::Nil => (st, List::Nil),
        List::Cons(_, tail) => {
            let (st, block) = spec_new_block(st);
            let (st, rest) = spec_catch_blocks(st, tail);
            (st, cons(block, rest))
        },
    }
}

impl Builder {
    /// A block for each clause.
    pub(crate) fn catch_blocks(&mut self, catches: &List<CatchArm>) -> (r: List<BasicBlockId>)
        ensures
            (final(self)@, r) == spec_catch_blocks(old(self)@, catches),
        decreases catches,
    {
        proof {
            reveal_with_fuel(spec_catch_blocks, 2);
        }
        match catches {
            List::Nil => List::Nil,
            List::Cons(_, tail) => {
                let block = self.new_block();
                let rest = self.catch_blocks(tail);
                cons(block, rest)
            },
        }
    }
}

/// The block of the first clause that catches an error.
pub open spec fn spec_catching_block(
    program: &Program,
    catches: &List<CatchArm>,
    blocks: &List<BasicBlockId>,
    effect: DeclarationId,
) -> Option<BasicBlockId>
    decreases catches,
{
    match (catches, blocks) {
        (List::Cons(arm, arms), List::Cons(block, rest)) => {
            if catch_handles(program, &arm.ty, effect) {
                Some(**block)
            } else {
                spec_catching_block(program, arms, rest, effect)
            }
        },
        _ => None,
    }
}

/// The block of the first clause that catches an error.
#[verifier::allow_in_spec]
pub fn catching_block(
    program: &Program,
    catches: &List<CatchArm>,
    blocks: &List<BasicBlockId>,
    effect: DeclarationId,
) -> (r: Option<BasicBlockId>)
    returns
        spec_catching_block(program, catches, blocks, effect),
    decreases catches,
{
    proof {
        reveal_with_fuel(spec_catching_block, 2);
    }
    match (catches, blocks) {
        (List::Cons(arm, arms), List::Cons(block, rest)) => {
            if catch_handles(program, &arm.ty, effect) {
                Some(**block)
            } else {
                catching_block(program, arms, rest, effect)
            }
        },
        _ => None,
    }
}

/// The blocks that errors are caught in, where the errors are numbered from `tag` on.
pub open spec fn spec_catch_targets(
    program: &Program,
    effects: &List<DeclarationId>,
    catches: &List<CatchArm>,
    blocks: &List<BasicBlockId>,
    tag: u128,
) -> List<SwitchTarget>
    decreases effects,
{
    match effects {
        List::Nil => List::Nil,
        List::Cons(effect, tail) => {
            let rest = spec_catch_targets(program, tail, catches, blocks, tag.saturating_add(1));
            match spec_catching_block(program, catches, blocks, **effect) {
                Some(block) => cons(SwitchTarget { value: tag, block }, rest),
                None => rest,
            }
        },
    }
}

/// The blocks that errors are caught in, where the errors are numbered from `tag` on.
#[verifier::allow_in_spec]
pub fn catch_targets(
    program: &Program,
    effects: &List<DeclarationId>,
    catches: &List<CatchArm>,
    blocks: &List<BasicBlockId>,
    tag: u128,
) -> (r: List<SwitchTarget>)
    returns
        spec_catch_targets(program, effects, catches, blocks, tag),
    decreases effects,
{
    proof {
        reveal_with_fuel(spec_catch_targets, 2);
    }
    match effects {
        List::Nil => List::Nil,
        List::Cons(effect, tail) => {
            let rest = catch_targets(program, tail, catches, blocks, tag.saturating_add(1));
            match catching_block(program, catches, blocks, **effect) {
                Some(block) => cons(SwitchTarget { value: tag, block }, rest),
                None => rest,
            }
        },
    }
}

/// The clauses with their blocks.
#[verifier::opaque]
pub open spec fn spec_lower_catches(
    cx: &Context,
    st: State,
    catches: &List<CatchArm>,
    blocks: &List<BasicBlockId>,
    payload: LocalId,
    join: BasicBlockId,
    span: Span,
    low: Lowering,
) -> State
    decreases catches,
{
    match (catches, blocks) {
        (List::Cons(arm, arms), List::Cons(block, rest)) => {
            let st = State { current: **block, ..st };
            let binding = cx.span_at(arm.binding);
            let (st, local) = spec_add_local(
                st, written_name(cx, arm.binding),
                arm.ty.dup(),
                false,
                false,
                binding,
            );
            let st = spec_bind_hir_local(cx, st, arm.binding, local);
            let st = spec_statement(st, StatementKind::StorageLive(local), binding);
            let st = spec_assign(
                st,
                local,
                Rvalue::Cast {
                    operand: Operand::Move(whole(payload)),
                    ty: arm.ty.dup(),
                    kind: CastKind::CheckedDowncast,
                },
                binding,
            );
            let st = State { index: arm.block_start, ..st };
            let st = (low.statement)(cx, st);
            let st = spec_continue_at(st, join, span);
            spec_lower_catches(cx, st, arms, rest, payload, join, span, low)
        },
        _ => st,
    }
}

impl Builder {
    /// The clauses with their blocks.
    pub(crate) fn lower_catches(
        &mut self,
        cx: &Context,
        catches: &List<CatchArm>,
        blocks: &List<BasicBlockId>,
        payload: LocalId,
        join: BasicBlockId,
        span: Span,
        limit: usize,
    )
        ensures
            final(self)@ == spec_lower_catches(
                cx,
                old(self)@,
                catches,
                blocks,
                payload,
                join,
                span,
                lowering(limit as nat),
            ),
        decreases limit, 2nat, catches.seq().len(),
    {
        proof {
            reveal_with_fuel(spec_lower_catches, 2);
        }
        match (catches, blocks) {
            (List::Cons(arm, arms), List::Cons(block, rest)) => {
                self.current = **block;
                let binding = cx.span_at(arm.binding);
                let local = self.add_local(
                    written_name(cx, arm.binding),
                    arm.ty.dup(),
                    false,
                    false,
                    binding,
                );
                self.bind_hir_local(cx, arm.binding, local);
                self.statement(StatementKind::StorageLive(local), binding);
                self.assign(
                    local,
                    Rvalue::Cast {
                        operand: Operand::Move(whole(payload)),
                        ty: arm.ty.dup(),
                        kind: CastKind::CheckedDowncast,
                    },
                    binding,
                );
                self.index = arm.block_start;
                self.source_statement(cx, limit);
                self.continue_at(join, span);
                self.lower_catches(cx, arms, rest, payload, join, span, limit);
            },
            _ => {},
        }
    }
}

/// A block whose errors are caught.
#[verifier::opaque]
pub open spec fn spec_lower_try(cx: &Context, st: State, low: Lowering) -> State {
    let start: usize = st.index;
    let span = cx.span_at(start);
    let block_start: usize = next(start);
    match cx.matching_token(block_start, TokenKind::LeftBrace, TokenKind::RightBrace) {
        Some(block_end) => {
            let catches = spec_catch_arms(cx, next(block_end));
            let effects = spec_effects_of_tokens(cx, block_start, block_end);
            let (st, payload) = spec_live(st, Type::ErrorUnion(dup_plain(&effects)), span);
            let (st, dispatch) = spec_new_block(st);
            let (st, join) = spec_new_block(st);
            let (st, blocks) = spec_catch_blocks(st, &catches);
            let st = spec_push_handler(st, dispatch, payload, dup_plain(&effects));
            let st = State { index: block_start, ..st };
            let st = (low.statement)(cx, st);
            let st = spec_pop_handler(st);
            let st = spec_continue_at(st, join, span);
            let st = State { current: dispatch, ..st };
            let (st, otherwise) = spec_new_block(st);
            let st = spec_terminate(
                st, TerminatorKind::Switch {
                    value: Operand::Copy(whole(payload)),
                    targets: spec_catch_targets(cx.program, &effects, &catches, &blocks, 0),
                    otherwise,
                },
                span,
            );
            let st = spec_lower_catches(cx, st, &catches, &blocks, payload, join, span, low);
            let st = State { current: otherwise, ..st };
            let st = if all_declared(cx, &effects) {
                spec_terminate(st, TerminatorKind::Throw(Operand::Move(whole(payload))), span)
            } else {
                spec_terminate(st, TerminatorKind::Unreachable, span)
            };
            let st = State { current: join, ..st };
            let st = State { index: spec_behind_catches(&catches, next(block_end)), ..st };
            st
        },
        _ => {
            let st = State { index: next(start), ..st };
            st
        },
    }
}

impl Builder {
    /// A block whose errors are caught.
    pub(crate) fn lower_try(&mut self, cx: &Context, limit: usize)
        ensures
            final(self)@ == spec_lower_try(cx, old(self)@, lowering(limit as nat)),
        decreases limit, 3nat, 0nat,
    {
        proof {
            reveal(spec_lower_try);
        }
        let start: usize = self.index;
        let span = cx.span_at(start);
        let block_start: usize = next(start);
        let Some(block_end) = cx.matching_token(
            block_start,
            TokenKind::LeftBrace,
            TokenKind::RightBrace,
        ) else {
            self.index = next(start);
            return;
        };
        let catches = catch_arms(cx, next(block_end));
        let effects = effects_of_tokens(cx, block_start, block_end);
        let payload = self.live(Type::ErrorUnion(dup_plain(&effects)), span);
        let dispatch = self.new_block();
        let join = self.new_block();
        let blocks = self.catch_blocks(&catches);
        self.push_handler(dispatch, payload, dup_plain(&effects));
        self.index = block_start;
        self.source_statement(cx, limit);
        self.pop_handler();
        self.continue_at(join, span);
        self.current = dispatch;
        let otherwise = self.new_block();
        self.terminate(
            TerminatorKind::Switch {
                value: Operand::Copy(whole(payload)),
                targets: catch_targets(cx.program, &effects, &catches, &blocks, 0),
                otherwise,
            },
            span,
        );
        self.lower_catches(cx, &catches, &blocks, payload, join, span, limit);
        self.current = otherwise;
        if all_declared(cx, &effects) {
            self.terminate(TerminatorKind::Throw(Operand::Move(whole(payload))), span);
        } else {
            self.terminate(TerminatorKind::Unreachable, span);
        }
        self.current = join;
        self.index = behind_catches(&catches, next(block_end));
    }
}

/// A jump out of the innermost loop, or to its next round.
#[verifier::opaque]
pub open spec fn spec_lower_loop_control(cx: &Context, st: State) -> State {
    let start: usize = st.index;
    let st = if let Some(target) = spec_innermost_loop(st) {
        let managed = spec_active_disposals(st, target.scope_depth);
        let st = spec_lower_async_disposals(cx, st, &managed);
        let block = if cx.is(start, TokenKind::Break) {
            target.exit
        } else {
            target.next
        };
        spec_continue_at(st, block, cx.span_at(start))
    } else {
        st
    };
    let st = State { index: next(start), ..st };
    if spec_here(cx, st) == Some(TokenKind::Semicolon) {
        let st = State { index: next(st.index), ..st };
        st
    } else {
        st
    }
}

impl Builder {
    /// A jump out of the innermost loop, or to its next round.
    pub(crate) fn lower_loop_control(&mut self, cx: &Context)
        ensures
            final(self)@ == spec_lower_loop_control(cx, old(self)@),
    {
        proof {
            reveal(spec_lower_loop_control);
        }
        let start: usize = self.index;
        if let Some(target) = self.innermost_loop() {
            let managed = self.active_disposals(target.scope_depth);
            self.lower_async_disposals(cx, &managed);
            let block = if cx.is(start, TokenKind::Break) {
                target.exit
            } else {
                target.next
            };
            self.continue_at(block, cx.span_at(start));
        }
        self.index = next(start);
        if self.here(cx) == Some(TokenKind::Semicolon) {
            self.index = next(self.index);
        }
    }
}

/// How an initializer uses a local.
#[derive(Clone, Copy, Debug, PartialEq, Eq, Structural)]
pub enum InitializerKind {
    Borrow { mutable: bool },
    Copy,
    Move,
}

/// A local that an initializer reads.
#[derive(Clone, Copy, Debug, PartialEq, Eq, Structural)]
pub struct InitializerSource {
    pub kind: InitializerKind,
    pub local: LocalId,
    pub span: Span,
}

/// The type of an initializer, and the local it is made of if it is no more than one.
pub struct Initializer {
    pub ty: Type,
    pub source: Option<InitializerSource>,
}

/// The local that is named at a position.
#[verifier::opaque]
pub open spec fn spec_local_at(cx: &Context, st: State, index: usize) -> Option<LocalId> {
    match cx.name_at(index) {
        Some(name) => spec_named_local(st, name),
        None => None,
    }
}

impl Builder {
    /// The local that is named at a position.
    pub(crate) fn local_at(&self, cx: &Context, index: usize) -> (r: Option<LocalId>)
        ensures
            r == spec_local_at(cx, self@, index),
    {
        proof {
            reveal(spec_local_at);
        }
        match cx.name_at(index) {
            Some(name) => self.named_local(name),
            None => None,
        }
    }
}

/// The type of a local, or an error.
#[verifier::opaque]
pub open spec fn spec_type_of_local(st: State, local: LocalId) -> Type {
    match spec_local_type(st, local) {
        Some(ty) => ty,
        None => Type::Error,
    }
}

impl Builder {
    /// The type of a local, or an error.
    pub(crate) fn type_of_local(&self, local: LocalId) -> (r: Type)
        ensures
            r == spec_type_of_local(self@, local),
    {
        proof {
            reveal(spec_type_of_local);
        }
        match self.local_type(local) {
            Some(ty) => ty,
            None => Type::Error,
        }
    }
}

/// An initializer that nothing is known of.
#[verifier::allow_in_spec]
pub fn unknown_initializer() -> (r: Initializer)
    returns
        (Initializer { ty: Type::Error, source: None }),
{
    Initializer { ty: Type::Error, source: None }
}

/// The initializer that borrows a local, if the one behind a position does.
#[verifier::opaque]
pub open spec fn spec_borrow_initializer(
    cx: &Context,
    st: State,
    equal: usize,
    end: usize,
) -> Option<Initializer> {
    let mutable = cx.is(behind(equal, 2), TokenKind::Mut);
    let name: usize = if mutable {
        behind(equal, 3)
    } else {
        behind(equal, 2)
    };
    if next(name) != end {
        Some(unknown_initializer())
    } else {
        match spec_local_at(cx, st, name) {
            Some(local) => {
                Some(
                    Initializer {
                        ty: reference(mutable, Name::Scope, spec_type_of_local(st, local)),
                        source: Some(
                            InitializerSource {
                                kind: InitializerKind::Borrow { mutable },
                                local,
                                span: cx.span_at(next(equal)),
                            },
                        ),
                    },
                )
            },
            None => None,
        }
    }
}

impl Builder {
    /// The initializer that borrows a local, if the one behind a position does.
    pub(crate) fn borrow_initializer(
        &self,
        cx: &Context,
        equal: usize,
        end: usize,
    ) -> (r: Option<Initializer>)
        ensures
            r == spec_borrow_initializer(cx, self@, equal, end),
    {
        proof {
            reveal(spec_borrow_initializer);
        }
        let mutable = cx.is(behind(equal, 2), TokenKind::Mut);
        let name: usize = if mutable {
            behind(equal, 3)
        } else {
            behind(equal, 2)
        };
        if next(name) != end {
            return Some(unknown_initializer());
        }
        match self.local_at(cx, name) {
            Some(local) => Some(
                Initializer {
                    ty: reference(mutable, Name::Scope, self.type_of_local(local)),
                    source: Some(
                        InitializerSource {
                            kind: InitializerKind::Borrow { mutable },
                            local,
                            span: cx.span_at(next(equal)),
                        },
                    ),
                },
            ),
            None => None,
        }
    }
}

/// The initializer that moves a local, if the one behind a position does.
#[verifier::opaque]
pub open spec fn spec_move_initializer(
    cx: &Context,
    st: State,
    equal: usize,
    end: usize,
) -> Option<Initializer> {
    if behind(equal, 3) != end {
        Some(unknown_initializer())
    } else {
        match spec_local_at(cx, st, behind(equal, 2)) {
            Some(local) => {
                Some(
                    Initializer {
                        ty: spec_type_of_local(st, local),
                        source: Some(
                            InitializerSource {
                                kind: InitializerKind::Move,
                                local,
                                span: cx.span_at(next(equal)),
                            },
                        ),
                    },
                )
            },
            None => None,
        }
    }
}

impl Builder {
    /// The initializer that moves a local, if the one behind a position does.
    pub(crate) fn move_initializer(
        &self,
        cx: &Context,
        equal: usize,
        end: usize,
    ) -> (r: Option<Initializer>)
        ensures
            r == spec_move_initializer(cx, self@, equal, end),
    {
        proof {
            reveal(spec_move_initializer);
        }
        if behind(equal, 3) != end {
            return Some(unknown_initializer());
        }
        match self.local_at(cx, behind(equal, 2)) {
            Some(local) => Some(
                Initializer {
                    ty: self.type_of_local(local),
                    source: Some(
                        InitializerSource {
                            kind: InitializerKind::Move,
                            local,
                            span: cx.span_at(next(equal)),
                        },
                    ),
                },
            ),
            None => None,
        }
    }
}

/// The initializer that is the name of a local, if the one behind a position is.
#[verifier::opaque]
pub open spec fn spec_name_initializer(
    cx: &Context,
    st: State,
    equal: usize,
    end: usize,
) -> Option<Initializer> {
    if behind(equal, 2) != end {
        None
    } else {
        match spec_local_at(cx, st, next(equal)) {
            Some(local) => {
                let ty = spec_type_of_local(st, local);
                let kind = if cx.facts.is_copy(&ty) {
                    InitializerKind::Copy
                } else {
                    InitializerKind::Move
                };
                Some(
                    Initializer {
                        ty,
                        source: Some(
                            InitializerSource { kind, local, span: cx.span_at(next(equal)) },
                        ),
                    },
                )
            },
            None => None,
        }
    }
}

impl Builder {
    /// The initializer that is the name of a local, if the one behind a position is.
    pub(crate) fn name_initializer(
        &self,
        cx: &Context,
        equal: usize,
        end: usize,
    ) -> (r: Option<Initializer>)
        ensures
            r == spec_name_initializer(cx, self@, equal, end),
    {
        proof {
            reveal(spec_name_initializer);
        }
        if behind(equal, 2) != end {
            return None;
        }
        match self.local_at(cx, next(equal)) {
            Some(local) => {
                let ty = self.type_of_local(local);
                let kind = if cx.facts.is_copy(&ty) {
                    InitializerKind::Copy
                } else {
                    InitializerKind::Move
                };
                Some(
                    Initializer {
                        ty,
                        source: Some(
                            InitializerSource { kind, local, span: cx.span_at(next(equal)) },
                        ),
                    },
                )
            },
            None => None,
        }
    }
}

/// The type that the literal at a position has by itself.
#[verifier::allow_in_spec]
pub fn literal_type(cx: &Context, index: usize) -> (r: Type)
    returns
        match cx.token(index) {
            Some(token) => match literal_type_of(token.text@, token.kind) {
                Some(ty) => ty,
                None => atom_type(token.kind),
            },
            None => Type::Error,
        },
{
    match cx.token(index) {
        Some(token) => match literal_suffix_type(token.text.as_str(), token.kind) {
            Some(ty) => ty,
            None => atom_type(token.kind),
        },
        None => Type::Error,
    }
}

/// The type that the suffix of a literal names.
pub open spec fn literal_type_of(text: Seq<char>, kind: TokenKind) -> Option<Type> {
    if kind == TokenKind::IntegerLiteral || kind == TokenKind::FloatLiteral {
        match suffix_type(text) {
            Some(primitive) => Some(Type::Primitive(primitive)),
            None => None,
        }
    } else {
        None
    }
}

/// What can be told of the initializer behind an equals sign without lowering it.
#[verifier::opaque]
pub open spec fn spec_infer_initializer(
    cx: &Context,
    st: State,
    equal: usize,
    end: usize,
) -> Initializer {
    let special = if cx.token(next(equal)).is_none() {
        Some(unknown_initializer())
    } else if cx.is(next(equal), TokenKind::Amp) {
        spec_borrow_initializer(cx, st, equal, end)
    } else if cx.is(next(equal), TokenKind::Move) {
        spec_move_initializer(cx, st, equal, end)
    } else {
        None
    };
    match special {
        Some(initializer) => initializer,
        None => {
            match spec_name_initializer(cx, st, equal, end) {
                Some(initializer) => initializer,
                None => Initializer { ty: literal_type(cx, next(equal)), source: None },
            }
        },
    }
}

impl Builder {
    /// What can be told of the initializer behind an equals sign without lowering it.
    pub(crate) fn infer_initializer(
        &self,
        cx: &Context,
        equal: usize,
        end: usize,
    ) -> (r: Initializer)
        ensures
            r == spec_infer_initializer(cx, self@, equal, end),
    {
        proof {
            reveal(spec_infer_initializer);
        }
        let special = if cx.token(next(equal)).is_none() {
            Some(unknown_initializer())
        } else if cx.is(next(equal), TokenKind::Amp) {
            self.borrow_initializer(cx, equal, end)
        } else if cx.is(next(equal), TokenKind::Move) {
            self.move_initializer(cx, equal, end)
        } else {
            None
        };
        match special {
            Some(initializer) => initializer,
            None => match self.name_initializer(cx, equal, end) {
                Some(initializer) => initializer,
                None => Initializer { ty: literal_type(cx, next(equal)), source: None },
            },
        }
    }
}

/// Whether the checked expression at a position makes an owned string out of a literal.
#[verifier::allow_in_spec]
pub fn makes_owned_string(cx: &Context, index: usize) -> (r: bool)
    returns
        match cx.hir_expression_at(index) {
            Some(expression) => expression.kind == HirExpressionKind::StringLiteralToOwned,
            None => false,
        },
{
    match cx.hir_expression_at(index) {
        Some(expression) => expression.kind == HirExpressionKind::StringLiteralToOwned,
        None => false,
    }
}

/// Whether the initializer behind an equals sign is a constant.
#[verifier::allow_in_spec]
pub fn is_constant_initializer(cx: &Context, equal: usize, end: usize, ty: &Type) -> (r: bool)
    returns
        !makes_owned_string(cx, next(equal)) && behind(equal, 2) == end && constant(
            cx,
            next(equal),
            ty,
        ).is_some(),
{
    !makes_owned_string(cx, next(equal)) && behind(equal, 2) == end && constant(
        cx,
        next(equal),
        ty,
    ).is_some()
}

/// The name, mutability and origin of a local that is declared.
#[derive(Clone, Copy, Debug, PartialEq, Eq, Structural)]
pub struct DeclaredLocal {
    pub name: Name,
    pub mutable: bool,
    pub origin: Span,
}

/// The local that a declaration declares: the root of its pattern, or what is written.
#[verifier::opaque]
pub open spec fn spec_declared_local(
    cx: &Context,
    pattern: Option<&HirBindingPattern>,
    token: usize,
    mutable: bool,
) -> DeclaredLocal {
    let written = DeclaredLocal {
        name: written_name(cx, token),
        mutable,
        origin: cx.span_at(token),
    };
    match pattern {
        Some(pattern) => {
            match cx.hir_local(pattern.root) {
                Some(local) => {
                    DeclaredLocal {
                        name: local.name,
                        mutable: local.mutable,
                        origin: local.origin,
                    }
                },
                None => written,
            }
        },
        None => written,
    }
}

/// The local that a declaration declares: the root of its pattern, or what is written.
#[verifier::allow_in_spec]
pub fn declared_local(
    cx: &Context,
    pattern: Option<&HirBindingPattern>,
    token: usize,
    mutable: bool,
) -> (r: DeclaredLocal)
    returns
        spec_declared_local(cx, pattern, token, mutable),
{
    proof {
        reveal(spec_declared_local);
    }
    let written = DeclaredLocal {
        name: written_name(cx, token),
        mutable,
        origin: cx.span_at(token),
    };
    match pattern {
        Some(pattern) => match cx.hir_local(pattern.root) {
            Some(local) => DeclaredLocal {
                name: local.name,
                mutable: local.mutable,
                origin: local.origin,
            },
            None => written,
        },
        None => written,
    }
}

/// The type that is written before an equals sign.
#[verifier::allow_in_spec]
pub fn annotation(cx: &Context, start: usize, equal: usize) -> (r: Option<Type>)
    returns
        match cx.find_top_level(start, equal, TokenKind::Colon) {
            Some(colon) => parse_type_range(cx, next(colon), equal),
            None => None,
        },
{
    match cx.find_top_level(start, equal, TokenKind::Colon) {
        Some(colon) => parse_type_range(cx, next(colon), equal),
        None => None,
    }
}

/// A declared local gets what a local holds.
#[verifier::opaque]
pub open spec fn spec_assign_simple_initializer(
    st: State,
    local: LocalId,
    ty: &Type,
    inferred: &Type,
    source: InitializerSource,
) -> State {
    match source.kind {
        InitializerKind::Borrow { mutable } => {
            let (st, region) = spec_fresh_region(st);
            spec_statement(
                st, StatementKind::Borrow {
                    destination: local,
                    kind: crate::lowering::emit::borrow_kind(mutable),
                    place: whole(source.local),
                    region,
                },
                source.span,
            )
        },
        InitializerKind::Copy => {
            spec_assign(
                st,
                local,
                converted(Operand::Copy(whole(source.local)), inferred, ty),
                source.span,
            )
        },
        InitializerKind::Move => {
            spec_assign(
                st,
                local,
                converted(Operand::Move(whole(source.local)), inferred, ty),
                source.span,
            )
        },
    }
}

impl Builder {
    /// A declared local gets what a local holds.
    pub(crate) fn assign_simple_initializer(
        &mut self,
        local: LocalId,
        ty: &Type,
        inferred: &Type,
        source: InitializerSource,
    )
        ensures
            final(self)@ == spec_assign_simple_initializer(
                old(self)@,
                local,
                ty,
                inferred,
                source,
            ),
    {
        proof {
            reveal(spec_assign_simple_initializer);
        }
        match source.kind {
            InitializerKind::Borrow { mutable } => {
                let region = self.fresh_region();
                self.statement(
                    StatementKind::Borrow {
                        destination: local,
                        kind: crate::lowering::emit::borrow_kind(mutable),
                        place: whole(source.local),
                        region,
                    },
                    source.span,
                );
            },
            InitializerKind::Copy => {
                self.assign(
                    local,
                    converted(Operand::Copy(whole(source.local)), inferred, ty),
                    source.span,
                );
            },
            InitializerKind::Move => {
                self.assign(
                    local,
                    converted(Operand::Move(whole(source.local)), inferred, ty),
                    source.span,
                );
            },
        }
    }
}

/// A declared local gets the value that was lowered for it, or a constant.
#[verifier::opaque]
pub open spec fn spec_assign_remaining_initializer(
    cx: &Context,
    st: State,
    local: LocalId,
    ty: &Type,
    initializer: Option<usize>,
    complex: Option<Value>,
    token: usize,
) -> State {
    match complex {
        Some(value) => {
            spec_assign(st, local, converted(value.operand, &value.ty, ty), cx.span_at(token))
        },
        None => {
            match initializer {
                Some(index) => {
                    if let Some(constant) = constant(cx, index, ty) {
                        spec_assign(
                            st,
                            local,
                            Rvalue::Use(Operand::Constant(constant)),
                            cx.span_at(index),
                        )
                    } else {
                        st
                    }
                },
                _ => st,
            }
        },
    }
}

impl Builder {
    /// A declared local gets the value that was lowered for it, or a constant.
    pub(crate) fn assign_remaining_initializer(
        &mut self,
        cx: &Context,
        local: LocalId,
        ty: &Type,
        initializer: Option<usize>,
        complex: Option<Value>,
        token: usize,
    )
        ensures
            final(self)@ == spec_assign_remaining_initializer(
                cx,
                old(self)@,
                local,
                ty,
                initializer,
                complex,
                token,
            ),
    {
        proof {
            reveal(spec_assign_remaining_initializer);
        }
        match complex {
            Some(value) => {
                self.assign(local, converted(value.operand, &value.ty, ty), cx.span_at(token));
            },
            None => {
                let Some(index) = initializer else {
                    return;
                };
                if let Some(constant) = constant(cx, index, ty) {
                    self.assign(
                        local,
                        Rvalue::Use(Operand::Constant(constant)),
                        cx.span_at(index),
                    );
                }
            },
        }
    }
}

/// The value of an initializer that is more than a local or a constant.
#[verifier::opaque]
pub open spec fn spec_complex_initializer(
    cx: &Context,
    st: State,
    initializer: &Initializer,
    annotation: Option<&Type>,
    equal: usize,
    end: usize,
    low: Lowering,
) -> (State, Option<Value>) {
    if initializer.source.is_some() || is_constant_initializer(cx, equal, end, &initializer.ty) {
        (st, None)
    } else {
        (low.expression)(cx, st, next(equal), end, annotation)
    }
}

impl Builder {
    /// The value of an initializer that is more than a local or a constant.
    pub(crate) fn complex_initializer(
        &mut self,
        cx: &Context,
        initializer: &Initializer,
        annotation: Option<&Type>,
        equal: usize,
        end: usize,
        limit: usize,
    ) -> (r: Option<Value>)
        ensures
            (final(self)@, r) == spec_complex_initializer(
                cx,
                old(self)@,
                initializer,
                annotation,
                equal,
                end,
                lowering(limit as nat),
            ),
        decreases limit, 1nat, 0nat,
    {
        proof {
            reveal(spec_complex_initializer);
        }
        if initializer.source.is_some()
            || is_constant_initializer(cx, equal, end, &initializer.ty) {
            return None;
        }
        self.expression(cx, next(equal), end, annotation, limit)
    }
}

/// A declared local is added to the graph.
#[verifier::opaque]
pub open spec fn spec_declare_local(
    cx: &Context,
    st: State,
    pattern: Option<&HirBindingPattern>,
    token: usize,
    mutable: bool,
    ty: Type,
) -> (State, LocalId) {
    let declared = spec_declared_local(cx, pattern, token, mutable);
    let (st, local) = spec_add_local(
        st,
        declared.name,
        ty,
        declared.mutable,
        false,
        declared.origin,
    );
    let st = match pattern {
        Some(pattern) => spec_bind_hir(st, pattern.root, local),
        None => spec_bind_hir_local(cx, st, token, local),
    };
    let st = spec_statement(st, StatementKind::StorageLive(local), declared.origin);
    (st, local)
}

impl Builder {
    /// A declared local is added to the graph.
    pub(crate) fn declare_local(
        &mut self,
        cx: &Context,
        pattern: Option<&HirBindingPattern>,
        token: usize,
        mutable: bool,
        ty: Type,
    ) -> (r: LocalId)
        ensures
            (final(self)@, r) == spec_declare_local(
                cx,
                old(self)@,
                pattern,
                token,
                mutable,
                ty,
            ),
    {
        proof {
            reveal(spec_declare_local);
        }
        let declared = declared_local(cx, pattern, token, mutable);
        let local = self.add_local(declared.name, ty, declared.mutable, false, declared.origin);
        match pattern {
            Some(pattern) => {
                self.bind_hir(pattern.root, local);
            },
            None => {
                self.bind_hir_local(cx, token, local);
            },
        }
        self.statement(StatementKind::StorageLive(local), declared.origin);
        local
    }
}

/// A declaration with an initializer.
#[verifier::opaque]
pub open spec fn spec_lower_initialized(
    cx: &Context,
    st: State,
    pattern: Option<&HirBindingPattern>,
    token: usize,
    mutable: bool,
    equal: usize,
    end: usize,
    low: Lowering,
) -> State {
    let annotated = annotation(cx, token, equal);
    let initializer = spec_infer_initializer(cx, st, equal, end);
    let (st, complex) = spec_complex_initializer(
        cx,
        st,
        &initializer,
        type_ref(&annotated),
        equal,
        end,
        low,
    );
    let inferred = match &complex {
        Some(value) => value.ty.dup(),
        None => initializer.ty.dup(),
    };
    let ty = match annotated {
        Some(ty) => ty,
        None => inferred.dup(),
    };
    let (st, local) = spec_declare_local(cx, st, pattern, token, mutable, ty.dup());
    match initializer.source {
        Some(source) => spec_assign_simple_initializer(st, local, &ty, &inferred, source),
        None => {
            let index = if cx.token(next(equal)).is_some() {
                Some(next(equal))
            } else {
                None
            };
            spec_assign_remaining_initializer(cx, st, local, &ty, index, complex, token)
        },
    }
}

impl Builder {
    /// A declaration with an initializer.
    pub(crate) fn lower_initialized(
        &mut self,
        cx: &Context,
        pattern: Option<&HirBindingPattern>,
        token: usize,
        mutable: bool,
        equal: usize,
        end: usize,
        limit: usize,
    )
        ensures
            final(self)@ == spec_lower_initialized(
                cx,
                old(self)@,
                pattern,
                token,
                mutable,
                equal,
                end,
                lowering(limit as nat),
            ),
        decreases limit, 2nat, 0nat,
    {
        proof {
            reveal(spec_lower_initialized);
        }
        let annotated = annotation(cx, token, equal);
        let initializer = self.infer_initializer(cx, equal, end);
        let complex = self.complex_initializer(
            cx,
            &initializer,
            type_ref(&annotated),
            equal,
            end,
            limit,
        );
        let inferred = match &complex {
            Some(value) => value.ty.dup(),
            None => initializer.ty.dup(),
        };
        let ty = match annotated {
            Some(ty) => ty,
            None => inferred.dup(),
        };
        let local = self.declare_local(cx, pattern, token, mutable, ty.dup());
        match initializer.source {
            Some(source) => {
                self.assign_simple_initializer(local, &ty, &inferred, source);
            },
            None => {
                let index = if cx.token(next(equal)).is_some() {
                    Some(next(equal))
                } else {
                    None
                };
                self.assign_remaining_initializer(cx, local, &ty, index, complex, token);
            },
        }
    }
}

/// A declaration of a local or of those in a pattern.
#[verifier::opaque]
pub open spec fn spec_lower_local(cx: &Context, st: State, low: Lowering) -> State {
    let start: usize = st.index;
    let mutable = cx.is(start, TokenKind::Let);
    let token: usize = if cx.is(next(start), TokenKind::Mut) {
        behind(start, 2)
    } else {
        next(start)
    };
    let end: usize = cx.statement_end(start);
    if cx.token(token).is_none() {
        let st = State { index: next(start), ..st };
        st
    } else {
        let pattern = cx.binding_pattern_at(next(start));
        let st = match cx.find_top_level(token, end, TokenKind::Equal) {
            Some(equal) => {
                spec_lower_initialized(cx, st, pattern, token, mutable, equal, end, low)
            },
            None => spec_declare_local(cx, st, pattern, token, mutable, Type::Error).0,
        };
        let st = if let Some(pattern) = pattern {
            spec_lower_binding_pattern(cx, st, pattern, low)
        } else {
            st
        };
        let st = State { index: cx.past_semicolon(end), ..st };
        st
    }
}

impl Builder {
    /// A declaration of a local or of those in a pattern.
    pub(crate) fn lower_local(&mut self, cx: &Context, limit: usize)
        ensures
            final(self)@ == spec_lower_local(cx, old(self)@, lowering(limit as nat)),
        decreases limit, 6nat, 0nat,
    {
        proof {
            reveal(spec_lower_local);
        }
        let start: usize = self.index;
        let mutable = cx.is(start, TokenKind::Let);
        let token: usize = if cx.is(next(start), TokenKind::Mut) {
            behind(start, 2)
        } else {
            next(start)
        };
        let end: usize = cx.statement_end(start);
        if cx.token(token).is_none() {
            self.index = next(start);
            return;
        }
        let pattern = cx.binding_pattern_at(next(start));
        match cx.find_top_level(token, end, TokenKind::Equal) {
            Some(equal) => {
                self.lower_initialized(cx, pattern, token, mutable, equal, end, limit);
            },
            None => {
                let _ = self.declare_local(cx, pattern, token, mutable, Type::Error);
            },
        }
        if let Some(pattern) = pattern {
            self.lower_binding_pattern(cx, pattern, limit);
        }
        self.index = cx.past_semicolon(end);
    }
}

/// The first equals sign in a range.
pub open spec fn spec_first_equal(cx: &Context, start: usize, end: usize) -> Option<usize>
    decreases end - start,
{
    if start >= end {
        None
    } else if cx.is(start, TokenKind::Equal) {
        Some(start)
    } else {
        spec_first_equal(cx, next(start), end)
    }
}

/// The first equals sign in a range.
#[verifier::allow_in_spec]
pub fn first_equal(cx: &Context, start: usize, end: usize) -> (r: Option<usize>)
    returns
        spec_first_equal(cx, start, end),
    decreases end - start,
{
    proof {
        reveal_with_fuel(spec_first_equal, 2);
    }
    if start >= end {
        return None;
    }
    if cx.is(start, TokenKind::Equal) {
        return Some(start);
    }
    first_equal(cx, next(start), end)
}

/// A declaration of a managed local.
#[verifier::opaque]
pub open spec fn spec_lower_using(cx: &Context, st: State, awaited: bool, low: Lowering) -> State
{
    let start: usize = st.index;
    let name: usize = if awaited {
        behind(start, 2)
    } else {
        next(start)
    };
    if cx.token(name).is_none() {
        let st = State { index: next(start), ..st };
        st
    } else {
        let end: usize = cx.statement_end(start);
        match spec_first_equal(cx, start, end) {
            Some(equal) => {
                let (st, lowered) = (low.expression)(cx, st, next(equal), end, None);
                let value = match lowered {
                    Some(value) => value,
                    None => Value { operand: undefined(Type::Error), ty: Type::Error },
                };
                let span = cx.span_at(name);
                let (st, local) = spec_add_local(
                    st,
                    written_name(cx, name),
                    value.ty,
                    false,
                    false,
                    span,
                );
                let st = spec_bind_hir_local(cx, st, name, local);
                let st = spec_statement(st, StatementKind::StorageLive(local), span);
                let st = spec_assign(st, local, Rvalue::Use(value.operand), span);
                let st = if awaited {
                    spec_manage(st, local, name)
                } else {
                    st
                };
                let st = State { index: cx.past(end), ..st };
                st
            },
            _ => {
                let st = State { index: cx.past(end), ..st };
                st
            },
        }
    }
}

impl Builder {
    /// A declaration of a managed local.
    pub(crate) fn lower_using(&mut self, cx: &Context, awaited: bool, limit: usize)
        ensures
            final(self)@ == spec_lower_using(
                cx,
                old(self)@,
                awaited,
                lowering(limit as nat),
            ),
        decreases limit, 2nat, 0nat,
    {
        proof {
            reveal(spec_lower_using);
        }
        let start: usize = self.index;
        let name: usize = if awaited {
            behind(start, 2)
        } else {
            next(start)
        };
        if cx.token(name).is_none() {
            self.index = next(start);
            return;
        }
        let end: usize = cx.statement_end(start);
        let Some(equal) = first_equal(cx, start, end) else {
            self.index = cx.past(end);
            return;
        };
        let lowered = self.expression(cx, next(equal), end, None, limit);
        let value = match lowered {
            Some(value) => value,
            None => Value { operand: undefined(Type::Error), ty: Type::Error },
        };
        let span = cx.span_at(name);
        let local = self.add_local(written_name(cx, name), value.ty, false, false, span);
        self.bind_hir_local(cx, name, local);
        self.statement(StatementKind::StorageLive(local), span);
        self.assign(local, Rvalue::Use(value.operand), span);
        if awaited {
            self.manage(local, name);
        }
        self.index = cx.past(end);
    }
}

/// A statement that gives a local up.
#[verifier::opaque]
pub open spec fn spec_lower_explicit_move(cx: &Context, st: State) -> State {
    let start: usize = st.index;
    let st = if let Some(source) = spec_local_at(cx, st, next(start)) {
        spec_computed(
            st, spec_type_of_local(st, source),
            Rvalue::Use(Operand::Move(whole(source))),
            cx.span_at(start),
        ).0
    } else {
        st
    };
    let st = State { index: behind(start, 2), ..st };
    st
}

impl Builder {
    /// A statement that gives a local up.
    pub(crate) fn lower_explicit_move(&mut self, cx: &Context)
        ensures
            final(self)@ == spec_lower_explicit_move(cx, old(self)@),
    {
        proof {
            reveal(spec_lower_explicit_move);
        }
        let start: usize = self.index;
        if let Some(source) = self.local_at(cx, next(start)) {
            let _ = self.computed(
                self.type_of_local(source),
                Rvalue::Use(Operand::Move(whole(source))),
                cx.span_at(start),
            );
        }
        self.index = behind(start, 2);
    }
}

/// The constant or static that a range of tokens names, with its type.
pub struct Global {
    pub declaration: DeclarationId,
    pub ty: Type,
}

/// The constant or static that a range of tokens names.
#[verifier::allow_in_spec]
pub fn global_declaration(cx: &Context, start: usize, end: usize) -> (r: Option<Global>)
    returns
        match cx.resolution(start, end) {
            Some(crate::hir::ResolvedValue::Declaration(declaration)) => {
                match global_type(
                    cx.program,
                    declaration,
                ) {
                    Some(ty) => Some(Global { declaration, ty }),
                    None => None,
                }
            },
            _ => None,
        },
{
    match cx.resolution(start, end) {
        Some(crate::hir::ResolvedValue::Declaration(declaration)) => match global_type(
            cx.program,
            declaration,
        ) {
            Some(ty) => Some(Global { declaration, ty }),
            None => None,
        },
        _ => None,
    }
}

/// What an assignment stores: the value, or what an operator makes of it and the value before.
#[verifier::allow_in_spec]
pub fn assigned_value(
    operator: Option<BinaryOperator>,
    left: Option<Value>,
    value: Value,
    ty: &Type,
) -> (r: Rvalue)
    returns
        match (operator, left) {
            (Some(operator), Some(left)) => {
                Rvalue::CheckedBinary {
                    operator,
                    left: left.operand,
                    right: value.operand,
                    operand_type: binary_operand_type(&left.ty, &value.ty),
                    result_type: ty.dup(),
                }
            },
            _ => converted(value.operand, &value.ty, ty),
        },
{
    match (operator, left) {
        (Some(operator), Some(left)) => Rvalue::CheckedBinary {
            operator,
            left: left.operand,
            right: value.operand,
            operand_type: binary_operand_type(&left.ty, &value.ty),
            result_type: ty.dup(),
        },
        _ => converted(value.operand, &value.ty, ty),
    }
}

/// The value that a global has before an operator changes it.
#[verifier::opaque]
pub open spec fn spec_global_left(
    cx: &Context,
    st: State,
    start: usize,
    assignment: usize,
    operator: Option<BinaryOperator>,
    ty: &Type,
    low: Lowering,
) -> (State, Option<Value>) {
    if operator.is_none() {
        (st, None)
    } else {
        (low.expression)(cx, st, start, assignment, Some(ty))
    }
}

impl Builder {
    /// The value that a global has before an operator changes it.
    pub(crate) fn global_left(
        &mut self,
        cx: &Context,
        start: usize,
        assignment: usize,
        operator: Option<BinaryOperator>,
        ty: &Type,
        limit: usize,
    ) -> (r: Option<Value>)
        ensures
            (final(self)@, r) == spec_global_left(
                cx,
                old(self)@,
                start,
                assignment,
                operator,
                ty,
                lowering(limit as nat),
            ),
        decreases limit, 1nat, 0nat,
    {
        proof {
            reveal(spec_global_left);
        }
        if operator.is_none() {
            return None;
        }
        self.expression(cx, start, assignment, Some(ty), limit)
    }
}

/// An assignment to a global.
#[verifier::opaque]
pub open spec fn spec_assign_global(
    cx: &Context,
    st: State,
    global: Global,
    start: usize,
    assignment: usize,
    operator: Option<BinaryOperator>,
    end: usize,
    low: Lowering,
) -> State {
    let span = cx.span_at(start);
    let (st, left) = spec_global_left(cx, st, start, assignment, operator, &global.ty, low);
    let (st, attempt) = (low.expression)(cx, st, next(assignment), end, Some(&global.ty));
    match attempt {
        Some(value) => {
            let stored = assigned_value(operator, left, value, &global.ty);
            let (st, operand) = spec_computed(st, global.ty, stored, span);
            spec_computed(
                st, primitive(PrimitiveType::Bool),
                Rvalue::RawOperation {
                    operation: RawOperation::GlobalStore(global.declaration),
                    operands: one(operand),
                    ty: primitive(PrimitiveType::Bool),
                },
                span,
            ).0
        },
        _ => st,
    }
}

impl Builder {
    /// An assignment to a global.
    pub(crate) fn assign_global(
        &mut self,
        cx: &Context,
        global: Global,
        start: usize,
        assignment: usize,
        operator: Option<BinaryOperator>,
        end: usize,
        limit: usize,
    )
        ensures
            final(self)@ == spec_assign_global(
                cx,
                old(self)@,
                global,
                start,
                assignment,
                operator,
                end,
                lowering(limit as nat),
            ),
        decreases limit, 2nat, 0nat,
    {
        proof {
            reveal(spec_assign_global);
        }
        let span = cx.span_at(start);
        let left = self.global_left(cx, start, assignment, operator, &global.ty, limit);
        let Some(value) = self.expression(cx, next(assignment), end, Some(&global.ty), limit) else {
            return;
        };
        let stored = assigned_value(operator, left, value, &global.ty);
        let operand = self.computed(global.ty, stored, span);
        let _ = self.computed(
            primitive(PrimitiveType::Bool),
            Rvalue::RawOperation {
                operation: RawOperation::GlobalStore(global.declaration),
                operands: one(operand),
                ty: primitive(PrimitiveType::Bool),
            },
            span,
        );
    }
}

/// The place that is assigned to, where it is a pointer's target.
#[verifier::opaque]
pub open spec fn spec_lower_pointer_target(
    cx: &Context,
    st: State,
    start: usize,
    end: usize,
    low: Lowering,
) -> (State, Option<TypedPlace>) {
    let (st, attempt) = (low.expression)(cx, st, next(start), end, None);
    match attempt {
        Some(pointer) => {
            match (operand_place(pointer.operand), pointee_of(pointer.ty)) {
                (Some(place), Some(ty)) => {
                    (st, Some(
                        TypedPlace { place: place.step(Projection::Dereference), ty },
                    ))
                },
                _ => (st, None),
            }
        },
        _ => (st, None),
    }
}

impl Builder {
    /// The place that is assigned to, where it is a pointer's target.
    pub(crate) fn lower_pointer_target(
        &mut self,
        cx: &Context,
        start: usize,
        end: usize,
        limit: usize,
    ) -> (r: Option<TypedPlace>)
        ensures
            (final(self)@, r) == spec_lower_pointer_target(
                cx,
                old(self)@,
                start,
                end,
                lowering(limit as nat),
            ),
        decreases limit, 1nat, 0nat,
    {
        proof {
            reveal(spec_lower_pointer_target);
        }
        let Some(pointer) = self.expression(cx, next(start), end, None, limit) else {
            return None;
        };
        match (operand_place(pointer.operand), pointee_of(pointer.ty)) {
            (Some(place), Some(ty)) => Some(
                TypedPlace { place: place.step(Projection::Dereference), ty },
            ),
            _ => None,
        }
    }
}

/// The place that is assigned to.
#[verifier::opaque]
pub open spec fn spec_lower_assignment_place(
    cx: &Context,
    st: State,
    start: usize,
    end: usize,
    low: Lowering,
) -> (State, Option<TypedPlace>) {
    if cx.is(start, TokenKind::Star) {
        spec_lower_pointer_target(cx, st, start, end, low)
    } else {
        let (st, attempt) = (low.expression)(cx, st, start, end, None);
        match attempt {
            Some(value) => {
                match operand_place(value.operand) {
                    Some(place) => (st, Some(TypedPlace { place, ty: value.ty })),
                    None => (st, None),
                }
            },
            _ => (st, None),
        }
    }
}

impl Builder {
    /// The place that is assigned to.
    pub(crate) fn lower_assignment_place(
        &mut self,
        cx: &Context,
        start: usize,
        end: usize,
        limit: usize,
    ) -> (r: Option<TypedPlace>)
        ensures
            (final(self)@, r) == spec_lower_assignment_place(
                cx,
                old(self)@,
                start,
                end,
                lowering(limit as nat),
            ),
        decreases limit, 2nat, 0nat,
    {
        proof {
            reveal(spec_lower_assignment_place);
        }
        if cx.is(start, TokenKind::Star) {
            return self.lower_pointer_target(cx, start, end, limit);
        }
        let Some(value) = self.expression(cx, start, end, None, limit) else {
            return None;
        };
        match operand_place(value.operand) {
            Some(place) => Some(TypedPlace { place, ty: value.ty }),
            None => None,
        }
    }
}

/// What is stored in a place: the value, or what an operator makes of it and what is there.
#[verifier::allow_in_spec]
pub fn stored_value(
    operator: Option<BinaryOperator>,
    destination: &TypedPlace,
    value: Value,
) -> (r: Rvalue)
    returns
        match operator {
            Some(operator) => {
                Rvalue::CheckedBinary {
                    operator,
                    left: Operand::Copy(destination.place.dup()),
                    right: value.operand,
                    operand_type: destination.ty.dup(),
                    result_type: destination.ty.dup(),
                }
            },
            None => converted(value.operand, &value.ty, &destination.ty),
        },
{
    match operator {
        Some(operator) => Rvalue::CheckedBinary {
            operator,
            left: Operand::Copy(destination.place.dup()),
            right: value.operand,
            operand_type: destination.ty.dup(),
            result_type: destination.ty.dup(),
        },
        None => converted(value.operand, &value.ty, &destination.ty),
    }
}

/// An assignment to a place.
#[verifier::opaque]
pub open spec fn spec_assign_place(
    cx: &Context,
    st: State,
    start: usize,
    assignment: usize,
    operator: Option<BinaryOperator>,
    end: usize,
    low: Lowering,
) -> State {
    let (st, attempt) = spec_lower_assignment_place(cx, st, start, assignment, low);
    match attempt {
        Some(destination) => {
            let (st, attempt) = (low.expression)(cx, st, next(assignment), end, Some(&destination.ty));
            match attempt {
                Some(value) => {
                    let stored = stored_value(operator, &destination, value);
                    spec_statement(
                        st,
                        StatementKind::Assign(destination.place, stored),
                        cx.span_at(start),
                    )
                },
                _ => st,
            }
        },
        _ => st,
    }
}

impl Builder {
    /// An assignment to a place.
    pub(crate) fn assign_place(
        &mut self,
        cx: &Context,
        start: usize,
        assignment: usize,
        operator: Option<BinaryOperator>,
        end: usize,
        limit: usize,
    )
        ensures
            final(self)@ == spec_assign_place(
                cx,
                old(self)@,
                start,
                assignment,
                operator,
                end,
                lowering(limit as nat),
            ),
        decreases limit, 3nat, 0nat,
    {
        proof {
            reveal(spec_assign_place);
        }
        let Some(destination) = self.lower_assignment_place(cx, start, assignment, limit) else {
            return;
        };
        let Some(value) = self.expression(
            cx,
            next(assignment),
            end,
            Some(&destination.ty),
            limit,
        ) else {
            return;
        };
        let stored = stored_value(operator, &destination, value);
        self.statement(StatementKind::Assign(destination.place, stored), cx.span_at(start));
    }
}

/// An expression whose value is given up.
#[verifier::opaque]
pub open spec fn spec_lower_discarded(
    cx: &Context,
    st: State,
    start: usize,
    end: usize,
    low: Lowering,
) -> State {
    let (st, attempt) = (low.expression)(cx, st, start, end, None);
    match attempt {
        Some(value) => {
            if !is_void(&value.ty) {
                spec_computed(st, value.ty, Rvalue::Use(value.operand), cx.span_at(start)).0
            } else {
                st
            }
        },
        _ => st,
    }
}

impl Builder {
    /// An expression whose value is given up.
    pub(crate) fn lower_discarded(&mut self, cx: &Context, start: usize, end: usize, limit: usize)
        ensures
            final(self)@ == spec_lower_discarded(
                cx,
                old(self)@,
                start,
                end,
                lowering(limit as nat),
            ),
        decreases limit, 1nat, 0nat,
    {
        proof {
            reveal(spec_lower_discarded);
        }
        let Some(value) = self.expression(cx, start, end, None, limit) else {
            return;
        };
        if !is_void(&value.ty) {
            let _ = self.computed(value.ty, Rvalue::Use(value.operand), cx.span_at(start));
        }
    }
}

/// An assignment, or an expression whose value is given up.
#[verifier::opaque]
pub open spec fn spec_lower_expression_statement(cx: &Context, st: State, low: Lowering) -> State
{
    let start: usize = st.index;
    let end: usize = cx.statement_end(start);
    let st = match cx.find_assignment(start, end) {
        Some(assignment) => {
            match global_declaration(cx, start, assignment.index) {
                Some(global) => {
                    spec_assign_global(
                        cx,
                        st,
                        global,
                        start,
                        assignment.index,
                        assignment.operator,
                        end,
                        low,
                    )
                },
                None => {
                    spec_assign_place(
                        cx,
                        st,
                        start,
                        assignment.index,
                        assignment.operator,
                        end,
                        low,
                    )
                },
            }
        },
        None => spec_lower_discarded(cx, st, start, end, low),
    };
    let st = State { index: cx.past_semicolon(end), ..st };
    st
}

impl Builder {
    /// An assignment, or an expression whose value is given up.
    pub(crate) fn lower_expression_statement(&mut self, cx: &Context, limit: usize)
        ensures
            final(self)@ == spec_lower_expression_statement(
                cx,
                old(self)@,
                lowering(limit as nat),
            ),
        decreases limit, 4nat, 0nat,
    {
        proof {
            reveal(spec_lower_expression_statement);
        }
        let start: usize = self.index;
        let end: usize = cx.statement_end(start);
        match cx.find_assignment(start, end) {
            Some(assignment) => {
                match global_declaration(cx, start, assignment.index) {
                    Some(global) => {
                        self.assign_global(
                            cx,
                            global,
                            start,
                            assignment.index,
                            assignment.operator,
                            end,
                            limit,
                        );
                    },
                    None => {
                        self.assign_place(
                            cx,
                            start,
                            assignment.index,
                            assignment.operator,
                            end,
                            limit,
                        );
                    },
                }
            },
            None => {
                self.lower_discarded(cx, start, end, limit);
            },
        }
        self.index = cx.past_semicolon(end);
    }
}

/// The disposal of the managed locals of all scopes.
#[verifier::opaque]
pub open spec fn spec_dispose_all(cx: &Context, st: State) -> State {
    let managed = spec_active_disposals(st, 0);
    spec_lower_async_disposals(cx, st, &managed)
}

impl Builder {
    /// The disposal of the managed locals of all scopes.
    pub(crate) fn dispose_all(&mut self, cx: &Context)
        ensures
            final(self)@ == spec_dispose_all(cx, old(self)@),
    {
        proof {
            reveal(spec_dispose_all);
        }
        let managed = self.active_disposals(0);
        self.lower_async_disposals(cx, &managed);
    }
}

/// A statement that throws.
#[verifier::opaque]
pub open spec fn spec_lower_throw(cx: &Context, st: State, low: Lowering) -> State {
    let start: usize = st.index;
    let end: usize = cx.statement_end(start);
    let (st, thrown) = (low.expression)(cx, st, next(start), end, None);
    let kind = match thrown {
        Some(value) => TerminatorKind::Throw(value.operand),
        None => TerminatorKind::Unreachable,
    };
    let st = spec_dispose_all(cx, st);
    let st = spec_terminate(st, kind, cx.span_at(start));
    let st = State { index: cx.past(end), ..st };
    st
}

impl Builder {
    /// A statement that throws.
    pub(crate) fn lower_throw(&mut self, cx: &Context, limit: usize)
        ensures
            final(self)@ == spec_lower_throw(cx, old(self)@, lowering(limit as nat)),
        decreases limit, 1nat, 0nat,
    {
        proof {
            reveal(spec_lower_throw);
        }
        let start: usize = self.index;
        let end: usize = cx.statement_end(start);
        let thrown = self.expression(cx, next(start), end, None, limit);
        let kind = match thrown {
            Some(value) => TerminatorKind::Throw(value.operand),
            None => TerminatorKind::Unreachable,
        };
        self.dispose_all(cx);
        self.terminate(kind, cx.span_at(start));
        self.index = cx.past(end);
    }
}

/// A statement that waits.
#[verifier::opaque]
pub open spec fn spec_lower_suspend(cx: &Context, st: State, low: Lowering) -> State {
    let start: usize = st.index;
    let end: usize = cx.statement_end(start);
    let wait: usize = if cx.is(start, TokenKind::Try) && cx.is(next(start), TokenKind::Await) {
        next(start)
    } else {
        start
    };
    let st = spec_lower_await(cx, st, wait, end, low).0;
    let st = State { index: cx.past(end), ..st };
    st
}

impl Builder {
    /// A statement that waits.
    pub(crate) fn lower_suspend(&mut self, cx: &Context, limit: usize)
        ensures
            final(self)@ == spec_lower_suspend(cx, old(self)@, lowering(limit as nat)),
        decreases limit, 2nat, 0nat,
    {
        proof {
            reveal(spec_lower_suspend);
        }
        let start: usize = self.index;
        let end: usize = cx.statement_end(start);
        let wait: usize = if cx.is(start, TokenKind::Try) && cx.is(next(start), TokenKind::Await) {
            next(start)
        } else {
            start
        };
        let _ = self.lower_await(cx, wait, end, limit);
        self.index = cx.past(end);
    }
}

/// The operand that a body returns for a value: one of the type that it declares.
#[verifier::opaque]
pub open spec fn spec_returned_operand(
    cx: &Context,
    st: State,
    value: Option<Value>,
    span: Span,
) -> (State, Option<Operand>) {
    match value {
        Some(value) => {
            if crate::hir::same_type(&value.ty, &cx.return_type) {
                (st, Some(value.operand))
            } else {
                let (st, operand) = spec_computed(
                    st, cx.return_type.dup(),
                    Rvalue::Cast {
                        operand: value.operand,
                        ty: cx.return_type.dup(),
                        kind: mir_cast_kind(&value.ty, &cx.return_type),
                    },
                    span,
                );
                (st, Some(operand))
            }
        },
        _ => (st, None),
    }
}

impl Builder {
    /// The operand that a body returns for a value: one of the type that it declares.
    pub(crate) fn returned_operand(
        &mut self,
        cx: &Context,
        value: Option<Value>,
        span: Span,
    ) -> (r: Option<Operand>)
        ensures
            (final(self)@, r) == spec_returned_operand(cx, old(self)@, value, span),
    {
        proof {
            reveal(spec_returned_operand);
        }
        let Some(value) = value else {
            return None;
        };
        if crate::hir::same_type(&value.ty, &cx.return_type) {
            return Some(value.operand);
        }
        let operand = self.computed(
            cx.return_type.dup(),
            Rvalue::Cast {
                operand: value.operand,
                ty: cx.return_type.dup(),
                kind: mir_cast_kind(&value.ty, &cx.return_type),
            },
            span,
        );
        Some(operand)
    }
}

/// A statement that returns.
#[verifier::opaque]
pub open spec fn spec_lower_return(cx: &Context, st: State, low: Lowering) -> State {
    let start: usize = st.index;
    let span = cx.span_at(start);
    let end: usize = cx.statement_end(start);
    if let Some(finish) = st.finish {
        let st = spec_terminate(st, TerminatorKind::Goto(finish), span);
        let st = State { index: cx.past(end), ..st };
        st
    } else {
        let (st, value) = (low.expression)(cx, st, next(start), end, Some(&cx.return_type));
        let (st, operand) = spec_returned_operand(cx, st, value, span);
        let kind = if operand.is_none() && !is_void(&cx.return_type) {
            TerminatorKind::Unreachable
        } else {
            TerminatorKind::Return(operand)
        };
        let st = spec_dispose_all(cx, st);
        let st = spec_terminate(st, kind, span);
        let st = State { index: cx.past(end), ..st };
        st
    }
}

impl Builder {
    /// A statement that returns.
    pub(crate) fn lower_return(&mut self, cx: &Context, limit: usize)
        ensures
            final(self)@ == spec_lower_return(cx, old(self)@, lowering(limit as nat)),
        decreases limit, 1nat, 0nat,
    {
        proof {
            reveal(spec_lower_return);
        }
        let start: usize = self.index;
        let span = cx.span_at(start);
        let end: usize = cx.statement_end(start);
        if let Some(finish) = self.finish {
            self.terminate(TerminatorKind::Goto(finish), span);
            self.index = cx.past(end);
            return;
        }
        let value = self.expression(cx, next(start), end, Some(&cx.return_type), limit);
        let operand = self.returned_operand(cx, value, span);
        let kind = if operand.is_none() && !is_void(&cx.return_type) {
            TerminatorKind::Unreachable
        } else {
            TerminatorKind::Return(operand)
        };
        self.dispose_all(cx);
        self.terminate(kind, span);
        self.index = cx.past(end);
    }
}

/// The call of a constructor with one argument.
#[verifier::opaque]
pub open spec fn spec_construct(
    cx: &Context,
    st: State,
    class: DeclarationId,
    constructor: &Method,
    parameter: Type,
    result: Type,
    argument: LocalId,
) -> (State, Option<Value>) {
    let signature = signature_of(
        one(parameter),
        result,
        dup_plain(&constructor.function.effects),
        false,
        constructor.function.is_unsafe,
    );
    let function = Operand::Constant(
        Constant::Constructor {
            owner: class,
            member: Some(constructor.id),
            ty: Type::Function(signature.dup()),
        },
    );
    spec_emit_call(cx, st, function, None, &signature, one(Operand::Move(whole(argument))), 0)
}

impl Builder {
    /// The call of a constructor with one argument.
    pub(crate) fn construct(
        &mut self,
        cx: &Context,
        class: DeclarationId,
        constructor: &Method,
        parameter: Type,
        result: Type,
        argument: LocalId,
    ) -> (r: Option<Value>)
        ensures
            (final(self)@, r) == spec_construct(
                cx,
                old(self)@,
                class,
                constructor,
                parameter,
                result,
                argument,
            ),
    {
        proof {
            reveal(spec_construct);
        }
        let signature = signature_of(
            one(parameter),
            result,
            dup_plain(&constructor.function.effects),
            false,
            constructor.function.is_unsafe,
        );
        let function = Operand::Constant(
            Constant::Constructor {
                owner: class,
                member: Some(constructor.id),
                ty: Type::Function(signature.dup()),
            },
        );
        self.emit_call(cx, function, None, &signature, one(Operand::Move(whole(argument))), 0)
    }
}

/// A generator gets the buffer for what it yields, and the block that it ends in.
#[verifier::opaque]
pub open spec fn spec_start_generator(cx: &Context, st: State) -> State {
    match &cx.generator_item_type {
        Some(item_type) => {
            if cx.token(0).is_none() {
                st
            } else {
                match nominal_named(cx.program, Name::Array) {
                    Some(array) => {
                        match nominal_named(cx.program, Name::ArrayOptions) {
                            Some(options) => {
                                let span = cx.span_at(0);
                                let array_type = Type::Nominal(array, one(item_type.dup()));
                                let options_type = Type::Nominal(options, List::Nil);
                                let (st, buffer) = spec_add_local(
                                    st,
                                    Name::GeneratorBuffer,
                                    array_type.dup(),
                                    true,
                                    false,
                                    span,
                                );
                                let st = State { buffer: Some(buffer), ..st };
                                let st = spec_statement(
                                    st,
                                    StatementKind::StorageLive(buffer),
                                    span,
                                );
                                let (st, settings) = spec_live(st, options_type.dup(), span);
                                let st = spec_assign(
                                    st,
                                    settings,
                                    Rvalue::Aggregate {
                                        ty: options_type.dup(),
                                        variant: None,
                                        fields: one(crate::lowering::bindings::usize_constant(0)),
                                        field_types: one(primitive(PrimitiveType::Usize)),
                                    },
                                    span,
                                );
                                match constructor_of(cx.program, array) {
                                    Some(constructor) => {
                                        let (st, made) = spec_construct(
                                            cx,
                                            st,
                                            array,
                                            constructor,
                                            options_type,
                                            array_type,
                                            settings,
                                        );
                                        let st = if let Some(value) = made {
                                            spec_assign(
                                                st,
                                                buffer,
                                                Rvalue::Use(value.operand),
                                                span,
                                            )
                                        } else {
                                            st
                                        };
                                        let (st, finish) = spec_new_block(st);
                                        let st = State { finish: Some(finish), ..st };
                                        st
                                    },
                                    _ => st,
                                }
                            },
                            _ => st,
                        }
                    },
                    _ => st,
                }
            }
        },
        _ => st,
    }
}

impl Builder {
    /// A generator gets the buffer for what it yields, and the block that it ends in.
    pub(crate) fn start_generator(&mut self, cx: &Context)
        ensures
            final(self)@ == spec_start_generator(cx, old(self)@),
    {
        proof {
            reveal(spec_start_generator);
        }
        let Some(item_type) = &cx.generator_item_type else {
            return;
        };
        if cx.token(0).is_none() {
            return;
        }
        let Some(array) = nominal_named(cx.program, Name::Array) else {
            return;
        };
        let Some(options) = nominal_named(cx.program, Name::ArrayOptions) else {
            return;
        };
        let span = cx.span_at(0);
        let array_type = Type::Nominal(array, one(item_type.dup()));
        let options_type = Type::Nominal(options, List::Nil);
        let buffer = self.add_local(Name::GeneratorBuffer, array_type.dup(), true, false, span);
        self.buffer = Some(buffer);
        self.statement(StatementKind::StorageLive(buffer), span);
        let settings = self.live(options_type.dup(), span);
        self.assign(
            settings,
            Rvalue::Aggregate {
                ty: options_type.dup(),
                variant: None,
                fields: one(crate::lowering::bindings::usize_constant(0)),
                field_types: one(primitive(PrimitiveType::Usize)),
            },
            span,
        );
        let Some(constructor) = constructor_of(cx.program, array) else {
            return;
        };
        let made = self.construct(cx, array, constructor, options_type, array_type, settings);
        if let Some(value) = made {
            self.assign(buffer, Rvalue::Use(value.operand), span);
        }
        let finish = self.new_block();
        self.finish = Some(finish);
    }
}

/// The iterator over what a generator has yielded.
#[verifier::opaque]
pub open spec fn spec_generator_iterator(cx: &Context, st: State) -> (State, Option<Value>) {
    match &cx.generator_item_type {
        Some(item_type) => {
            match st.buffer {
                Some(buffer) => {
                    let name = if cx.generator_async {
                        Name::AsyncArrayIterator
                    } else {
                        Name::ArrayIterator
                    };
                    match nominal_named(cx.program, name) {
                        Some(iterator) => {
                            match constructor_of(cx.program, iterator) {
                                Some(constructor) => {
                                    let iterator_type = Type::Nominal(
                                        iterator,
                                        one(item_type.dup()),
                                    );
                                    let buffer_type = spec_type_of_local(st, buffer);
                                    spec_construct(
                                        cx,
                                        st,
                                        iterator,
                                        constructor,
                                        buffer_type,
                                        iterator_type,
                                        buffer,
                                    )
                                },
                                _ => (st, None),
                            }
                        },
                        _ => (st, None),
                    }
                },
                _ => (st, None),
            }
        },
        _ => (st, None),
    }
}

impl Builder {
    /// The iterator over what a generator has yielded.
    pub(crate) fn generator_iterator(&mut self, cx: &Context) -> (r: Option<Value>)
        ensures
            (final(self)@, r) == spec_generator_iterator(cx, old(self)@),
    {
        proof {
            reveal(spec_generator_iterator);
        }
        let Some(item_type) = &cx.generator_item_type else {
            return None;
        };
        let Some(buffer) = self.buffer else {
            return None;
        };
        let name = if cx.generator_async {
            Name::AsyncArrayIterator
        } else {
            Name::ArrayIterator
        };
        let Some(iterator) = nominal_named(cx.program, name) else {
            return None;
        };
        let Some(constructor) = constructor_of(cx.program, iterator) else {
            return None;
        };
        let iterator_type = Type::Nominal(iterator, one(item_type.dup()));
        let buffer_type = self.type_of_local(buffer);
        self.construct(cx, iterator, constructor, buffer_type, iterator_type, buffer)
    }
}

/// The end of a generator: it returns an iterator over what it has yielded.
#[verifier::opaque]
pub open spec fn spec_finish_generator(cx: &Context, st: State) -> State {
    if cx.generator_item_type.is_none() {
        st
    } else if cx.token(0).is_none() {
        let st = spec_terminate(
            st,
            TerminatorKind::Unreachable,
            crate::syntax::empty_span(File::Generator),
        );
        st
    } else {
        let span = cx.span_at(0);
        let (st, attempt) = spec_generator_iterator(cx, st);
        match attempt {
            Some(value) => {
                let (st, result) = spec_computed(
                    st, cx.return_type.dup(),
                    Rvalue::Cast {
                        operand: value.operand,
                        ty: cx.return_type.dup(),
                        kind: CastKind::InterfaceCoercion,
                    },
                    span,
                );
                spec_terminate(st, TerminatorKind::Return(Some(result)), span)
            },
            _ => {
                let st = spec_terminate(st, TerminatorKind::Unreachable, span);
                st
            },
        }
    }
}

impl Builder {
    /// The end of a generator: it returns an iterator over what it has yielded.
    pub(crate) fn finish_generator(&mut self, cx: &Context)
        ensures
            final(self)@ == spec_finish_generator(cx, old(self)@),
    {
        proof {
            reveal(spec_finish_generator);
        }
        if cx.generator_item_type.is_none() {
            return;
        }
        if cx.token(0).is_none() {
            self.terminate(
                TerminatorKind::Unreachable,
                crate::syntax::empty_span(File::Generator),
            );
            return;
        }
        let span = cx.span_at(0);
        let Some(value) = self.generator_iterator(cx) else {
            self.terminate(TerminatorKind::Unreachable, span);
            return;
        };
        let result = self.computed(
            cx.return_type.dup(),
            Rvalue::Cast {
                operand: value.operand,
                ty: cx.return_type.dup(),
                kind: CastKind::InterfaceCoercion,
            },
            span,
        );
        self.terminate(TerminatorKind::Return(Some(result)), span);
    }
}

/// A whole body, from the current position on.
#[verifier::opaque]
pub open spec fn spec_lower_body(cx: &Context, st: State, low: Lowering) -> State {
    let st = if cx.generator_item_type.is_some() {
        spec_start_generator(cx, st)
    } else {
        st
    };
    let st = spec_lower_parameter_bindings(cx, st, &cx.hir.binding_patterns, 0, low);
    let st = spec_lower_sequence(cx, st, None, low);
    let st = if spec_is_open(st) {
        spec_dispose_all(cx, st)
    } else {
        st
    };
    if let Some(finish) = st.finish {
        let st = if st.current != finish {
            spec_continue_at(st, finish, spec_first_span(st, File::Generator))
        } else {
            st
        };
        let st = State { current: finish, ..st };
        spec_finish_generator(cx, st)
    } else {
        st
    }
}

impl Builder {
    /// A whole body, from the current position on.
    pub(crate) fn lower_body(&mut self, cx: &Context, limit: usize)
        ensures
            final(self)@ == spec_lower_body(cx, old(self)@, lowering(limit as nat)),
        decreases limit, 7nat, 0nat,
    {
        proof {
            reveal(spec_lower_body);
        }
        if cx.generator_item_type.is_some() {
            self.start_generator(cx);
        }
        self.lower_parameter_bindings(cx, &cx.hir.binding_patterns, 0, limit);
        self.lower_sequence(cx, None, limit);
        if self.is_open() {
            self.dispose_all(cx);
        }
        if let Some(finish) = self.finish {
            if self.current != finish {
                self.continue_at(finish, self.first_span(File::Generator));
            }
            self.current = finish;
            self.finish_generator(cx);
        }
    }
}

} // verus!
