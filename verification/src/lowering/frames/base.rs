//! When a graph is continued, and that each step of building one continues it.

use vstd::prelude::*;

use crate::hir::{DeclarationId, HirLocalId, Type};
use crate::list::{cons, List};
use crate::lowering::builder::{
    spec_add_local, spec_bind_hir, spec_bind_receiver, spec_capture, spec_fresh_region, spec_manage,
    spec_new_block, spec_pop_handler, spec_pop_loop, spec_pop_scope, spec_push_handler,
    spec_push_loop, spec_push_scope, spec_restore_names, spec_specialize_method, spec_statement,
    spec_temporary, spec_terminate, BlockState, State,
};
use crate::lowering::context::Context;
use crate::lowering::emit::{CallSite, ErrorExit, SuspensionSite};
use crate::lowering::loops::CountedBlocks;
use crate::lowering::recursion::Lowering;
use crate::lowering::shape::base::fits;
use crate::lowering::switches::SwitchPlan;
use crate::mir::{BasicBlockId, LocalId, Operand, Rvalue, Statement, StatementKind, TerminatorKind};
use crate::names::Name;
use crate::syntax::Span;

verus! {

/// Whether two blocks have the same code, but for the types of methods that are looked up.
pub open spec fn has_same_code(before: BlockState, after: BlockState) -> bool {
    &&& before.terminator == after.terminator
    &&& before.statements.len() == after.statements.len()
    &&& forall|index: int|
        0 <= index < before.statements.len() ==> is_same_statement(
            before.statements[index],
            #[trigger] after.statements[index],
        )
}

/// Whether two statements are the same, but for the type of a method that is looked up.
pub open spec fn is_same_statement(before: Statement, after: Statement) -> bool {
    before == after || is_lookup(before.kind) && is_lookup(after.kind)
}

/// Whether a statement looks up a method.
pub open spec fn is_lookup(statement: StatementKind) -> bool {
    match statement {
        StatementKind::Assign(_, Rvalue::VtableLookup { .. }) => true,
        StatementKind::Assign(_, Rvalue::WitnessLookup { .. }) => true,
        StatementKind::Assign(_, Rvalue::DirectMethod { .. }) => true,
        _ => false,
    }
}

/// Whether a graph was continued from another at the block where that one goes on: all other blocks
/// have the code that they had, and it goes on in the same block or in one of its own.
#[verifier::opaque]
pub open spec fn continues(before: State, after: State) -> bool {
    &&& before.blocks.len() <= after.blocks.len()
    &&& after.current == before.current || after.current.0 >= before.blocks.len()
    &&& forall|index: int|
        0 <= index < before.blocks.len() && index != before.current.0 ==> has_same_code(
            before.blocks[index],
            #[trigger] after.blocks[index],
        )
}

/// Whether lowering nested code continues graphs.
pub open spec fn is_framed_lowering(low: Lowering) -> bool {
    &&& forall|cx: &Context, st: State, start: usize, end: usize, expected: Option<&Type>|
        {
            let after = #[trigger] (low.expression)(cx, st, start, end, expected);
            fits(after.0) ==> continues(st, after.0)
        }
    &&& forall|cx: &Context, st: State|
        {
            let after = #[trigger] (low.statement)(cx, st);
            fits(after) ==> continues(st, after)
        }
}

/// Whether a block is not one of a graph.
pub open spec fn is_new(block: BasicBlockId, base: State) -> bool {
    block.0 >= base.blocks.len()
}

/// Whether a block, if there is one, is not one of a graph.
pub open spec fn is_new_if_any(block: Option<BasicBlockId>, base: State) -> bool {
    match block {
        Some(block) => is_new(block, base),
        None => true,
    }
}

/// Whether none of some blocks is one of a graph.
pub open spec fn are_new(blocks: List<BasicBlockId>, base: State) -> bool
    decreases blocks,
{
    match blocks {
        List::Nil => true,
        List::Cons(head, tail) => is_new(*head, base) && are_new(*tail, base),
    }
}

/// Whether the block for errors, if there is one, is not one of a graph.
pub open spec fn is_new_exit(exit: Option<ErrorExit>, base: State) -> bool {
    match exit {
        Some(exit) => is_new(exit.block, base),
        None => true,
    }
}

/// Whether the blocks behind a call are not of a graph.
pub open spec fn is_new_call(site: CallSite, base: State) -> bool {
    is_new(site.success, base) && is_new_exit(site.error, base)
}

/// Whether the blocks behind a suspension are not of a graph.
pub open spec fn is_new_suspension(site: SuspensionSite, base: State) -> bool {
    is_new(site.resume, base) && is_new(site.cancel, base) && is_new_exit(site.error, base)
}

/// Whether the blocks of a counted loop are not of a graph.
pub open spec fn is_new_loop(blocks: CountedBlocks, base: State) -> bool {
    is_new(blocks.condition, base) && is_new(blocks.body, base) && is_new(blocks.increment, base)
        && is_new(blocks.exit, base)
}

/// Whether the blocks of a switch are not of a graph.
pub open spec fn is_new_plan(plan: SwitchPlan, base: State) -> bool {
    is_new(plan.otherwise, base) && is_new(plan.join, base)
}

pub broadcast proof fn lemma_are_new_cons(head: BasicBlockId, tail: List<BasicBlockId>, base: State)
    ensures
        #[trigger] are_new(cons(head, tail), base) <==> is_new(head, base) && are_new(tail, base),
{
}

pub broadcast proof fn lemma_are_new_nil(base: State)
    ensures
        #[trigger] are_new(List::Nil, base),
{
}

pub broadcast group group_frames {
    lemma_are_new_cons,
    lemma_are_new_nil,
}

proof fn lemma_same_code(block: BlockState)
    ensures
        has_same_code(block, block),
{
}

/// A graph continues itself.
pub proof fn lemma_continues_itself(st: State)
    ensures
        continues(st, st),
{
    reveal(continues);
}

/// A continued graph can be continued.
pub proof fn lemma_continues_on(base: State, st: State, next_st: State)
    ensures
        continues(base, st) && continues(st, next_st) ==> continues(base, next_st),
{
    reveal(continues);
    if continues(base, st) && continues(st, next_st) {
        assert forall|index: int|
            0 <= index < base.blocks.len() && index != base.current.0 implies has_same_code(
            base.blocks[index],
            #[trigger] next_st.blocks[index],
        ) by {
            assert(has_same_code(base.blocks[index], st.blocks[index]));
            assert(has_same_code(st.blocks[index], next_st.blocks[index]));
            let first = base.blocks[index].statements;
            let second = st.blocks[index].statements;
            let third = next_st.blocks[index].statements;
            assert forall|place: int| 0 <= place < first.len() implies is_same_statement(
                first[place],
                #[trigger] third[place],
            ) by {
                assert(is_same_statement(first[place], second[place]));
                assert(is_same_statement(second[place], third[place]));
            }
        }
    }
}

/// A graph with the same blocks that goes on in the same one.
pub proof fn frame_same(base: State, st: State, next_st: State)
    ensures
        st.blocks == next_st.blocks && st.current == next_st.current && continues(base, st)
            ==> continues(base, next_st),
{
    reveal(continues);
}

pub proof fn frame_set_current(base: State, st: State, current: BasicBlockId)
    ensures
        continues(base, st) && is_new(current, base) ==> continues(
            base,
            (State { current, ..st }),
        ),
{
    reveal(continues);
}

/// A graph in which only the current block is another.
proof fn lemma_current_changed(base: State, st: State, next_st: State)
    requires
        st.blocks.len() == next_st.blocks.len(),
        st.current == next_st.current,
        forall|index: int|
            0 <= index < st.blocks.len() && index != st.current.0 ==> st.blocks[index]
                == #[trigger] next_st.blocks[index],
    ensures
        continues(base, st) ==> continues(base, next_st),
{
    reveal(continues);
    if continues(base, st) {
        assert forall|index: int|
            0 <= index < base.blocks.len() && index != base.current.0 implies has_same_code(
            base.blocks[index],
            #[trigger] next_st.blocks[index],
        ) by {
            assert(has_same_code(base.blocks[index], st.blocks[index]));
        }
    }
}

pub proof fn frame_statement(base: State, st: State, kind: StatementKind, span: Span)
    ensures
        continues(base, st) ==> continues(base, spec_statement(st, kind, span)),
{
    reveal(spec_statement);
    lemma_current_changed(base, st, spec_statement(st, kind, span));
}

pub proof fn frame_terminate(base: State, st: State, kind: TerminatorKind, span: Span)
    ensures
        continues(base, st) ==> continues(base, spec_terminate(st, kind, span)),
{
    reveal(spec_terminate);
    lemma_current_changed(base, st, spec_terminate(st, kind, span));
}

pub proof fn frame_new_block(base: State, st: State)
    ensures
        ({
            let after = spec_new_block(st);
            fits(after.0) && continues(base, st) ==> continues(base, after.0) && is_new(
                after.1,
                base,
            )
        }),
{
    reveal(spec_new_block);
    reveal(continues);
    reveal(fits);
    let after = spec_new_block(st).0;
    if continues(base, st) {
        assert forall|index: int|
            0 <= index < base.blocks.len() && index != base.current.0 implies has_same_code(
            base.blocks[index],
            #[trigger] after.blocks[index],
        ) by {
            assert(has_same_code(base.blocks[index], st.blocks[index]));
        }
    }
}

pub proof fn frame_specialize_method(base: State, st: State, operand: &Operand, ty: &Type)
    ensures
        continues(base, st) ==> continues(base, spec_specialize_method(st, operand, ty)),
{
    reveal(spec_specialize_method);
    reveal(continues);
    let after = spec_specialize_method(st, operand, ty);
    if continues(base, st) {
        assert forall|index: int|
            0 <= index < base.blocks.len() && index != base.current.0 implies has_same_code(
            base.blocks[index],
            #[trigger] after.blocks[index],
        ) by {
            assert(has_same_code(base.blocks[index], st.blocks[index]));
            let first = base.blocks[index].statements;
            let second = st.blocks[index].statements;
            let third = after.blocks[index].statements;
            assert forall|place: int| 0 <= place < first.len() implies is_same_statement(
                first[place],
                #[trigger] third[place],
            ) by {
                assert(is_same_statement(first[place], second[place]));
            }
        }
    }
}

pub proof fn frame_add_local(
    base: State,
    st: State,
    name: Name,
    ty: Type,
    mutable: bool,
    argument: bool,
    span: Span,
)
    ensures
        continues(base, st)
            ==> continues(base, spec_add_local(st, name, ty, mutable, argument, span).0),
{
    reveal(spec_add_local);
    frame_same(base, st, spec_add_local(st, name, ty, mutable, argument, span).0);
}

pub proof fn frame_temporary(base: State, st: State, ty: Type, span: Span)
    ensures
        continues(base, st) ==> continues(base, spec_temporary(st, ty, span).0),
{
    reveal(spec_temporary);
    frame_same(base, st, spec_temporary(st, ty, span).0);
}

pub proof fn frame_fresh_region(base: State, st: State)
    ensures
        continues(base, st) ==> continues(base, spec_fresh_region(st).0),
{
    reveal(spec_fresh_region);
    frame_same(base, st, spec_fresh_region(st).0);
}

pub proof fn frame_bind_hir(base: State, st: State, hir: HirLocalId, local: LocalId)
    ensures
        continues(base, st) ==> continues(base, spec_bind_hir(st, hir, local)),
{
    reveal(spec_bind_hir);
    frame_same(base, st, spec_bind_hir(st, hir, local));
}

pub proof fn frame_capture(base: State, st: State, local: LocalId)
    ensures
        continues(base, st) ==> continues(base, spec_capture(st, local)),
{
    reveal(spec_capture);
    frame_same(base, st, spec_capture(st, local));
}

pub proof fn frame_bind_receiver(base: State, st: State, local: LocalId, receiver: Operand)
    ensures
        continues(base, st) ==> continues(base, spec_bind_receiver(st, local, receiver)),
{
    reveal(spec_bind_receiver);
    frame_same(base, st, spec_bind_receiver(st, local, receiver));
}

pub proof fn frame_push_loop(base: State, st: State, next: BasicBlockId, exit: BasicBlockId)
    ensures
        continues(base, st) ==> continues(base, spec_push_loop(st, next, exit)),
{
    reveal(spec_push_loop);
    frame_same(base, st, spec_push_loop(st, next, exit));
}

pub proof fn frame_pop_loop(base: State, st: State)
    ensures
        continues(base, st) ==> continues(base, spec_pop_loop(st)),
{
    reveal(spec_pop_loop);
    frame_same(base, st, spec_pop_loop(st));
}

pub proof fn frame_push_handler(
    base: State,
    st: State,
    dispatch: BasicBlockId,
    payload: LocalId,
    effects: List<DeclarationId>,
)
    ensures
        continues(base, st) ==> continues(base, spec_push_handler(st, dispatch, payload, effects)),
{
    reveal(spec_push_handler);
    frame_same(base, st, spec_push_handler(st, dispatch, payload, effects));
}

pub proof fn frame_pop_handler(base: State, st: State)
    ensures
        continues(base, st) ==> continues(base, spec_pop_handler(st)),
{
    reveal(spec_pop_handler);
    frame_same(base, st, spec_pop_handler(st));
}

pub proof fn frame_push_scope(base: State, st: State)
    ensures
        continues(base, st) ==> continues(base, spec_push_scope(st)),
{
    reveal(spec_push_scope);
    frame_same(base, st, spec_push_scope(st));
}

pub proof fn frame_pop_scope(base: State, st: State)
    ensures
        continues(base, st) ==> continues(base, spec_pop_scope(st).0),
{
    reveal(spec_pop_scope);
    frame_same(base, st, spec_pop_scope(st).0);
}

pub proof fn frame_manage(base: State, st: State, local: LocalId, token: usize)
    ensures
        continues(base, st) ==> continues(base, spec_manage(st, local, token)),
{
    reveal(spec_manage);
    frame_same(base, st, spec_manage(st, local, token));
}

pub proof fn frame_restore_names(base: State, st: State, count: usize)
    ensures
        continues(base, st) ==> continues(base, spec_restore_names(st, count)),
{
    reveal(spec_restore_names);
    frame_same(base, st, spec_restore_names(st, count));
}

} // verus!
