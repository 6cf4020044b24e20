//! When a graph is well formed, and what each step of building one keeps of that.

use vstd::prelude::*;

use crate::hir::{DeclarationId, HirLocalId, MemberId, Type};
use crate::list::{list_of, List};
use crate::lowering::builder::{
    body_view, empty_state, finished_block, last_bound, last_lowered, last_named, managed_from,
    spec_active_disposals, spec_add_closure, spec_add_local, spec_bind_hir, spec_bind_receiver,
    spec_capture, spec_finish, spec_fresh_region, spec_handler, spec_innermost_loop,
    spec_lowered_local, spec_manage, spec_named_local, spec_new_block, spec_pop_handler,
    spec_pop_loop, spec_pop_scope, spec_push_handler, spec_push_loop, spec_push_scope,
    spec_receiver_of, spec_restore_names, spec_specialize_method, spec_statement, spec_temporary,
    spec_terminate, BodyView, BoundReceiver, Managed, State,
};
use crate::lowering::context::Context;
use crate::lowering::emit::{CallSite, ErrorExit, SuspensionSite, TypedPlace, Value};
use crate::lowering::recursion::Lowering;
use crate::mir::{
    operand_place_ref, BasicBlockId, Body, LocalId, Operand, Place, Projection, Rvalue, Statement,
    StatementKind, SwitchTarget, TerminatorKind,
};
use crate::names::Name;
use crate::syntax::Span;

verus! {

/// Whether a local stands as an index in the steps to a part of a value.
pub open spec fn way_names(way: List<Projection>, local: LocalId) -> bool
    decreases way,
{
    match way {
        List::Nil => false,
        List::Cons(head, tail) => *head == Projection::Index(local) || way_names(*tail, local),
    }
}

/// Whether a place names a local.
pub open spec fn place_names(place: Place, local: LocalId) -> bool {
    place.local == local || way_names(place.projection, local)
}

/// Whether an operand names a local.
pub open spec fn operand_names(operand: Operand, local: LocalId) -> bool {
    match operand {
        Operand::Copy(place) => place_names(place, local),
        Operand::Move(place) => place_names(place, local),
        Operand::Constant(_) => false,
    }
}

/// Whether one of the operands names a local.
pub open spec fn operands_name(operands: List<Operand>, local: LocalId) -> bool
    decreases operands,
{
    match operands {
        List::Nil => false,
        List::Cons(head, tail) => operand_names(*head, local) || operands_name(*tail, local),
    }
}

/// Whether a computed value names a local.
pub open spec fn rvalue_names(rvalue: Rvalue, local: LocalId) -> bool {
    match rvalue {
        Rvalue::Use(operand) => operand_names(operand, local),
        Rvalue::Unary { operand, .. } => operand_names(operand, local),
        Rvalue::Cast { operand, .. } => operand_names(operand, local),
        Rvalue::TypeTest { operand, .. } => operand_names(operand, local),
        Rvalue::CheckedBinary { left, right, .. } => operand_names(left, local) || operand_names(
            right,
            local,
        ),
        Rvalue::CheckedIndex { collection, index } => place_names(collection, local)
            || operand_names(index, local),
        Rvalue::Aggregate { fields, .. } => operands_name(fields, local),
        Rvalue::Template { captures, .. } => operands_name(captures, local),
        Rvalue::Closure { captures, .. } => operands_name(captures, local),
        Rvalue::Length(place) => place_names(place, local),
        Rvalue::VtableLookup { object, .. } => place_names(object, local),
        Rvalue::WitnessLookup { object, .. } => place_names(object, local),
        Rvalue::DirectMethod { object, .. } => place_names(object, local),
        Rvalue::RawOperation { operands, .. } => operands_name(operands, local),
    }
}

/// Whether a statement names a local.
pub open spec fn statement_names(statement: StatementKind, local: LocalId) -> bool {
    match statement {
        StatementKind::Assign(place, rvalue) => place_names(place, local) || rvalue_names(
            rvalue,
            local,
        ),
        StatementKind::Borrow { destination, place, .. } => destination == local || place_names(
            place,
            local,
        ),
        StatementKind::StorageLive(other) => other == local,
        StatementKind::StorageDead(other) => other == local,
        StatementKind::SetDiscriminant(place, _) => place_names(place, local),
        StatementKind::Retag(place) => place_names(place, local),
        StatementKind::SetDropFlag(place, _) => place_names(place, local),
    }
}

/// Whether an optional place names a local.
pub open spec fn optional_place_names(place: Option<Place>, local: LocalId) -> bool {
    match place {
        Some(place) => place_names(place, local),
        None => false,
    }
}

/// Whether an optional operand names a local.
pub open spec fn optional_operand_names(operand: Option<Operand>, local: LocalId) -> bool {
    match operand {
        Some(operand) => operand_names(operand, local),
        None => false,
    }
}

/// Whether a terminator names a local.
pub open spec fn terminator_names(terminator: TerminatorKind, local: LocalId) -> bool {
    match terminator {
        TerminatorKind::Goto(_) => false,
        TerminatorKind::Switch { value, .. } => operand_names(value, local),
        TerminatorKind::Call {
            function,
            receiver,
            arguments,
            destination,
            error_destination,
            ..
        } => operand_names(function, local) || optional_operand_names(receiver, local)
            || operands_name(arguments, local) || optional_place_names(destination, local)
            || optional_place_names(error_destination, local),
        TerminatorKind::Suspend { value, destination, error_destination, .. } => operand_names(
            value,
            local,
        ) || optional_place_names(destination, local) || optional_place_names(
            error_destination,
            local,
        ),
        TerminatorKind::Drop { place, .. } => place_names(place, local),
        TerminatorKind::Return(value) => optional_operand_names(value, local),
        TerminatorKind::Throw(value) => operand_names(value, local),
        TerminatorKind::TaggedReturn { payload, .. } => optional_operand_names(payload, local),
        TerminatorKind::Abort => false,
        TerminatorKind::Unreachable => false,
    }
}

/// Whether one of the targets is a block.
pub open spec fn targets_lead(targets: List<SwitchTarget>, block: BasicBlockId) -> bool
    decreases targets,
{
    match targets {
        List::Nil => false,
        List::Cons(head, tail) => head.block == block || targets_lead(*tail, block),
    }
}

/// Whether control can go from a terminator to a block.
pub open spec fn terminator_leads(terminator: TerminatorKind, block: BasicBlockId) -> bool {
    match terminator {
        TerminatorKind::Goto(target) => target == block,
        TerminatorKind::Switch { targets, otherwise, .. } => otherwise == block || targets_lead(
            targets,
            block,
        ),
        TerminatorKind::Call { success, error, .. } => success == block || error == Some(block),
        TerminatorKind::Suspend { resume, error, cancel, .. } => resume == block || cancel == block
            || error == Some(block),
        TerminatorKind::Drop { success, .. } => success == block,
        _ => false,
    }
}

/// The numbers of locals, blocks and closures of a body.
pub struct Bounds {
    pub locals: nat,
    pub blocks: nat,
    pub closures: nat,
}

/// Whether every local that a place names is one of the body.
pub open spec fn place_fits(place: Place, bounds: Bounds) -> bool {
    forall|local: LocalId| #[trigger] place_names(place, local) ==> local.0 < bounds.locals
}

/// Whether every local that an operand names is one of the body.
pub open spec fn operand_fits(operand: Operand, bounds: Bounds) -> bool {
    forall|local: LocalId| #[trigger] operand_names(operand, local) ==> local.0 < bounds.locals
}

/// Whether every local that the operands name is one of the body.
pub open spec fn operands_fit(operands: List<Operand>, bounds: Bounds) -> bool {
    forall|local: LocalId| #[trigger] operands_name(operands, local) ==> local.0 < bounds.locals
}

/// Whether every local that a value names is one of the body, and so is the closure that it makes.
pub open spec fn rvalue_fits(rvalue: Rvalue, bounds: Bounds) -> bool {
    &&& forall|local: LocalId| #[trigger] rvalue_names(rvalue, local) ==> local.0 < bounds.locals
    &&& match rvalue {
        Rvalue::Closure { body, .. } => body < bounds.closures,
        _ => true,
    }
}

/// Whether every local that a statement names is one of the body, and so is the closure that it
/// makes.
pub open spec fn statement_fits(statement: StatementKind, bounds: Bounds) -> bool {
    &&& forall|local: LocalId| #[trigger]
        statement_names(statement, local) ==> local.0 < bounds.locals
    &&& match statement {
        StatementKind::Assign(_, Rvalue::Closure { body, .. }) => body < bounds.closures,
        _ => true,
    }
}

/// Whether every local that a terminator names and every block that it leads to is one of the
/// body.
pub open spec fn terminator_fits(terminator: TerminatorKind, bounds: Bounds) -> bool {
    &&& forall|local: LocalId| #[trigger]
        terminator_names(terminator, local) ==> local.0 < bounds.locals
    &&& forall|block: BasicBlockId| #[trigger]
        terminator_leads(terminator, block) ==> block.0 < bounds.blocks
}

/// Whether every block that targets lead to is one of the body.
pub open spec fn targets_fit(targets: List<SwitchTarget>, bounds: Bounds) -> bool {
    forall|block: BasicBlockId| #[trigger] targets_lead(targets, block) ==> block.0 < bounds.blocks
}

/// Whether statements and a terminator stay within a body.
pub open spec fn code_fits(
    statements: Seq<Statement>,
    terminator: Option<TerminatorKind>,
    bounds: Bounds,
) -> bool {
    &&& forall|index: int|
        0 <= index < statements.len() ==> statement_fits(
            (#[trigger] statements[index]).kind,
            bounds,
        )
    &&& match terminator {
        Some(terminator) => terminator_fits(terminator, bounds),
        None => true,
    }
}

/// The bounds of a finished body.
pub open spec fn body_bounds(body: BodyView) -> Bounds {
    Bounds {
        locals: body.locals.len(),
        blocks: body.blocks.len(),
        closures: body.closures.len(),
    }
}

/// Whether a body is well formed: every local, block and closure that it names is its own, and its
/// closures are well formed as well.
pub open spec fn is_well_formed(body: BodyView) -> bool
    decreases body,
{
    &&& body.blocks.len() > 0
    &&& forall|index: int|
        0 <= index < body.blocks.len() ==> code_fits(
            (#[trigger] body.blocks[index]).statements,
            Some(body.blocks[index].terminator.kind),
            body_bounds(body),
        )
    &&& forall|index: int|
        0 <= index < body.closures.len() ==> is_well_formed(#[trigger] body.closures[index])
}

/// Whether the locals, blocks and closures of a body can be counted.
pub open spec fn is_countable(body: BodyView) -> bool
    decreases body,
{
    &&& body.locals.len() <= usize::MAX
    &&& body.blocks.len() <= usize::MAX
    &&& body.closures.len() <= usize::MAX
    &&& forall|index: int|
        0 <= index < body.closures.len() ==> is_countable(#[trigger] body.closures[index])
}

/// The bounds of a graph that is being built.
pub open spec fn bounds_of(st: State) -> Bounds {
    Bounds { locals: st.locals.len(), blocks: st.blocks.len(), closures: st.closures.len() }
}

/// Whether the locals, blocks and closures of a graph can be counted.
#[verifier::opaque]
pub open spec fn fits(st: State) -> bool {
    &&& st.locals.len() <= usize::MAX
    &&& st.blocks.len() <= usize::MAX
    &&& st.closures.len() <= usize::MAX
    &&& forall|index: int|
        0 <= index < st.closures.len() ==> is_countable(#[trigger] st.closures[index])
}

/// Whether a graph has all that another has.
#[verifier::opaque]
pub open spec fn grows(before: State, after: State) -> bool {
    &&& before.locals.len() <= after.locals.len()
    &&& before.blocks.len() <= after.blocks.len()
    &&& before.closures.len() <= after.closures.len()
    &&& forall|index: int|
        0 <= index < before.closures.len() ==> #[trigger] after.closures[index]
            == before.closures[index]
}

/// Whether a graph is well formed, and everything that is known while it is built is of it.
#[verifier::opaque]
pub open spec fn is_sound(st: State) -> bool {
    &&& st.current.0 < st.blocks.len()
    &&& forall|index: int|
        0 <= index < st.blocks.len() ==> code_fits(
            (#[trigger] st.blocks[index]).statements,
            match st.blocks[index].terminator {
                Some(terminator) => Some(terminator.kind),
                None => None,
            },
            bounds_of(st),
        )
    &&& forall|index: int|
        0 <= index < st.closures.len() ==> is_well_formed(#[trigger] st.closures[index])
    &&& forall|index: int|
        0 <= index < st.names.len() ==> (#[trigger] st.names[index]).local.0 < st.locals.len()
    &&& forall|index: int|
        0 <= index < st.hir_locals.len() ==> (#[trigger] st.hir_locals[index]).local.0
            < st.locals.len()
    &&& forall|index: int|
        0 <= index < st.bound.len() ==> operand_fits(
            (#[trigger] st.bound[index]).receiver,
            bounds_of(st),
        )
    &&& forall|index: int|
        0 <= index < st.loops.len() ==> (#[trigger] st.loops[index]).next.0 < st.blocks.len()
            && st.loops[index].exit.0 < st.blocks.len()
    &&& forall|index: int|
        0 <= index < st.handlers.len() ==> (#[trigger] st.handlers[index]).dispatch.0
            < st.blocks.len() && st.handlers[index].payload.0 < st.locals.len()
    &&& forall|index: int, other: int|
        0 <= index < st.scopes.len() && 0 <= other < st.scopes[index].len() ==> (
        #[trigger] st.scopes[index][other]).local.0 < st.locals.len()
    &&& match st.buffer {
        Some(buffer) => buffer.0 < st.locals.len(),
        None => true,
    }
    &&& match st.finish {
        Some(finish) => finish.0 < st.blocks.len(),
        None => true,
    }
}

/// What a step keeps of a graph.
pub open spec fn keeps(before: State, after: State) -> bool {
    grows(before, after) && (fits(after) && is_sound(before) ==> is_sound(after))
}

pub proof fn lemma_grows_fits(before: State, after: State)
    requires
        grows(before, after),
        fits(after),
    ensures
        fits(before),
{
    reveal(grows);
    reveal(fits);
    assert forall|index: int| 0 <= index < before.closures.len() implies is_countable(
        #[trigger] before.closures[index],
    ) by {
        assert(after.closures[index] == before.closures[index]);
    }
}

/// Growth can be continued.
pub proof fn lemma_grows_on(first: State, second: State, third: State)
    requires
        grows(first, second),
        grows(second, third),
    ensures
        grows(first, third),
{
    reveal(grows);
}

/// A graph has all that itself has.
pub proof fn lemma_grows_itself(st: State)
    ensures
        grows(st, st),
{
    reveal(grows);
}

/// A larger graph has no less of anything, and where it can be counted, so can the smaller one.
pub broadcast proof fn lemma_growth(before: State, after: State)
    requires
        #[trigger] grows(before, after),
    ensures
        before.locals.len() <= after.locals.len(),
        before.blocks.len() <= after.blocks.len(),
        before.closures.len() <= after.closures.len(),
        fits(after) ==> fits(before),
{
    reveal(grows);
    if fits(after) {
        lemma_grows_fits(before, after);
    }
}

/// Whether bounds are no less than others.
pub open spec fn is_within(small: Bounds, large: Bounds) -> bool {
    small.locals <= large.locals && small.blocks <= large.blocks && small.closures
        <= large.closures
}

pub proof fn lemma_code_within(
    statements: Seq<Statement>,
    terminator: Option<TerminatorKind>,
    small: Bounds,
    large: Bounds,
)
    requires
        code_fits(statements, terminator, small),
        is_within(small, large),
    ensures
        code_fits(statements, terminator, large),
{
    assert forall|index: int| 0 <= index < statements.len() implies statement_fits(
        (#[trigger] statements[index]).kind,
        large,
    ) by {
        assert(statement_fits(statements[index].kind, small));
    }
}

/// A graph stays sound when it grows and its old blocks stay as they are.
proof fn lemma_sound_when_larger(before: State, after: State)
    requires
        is_sound(before),
        is_within(bounds_of(before), bounds_of(after)),
        forall|index: int|
            0 <= index < before.blocks.len() ==> #[trigger] after.blocks[index]
                == before.blocks[index],
    ensures
        forall|index: int|
            0 <= index < before.blocks.len() ==> code_fits(
                (#[trigger] after.blocks[index]).statements,
                match after.blocks[index].terminator {
                    Some(terminator) => Some(terminator.kind),
                    None => None,
                },
                bounds_of(after),
            ),
{
    reveal(is_sound);
    assert forall|index: int| 0 <= index < before.blocks.len() implies code_fits(
        (#[trigger] after.blocks[index]).statements,
        match after.blocks[index].terminator {
            Some(terminator) => Some(terminator.kind),
            None => None,
        },
        bounds_of(after),
    ) by {
        let block = before.blocks[index];
        lemma_code_within(
            block.statements,
            match block.terminator {
                Some(terminator) => Some(terminator.kind),
                None => None,
            },
            bounds_of(before),
            bounds_of(after),
        );
    }
}

pub proof fn lemma_add_local(
    st: State,
    name: Name,
    ty: Type,
    mutable: bool,
    argument: bool,
    span: Span,
)
    ensures
        ({
            let after = spec_add_local(st, name, ty, mutable, argument, span);
            &&& grows(st, after.0)
            &&& fits(after.0) ==> after.1.0 < after.0.locals.len()
            &&& fits(after.0) && is_sound(st) ==> is_sound(after.0)
        }),
{
    let after = spec_add_local(st, name, ty, mutable, argument, span);
    reveal(spec_add_local);
    reveal(grows);
    reveal(fits);
    if fits(after.0) && is_sound(st) {
        lemma_sound_when_larger(st, after.0);
        reveal(is_sound);
    }
}

pub proof fn lemma_temporary(st: State, ty: Type, span: Span)
    ensures
        ({
            let after = spec_temporary(st, ty, span);
            &&& grows(st, after.0)
            &&& fits(after.0) ==> after.1.0 < after.0.locals.len()
            &&& fits(after.0) && is_sound(st) ==> is_sound(after.0)
        }),
{
    let after = spec_temporary(st, ty, span);
    reveal(spec_temporary);
    reveal(grows);
    reveal(fits);
    if fits(after.0) && is_sound(st) {
        lemma_sound_when_larger(st, after.0);
        reveal(is_sound);
    }
}

pub proof fn lemma_statement(st: State, kind: StatementKind, span: Span)
    ensures
        ({
            let after = spec_statement(st, kind, span);
            &&& grows(st, after)
            &&& fits(after) && is_sound(st) && statement_fits(kind, bounds_of(st)) ==> is_sound(
                after,
            )
        }),
{
    reveal(spec_statement);
    reveal(grows);
    reveal(fits);
    reveal(is_sound);
    let after = spec_statement(st, kind, span);
    if fits(after) && is_sound(st) && statement_fits(kind, bounds_of(st)) {
        assert forall|index: int| 0 <= index < after.blocks.len() implies code_fits(
            (#[trigger] after.blocks[index]).statements,
            match after.blocks[index].terminator {
                Some(terminator) => Some(terminator.kind),
                None => None,
            },
            bounds_of(after),
        ) by {
            let old = st.blocks[index];
            let statements = after.blocks[index].statements;
            assert forall|other: int| 0 <= other < statements.len() implies statement_fits(
                (#[trigger] statements[other]).kind,
                bounds_of(after),
            ) by {
                if other < old.statements.len() {
                    assert(statement_fits(old.statements[other].kind, bounds_of(st)));
                }
            }
        }
    }
}

pub proof fn lemma_terminate(st: State, kind: TerminatorKind, span: Span)
    ensures
        ({
            let after = spec_terminate(st, kind, span);
            &&& grows(st, after)
            &&& fits(after) && is_sound(st) && terminator_fits(kind, bounds_of(st)) ==> is_sound(
                after,
            )
        }),
{
    reveal(spec_terminate);
    reveal(grows);
    reveal(fits);
    reveal(is_sound);
    let after = spec_terminate(st, kind, span);
    if fits(after) && is_sound(st) && terminator_fits(kind, bounds_of(st)) {
        assert forall|index: int| 0 <= index < after.blocks.len() implies code_fits(
            (#[trigger] after.blocks[index]).statements,
            match after.blocks[index].terminator {
                Some(terminator) => Some(terminator.kind),
                None => None,
            },
            bounds_of(after),
        ) by {
            let old = st.blocks[index];
            assert(after.blocks[index].statements == old.statements);
        }
    }
}

pub proof fn lemma_new_block(st: State)
    ensures
        ({
            let after = spec_new_block(st);
            &&& grows(st, after.0)
            &&& fits(after.0) ==> after.1.0 < after.0.blocks.len()
            &&& fits(after.0) && is_sound(st) ==> is_sound(after.0)
        }),
{
    let after = spec_new_block(st);
    reveal(spec_new_block);
    reveal(grows);
    reveal(fits);
    if fits(after.0) && is_sound(st) {
        lemma_sound_when_larger(st, after.0);
        reveal(is_sound);
    }
}

pub proof fn lemma_fresh_region(st: State)
    ensures
        keeps(st, spec_fresh_region(st).0),
{
    reveal(spec_fresh_region);
    reveal(grows);
    reveal(is_sound);
}

pub proof fn lemma_bind_hir(st: State, hir: HirLocalId, local: LocalId)
    ensures
        grows(st, spec_bind_hir(st, hir, local)),
        fits(spec_bind_hir(st, hir, local)) && is_sound(st) && local.0 < st.locals.len()
            ==> is_sound(spec_bind_hir(st, hir, local)),
{
    reveal(spec_bind_hir);
    reveal(grows);
    reveal(is_sound);
}

pub proof fn lemma_capture(st: State, local: LocalId)
    ensures
        keeps(st, spec_capture(st, local)),
{
    reveal(spec_capture);
    reveal(grows);
    reveal(is_sound);
}

pub proof fn lemma_bind_receiver(st: State, local: LocalId, receiver: Operand)
    ensures
        grows(st, spec_bind_receiver(st, local, receiver)),
        fits(spec_bind_receiver(st, local, receiver)) && is_sound(st) && operand_fits(
            receiver,
            bounds_of(st),
        ) ==> is_sound(spec_bind_receiver(st, local, receiver)),
{
    reveal(spec_bind_receiver);
    reveal(grows);
    reveal(is_sound);
}

pub proof fn lemma_push_loop(st: State, next: BasicBlockId, exit: BasicBlockId)
    ensures
        grows(st, spec_push_loop(st, next, exit)),
        fits(spec_push_loop(st, next, exit)) && is_sound(st) && next.0 < st.blocks.len() && exit.0
            < st.blocks.len() ==> is_sound(spec_push_loop(st, next, exit)),
{
    reveal(spec_push_loop);
    reveal(grows);
    reveal(is_sound);
}

pub proof fn lemma_pop_loop(st: State)
    ensures
        keeps(st, spec_pop_loop(st)),
{
    reveal(spec_pop_loop);
    reveal(grows);
    reveal(is_sound);
}

pub proof fn lemma_innermost_loop(st: State)
    ensures
        is_sound(st) ==> match spec_innermost_loop(st) {
            Some(target) => target.next.0 < st.blocks.len() && target.exit.0 < st.blocks.len(),
            None => true,
        },
{
    reveal(spec_innermost_loop);
    reveal(is_sound);
}

pub proof fn lemma_push_handler(
    st: State,
    dispatch: BasicBlockId,
    payload: LocalId,
    effects: List<DeclarationId>,
)
    ensures
        grows(st, spec_push_handler(st, dispatch, payload, effects)),
        fits(spec_push_handler(st, dispatch, payload, effects)) && is_sound(st) && dispatch.0
            < st.blocks.len() && payload.0 < st.locals.len() ==> is_sound(
            spec_push_handler(st, dispatch, payload, effects),
        ),
{
    reveal(spec_push_handler);
    reveal(grows);
    reveal(is_sound);
}

pub proof fn lemma_pop_handler(st: State)
    ensures
        keeps(st, spec_pop_handler(st)),
{
    reveal(spec_pop_handler);
    reveal(grows);
    reveal(is_sound);
}

pub proof fn lemma_handler(st: State)
    ensures
        is_sound(st) ==> match spec_handler(st) {
            Some(handler) => handler.dispatch.0 < st.blocks.len() && handler.payload.0
                < st.locals.len(),
            None => true,
        },
{
    reveal(spec_handler);
    reveal(is_sound);
}

/// Whether one of the managed locals is a local.
pub open spec fn managed_names(managed: List<Managed>, local: LocalId) -> bool
    decreases managed,
{
    match managed {
        List::Nil => false,
        List::Cons(head, tail) => head.local == local || managed_names(*tail, local),
    }
}

/// Whether the managed locals are of a body.
pub open spec fn managed_fit(managed: List<Managed>, bounds: Bounds) -> bool {
    forall|local: LocalId| #[trigger] managed_names(managed, local) ==> local.0 < bounds.locals
}

proof fn lemma_managed_list(managed: Seq<Managed>, bound: nat)
    requires
        forall|index: int|
            0 <= index < managed.len() ==> (#[trigger] managed[index]).local.0 < bound,
    ensures
        forall|local: LocalId| #[trigger]
            managed_names(list_of(managed), local) ==> local.0 < bound,
    decreases managed.len(),
{
    if managed.len() > 0 {
        assert forall|index: int| 0 <= index < managed.drop_first().len() implies (
        #[trigger] managed.drop_first()[index]).local.0 < bound by {
            assert(managed[index + 1].local.0 < bound);
        }
        lemma_managed_list(managed.drop_first(), bound);
        assert(managed[0].local.0 < bound);
        assert forall|local: LocalId| #[trigger]
            managed_names(list_of(managed), local) implies local.0 < bound by {
            assert(managed.first().local == local || managed_names(
                list_of(managed.drop_first()),
                local,
            ));
        }
    } else {
        assert(list_of(managed) is Nil);
    }
}

pub proof fn lemma_push_scope(st: State)
    ensures
        keeps(st, spec_push_scope(st)),
{
    reveal(spec_push_scope);
    reveal(grows);
    reveal(is_sound);
}

pub proof fn lemma_pop_scope(st: State)
    ensures
        keeps(st, spec_pop_scope(st).0),
        is_sound(st) ==> managed_fit(spec_pop_scope(st).1, bounds_of(spec_pop_scope(st).0)),
{
    reveal(spec_pop_scope);
    reveal(grows);
    reveal(is_sound);
    if is_sound(st) && st.scopes.len() > 0 {
        let last = st.scopes.last();
        assert forall|index: int| 0 <= index < last.len() implies (#[trigger] last[index]).local.0
            < st.locals.len() by {
            assert(st.scopes[st.scopes.len() - 1][index].local.0 < st.locals.len());
        }
        lemma_managed_list(last, st.locals.len());
    }
}

pub proof fn lemma_manage(st: State, local: LocalId, token: usize)
    ensures
        grows(st, spec_manage(st, local, token)),
        fits(spec_manage(st, local, token)) && is_sound(st) && local.0 < st.locals.len()
            ==> is_sound(spec_manage(st, local, token)),
{
    reveal(spec_manage);
    reveal(grows);
    reveal(is_sound);
    let after = spec_manage(st, local, token);
    if is_sound(st) && local.0 < st.locals.len() {
        assert forall|index: int, other: int|
            0 <= index < after.scopes.len() && 0 <= other < after.scopes[index].len() implies (
        #[trigger] after.scopes[index][other]).local.0 < after.locals.len() by {
            if index < st.scopes.len() && other < st.scopes[index].len() {
                assert(st.scopes[index][other].local.0 < st.locals.len());
            }
        }
    }
}

proof fn lemma_managed_from(scopes: Seq<Seq<Managed>>, from: nat, bound: nat)
    requires
        forall|index: int, other: int|
            0 <= index < scopes.len() && 0 <= other < scopes[index].len() ==> (
            #[trigger] scopes[index][other]).local.0 < bound,
    ensures
        forall|index: int|
            0 <= index < managed_from(scopes, from).len() ==> (#[trigger] managed_from(
                scopes,
                from,
            )[index]).local.0 < bound,
    decreases scopes.len() - from,
{
    if from < scopes.len() {
        lemma_managed_from(scopes, from + 1, bound);
        let all = managed_from(scopes, from);
        let first = scopes[from as int];
        assert forall|index: int| 0 <= index < all.len() implies (#[trigger] all[index]).local.0
            < bound by {
            if index < first.len() {
                assert(all[index] == scopes[from as int][index]);
            } else {
                assert(all[index] == managed_from(scopes, from + 1)[index - first.len()]);
            }
        }
    }
}

pub proof fn lemma_active_disposals(st: State, depth: usize)
    ensures
        is_sound(st) ==> managed_fit(spec_active_disposals(st, depth), bounds_of(st)),
{
    reveal(spec_active_disposals);
    reveal(is_sound);
    if is_sound(st) {
        lemma_managed_from(st.scopes, depth as nat, st.locals.len());
        lemma_managed_list(managed_from(st.scopes, depth as nat), st.locals.len());
    }
}

pub proof fn lemma_restore_names(st: State, count: usize)
    ensures
        keeps(st, spec_restore_names(st, count)),
{
    reveal(spec_restore_names);
    reveal(grows);
    reveal(is_sound);
}

pub proof fn lemma_named_local(st: State, name: Name)
    ensures
        is_sound(st) ==> match spec_named_local(st, name) {
            Some(local) => local.0 < st.locals.len(),
            None => true,
        },
{
    reveal(spec_named_local);
    if is_sound(st) {
        reveal(is_sound);
        lemma_last_named(st.names, name, st.locals.len());
    }
}

proof fn lemma_last_named(
    names: Seq<crate::lowering::builder::NamedLocal>,
    name: Name,
    bound: nat,
)
    requires
        forall|index: int| 0 <= index < names.len() ==> (#[trigger] names[index]).local.0 < bound,
    ensures
        match last_named(names, name) {
            Some(local) => local.0 < bound,
            None => true,
        },
    decreases names.len(),
{
    if names.len() > 0 && names.last().name != name {
        lemma_last_named(names.drop_last(), name, bound);
    }
}

pub proof fn lemma_lowered_local(st: State, hir: HirLocalId)
    ensures
        is_sound(st) ==> match spec_lowered_local(st, hir) {
            Some(local) => local.0 < st.locals.len(),
            None => true,
        },
{
    reveal(spec_lowered_local);
    if is_sound(st) {
        reveal(is_sound);
        lemma_last_lowered(st.hir_locals, hir, st.locals.len());
    }
}

proof fn lemma_last_lowered(
    locals: Seq<crate::lowering::builder::LoweredLocal>,
    hir: HirLocalId,
    bound: nat,
)
    requires
        forall|index: int|
            0 <= index < locals.len() ==> (#[trigger] locals[index]).local.0 < bound,
    ensures
        match last_lowered(locals, hir) {
            Some(local) => local.0 < bound,
            None => true,
        },
    decreases locals.len(),
{
    if locals.len() > 0 && locals.last().hir != hir {
        lemma_last_lowered(locals.drop_last(), hir, bound);
    }
}

/// The locals of a graph that can be counted are counted.
pub proof fn lemma_local_count(st: State)
    ensures
        fits(st) ==> crate::lowering::builder::spec_local_count(st) == st.locals.len(),
{
    reveal(crate::lowering::builder::spec_local_count);
    reveal(fits);
}

/// Whether every local that an optional operand names is one of the body.
pub open spec fn optional_operand_fits(operand: Option<Operand>, bounds: Bounds) -> bool {
    match operand {
        Some(operand) => operand_fits(operand, bounds),
        None => true,
    }
}

pub proof fn lemma_receiver_of(st: State, function: &Operand)
    ensures
        is_sound(st) ==> optional_operand_fits(spec_receiver_of(st, function), bounds_of(st)),
{
    reveal(spec_receiver_of);
    if is_sound(st) {
        reveal(is_sound);
        match operand_place_ref(function) {
            Some(place) => {
                lemma_last_bound(st.bound, place.local, bounds_of(st));
            },
            None => {},
        }
    }
}

proof fn lemma_last_bound(bound: Seq<BoundReceiver>, local: LocalId, bounds: Bounds)
    requires
        forall|index: int|
            0 <= index < bound.len() ==> operand_fits((#[trigger] bound[index]).receiver, bounds),
    ensures
        optional_operand_fits(last_bound(bound, local), bounds),
    decreases bound.len(),
{
    if bound.len() > 0 && bound.last().local != local {
        lemma_last_bound(bound.drop_last(), local, bounds);
    }
}

pub proof fn lemma_specialize_method(st: State, operand: &Operand, ty: &Type)
    ensures
        keeps(st, spec_specialize_method(st, operand, ty)),
{
    reveal(spec_specialize_method);
    reveal(grows);
    let after = spec_specialize_method(st, operand, ty);
    if is_sound(st) {
        reveal(is_sound);
        assert forall|index: int| 0 <= index < after.blocks.len() implies code_fits(
            (#[trigger] after.blocks[index]).statements,
            match after.blocks[index].terminator {
                Some(terminator) => Some(terminator.kind),
                None => None,
            },
            bounds_of(after),
        ) by {
            let old = st.blocks[index];
            let statements = after.blocks[index].statements;
            assert(after.blocks[index].terminator == old.terminator);
            assert forall|other: int| 0 <= other < statements.len() implies statement_fits(
                (#[trigger] statements[other]).kind,
                bounds_of(after),
            ) by {
                let kind = old.statements[other].kind;
                assert(statement_fits(kind, bounds_of(st)));
                assert forall|local: LocalId| #[trigger]
                    statement_names(statements[other].kind, local) implies local.0
                    < bounds_of(after).locals by {
                    assert(statement_names(kind, local));
                }
            }
        }
    }
}

pub proof fn lemma_add_closure(st: State, body: BodyView)
    ensures
        ({
            let after = spec_add_closure(st, body);
            &&& grows(st, after.0)
            &&& fits(after.0) ==> is_countable(body)
            &&& fits(after.0) ==> after.1 < after.0.closures.len()
            &&& fits(after.0) && is_sound(st) && is_well_formed(body) ==> is_sound(after.0)
        }),
{
    let after = spec_add_closure(st, body);
    reveal(spec_add_closure);
    reveal(grows);
    reveal(fits);
    if fits(after.0) {
        assert(after.0.closures[st.closures.len() as int] == body);
    }
    if fits(after.0) && is_sound(st) && is_well_formed(body) {
        lemma_sound_when_larger(st, after.0);
        reveal(is_sound);
    }
}

pub proof fn lemma_set_current(st: State, current: BasicBlockId)
    ensures
        grows(st, (State { current, ..st })),
        is_sound(st) && current.0 < st.blocks.len() ==> is_sound((State { current, ..st })),
{
    reveal(grows);
    reveal(is_sound);
}

pub proof fn lemma_set_index(st: State, index: usize)
    ensures
        grows(st, (State { index, ..st })),
        is_sound(st) ==> is_sound((State { index, ..st })),
{
    reveal(grows);
    reveal(is_sound);
}

pub proof fn lemma_set_buffer(st: State, buffer: Option<LocalId>)
    ensures
        grows(st, (State { buffer, ..st })),
        is_sound(st) && (match buffer {
            Some(local) => local.0 < st.locals.len(),
            None => true,
        }) ==> is_sound((State { buffer, ..st })),
{
    reveal(grows);
    reveal(is_sound);
}

pub proof fn lemma_set_finish(st: State, finish: Option<BasicBlockId>)
    ensures
        grows(st, (State { finish, ..st })),
        is_sound(st) && (match finish {
            Some(block) => block.0 < st.blocks.len(),
            None => true,
        }) ==> is_sound((State { finish, ..st })),
{
    reveal(grows);
    reveal(is_sound);
}

/// What a sound graph knows of itself.
pub proof fn lemma_sound_fields(st: State)
    ensures
        is_sound(st) ==> match st.buffer {
            Some(buffer) => buffer.0 < st.locals.len(),
            None => true,
        },
        is_sound(st) ==> match st.finish {
            Some(finish) => finish.0 < st.blocks.len(),
            None => true,
        },
{
    reveal(is_sound);
}

pub proof fn lemma_empty_state(index: usize)
    ensures
        is_sound(empty_state(index)),
{
    reveal(empty_state);
    reveal(is_sound);
}

/// A graph that is sound and can be counted is finished as a well-formed body.
pub proof fn lemma_finish(
    st: State,
    declaration: DeclarationId,
    member: Option<MemberId>,
    return_type: Type,
    effects: List<DeclarationId>,
)
    requires
        is_sound(st),
    ensures
        is_well_formed(spec_finish(st, declaration, member, return_type, effects)),
{
    reveal(spec_finish);
    reveal(is_sound);
    let body = spec_finish(st, declaration, member, return_type, effects);
    let span = crate::lowering::builder::spec_first_span(st, crate::syntax::File::Body);
    assert forall|index: int| 0 <= index < body.blocks.len() implies code_fits(
        (#[trigger] body.blocks[index]).statements,
        Some(body.blocks[index].terminator.kind),
        body_bounds(body),
    ) by {
        let block = st.blocks[index];
        assert(body.blocks[index] == finished_block(block, return_type, span));
        assert(body_bounds(body) == bounds_of(st));
    }
}

/// The finished body of a graph can be counted if and only if the graph can.
pub proof fn lemma_finish_countable(
    st: State,
    declaration: DeclarationId,
    member: Option<MemberId>,
    return_type: Type,
    effects: List<DeclarationId>,
)
    ensures
        is_countable(spec_finish(st, declaration, member, return_type, effects)) ==> fits(st),
{
    reveal(spec_finish);
    reveal(fits);
}

/// The contents of a body can be counted.
pub proof fn lemma_body_countable(body: Body)
    ensures
        is_countable(body_view(body)),
    decreases body,
{
    let view = body_view(body);
    assert(body.locals.len() <= usize::MAX);
    assert(body.blocks.len() <= usize::MAX);
    assert(body.closures.len() <= usize::MAX);
    assert forall|index: int| 0 <= index < view.closures.len() implies is_countable(
        #[trigger] view.closures[index],
    ) by {
        lemma_body_countable(body.closures@[index]);
    }
}

/// Whether a part of a value stays within a body.
pub open spec fn typed_place_fits(place: TypedPlace, bounds: Bounds) -> bool {
    place_fits(place.place, bounds)
}

/// Whether a value stays within a body.
pub open spec fn value_fits(value: Value, bounds: Bounds) -> bool {
    operand_fits(value.operand, bounds)
}

/// Whether an optional value stays within a body.
pub open spec fn optional_value_fits(value: Option<Value>, bounds: Bounds) -> bool {
    match value {
        Some(value) => value_fits(value, bounds),
        None => true,
    }
}

/// Whether an optional local is one of a body.
pub open spec fn optional_local_fits(local: Option<LocalId>, bounds: Bounds) -> bool {
    match local {
        Some(local) => local.0 < bounds.locals,
        None => true,
    }
}

/// Whether an optional place stays within a body.
pub open spec fn optional_place_fits(place: Option<Place>, bounds: Bounds) -> bool {
    match place {
        Some(place) => place_fits(place, bounds),
        None => true,
    }
}

/// Whether an optional part of a value stays within a body.
pub open spec fn optional_typed_place_fits(place: Option<TypedPlace>, bounds: Bounds) -> bool {
    match place {
        Some(place) => place_fits(place.place, bounds),
        None => true,
    }
}

/// Whether optional operands stay within a body.
pub open spec fn optional_operands_fit(operands: Option<List<Operand>>, bounds: Bounds) -> bool {
    match operands {
        Some(operands) => operands_fit(operands, bounds),
        None => true,
    }
}

/// Whether an optional computed value stays within a body.
pub open spec fn optional_rvalue_fits(rvalue: Option<Rvalue>, bounds: Bounds) -> bool {
    match rvalue {
        Some(rvalue) => rvalue_fits(rvalue, bounds),
        None => true,
    }
}

/// Whether one of the locals is a local.
pub open spec fn locals_name(locals: List<LocalId>, local: LocalId) -> bool
    decreases locals,
{
    match locals {
        List::Nil => false,
        List::Cons(head, tail) => *head == local || locals_name(*tail, local),
    }
}

/// Whether the locals are of a body.
pub open spec fn locals_fit(locals: List<LocalId>, bounds: Bounds) -> bool {
    forall|local: LocalId| #[trigger] locals_name(locals, local) ==> local.0 < bounds.locals
}

/// Whether one of the blocks is a block.
pub open spec fn blocks_name(blocks: List<BasicBlockId>, block: BasicBlockId) -> bool
    decreases blocks,
{
    match blocks {
        List::Nil => false,
        List::Cons(head, tail) => *head == block || blocks_name(*tail, block),
    }
}

/// Whether the blocks are of a body.
pub open spec fn blocks_fit(blocks: List<BasicBlockId>, bounds: Bounds) -> bool {
    forall|block: BasicBlockId| #[trigger] blocks_name(blocks, block) ==> block.0 < bounds.blocks
}

/// Whether the way out of a call or suspension for errors is of a body.
pub open spec fn exit_fits(exit: Option<ErrorExit>, bounds: Bounds) -> bool {
    match exit {
        Some(exit) => exit.block.0 < bounds.blocks && exit.payload.0 < bounds.locals,
        None => true,
    }
}

/// Whether a call is of a body.
pub open spec fn call_fits(site: CallSite, bounds: Bounds) -> bool {
    optional_local_fits(site.destination, bounds) && site.success.0 < bounds.blocks && exit_fits(
        site.error,
        bounds,
    ) && locals_fit(site.temporaries, bounds)
}

/// Whether a suspension is of a body.
pub open spec fn suspension_fits(site: SuspensionSite, bounds: Bounds) -> bool {
    optional_local_fits(site.destination, bounds) && site.resume.0 < bounds.blocks
        && site.cancel.0 < bounds.blocks && exit_fits(site.error, bounds)
}

/// Whether the lowering of nested code keeps graphs sound.
pub open spec fn is_sound_lowering(low: Lowering) -> bool {
    &&& forall|cx: &Context, st: State, start: usize, end: usize, expected: Option<&Type>|
        {
            let after = #[trigger] (low.expression)(cx, st, start, end, expected);
            &&& grows(st, after.0)
            &&& fits(after.0) && is_sound(st) ==> is_sound(after.0) && optional_value_fits(
                after.1,
                bounds_of(after.0),
            )
        }
    &&& forall|cx: &Context, st: State|
        {
            let after = #[trigger] (low.statement)(cx, st);
            grows(st, after) && (fits(after) && is_sound(st) ==> is_sound(after))
        }
}

/// The steps to a part of a value with one more name no other locals.
pub proof fn lemma_step(place: Place, step: Projection, local: LocalId)
    ensures
        place_names(place.step(step), local) <==> place_names(place, local) || step
            == Projection::Index(local),
    decreases place.projection,
{
    lemma_extended_way(place.projection, step, local);
}

/// One more step names no other local than the one that it is an index by.
pub broadcast proof fn lemma_extended_way(way: List<Projection>, step: Projection, local: LocalId)
    ensures
        #[trigger] way_names(crate::mir::spec_extended(way, step), local) <==> way_names(way, local)
            || step
            == Projection::Index(local),
    decreases way,
{
    match way {
        List::Nil => {
            assert(way_names(List::Cons(Box::new(step), Box::new(List::Nil)), local) <==> step
                == Projection::Index(local)) by {
                reveal_with_fuel(way_names, 3);
            }
        },
        List::Cons(_, tail) => {
            lemma_extended_way(*tail, step, local);
        },
    }
}

/// A part of a value stays within a body if the value does and an index is one of its locals.
pub broadcast proof fn lemma_step_fits(place: Place, step: Projection, bounds: Bounds)
    requires
        place_fits(place, bounds),
        match step {
            Projection::Index(local) => local.0 < bounds.locals,
            _ => true,
        },
    ensures
        #[trigger] place_fits(place.step(step), bounds),
{
    assert forall|local: LocalId| #[trigger] place_names(place.step(step), local) implies local.0
        < bounds.locals by {
        lemma_step(place, step, local);
    }
}

/// The first of a list and those behind it.
pub broadcast proof fn lemma_operands_cons(
    head: Box<Operand>,
    tail: Box<List<Operand>>,
    bounds: Bounds,
)
    ensures
        #[trigger] operands_fit(List::Cons(head, tail), bounds) <==> operand_fits(*head, bounds)
            && operands_fit(*tail, bounds),
{
    let all = List::Cons(head, tail);
    if operands_fit(all, bounds) {
        assert forall|local: LocalId| #[trigger] operands_name(
            *tail,
            local,
        ) implies local.0 < bounds.locals by {
            assert(operands_name(all, local));
        }
        assert forall|local: LocalId| #[trigger] operand_names(*head, local) implies local.0
            < bounds.locals by {
            assert(operands_name(all, local));
        }
    }
    if operand_fits(*head, bounds) && operands_fit(*tail, bounds) {
        assert forall|local: LocalId| #[trigger] operands_name(all, local) implies local.0
            < bounds.locals by {
            assert(operand_names(*head, local) || operands_name(*tail, local));
        }
    }
}

/// An empty list.
pub broadcast proof fn lemma_operands_nil(bounds: Bounds)
    ensures
        #[trigger] operands_fit(List::Nil, bounds),
{
}

/// The first of a list and those behind it.
pub broadcast proof fn lemma_targets_cons(
    head: Box<SwitchTarget>,
    tail: Box<List<SwitchTarget>>,
    bounds: Bounds,
)
    ensures
        #[trigger] targets_fit(List::Cons(head, tail), bounds) <==> head.block.0 < bounds.blocks
            && targets_fit(*tail, bounds),
{
    let all = List::Cons(head, tail);
    if targets_fit(all, bounds) {
        assert forall|block: BasicBlockId| #[trigger] targets_lead(
            *tail,
            block,
        ) implies block.0 < bounds.blocks by {
            assert(targets_lead(all, block));
        }
        assert(targets_lead(all, head.block));
    }
    if head.block.0 < bounds.blocks && targets_fit(*tail, bounds) {
        assert forall|block: BasicBlockId| #[trigger] targets_lead(all, block) implies block.0
            < bounds.blocks by {
            assert(head.block == block || targets_lead(*tail, block));
        }
    }
}

/// An empty list.
pub broadcast proof fn lemma_targets_nil(bounds: Bounds)
    ensures
        #[trigger] targets_fit(List::Nil, bounds),
{
}

/// The first of a list and those behind it.
pub broadcast proof fn lemma_managed_cons(
    head: Box<Managed>,
    tail: Box<List<Managed>>,
    bounds: Bounds,
)
    ensures
        #[trigger] managed_fit(List::Cons(head, tail), bounds) <==> head.local.0 < bounds.locals
            && managed_fit(*tail, bounds),
{
    let all = List::Cons(head, tail);
    if managed_fit(all, bounds) {
        assert forall|local: LocalId| #[trigger] managed_names(
            *tail,
            local,
        ) implies local.0 < bounds.locals by {
            assert(managed_names(all, local));
        }
        assert(managed_names(all, head.local));
    }
    if head.local.0 < bounds.locals && managed_fit(*tail, bounds) {
        assert forall|local: LocalId| #[trigger] managed_names(all, local) implies local.0
            < bounds.locals by {
            assert(head.local == local || managed_names(*tail, local));
        }
    }
}

/// An empty list.
pub broadcast proof fn lemma_managed_nil(bounds: Bounds)
    ensures
        #[trigger] managed_fit(List::Nil, bounds),
{
}

/// The first of a list and those behind it.
pub broadcast proof fn lemma_locals_cons(
    head: Box<LocalId>,
    tail: Box<List<LocalId>>,
    bounds: Bounds,
)
    ensures
        #[trigger] locals_fit(List::Cons(head, tail), bounds) <==> head.0 < bounds.locals
            && locals_fit(*tail, bounds),
{
    let all = List::Cons(head, tail);
    if locals_fit(all, bounds) {
        assert forall|local: LocalId| #[trigger] locals_name(
            *tail,
            local,
        ) implies local.0 < bounds.locals by {
            assert(locals_name(all, local));
        }
        assert(locals_name(all, *head));
    }
    if head.0 < bounds.locals && locals_fit(*tail, bounds) {
        assert forall|local: LocalId| #[trigger] locals_name(all, local) implies local.0
            < bounds.locals by {
            assert(*head == local || locals_name(*tail, local));
        }
    }
}

/// An empty list.
pub broadcast proof fn lemma_locals_nil(bounds: Bounds)
    ensures
        #[trigger] locals_fit(List::Nil, bounds),
{
}

/// The first of a list and those behind it.
pub broadcast proof fn lemma_blocks_cons(
    head: Box<BasicBlockId>,
    tail: Box<List<BasicBlockId>>,
    bounds: Bounds,
)
    ensures
        #[trigger] blocks_fit(List::Cons(head, tail), bounds) <==> head.0 < bounds.blocks
            && blocks_fit(*tail, bounds),
{
    let all = List::Cons(head, tail);
    if blocks_fit(all, bounds) {
        assert forall|block: BasicBlockId| #[trigger] blocks_name(
            *tail,
            block,
        ) implies block.0 < bounds.blocks by {
            assert(blocks_name(all, block));
        }
        assert(blocks_name(all, *head));
    }
    if head.0 < bounds.blocks && blocks_fit(*tail, bounds) {
        assert forall|block: BasicBlockId| #[trigger] blocks_name(all, block) implies block.0
            < bounds.blocks by {
            assert(*head == block || blocks_name(*tail, block));
        }
    }
}

/// An empty list.
pub broadcast proof fn lemma_blocks_nil(bounds: Bounds)
    ensures
        #[trigger] blocks_fit(List::Nil, bounds),
{
}

/// An operand that reads a place.
pub broadcast proof fn lemma_copy_fits(place: Place, bounds: Bounds)
    ensures
        #[trigger] operand_fits(Operand::Copy(place), bounds) <==> place_fits(place, bounds),
{
    let operand = Operand::Copy(place);
    assert(forall|local: LocalId| operand_names(operand, local) == place_names(place, local));
}

/// An operand that takes a place.
pub broadcast proof fn lemma_move_fits(place: Place, bounds: Bounds)
    ensures
        #[trigger] operand_fits(Operand::Move(place), bounds) <==> place_fits(place, bounds),
{
    let operand = Operand::Move(place);
    assert(forall|local: LocalId| operand_names(operand, local) == place_names(place, local));
}

/// A place that is a whole local.
pub broadcast proof fn lemma_whole_fits(local: LocalId, bounds: Bounds)
    ensures
        #[trigger] place_fits((Place { local, projection: List::Nil }), bounds) <==> local.0
            < bounds.locals,
{
    let place = Place { local, projection: List::Nil };
    assert(place_names(place, local));
}

/// The local of a place.
pub broadcast proof fn lemma_place_local(place: Place, bounds: Bounds)
    requires
        #[trigger] place_fits(place, bounds),
    ensures
        place.local.0 < bounds.locals,
{
    assert(place_names(place, place.local));
}

/// A place that stays within a body stays within a larger one.
pub broadcast proof fn lemma_place_grows(place: Place, small: Bounds, large: Bounds)
    requires
        #[trigger] place_fits(place, small),
        small.locals <= large.locals,
    ensures
        #[trigger] place_fits(place, large),
{
}

/// An operand that stays within a body stays within a larger one.
pub broadcast proof fn lemma_operand_grows(operand: Operand, small: Bounds, large: Bounds)
    requires
        #[trigger] operand_fits(operand, small),
        small.locals <= large.locals,
    ensures
        #[trigger] operand_fits(operand, large),
{
}

/// A switch.
pub broadcast proof fn lemma_switch_fits(
    value: Operand,
    targets: List<SwitchTarget>,
    otherwise: BasicBlockId,
    bounds: Bounds,
)
    requires
        operand_fits(value, bounds),
        targets_fit(targets, bounds),
        otherwise.0 < bounds.blocks,
    ensures
        #[trigger] terminator_fits(
            TerminatorKind::Switch { value, targets, otherwise },
            bounds,
        ),
{
    let terminator = TerminatorKind::Switch { value, targets, otherwise };
    assert forall|block: BasicBlockId| #[trigger] terminator_leads(
        terminator,
        block,
    ) implies block.0
        < bounds.blocks by {
        assert(otherwise == block || targets_lead(targets, block));
    }
    assert forall|local: LocalId| #[trigger] terminator_names(terminator, local) implies local.0
        < bounds.locals by {
        assert(operand_names(value, local));
    }
}

/// An aggregate.
pub broadcast proof fn lemma_aggregate_fits(
    ty: Type,
    variant: Option<usize>,
    fields: List<Operand>,
    field_types: List<Type>,
    bounds: Bounds,
)
    requires
        operands_fit(fields, bounds),
    ensures
        #[trigger] rvalue_fits(Rvalue::Aggregate { ty, variant, fields, field_types }, bounds),
{
}

/// An operation below the level of the language.
pub broadcast proof fn lemma_raw_fits(
    operation: crate::mir::RawOperation,
    operands: List<Operand>,
    ty: Type,
    bounds: Bounds,
)
    requires
        operands_fit(operands, bounds),
    ensures
        #[trigger] rvalue_fits(Rvalue::RawOperation { operation, operands, ty }, bounds),
{
}

pub broadcast group group_shape {
    lemma_growth,
    lemma_step_fits,
    lemma_extended_way,
    lemma_operands_cons,
    lemma_operands_nil,
    lemma_targets_cons,
    lemma_targets_nil,
    lemma_managed_cons,
    lemma_managed_nil,
    lemma_locals_cons,
    lemma_locals_nil,
    lemma_blocks_cons,
    lemma_blocks_nil,
    lemma_copy_fits,
    lemma_move_fits,
    lemma_whole_fits,
    lemma_place_local,
    lemma_place_grows,
    lemma_operand_grows,
    lemma_switch_fits,
    lemma_aggregate_fits,
    lemma_raw_fits,
}

} // verus!
