//! The graph that a body is lowered into, while it grows.

use vstd::prelude::*;

use crate::hir::{DeclarationId, HirLocalId, MemberId, Type};
use crate::list::{dup_plain, list_of, List};
use crate::mir::{
    operand_place_ref, same_place, whole, BasicBlock, BasicBlockId, Body, Local, LocalId, Operand,
    RegionId, Rvalue, Statement, StatementKind, Terminator, TerminatorKind,
};
use crate::names::Name;
use crate::syntax::{empty_span, File, Span};

verus! {

/// A name and the local it stands for.
#[derive(Clone, Copy, Debug, PartialEq, Eq, Structural)]
pub struct NamedLocal {
    pub name: Name,
    pub local: LocalId,
}

/// A checked local and the local it is lowered to.
#[derive(Clone, Copy, Debug, PartialEq, Eq, Structural)]
pub struct LoweredLocal {
    pub hir: HirLocalId,
    pub local: LocalId,
}

/// A looked-up method and the object it is bound to.
#[derive(Debug, PartialEq, Eq)]
pub struct BoundReceiver {
    pub local: LocalId,
    pub receiver: Operand,
}

/// Where a loop goes on and where it is left, and the number of scopes around it.
#[derive(Clone, Copy, Debug, PartialEq, Eq, Structural)]
pub struct LoopTarget {
    pub next: BasicBlockId,
    pub exit: BasicBlockId,
    pub scope_depth: usize,
}

/// Where errors are handled.
#[derive(Debug, PartialEq, Eq)]
pub struct ErrorContext {
    pub dispatch: BasicBlockId,
    pub payload: LocalId,
    pub effects: List<DeclarationId>,
    pub scope_depth: usize,
}

/// A local that is disposed of when its scope is left, and the token that declares it.
#[derive(Clone, Copy, Debug, PartialEq, Eq, Structural)]
pub struct Managed {
    pub local: LocalId,
    pub token: usize,
}

/// A block that may still lack its terminator.
pub struct OpenBlock {
    pub statements: Vec<Statement>,
    pub terminator: Option<Terminator>,
}

/// A block that may still lack its terminator.
pub struct BlockState {
    pub statements: Seq<Statement>,
    pub terminator: Option<Terminator>,
}

/// A finished block.
pub struct BlockView {
    pub statements: Seq<Statement>,
    pub terminator: Terminator,
}

/// A finished body.
pub struct BodyView {
    pub declaration: DeclarationId,
    pub member: Option<MemberId>,
    pub locals: Seq<Local>,
    pub blocks: Seq<BlockView>,
    pub closures: Seq<BodyView>,
    pub return_type: Type,
    pub effects: List<DeclarationId>,
}

/// The contents of a body.
pub open spec fn body_view(body: Body) -> BodyView
    decreases body,
{
    BodyView {
        declaration: body.declaration,
        member: body.member,
        locals: body.locals@,
        blocks: Seq::new(
            body.blocks@.len(),
            |index: int|
                BlockView {
                    statements: body.blocks@[index].statements@,
                    terminator: body.blocks@[index].terminator,
                },
        ),
        closures: Seq::new(
            body.closures@.len(),
            |index: int|
                if 0 <= index < body.closures@.len() {
                    body_view(body.closures@[index])
                } else {
                    arbitrary()
                },
        ),
        return_type: body.return_type,
        effects: body.effects,
    }
}

/// A graph that is being built, and what is known while it is.
pub struct State {
    /// The token that is lowered next.
    pub index: usize,
    pub locals: Seq<Local>,
    pub names: Seq<NamedLocal>,
    pub hir_locals: Seq<LoweredLocal>,
    /// The locals that hold a reference to what a closure captured.
    pub captured: Seq<LocalId>,
    pub bound: Seq<BoundReceiver>,
    pub blocks: Seq<BlockState>,
    /// The block that statements are added to.
    pub current: BasicBlockId,
    pub next_region: u32,
    pub loops: Seq<LoopTarget>,
    pub handlers: Seq<ErrorContext>,
    pub scopes: Seq<Seq<Managed>>,
    /// The local that collects what a generator yields.
    pub buffer: Option<LocalId>,
    /// The block that a generator ends in.
    pub finish: Option<BasicBlockId>,
    pub closures: Seq<BodyView>,
}

/// A graph that is being built.
pub struct Builder {
    pub index: usize,
    pub locals: Vec<Local>,
    pub names: Vec<NamedLocal>,
    pub hir_locals: Vec<LoweredLocal>,
    pub captured: Vec<LocalId>,
    pub bound: Vec<BoundReceiver>,
    pub blocks: Vec<OpenBlock>,
    pub current: BasicBlockId,
    pub next_region: u32,
    pub loops: Vec<LoopTarget>,
    pub handlers: Vec<ErrorContext>,
    pub scopes: Vec<Vec<Managed>>,
    pub buffer: Option<LocalId>,
    pub finish: Option<BasicBlockId>,
    pub closures: Vec<Body>,
}

pub open spec fn blocks_view(blocks: Seq<OpenBlock>) -> Seq<BlockState> {
    Seq::new(
        blocks.len(),
        |index: int|
            BlockState {
                statements: blocks[index].statements@,
                terminator: blocks[index].terminator,
            },
    )
}

pub open spec fn scopes_view(scopes: Seq<Vec<Managed>>) -> Seq<Seq<Managed>> {
    Seq::new(scopes.len(), |index: int| scopes[index]@)
}

pub open spec fn bodies_view(bodies: Seq<Body>) -> Seq<BodyView> {
    Seq::new(bodies.len(), |index: int| body_view(bodies[index]))
}

impl Builder {
    pub open spec fn view(&self) -> State {
        State {
            index: self.index,
            locals: self.locals@,
            names: self.names@,
            hir_locals: self.hir_locals@,
            captured: self.captured@,
            bound: self.bound@,
            blocks: blocks_view(self.blocks@),
            current: self.current,
            next_region: self.next_region,
            loops: self.loops@,
            handlers: self.handlers@,
            scopes: scopes_view(self.scopes@),
            buffer: self.buffer,
            finish: self.finish,
            closures: bodies_view(self.closures@),
        }
    }
}

/// The graph with one more local.
#[verifier::opaque]
pub open spec fn spec_add_local(
    st: State,
    name: Name,
    ty: Type,
    mutable: bool,
    argument: bool,
    span: Span,
) -> (State, LocalId) {
    let id = LocalId(st.locals.len() as usize);
    (
        State {
            locals: st.locals.push(Local { name: Some(name), ty, mutable, argument, span }),
            names: st.names.push(NamedLocal { name, local: id }),
            ..st
        },
        id,
    )
}

/// The graph with one more temporary.
#[verifier::opaque]
pub open spec fn spec_temporary(st: State, ty: Type, span: Span) -> (State, LocalId) {
    (
        State {
            locals: st.locals.push(
                Local { name: None, ty, mutable: true, argument: false, span },
            ),
            ..st
        },
        LocalId(st.locals.len() as usize),
    )
}

/// Whether the current block has no terminator.
#[verifier::opaque]
pub open spec fn spec_is_open(st: State) -> bool {
    st.current.0 < st.blocks.len() && st.blocks[st.current.0 as int].terminator is None
}

/// The graph with one more statement in the current block, unless that has its terminator.
#[verifier::opaque]
pub open spec fn spec_statement(st: State, kind: StatementKind, span: Span) -> State {
    let current = st.current.0 as int;
    if st.current.0 < st.blocks.len() && st.blocks[current].terminator is None {
        State {
            blocks: st.blocks.update(
                current,
                BlockState {
                    statements: st.blocks[current].statements.push(Statement { kind, span }),
                    terminator: None,
                },
            ),
            ..st
        }
    } else {
        st
    }
}

/// The graph with a terminator for the current block.
#[verifier::opaque]
pub open spec fn spec_terminate(st: State, kind: TerminatorKind, span: Span) -> State {
    let current = st.current.0 as int;
    if st.current.0 < st.blocks.len() {
        State {
            blocks: st.blocks.update(
                current,
                BlockState {
                    statements: st.blocks[current].statements,
                    terminator: Some(Terminator { kind, span }),
                },
            ),
            ..st
        }
    } else {
        st
    }
}

/// The graph with one more block.
#[verifier::opaque]
pub open spec fn spec_new_block(st: State) -> (State, BasicBlockId) {
    (
        State {
            blocks: st.blocks.push(BlockState { statements: Seq::empty(), terminator: None }),
            ..st
        },
        BasicBlockId(st.blocks.len() as usize),
    )
}

/// The graph with one more region.
#[verifier::opaque]
pub open spec fn spec_fresh_region(st: State) -> (State, RegionId) {
    (State { next_region: st.next_region.wrapping_add(1), ..st }, RegionId(st.next_region))
}

/// The graph with a checked local lowered to a local.
#[verifier::opaque]
pub open spec fn spec_bind_hir(st: State, hir: HirLocalId, local: LocalId) -> State {
    State { hir_locals: st.hir_locals.push(LoweredLocal { hir, local }), ..st }
}

/// The graph with a local that holds a reference to what was captured.
#[verifier::opaque]
pub open spec fn spec_capture(st: State, local: LocalId) -> State {
    State { captured: st.captured.push(local), ..st }
}

/// The graph with a method bound to an object.
#[verifier::opaque]
pub open spec fn spec_bind_receiver(st: State, local: LocalId, receiver: Operand) -> State {
    State { bound: st.bound.push(BoundReceiver { local, receiver }), ..st }
}

/// The graph inside a loop.
#[verifier::opaque]
pub open spec fn spec_push_loop(st: State, next: BasicBlockId, exit: BasicBlockId) -> State {
    State {
        loops: st.loops.push(LoopTarget { next, exit, scope_depth: st.scopes.len() as usize }),
        ..st
    }
}

/// The graph outside the innermost loop.
#[verifier::opaque]
pub open spec fn spec_pop_loop(st: State) -> State {
    if st.loops.len() > 0 {
        State { loops: st.loops.drop_last(), ..st }
    } else {
        st
    }
}

/// The innermost loop.
#[verifier::opaque]
pub open spec fn spec_innermost_loop(st: State) -> Option<LoopTarget> {
    if st.loops.len() > 0 {
        Some(st.loops.last())
    } else {
        None
    }
}

/// The graph inside a block whose errors are handled.
#[verifier::opaque]
pub open spec fn spec_push_handler(
    st: State,
    dispatch: BasicBlockId,
    payload: LocalId,
    effects: List<DeclarationId>,
) -> State {
    State {
        handlers: st.handlers.push(
            ErrorContext { dispatch, payload, effects, scope_depth: st.scopes.len() as usize },
        ),
        ..st
    }
}

/// The graph outside the innermost block whose errors are handled.
#[verifier::opaque]
pub open spec fn spec_pop_handler(st: State) -> State {
    if st.handlers.len() > 0 {
        State { handlers: st.handlers.drop_last(), ..st }
    } else {
        st
    }
}

/// Where errors are handled.
#[verifier::opaque]
pub open spec fn spec_handler(st: State) -> Option<ErrorContext> {
    if st.handlers.len() > 0 {
        Some(st.handlers.last())
    } else {
        None
    }
}

/// The graph inside one more scope.
#[verifier::opaque]
pub open spec fn spec_push_scope(st: State) -> State {
    State { scopes: st.scopes.push(Seq::empty()), ..st }
}

/// The graph outside the innermost scope, and the locals that were managed in it.
#[verifier::opaque]
pub open spec fn spec_pop_scope(st: State) -> (State, List<Managed>) {
    if st.scopes.len() > 0 {
        (State { scopes: st.scopes.drop_last(), ..st }, list_of(st.scopes.last()))
    } else {
        (st, List::Nil)
    }
}

/// The graph with a managed local in the innermost scope.
#[verifier::opaque]
pub open spec fn spec_manage(st: State, local: LocalId, token: usize) -> State {
    if st.scopes.len() > 0 {
        State {
            scopes: st.scopes.update(
                st.scopes.len() - 1,
                st.scopes.last().push(Managed { local, token }),
            ),
            ..st
        }
    } else {
        st
    }
}

/// The managed locals of the scopes from `from` on.
pub open spec fn managed_from(scopes: Seq<Seq<Managed>>, from: nat) -> Seq<Managed>
    decreases scopes.len() - from,
{
    if from >= scopes.len() {
        Seq::empty()
    } else {
        scopes[from as int] + managed_from(scopes, from + 1)
    }
}

/// The managed locals of the scopes that are inside `depth` others.
#[verifier::opaque]
pub open spec fn spec_active_disposals(st: State, depth: usize) -> List<Managed> {
    list_of(managed_from(st.scopes, depth as nat))
}

/// The graph as it was when it knew `count` names.
#[verifier::opaque]
pub open spec fn spec_restore_names(st: State, count: usize) -> State {
    if count <= st.names.len() {
        State { names: st.names.take(count as int), ..st }
    } else {
        st
    }
}

/// The local that a name stands for now.
pub open spec fn last_named(names: Seq<NamedLocal>, name: Name) -> Option<LocalId>
    decreases names.len(),
{
    if names.len() == 0 {
        None
    } else if names.last().name == name {
        Some(names.last().local)
    } else {
        last_named(names.drop_last(), name)
    }
}

/// The local that a name stands for.
#[verifier::opaque]
pub open spec fn spec_named_local(st: State, name: Name) -> Option<LocalId> {
    last_named(st.names, name)
}

/// The local that a checked local is lowered to now.
pub open spec fn last_lowered(locals: Seq<LoweredLocal>, hir: HirLocalId) -> Option<LocalId>
    decreases locals.len(),
{
    if locals.len() == 0 {
        None
    } else if locals.last().hir == hir {
        Some(locals.last().local)
    } else {
        last_lowered(locals.drop_last(), hir)
    }
}

/// The local that a checked local is lowered to.
#[verifier::opaque]
pub open spec fn spec_lowered_local(st: State, hir: HirLocalId) -> Option<LocalId> {
    last_lowered(st.hir_locals, hir)
}

/// The object that the method in a local is bound to now.
pub open spec fn last_bound(bound: Seq<BoundReceiver>, local: LocalId) -> Option<Operand>
    decreases bound.len(),
{
    if bound.len() == 0 {
        None
    } else if bound.last().local == local {
        Some(bound.last().receiver)
    } else {
        last_bound(bound.drop_last(), local)
    }
}

/// The object that the method that an operand reads is bound to.
#[verifier::opaque]
pub open spec fn spec_receiver_of(st: State, function: &Operand) -> Option<Operand> {
    match operand_place_ref(function) {
        Some(place) => last_bound(st.bound, place.local),
        None => None,
    }
}

/// Whether a local holds a reference to what was captured.
#[verifier::opaque]
pub open spec fn spec_is_captured(st: State, local: LocalId) -> bool {
    st.captured.contains(local)
}

/// Whether a local is a temporary.
#[verifier::opaque]
pub open spec fn spec_is_temporary(st: State, local: LocalId) -> bool {
    local.0 < st.locals.len() && st.locals[local.0 as int].name is None
}

/// The type of a local.
#[verifier::opaque]
pub open spec fn spec_local_type(st: State, local: LocalId) -> Option<Type> {
    if local.0 < st.locals.len() {
        Some(st.locals[local.0 as int].ty)
    } else {
        None
    }
}

/// Where a local is declared.
#[verifier::opaque]
pub open spec fn spec_local_span(st: State, index: usize) -> Span {
    if index < st.locals.len() {
        st.locals[index as int].span
    } else {
        empty_span(File::Body)
    }
}

/// Where the first local is declared.
#[verifier::opaque]
pub open spec fn spec_first_span(st: State, file: File) -> Span {
    if st.locals.len() > 0 {
        st.locals[0].span
    } else {
        empty_span(file)
    }
}

/// The number of locals.
#[verifier::opaque]
pub open spec fn spec_local_count(st: State) -> usize {
    st.locals.len() as usize
}

/// The number of names.
#[verifier::opaque]
pub open spec fn spec_name_count(st: State) -> usize {
    st.names.len() as usize
}

/// A statement in which the method that a local holds has a more special type.
pub open spec fn specialized(statement: Statement, local: LocalId, ty: Type) -> Statement {
    match statement.kind {
        StatementKind::Assign(destination, rvalue) => if destination == whole(local) {
            let special = match rvalue {
                Rvalue::VtableLookup { object, implementation, member, slot, receiver, .. } =>
                Rvalue::VtableLookup { object, implementation, member, slot, receiver, ty },
                Rvalue::WitnessLookup { object, interface, slot, receiver, .. } =>
                Rvalue::WitnessLookup { object, interface, slot, receiver, ty },
                Rvalue::DirectMethod { object, implementation, member, receiver, .. } =>
                Rvalue::DirectMethod { object, implementation, member, receiver, ty },
                _ => rvalue,
            };
            Statement { kind: StatementKind::Assign(destination, special), span: statement.span }
        } else {
            statement
        },
        _ => statement,
    }
}

/// The graph with a more special type for the method that an operand reads, at the local that
/// holds it and wherever it is looked up.
#[verifier::opaque]
pub open spec fn spec_specialize_method(st: State, operand: &Operand, ty: &Type) -> State {
    match operand_place_ref(operand) {
        Some(place) => if place.is_whole() {
            State {
                locals: if place.local.0 < st.locals.len() {
                    st.locals.update(
                        place.local.0 as int,
                        Local { ty: *ty, ..st.locals[place.local.0 as int] },
                    )
                } else {
                    st.locals
                },
                blocks: st.blocks.map_values(
                    |block: BlockState|
                        BlockState {
                            statements: block.statements.map_values(
                                |statement: Statement| specialized(statement, place.local, *ty),
                            ),
                            terminator: block.terminator,
                        },
                ),
                ..st
            }
        } else {
            st
        },
        None => st,
    }
}

/// The graph with one more closure, and the position of that closure.
#[verifier::opaque]
pub open spec fn spec_add_closure(st: State, body: BodyView) -> (State, usize) {
    (State { closures: st.closures.push(body), ..st }, st.closures.len() as usize)
}

/// An empty graph whose first block is open.
#[verifier::opaque]
pub open spec fn empty_state(index: usize) -> State {
    State {
        index,
        locals: Seq::empty(),
        names: Seq::empty(),
        hir_locals: Seq::empty(),
        captured: Seq::empty(),
        bound: Seq::empty(),
        blocks: seq![BlockState { statements: Seq::empty(), terminator: None }],
        current: BasicBlockId(0),
        next_region: 0,
        loops: Seq::empty(),
        handlers: Seq::empty(),
        scopes: seq![Seq::empty()],
        buffer: None,
        finish: None,
        closures: Seq::empty(),
    }
}

/// A block with its terminator: where it has none, a body without a result returns, and control
/// cannot get there in any other.
pub open spec fn finished_block(block: BlockState, return_type: Type, span: Span) -> BlockView {
    BlockView {
        statements: block.statements,
        terminator: match block.terminator {
            Some(terminator) => terminator,
            None => Terminator {
                kind: if return_type == Type::Primitive(crate::hir::PrimitiveType::Void) {
                    TerminatorKind::Return(None)
                } else {
                    TerminatorKind::Unreachable
                },
                span,
            },
        },
    }
}

/// The finished body.
#[verifier::opaque]
pub open spec fn spec_finish(
    st: State,
    declaration: DeclarationId,
    member: Option<MemberId>,
    return_type: Type,
    effects: List<DeclarationId>,
) -> BodyView {
    let span = spec_first_span(st, File::Body);
    BodyView {
        declaration,
        member,
        locals: st.locals,
        blocks: st.blocks.map_values(
            |block: BlockState| finished_block(block, return_type, span),
        ),
        closures: st.closures,
        return_type,
        effects,
    }
}

impl Builder {
    /// An empty graph whose first block is open.
    pub fn new(index: usize) -> (r: Builder)
        ensures
            r@ == empty_state(index),
    {
        let mut blocks: Vec<OpenBlock> = Vec::new();
        blocks.push(OpenBlock { statements: Vec::new(), terminator: None });
        let mut scopes: Vec<Vec<Managed>> = Vec::new();
        scopes.push(Vec::new());
        let builder = Builder {
            index,
            locals: Vec::new(),
            names: Vec::new(),
            hir_locals: Vec::new(),
            captured: Vec::new(),
            bound: Vec::new(),
            blocks,
            current: BasicBlockId(0),
            next_region: 0,
            loops: Vec::new(),
            handlers: Vec::new(),
            scopes,
            buffer: None,
            finish: None,
            closures: Vec::new(),
        };
        proof {
            reveal(empty_state);
            assert(builder@.blocks =~= empty_state(index).blocks);
            assert(builder@.scopes =~= empty_state(index).scopes);
            assert(builder@.closures =~= empty_state(index).closures);
        }
        builder
    }

    pub(crate) fn add_local(
        &mut self,
        name: Name,
        ty: Type,
        mutable: bool,
        argument: bool,
        span: Span,
    ) -> (r: LocalId)
        ensures
            (final(self)@, r) == spec_add_local(old(self)@, name, ty, mutable, argument, span),
    {
        proof {
            reveal(spec_add_local);
        }
        let id = LocalId(self.locals.len());
        self.locals.push(Local { name: Some(name), ty, mutable, argument, span });
        self.names.push(NamedLocal { name, local: id });
        id
    }

    pub(crate) fn temporary(&mut self, ty: Type, span: Span) -> (r: LocalId)
        ensures
            (final(self)@, r) == spec_temporary(old(self)@, ty, span),
    {
        proof {
            reveal(spec_temporary);
        }
        let id = LocalId(self.locals.len());
        self.locals.push(Local { name: None, ty, mutable: true, argument: false, span });
        id
    }

    pub(crate) fn is_open(&self) -> (r: bool)
        ensures
            r == spec_is_open(self@),
    {
        proof {
            reveal(spec_is_open);
        }
        self.current.0 < self.blocks.len() && self.blocks[self.current.0].terminator.is_none()
    }

    pub(crate) fn statement(&mut self, kind: StatementKind, span: Span)
        ensures
            final(self)@ == spec_statement(old(self)@, kind, span),
    {
        let ghost before = self@;
        let current: usize = self.current.0;
        if current < self.blocks.len() && self.blocks[current].terminator.is_none() {
            self.blocks[current].statements.push(Statement { kind, span });
            proof {
                reveal(spec_statement);
                assert(self@.blocks =~= spec_statement(before, kind, span).blocks);
            }
        } else {
            proof {
                reveal(spec_statement);
            }
        }
    }

    pub(crate) fn terminate(&mut self, kind: TerminatorKind, span: Span)
        ensures
            final(self)@ == spec_terminate(old(self)@, kind, span),
    {
        let ghost before = self@;
        let current: usize = self.current.0;
        if current < self.blocks.len() {
            self.blocks[current].terminator = Some(Terminator { kind, span });
            proof {
                reveal(spec_terminate);
                assert(self@.blocks =~= spec_terminate(before, kind, span).blocks);
            }
        } else {
            proof {
                reveal(spec_terminate);
            }
        }
    }

    pub(crate) fn new_block(&mut self) -> (r: BasicBlockId)
        ensures
            (final(self)@, r) == spec_new_block(old(self)@),
    {
        let ghost before = self@;
        let id = BasicBlockId(self.blocks.len());
        self.blocks.push(OpenBlock { statements: Vec::new(), terminator: None });
        proof {
            reveal(spec_new_block);
            assert(self@.blocks =~= spec_new_block(before).0.blocks);
        }
        id
    }

    pub(crate) fn fresh_region(&mut self) -> (r: RegionId)
        ensures
            (final(self)@, r) == spec_fresh_region(old(self)@),
    {
        proof {
            reveal(spec_fresh_region);
        }
        let region = RegionId(self.next_region);
        self.next_region = self.next_region.wrapping_add(1);
        region
    }

    pub(crate) fn bind_hir(&mut self, hir: HirLocalId, local: LocalId)
        ensures
            final(self)@ == spec_bind_hir(old(self)@, hir, local),
    {
        proof {
            reveal(spec_bind_hir);
        }
        self.hir_locals.push(LoweredLocal { hir, local });
    }

    pub(crate) fn capture(&mut self, local: LocalId)
        ensures
            final(self)@ == spec_capture(old(self)@, local),
    {
        proof {
            reveal(spec_capture);
        }
        self.captured.push(local);
    }

    pub(crate) fn bind_receiver(&mut self, local: LocalId, receiver: Operand)
        ensures
            final(self)@ == spec_bind_receiver(old(self)@, local, receiver),
    {
        proof {
            reveal(spec_bind_receiver);
        }
        self.bound.push(BoundReceiver { local, receiver });
    }

    pub(crate) fn push_loop(&mut self, next: BasicBlockId, exit: BasicBlockId)
        ensures
            final(self)@ == spec_push_loop(old(self)@, next, exit),
    {
        proof {
            reveal(spec_push_loop);
        }
        self.loops.push(LoopTarget { next, exit, scope_depth: self.scopes.len() });
    }

    pub(crate) fn pop_loop(&mut self)
        ensures
            final(self)@ == spec_pop_loop(old(self)@),
    {
        proof {
            reveal(spec_pop_loop);
        }
        let _ = self.loops.pop();
    }

    pub(crate) fn innermost_loop(&self) -> (r: Option<LoopTarget>)
        ensures
            r == spec_innermost_loop(self@),
    {
        proof {
            reveal(spec_innermost_loop);
        }
        if self.loops.len() > 0 {
            Some(self.loops[self.loops.len() - 1])
        } else {
            None
        }
    }

    pub(crate) fn push_handler(
        &mut self,
        dispatch: BasicBlockId,
        payload: LocalId,
        effects: List<DeclarationId>,
    )
        ensures
            final(self)@ == spec_push_handler(old(self)@, dispatch, payload, effects),
    {
        proof {
            reveal(spec_push_handler);
        }
        self.handlers.push(
            ErrorContext { dispatch, payload, effects, scope_depth: self.scopes.len() },
        );
    }

    pub(crate) fn pop_handler(&mut self)
        ensures
            final(self)@ == spec_pop_handler(old(self)@),
    {
        proof {
            reveal(spec_pop_handler);
        }
        let _ = self.handlers.pop();
    }

    pub(crate) fn handler(&self) -> (r: Option<ErrorContext>)
        ensures
            r == spec_handler(self@),
    {
        proof {
            reveal(spec_handler);
        }
        if self.handlers.len() > 0 {
            let handler = &self.handlers[self.handlers.len() - 1];
            Some(
                ErrorContext {
                    dispatch: handler.dispatch,
                    payload: handler.payload,
                    effects: dup_plain(&handler.effects),
                    scope_depth: handler.scope_depth,
                },
            )
        } else {
            None
        }
    }

    pub(crate) fn push_scope(&mut self)
        ensures
            final(self)@ == spec_push_scope(old(self)@),
    {
        let ghost before = self@;
        self.scopes.push(Vec::new());
        proof {
            reveal(spec_push_scope);
            assert(self@.scopes =~= spec_push_scope(before).scopes);
        }
    }

    pub(crate) fn pop_scope(&mut self) -> (r: List<Managed>)
        ensures
            (final(self)@, r) == spec_pop_scope(old(self)@),
    {
        let ghost before = self@;
        proof {
            reveal(spec_pop_scope);
        }
        match self.scopes.pop() {
            Some(scope) => {
                proof {
                    assert(self@.scopes =~= spec_pop_scope(before).0.scopes);
                }
                List::from_vec(scope)
            },
            None => List::Nil,
        }
    }

    pub(crate) fn manage(&mut self, local: LocalId, token: usize)
        ensures
            final(self)@ == spec_manage(old(self)@, local, token),
    {
        let ghost before = self@;
        proof {
            reveal(spec_manage);
        }
        let depth: usize = self.scopes.len();
        if depth > 0 {
            self.scopes[depth - 1].push(Managed { local, token });
            proof {
                assert(self@.scopes =~= spec_manage(before, local, token).scopes);
            }
        }
    }

    pub(crate) fn active_disposals(&self, depth: usize) -> (r: List<Managed>)
        ensures
            r == spec_active_disposals(self@, depth),
    {
        let mut managed: Vec<Managed> = Vec::new();
        let mut scope_index: usize = depth;
        proof {
            reveal(spec_active_disposals);
            assert(managed@ + managed_from(self@.scopes, depth as nat) =~= managed_from(
                self@.scopes,
                depth as nat,
            ));
        }
        while scope_index < self.scopes.len()
            invariant
                managed_from(self@.scopes, depth as nat) == managed@ + managed_from(
                    self@.scopes,
                    scope_index as nat,
                ),
            decreases self.scopes.len() - scope_index,
        {
            let scope = &self.scopes[scope_index];
            let ghost before = managed@;
            let mut index: usize = 0;
            while index < scope.len()
                invariant
                    index <= scope@.len(),
                    managed@ == before + scope@.take(index as int),
                decreases scope.len() - index,
            {
                managed.push(scope[index]);
                index = index + 1;
                proof {
                    assert(managed@ =~= before + scope@.take(index as int));
                }
            }
            proof {
                assert(scope@.take(index as int) =~= scope@);
                assert(before + (scope@ + managed_from(self@.scopes, (scope_index + 1) as nat))
                    =~= managed@ + managed_from(self@.scopes, (scope_index + 1) as nat));
            }
            scope_index = scope_index + 1;
        }
        proof {
            assert(managed@ + managed_from(self@.scopes, scope_index as nat) =~= managed@);
        }
        List::from_vec(managed)
    }

    pub(crate) fn restore_names(&mut self, count: usize)
        ensures
            final(self)@ == spec_restore_names(old(self)@, count),
    {
        proof {
            reveal(spec_restore_names);
        }
        if count <= self.names.len() {
            self.names.truncate(count);
            proof {
                assert(self@.names =~= old(self)@.names.take(count as int));
            }
        }
    }

    pub(crate) fn named_local(&self, name: Name) -> (r: Option<LocalId>)
        ensures
            r == spec_named_local(self@, name),
    {
        proof {
            reveal(spec_named_local);
            assert(self.names@.take(self.names@.len() as int) =~= self.names@);
        }
        let mut count: usize = self.names.len();
        while count > 0
            invariant
                count <= self.names@.len(),
                spec_named_local(self@, name) == last_named(self.names@.take(count as int), name),
            decreases count,
        {
            proof {
                assert(self.names@.take(count as int).drop_last() =~= self.names@.take(count - 1));
            }
            if self.names[count - 1].name == name {
                return Some(self.names[count - 1].local);
            }
            count = count - 1;
        }
        None
    }

    pub(crate) fn lowered_local(&self, hir: HirLocalId) -> (r: Option<LocalId>)
        ensures
            r == spec_lowered_local(self@, hir),
    {
        proof {
            reveal(spec_lowered_local);
            assert(self.hir_locals@.take(self.hir_locals@.len() as int) =~= self.hir_locals@);
        }
        let mut count: usize = self.hir_locals.len();
        while count > 0
            invariant
                count <= self.hir_locals@.len(),
                spec_lowered_local(self@, hir) == last_lowered(
                    self.hir_locals@.take(count as int),
                    hir,
                ),
            decreases count,
        {
            proof {
                assert(self.hir_locals@.take(count as int).drop_last() =~= self.hir_locals@.take(
                    count - 1,
                ));
            }
            if self.hir_locals[count - 1].hir == hir {
                return Some(self.hir_locals[count - 1].local);
            }
            count = count - 1;
        }
        None
    }

    pub(crate) fn receiver_of(&self, function: &Operand) -> (r: Option<Operand>)
        ensures
            r == spec_receiver_of(self@, function),
    {
        proof {
            reveal(spec_receiver_of);
            assert(self.bound@.take(self.bound@.len() as int) =~= self.bound@);
        }
        let local = match operand_place_ref(function) {
            Some(place) => place.local,
            None => {
                return None;
            },
        };
        let mut count: usize = self.bound.len();
        while count > 0
            invariant
                count <= self.bound@.len(),
                spec_receiver_of(self@, function) == last_bound(
                    self.bound@.take(count as int),
                    local,
                ),
            decreases count,
        {
            proof {
                assert(self.bound@.take(count as int).drop_last() =~= self.bound@.take(count - 1));
            }
            if self.bound[count - 1].local == local {
                return Some(self.bound[count - 1].receiver.dup());
            }
            count = count - 1;
        }
        None
    }

    pub(crate) fn is_captured(&self, local: LocalId) -> (r: bool)
        ensures
            r == spec_is_captured(self@, local),
    {
        proof {
            reveal(spec_is_captured);
        }
        let mut index: usize = 0;
        while index < self.captured.len()
            invariant
                index <= self.captured@.len(),
                spec_is_captured(self@, local) == self.captured@.contains(local),
                forall|other: int| 0 <= other < index ==> self.captured@[other] != local,
            decreases self.captured.len() - index,
        {
            if self.captured[index] == local {
                return true;
            }
            index = index + 1;
        }
        false
    }

    pub(crate) fn is_temporary(&self, local: LocalId) -> (r: bool)
        ensures
            r == spec_is_temporary(self@, local),
    {
        proof {
            reveal(spec_is_temporary);
        }
        local.0 < self.locals.len() && self.locals[local.0].name.is_none()
    }

    pub(crate) fn local_type(&self, local: LocalId) -> (r: Option<Type>)
        ensures
            r == spec_local_type(self@, local),
    {
        proof {
            reveal(spec_local_type);
        }
        if local.0 < self.locals.len() {
            Some(self.locals[local.0].ty.dup())
        } else {
            None
        }
    }

    pub(crate) fn local_span(&self, index: usize) -> (r: Span)
        ensures
            r == spec_local_span(self@, index),
    {
        proof {
            reveal(spec_local_span);
        }
        if index < self.locals.len() {
            self.locals[index].span
        } else {
            empty_span(File::Body)
        }
    }

    pub(crate) fn first_span(&self, file: File) -> (r: Span)
        ensures
            r == spec_first_span(self@, file),
    {
        proof {
            reveal(spec_first_span);
        }
        if self.locals.len() > 0 {
            self.locals[0].span
        } else {
            empty_span(file)
        }
    }

    pub(crate) fn local_count(&self) -> (r: usize)
        ensures
            r == spec_local_count(self@),
    {
        proof {
            reveal(spec_local_count);
        }
        self.locals.len()
    }

    pub(crate) fn name_count(&self) -> (r: usize)
        ensures
            r == spec_name_count(self@),
    {
        proof {
            reveal(spec_name_count);
        }
        self.names.len()
    }

    pub(crate) fn specialize_method(&mut self, operand: &Operand, ty: &Type)
        ensures
            final(self)@ == spec_specialize_method(old(self)@, operand, ty),
    {
        proof {
            reveal(spec_specialize_method);
        }
        let local = match operand_place_ref(operand) {
            Some(place) => if place.is_whole() {
                place.local
            } else {
                return;
            },
            None => {
                return;
            },
        };
        if local.0 < self.locals.len() {
            self.locals[local.0].ty = ty.dup();
            proof {
                assert(self.locals@ =~= old(self).locals@.update(
                    local.0 as int,
                    Local { ty: *ty, ..old(self).locals@[local.0 as int] },
                ));
            }
        }
        let mut blocks: Vec<OpenBlock> = Vec::new();
        std::mem::swap(&mut blocks, &mut self.blocks);
        let ghost given = blocks@;
        let ghost special = |block: BlockState|
            BlockState {
                statements: block.statements.map_values(
                    |statement: Statement| specialized(statement, local, *ty),
                ),
                terminator: block.terminator,
            };
        let mut reversed: Vec<OpenBlock> = Vec::new();
        while blocks.len() > 0
            invariant
                blocks@.len() + reversed@.len() == given.len(),
                blocks@ == given.take(blocks@.len() as int),
                special == (|block: BlockState|
                    BlockState {
                        statements: block.statements.map_values(
                            |statement: Statement| specialized(statement, local, *ty),
                        ),
                        terminator: block.terminator,
                    }),
                forall|index: int|
                    0 <= index < reversed@.len() ==> #[trigger] blocks_view(reversed@)[index]
                        == special(blocks_view(given)[given.len() - 1 - index]),
            decreases blocks.len(),
        {
            let ghost count = blocks@.len();
            let ghost done = reversed@;
            match blocks.pop() {
                Some(block) => {
                    let ghost source = block;
                    let finished = specialize_block(block, local, ty);
                    proof {
                        assert(given[count - 1] == source);
                        assert(finished.statements@ =~= source.statements@.map_values(
                            |statement: Statement| specialized(statement, local, *ty),
                        ));
                    }
                    reversed.push(finished);
                    proof {
                        assert(blocks@ =~= given.take(blocks@.len() as int));
                        assert forall|index: int| 0 <= index < reversed@.len() implies #[trigger]
                        blocks_view(reversed@)[index] == special(
                            blocks_view(given)[given.len() - 1 - index],
                        ) by {
                            if index < done.len() {
                                assert(blocks_view(done)[index] == special(
                                    blocks_view(given)[given.len() - 1 - index],
                                ));
                            }
                        }
                    }
                },
                None => {},
            }
        }
        let mut ordered: Vec<OpenBlock> = Vec::new();
        let ghost all = reversed@;
        while reversed.len() > 0
            invariant
                all.len() == given.len(),
                reversed@.len() + ordered@.len() == given.len(),
                reversed@ == all.take(reversed@.len() as int),
                forall|index: int|
                    0 <= index < all.len() ==> #[trigger] blocks_view(all)[index] == special(
                        blocks_view(given)[given.len() - 1 - index],
                    ),
                forall|index: int|
                    0 <= index < ordered@.len() ==> #[trigger] blocks_view(ordered@)[index]
                        == special(blocks_view(given)[index]),
            decreases reversed.len(),
        {
            let ghost count = reversed@.len();
            let ghost done = ordered@;
            match reversed.pop() {
                Some(block) => {
                    let ghost source = block;
                    ordered.push(block);
                    proof {
                        assert(all[count - 1] == source);
                        assert(reversed@ =~= all.take(reversed@.len() as int));
                        assert(blocks_view(all)[count - 1] == special(
                            blocks_view(given)[given.len() - count],
                        ));
                        assert forall|index: int| 0 <= index < ordered@.len() implies #[trigger]
                        blocks_view(ordered@)[index] == special(blocks_view(given)[index]) by {
                            if index < done.len() {
                                assert(blocks_view(done)[index] == special(
                                    blocks_view(given)[index],
                                ));
                            }
                        }
                    }
                },
                None => {},
            }
        }
        self.blocks = ordered;
        proof {
            assert(self@.blocks =~= blocks_view(given).map_values(special));
        }
    }

    pub(crate) fn add_closure(&mut self, body: Body) -> (r: usize)
        ensures
            (final(self)@, r) == spec_add_closure(old(self)@, body_view(body)),
    {
        let ghost before = self@;
        let position: usize = self.closures.len();
        self.closures.push(body);
        proof {
            reveal(spec_add_closure);
            assert(self@.closures =~= spec_add_closure(before, body_view(body)).0.closures);
        }
        position
    }

    /// The finished body: every block gets a terminator.
    pub fn finish(
        self,
        declaration: DeclarationId,
        member: Option<MemberId>,
        return_type: Type,
        effects: List<DeclarationId>,
    ) -> (r: Body)
        ensures
            body_view(r) == spec_finish(self@, declaration, member, return_type, effects),
    {
        let ghost given = self@;
        let span = self.first_span(File::Body);
        let void = crate::lowering::types::is_void(&return_type);
        let mut open = self.blocks;
        let ghost opened = open@;
        let mut reversed: Vec<BasicBlock> = Vec::new();
        while open.len() > 0
            invariant
                open@.len() + reversed@.len() == opened.len(),
                open@ == opened.take(open@.len() as int),
                void == (return_type == Type::Primitive(crate::hir::PrimitiveType::Void)),
                forall|index: int|
                    0 <= index < reversed@.len() ==> block_view(#[trigger] reversed@[index])
                        == finished_block(
                        blocks_view(opened)[opened.len() - 1 - index],
                        return_type,
                        span,
                    ),
            decreases open.len(),
        {
            let ghost count = open@.len();
            match open.pop() {
                Some(block) => {
                    proof {
                        assert(opened[count - 1] == block);
                        assert(open@ =~= opened.take(open@.len() as int));
                    }
                    let terminator = match block.terminator {
                        Some(terminator) => terminator,
                        None => Terminator {
                            kind: if void {
                                TerminatorKind::Return(None)
                            } else {
                                TerminatorKind::Unreachable
                            },
                            span,
                        },
                    };
                    reversed.push(BasicBlock { statements: block.statements, terminator });
                },
                None => {},
            }
        }
        let ghost all = reversed@;
        let mut blocks: Vec<BasicBlock> = Vec::new();
        while reversed.len() > 0
            invariant
                all.len() == opened.len(),
                reversed@.len() + blocks@.len() == opened.len(),
                reversed@ == all.take(reversed@.len() as int),
                forall|index: int|
                    0 <= index < all.len() ==> block_view(#[trigger] all[index]) == finished_block(
                        blocks_view(opened)[opened.len() - 1 - index],
                        return_type,
                        span,
                    ),
                forall|index: int|
                    0 <= index < blocks@.len() ==> block_view(#[trigger] blocks@[index])
                        == finished_block(blocks_view(opened)[index], return_type, span),
            decreases reversed.len(),
        {
            let ghost count = reversed@.len();
            match reversed.pop() {
                Some(block) => {
                    proof {
                        assert(all[count - 1] == block);
                        assert(reversed@ =~= all.take(reversed@.len() as int));
                    }
                    blocks.push(block);
                },
                None => {},
            }
        }
        let body = Body {
            declaration,
            member,
            locals: self.locals,
            blocks,
            closures: self.closures,
            return_type,
            effects,
        };
        proof {
            reveal(spec_finish);
            let expected = spec_finish(given, declaration, member, return_type, effects);
            assert(body_view(body).blocks =~= expected.blocks) by {
                assert forall|index: int| 0 <= index < expected.blocks.len() implies body_view(
                    body,
                ).blocks[index] == expected.blocks[index] by {
                    assert(block_view(body.blocks@[index]) == finished_block(
                        blocks_view(opened)[index],
                        return_type,
                        span,
                    ));
                }
            }
            assert(body_view(body).closures =~= expected.closures);
        }
        body
    }
}

/// A finished block.
pub open spec fn block_view(block: BasicBlock) -> BlockView {
    BlockView { statements: block.statements@, terminator: block.terminator }
}

fn specialize_block(block: OpenBlock, local: LocalId, ty: &Type) -> (r: OpenBlock)
    ensures
        r.statements@ == block.statements@.map_values(
            |statement: Statement| specialized(statement, local, *ty),
        ),
        r.terminator == block.terminator,
{
    let ghost given = block.statements@;
    let mut statements = block.statements;
    let mut reversed: Vec<Statement> = Vec::new();
    while statements.len() > 0
        invariant
            statements@.len() + reversed@.len() == given.len(),
            statements@ == given.take(statements@.len() as int),
            forall|index: int|
                0 <= index < reversed@.len() ==> #[trigger] reversed@[index] == specialized(
                    given[given.len() - 1 - index],
                    local,
                    *ty,
                ),
        decreases statements.len(),
    {
        let ghost count = statements@.len();
        match statements.pop() {
            Some(statement) => {
                proof {
                    assert(given[count - 1] == statement);
                    assert(statements@ =~= given.take(statements@.len() as int));
                }
                reversed.push(specialize_statement(statement, local, ty));
            },
            None => {},
        }
    }
    let ghost all = reversed@;
    let mut ordered: Vec<Statement> = Vec::new();
    while reversed.len() > 0
        invariant
            all.len() == given.len(),
            reversed@.len() + ordered@.len() == given.len(),
            reversed@ == all.take(reversed@.len() as int),
            forall|index: int|
                0 <= index < all.len() ==> #[trigger] all[index] == specialized(
                    given[given.len() - 1 - index],
                    local,
                    *ty,
                ),
            forall|index: int|
                0 <= index < ordered@.len() ==> #[trigger] ordered@[index] == specialized(
                    given[index],
                    local,
                    *ty,
                ),
        decreases reversed.len(),
    {
        let ghost count = reversed@.len();
        match reversed.pop() {
            Some(statement) => {
                proof {
                    assert(all[count - 1] == statement);
                    assert(reversed@ =~= all.take(reversed@.len() as int));
                }
                ordered.push(statement);
            },
            None => {},
        }
    }
    proof {
        assert(ordered@ =~= given.map_values(
            |statement: Statement| specialized(statement, local, *ty),
        ));
    }
    OpenBlock { statements: ordered, terminator: block.terminator }
}

fn specialize_statement(statement: Statement, local: LocalId, ty: &Type) -> (r: Statement)
    ensures
        r == specialized(statement, local, *ty),
{
    let span = statement.span;
    match statement.kind {
        StatementKind::Assign(destination, rvalue) => {
            let held = whole(local);
            let special = if same_place(&destination, &held) {
                match rvalue {
                    Rvalue::VtableLookup { object, implementation, member, slot, receiver, .. } =>
                    Rvalue::VtableLookup {
                        object,
                        implementation,
                        member,
                        slot,
                        receiver,
                        ty: ty.dup(),
                    },
                    Rvalue::WitnessLookup { object, interface, slot, receiver, .. } =>
                    Rvalue::WitnessLookup { object, interface, slot, receiver, ty: ty.dup() },
                    Rvalue::DirectMethod { object, implementation, member, receiver, .. } =>
                    Rvalue::DirectMethod { object, implementation, member, receiver, ty: ty.dup() },
                    rvalue => rvalue,
                }
            } else {
                rvalue
            };
            Statement { kind: StatementKind::Assign(destination, special), span }
        },
        kind => Statement { kind, span },
    }
}

} // verus!
