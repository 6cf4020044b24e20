//! The steps that many constructs are lowered with: temporaries, borrows, calls and suspensions.

use vstd::prelude::*;

use crate::hir::{same_type, DeclarationId, FunctionType, Method, Parameter, Type};
use crate::ids::{list_contains, sorted_ids};
use crate::list::{cons, dup_plain, one, List};
use crate::lowering::builder::{
    spec_active_disposals, spec_fresh_region, spec_handler, spec_is_open, spec_is_temporary,
    spec_local_type, spec_new_block, spec_statement, spec_temporary, spec_terminate, Builder,
    Managed, State,
};
use crate::lowering::context::Context;
use crate::lowering::members::{disposal_method, method_owner};
use crate::lowering::types::{is_void, mir_cast_kind};
use crate::mir::{
    operand_place_ref, whole, BasicBlockId, BorrowKind, CastKind, Constant, LocalId, Operand, Place,
    Rvalue, StatementKind, SwitchTarget, TerminatorKind,
};
use crate::syntax::Span;

verus! {

/// An operand and its type.
#[derive(Debug, PartialEq, Eq)]
pub struct Value {
    pub operand: Operand,
    pub ty: Type,
}

/// A part of a value and its type.
#[derive(Debug, PartialEq, Eq)]
pub struct TypedPlace {
    pub place: Place,
    pub ty: Type,
}

/// The block that handles an error and the local that holds it.
#[derive(Clone, Copy, Debug, PartialEq, Eq, Structural)]
pub struct ErrorExit {
    pub block: BasicBlockId,
    pub payload: LocalId,
}

/// A call whose ways out are still to be filled.
pub struct CallSite {
    pub destination: Option<LocalId>,
    pub success: BasicBlockId,
    pub error: Option<ErrorExit>,
    pub temporaries: List<LocalId>,
}

/// A suspension whose ways out are still to be filled.
#[derive(Clone, Copy, Debug, PartialEq, Eq, Structural)]
pub struct SuspensionSite {
    pub destination: Option<LocalId>,
    pub resume: BasicBlockId,
    pub error: Option<ErrorExit>,
    pub cancel: BasicBlockId,
}

/// The kind of a borrow.
#[verifier::allow_in_spec]
pub fn borrow_kind(mutable: bool) -> (r: BorrowKind)
    returns
        if mutable {
            BorrowKind::Mutable
        } else {
            BorrowKind::Shared
        },
{
    if mutable {
        BorrowKind::Mutable
    } else {
        BorrowKind::Shared
    }
}

/// A value as one of another type: itself, or a cast of it.
#[verifier::allow_in_spec]
pub fn converted(operand: Operand, source: &Type, target: &Type) -> (r: Rvalue)
    returns
        if same_type(source, target) {
            Rvalue::Use(operand)
        } else {
            Rvalue::Cast { operand, ty: target.dup(), kind: mir_cast_kind(source, target) }
        },
{
    if same_type(source, target) {
        Rvalue::Use(operand)
    } else {
        Rvalue::Cast { operand, ty: target.dup(), kind: mir_cast_kind(source, target) }
    }
}

/// An optional type without giving it up.
#[verifier::opaque]
pub open spec fn spec_type_ref(ty: &Option<Type>) -> Option<&Type> {
    match ty {
        Some(ty) => Some(ty),
        None => None,
    }
}

/// An optional type without giving it up.
#[verifier::allow_in_spec]
pub fn type_ref(ty: &Option<Type>) -> (r: Option<&Type>)
    returns
        spec_type_ref(ty),
{
    proof {
        reveal(spec_type_ref);
    }
    match ty {
        Some(ty) => Some(ty),
        None => None,
    }
}

/// An operand that gives up what it reads.
#[verifier::allow_in_spec]
pub fn moved(operand: Operand) -> (r: Operand)
    returns
        match operand {
            Operand::Copy(place) => Operand::Move(place),
            other => other,
        },
{
    match operand {
        Operand::Copy(place) => Operand::Move(place),
        other => other,
    }
}

/// The value that a switch selects a block by when it is true or present.
#[verifier::allow_in_spec]
pub fn when_set(block: BasicBlockId) -> (r: List<SwitchTarget>)
    returns
        one(SwitchTarget { value: 1, block }),
{
    one(SwitchTarget { value: 1, block })
}

/// A temporary that holds storage.
#[verifier::opaque]
pub open spec fn spec_live(st: State, ty: Type, span: Span) -> (State, LocalId) {
    let (st, local) = spec_temporary(st, ty, span);
    let st = spec_statement(st, StatementKind::StorageLive(local), span);
    (st, local)
}

impl Builder {
    /// A temporary that holds storage.
    pub(crate) fn live(&mut self, ty: Type, span: Span) -> (r: LocalId)
        ensures
            (final(self)@, r) == spec_live(old(self)@, ty, span),
    {
        proof {
            reveal(spec_live);
        }
        let local = self.temporary(ty, span);
        self.statement(StatementKind::StorageLive(local), span);
        local
    }
}

/// An assignment to a whole local.
#[verifier::opaque]
pub open spec fn spec_assign(st: State, local: LocalId, value: Rvalue, span: Span) -> State {
    spec_statement(st, StatementKind::Assign(whole(local), value), span)
}

impl Builder {
    /// An assignment to a whole local.
    pub(crate) fn assign(&mut self, local: LocalId, value: Rvalue, span: Span)
        ensures
            final(self)@ == spec_assign(old(self)@, local, value, span),
    {
        proof {
            reveal(spec_assign);
        }
        self.statement(StatementKind::Assign(whole(local), value), span);
    }
}

/// A new temporary with a value, and the operand that takes the value out.
#[verifier::opaque]
pub open spec fn spec_computed(st: State, ty: Type, value: Rvalue, span: Span) -> (State, Operand)
{
    let (st, local) = spec_live(st, ty, span);
    let st = spec_assign(st, local, value, span);
    (st, Operand::Move(whole(local)))
}

impl Builder {
    /// A new temporary with a value, and the operand that takes the value out.
    pub(crate) fn computed(&mut self, ty: Type, value: Rvalue, span: Span) -> (r: Operand)
        ensures
            (final(self)@, r) == spec_computed(old(self)@, ty, value, span),
    {
        proof {
            reveal(spec_computed);
        }
        let local = self.live(ty, span);
        self.assign(local, value, span);
        Operand::Move(whole(local))
    }
}

/// A new temporary with a reference to a place.
#[verifier::opaque]
pub open spec fn spec_borrowed(
    st: State,
    ty: Type,
    mutable: bool,
    place: Place,
    span: Span,
) -> (State, Operand) {
    let (st, destination) = spec_live(st, ty, span);
    let (st, region) = spec_fresh_region(st);
    let st = spec_statement(
        st, StatementKind::Borrow { destination, kind: borrow_kind(mutable), place, region },
        span,
    );
    (st, Operand::Move(whole(destination)))
}

impl Builder {
    /// A new temporary with a reference to a place.
    pub(crate) fn borrowed(
        &mut self,
        ty: Type,
        mutable: bool,
        place: Place,
        span: Span,
    ) -> (r: Operand)
        ensures
            (final(self)@, r) == spec_borrowed(old(self)@, ty, mutable, place, span),
    {
        proof {
            reveal(spec_borrowed);
        }
        let destination = self.live(ty, span);
        let region = self.fresh_region();
        self.statement(
            StatementKind::Borrow { destination, kind: borrow_kind(mutable), place, region },
            span,
        );
        Operand::Move(whole(destination))
    }
}

/// A new temporary with an optional value that is present.
#[verifier::opaque]
pub open spec fn spec_wrapped(
    st: State,
    local: LocalId,
    ty: Type,
    value: Operand,
    value_type: Type,
    span: Span,
) -> State {
    let st = spec_assign(
        st,
        local,
        Rvalue::Aggregate {
            ty,
            variant: Some(1),
            fields: one(value),
            field_types: one(value_type),
        },
        span,
    );
    spec_statement(st, StatementKind::SetDiscriminant(whole(local), 1), span)
}

impl Builder {
    /// A new temporary with an optional value that is present.
    pub(crate) fn wrapped(
        &mut self,
        local: LocalId,
        ty: Type,
        value: Operand,
        value_type: Type,
        span: Span,
    )
        ensures
            final(self)@ == spec_wrapped(old(self)@, local, ty, value, value_type, span),
    {
        proof {
            reveal(spec_wrapped);
        }
        self.assign(
            local,
            Rvalue::Aggregate {
                ty,
                variant: Some(1),
                fields: one(value),
                field_types: one(value_type),
            },
            span,
        );
        self.statement(StatementKind::SetDiscriminant(whole(local), 1), span);
    }
}

/// A place that holds an operand: the one it reads, or a new temporary.
#[verifier::opaque]
pub open spec fn spec_materialize_operand(
    st: State,
    operand: Operand,
    ty: Type,
    span: Span,
) -> (State, Place) {
    match operand {
        Operand::Copy(place) => (st, place),
        Operand::Move(place) => (st, place),
        Operand::Constant(constant) => {
            let (st, local) = spec_live(st, ty, span);
            let st = spec_assign(st, local, Rvalue::Use(Operand::Constant(constant)), span);
            (st, whole(local))
        },
    }
}

impl Builder {
    /// A place that holds an operand: the one it reads, or a new temporary.
    pub(crate) fn materialize_operand(
        &mut self,
        operand: Operand,
        ty: Type,
        span: Span,
    ) -> (r: Place)
        ensures
            (final(self)@, r) == spec_materialize_operand(old(self)@, operand, ty, span),
    {
        proof {
            reveal(spec_materialize_operand);
        }
        match operand {
            Operand::Copy(place) => place,
            Operand::Move(place) => place,
            Operand::Constant(constant) => {
                let local = self.live(ty, span);
                self.assign(local, Rvalue::Use(Operand::Constant(constant)), span);
                whole(local)
            },
        }
    }
}

/// A jump out of the current block, if that is still open.
#[verifier::opaque]
pub open spec fn spec_continue_at(st: State, block: BasicBlockId, span: Span) -> State {
    if spec_is_open(st) {
        spec_terminate(st, TerminatorKind::Goto(block), span)
    } else {
        st
    }
}

impl Builder {
    /// A jump out of the current block, if that is still open.
    pub(crate) fn continue_at(&mut self, block: BasicBlockId, span: Span)
        ensures
            final(self)@ == spec_continue_at(old(self)@, block, span),
    {
        proof {
            reveal(spec_continue_at);
        }
        if self.is_open() {
            self.terminate(TerminatorKind::Goto(block), span);
        }
    }
}

/// A branch on a value that is either set or not.
#[verifier::opaque]
pub open spec fn spec_branch(
    st: State,
    value: Operand,
    set: BasicBlockId,
    otherwise: BasicBlockId,
    span: Span,
) -> State {
    spec_terminate(st, TerminatorKind::Switch { value, targets: when_set(set), otherwise }, span)
}

impl Builder {
    /// A branch on a value that is either set or not.
    pub(crate) fn branch(
        &mut self,
        value: Operand,
        set: BasicBlockId,
        otherwise: BasicBlockId,
        span: Span,
    )
        ensures
            final(self)@ == spec_branch(old(self)@, value, set, otherwise, span),
    {
        proof {
            reveal(spec_branch);
        }
        self.terminate(TerminatorKind::Switch { value, targets: when_set(set), otherwise }, span);
    }
}

/// The end of the storage of locals.
#[verifier::opaque]
pub open spec fn spec_end_storage(st: State, locals: &List<LocalId>, span: Span) -> State
    decreases locals,
{
    match locals {
        List::Nil => st,
        List::Cons(head, tail) => {
            let st = spec_statement(st, StatementKind::StorageDead(**head), span);
            spec_end_storage(st, tail, span)
        },
    }
}

impl Builder {
    /// The end of the storage of locals.
    pub(crate) fn end_storage(&mut self, locals: &List<LocalId>, span: Span)
        ensures
            final(self)@ == spec_end_storage(old(self)@, locals, span),
        decreases locals,
    {
        proof {
            reveal_with_fuel(spec_end_storage, 2);
        }
        match locals {
            List::Nil => {},
            List::Cons(head, tail) => {
                self.statement(StatementKind::StorageDead(**head), span);
                self.end_storage(tail, span);
            },
        }
    }
}

/// The temporary that an operand reads as a whole, before others.
#[verifier::opaque]
pub open spec fn spec_temporary_before(
    st: State,
    operand: &Operand,
    others: List<LocalId>,
) -> List<LocalId> {
    match operand_place_ref(operand) {
        Some(place) => {
            if place.is_whole() && spec_is_temporary(st, place.local) {
                cons(place.local, others)
            } else {
                others
            }
        },
        None => others,
    }
}

impl Builder {
    /// The temporary that an operand reads as a whole, before others.
    pub(crate) fn temporary_before(
        &self,
        operand: &Operand,
        others: List<LocalId>,
    ) -> (r: List<LocalId>)
        ensures
            r == spec_temporary_before(self@, operand, others),
    {
        proof {
            reveal(spec_temporary_before);
        }
        match operand_place_ref(operand) {
            Some(place) => {
                if place.is_whole() && self.is_temporary(place.local) {
                    cons(place.local, others)
                } else {
                    others
                }
            },
            None => others,
        }
    }
}

/// The temporaries that operands read as a whole.
#[verifier::opaque]
pub open spec fn spec_temporaries_of(st: State, operands: &List<Operand>) -> List<LocalId>
    decreases operands,
{
    match operands {
        List::Nil => List::Nil,
        List::Cons(head, tail) => {
            spec_temporary_before(st, head, spec_temporaries_of(st, tail))
        },
    }
}

impl Builder {
    /// The temporaries that operands read as a whole.
    pub(crate) fn temporaries_of(&self, operands: &List<Operand>) -> (r: List<LocalId>)
        ensures
            r == spec_temporaries_of(self@, operands),
        decreases operands,
    {
        proof {
            reveal_with_fuel(spec_temporaries_of, 2);
        }
        match operands {
            List::Nil => List::Nil,
            List::Cons(head, tail) => self.temporary_before(head, self.temporaries_of(tail)),
        }
    }
}

/// Whether a call can come back with an error.
#[verifier::allow_in_spec]
pub fn is_fallible(signature: &FunctionType) -> (r: bool)
    returns
        !signature.is_async && !signature.effects.is_empty(),
{
    !signature.is_async && !signature.effects.is_empty()
}

/// A temporary for a result, unless there is none.
#[verifier::opaque]
pub open spec fn spec_result_local(st: State, ty: &Type, span: Span) -> (State, Option<LocalId>) {
    if is_void(ty) {
        (st, None)
    } else {
        let (st, local) = spec_live(st, ty.dup(), span);
        (st, Some(local))
    }
}

impl Builder {
    /// A temporary for a result, unless there is none.
    pub(crate) fn result_local(&mut self, ty: &Type, span: Span) -> (r: Option<LocalId>)
        ensures
            (final(self)@, r) == spec_result_local(old(self)@, ty, span),
    {
        proof {
            reveal(spec_result_local);
        }
        if is_void(ty) {
            return None;
        }
        let local = self.live(ty.dup(), span);
        Some(local)
    }
}

/// The place that an optional local is.
#[verifier::allow_in_spec]
pub fn whole_local(local: Option<LocalId>) -> (r: Option<Place>)
    returns
        match local {
            Some(local) => Some(whole(local)),
            None => None,
        },
{
    match local {
        Some(local) => Some(whole(local)),
        None => None,
    }
}

/// The place that holds an error.
#[verifier::allow_in_spec]
pub fn error_place(error: Option<ErrorExit>) -> (r: Option<Place>)
    returns
        match error {
            Some(exit) => Some(whole(exit.payload)),
            None => None,
        },
{
    match error {
        Some(exit) => Some(whole(exit.payload)),
        None => None,
    }
}

/// The block that handles an error.
#[verifier::allow_in_spec]
pub fn error_block(error: Option<ErrorExit>) -> (r: Option<BasicBlockId>)
    returns
        match error {
            Some(exit) => Some(exit.block),
            None => None,
        },
{
    match error {
        Some(exit) => Some(exit.block),
        None => None,
    }
}

/// The block and the local for the errors of a call.
#[verifier::opaque]
pub open spec fn spec_call_error(
    st: State,
    signature: &FunctionType,
    span: Span,
) -> (State, Option<ErrorExit>) {
    if !is_fallible(signature) {
        (st, None)
    } else {
        let (st, block) = spec_new_block(st);
        let (st, payload) = spec_live(st, Type::ErrorUnion(sorted_ids(&signature.effects)), span);
        (st, Some(ErrorExit { block, payload }))
    }
}

impl Builder {
    /// The block and the local for the errors of a call.
    pub(crate) fn call_error(
        &mut self,
        signature: &FunctionType,
        span: Span,
    ) -> (r: Option<ErrorExit>)
        ensures
            (final(self)@, r) == spec_call_error(old(self)@, signature, span),
    {
        proof {
            reveal(spec_call_error);
        }
        if !is_fallible(signature) {
            return None;
        }
        let block = self.new_block();
        let payload = self.live(Type::ErrorUnion(sorted_ids(&signature.effects)), span);
        Some(ErrorExit { block, payload })
    }
}

/// A call, which ends the current block.
#[verifier::opaque]
pub open spec fn spec_begin_call(
    st: State,
    function: Operand,
    receiver: Option<Operand>,
    signature: &FunctionType,
    arguments: List<Operand>,
    span: Span,
) -> (State, CallSite) {
    let temporaries = spec_temporary_before(st, &function, spec_temporaries_of(st, &arguments));
    let (st, destination) = spec_result_local(st, &signature.result, span);
    let (st, success) = spec_new_block(st);
    let (st, error) = spec_call_error(st, signature, span);
    let st = spec_terminate(
        st, TerminatorKind::Call {
            function,
            receiver,
            arguments,
            destination: whole_local(destination),
            error_destination: error_place(error),
            success,
            error: error_block(error),
        },
        span,
    );
    (st, CallSite { destination, success, error, temporaries })
}

impl Builder {
    /// A call, which ends the current block.
    pub(crate) fn begin_call(
        &mut self,
        function: Operand,
        receiver: Option<Operand>,
        signature: &FunctionType,
        arguments: List<Operand>,
        span: Span,
    ) -> (r: CallSite)
        ensures
            (final(self)@, r) == spec_begin_call(
                old(self)@,
                function,
                receiver,
                signature,
                arguments,
                span,
            ),
    {
        proof {
            reveal(spec_begin_call);
        }
        let temporaries = self.temporary_before(&function, self.temporaries_of(&arguments));
        let destination = self.result_local(&signature.result, span);
        let success = self.new_block();
        let error = self.call_error(signature, span);
        self.terminate(
            TerminatorKind::Call {
                function,
                receiver,
                arguments,
                destination: whole_local(destination),
                error_destination: error_place(error),
                success,
                error: error_block(error),
            },
            span,
        );
        CallSite { destination, success, error, temporaries }
    }
}

/// What a call returns, behind it.
#[verifier::opaque]
pub open spec fn spec_finish_call(
    st: State,
    site: CallSite,
    signature: &FunctionType,
    span: Span,
) -> (State, Option<Value>) {
    let st = State { current: site.success, ..st };
    let st = spec_end_storage(st, &site.temporaries, span);
    match site.destination {
        Some(local) => {
            (st, Some(
                Value { operand: Operand::Move(whole(local)), ty: signature.result.dup() },
            ))
        },
        None => (st, None),
    }
}

impl Builder {
    /// What a call returns, behind it.
    pub(crate) fn finish_call(
        &mut self,
        site: CallSite,
        signature: &FunctionType,
        span: Span,
    ) -> (r: Option<Value>)
        ensures
            (final(self)@, r) == spec_finish_call(old(self)@, site, signature, span),
    {
        proof {
            reveal(spec_finish_call);
        }
        self.current = site.success;
        self.end_storage(&site.temporaries, span);
        match site.destination {
            Some(local) => Some(
                Value { operand: Operand::Move(whole(local)), ty: signature.result.dup() },
            ),
            None => None,
        }
    }
}

/// Whether the body declares all of the errors.
pub open spec fn spec_all_declared(cx: &Context, effects: &List<DeclarationId>) -> bool
    decreases effects,
{
    match effects {
        List::Nil => true,
        List::Cons(head, tail) => {
            list_contains(&cx.declared_effects, **head) && spec_all_declared(
                cx,
                tail,
            )
        },
    }
}

/// Whether the body declares all of the errors.
#[verifier::allow_in_spec]
pub fn all_declared(cx: &Context, effects: &List<DeclarationId>) -> (r: bool)
    returns
        spec_all_declared(cx, effects),
    decreases effects,
{
    proof {
        reveal_with_fuel(spec_all_declared, 2);
    }
    match effects {
        List::Nil => true,
        List::Cons(head, tail) => list_contains(&cx.declared_effects, **head) && all_declared(
            cx,
            tail,
        ),
    }
}

/// An error goes to the innermost handler, or else out of the body if the body declares it.
#[verifier::opaque]
pub open spec fn spec_hand_over_error(
    cx: &Context,
    st: State,
    error: Operand,
    effects: &List<DeclarationId>,
    start: usize,
) -> State {
    let span = cx.span_at(start);
    match spec_handler(st) {
        Some(handler) => {
            let st = spec_assign(
                st,
                handler.payload,
                Rvalue::Cast {
                    operand: error,
                    ty: Type::ErrorUnion(handler.effects),
                    kind: CastKind::ErrorUnion,
                },
                span,
            );
            spec_terminate(st, TerminatorKind::Goto(handler.dispatch), span)
        },
        None => {
            if spec_all_declared(cx, effects) {
                spec_terminate(st, TerminatorKind::Throw(error), span)
            } else {
                spec_terminate(st, TerminatorKind::Unreachable, span)
            }
        },
    }
}

impl Builder {
    /// An error goes to the innermost handler, or else out of the body if the body declares it.
    pub(crate) fn hand_over_error(
        &mut self,
        cx: &Context,
        error: Operand,
        effects: &List<DeclarationId>,
        start: usize,
    )
        ensures
            final(self)@ == spec_hand_over_error(cx, old(self)@, error, effects, start),
    {
        proof {
            reveal(spec_hand_over_error);
        }
        let span = cx.span_at(start);
        match self.handler() {
            Some(handler) => {
                self.assign(
                    handler.payload,
                    Rvalue::Cast {
                        operand: error,
                        ty: Type::ErrorUnion(handler.effects),
                        kind: CastKind::ErrorUnion,
                    },
                    span,
                );
                self.terminate(TerminatorKind::Goto(handler.dispatch), span);
            },
            None => {
                if all_declared(cx, effects) {
                    self.terminate(TerminatorKind::Throw(error), span);
                } else {
                    self.terminate(TerminatorKind::Unreachable, span);
                }
            },
        }
    }
}

/// The error of a call inside a disposal, for which nothing else is disposed of.
#[verifier::opaque]
pub open spec fn spec_fail_in_disposal(
    cx: &Context,
    st: State,
    error: Option<ErrorExit>,
    temporaries: &List<LocalId>,
    effects: &List<DeclarationId>,
    start: usize,
) -> State {
    match error {
        Some(exit) => {
            let st = State { current: exit.block, ..st };
            let st = spec_end_storage(st, temporaries, cx.span_at(start));
            spec_hand_over_error(cx, st, Operand::Move(whole(exit.payload)), effects, start)
        },
        None => st,
    }
}

impl Builder {
    /// The error of a call inside a disposal, for which nothing else is disposed of.
    pub(crate) fn fail_in_disposal(
        &mut self,
        cx: &Context,
        error: Option<ErrorExit>,
        temporaries: &List<LocalId>,
        effects: &List<DeclarationId>,
        start: usize,
    )
        ensures
            final(self)@ == spec_fail_in_disposal(
                cx,
                old(self)@,
                error,
                temporaries,
                effects,
                start,
            ),
    {
        proof {
            reveal(spec_fail_in_disposal);
        }
        match error {
            Some(exit) => {
                self.current = exit.block;
                self.end_storage(temporaries, cx.span_at(start));
                self.hand_over_error(cx, Operand::Move(whole(exit.payload)), effects, start);
            },
            None => {},
        }
    }
}

/// The block and the local for the errors of a suspension.
#[verifier::opaque]
pub open spec fn spec_suspension_error(
    st: State,
    effects: &List<DeclarationId>,
    span: Span,
) -> (State, Option<LocalId>) {
    if effects.is_empty() {
        (st, None)
    } else {
        let (st, payload) = spec_live(st, Type::ErrorUnion(dup_plain(effects)), span);
        (st, Some(payload))
    }
}

impl Builder {
    /// The block and the local for the errors of a suspension.
    pub(crate) fn suspension_error(
        &mut self,
        effects: &List<DeclarationId>,
        span: Span,
    ) -> (r: Option<LocalId>)
        ensures
            (final(self)@, r) == spec_suspension_error(old(self)@, effects, span),
    {
        proof {
            reveal(spec_suspension_error);
        }
        if effects.is_empty() {
            return None;
        }
        let payload = self.live(Type::ErrorUnion(dup_plain(effects)), span);
        Some(payload)
    }
}

/// The block for an error that a local holds.
#[verifier::opaque]
pub open spec fn spec_error_exit(
    st: State,
    payload: Option<LocalId>,
) -> (State, Option<ErrorExit>) {
    match payload {
        Some(payload) => {
            let (st, block) = spec_new_block(st);
            (st, Some(ErrorExit { block, payload }))
        },
        None => (st, None),
    }
}

impl Builder {
    /// The block for an error that a local holds.
    pub(crate) fn error_exit(&mut self, payload: Option<LocalId>) -> (r: Option<ErrorExit>)
        ensures
            (final(self)@, r) == spec_error_exit(old(self)@, payload),
    {
        proof {
            reveal(spec_error_exit);
        }
        match payload {
            Some(payload) => {
                let block = self.new_block();
                Some(ErrorExit { block, payload })
            },
            None => None,
        }
    }
}

/// A suspension, which ends the current block.
#[verifier::opaque]
pub open spec fn spec_begin_suspension(
    st: State,
    value: Operand,
    result: &Type,
    effects: &List<DeclarationId>,
    span: Span,
) -> (State, SuspensionSite) {
    let (st, destination) = spec_result_local(st, result, span);
    let (st, payload) = spec_suspension_error(st, effects, span);
    let (st, resume) = spec_new_block(st);
    let (st, error) = spec_error_exit(st, payload);
    let (st, cancel) = spec_new_block(st);
    let st = spec_terminate(
        st, TerminatorKind::Suspend {
            value: moved(value),
            destination: whole_local(destination),
            error_destination: error_place(error),
            resume,
            error: error_block(error),
            cancel,
        },
        span,
    );
    (st, SuspensionSite { destination, resume, error, cancel })
}

impl Builder {
    /// A suspension, which ends the current block.
    pub(crate) fn begin_suspension(
        &mut self,
        value: Operand,
        result: &Type,
        effects: &List<DeclarationId>,
        span: Span,
    ) -> (r: SuspensionSite)
        ensures
            (final(self)@, r) == spec_begin_suspension(
                old(self)@,
                value,
                result,
                effects,
                span,
            ),
    {
        proof {
            reveal(spec_begin_suspension);
        }
        let destination = self.result_local(result, span);
        let payload = self.suspension_error(effects, span);
        let resume = self.new_block();
        let error = self.error_exit(payload);
        let cancel = self.new_block();
        self.terminate(
            TerminatorKind::Suspend {
                value: moved(value),
                destination: whole_local(destination),
                error_destination: error_place(error),
                resume,
                error: error_block(error),
                cancel,
            },
            span,
        );
        SuspensionSite { destination, resume, error, cancel }
    }
}

/// What a suspension comes back with, behind it. The block of a cancelled one ends there.
#[verifier::opaque]
pub open spec fn spec_finish_suspension(
    st: State,
    site: SuspensionSite,
    result: Type,
    span: Span,
) -> (State, Value) {
    let st = if spec_is_open(st) {
        spec_terminate(st, TerminatorKind::Unreachable, span)
    } else {
        st
    };
    let st = State { current: site.resume, ..st };
    match site.destination {
        Some(local) => (st, Value { operand: Operand::Move(whole(local)), ty: result }),
        None => {
            (st, Value { operand: Operand::Constant(Constant::Undefined(result.dup())), ty: result })
        },
    }
}

impl Builder {
    /// What a suspension comes back with, behind it. The block of a cancelled one ends there.
    pub(crate) fn finish_suspension(
        &mut self,
        site: SuspensionSite,
        result: Type,
        span: Span,
    ) -> (r: Value)
        ensures
            (final(self)@, r) == spec_finish_suspension(old(self)@, site, result, span),
    {
        proof {
            reveal(spec_finish_suspension);
        }
        if self.is_open() {
            self.terminate(TerminatorKind::Unreachable, span);
        }
        self.current = site.resume;
        match site.destination {
            Some(local) => Value { operand: Operand::Move(whole(local)), ty: result },
            None =>
                Value { operand: Operand::Constant(Constant::Undefined(result.dup())), ty: result },
        }
    }
}

/// The types of parameters.
pub open spec fn parameter_types_from(parameters: Seq<Parameter>, from: nat) -> List<Type>
    decreases parameters.len() - from,
{
    if from >= parameters.len() {
        List::Nil
    } else {
        let item = &parameters[from as int];
        let found = Some(item.ty.dup());
        match found {
            Some(found) => cons(found, parameter_types_from(parameters, from + 1)),
            None => parameter_types_from(parameters, from + 1),
        }
    }
}

/// The types of parameters.
#[verifier::allow_in_spec]
pub fn parameter_types(parameters: &Vec<Parameter>) -> (r: List<Type>)
    returns
        parameter_types_from(parameters@, 0),
{
    let mut list: List<Type> = List::Nil;
    let mut index: usize = parameters.len();
    while index > 0
        invariant
            index <= parameters@.len(),
            list == parameter_types_from(parameters@, index as nat),
        decreases index,
    {
        index = index - 1;
        let item = &parameters[index];
        let found = Some(item.ty.dup());
        match found {
            Some(found) => {
                list = cons(found, list);
            },
            None => {},
        }
    }
    list
}

/// The type of a disposal method.
#[verifier::allow_in_spec]
pub fn disposal_signature(method: &Method) -> (r: FunctionType)
    returns
        (FunctionType {
            parameters: parameter_types(&method.function.parameters),
            result: Box::new(method.function.result.dup()),
            effects: dup_plain(&method.function.effects),
            generics: List::Nil,
            is_async: true,
            is_unsafe: method.function.is_unsafe,
        }),
{
    FunctionType {
        parameters: parameter_types(&method.function.parameters),
        result: Box::new(method.function.result.dup()),
        effects: dup_plain(&method.function.effects),
        generics: List::Nil,
        is_async: true,
        is_unsafe: method.function.is_unsafe,
    }
}

/// The disposal of a managed local: its disposal method is called and awaited.
#[verifier::opaque]
pub open spec fn spec_dispose(cx: &Context, st: State, managed: Managed) -> State {
    let span = cx.span_at(managed.token);
    match spec_local_type(st, managed.local) {
        Some(ty) => {
            match disposal_method(cx.program, &ty) {
                Some(method) => {
                    match method_owner(cx.program, method.id) {
                        Some(implementation) => {
                            let signature = disposal_signature(method);
                            let function_type = Type::Function(signature.dup());
                            let (st, function) = spec_computed(
                                st, function_type.dup(),
                                Rvalue::DirectMethod {
                                    object: whole(managed.local),
                                    implementation,
                                    member: method.id,
                                    receiver: method.receiver,
                                    ty: function_type,
                                },
                                span,
                            );
                            let (st, call) = spec_begin_call(
                                st,
                                function,
                                Some(Operand::Copy(whole(managed.local))),
                                &signature,
                                List::Nil,
                                span,
                            );
                            let st = spec_fail_in_disposal(
                                cx,
                                st,
                                call.error,
                                &call.temporaries,
                                &signature.effects,
                                managed.token,
                            );
                            let (st, attempt) = spec_finish_call(st, call, &signature, span);
                            match attempt {
                                Some(promise) => {
                                    match promise.ty {
                                        Type::Promise { result, effects, .. } => {
                                            let (st, suspension) = spec_begin_suspension(
                                                st,
                                                promise.operand,
                                                &result,
                                                &effects,
                                                span,
                                            );
                                            let st = spec_fail_in_disposal(
                                                cx,
                                                st,
                                                suspension.error,
                                                &List::Nil,
                                                &effects,
                                                managed.token,
                                            );
                                            let st = State { current: suspension.cancel, ..st };
                                            spec_finish_suspension(st, suspension, *result, span).0
                                        },
                                        _ => st,
                                    }
                                },
                                _ => st,
                            }
                        },
                        _ => st,
                    }
                },
                _ => st,
            }
        },
        _ => st,
    }
}

impl Builder {
    /// The disposal of a managed local: its disposal method is called and awaited.
    pub(crate) fn dispose(&mut self, cx: &Context, managed: Managed)
        ensures
            final(self)@ == spec_dispose(cx, old(self)@, managed),
    {
        proof {
            reveal(spec_dispose);
        }
        let span = cx.span_at(managed.token);
        let Some(ty) = self.local_type(managed.local) else {
            return;
        };
        let Some(method) = disposal_method(cx.program, &ty) else {
            return;
        };
        let Some(implementation) = method_owner(cx.program, method.id) else {
            return;
        };
        let signature = disposal_signature(method);
        let function_type = Type::Function(signature.dup());
        let function = self.computed(
            function_type.dup(),
            Rvalue::DirectMethod {
                object: whole(managed.local),
                implementation,
                member: method.id,
                receiver: method.receiver,
                ty: function_type,
            },
            span,
        );
        let call = self.begin_call(
            function,
            Some(Operand::Copy(whole(managed.local))),
            &signature,
            List::Nil,
            span,
        );
        self.fail_in_disposal(cx, call.error, &call.temporaries, &signature.effects, managed.token);
        let Some(promise) = self.finish_call(call, &signature, span) else {
            return;
        };
        let Type::Promise { result, effects, .. } = promise.ty else {
            return;
        };
        let suspension = self.begin_suspension(promise.operand, &result, &effects, span);
        self.fail_in_disposal(cx, suspension.error, &List::Nil, &effects, managed.token);
        self.current = suspension.cancel;
        let _ = self.finish_suspension(suspension, *result, span);
    }
}

/// The disposal of managed locals, the last one first.
#[verifier::opaque]
pub open spec fn spec_lower_async_disposals(
    cx: &Context,
    st: State,
    managed: &List<Managed>,
) -> State
    decreases managed,
{
    match managed {
        List::Nil => st,
        List::Cons(head, tail) => {
            let st = spec_lower_async_disposals(cx, st, tail);
            spec_dispose(cx, st, **head)
        },
    }
}

impl Builder {
    /// The disposal of managed locals, the last one first.
    pub(crate) fn lower_async_disposals(&mut self, cx: &Context, managed: &List<Managed>)
        ensures
            final(self)@ == spec_lower_async_disposals(cx, old(self)@, managed),
        decreases managed,
    {
        proof {
            reveal_with_fuel(spec_lower_async_disposals, 2);
        }
        match managed {
            List::Nil => {},
            List::Cons(head, tail) => {
                self.lower_async_disposals(cx, tail);
                self.dispose(cx, **head);
            },
        }
    }
}

/// The number of scopes around the innermost handler.
#[verifier::opaque]
pub open spec fn spec_handler_depth(st: State) -> usize {
    match spec_handler(st) {
        Some(handler) => handler.scope_depth,
        None => 0,
    }
}

impl Builder {
    /// The number of scopes around the innermost handler.
    pub(crate) fn handler_depth(&self) -> (r: usize)
        ensures
            r == spec_handler_depth(self@),
    {
        proof {
            reveal(spec_handler_depth);
        }
        match self.handler() {
            Some(handler) => handler.scope_depth,
            None => 0,
        }
    }
}

/// An error leaves the scopes up to the handler, and goes there.
#[verifier::opaque]
pub open spec fn spec_route_error(
    cx: &Context,
    st: State,
    error: Operand,
    effects: &List<DeclarationId>,
    start: usize,
) -> State {
    let managed = spec_active_disposals(st, spec_handler_depth(st));
    let st = spec_lower_async_disposals(cx, st, &managed);
    spec_hand_over_error(cx, st, error, effects, start)
}

impl Builder {
    /// An error leaves the scopes up to the handler, and goes there.
    pub(crate) fn route_error(
        &mut self,
        cx: &Context,
        error: Operand,
        effects: &List<DeclarationId>,
        start: usize,
    )
        ensures
            final(self)@ == spec_route_error(cx, old(self)@, error, effects, start),
    {
        proof {
            reveal(spec_route_error);
        }
        let managed = self.active_disposals(self.handler_depth());
        self.lower_async_disposals(cx, &managed);
        self.hand_over_error(cx, error, effects, start);
    }
}

/// A call, and what it returns.
#[verifier::opaque]
pub open spec fn spec_emit_call(
    cx: &Context,
    st: State,
    function: Operand,
    receiver: Option<Operand>,
    signature: &FunctionType,
    arguments: List<Operand>,
    start: usize,
) -> (State, Option<Value>) {
    let span = cx.span_at(start);
    let (st, call) = spec_begin_call(st, function, receiver, signature, arguments, span);
    let st = if let Some(exit) = call.error {
        let st = State { current: exit.block, ..st };
        let st = spec_end_storage(st, &call.temporaries, span);
        spec_route_error(cx, st, Operand::Move(whole(exit.payload)), &signature.effects, start)
    } else {
        st
    };
    spec_finish_call(st, call, signature, span)
}

impl Builder {
    /// A call, and what it returns.
    pub(crate) fn emit_call(
        &mut self,
        cx: &Context,
        function: Operand,
        receiver: Option<Operand>,
        signature: &FunctionType,
        arguments: List<Operand>,
        start: usize,
    ) -> (r: Option<Value>)
        ensures
            (final(self)@, r) == spec_emit_call(
                cx,
                old(self)@,
                function,
                receiver,
                signature,
                arguments,
                start,
            ),
    {
        proof {
            reveal(spec_emit_call);
        }
        let span = cx.span_at(start);
        let call = self.begin_call(function, receiver, signature, arguments, span);
        if let Some(exit) = call.error {
            self.current = exit.block;
            self.end_storage(&call.temporaries, span);
            self.route_error(cx, Operand::Move(whole(exit.payload)), &signature.effects, start);
        }
        self.finish_call(call, signature, span)
    }
}

/// A wait for a promise, and what it comes back with. Where the wait is cancelled, the managed
/// locals of all scopes are disposed of.
#[verifier::opaque]
pub open spec fn spec_lower_await_operand(
    cx: &Context,
    st: State,
    promise: Value,
    start: usize,
) -> (State, Option<Value>) {
    match promise.ty {
        Type::Promise { result, effects, .. } => {
            let span = cx.span_at(start);
            let (st, suspension) = spec_begin_suspension(
                st,
                promise.operand,
                &result,
                &effects,
                span,
            );
            let st = if let Some(exit) = suspension.error {
                let st = State { current: exit.block, ..st };
                spec_route_error(cx, st, Operand::Move(whole(exit.payload)), &effects, start)
            } else {
                st
            };
            let st = State { current: suspension.cancel, ..st };
            let managed = spec_active_disposals(st, 0);
            let st = spec_lower_async_disposals(cx, st, &managed);
            let (st, value) = spec_finish_suspension(st, suspension, *result, span);
            (st, Some(value))
        },
        _ => (st, None),
    }
}

impl Builder {
    /// A wait for a promise, and what it comes back with. Where the wait is cancelled, the managed
    /// locals of all scopes are disposed of.
    pub(crate) fn lower_await_operand(
        &mut self,
        cx: &Context,
        promise: Value,
        start: usize,
    ) -> (r: Option<Value>)
        ensures
            (final(self)@, r) == spec_lower_await_operand(cx, old(self)@, promise, start),
    {
        proof {
            reveal(spec_lower_await_operand);
        }
        let Type::Promise { result, effects, .. } = promise.ty else {
            return None;
        };
        let span = cx.span_at(start);
        let suspension = self.begin_suspension(promise.operand, &result, &effects, span);
        if let Some(exit) = suspension.error {
            self.current = exit.block;
            self.route_error(cx, Operand::Move(whole(exit.payload)), &effects, start);
        }
        self.current = suspension.cancel;
        let managed = self.active_disposals(0);
        self.lower_async_disposals(cx, &managed);
        let value = self.finish_suspension(suspension, *result, span);
        Some(value)
    }
}

} // verus!
