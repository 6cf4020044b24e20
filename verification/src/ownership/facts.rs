//! What is known of declared types: whether they are copied, have a destructor, and may be sent
//! to or shared with another thread.

use vstd::prelude::*;

use crate::diagnostics::{report, CheckResult, Diagnostic, Finding};
use crate::hir::{DeclarationId, DeclarationKind, DefinitionData, Program, Type};
use crate::ids::contains_id;
use crate::list::List;
use crate::names::Name;
use crate::syntax::Span;

verus! {

/// The declared types that have each of the ownership properties.
#[derive(Debug, PartialEq, Eq)]
pub struct OwnershipFacts {
    pub copy: Vec<DeclarationId>,
    pub drop: Vec<DeclarationId>,
    pub send: Vec<DeclarationId>,
    pub sync: Vec<DeclarationId>,
}

/// Whether every element of the list is among the given declarations.
pub open spec fn all_in(list: List<DeclarationId>, ids: Seq<DeclarationId>) -> bool
    decreases list,
{
    match list {
        List::Nil => true,
        List::Cons(head, tail) => ids.contains(*head) && all_in(*tail, ids),
    }
}

/// Whether some element of the list is among the given declarations.
pub open spec fn any_in(list: List<DeclarationId>, ids: Seq<DeclarationId>) -> bool
    decreases list,
{
    match list {
        List::Nil => false,
        List::Cons(head, tail) => ids.contains(*head) || any_in(*tail, ids),
    }
}

fn are_all_in(list: &List<DeclarationId>, ids: &Vec<DeclarationId>) -> (r: bool)
    ensures
        r == all_in(*list, ids@),
    decreases list,
{
    match list {
        List::Nil => true,
        List::Cons(head, tail) => contains_id(ids, **head) && are_all_in(tail, ids),
    }
}

fn is_any_in(list: &List<DeclarationId>, ids: &Vec<DeclarationId>) -> (r: bool)
    ensures
        r == any_in(*list, ids@),
    decreases list,
{
    match list {
        List::Nil => false,
        List::Cons(head, tail) => contains_id(ids, **head) || is_any_in(tail, ids),
    }
}

/// Whether values of the type are copied when they are used.
pub open spec fn copies(copy: Seq<DeclarationId>, ty: Type) -> bool
    decreases ty,
{
    match ty {
        Type::Primitive(_) | Type::RawPointer { .. } | Type::Function(_) => true,
        Type::Reference { mutable, .. } => !mutable,
        Type::Optional(inner) | Type::Array(inner, _) => copies(copy, *inner),
        Type::Tuple(elements) | Type::Template(elements) => all_copy(copy, elements),
        Type::Nominal(id, _) => copy.contains(id),
        Type::ErrorUnion(effects) => all_in(effects, copy),
        _ => false,
    }
}

/// Whether values of every listed type are copied.
pub open spec fn all_copy(copy: Seq<DeclarationId>, types: List<Type>) -> bool
    decreases types,
{
    match types {
        List::Nil => true,
        List::Cons(head, tail) => copies(copy, *head) && all_copy(copy, *tail),
    }
}

/// Whether something must be done when a value of the type goes away.
pub open spec fn drops(drop: Seq<DeclarationId>, ty: Type) -> bool
    decreases ty,
{
    match ty {
        Type::String => true,
        Type::Nominal(id, _) => drop.contains(id),
        Type::Optional(inner) | Type::Array(inner, _) => drops(drop, *inner),
        Type::Promise { result, effects, .. } => drops(drop, *result) || any_in(effects, drop),
        Type::Tuple(elements) | Type::Template(elements) => any_drops(drop, elements),
        Type::ErrorUnion(effects) => any_in(effects, drop),
        _ => false,
    }
}

/// Whether something must be done when a value of one of the types goes away.
pub open spec fn any_drops(drop: Seq<DeclarationId>, types: List<Type>) -> bool
    decreases types,
{
    match types {
        List::Nil => false,
        List::Cons(head, tail) => drops(drop, *head) || any_drops(drop, *tail),
    }
}

/// Whether a value of the type may be sent to another thread, or, where `shared` asks for that,
/// be used by several threads at once.
///
/// A shared reference is sent when its referent is shared; a mutable one when its referent is
/// sent.
pub open spec fn thread_safe(
    send: Seq<DeclarationId>,
    sync: Seq<DeclarationId>,
    shared: bool,
    ty: Type,
) -> bool
    decreases ty,
{
    let marked = if shared {
        sync
    } else {
        send
    };
    match ty {
        Type::Primitive(_) | Type::Function(_) | Type::String | Type::Str => true,
        Type::Reference { mutable, referent, .. } => thread_safe(
            send,
            sync,
            shared || !mutable,
            *referent,
        ),
        Type::Optional(inner) | Type::Array(inner, _) | Type::Slice(inner) => thread_safe(
            send,
            sync,
            shared,
            *inner,
        ),
        Type::Promise { result, effects, .. } => thread_safe(send, sync, shared, *result)
            && all_in(effects, marked),
        Type::Tuple(elements) | Type::Template(elements) => all_thread_safe(
            send,
            sync,
            shared,
            elements,
        ),
        Type::ErrorUnion(effects) => all_in(effects, marked),
        Type::Nominal(id, arguments) => marked.contains(id) && all_thread_safe(
            send,
            sync,
            shared,
            arguments,
        ),
        _ => false,
    }
}

/// Whether values of every listed type may be sent, or be shared.
pub open spec fn all_thread_safe(
    send: Seq<DeclarationId>,
    sync: Seq<DeclarationId>,
    shared: bool,
    types: List<Type>,
) -> bool
    decreases types,
{
    match types {
        List::Nil => true,
        List::Cons(head, tail) => thread_safe(send, sync, shared, *head) && all_thread_safe(
            send,
            sync,
            shared,
            *tail,
        ),
    }
}

impl OwnershipFacts {
    /// Facts that give no declared type any property.
    pub fn none() -> (r: OwnershipFacts)
        ensures
            r.copy@.len() == 0,
            r.drop@.len() == 0,
            r.send@.len() == 0,
            r.sync@.len() == 0,
    {
        OwnershipFacts { copy: Vec::new(), drop: Vec::new(), send: Vec::new(), sync: Vec::new() }
    }

    /// Whether values of the type are copied when they are used.
    #[verifier::allow_in_spec]
    pub fn is_copy(&self, ty: &Type) -> (r: bool)
        returns
            copies(self.copy@, *ty),
        decreases ty,
    {
        match ty {
            Type::Primitive(_) => true,
            Type::RawPointer { .. } => true,
            Type::Function(_) => true,
            Type::Reference { mutable, .. } => !*mutable,
            Type::Optional(inner) => self.is_copy(inner),
            Type::Array(inner, _) => self.is_copy(inner),
            Type::Tuple(elements) => self.are_copy(elements),
            Type::Template(elements) => self.are_copy(elements),
            Type::Nominal(id, _) => contains_id(&self.copy, *id),
            Type::ErrorUnion(effects) => are_all_in(effects, &self.copy),
            _ => false,
        }
    }

    fn are_copy(&self, types: &List<Type>) -> (r: bool)
        ensures
            r == all_copy(self.copy@, *types),
        decreases types,
    {
        match types {
            List::Nil => true,
            List::Cons(head, tail) => self.is_copy(head) && self.are_copy(tail),
        }
    }

    /// Whether something must be done when a value of the type goes away.
    #[verifier::allow_in_spec]
    pub fn has_drop(&self, ty: &Type) -> (r: bool)
        returns
            drops(self.drop@, *ty),
        decreases ty,
    {
        match ty {
            Type::String => true,
            Type::Nominal(id, _) => contains_id(&self.drop, *id),
            Type::Optional(inner) => self.has_drop(inner),
            Type::Array(inner, _) => self.has_drop(inner),
            Type::Promise { result, effects, .. } => self.has_drop(result) || is_any_in(
                effects,
                &self.drop,
            ),
            Type::Tuple(elements) => self.have_drop(elements),
            Type::Template(elements) => self.have_drop(elements),
            Type::ErrorUnion(effects) => is_any_in(effects, &self.drop),
            _ => false,
        }
    }

    fn have_drop(&self, types: &List<Type>) -> (r: bool)
        ensures
            r == any_drops(self.drop@, *types),
        decreases types,
    {
        match types {
            List::Nil => false,
            List::Cons(head, tail) => self.has_drop(head) || self.have_drop(tail),
        }
    }

    /// Whether a value of the type may be sent to another thread.
    #[verifier::allow_in_spec]
    pub fn is_send(&self, ty: &Type) -> (r: bool)
        returns
            thread_safe(self.send@, self.sync@, false, *ty),
    {
        self.is_thread_safe(false, ty)
    }

    /// Whether a value of the type may be used by several threads at once.
    #[verifier::allow_in_spec]
    pub fn is_sync(&self, ty: &Type) -> (r: bool)
        returns
            thread_safe(self.send@, self.sync@, true, *ty),
    {
        self.is_thread_safe(true, ty)
    }

    fn is_thread_safe(&self, shared: bool, ty: &Type) -> (r: bool)
        ensures
            r == thread_safe(self.send@, self.sync@, shared, *ty),
        decreases ty,
    {
        let marked = if shared {
            &self.sync
        } else {
            &self.send
        };
        match ty {
            Type::Primitive(_) => true,
            Type::Function(_) => true,
            Type::String => true,
            Type::Str => true,
            Type::Reference { mutable, referent, .. } => self.is_thread_safe(
                shared || !*mutable,
                referent,
            ),
            Type::Optional(inner) => self.is_thread_safe(shared, inner),
            Type::Array(inner, _) => self.is_thread_safe(shared, inner),
            Type::Slice(inner) => self.is_thread_safe(shared, inner),
            Type::Promise { result, effects, .. } => self.is_thread_safe(shared, result)
                && are_all_in(effects, marked),
            Type::Tuple(elements) => self.are_thread_safe(shared, elements),
            Type::Template(elements) => self.are_thread_safe(shared, elements),
            Type::ErrorUnion(effects) => are_all_in(effects, marked),
            Type::Nominal(id, arguments) => contains_id(marked, *id) && self.are_thread_safe(
                shared,
                arguments,
            ),
            _ => false,
        }
    }

    fn are_thread_safe(&self, shared: bool, types: &List<Type>) -> (r: bool)
        ensures
            r == all_thread_safe(self.send@, self.sync@, shared, *types),
        decreases types,
    {
        match types {
            List::Nil => true,
            List::Cons(head, tail) => self.is_thread_safe(shared, head) && self.are_thread_safe(
                shared,
                tail,
            ),
        }
    }
}

/// How a closure holds a value of its surroundings.
#[derive(Clone, Copy, Debug, PartialEq, Eq, Structural)]
pub enum CaptureKind {
    SharedBorrow,
    MutableBorrow,
    Move,
}

/// A value that a closure holds.
#[derive(Debug, PartialEq, Eq)]
pub struct Capture {
    pub name: Name,
    pub ty: Type,
    pub kind: CaptureKind,
    pub span: Span,
}

/// Whether a capture may cross to another thread.
pub open spec fn capture_is_thread_safe(capture: Capture, facts: &OwnershipFacts) -> bool {
    match capture.kind {
        CaptureKind::SharedBorrow => facts.is_sync(&capture.ty),
        CaptureKind::MutableBorrow | CaptureKind::Move => facts.is_send(&capture.ty),
    }
}

/// Whether a capture is a borrow of something that does not live as long as the process.
pub open spec fn capture_is_short_lived(capture: Capture) -> bool {
    capture.kind != CaptureKind::Move && (capture.ty matches Type::Reference { lifetime, .. }
        && lifetime != Name::Static)
}

/// The findings on one capture.
pub open spec fn capture_findings(
    capture: Capture,
    detached: bool,
    facts: &OwnershipFacts,
) -> Seq<Diagnostic> {
    let unsafe_part = if capture_is_thread_safe(capture, facts) {
        Seq::empty()
    } else {
        seq![report(Finding::CaptureNotThreadSafe(capture.name), capture.span)]
    };
    let detached_part = if detached && capture_is_short_lived(capture) {
        seq![report(Finding::DetachedCaptureNotStatic(capture.name), capture.span)]
    } else {
        Seq::empty()
    };
    unsafe_part + detached_part
}

/// The findings on the captures from position `from` on.
pub open spec fn captures_findings(
    captures: Seq<Capture>,
    detached: bool,
    facts: &OwnershipFacts,
    from: nat,
) -> Seq<Diagnostic>
    decreases captures.len() - from,
{
    if from >= captures.len() {
        Seq::empty()
    } else {
        capture_findings(captures[from as int], detached, facts) + captures_findings(
            captures,
            detached,
            facts,
            from + 1,
        )
    }
}

/// Checks what a task may capture. A detached task may outlive every borrow that is not static.
pub fn check_capture_requirements(
    captures: &Vec<Capture>,
    detached: bool,
    facts: &OwnershipFacts,
) -> (r: CheckResult)
    ensures
        r.diagnostics@ == captures_findings(captures@, detached, facts, 0),
{
    let mut diagnostics: Vec<Diagnostic> = Vec::new();
    let mut index: usize = 0;
    proof {
        assert(diagnostics@ + captures_findings(captures@, detached, facts, 0)
            =~= captures_findings(captures@, detached, facts, 0));
    }
    while index < captures.len()
        invariant
            index <= captures.len(),
            captures_findings(captures@, detached, facts, 0) == diagnostics@ + captures_findings(
                captures@,
                detached,
                facts,
                index as nat,
            ),
        decreases captures.len() - index,
    {
        let ghost before = diagnostics@;
        let capture = &captures[index];
        let thread_safe = match capture.kind {
            CaptureKind::SharedBorrow => facts.is_sync(&capture.ty),
            CaptureKind::MutableBorrow => facts.is_send(&capture.ty),
            CaptureKind::Move => facts.is_send(&capture.ty),
        };
        if !thread_safe {
            diagnostics.push(report(Finding::CaptureNotThreadSafe(capture.name), capture.span));
        }
        let short_lived = match &capture.ty {
            Type::Reference { lifetime, .. } => *lifetime != Name::Static,
            _ => false,
        };
        if detached && capture.kind != CaptureKind::Move && short_lived {
            diagnostics.push(report(Finding::DetachedCaptureNotStatic(capture.name), capture.span));
        }
        proof {
            assert(diagnostics@ =~= before + capture_findings(*capture, detached, facts));
            assert(before + (capture_findings(*capture, detached, facts) + captures_findings(
                captures@,
                detached,
                facts,
                (index + 1) as nat,
            )) =~= diagnostics@ + captures_findings(
                captures@,
                detached,
                facts,
                (index + 1) as nat,
            ));
        }
        index = index + 1;
    }
    proof {
        assert(diagnostics@ + captures_findings(captures@, detached, facts, index as nat)
            =~= diagnostics@);
    }
    CheckResult { diagnostics }
}

/// Where the definition at a position makes an immutable static of a type that is not shared
/// between threads, the place of its declaration.
pub open spec fn unshared_static(program: &Program, index: int, facts: &OwnershipFacts) -> Option<
    Span,
> {
    let definition = program.definitions@[index];
    match program.declaration(definition.declaration) {
        Some(declaration) => if declaration.kind == DeclarationKind::Static {
            match definition.data {
                DefinitionData::Constant { ty, mutable_static } => if !mutable_static
                    && !facts.is_sync(&ty) {
                    Some(declaration.span)
                } else {
                    None
                },
                _ => None,
            }
        } else {
            None
        },
        None => None,
    }
}

/// The findings on the statics that are defined from position `from` on.
pub open spec fn static_findings(program: &Program, facts: &OwnershipFacts, from: nat) -> Seq<
    Diagnostic,
>
    decreases program.definitions@.len() - from,
{
    if from >= program.definitions@.len() {
        Seq::empty()
    } else {
        match unshared_static(program, from as int, facts) {
            Some(span) => seq![report(Finding::ImmutableStaticNotSync, span)] + static_findings(
                program,
                facts,
                from + 1,
            ),
            None => static_findings(program, facts, from + 1),
        }
    }
}

/// Checks that every immutable static is of a type that threads may share.
pub fn check_static_requirements(program: &Program, facts: &OwnershipFacts) -> (r: CheckResult)
    ensures
        r.diagnostics@ == static_findings(program, facts, 0),
{
    let mut diagnostics: Vec<Diagnostic> = Vec::new();
    let mut index: usize = 0;
    proof {
        assert(diagnostics@ + static_findings(program, facts, 0) =~= static_findings(
            program,
            facts,
            0,
        ));
    }
    while index < program.definitions.len()
        invariant
            index <= program.definitions.len(),
            static_findings(program, facts, 0) == diagnostics@ + static_findings(
                program,
                facts,
                index as nat,
            ),
        decreases program.definitions.len() - index,
    {
        let ghost before = diagnostics@;
        let definition = &program.definitions[index];
        match program.declaration(definition.declaration) {
            Some(declaration) => {
                if declaration.kind == DeclarationKind::Static {
                    match &definition.data {
                        DefinitionData::Constant { ty, mutable_static } => {
                            if !*mutable_static && !facts.is_sync(ty) {
                                diagnostics.push(
                                    report(Finding::ImmutableStaticNotSync, declaration.span),
                                );
                            }
                        },
                        _ => {},
                    }
                }
            },
            None => {},
        }
        proof {
            let rest = static_findings(program, facts, (index + 1) as nat);
            match unshared_static(program, index as int, facts) {
                Some(span) => {
                    assert(before + (seq![report(Finding::ImmutableStaticNotSync, span)] + rest)
                        =~= diagnostics@ + rest);
                },
                None => {},
            }
        }
        index = index + 1;
    }
    proof {
        assert(diagnostics@ + static_findings(program, facts, index as nat) =~= diagnostics@);
    }
    CheckResult { diagnostics }
}

proof fn lemma_copied_errors_do_not_drop(
    copy: Seq<DeclarationId>,
    drop: Seq<DeclarationId>,
    effects: List<DeclarationId>,
)
    requires
        forall|id: DeclarationId| copy.contains(id) ==> !drop.contains(id),
        all_in(effects, copy),
    ensures
        !any_in(effects, drop),
    decreases effects,
{
    match effects {
        List::Nil => {},
        List::Cons(_, tail) => lemma_copied_errors_do_not_drop(copy, drop, *tail),
    }
}

/// Where no copied declared type has a destructor, no copied type does.
pub proof fn copied_values_do_not_drop(
    copy: Seq<DeclarationId>,
    drop: Seq<DeclarationId>,
    ty: Type,
)
    requires
        forall|id: DeclarationId| copy.contains(id) ==> !drop.contains(id),
        copies(copy, ty),
    ensures
        !drops(drop, ty),
    decreases ty,
{
    match ty {
        Type::Optional(inner) | Type::Array(inner, _) => {
            copied_values_do_not_drop(copy, drop, *inner);
        },
        Type::Tuple(elements) | Type::Template(elements) => {
            lemma_all_copied_do_not_drop(copy, drop, elements);
        },
        Type::ErrorUnion(effects) => {
            lemma_copied_errors_do_not_drop(copy, drop, effects);
        },
        _ => {},
    }
}

proof fn lemma_all_copied_do_not_drop(
    copy: Seq<DeclarationId>,
    drop: Seq<DeclarationId>,
    types: List<Type>,
)
    requires
        forall|id: DeclarationId| copy.contains(id) ==> !drop.contains(id),
        all_copy(copy, types),
    ensures
        !any_drops(drop, types),
    decreases types,
{
    match types {
        List::Nil => {},
        List::Cons(head, tail) => {
            copied_values_do_not_drop(copy, drop, *head);
            lemma_all_copied_do_not_drop(copy, drop, *tail);
        },
    }
}

/// Nothing is found on captures from a position on exactly if each of them may cross to another
/// thread and, where the task is detached, none is a borrow that may end before it.
pub proof fn accepted_captures_are_safe(
    captures: Seq<Capture>,
    detached: bool,
    facts: &OwnershipFacts,
    from: nat,
)
    ensures
        captures_findings(captures, detached, facts, from).len() == 0 <==> forall|index: int|
            from <= index < captures.len() ==> capture_is_thread_safe(
                #[trigger] captures[index],
                facts,
            ) && !(detached && capture_is_short_lived(captures[index])),
    decreases captures.len() - from,
{
    if from < captures.len() {
        accepted_captures_are_safe(captures, detached, facts, from + 1);
        let capture = captures[from as int];
        let own = capture_findings(capture, detached, facts);
        assert(own.len() == 0 <==> capture_is_thread_safe(capture, facts) && !(detached
            && capture_is_short_lived(capture)));
    }
}

} // verus!
