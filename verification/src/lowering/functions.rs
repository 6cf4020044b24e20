//! Bodies of functions and methods, and of a whole program.

use vstd::prelude::*;

use crate::hir::{
    BodyHir, BodyOwner, DeclarationId, Definition, DefinitionData, Function, GenericParameter,
    HirBindingPattern, HirLocal, HirLocalId, HirPatternBinding, MemberId, Method, Module, Program,
    Type,
};
use crate::list::{cons, dup_plain, List};
use crate::lowering::builder::{
    bodies_view, body_view, empty_state, spec_add_local, spec_bind_hir, spec_finish,
    spec_lowered_local, BodyView, Builder, State,
};
use crate::lowering::closures::spec_add_argument;
use crate::lowering::context::{next, Context, ScopedGeneric};
use crate::lowering::recursion::{lowering, Lowering};
use crate::lowering::statements::spec_lower_body;
use crate::lowering::types::{generator_item_type, specialize_owner_result};
use crate::mir::Body;
use crate::names::Name;
use crate::ownership::derive::{are_facts_of, derive_ownership_facts};
use crate::ownership::facts::OwnershipFacts;
use crate::syntax::Token;

verus! {

/// The parameters of a body from `index` on as arguments. One that is not known is left out.
#[verifier::opaque]
pub open spec fn spec_add_arguments(
    cx: &Context,
    st: State,
    ids: &Vec<HirLocalId>,
    index: usize,
) -> State
    decreases ids@.len() - index,
{
    if index < ids.len() {
        let id = &ids[index as int];
        let st = if let Some(local) = cx.hir_local(*id) {
            spec_add_argument(st, local)
        } else {
            st
        };
        spec_add_arguments(cx, st, ids, next(index))
    } else {
        st
    }
}

impl Builder {
    /// The parameters of a body from `index` on as arguments. One that is not known is left out.
    pub(crate) fn add_arguments(&mut self, cx: &Context, ids: &Vec<HirLocalId>, index: usize)
        ensures
            final(self)@ == spec_add_arguments(cx, old(self)@, ids, index),
        decreases ids@.len() - index,
    {
        proof {
            reveal_with_fuel(spec_add_arguments, 2);
        }
        if index < ids.len() {
            let id = &ids[index];
            if let Some(local) = cx.hir_local(*id) {
                self.add_argument(local);
            }
            self.add_arguments(cx, ids, next(index));
        }
    }
}

/// Whether one of the bindings fills a local.
pub open spec fn binds_local_from(
    bindings: Seq<HirPatternBinding>,
    id: HirLocalId,
    from: nat,
) -> bool
    decreases bindings.len() - from,
{
    if from >= bindings.len() {
        false
    } else {
        let item = &bindings[from as int];
        let found = item.local == id;
        found || binds_local_from(bindings, id, from + 1)
    }
}

/// Whether one of the bindings fills a local.
#[verifier::allow_in_spec]
pub fn binds_local(bindings: &Vec<HirPatternBinding>, id: HirLocalId) -> (r: bool)
    returns
        binds_local_from(bindings@, id, 0),
{
    let mut index: usize = 0;
    while index < bindings.len()
        invariant
            binds_local_from(bindings@, id, 0) == binds_local_from(bindings@, id, index as nat),
        decreases bindings.len() - index,
    {
        let item = &bindings[index];
        let found = item.local == id;
        if found {
            return true;
        }
        index = index + 1;
    }
    false
}

/// Whether a binding of one of the patterns fills a local.
pub open spec fn is_binding_local_from(
    patterns: Seq<HirBindingPattern>,
    id: HirLocalId,
    from: nat,
) -> bool
    decreases patterns.len() - from,
{
    if from >= patterns.len() {
        false
    } else {
        let item = &patterns[from as int];
        let found = binds_local(&item.bindings, id);
        found || is_binding_local_from(patterns, id, from + 1)
    }
}

/// Whether a binding of one of the patterns fills a local.
#[verifier::allow_in_spec]
pub fn is_binding_local(patterns: &Vec<HirBindingPattern>, id: HirLocalId) -> (r: bool)
    returns
        is_binding_local_from(patterns@, id, 0),
{
    let mut index: usize = 0;
    while index < patterns.len()
        invariant
            is_binding_local_from(patterns@, id, 0)
                == is_binding_local_from(patterns@, id, index as nat),
        decreases patterns.len() - index,
    {
        let item = &patterns[index];
        let found = binds_local(&item.bindings, id);
        if found {
            return true;
        }
        index = index + 1;
    }
    false
}

/// The checked locals from `index` on that patterns fill, as far as they are not lowered yet.
#[verifier::opaque]
pub open spec fn spec_add_binding_locals(
    cx: &Context,
    st: State,
    locals: &Vec<HirLocal>,
    index: usize,
) -> State
    decreases locals@.len() - index,
{
    if index < locals.len() {
        let local = &locals[index as int];
        let st = if is_binding_local(&cx.hir.binding_patterns, local.id) && spec_lowered_local(
            st,
            local.id,
        ).is_none() {
            let (st, added) = spec_add_local(
                st,
                local.name,
                local.ty.dup(),
                local.mutable,
                false,
                local.origin,
            );
            spec_bind_hir(st, local.id, added)
        } else {
            st
        };
        spec_add_binding_locals(cx, st, locals, next(index))
    } else {
        st
    }
}

impl Builder {
    /// The checked locals from `index` on that patterns fill, as far as they are not lowered yet.
    pub(crate) fn add_binding_locals(
        &mut self,
        cx: &Context,
        locals: &Vec<HirLocal>,
        index: usize,
    )
        ensures
            final(self)@ == spec_add_binding_locals(cx, old(self)@, locals, index),
        decreases locals@.len() - index,
    {
        proof {
            reveal_with_fuel(spec_add_binding_locals, 2);
        }
        if index < locals.len() {
            let local = &locals[index];
            if is_binding_local(&cx.hir.binding_patterns, local.id) && self.lowered_local(
                local.id,
            ).is_none() {
                let added = self.add_local(
                    local.name,
                    local.ty.dup(),
                    local.mutable,
                    false,
                    local.origin,
                );
                self.bind_hir(local.id, added);
            }
            self.add_binding_locals(cx, locals, next(index));
        }
    }
}

/// The checked local with a name.
pub open spec fn local_named_from(
    locals: Seq<HirLocal>,
    name: Name,
    from: nat,
) -> Option<HirLocalId>
    decreases locals.len() - from,
{
    if from >= locals.len() {
        None
    } else {
        let item = &locals[from as int];
        let found = {
            if item.name == name {
                Some(item.id)
            } else {
                None
            }
        };
        match found {
            Some(found) => Some(found),
            None => local_named_from(locals, name, from + 1),
        }
    }
}

/// The checked local with a name.
#[verifier::allow_in_spec]
pub fn local_named(locals: &Vec<HirLocal>, name: Name) -> (r: Option<HirLocalId>)
    returns
        local_named_from(locals@, name, 0),
{
    let mut index: usize = 0;
    while index < locals.len()
        invariant
            local_named_from(locals@, name, 0) == local_named_from(locals@, name, index as nat),
        decreases locals.len() - index,
    {
        let item = &locals[index];
        let found = {
            if item.name == name {
                Some(item.id)
            } else {
                None
            }
        };
        match found {
            Some(found) => {
                return Some(found);
            },
            None => {},
        }
        index = index + 1;
    }
    None
}

/// The object of a method.
#[verifier::opaque]
pub open spec fn spec_object_local<'a>(
    cx: &Context<'a>,
    member: Option<MemberId>,
) -> Option<&'a HirLocal> {
    if member.is_none() {
        None
    } else {
        match local_named(&cx.hir.locals, Name::This) {
            Some(id) => cx.hir_local(id),
            None => None,
        }
    }
}

/// The object of a method.
#[verifier::allow_in_spec]
pub fn object_local<'a>(cx: &Context<'a>, member: Option<MemberId>) -> (r: Option<&'a HirLocal>)
    returns
        spec_object_local(cx, member),
{
    proof {
        reveal(spec_object_local);
    }
    if member.is_none() {
        return None;
    }
    match local_named(&cx.hir.locals, Name::This) {
        Some(id) => cx.hir_local(id),
        None => None,
    }
}

/// The body of a function or method: its arguments, and then its code.
#[verifier::opaque]
pub open spec fn spec_lower_function(
    cx: &Context,
    st: State,
    member: Option<MemberId>,
    low: Lowering,
) -> State {
    let st = if let Some(object) = spec_object_local(cx, member) {
        spec_add_argument(st, object)
    } else {
        st
    };
    let st = spec_add_arguments(cx, st, &cx.hir.parameter_roots, 0);
    let st = spec_add_binding_locals(cx, st, &cx.hir.locals, 0);
    spec_lower_body(cx, st, low)
}

impl Builder {
    /// The body of a function or method: its arguments, and then its code.
    pub(crate) fn lower_function(&mut self, cx: &Context, member: Option<MemberId>, limit: usize)
        ensures
            final(self)@ == spec_lower_function(
                cx,
                old(self)@,
                member,
                lowering(limit as nat),
            ),
        decreases limit, 8nat, 0nat,
    {
        proof {
            reveal(spec_lower_function);
        }
        if let Some(object) = object_local(cx, member) {
            self.add_argument(object);
        }
        self.add_arguments(cx, &cx.hir.parameter_roots, 0);
        self.add_binding_locals(cx, &cx.hir.locals, 0);
        self.lower_body(cx, limit);
    }
}

/// The position of the first token that ends behind a byte.
pub open spec fn spec_tokens_up_to(tokens: &Vec<Token>, byte: u32, index: usize) -> usize
    decreases tokens@.len() - index,
{
    if index >= tokens.len() {
        index
    } else {
        let token = &tokens[index as int];
        if token.end > byte {
            index
        } else {
            spec_tokens_up_to(tokens, byte, next(index))
        }
    }
}

/// The position of the first token that ends behind a byte.
#[verifier::allow_in_spec]
pub fn tokens_up_to(tokens: &Vec<Token>, byte: u32, index: usize) -> (r: usize)
    returns
        spec_tokens_up_to(tokens, byte, index),
    decreases tokens@.len() - index,
{
    proof {
        reveal_with_fuel(spec_tokens_up_to, 2);
    }
    if index >= tokens.len() {
        return index;
    }
    let token = &tokens[index];
    if token.end > byte {
        return index;
    }
    tokens_up_to(tokens, byte, next(index))
}

/// The position of the first of `count` tokens that starts behind a byte.
pub open spec fn spec_first_behind(
    tokens: &Vec<Token>,
    count: usize,
    byte: u32,
    index: usize,
) -> usize
    decreases tokens@.len() - index,
{
    if index >= count || index >= tokens.len() {
        count
    } else {
        let token = &tokens[index as int];
        if token.start > byte {
            index
        } else {
            spec_first_behind(tokens, count, byte, next(index))
        }
    }
}

/// The position of the first of `count` tokens that starts behind a byte.
#[verifier::allow_in_spec]
pub fn first_behind(tokens: &Vec<Token>, count: usize, byte: u32, index: usize) -> (r: usize)
    returns
        spec_first_behind(tokens, count, byte, index),
    decreases tokens@.len() - index,
{
    proof {
        reveal_with_fuel(spec_first_behind, 2);
    }
    if index >= count || index >= tokens.len() {
        return count;
    }
    let token = &tokens[index];
    if token.start > byte {
        return index;
    }
    first_behind(tokens, count, byte, next(index))
}

/// The position of the first of `count` tokens that ends at or behind a byte.
pub open spec fn spec_first_reaching(
    tokens: &Vec<Token>,
    count: usize,
    byte: u32,
    index: usize,
) -> usize
    decreases tokens@.len() - index,
{
    if index >= count || index >= tokens.len() {
        count
    } else {
        let token = &tokens[index as int];
        if token.end >= byte {
            index
        } else {
            spec_first_reaching(tokens, count, byte, next(index))
        }
    }
}

/// The position of the first of `count` tokens that ends at or behind a byte.
#[verifier::allow_in_spec]
pub fn first_reaching(tokens: &Vec<Token>, count: usize, byte: u32, index: usize) -> (r: usize)
    returns
        spec_first_reaching(tokens, count, byte, index),
    decreases tokens@.len() - index,
{
    proof {
        reveal_with_fuel(spec_first_reaching, 2);
    }
    if index >= count || index >= tokens.len() {
        return count;
    }
    let token = &tokens[index];
    if token.end >= byte {
        return index;
    }
    first_reaching(tokens, count, byte, next(index))
}

/// Parameters that are in scope, before those that are in scope around them. Of two with one
/// name the last one counts.
pub open spec fn spec_scoped_generics(
    generics: &List<GenericParameter>,
    scope: List<ScopedGeneric>,
) -> List<ScopedGeneric>
    decreases generics,
{
    match generics {
        List::Nil => scope,
        List::Cons(head, tail) => {
            spec_scoped_generics(
                tail,
                cons(ScopedGeneric { name: head.name, namespace: head.namespace }, scope),
            )
        },
    }
}

/// Parameters that are in scope, before those that are in scope around them. Of two with one
/// name the last one counts.
#[verifier::allow_in_spec]
pub fn scoped_generics(
    generics: &List<GenericParameter>,
    scope: List<ScopedGeneric>,
) -> (r: List<ScopedGeneric>)
    returns
        spec_scoped_generics(generics, scope),
    decreases generics,
{
    proof {
        reveal_with_fuel(spec_scoped_generics, 2);
    }
    match generics {
        List::Nil => scope,
        List::Cons(head, tail) => scoped_generics(
            tail,
            cons(ScopedGeneric { name: head.name, namespace: head.namespace }, scope),
        ),
    }
}

/// The parameters that are in scope in a function: its own, hidden by those of its declaration.
#[verifier::opaque]
pub open spec fn spec_generics_of(
    program: &Program,
    declaration: DeclarationId,
    function: &Function,
) -> List<ScopedGeneric> {
    let own = spec_scoped_generics(&function.generics, List::Nil);
    match program.definition(declaration) {
        Some(definition) => spec_scoped_generics(&definition.generics, own),
        None => own,
    }
}

/// The parameters that are in scope in a function: its own, hidden by those of its declaration.
#[verifier::allow_in_spec]
pub fn generics_of(
    program: &Program,
    declaration: DeclarationId,
    function: &Function,
) -> (r: List<ScopedGeneric>)
    returns
        spec_generics_of(program, declaration, function),
{
    proof {
        reveal(spec_generics_of);
    }
    let own = scoped_generics(&function.generics, List::Nil);
    match program.definition(declaration) {
        Some(definition) => scoped_generics(&definition.generics, own),
        None => own,
    }
}

/// The type of the values that a function returns. An asynchronous one returns what its promise
/// comes back with.
#[verifier::allow_in_spec]
pub fn returned_type(result: &Type, is_async: bool) -> (r: Type)
    returns
        match result {
            Type::Promise { result: inner, .. } => {
                if is_async {
                    inner.dup()
                } else {
                    result.dup()
                }
            },
            other => other.dup(),
        },
{
    match result {
        Type::Promise { result: inner, .. } => {
            if is_async {
                inner.dup()
            } else {
                result.dup()
            }
        },
        other => other.dup(),
    }
}

/// The type of the items that a function yields, if it is a generator.
#[verifier::allow_in_spec]
pub fn yielded_type(program: &Program, function: &Function, result: &Type) -> (r: Option<Type>)
    returns
        if function.is_generator {
            generator_item_type(program, result, function.is_async)
        } else {
            None
        },
{
    if function.is_generator {
        generator_item_type(program, result, function.is_async)
    } else {
        None
    }
}

/// The surroundings of the body of a function.
#[verifier::opaque]
pub open spec fn spec_function_context<'a>(
    program: &'a Program,
    module: &'a Module,
    hir: &'a BodyHir,
    facts: &'a OwnershipFacts,
    declaration: DeclarationId,
    function: &Function,
) -> Context<'a> {
    let count: usize = spec_tokens_up_to(&module.tokens, function.body_end, 0);
    let result = specialize_owner_result(program, declaration, &function.result);
    Context {
        program,
        module,
        hir,
        facts,
        tokens: &module.tokens,
        first: 0,
        count,
        body_limit: spec_first_reaching(&module.tokens, count, function.body_end, 0),
        return_type: returned_type(&result, function.is_async),
        declared_effects: dup_plain(&function.effects),
        generics: spec_generics_of(program, declaration, function),
        generator_item_type: yielded_type(program, function, &result),
        generator_async: function.is_async,
    }
}

/// The surroundings of the body of a function.
#[verifier::allow_in_spec]
pub fn function_context<'a>(
    program: &'a Program,
    module: &'a Module,
    hir: &'a BodyHir,
    facts: &'a OwnershipFacts,
    declaration: DeclarationId,
    function: &Function,
) -> (r: Context<'a>)
    returns
        spec_function_context(program, module, hir, facts, declaration, function),
{
    proof {
        reveal(spec_function_context);
    }
    let count: usize = tokens_up_to(&module.tokens, function.body_end, 0);
    let result = specialize_owner_result(program, declaration, &function.result);
    Context {
        program,
        module,
        hir,
        facts,
        tokens: &module.tokens,
        first: 0,
        count,
        body_limit: first_reaching(&module.tokens, count, function.body_end, 0),
        return_type: returned_type(&result, function.is_async),
        declared_effects: dup_plain(&function.effects),
        generics: generics_of(program, declaration, function),
        generator_item_type: yielded_type(program, function, &result),
        generator_async: function.is_async,
    }
}

/// The owner of a body.
#[verifier::allow_in_spec]
pub fn body_owner(declaration: DeclarationId, member: Option<MemberId>) -> (r: BodyOwner)
    returns
        match member {
            Some(member) => BodyOwner::Member { declaration, member },
            None => BodyOwner::Declaration(declaration),
        },
{
    match member {
        Some(member) => BodyOwner::Member { declaration, member },
        None => BodyOwner::Declaration(declaration),
    }
}

/// The checked body of an owner.
pub open spec fn checked_body_from<'a>(
    bodies: Seq<BodyHir>,
    owner: BodyOwner,
    from: nat,
) -> Option<&'a BodyHir>
    decreases bodies.len() - from,
{
    if from >= bodies.len() {
        None
    } else {
        let item = &bodies[from as int];
        let found = {
            if item.owner == owner {
                Some(item)
            } else {
                None
            }
        };
        match found {
            Some(found) => Some(found),
            None => checked_body_from(bodies, owner, from + 1),
        }
    }
}

/// The checked body of an owner.
#[verifier::allow_in_spec]
pub fn checked_body(bodies: &Vec<BodyHir>, owner: BodyOwner) -> (r: Option<&BodyHir>)
    returns
        checked_body_from(bodies@, owner, 0),
{
    let mut index: usize = 0;
    while index < bodies.len()
        invariant
            checked_body_from(bodies@, owner, 0) == checked_body_from(bodies@, owner, index as nat),
        decreases bodies.len() - index,
    {
        let item = &bodies[index];
        let found = {
            if item.owner == owner {
                Some(item)
            } else {
                None
            }
        };
        match found {
            Some(found) => {
                return Some(found);
            },
            None => {},
        }
        index = index + 1;
    }
    None
}

/// What a body is lowered from.
pub struct BodySource<'a> {
    pub module: &'a Module,
    pub hir: &'a BodyHir,
}

/// The module and the checked form of a body, if a function has one.
#[verifier::opaque]
pub open spec fn spec_body_source<'a>(
    program: &'a Program,
    bodies: &'a Vec<BodyHir>,
    declaration: DeclarationId,
    member: Option<MemberId>,
    function: &Function,
) -> Option<BodySource<'a>> {
    if function.body_start == 0 || function.body_end <= function.body_start {
        None
    } else {
        match program.declaration(declaration) {
            Some(item) => {
                match program.module(item.module) {
                    Some(module) => {
                        match checked_body(bodies, body_owner(declaration, member)) {
                            Some(hir) => Some(BodySource { module, hir }),
                            None => None,
                        }
                    },
                    _ => None,
                }
            },
            _ => None,
        }
    }
}

/// The module and the checked form of a body, if a function has one.
#[verifier::allow_in_spec]
pub fn body_source<'a>(
    program: &'a Program,
    bodies: &'a Vec<BodyHir>,
    declaration: DeclarationId,
    member: Option<MemberId>,
    function: &Function,
) -> (r: Option<BodySource<'a>>)
    returns
        spec_body_source(program, bodies, declaration, member, function),
{
    proof {
        reveal(spec_body_source);
    }
    if function.body_start == 0 || function.body_end <= function.body_start {
        return None;
    }
    let Some(item) = program.declaration(declaration) else {
        return None;
    };
    let Some(module) = program.module(item.module) else {
        return None;
    };
    match checked_body(bodies, body_owner(declaration, member)) {
        Some(hir) => Some(BodySource { module, hir }),
        None => None,
    }
}

/// The body of a function or method, if it has one.
pub open spec fn lowered_body(
    program: &Program,
    bodies: &Vec<BodyHir>,
    facts: &OwnershipFacts,
    declaration: DeclarationId,
    member: Option<MemberId>,
    function: &Function,
) -> Option<BodyView> {
    match body_source(program, bodies, declaration, member, function) {
        Some(source) => {
            let cx = function_context(
                program,
                source.module,
                source.hir,
                facts,
                declaration,
                function,
            );
            let start = first_behind(&source.module.tokens, cx.count, function.body_start, 0);
            let st = spec_lower_function(
                &cx,
                empty_state(start),
                member,
                lowering(usize::MAX as nat),
            );
            Some(spec_finish(st, declaration, member, cx.return_type, function.effects))
        },
        None => None,
    }
}

/// The body of a function or method, if it has one.
pub fn lower_one(
    program: &Program,
    bodies: &Vec<BodyHir>,
    facts: &OwnershipFacts,
    declaration: DeclarationId,
    member: Option<MemberId>,
    function: &Function,
) -> (r: Option<Body>)
    ensures
        match r {
            Some(body) => lowered_body(program, bodies, facts, declaration, member, function)
                == Some(body_view(body)),
            None => lowered_body(program, bodies, facts, declaration, member, function) is None,
        },
{
    match body_source(program, bodies, declaration, member, function) {
        Some(source) => {
            let cx = function_context(
                program,
                source.module,
                source.hir,
                facts,
                declaration,
                function,
            );
            let start: usize = first_behind(
                &source.module.tokens,
                cx.count,
                function.body_start,
                0,
            );
            let mut builder = Builder::new(start);
            builder.lower_function(&cx, member, usize::MAX);
            Some(
                builder.finish(
                    declaration,
                    member,
                    cx.return_type.dup(),
                    dup_plain(&function.effects),
                ),
            )
        },
        None => None,
    }
}

/// Whether a body comes before another: by its declaration, and then by its member, before all of
/// which comes the body of the declaration itself.
pub open spec fn comes_before(left: BodyView, right: BodyView) -> bool {
    left.declaration.0 < right.declaration.0 || left.declaration == right.declaration && match (
        left.member,
        right.member,
    ) {
        (None, Some(_)) => true,
        (Some(left_member), Some(right_member)) => left_member.0 < right_member.0,
        _ => false,
    }
}

fn does_come_before(left: &Body, right: &Body) -> (r: bool)
    ensures
        r == comes_before(body_view(*left), body_view(*right)),
{
    left.declaration.0 < right.declaration.0 || left.declaration == right.declaration && match (
        left.member,
        right.member,
    ) {
        (None, Some(_)) => true,
        (Some(left_member), Some(right_member)) => left_member.0 < right_member.0,
        _ => false,
    }
}

/// The position of the first of the bodies from `from` on that another comes before.
pub open spec fn place_from(bodies: Seq<BodyView>, body: BodyView, from: nat) -> nat
    decreases bodies.len() - from,
{
    if from >= bodies.len() {
        bodies.len()
    } else if comes_before(body, bodies[from as int]) {
        from
    } else {
        place_from(bodies, body, from + 1)
    }
}

/// The bodies with one more, which stands behind those that it does not come before.
pub open spec fn with_body(bodies: Seq<BodyView>, body: Option<BodyView>) -> Seq<BodyView> {
    match body {
        Some(body) => bodies.insert(place_from(bodies, body, 0) as int, body),
        None => bodies,
    }
}

pub proof fn lemma_place_from(bodies: Seq<BodyView>, body: BodyView, from: nat)
    requires
        from <= bodies.len(),
    ensures
        from <= place_from(bodies, body, from) <= bodies.len(),
        forall|index: int|
            from <= index < place_from(bodies, body, from) ==> !comes_before(
                body,
                #[trigger] bodies[index],
            ),
        place_from(bodies, body, from) < bodies.len() ==> comes_before(
            body,
            bodies[place_from(bodies, body, from) as int],
        ),
    decreases bodies.len() - from,
{
    if from < bodies.len() && !comes_before(body, bodies[from as int]) {
        lemma_place_from(bodies, body, from + 1);
    }
}

fn add_body(bodies: &mut Vec<Body>, body: Option<Body>)
    ensures
        bodies_view(final(bodies)@) == with_body(
            bodies_view(old(bodies)@),
            match body {
                Some(body) => Some(body_view(body)),
                None => None,
            },
        ),
{
    let added = match body {
        Some(body) => body,
        None => {
            return;
        },
    };
    let ghost before = bodies_view(bodies@);
    let ghost view = body_view(added);
    let mut place: usize = 0;
    while place < bodies.len() && !does_come_before(&added, &bodies[place])
        invariant
            place <= bodies@.len(),
            before == bodies_view(bodies@),
            bodies@ == old(bodies)@,
            view == body_view(added),
            place_from(before, view, 0) == place_from(before, view, place as nat),
        decreases bodies.len() - place,
    {
        proof {
            assert(before[place as int] == body_view(bodies@[place as int]));
        }
        place = place + 1;
    }
    proof {
        if place < bodies@.len() {
            assert(before[place as int] == body_view(bodies@[place as int]));
        }
    }
    bodies.insert(place, added);
    proof {
        assert(bodies_view(bodies@) =~= before.insert(place as int, view));
    }
}

/// The bodies with those of the methods from `from` on.
pub open spec fn with_methods(
    program: &Program,
    bodies: &Vec<BodyHir>,
    facts: &OwnershipFacts,
    declaration: DeclarationId,
    methods: Seq<Method>,
    from: nat,
    lowered: Seq<BodyView>,
) -> Seq<BodyView>
    decreases methods.len() - from,
{
    if from >= methods.len() {
        lowered
    } else {
        let method = methods[from as int];
        with_methods(
            program,
            bodies,
            facts,
            declaration,
            methods,
            from + 1,
            with_body(
                lowered,
                lowered_body(
                    program,
                    bodies,
                    facts,
                    declaration,
                    Some(method.id),
                    &method.function,
                ),
            ),
        )
    }
}

fn lower_methods(
    program: &Program,
    hir_bodies: &Vec<BodyHir>,
    facts: &OwnershipFacts,
    declaration: DeclarationId,
    methods: &Vec<Method>,
    bodies: &mut Vec<Body>,
)
    ensures
        bodies_view(final(bodies)@) == with_methods(
            program,
            hir_bodies,
            facts,
            declaration,
            methods@,
            0,
            bodies_view(old(bodies)@),
        ),
{
    let ghost given = bodies_view(bodies@);
    let mut index: usize = 0;
    while index < methods.len()
        invariant
            given == bodies_view(old(bodies)@),
            with_methods(program, hir_bodies, facts, declaration, methods@, 0, given)
                == with_methods(
                program,
                hir_bodies,
                facts,
                declaration,
                methods@,
                index as nat,
                bodies_view(bodies@),
            ),
        decreases methods.len() - index,
    {
        let method = &methods[index];
        let body = lower_one(
            program,
            hir_bodies,
            facts,
            declaration,
            Some(method.id),
            &method.function,
        );
        add_body(bodies, body);
        index = index + 1;
    }
}

/// The bodies with those of a definition.
pub open spec fn with_definition(
    program: &Program,
    bodies: &Vec<BodyHir>,
    facts: &OwnershipFacts,
    definition: &Definition,
    lowered: Seq<BodyView>,
) -> Seq<BodyView> {
    let declaration = definition.declaration;
    match &definition.data {
        DefinitionData::Function(function) => with_body(
            lowered,
            lowered_body(program, bodies, facts, declaration, None, function),
        ),
        DefinitionData::Class { constructor, methods, .. } => {
            let constructed = match constructor {
                Some(constructor) => with_body(
                    lowered,
                    lowered_body(
                        program,
                        bodies,
                        facts,
                        declaration,
                        Some(constructor.id),
                        &constructor.function,
                    ),
                ),
                None => lowered,
            };
            with_methods(program, bodies, facts, declaration, methods@, 0, constructed)
        },
        DefinitionData::Struct { methods, .. } => with_methods(
            program,
            bodies,
            facts,
            declaration,
            methods@,
            0,
            lowered,
        ),
        DefinitionData::Enum { methods, .. } => with_methods(
            program,
            bodies,
            facts,
            declaration,
            methods@,
            0,
            lowered,
        ),
        DefinitionData::Implementation { methods, .. } => with_methods(
            program,
            bodies,
            facts,
            declaration,
            methods@,
            0,
            lowered,
        ),
        _ => lowered,
    }
}

fn lower_definition(
    program: &Program,
    hir_bodies: &Vec<BodyHir>,
    facts: &OwnershipFacts,
    definition: &Definition,
    bodies: &mut Vec<Body>,
)
    ensures
        bodies_view(final(bodies)@) == with_definition(
            program,
            hir_bodies,
            facts,
            definition,
            bodies_view(old(bodies)@),
        ),
{
    let declaration = definition.declaration;
    match &definition.data {
        DefinitionData::Function(function) => {
            let body = lower_one(program, hir_bodies, facts, declaration, None, function);
            add_body(bodies, body);
        },
        DefinitionData::Class { constructor, methods, .. } => {
            match constructor {
                Some(constructor) => {
                    let body = lower_one(
                        program,
                        hir_bodies,
                        facts,
                        declaration,
                        Some(constructor.id),
                        &constructor.function,
                    );
                    add_body(bodies, body);
                },
                None => {},
            }
            lower_methods(program, hir_bodies, facts, declaration, methods, bodies);
        },
        DefinitionData::Struct { methods, .. } => {
            lower_methods(program, hir_bodies, facts, declaration, methods, bodies);
        },
        DefinitionData::Enum { methods, .. } => {
            lower_methods(program, hir_bodies, facts, declaration, methods, bodies);
        },
        DefinitionData::Implementation { methods, .. } => {
            lower_methods(program, hir_bodies, facts, declaration, methods, bodies);
        },
        _ => {},
    }
}

/// The bodies with those of the definitions from `from` on.
pub open spec fn with_definitions(
    program: &Program,
    bodies: &Vec<BodyHir>,
    facts: &OwnershipFacts,
    from: nat,
    lowered: Seq<BodyView>,
) -> Seq<BodyView>
    decreases program.definitions@.len() - from,
{
    if from >= program.definitions@.len() {
        lowered
    } else {
        with_definitions(
            program,
            bodies,
            facts,
            from + 1,
            with_definition(
                program,
                bodies,
                facts,
                &program.definitions@[from as int],
                lowered,
            ),
        )
    }
}

/// The bodies of a program, in the order of their declarations and members.
pub open spec fn lowered_program(
    program: &Program,
    bodies: &Vec<BodyHir>,
    facts: &OwnershipFacts,
) -> Seq<BodyView> {
    with_definitions(program, bodies, facts, 0, Seq::empty())
}

/// Lowers the bodies of a program whose ownership facts are known.
pub fn lower_mir_with_ownership(
    program: &Program,
    hir_bodies: &Vec<BodyHir>,
    ownership_facts: &OwnershipFacts,
) -> (r: Vec<Body>)
    ensures
        bodies_view(r@) == lowered_program(program, hir_bodies, ownership_facts),
{
    let mut bodies: Vec<Body> = Vec::new();
    let mut index: usize = 0;
    proof {
        assert(bodies_view(bodies@) =~= Seq::empty());
    }
    while index < program.definitions.len()
        invariant
            lowered_program(program, hir_bodies, ownership_facts) == with_definitions(
                program,
                hir_bodies,
                ownership_facts,
                index as nat,
                bodies_view(bodies@),
            ),
        decreases program.definitions.len() - index,
    {
        lower_definition(
            program,
            hir_bodies,
            ownership_facts,
            &program.definitions[index],
            &mut bodies,
        );
        index = index + 1;
    }
    bodies
}

/// Lowers the bodies of a program.
pub fn lower_mir(program: &Program, hir_bodies: &Vec<BodyHir>) -> (r: Vec<Body>)
    ensures
        exists|facts: OwnershipFacts|
            are_facts_of(program, facts) && bodies_view(r@) == #[trigger] lowered_program(
                program,
                hir_bodies,
                &facts,
            ),
{
    let facts = derive_ownership_facts(program);
    lower_mir_with_ownership(program, hir_bodies, &facts)
}

/// Whether bodies are in order: none comes before one that stands before it.
pub open spec fn in_order(bodies: Seq<BodyView>) -> bool {
    forall|left: int, right: int|
        0 <= left < right < bodies.len() ==> !comes_before(
            #[trigger] bodies[right],
            #[trigger] bodies[left],
        )
}

proof fn lemma_with_body_in_order(bodies: Seq<BodyView>, body: Option<BodyView>)
    requires
        in_order(bodies),
    ensures
        in_order(with_body(bodies, body)),
{
    match body {
        Some(added) => {
            lemma_place_from(bodies, added, 0);
            let place = place_from(bodies, added, 0) as int;
            let result = bodies.insert(place, added);
            assert forall|left: int, right: int| 0 <= left < right < result.len() implies !comes_before(
                #[trigger] result[right],
                #[trigger] result[left],
            ) by {
                if right == place {
                    assert(result[left] == bodies[left]);
                } else if left == place {
                    assert(result[right] == bodies[right - 1]);
                    assert(comes_before(added, bodies[place]));
                    if right - 1 > place {
                        assert(!comes_before(bodies[right - 1], bodies[place]));
                    }
                } else {
                    let before_left = if left < place {
                        left
                    } else {
                        left - 1
                    };
                    let before_right = if right < place {
                        right
                    } else {
                        right - 1
                    };
                    assert(result[left] == bodies[before_left]);
                    assert(result[right] == bodies[before_right]);
                }
            }
        },
        None => {},
    }
}

proof fn lemma_with_methods_in_order(
    program: &Program,
    bodies: &Vec<BodyHir>,
    facts: &OwnershipFacts,
    declaration: DeclarationId,
    methods: Seq<Method>,
    from: nat,
    lowered: Seq<BodyView>,
)
    requires
        in_order(lowered),
    ensures
        in_order(with_methods(program, bodies, facts, declaration, methods, from, lowered)),
    decreases methods.len() - from,
{
    if from < methods.len() {
        let method = methods[from as int];
        let body = lowered_body(
            program,
            bodies,
            facts,
            declaration,
            Some(method.id),
            &method.function,
        );
        lemma_with_body_in_order(lowered, body);
        lemma_with_methods_in_order(
            program,
            bodies,
            facts,
            declaration,
            methods,
            from + 1,
            with_body(lowered, body),
        );
    }
}

proof fn lemma_with_definitions_in_order(
    program: &Program,
    bodies: &Vec<BodyHir>,
    facts: &OwnershipFacts,
    from: nat,
    lowered: Seq<BodyView>,
)
    requires
        in_order(lowered),
    ensures
        in_order(with_definitions(program, bodies, facts, from, lowered)),
    decreases program.definitions@.len() - from,
{
    if from < program.definitions@.len() {
        let definition = &program.definitions@[from as int];
        let declaration = definition.declaration;
        match &definition.data {
            DefinitionData::Function(function) => {
                lemma_with_body_in_order(
                    lowered,
                    lowered_body(program, bodies, facts, declaration, None, function),
                );
            },
            DefinitionData::Class { constructor, methods, .. } => {
                let constructed = match constructor {
                    Some(constructor) => {
                        let body = lowered_body(
                            program,
                            bodies,
                            facts,
                            declaration,
                            Some(constructor.id),
                            &constructor.function,
                        );
                        lemma_with_body_in_order(lowered, body);
                        with_body(lowered, body)
                    },
                    None => lowered,
                };
                lemma_with_methods_in_order(
                    program,
                    bodies,
                    facts,
                    declaration,
                    methods@,
                    0,
                    constructed,
                );
            },
            DefinitionData::Struct { methods, .. } => {
                lemma_with_methods_in_order(
                    program,
                    bodies,
                    facts,
                    declaration,
                    methods@,
                    0,
                    lowered,
                );
            },
            DefinitionData::Enum { methods, .. } => {
                lemma_with_methods_in_order(
                    program,
                    bodies,
                    facts,
                    declaration,
                    methods@,
                    0,
                    lowered,
                );
            },
            DefinitionData::Implementation { methods, .. } => {
                lemma_with_methods_in_order(
                    program,
                    bodies,
                    facts,
                    declaration,
                    methods@,
                    0,
                    lowered,
                );
            },
            _ => {},
        }
        lemma_with_definitions_in_order(
            program,
            bodies,
            facts,
            from + 1,
            with_definition(program, bodies, facts, definition, lowered),
        );
    }
}

/// The bodies of a program are in the order of their declarations, and those of one declaration
/// in the order of their members.
pub proof fn lowered_bodies_are_in_order(
    program: &Program,
    bodies: &Vec<BodyHir>,
    facts: &OwnershipFacts,
)
    ensures
        in_order(lowered_program(program, bodies, facts)),
{
    lemma_with_definitions_in_order(program, bodies, facts, 0, Seq::empty());
}

} // verus!
