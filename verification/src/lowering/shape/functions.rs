//! Bodies keep graphs well formed.

use vstd::prelude::*;

use crate::hir::{
    BodyHir, DeclarationId, Definition, DefinitionData, Function, HirLocal, HirLocalId, MemberId,
    Method, Program,
};
use crate::lowering::builder::{
    bodies_view, body_view, empty_state, spec_add_local, spec_bind_hir, spec_lowered_local,
    BodyView, State,
};
use crate::lowering::closures::spec_add_argument;
use crate::lowering::context::{next, Context};
use crate::lowering::functions::{
    body_source, first_behind, function_context, is_binding_local, lowered_body, lowered_program,
    place_from, spec_add_arguments, spec_add_binding_locals, spec_lower_function, spec_object_local,
    with_body, with_definition, with_definitions, with_methods,
};
use crate::lowering::recursion::{lowering, Lowering};
use crate::lowering::shape::base::{
    fits, group_shape, grows, is_countable, is_sound, is_sound_lowering, is_well_formed,
    lemma_add_local, lemma_bind_hir, lemma_body_countable, lemma_empty_state, lemma_finish,
    lemma_finish_countable, lemma_grows_itself, lemma_grows_on, lemma_lowered_local,
};
use crate::lowering::shape::closures::lemma_add_argument;
use crate::lowering::shape::kinds::group_kinds;
use crate::lowering::shape::recursion::lemma_lowering;
use crate::lowering::shape::statements::lemma_lower_body;
use crate::lowering::statements::spec_lower_body;
use crate::mir::Body;
use crate::ownership::facts::OwnershipFacts;

verus! {

pub proof fn lemma_add_arguments(cx: &Context, st: State, ids: &Vec<HirLocalId>, index: usize)
    ensures
        ({
            let after = spec_add_arguments(cx, st, ids, index);
            &&& grows(st, after)
            &&& fits(after) && is_sound(st)
                ==> is_sound(after)
        }),
    decreases ids@.len() - index,
{
    broadcast use {group_shape, group_kinds};

    reveal_with_fuel(spec_add_arguments, 2);
    let given = st;
    lemma_grows_itself(st);
    if index < ids.len() {
        let id = &ids[index as int];
        if let Some(local) = cx.hir_local(*id) {
            lemma_add_argument(st, local);
            let next_st = spec_add_argument(st, local);
            lemma_grows_on(given, st, next_st);
            let st = next_st;
        }
        let next_st = if let Some(local) = cx.hir_local(*id) {
            spec_add_argument(st, local)
        } else {
            st
        };
        assert(grows(given, next_st));
        let st = next_st;
        lemma_add_arguments(cx, st, ids, next(index));
        let next_st = spec_add_arguments(cx, st, ids, next(index));
        lemma_grows_on(given, st, next_st);
        let st = next_st;
    }
}

pub proof fn lemma_add_binding_locals(
    cx: &Context,
    st: State,
    locals: &Vec<HirLocal>,
    index: usize,
)
    ensures
        ({
            let after = spec_add_binding_locals(cx, st, locals, index);
            &&& grows(st, after)
            &&& fits(after) && is_sound(st)
                ==> is_sound(after)
        }),
    decreases locals@.len() - index,
{
    broadcast use {group_shape, group_kinds};

    reveal_with_fuel(spec_add_binding_locals, 2);
    let given = st;
    lemma_grows_itself(st);
    if index < locals.len() {
        let local = &locals[index as int];
        lemma_lowered_local(
            st,
            local.id,
        );
        if is_binding_local(&cx.hir.binding_patterns, local.id) && spec_lowered_local(
            st,
            local.id,
        ).is_none() {
            lemma_add_local(
                st,
                local.name,
                local.ty.dup(),
                local.mutable,
                false,
                local.origin,
            );
            let (next_st, added) = spec_add_local(
                st,
                local.name,
                local.ty.dup(),
                local.mutable,
                false,
                local.origin,
            );
            lemma_grows_on(given, st, next_st);
            let st = next_st;
            lemma_bind_hir(st, local.id, added);
            let next_st = spec_bind_hir(st, local.id, added);
            lemma_grows_on(given, st, next_st);
            let st = next_st;
        }
        let next_st = if is_binding_local(&cx.hir.binding_patterns, local.id) && spec_lowered_local(
            st,
            local.id,
        ).is_none() {
            let (st, added) = spec_add_local(
                st,
                local.name,
                local.ty.dup(),
                local.mutable,
                false,
                local.origin,
            );
            spec_bind_hir(st, local.id, added)
        } else {
            st
        };
        assert(grows(given, next_st));
        let st = next_st;
        lemma_add_binding_locals(cx, st, locals, next(index));
        let next_st = spec_add_binding_locals(cx, st, locals, next(index));
        lemma_grows_on(given, st, next_st);
        let st = next_st;
    }
}

pub proof fn lemma_lower_function(
    cx: &Context,
    st: State,
    member: Option<MemberId>,
    low: Lowering,
)
    requires
        is_sound_lowering(low),
    ensures
        ({
            let after = spec_lower_function(cx, st, member, low);
            &&& grows(st, after)
            &&& fits(after) && is_sound(st)
                ==> is_sound(after)
        }),
{
    broadcast use {group_shape, group_kinds};

    reveal(spec_lower_function);
    let given = st;
    lemma_grows_itself(st);
    if let Some(object) = spec_object_local(cx, member) {
        lemma_add_argument(st, object);
        let next_st = spec_add_argument(st, object);
        lemma_grows_on(given, st, next_st);
        let st = next_st;
    }
    let next_st = if let Some(object) = spec_object_local(cx, member) {
        spec_add_argument(st, object)
    } else {
        st
    };
    assert(grows(given, next_st));
    let st = next_st;
    lemma_add_arguments(cx, st, &cx.hir.parameter_roots, 0);
    let next_st = spec_add_arguments(cx, st, &cx.hir.parameter_roots, 0);
    lemma_grows_on(given, st, next_st);
    let st = next_st;
    lemma_add_binding_locals(cx, st, &cx.hir.locals, 0);
    let next_st = spec_add_binding_locals(cx, st, &cx.hir.locals, 0);
    lemma_grows_on(given, st, next_st);
    let st = next_st;
    lemma_lower_body(cx, st, low);
    let next_st = spec_lower_body(cx, st, low);
    lemma_grows_on(given, st, next_st);
    let st = next_st;
}

proof fn lemma_lowered_body(
    program: &Program,
    bodies: &Vec<BodyHir>,
    facts: &OwnershipFacts,
    declaration: DeclarationId,
    member: Option<MemberId>,
    function: &Function,
)
    ensures
        match lowered_body(program, bodies, facts, declaration, member, function) {
            Some(body) => is_countable(body) ==> is_well_formed(body),
            None => true,
        },
{
    match body_source(program, bodies, declaration, member, function) {
        Some(source) => {
            let cx = function_context(
                program,
                source.module,
                source.hir,
                facts,
                declaration,
                function,
            );
            let start = first_behind(&source.module.tokens, cx.count, function.body_start, 0);
            let low = lowering(usize::MAX as nat);
            lemma_lowering(usize::MAX as nat);
            lemma_empty_state(start);
            lemma_lower_function(&cx, empty_state(start), member, low);
            let st = spec_lower_function(&cx, empty_state(start), member, low);
            lemma_finish_countable(st, declaration, member, cx.return_type, function.effects);
            if fits(st) {
                lemma_finish(st, declaration, member, cx.return_type, function.effects);
            }
        },
        None => {},
    }
}

/// Whether each of the bodies that can be counted is well formed.
spec fn are_well_formed(bodies: Seq<BodyView>) -> bool {
    forall|index: int|
        0 <= index < bodies.len() ==> (is_countable(#[trigger] bodies[index]) ==> is_well_formed(
            bodies[index],
        ))
}

proof fn lemma_with_body(bodies: Seq<BodyView>, body: Option<BodyView>)
    requires
        are_well_formed(bodies),
        match body {
            Some(body) => is_countable(body) ==> is_well_formed(body),
            None => true,
        },
    ensures
        are_well_formed(with_body(bodies, body)),
{
    match body {
        Some(added) => {
            crate::lowering::functions::lemma_place_from(bodies, added, 0);
            let place = place_from(bodies, added, 0) as int;
            let all = bodies.insert(place, added);
            assert forall|index: int|
                0 <= index < all.len() && is_countable(
                    #[trigger] all[index],
                ) implies is_well_formed(all[index]) by {
                if index < place {
                    assert(all[index] == bodies[index]);
                } else if index > place {
                    assert(all[index] == bodies[index - 1]);
                }
            }
        },
        None => {},
    }
}

proof fn lemma_with_methods(
    program: &Program,
    bodies: &Vec<BodyHir>,
    facts: &OwnershipFacts,
    declaration: DeclarationId,
    methods: Seq<Method>,
    from: nat,
    lowered: Seq<BodyView>,
)
    requires
        are_well_formed(lowered),
    ensures
        are_well_formed(with_methods(program, bodies, facts, declaration, methods, from, lowered)),
    decreases methods.len() - from,
{
    if from < methods.len() {
        let method = methods[from as int];
        let body = lowered_body(
            program,
            bodies,
            facts,
            declaration,
            Some(method.id),
            &method.function,
        );
        lemma_lowered_body(
            program,
            bodies,
            facts,
            declaration,
            Some(method.id),
            &method.function,
        );
        lemma_with_body(lowered, body);
        lemma_with_methods(
            program,
            bodies,
            facts,
            declaration,
            methods,
            from + 1,
            with_body(lowered, body),
        );
    }
}

proof fn lemma_with_definition(
    program: &Program,
    bodies: &Vec<BodyHir>,
    facts: &OwnershipFacts,
    definition: &Definition,
    lowered: Seq<BodyView>,
)
    requires
        are_well_formed(lowered),
    ensures
        are_well_formed(with_definition(program, bodies, facts, definition, lowered)),
{
    let declaration = definition.declaration;
    match &definition.data {
        DefinitionData::Function(function) => {
            lemma_lowered_body(program, bodies, facts, declaration, None, function);
            lemma_with_body(
                lowered,
                lowered_body(program, bodies, facts, declaration, None, function),
            );
        },
        DefinitionData::Class { constructor, methods, .. } => {
            let constructed = match constructor {
                Some(constructor) => {
                    let body = lowered_body(
                        program,
                        bodies,
                        facts,
                        declaration,
                        Some(constructor.id),
                        &constructor.function,
                    );
                    lemma_lowered_body(
                        program,
                        bodies,
                        facts,
                        declaration,
                        Some(constructor.id),
                        &constructor.function,
                    );
                    lemma_with_body(lowered, body);
                    with_body(lowered, body)
                },
                None => lowered,
            };
            lemma_with_methods(
                program,
                bodies,
                facts,
                declaration,
                methods@,
                0,
                constructed,
            );
        },
        DefinitionData::Struct { methods, .. } => {
            lemma_with_methods(program, bodies, facts, declaration, methods@, 0, lowered);
        },
        DefinitionData::Enum { methods, .. } => {
            lemma_with_methods(program, bodies, facts, declaration, methods@, 0, lowered);
        },
        DefinitionData::Implementation { methods, .. } => {
            lemma_with_methods(program, bodies, facts, declaration, methods@, 0, lowered);
        },
        _ => {},
    }
}

proof fn lemma_with_definitions(
    program: &Program,
    bodies: &Vec<BodyHir>,
    facts: &OwnershipFacts,
    from: nat,
    lowered: Seq<BodyView>,
)
    requires
        are_well_formed(lowered),
    ensures
        are_well_formed(with_definitions(program, bodies, facts, from, lowered)),
    decreases program.definitions@.len() - from,
{
    if from < program.definitions@.len() {
        let definition = &program.definitions@[from as int];
        lemma_with_definition(program, bodies, facts, definition, lowered);
        lemma_with_definitions(
            program,
            bodies,
            facts,
            from + 1,
            with_definition(program, bodies, facts, definition, lowered),
        );
    }
}

/// Every body that a program is lowered to is well formed: it has a first block, control goes only
/// to its own blocks, every place is a part of one of its own locals, and its closures are well
/// formed as well.
pub proof fn lowered_bodies_are_well_formed(
    program: &Program,
    bodies: &Vec<BodyHir>,
    facts: &OwnershipFacts,
    lowered: Seq<Body>,
)
    requires
        bodies_view(lowered) == lowered_program(program, bodies, facts),
    ensures
        forall|index: int|
            0 <= index < lowered.len() ==> is_well_formed(body_view(#[trigger] lowered[index])),
{
    lemma_with_definitions(program, bodies, facts, 0, Seq::empty());
    assert forall|index: int| 0 <= index < lowered.len() implies is_well_formed(
        body_view(#[trigger] lowered[index]),
    ) by {
        lemma_body_countable(lowered[index]);
        assert(bodies_view(lowered)[index] == body_view(lowered[index]));
    }
}

} // verus!
