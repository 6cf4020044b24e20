//! What the members of types must be like.

use vstd::prelude::*;

use crate::acceptance::matching::{can_be_called_through, Standing};
use crate::hir::{
    DeclarationId, DefinitionData, EnumVariant, Field, Method, Parameter, Program, Visibility,
};
use crate::ids::spec_list_contains;
use crate::list::List;
use crate::lowering::emit::parameter_types;
use crate::names::Name;
use crate::program::{find_method, method_from};
use crate::signatures::classes::first_named_from;
use crate::signatures::types::{
    definition_of, effect_subset, is_subtype, spec_contains_void, spec_effect_subset,
};

verus! {

/// Whether no two methods have the same name.
pub open spec fn are_named_apart(methods: Seq<Method>) -> bool {
    forall|left: int, right: int|
        0 <= left < right < methods.len() ==> (#[trigger] methods[left]).name != (
        #[trigger] methods[right]).name
}

/// Whether no method before a position has the name of the one there, for each position from
/// `from` on.
pub open spec fn are_new_from(methods: Seq<Method>, from: int) -> bool {
    forall|left: int, right: int|
        0 <= left < right < methods.len() && from <= right ==> (#[trigger] methods[left]).name != (
        #[trigger] methods[right]).name
}

/// The first method with the name of a method is that method exactly if none before it has its
/// name.
pub proof fn lemma_first_named(methods: Seq<Method>, name: Name, from: nat, at: int)
    requires
        methods.len() <= usize::MAX,
        from <= at < methods.len(),
        methods[at].name == name,
    ensures
        (first_named_from(methods, name, from) == Some(at as usize)) <==> forall|earlier: int|
            from <= earlier < at ==> (#[trigger] methods[earlier]).name != name,
    decreases methods.len() - from,
{
    if from < at {
        if methods[from as int].name != name {
            lemma_first_named(methods, name, from + 1, at);
        }
    }
}

/// The types of parameters, one after another.
pub proof fn lemma_parameter_types(parameters: &Vec<Parameter>)
    ensures
        parameter_types(parameters).seq() == parameters@.map_values(
            |parameter: Parameter| parameter.ty,
        ),
{
    lemma_parameter_types_from(parameters@, 0);
    assert(parameters@.skip(0) =~= parameters@);
}

proof fn lemma_parameter_types_from(parameters: Seq<Parameter>, from: nat)
    requires
        from <= parameters.len(),
    ensures
        crate::lowering::emit::parameter_types_from(parameters, from).seq() == parameters.skip(
            from as int,
        ).map_values(|parameter: Parameter| parameter.ty),
    decreases parameters.len() - from,
{
    let of = |parameter: Parameter| parameter.ty;
    if from < parameters.len() {
        lemma_parameter_types_from(parameters, from + 1);
        assert(parameters.skip(from as int).map_values(of) =~= seq![parameters[from as int].ty]
            + parameters.skip((from + 1) as int).map_values(of));
    } else {
        assert(parameters.skip(from as int).map_values(of) =~= Seq::empty());
    }
}

/// Two lists with the same elements are the same.
pub proof fn lemma_same_list<T>(left: List<T>, right: List<T>)
    ensures
        left == right <==> left.seq() == right.seq(),
    decreases left,
{
    if left.seq() == right.seq() {
        match (left, right) {
            (List::Cons(first, rest), List::Cons(second, others)) => {
                assert(left.seq()[0] == *first);
                assert(right.seq()[0] == *second);
                assert(left.seq().skip(1) =~= rest.seq());
                assert(right.seq().skip(1) =~= others.seq());
                lemma_same_list(*rest, *others);
            },
            (List::Nil, List::Cons(_, _)) => {
                assert(right.seq().len() > 0);
            },
            (List::Cons(_, _), List::Nil) => {
                assert(left.seq().len() > 0);
            },
            _ => {},
        }
    }
}

/// Whether every error of one list is in another.
pub open spec fn throws_within(left: List<DeclarationId>, right: List<DeclarationId>) -> bool {
    forall|index: int|
        0 <= index < left.seq().len() ==> right.seq().contains(#[trigger] left.seq()[index])
}

proof fn lemma_list_contains(list: List<DeclarationId>, id: DeclarationId)
    ensures
        spec_list_contains(list, id) == list.seq().contains(id),
    decreases list,
{
    match list {
        List::Nil => {},
        List::Cons(head, tail) => {
            lemma_list_contains(*tail, id);
            let all = list.seq();
            assert(all =~= seq![*head] + tail.seq());
            assert(all[0] == *head);
            if tail.seq().contains(id) {
                let index = choose|index: int|
                    0 <= index < tail.seq().len() && tail.seq()[index] == id;
                assert(all[index + 1] == id);
            }
            if all.contains(id) {
                let index = choose|index: int| 0 <= index < all.len() && all[index] == id;
                if index > 0 {
                    assert(tail.seq()[index - 1] == id);
                }
            }
        },
    }
}

/// One list of errors is within another exactly if every error of it is in that.
pub proof fn lemma_throws_within(left: List<DeclarationId>, right: List<DeclarationId>)
    ensures
        effect_subset(&left, &right) == throws_within(left, right),
    decreases left,
{
    reveal_with_fuel(spec_effect_subset, 2);
    match left {
        List::Nil => {},
        List::Cons(head, tail) => {
            lemma_throws_within(*tail, right);
            lemma_list_contains(right, *head);
            let all = left.seq();
            assert(all =~= seq![*head] + tail.seq());
            assert(all[0] == *head);
            assert forall|index: int| 0 <= index < tail.seq().len() implies #[trigger] tail.seq()[
            index] == all[index + 1] by {}
            assert forall|index: int| 0 < index < all.len() implies #[trigger] all[index]
                == tail.seq()[index - 1] by {}
            if throws_within(left, right) {
                assert forall|index: int| 0 <= index < tail.seq().len() implies right.seq().contains(
                    #[trigger] tail.seq()[index],
                ) by {
                    assert(right.seq().contains(all[index + 1]));
                }
                assert(right.seq().contains(all[0]));
            }
        },
    }
}

/// Whether a method can stand for the one that it overrides: it takes the same object and the same
/// parameters, returns what the other does or a class below it, throws nothing else, waits if and
/// only if the other does, and is unsafe only if the other is.
pub open spec fn can_override(method: Method, base: Method, program: &Program) -> bool {
    &&& method.receiver == base.receiver
    &&& method.function.parameters@.len() == base.function.parameters@.len()
    &&& forall|index: int|
        0 <= index < method.function.parameters@.len() ==> (
        #[trigger] method.function.parameters@[index]).ty
            == base.function.parameters@[index].ty
    &&& is_subtype(program, &method.function.result, &base.function.result)
    &&& throws_within(method.function.effects, base.function.effects)
    &&& method.function.is_async == base.function.is_async
    &&& method.function.is_unsafe ==> base.function.is_unsafe
}

/// What is asked of an override is that it can stand for what it overrides.
pub proof fn lemma_can_override(method: &Method, base: &Method, program: &Program)
    ensures
        crate::signatures::classes::is_substitutable(method, base, program) == can_override(
            *method,
            *base,
            program,
        ),
{
    let own = parameter_types(&method.function.parameters);
    let other = parameter_types(&base.function.parameters);
    lemma_parameter_types(&method.function.parameters);
    lemma_parameter_types(&base.function.parameters);
    lemma_same_list(own, other);
    lemma_throws_within(method.function.effects, base.function.effects);
    if can_override(*method, *base, program) {
        assert(own.seq() =~= other.seq());
    }
    if own.seq() == other.seq() {
        assert(own.seq().len() == other.seq().len());
        assert forall|index: int| 0 <= index < method.function.parameters@.len() implies (
        #[trigger] method.function.parameters@[index]).ty
            == base.function.parameters@[index].ty by {
            assert(own.seq()[index] == other.seq()[index]);
        }
    }
}

/// Whether one member is at least as visible as another.
pub open spec fn is_as_visible(left: Visibility, right: Visibility) -> bool {
    left == Visibility::Public || right == Visibility::Private || left == right
}

/// Whether a method of a class fits the methods of the class that it extends: it says that it
/// overrides one exactly if one has its name; that one is then not final, it can stand for it, and
/// is as visible.
pub open spec fn fits_above(method: Method, above: &Vec<Method>, program: &Program) -> bool {
    match find_method(above, method.name) {
        Some(base) => method.is_override && !base.is_final && can_override(method, *base, program)
            && is_as_visible(method.visibility, base.visibility),
        None => !method.is_override,
    }
}

/// The method that is found under a name is the first one with it.
pub proof fn the_first_method_is_found(methods: &Vec<Method>, name: Name)
    ensures
        match find_method(methods, name) {
            Some(method) => exists|index: int|
                0 <= index < methods@.len() && (#[trigger] methods@[index]).name == name
                    && methods@[index] == *method && forall|earlier: int|
                    0 <= earlier < index ==> (#[trigger] methods@[earlier]).name != name,
            None => forall|index: int|
                0 <= index < methods@.len() ==> (#[trigger] methods@[index]).name != name,
        },
{
    lemma_method_from(methods@, name, 0);
}

proof fn lemma_method_from(methods: Seq<Method>, name: Name, from: nat)
    ensures
        match method_from(methods, name, from) {
            Some(method) => exists|index: int|
                from <= index < methods.len() && (#[trigger] methods[index]).name == name
                    && methods[index] == *method && forall|earlier: int|
                    from <= earlier < index ==> (#[trigger] methods[earlier]).name != name,
            None => forall|index: int|
                from <= index < methods.len() ==> (#[trigger] methods[index]).name != name,
        },
    decreases methods.len() - from,
{
    if from < methods.len() {
        if methods[from as int].name == name {
            assert(methods[from as int].name == name);
        } else {
            lemma_method_from(methods, name, from + 1);
        }
    }
}

/// Whether methods meet a requirement of an interface: the first one with its name takes the same
/// object and can be called through it.
pub open spec fn meets_requirement(
    methods: Option<&Vec<Method>>,
    requirement: Method,
    program: &Program,
    standing: Standing,
) -> bool {
    match methods {
        Some(methods) => match find_method(methods, requirement.name) {
            Some(method) => method.receiver == requirement.receiver && can_be_called_through(
                method.function,
                requirement.function,
                program,
                standing,
            ),
            None => false,
        },
        None => false,
    }
}

/// Whether methods meet all requirements of an interface, where its generic parameters stand for
/// the same types in all of them.
pub open spec fn meets_requirements(
    methods: Option<&Vec<Method>>,
    requirements: Seq<Method>,
    program: &Program,
    standing: Standing,
    from: int,
) -> bool {
    forall|index: int|
        from <= index < requirements.len() ==> meets_requirement(
            methods,
            #[trigger] requirements[index],
            program,
            standing,
        )
}

/// Whether methods implement an interface.
pub open spec fn implements(
    methods: Option<&Vec<Method>>,
    interface: DeclarationId,
    program: &Program,
) -> bool {
    match definition_of(program, interface) {
        Some(definition) => match definition.data {
            DefinitionData::Interface { methods: requirements } => exists|
                standing: Standing,
            | #[trigger] meets_requirements(methods, requirements@, program, standing, 0),
            _ => false,
        },
        None => true,
    }
}

/// The number of a variant: the one that is written, or else its position.
pub open spec fn number_of(variants: Seq<EnumVariant>, index: int) -> int {
    match variants[index].discriminant {
        Some(number) => number as int,
        None => index,
    }
}

/// Whether no two variants have the same number, and no numbers are written where a variant has
/// fields.
pub open spec fn are_numbered_apart(variants: Seq<EnumVariant>) -> bool {
    &&& forall|left: int, right: int|
        0 <= left < right < variants.len() ==> #[trigger] number_of(variants, left)
            != #[trigger] number_of(variants, right)
    &&& (exists|index: int|
        0 <= index < variants.len() && (#[trigger] variants[index]).fields@.len() > 0)
        ==> forall|index: int|
        0 <= index < variants.len() ==> (#[trigger] variants[index]).discriminant is None
}

/// Whether no field is of a type in which void stands.
pub open spec fn have_values(fields: Seq<Field>) -> bool {
    forall|index: int|
        0 <= index < fields.len() ==> !spec_contains_void(&(#[trigger] fields[index]).ty)
}

} // verus!
