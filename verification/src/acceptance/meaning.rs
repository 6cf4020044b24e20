//! What the parts of a program must be like.

use vstd::prelude::*;

use crate::appending::base::extends;
use crate::diagnostics::Diagnostic;
use crate::hir::{
    DeclarationId, Function, GenericBound, GenericParameter, Namespace, Parameter, PrimitiveType,
    Program, Type,
};
use crate::list::List;
use crate::names::Name;
use crate::signatures::classes::input_lifetimes_from;
use crate::signatures::construction::spec_has_name;
use crate::signatures::types::{
    definition_of, last_definition, spec_any_contains_void, spec_contains_void, spec_last_namespace,
    spec_parameter_shapes, spec_shape_count, spec_type_count, ParameterShape,
};

verus! {

/// Reports that go on where others end, and are no more, are the same.
pub proof fn lemma_unchanged(before: Seq<Diagnostic>, after: Seq<Diagnostic>)
    requires
        extends(before, after),
    ensures
        after.len() == before.len() ==> after == before,
{
    if after.len() == before.len() {
        assert(after.take(before.len() as int) =~= after);
    }
}

/// Whether a declaration is that of an interface.
pub open spec fn names_interface(program: &Program, id: DeclarationId) -> bool {
    match definition_of(program, id) {
        Some(definition) => definition.data is Interface,
        None => false,
    }
}

/// What is defined last under a declaration is its definition.
pub proof fn the_last_definition_counts(program: &Program, id: DeclarationId)
    ensures
        match definition_of(program, id) {
            Some(definition) => exists|index: int|
                0 <= index < program.definitions@.len() && #[trigger] program.definitions@[index]
                    == *definition && definition.declaration == id && forall|later: int|
                    index < later < program.definitions@.len() ==> (
                    #[trigger] program.definitions@[later]).declaration != id,
            None => forall|index: int|
                0 <= index < program.definitions@.len() ==> (
                #[trigger] program.definitions@[index]).declaration != id,
        },
{
    lemma_last_definition(program, id, program.definitions@.len());
}

proof fn lemma_last_definition(program: &Program, id: DeclarationId, count: nat)
    requires
        count <= program.definitions@.len(),
    ensures
        match last_definition(program.definitions@, id, count) {
            Some(definition) => exists|index: int|
                0 <= index < count && #[trigger] program.definitions@[index] == *definition
                    && definition.declaration == id && forall|later: int|
                    index < later < count ==> (
                    #[trigger] program.definitions@[later]).declaration != id,
            None => forall|index: int|
                0 <= index < count ==> (#[trigger] program.definitions@[index]).declaration != id,
        },
    decreases count,
{
    if count > 0 {
        if program.definitions@[count - 1].declaration == id {
            assert(program.definitions@[count - 1] == *last_definition(
                program.definitions@,
                id,
                count,
            )->0);
        } else {
            lemma_last_definition(program, id, (count - 1) as nat);
        }
    }
}

/// Whether two lists have the same length, as far as that can be counted.
pub open spec fn equally_long<A, B>(left: List<A>, right: List<B>) -> bool {
    left.seq().len() == right.seq().len() || (left.seq().len() >= usize::MAX
        && right.seq().len() >= usize::MAX)
}

/// The parameters that take an argument: all but those for errors.
pub open spec fn taking_arguments(generics: List<GenericParameter>) -> List<GenericParameter>
    decreases generics,
{
    match generics {
        List::Nil => List::Nil,
        List::Cons(head, tail) => if head.namespace == Namespace::Value {
            taking_arguments(*tail)
        } else {
            List::Cons(head, Box::new(taking_arguments(*tail)))
        },
    }
}

/// The number of types, as far as it can be counted.
pub proof fn lemma_type_count(types: List<Type>)
    ensures
        spec_type_count(&types) == if types.seq().len() <= usize::MAX {
            types.seq().len() as usize
        } else {
            usize::MAX
        },
    decreases types,
{
    reveal_with_fuel(spec_type_count, 2);
    match types {
        List::Nil => {},
        List::Cons(_, tail) => {
            lemma_type_count(*tail);
        },
    }
}

proof fn lemma_shapes(generics: List<GenericParameter>)
    ensures
        spec_shape_count(&spec_parameter_shapes(&generics)) == if taking_arguments(
            generics,
        ).seq().len() <= usize::MAX {
            taking_arguments(generics).seq().len() as usize
        } else {
            usize::MAX
        },
    decreases generics,
{
    reveal_with_fuel(spec_shape_count, 2);
    reveal_with_fuel(spec_parameter_shapes, 2);
    match generics {
        List::Nil => {},
        List::Cons(_, tail) => {
            lemma_shapes(*tail);
        },
    }
}

/// The numbers of arguments and of parameters that take one are compared.
pub proof fn lemma_counts(generics: List<GenericParameter>, arguments: List<Type>)
    ensures
        spec_type_count(&arguments) == spec_shape_count(&spec_parameter_shapes(&generics))
            <==> equally_long(arguments, taking_arguments(generics)),
{
    lemma_type_count(arguments);
    lemma_shapes(generics);
}

/// Whether a type is well formed: every declared part of it has the arguments that its definition
/// takes, what is dynamic is an interface, and errors are declared.
pub open spec fn is_well_formed_type(program: &Program, ty: Type) -> bool
    decreases ty, 0nat,
{
    match ty {
        Type::Nominal(id, arguments) => has_its_arguments(program, id, arguments),
        Type::DynamicInterface(id, arguments) => names_interface(program, id) && has_its_arguments(
            program,
            id,
            arguments,
        ),
        Type::Optional(inner)
        | Type::Array(inner, _)
        | Type::Slice(inner)
        | Type::Promise { result: inner, .. }
        | Type::Reference { referent: inner, .. }
        | Type::RawPointer { pointee: inner, .. } => is_well_formed_type(program, *inner),
        Type::Tuple(elements) | Type::Template(elements) => are_well_formed_types(
            program,
            elements,
        ),
        Type::Function(function) => are_well_formed_types(program, function.parameters)
            && is_well_formed_type(program, *function.result),
        Type::ErrorUnion(effects) => forall|index: int|
            0 <= index < effects.seq().len() ==> definition_of(
                program,
                #[trigger] effects.seq()[index],
            ) is Some,
        _ => true,
    }
}

/// Whether each of the types is well formed.
pub open spec fn are_well_formed_types(program: &Program, types: List<Type>) -> bool
    decreases types, 0nat,
{
    match types {
        List::Nil => true,
        List::Cons(head, tail) => is_well_formed_type(program, *head) && are_well_formed_types(
            program,
            *tail,
        ),
    }
}

/// Whether arguments suit the parameters that they stand for: a lifetime for a lifetime, a type
/// for a type.
pub open spec fn arguments_suit(
    program: &Program,
    parameters: List<GenericParameter>,
    arguments: List<Type>,
) -> bool
    decreases arguments, 0nat,
{
    match (parameters, arguments) {
        (List::Cons(parameter, parameters), List::Cons(argument, arguments)) => {
            &&& parameter.namespace == Namespace::Lifetime && *argument is Lifetime
                || parameter.namespace == Namespace::Type && !(*argument is Lifetime)
            &&& is_well_formed_type(program, *argument)
            &&& arguments_suit(program, *parameters, *arguments)
        },
        _ => true,
    }
}

/// Whether a declared type has the arguments that its definition takes.
pub open spec fn has_its_arguments(
    program: &Program,
    id: DeclarationId,
    arguments: List<Type>,
) -> bool
    decreases arguments, 1nat,
{
    match definition_of(program, id) {
        Some(definition) => equally_long(arguments, taking_arguments(definition.generics))
            && arguments_suit(program, taking_arguments(definition.generics), arguments),
        None => true,
    }
}

/// Shapes are what is read of the parameters that take an argument.
pub open spec fn are_shapes_of(
    shapes: List<ParameterShape>,
    parameters: List<GenericParameter>,
) -> bool
    decreases shapes,
{
    match (shapes, parameters) {
        (List::Nil, List::Nil) => true,
        (List::Cons(shape, shapes), List::Cons(parameter, parameters)) => shape.name
            == parameter.name && shape.namespace == parameter.namespace && are_shapes_of(
            *shapes,
            *parameters,
        ),
        _ => false,
    }
}

/// The shapes of parameters are those of the ones that take an argument.
pub proof fn lemma_shapes_of(generics: List<GenericParameter>)
    ensures
        are_shapes_of(spec_parameter_shapes(&generics), taking_arguments(generics)),
    decreases generics,
{
    reveal_with_fuel(spec_parameter_shapes, 2);
    match generics {
        List::Nil => {},
        List::Cons(_, tail) => {
            lemma_shapes_of(*tail);
        },
    }
}

/// Parameters with given shapes.
pub open spec fn with_shapes(shapes: List<ParameterShape>) -> List<GenericParameter>
    decreases shapes,
{
    match shapes {
        List::Nil => List::Nil,
        List::Cons(head, tail) => List::Cons(
            Box::new(
                GenericParameter {
                    name: head.name,
                    namespace: head.namespace,
                    bounds: List::Nil,
                    span: arbitrary(),
                },
            ),
            Box::new(with_shapes(*tail)),
        ),
    }
}

/// Whether arguments suit parameters depends on the shapes of these.
pub proof fn lemma_suit_by_shape(
    program: &Program,
    shapes: List<ParameterShape>,
    parameters: List<GenericParameter>,
    arguments: List<Type>,
)
    requires
        are_shapes_of(shapes, parameters),
    ensures
        arguments_suit(program, with_shapes(shapes), arguments) == arguments_suit(
            program,
            parameters,
            arguments,
        ),
    decreases arguments,
{
    match (shapes, arguments) {
        (List::Cons(_, others), List::Cons(_, rest)) => {
            lemma_suit_by_shape(program, *others, *parameters->Cons_1, *rest);
        },
        _ => {},
    }
}

/// Void stands in a composed type exactly if it stands in a part; in a function exactly if it
/// stands in a parameter, and in a template, an error union or a lone name never.
pub proof fn void_goes_by_parts(
    part: Type,
    parts: List<Type>,
    ids: List<DeclarationId>,
    id: DeclarationId,
    length: u64,
    name: Name,
    mutable: bool,
    plain: PrimitiveType,
)
    ensures
        spec_contains_void(&Type::Primitive(plain)) == (plain == PrimitiveType::Void),
        !spec_contains_void(&Type::String),
        !spec_contains_void(&Type::Str),
        !spec_contains_void(&Type::Generic(name)),
        !spec_contains_void(&Type::Lifetime(name)),
        !spec_contains_void(&Type::ErrorUnion(ids)),
        !spec_contains_void(&Type::Template(parts)),
        !spec_contains_void(&Type::Error),
        !spec_contains_void(&Type::Unknown),
        spec_contains_void(&Type::Optional(Box::new(part))) == spec_contains_void(&part),
        spec_contains_void(&Type::Array(Box::new(part), length)) == spec_contains_void(&part),
        spec_contains_void(&Type::Slice(Box::new(part))) == spec_contains_void(&part),
        forall|error: Type|
            spec_contains_void(
                &(#[trigger] Type::Promise {
                    result: Box::new(part),
                    error: Box::new(error),
                    effects: ids,
                }),
            ) == spec_contains_void(&part),
        spec_contains_void(
            &Type::Reference { mutable, lifetime: name, referent: Box::new(part) },
        ) == spec_contains_void(&part),
        spec_contains_void(&Type::RawPointer { mutable, pointee: Box::new(part) })
            == spec_contains_void(&part),
        spec_contains_void(&Type::Tuple(parts)) <==> exists|index: int|
            0 <= index < parts.seq().len() && spec_contains_void(&#[trigger] parts.seq()[index]),
        spec_contains_void(&Type::Nominal(id, parts)) == spec_contains_void(&Type::Tuple(parts)),
        spec_contains_void(&Type::DynamicInterface(id, parts)) == spec_contains_void(
            &Type::Tuple(parts),
        ),
        forall|function: crate::hir::FunctionType|
            spec_contains_void(&#[trigger] Type::Function(function)) == spec_contains_void(
                &Type::Tuple(function.parameters),
            ),
{
    reveal_with_fuel(spec_contains_void, 2);
    lemma_any_void(parts);
}

proof fn lemma_any_void(types: List<Type>)
    ensures
        spec_any_contains_void(&types) <==> exists|index: int|
            0 <= index < types.seq().len() && spec_contains_void(&#[trigger] types.seq()[index]),
    decreases types,
{
    reveal_with_fuel(spec_any_contains_void, 2);
    match types {
        List::Nil => {},
        List::Cons(head, tail) => {
            lemma_any_void(*tail);
            let all = types.seq();
            let rest = tail.seq();
            assert(all =~= seq![*head] + rest);
            assert(all[0] == *head);
            if spec_any_contains_void(&*tail) {
                let index = choose|index: int|
                    0 <= index < rest.len() && spec_contains_void(&#[trigger] rest[index]);
                assert(all[index + 1] == rest[index]);
            }
            if exists|index: int|
                0 <= index < all.len() && spec_contains_void(&#[trigger] all[index]) {
                let index = choose|index: int|
                    0 <= index < all.len() && spec_contains_void(&#[trigger] all[index]);
                if index > 0 {
                    assert(all[index] == rest[index - 1]);
                }
            }
        },
    }
}

/// Whether a bound suits a parameter of a namespace: an interface bounds a type, a lifetime that
/// is declared beside it bounds a lifetime.
pub open spec fn bound_suits(
    bound: GenericBound,
    namespace: Namespace,
    parameters: List<GenericParameter>,
    program: &Program,
) -> bool {
    match bound {
        GenericBound::Interface(interface, _) => names_interface(program, interface) && namespace
            == Namespace::Type,
        GenericBound::Outlives(lifetime) => namespace == Namespace::Lifetime && is_last_lifetime(
            parameters,
            lifetime,
        ),
        GenericBound::Static => true,
    }
}

/// Whether the last parameter with a name is a lifetime.
pub open spec fn is_last_lifetime(parameters: List<GenericParameter>, name: Name) -> bool {
    exists|index: int|
        0 <= index < parameters.seq().len() && (#[trigger] parameters.seq()[index]).name == name
            && parameters.seq()[index].namespace == Namespace::Lifetime && forall|later: int|
            index < later < parameters.seq().len() ==> (#[trigger] parameters.seq()[later]).name
                != name
}

/// The namespace of the last parameter with a name is looked up.
pub proof fn lemma_last_lifetime(parameters: List<GenericParameter>, name: Name)
    ensures
        (spec_last_namespace(&parameters, name) == Some(Namespace::Lifetime)) == is_last_lifetime(
            parameters,
            name,
        ),
        spec_last_namespace(&parameters, name) is None <==> forall|index: int|
            0 <= index < parameters.seq().len() ==> (#[trigger] parameters.seq()[index]).name
                != name,
    decreases parameters,
{
    reveal_with_fuel(spec_last_namespace, 2);
    match parameters {
        List::Nil => {},
        List::Cons(head, tail) => {
            lemma_last_lifetime(*tail, name);
            let all = parameters.seq();
            let rest = tail.seq();
            assert(all =~= seq![*head] + rest);
            assert(all[0] == *head);
            assert forall|index: int| 0 <= index < rest.len() implies #[trigger] rest[index]
                == all[index + 1] by {}
            assert forall|index: int| 0 < index < all.len() implies #[trigger] all[index]
                == rest[index - 1] by {}
            if is_last_lifetime(*tail, name) {
                let index = choose|index: int|
                    0 <= index < rest.len() && (#[trigger] rest[index]).name == name
                        && rest[index].namespace == Namespace::Lifetime && forall|later: int|
                        index < later < rest.len() ==> (#[trigger] rest[later]).name != name;
                assert(all[index + 1].name == name);
                assert forall|later: int| index + 1 < later < all.len() implies (
                #[trigger] all[later]).name != name by {
                    assert(rest[later - 1].name != name);
                }
            }
            if is_last_lifetime(parameters, name) {
                let index = choose|index: int|
                    0 <= index < all.len() && (#[trigger] all[index]).name == name
                        && all[index].namespace == Namespace::Lifetime && forall|later: int|
                        index < later < all.len() ==> (#[trigger] all[later]).name != name;
                if index > 0 {
                    assert(rest[index - 1].name == name);
                    assert forall|later: int| index - 1 < later < rest.len() implies (
                    #[trigger] rest[later]).name != name by {
                        assert(all[later + 1].name != name);
                    }
                } else {
                    assert forall|later: int| 0 <= later < rest.len() implies (
                    #[trigger] rest[later]).name != name by {
                        assert(all[later + 1].name != name);
                    }
                }
            }
            if spec_last_namespace(&*tail, name) is None && head.name == name && head.namespace
                == Namespace::Lifetime {
                assert forall|later: int| 0 < later < all.len() implies (
                #[trigger] all[later]).name != name by {
                    assert(rest[later - 1].name != name);
                }
                assert(all[0].name == name);
            }
            if spec_last_namespace(&*tail, name) is Some {
                let found = choose|index: int|
                    0 <= index < rest.len() && (#[trigger] rest[index]).name == name;
                assert(all[found + 1].name == name);
            }
        },
    }
}

/// Whether each bound suits a parameter of a namespace.
pub open spec fn bounds_suit(
    bounds: List<GenericBound>,
    namespace: Namespace,
    parameters: List<GenericParameter>,
    program: &Program,
) -> bool
    decreases bounds,
{
    match bounds {
        List::Nil => true,
        List::Cons(head, tail) => bound_suits(*head, namespace, parameters, program)
            && bounds_suit(*tail, namespace, parameters, program),
    }
}

/// Whether the bounds of each parameter suit it.
pub open spec fn parameters_suit(
    rest: List<GenericParameter>,
    parameters: List<GenericParameter>,
    program: &Program,
) -> bool
    decreases rest,
{
    match rest {
        List::Nil => true,
        List::Cons(head, tail) => bounds_suit(head.bounds, head.namespace, parameters, program)
            && parameters_suit(*tail, parameters, program),
    }
}

/// Whether the interfaces among bounds have their arguments.
pub open spec fn bounds_have_arguments(bounds: List<GenericBound>, program: &Program) -> bool
    decreases bounds,
{
    match bounds {
        List::Nil => true,
        List::Cons(head, tail) => (match *head {
            GenericBound::Interface(interface, arguments) => has_its_arguments(
                program,
                interface,
                arguments,
            ),
            _ => true,
        }) && bounds_have_arguments(*tail, program),
    }
}

/// Whether the interfaces in the bounds of parameters have their arguments.
pub open spec fn parameters_have_arguments(
    parameters: List<GenericParameter>,
    program: &Program,
) -> bool
    decreases parameters,
{
    match parameters {
        List::Nil => true,
        List::Cons(head, tail) => bounds_have_arguments(head.bounds, program)
            && parameters_have_arguments(*tail, program),
    }
}

/// Whether the types that a signature names are well formed.
pub open spec fn is_well_formed_signature(function: Function, program: &Program) -> bool {
    &&& forall|index: int|
        0 <= index < function.parameters@.len() ==> is_well_formed_type(
            program,
            (#[trigger] function.parameters@[index]).ty,
        )
    &&& is_well_formed_type(program, function.result)
    &&& parameters_have_arguments(function.generics, program)
}

/// Whether every parameter of a function has a value, and what is asynchronous and no generator
/// returns a promise.
pub open spec fn is_sound_function(function: Function) -> bool {
    &&& forall|index: int|
        0 <= index < function.parameters@.len() ==> !spec_contains_void(
            &(#[trigger] function.parameters@[index]).ty,
        )
    &&& function.is_async && !function.is_generator ==> function.result is Promise
}

/// The lifetime that a result borrows for: that of a reference, or of a promised one.
pub open spec fn borrowed_for(result: Type) -> Option<Name> {
    match result {
        Type::Reference { lifetime, .. } => Some(lifetime),
        Type::Promise { result: promised, .. } => match *promised {
            Type::Reference { lifetime, .. } => Some(lifetime),
            _ => None,
        },
        _ => None,
    }
}

/// Whether a parameter is a reference.
pub open spec fn is_borrowed(parameter: Parameter) -> bool {
    parameter.ty is Reference
}

/// Whether the lifetime of a result is clear from the parameters: it is that of the whole process;
/// or it is left out, and there is an object or exactly one reference among the parameters; or a
/// parameter has it.
pub open spec fn result_is_clear(function: Function, has_receiver: bool) -> bool {
    match borrowed_for(function.result) {
        Some(lifetime) => {
            ||| lifetime == Name::Static
            ||| lifetime == Name::Scope && (has_receiver || function.parameters@.filter(
                |parameter: Parameter| is_borrowed(parameter),
            ).len() == 1)
            ||| lifetime != Name::Scope && exists|index: int|
                0 <= index < function.parameters@.len() && is_borrowed_for(
                    #[trigger] function.parameters@[index],
                    lifetime,
                )
        },
        None => true,
    }
}

proof fn lemma_count_lifetimes(parameters: Seq<Parameter>, from: nat)
    requires
        from <= parameters.len(),
    ensures
        input_lifetimes_from(parameters, from).seq().len() == parameters.skip(from as int).filter(
            |parameter: Parameter| is_borrowed(parameter),
        ).len(),
    decreases parameters.len() - from,
{
    let keep = |parameter: Parameter| is_borrowed(parameter);
    if from < parameters.len() {
        lemma_count_lifetimes(parameters, from + 1);
        let rest = parameters.skip(from as int);
        let later = parameters.skip((from + 1) as int);
        assert(rest =~= seq![parameters[from as int]] + later);
        lemma_filter_first(parameters[from as int], later, keep);
    } else {
        assert(parameters.skip(from as int) =~= Seq::empty());
        lemma_filter_nothing(keep);
    }
}

/// Filtering nothing gives nothing.
pub proof fn lemma_filter_nothing<T>(keep: spec_fn(T) -> bool)
    ensures
        Seq::<T>::empty().filter(keep) == Seq::<T>::empty(),
{
    reveal(Seq::filter);
}

/// Whether a parameter is a reference with a lifetime.
pub open spec fn is_borrowed_for(parameter: Parameter, name: Name) -> bool {
    is_borrowed(parameter) && parameter.ty->Reference_lifetime == name
}

proof fn lemma_has_lifetime(parameters: Seq<Parameter>, from: nat, name: Name)
    requires
        from <= parameters.len(),
    ensures
        spec_has_name(&input_lifetimes_from(parameters, from), name) <==> exists|index: int|
            from <= index < parameters.len() && is_borrowed_for(#[trigger] parameters[index], name),
    decreases parameters.len() - from,
{
    reveal_with_fuel(spec_has_name, 2);
    if from < parameters.len() {
        lemma_has_lifetime(parameters, from + 1, name);
        if is_borrowed_for(parameters[from as int], name) {
            assert(is_borrowed_for(parameters[from as int], name));
        }
    }
}

/// The lifetimes of references among parameters.
pub proof fn lemma_input_lifetimes(parameters: Seq<Parameter>, name: Name)
    ensures
        input_lifetimes_from(parameters, 0).seq().len() == parameters.filter(
            |parameter: Parameter| is_borrowed(parameter),
        ).len(),
        spec_has_name(&input_lifetimes_from(parameters, 0), name) <==> exists|index: int|
            0 <= index < parameters.len() && is_borrowed_for(#[trigger] parameters[index], name),
{
    lemma_count_lifetimes(parameters, 0);
    lemma_has_lifetime(parameters, 0, name);
    assert(parameters.skip(0) =~= parameters);
}

/// Filtering keeps or drops the first element, and filters the rest.
pub proof fn lemma_filter_first<T>(first: T, rest: Seq<T>, keep: spec_fn(T) -> bool)
    ensures
        (seq![first] + rest).filter(keep) == if keep(first) {
            seq![first] + rest.filter(keep)
        } else {
            rest.filter(keep)
        },
{
    Seq::filter_distributes_over_add(seq![first], rest, keep);
    let alone = seq![first];
    assert(alone.filter(keep) == if keep(first) {
        seq![first]
    } else {
        Seq::empty()
    }) by {
        lemma_filter_nothing(keep);
        reveal(Seq::filter);
        assert(alone.drop_last() =~= Seq::empty());
        assert(alone.last() == first);
        assert(Seq::<T>::empty().push(first) =~= seq![first]);
    }
    assert(Seq::<T>::empty() + rest.filter(keep) =~= rest.filter(keep));
}

/// A list is its first element and the rest.
pub proof fn lemma_first_and_rest<T>(first: T, rest: List<T>)
    ensures
        List::Cons(Box::new(first), Box::new(rest)).seq() == seq![first] + rest.seq(),
{
}

/// What is kept of a sequence.
pub proof fn lemma_filtered<T>(items: Seq<T>, hit: spec_fn(T) -> bool)
    ensures
        items.filter(hit).len() == 0 <==> forall|index: int|
            0 <= index < items.len() ==> !hit(#[trigger] items[index]),
        forall|item: T| #[trigger]
            items.filter(hit).contains(item) <==> items.contains(item) && hit(item),
    decreases items.len(),
{
    reveal_with_fuel(Seq::filter, 2);
    if items.len() > 0 {
        let before = items.drop_last();
        lemma_filtered(before, hit);
        let last = items.last();
        assert forall|index: int| 0 <= index < before.len() implies #[trigger] before[index]
            == items[index] by {}
        let kept = items.filter(hit);
        assert(kept == if hit(last) {
            before.filter(hit).push(last)
        } else {
            before.filter(hit)
        });
        assert(items =~= before.push(last));
        assert forall|item: T| #[trigger]
            kept.contains(item) <==> items.contains(item) && hit(item) by {
            assert(before.filter(hit).contains(item) <==> before.contains(item) && hit(item));
            if before.contains(item) {
                let place = choose|place: int| 0 <= place < before.len() && before[place] == item;
                assert(items[place] == item);
            }
            if item == last {
                assert(items[items.len() - 1] == item);
                if hit(last) {
                    assert(kept[kept.len() - 1] == item);
                }
            }
            if before.filter(hit).contains(item) {
                let place = choose|place: int|
                    0 <= place < before.filter(hit).len() && before.filter(hit)[place] == item;
                assert(kept[place] == item);
            }
            if items.contains(item) && item != last {
                let place = choose|place: int| 0 <= place < items.len() && items[place] == item;
                assert(before[place] == item);
            }
            if kept.contains(item) {
                let place = choose|place: int| 0 <= place < kept.len() && kept[place] == item;
                if place < before.filter(hit).len() {
                    assert(before.filter(hit)[place] == item);
                }
            }
        }
        if hit(last) {
            assert(kept.len() > 0);
            assert(hit(items[items.len() - 1]));
        }
    }
}

} // verus!
