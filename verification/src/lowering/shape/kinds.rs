//! When what lowering hands on stays within a body.

use vstd::prelude::*;

use crate::list::List;
use crate::lowering::access::ChainLink;
use crate::lowering::bindings::BindingSource;
use crate::lowering::calls::{Arguments, Callee, ConstructorArgument, ConstructorArguments};
use crate::lowering::closures::TemplateContents;
use crate::lowering::emit::TypedPlace;
use crate::lowering::jsx::Children;
use crate::lowering::loops::CountedBlocks;
use crate::lowering::shape::base::{
    operand_fits, operand_names, operands_fit, optional_local_fits, optional_typed_place_fits,
    place_fits, place_names, value_fits, Bounds,
};
use crate::lowering::statements::{Initializer, InitializerSource};
use crate::lowering::switches::SwitchPlan;
use crate::mir::{BasicBlockId, LocalId};

verus! {

/// Whether an optional block is one of a body.
pub open spec fn optional_block_fits(block: Option<BasicBlockId>, bounds: Bounds) -> bool {
    match block {
        Some(block) => block.0 < bounds.blocks,
        None => true,
    }
}

/// Whether an optional reference to a part of a value stays within a body.
pub open spec fn optional_source_fits(place: Option<&TypedPlace>, bounds: Bounds) -> bool {
    match place {
        Some(place) => place_fits(place.place, bounds),
        None => true,
    }
}

/// Whether arguments stay within a body.
pub open spec fn arguments_fit(arguments: Arguments, bounds: Bounds) -> bool {
    operands_fit(arguments.operands, bounds)
}

/// Whether a callee and its arguments stay within a body.
pub open spec fn callee_fits(callee: Callee, bounds: Bounds) -> bool {
    operand_fits(callee.function, bounds) && arguments_fit(callee.arguments, bounds)
}

/// Whether one of the arguments of a constructor names a local.
pub open spec fn passed_names(arguments: List<ConstructorArgument>, local: LocalId) -> bool
    decreases arguments,
{
    match arguments {
        List::Nil => false,
        List::Cons(head, tail) => operand_names(head.value.operand, local) || passed_names(
            *tail,
            local,
        ),
    }
}

/// Whether the arguments of a constructor stay within a body.
pub open spec fn passed_fit(arguments: List<ConstructorArgument>, bounds: Bounds) -> bool {
    forall|local: LocalId| #[trigger] passed_names(arguments, local) ==> local.0 < bounds.locals
}

/// Whether the arguments of a constructor stay within a body.
pub open spec fn constructor_arguments_fit(
    arguments: ConstructorArguments,
    bounds: Bounds,
) -> bool {
    passed_fit(arguments.arguments, bounds)
}

/// Whether what a binding takes stays within a body.
pub open spec fn source_fits(source: BindingSource, bounds: Bounds) -> bool {
    place_fits(source.place, bounds)
}

/// Whether the blocks of a counted loop are of a body.
pub open spec fn counted_fit(blocks: CountedBlocks, bounds: Bounds) -> bool {
    blocks.condition.0 < bounds.blocks && blocks.body.0 < bounds.blocks && blocks.increment.0
        < bounds.blocks && blocks.exit.0 < bounds.blocks
}

/// Whether a link of a chain stays within a body.
pub open spec fn link_fits(link: ChainLink, bounds: Bounds) -> bool {
    value_fits(link.value, bounds)
}

/// Whether what the arms of a switch share stays within a body.
pub open spec fn plan_fits(plan: SwitchPlan, bounds: Bounds) -> bool {
    place_fits(plan.scrutinee, bounds) && optional_local_fits(plan.destination, bounds)
        && plan.otherwise.0 < bounds.blocks && plan.join.0 < bounds.blocks
}

/// Whether what a template captures stays within a body.
pub open spec fn template_fits(contents: TemplateContents, bounds: Bounds) -> bool {
    operands_fit(contents.captures, bounds)
}

/// Whether the children of markup stay within a body.
pub open spec fn children_fit(children: Children, bounds: Bounds) -> bool {
    operands_fit(children.operands, bounds)
}

/// Whether one of the values that are spread names a local.
pub open spec fn sources_name(sources: List<Option<TypedPlace>>, local: LocalId) -> bool
    decreases sources,
{
    match sources {
        List::Nil => false,
        List::Cons(head, tail) => (match *head {
            Some(source) => place_names(source.place, local),
            None => false,
        }) || sources_name(*tail, local),
    }
}

/// Whether the values that are spread stay within a body.
pub open spec fn sources_fit(sources: List<Option<TypedPlace>>, bounds: Bounds) -> bool {
    forall|local: LocalId| #[trigger] sources_name(sources, local) ==> local.0 < bounds.locals
}

/// The first argument of a constructor and those behind it.
pub broadcast proof fn lemma_passed_cons(
    head: Box<ConstructorArgument>,
    tail: Box<List<ConstructorArgument>>,
    bounds: Bounds,
)
    ensures
        #[trigger] passed_fit(List::Cons(head, tail), bounds) <==> operand_fits(
            head.value.operand,
            bounds,
        ) && passed_fit(*tail, bounds),
{
    let all = List::Cons(head, tail);
    if passed_fit(all, bounds) {
        assert forall|local: LocalId| #[trigger] passed_names(*tail, local) implies local.0
            < bounds.locals by {
            assert(passed_names(all, local));
        }
        assert forall|local: LocalId| #[trigger] operand_names(
            head.value.operand,
            local,
        ) implies local.0
            < bounds.locals by {
            assert(passed_names(all, local));
        }
    }
    if operand_fits(head.value.operand, bounds) && passed_fit(*tail, bounds) {
        assert forall|local: LocalId| #[trigger] passed_names(all, local) implies local.0
            < bounds.locals by {
            assert(operand_names(head.value.operand, local) || passed_names(*tail, local));
        }
    }
}

/// No argument of a constructor.
pub broadcast proof fn lemma_passed_nil(bounds: Bounds)
    ensures
        #[trigger] passed_fit(List::Nil, bounds),
{
}

/// The first value that is spread and those behind it.
pub broadcast proof fn lemma_sources_cons(
    head: Box<Option<TypedPlace>>,
    tail: Box<List<Option<TypedPlace>>>,
    bounds: Bounds,
)
    ensures
        #[trigger] sources_fit(List::Cons(head, tail), bounds) <==> optional_typed_place_fits(
            *head,
            bounds,
        ) && sources_fit(*tail, bounds),
{
    let all = List::Cons(head, tail);
    if sources_fit(all, bounds) {
        assert forall|local: LocalId| #[trigger] sources_name(*tail, local) implies local.0
            < bounds.locals by {
            assert(sources_name(all, local));
        }
        match *head {
            Some(source) => {
                assert forall|local: LocalId| #[trigger]
                    place_names(source.place, local) implies local.0 < bounds.locals by {
                    assert(sources_name(all, local));
                }
            },
            None => {},
        }
    }
    if optional_typed_place_fits(*head, bounds) && sources_fit(*tail, bounds) {
        assert forall|local: LocalId| #[trigger] sources_name(all, local) implies local.0
            < bounds.locals by {
            if !sources_name(*tail, local) {
                assert(*head matches Some(source) && place_names(source.place, local));
            }
        }
    }
}

/// No value that is spread.
pub broadcast proof fn lemma_sources_nil(bounds: Bounds)
    ensures
        #[trigger] sources_fit(List::Nil, bounds),
{
}

pub broadcast group group_kinds {
    lemma_passed_cons,
    lemma_passed_nil,
    lemma_sources_cons,
    lemma_sources_nil,
}

/// Whether the local that an initializer reads is one of a body.
pub open spec fn initializer_source_fits(source: InitializerSource, bounds: Bounds) -> bool {
    source.local.0 < bounds.locals
}

/// Whether the local that an initializer reads is one of a body.
pub open spec fn initializer_fits(initializer: Initializer, bounds: Bounds) -> bool {
    match initializer.source {
        Some(source) => initializer_source_fits(source, bounds),
        None => true,
    }
}

} // verus!
