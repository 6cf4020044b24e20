//! Where a switch and a handler of errors lead.

use vstd::prelude::*;

use crate::hir::{DeclarationId, Program, Type};
use crate::list::List;
use crate::lowering::context::Context;
use crate::lowering::members::catch_handles;
use crate::lowering::statements::{spec_catch_targets, spec_catching_block, CatchArm};
use crate::lowering::switches::{match_pattern_value, spec_arm_targets, spec_with_target, MatchArm};
use crate::mir::{BasicBlockId, SwitchTarget};

verus! {

/// Whether the values of targets are strictly ascending.
pub open spec fn is_ascending(targets: Seq<SwitchTarget>) -> bool {
    forall|left: int, right: int|
        0 <= left < right < targets.len() ==> (#[trigger] targets[left]).value < (
        #[trigger] targets[right]).value
}

/// Whether a target leads to the block of the first arm with its value. Arms without a block do
/// not count.
pub open spec fn leads_to_first_arm(
    cx: &Context,
    arms: Seq<MatchArm>,
    blocks: Seq<BasicBlockId>,
    scrutinee: &Type,
    target: SwitchTarget,
) -> bool {
    exists|index: int|
        0 <= index < arms.len() && index < blocks.len() && match_pattern_value(
            cx,
            #[trigger] arms[index],
            scrutinee,
        ) == Some(target.value) && blocks[index] == target.block && forall|earlier: int|
            0 <= earlier < index ==> match_pattern_value(cx, #[trigger] arms[earlier], scrutinee)
                != Some(target.value)
}

proof fn lemma_with_target(targets: List<SwitchTarget>, target: SwitchTarget)
    requires
        is_ascending(targets.seq()),
    ensures
        is_ascending(spec_with_target(targets, target).seq()),
        forall|other: SwitchTarget| #[trigger]
            spec_with_target(targets, target).seq().contains(other) <==> other == target || (
            other.value != target.value && targets.seq().contains(other)),
    decreases targets,
{
    let given = targets.seq();
    let after = spec_with_target(targets, target).seq();
    match targets {
        List::Nil => {
            assert(List::<SwitchTarget>::Nil.seq() =~= Seq::empty());
            assert(after =~= seq![target]);
            assert(after[0] == target);
        },
        List::Cons(head, tail) => {
            let rest = tail.seq();
            assert(given =~= seq![*head] + rest);
            assert(given[0] == *head);
            assert forall|index: int| 0 <= index < rest.len() implies head.value < (
            #[trigger] rest[index]).value by {
                assert(given[index + 1] == rest[index]);
            }
            assert(is_ascending(rest)) by {
                assert forall|left: int, right: int| 0 <= left < right < rest.len() implies (
                #[trigger] rest[left]).value < (#[trigger] rest[right]).value by {
                    assert(given[left + 1].value < given[right + 1].value);
                }
            }
            assert forall|other: SwitchTarget| #[trigger]
                given.contains(other) <==> other == *head || rest.contains(other) by {
                if rest.contains(other) {
                    let index = choose|index: int| 0 <= index < rest.len() && rest[index] == other;
                    assert(given[index + 1] == other);
                }
                if given.contains(other) && other != *head {
                    let index = choose|index: int|
                        0 <= index < given.len() && given[index] == other;
                    assert(rest[index - 1] == other);
                }
            }
            let (first, behind) = if target.value < head.value {
                (target, given)
            } else if target.value == head.value {
                (target, rest)
            } else {
                lemma_with_target(*tail, target);
                (*head, spec_with_target(*tail, target).seq())
            };
            assert(after =~= seq![first] + behind);
            assert forall|other: SwitchTarget| #[trigger]
                after.contains(other) <==> other == first || behind.contains(other) by {
                if behind.contains(other) {
                    let index = choose|index: int|
                        0 <= index < behind.len() && behind[index] == other;
                    assert(after[index + 1] == other);
                }
                if other == first {
                    assert(after[0] == other);
                }
                if after.contains(other) && other != first {
                    let index = choose|index: int|
                        0 <= index < after.len() && after[index] == other;
                    assert(behind[index - 1] == other);
                }
            }
            assert forall|index: int| 0 <= index < behind.len() implies first.value < (
            #[trigger] behind[index]).value by {
                assert(behind.contains(behind[index]));
                if target.value < head.value {
                    if index > 0 {
                        assert(given[index] == rest[index - 1]);
                    }
                } else if target.value > head.value {
                    if behind[index] != target {
                        assert(rest.contains(behind[index]));
                        let other = choose|other: int|
                            0 <= other < rest.len() && rest[other] == behind[index];
                        assert(head.value < rest[other].value);
                    }
                }
            }
            assert forall|left: int, right: int| 0 <= left < right < after.len() implies (
            #[trigger] after[left]).value < (#[trigger] after[right]).value by {
                if left == 0 {
                    assert(after[right] == behind[right - 1]);
                } else {
                    assert(behind[left - 1].value < behind[right - 1].value);
                }
            }
            assert forall|other: SwitchTarget| #[trigger] after.contains(other) <==> other
                == target || (other.value != target.value && given.contains(other)) by {
                if rest.contains(other) {
                    let index = choose|index: int| 0 <= index < rest.len() && rest[index] == other;
                    assert(head.value < rest[index].value);
                }
            }
        },
    }
}

proof fn lemma_first_arm(
    cx: &Context,
    arm: MatchArm,
    arms: Seq<MatchArm>,
    block: BasicBlockId,
    blocks: Seq<BasicBlockId>,
    scrutinee: &Type,
    target: SwitchTarget,
)
    ensures
        leads_to_first_arm(cx, seq![arm] + arms, seq![block] + blocks, scrutinee, target) <==> (
        match_pattern_value(cx, arm, scrutinee) == Some(target.value) && block == target.block) || (
        match_pattern_value(cx, arm, scrutinee) != Some(target.value) && leads_to_first_arm(
            cx,
            arms,
            blocks,
            scrutinee,
            target,
        )),
{
    let all = seq![arm] + arms;
    let leading = seq![block] + blocks;
    assert(all[0] == arm);
    assert(leading[0] == block);
    if leads_to_first_arm(cx, all, leading, scrutinee, target) {
        let index = choose|index: int|
            0 <= index < all.len() && index < leading.len() && match_pattern_value(
                cx,
                #[trigger] all[index],
                scrutinee,
            ) == Some(target.value) && leading[index] == target.block && forall|earlier: int|
                0 <= earlier < index ==> match_pattern_value(
                    cx,
                    #[trigger] all[earlier],
                    scrutinee,
                ) != Some(target.value);
        if index > 0 {
            assert(match_pattern_value(cx, all[0], scrutinee) != Some(target.value));
            assert(all[index] == arms[index - 1]);
            assert(leading[index] == blocks[index - 1]);
            assert forall|earlier: int| 0 <= earlier < index - 1 implies match_pattern_value(
                cx,
                #[trigger] arms[earlier],
                scrutinee,
            ) != Some(target.value) by {
                assert(all[earlier + 1] == arms[earlier]);
            }
        }
    }
    if match_pattern_value(cx, arm, scrutinee) != Some(target.value) && leads_to_first_arm(
        cx,
        arms,
        blocks,
        scrutinee,
        target,
    ) {
        let index = choose|index: int|
            0 <= index < arms.len() && index < blocks.len() && match_pattern_value(
                cx,
                #[trigger] arms[index],
                scrutinee,
            ) == Some(target.value) && blocks[index] == target.block && forall|earlier: int|
                0 <= earlier < index ==> match_pattern_value(
                    cx,
                    #[trigger] arms[earlier],
                    scrutinee,
                ) != Some(target.value);
        assert(all[index + 1] == arms[index]);
        assert(leading[index + 1] == blocks[index]);
        assert forall|earlier: int| 0 <= earlier < index + 1 implies match_pattern_value(
            cx,
            #[trigger] all[earlier],
            scrutinee,
        ) != Some(target.value) by {
            if earlier > 0 {
                assert(all[earlier] == arms[earlier - 1]);
            }
        }
    }
    if match_pattern_value(cx, arm, scrutinee) == Some(target.value) && block == target.block {
        assert(match_pattern_value(cx, all[0], scrutinee) == Some(target.value));
    }
}

/// The targets of a switch have strictly ascending values. Each leads to the block of the first
/// arm with its value, and every value of an arm has its target.
pub proof fn switch_targets_lead_to_first_arms(
    cx: &Context,
    arms: List<MatchArm>,
    blocks: List<BasicBlockId>,
    scrutinee: &Type,
)
    ensures
        is_ascending(spec_arm_targets(cx, &arms, &blocks, scrutinee).seq()),
        forall|target: SwitchTarget| #[trigger]
            spec_arm_targets(cx, &arms, &blocks, scrutinee).seq().contains(target)
                <==> leads_to_first_arm(cx, arms.seq(), blocks.seq(), scrutinee, target),
    decreases arms,
{
    let targets = spec_arm_targets(cx, &arms, &blocks, scrutinee);
    match (arms, blocks) {
        (List::Cons(arm, others), List::Cons(block, rest)) => {
            switch_targets_lead_to_first_arms(cx, *others, *rest, scrutinee);
            let later = spec_arm_targets(cx, &*others, &*rest, scrutinee);
            assert(arms.seq() =~= seq![*arm] + others.seq());
            assert(blocks.seq() =~= seq![*block] + rest.seq());
            match match_pattern_value(cx, *arm, scrutinee) {
                Some(value) => {
                    lemma_with_target(later, SwitchTarget { value, block: *block });
                },
                None => {},
            }
            assert forall|target: SwitchTarget| #[trigger] targets.seq().contains(target)
                <==> leads_to_first_arm(cx, arms.seq(), blocks.seq(), scrutinee, target) by {
                lemma_first_arm(
                    cx,
                    *arm,
                    others.seq(),
                    *block,
                    rest.seq(),
                    scrutinee,
                    target,
                );
                assert(later.seq().contains(target) <==> leads_to_first_arm(
                    cx,
                    others.seq(),
                    rest.seq(),
                    scrutinee,
                    target,
                ));
            }
        },
        _ => {
            assert(targets.seq() =~= Seq::empty());
        },
    }
}

/// Whether a block is that of the first clause that catches an error. Clauses without a block do
/// not count.
pub open spec fn is_first_catching(
    program: &Program,
    catches: Seq<CatchArm>,
    blocks: Seq<BasicBlockId>,
    effect: DeclarationId,
    block: BasicBlockId,
) -> bool {
    exists|index: int|
        0 <= index < catches.len() && index < blocks.len() && catch_handles(
            program,
            &(#[trigger] catches[index]).ty,
            effect,
        ) && blocks[index] == block && forall|earlier: int|
            0 <= earlier < index ==> !catch_handles(
                program,
                &(#[trigger] catches[earlier]).ty,
                effect,
            )
}

proof fn lemma_first_catching(
    program: &Program,
    catches: List<CatchArm>,
    blocks: List<BasicBlockId>,
    effect: DeclarationId,
    block: BasicBlockId,
)
    ensures
        spec_catching_block(program, &catches, &blocks, effect) == Some(block)
            <==> is_first_catching(program, catches.seq(), blocks.seq(), effect, block),
    decreases catches,
{
    match (catches, blocks) {
        (List::Cons(arm, arms), List::Cons(first, rest)) => {
            let all = catches.seq();
            let leading = blocks.seq();
            assert(all =~= seq![*arm] + arms.seq());
            assert(leading =~= seq![*first] + rest.seq());
            assert(all[0] == *arm);
            assert(leading[0] == *first);
            lemma_first_catching(program, *arms, *rest, effect, block);
            if is_first_catching(program, all, leading, effect, block) {
                let index = choose|index: int|
                    0 <= index < all.len() && index < leading.len() && catch_handles(
                        program,
                        &(#[trigger] all[index]).ty,
                        effect,
                    ) && leading[index] == block && forall|earlier: int|
                        0 <= earlier < index ==> !catch_handles(
                            program,
                            &(#[trigger] all[earlier]).ty,
                            effect,
                        );
                if index > 0 {
                    assert(!catch_handles(program, &all[0].ty, effect));
                    assert(all[index] == arms.seq()[index - 1]);
                    assert(leading[index] == rest.seq()[index - 1]);
                    assert forall|earlier: int| 0 <= earlier < index - 1 implies !catch_handles(
                        program,
                        &(#[trigger] arms.seq()[earlier]).ty,
                        effect,
                    ) by {
                        assert(all[earlier + 1] == arms.seq()[earlier]);
                    }
                    assert(is_first_catching(program, arms.seq(), rest.seq(), effect, block));
                }
            }
            if spec_catching_block(program, &catches, &blocks, effect) == Some(block)
                && !catch_handles(program, &arm.ty, effect) {
                let index = choose|index: int|
                    0 <= index < arms.seq().len() && index < rest.seq().len() && catch_handles(
                        program,
                        &(#[trigger] arms.seq()[index]).ty,
                        effect,
                    ) && rest.seq()[index] == block && forall|earlier: int|
                        0 <= earlier < index ==> !catch_handles(
                            program,
                            &(#[trigger] arms.seq()[earlier]).ty,
                            effect,
                        );
                assert(all[index + 1] == arms.seq()[index]);
                assert(leading[index + 1] == rest.seq()[index]);
                assert forall|earlier: int| 0 <= earlier < index + 1 implies !catch_handles(
                    program,
                    &(#[trigger] all[earlier]).ty,
                    effect,
                ) by {
                    if earlier > 0 {
                        assert(all[earlier] == arms.seq()[earlier - 1]);
                    }
                }
            }
        },
        _ => {
            assert(catches.seq().len() == 0 || blocks.seq().len() == 0);
        },
    }
}

/// Whether a target leads from the number of an error, which is counted from `tag` on, to the
/// first clause that catches the error.
pub open spec fn leads_to_first_catching(
    program: &Program,
    effects: Seq<DeclarationId>,
    catches: Seq<CatchArm>,
    blocks: Seq<BasicBlockId>,
    tag: int,
    target: SwitchTarget,
) -> bool {
    tag <= target.value < tag + effects.len() && is_first_catching(
        program,
        catches,
        blocks,
        effects[target.value - tag],
        target.block,
    )
}

proof fn lemma_catch_targets(
    program: &Program,
    effects: List<DeclarationId>,
    catches: List<CatchArm>,
    blocks: List<BasicBlockId>,
    tag: u128,
)
    requires
        tag + effects.seq().len() <= u128::MAX,
    ensures
        is_ascending(spec_catch_targets(program, &effects, &catches, &blocks, tag).seq()),
        forall|target: SwitchTarget| #[trigger]
            spec_catch_targets(program, &effects, &catches, &blocks, tag).seq().contains(target)
                <==> leads_to_first_catching(
                program,
                effects.seq(),
                catches.seq(),
                blocks.seq(),
                tag as int,
                target,
            ),
    decreases effects,
{
    let targets = spec_catch_targets(program, &effects, &catches, &blocks, tag).seq();
    match effects {
        List::Nil => {
            assert(targets =~= Seq::empty());
            assert(effects.seq() =~= Seq::empty());
        },
        List::Cons(effect, tail) => {
            assert(effects.seq() =~= seq![*effect] + tail.seq());
            assert(effects.seq()[0] == *effect);
            let later: u128 = (tag + 1) as u128;
            lemma_catch_targets(program, *tail, catches, blocks, later);
            let rest = spec_catch_targets(program, &*tail, &catches, &blocks, later).seq();
            assert forall|index: int| 0 <= index < rest.len() implies tag < (
            #[trigger] rest[index]).value by {
                assert(rest.contains(rest[index]));
            }
            let caught = spec_catching_block(program, &catches, &blocks, *effect);
            match caught {
                Some(block) => {
                    let first = SwitchTarget { value: tag, block };
                    assert(targets =~= seq![first] + rest);
                    assert(targets[0] == first);
                    assert forall|left: int, right: int| 0 <= left < right < targets.len() implies (
                    #[trigger] targets[left]).value < (#[trigger] targets[right]).value by {
                        assert(targets[right] == rest[right - 1]);
                        if left > 0 {
                            assert(rest[left - 1].value < rest[right - 1].value);
                        }
                    }
                },
                None => {
                    assert(targets == rest);
                },
            }
            assert forall|target: SwitchTarget| #[trigger] targets.contains(target)
                <==> leads_to_first_catching(
                program,
                effects.seq(),
                catches.seq(),
                blocks.seq(),
                tag as int,
                target,
            ) by {
                lemma_first_catching(program, catches, blocks, *effect, target.block);
                if target.value > tag && target.value < tag + effects.seq().len() {
                    assert(effects.seq()[target.value - tag] == tail.seq()[target.value - later]);
                }
                assert(rest.contains(target) <==> leads_to_first_catching(
                    program,
                    tail.seq(),
                    catches.seq(),
                    blocks.seq(),
                    later as int,
                    target,
                ));
                if rest.contains(target) && caught is Some {
                    let index = choose|index: int|
                        0 <= index < rest.len() && rest[index] == target;
                    assert(targets[index + 1] == target);
                }
                if targets.contains(target) && !rest.contains(target) {
                    let index = choose|index: int|
                        0 <= index < targets.len() && targets[index] == target;
                    if index > 0 {
                        assert(rest[index - 1] == target);
                    }
                }
            }
        },
    }
}

/// The targets of a handler have strictly ascending numbers. Each leads from the position of an
/// error among the handled ones to the first clause that catches it, and every error that a
/// clause catches has its target.
pub proof fn catch_targets_lead_to_first_clauses(
    program: &Program,
    effects: List<DeclarationId>,
    catches: List<CatchArm>,
    blocks: List<BasicBlockId>,
)
    requires
        effects.seq().len() <= u128::MAX,
    ensures
        is_ascending(spec_catch_targets(program, &effects, &catches, &blocks, 0).seq()),
        forall|target: SwitchTarget| #[trigger]
            spec_catch_targets(program, &effects, &catches, &blocks, 0).seq().contains(target)
                <==> leads_to_first_catching(
                program,
                effects.seq(),
                catches.seq(),
                blocks.seq(),
                0,
                target,
            ),
{
    lemma_catch_targets(program, effects, catches, blocks, 0);
}

} // verus!
