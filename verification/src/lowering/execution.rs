//! What the graph of an expression does when it is executed.

use vstd::prelude::*;

use crate::hir::{same_type, PrimitiveType, Type};
use crate::list::List;
use crate::lowering::builder::{
    spec_is_open, spec_new_block, spec_pop_loop, spec_push_loop, spec_statement, spec_temporary,
    spec_terminate, BlockState, State,
};
use crate::lowering::context::{behind, next, Context};
use crate::lowering::emit::{converted, spec_assign, spec_branch, spec_continue_at, spec_live};
use crate::lowering::expressions::{
    spec_lower_choice, spec_lower_conditional, spec_lower_short_circuit, ConditionalAt,
};
use crate::lowering::frames::base::{
    continues, has_same_code, is_same_statement, lemma_continues_itself,
};
use crate::lowering::frames::recursion::lowering_continues_graphs;
use crate::lowering::loops::{spec_condition, spec_lower_loop_body, spec_lower_while};
use crate::lowering::recursion::{lowering, spec_here};
use crate::lowering::shape::base::{
    fits, grows, lemma_grows_itself, lemma_growth, lemma_pop_loop, lemma_push_loop,
    lemma_set_current, lemma_set_index, lemma_terminate,
};
use crate::lowering::shape::emit::{lemma_assign, lemma_branch, lemma_continue_at};
use crate::lowering::shape::recursion::lemma_lowering;
use crate::lowering::statements::spec_lower_if;
use crate::lowering::types::primitive;
use crate::mir::{
    whole, BasicBlockId, BinaryOperator, Constant, LocalId, Operand, Place, Rvalue, StatementKind,
    SwitchTarget, TerminatorKind,
};
use crate::syntax::TokenKind;

verus! {

/// The truth values that places hold.
pub type Memory = spec_fn(Place) -> bool;

/// A point of an execution: the statements of a block before one of them are done, and places hold
/// certain values.
pub struct Point {
    pub block: int,
    pub done: int,
    pub memory: Memory,
}

/// The truth value of an operand, if it has one.
pub open spec fn truth_of(operand: Operand, memory: Memory) -> Option<bool> {
    match operand {
        Operand::Constant(Constant::Bool(value)) => Some(value),
        Operand::Constant(_) => None,
        Operand::Copy(place) => Some(memory(place)),
        Operand::Move(place) => Some(memory(place)),
    }
}

/// The memory in which a place holds a value.
pub open spec fn stored(memory: Memory, place: Place, value: bool) -> Memory {
    |other: Place|
        if other == place {
            value
        } else {
            memory(other)
        }
}

/// The block that a switch on a truth value leads to: the first that is listed for its number, which
/// is one for true and zero for false, or else the last resort.
pub open spec fn chosen(
    value: bool,
    targets: List<SwitchTarget>,
    otherwise: BasicBlockId,
) -> BasicBlockId
    decreases targets,
{
    match targets {
        List::Nil => otherwise,
        List::Cons(head, tail) => if head.value == (if value {
            1u128
        } else {
            0u128
        }) {
            head.block
        } else {
            chosen(value, *tail, otherwise)
        },
    }
}

/// The next point of an execution, where only truth values are stored and looked at.
pub open spec fn step(blocks: Seq<BlockState>, point: Point) -> Option<Point> {
    if !(0 <= point.block < blocks.len()) {
        None
    } else {
        let block = blocks[point.block];
        if 0 <= point.done < block.statements.len() {
            match block.statements[point.done].kind {
                StatementKind::StorageLive(_) => Some(Point { done: point.done + 1, ..point }),
                StatementKind::Assign(place, Rvalue::Use(operand)) => match truth_of(
                    operand,
                    point.memory,
                ) {
                    Some(value) => Some(
                        Point {
                            done: point.done + 1,
                            memory: stored(point.memory, place, value),
                            ..point
                        },
                    ),
                    None => None,
                },
                _ => None,
            }
        } else {
            match block.terminator {
                Some(terminator) => match terminator.kind {
                    TerminatorKind::Goto(target) => Some(
                        Point { block: target.0 as int, done: 0, ..point },
                    ),
                    TerminatorKind::Switch { value, targets, otherwise } => match truth_of(
                        value,
                        point.memory,
                    ) {
                        Some(truth) => Some(
                            Point {
                                block: chosen(truth, targets, otherwise).0 as int,
                                done: 0,
                                ..point
                            },
                        ),
                        None => None,
                    },
                    _ => None,
                },
                None => None,
            }
        }
    }
}

/// The point that is reached in a number of steps.
pub open spec fn reached(blocks: Seq<BlockState>, point: Point, steps: nat) -> Option<Point>
    decreases steps,
{
    if steps == 0 {
        Some(point)
    } else {
        match step(blocks, point) {
            Some(following) => reached(blocks, following, (steps - 1) as nat),
            None => None,
        }
    }
}

/// Whether an execution comes to the start of a block with a certain truth value of an operand.
pub open spec fn comes_with(
    blocks: Seq<BlockState>,
    from: Point,
    block: BasicBlockId,
    operand: Operand,
    value: bool,
) -> bool {
    exists|steps: nat|
        match #[trigger] reached(blocks, from, steps) {
            Some(last) => last.block == block.0 && last.done == 0 && truth_of(operand, last.memory)
                == Some(value),
            None => false,
        }
}

/// Where a graph goes on.
pub open spec fn end_of(st: State, memory: Memory) -> Point {
    Point {
        block: st.current.0 as int,
        done: st.blocks[st.current.0 as int].statements.len() as int,
        memory,
    }
}

/// Whether a graph can go on: its current block is one of its own and does not end yet.
pub open spec fn is_open(st: State) -> bool {
    st.current.0 < st.blocks.len() && st.blocks[st.current.0 as int].terminator is None
}

/// In the graph of `left || right` the value of the left operand decides where it is true, and in
/// the graph of `left && right` where it is false: the graph then goes on with that value as the
/// result. Where it does not decide, the right
/// operand is executed with nothing changed, and the graph goes on with its value as the result.
///
/// The returned state is the one in which the right operand is lowered.
pub proof fn the_first_operand_decides_or_the_second_does(
    cx: &Context,
    st: State,
    start: usize,
    operator_index: usize,
    end: usize,
    operator: BinaryOperator,
    limit: nat,
) -> (middle: State)
    requires
        ({
            let low = lowering(limit);
            let expected = Some(&primitive(PrimitiveType::Bool));
            let (lowered, left) = (low.expression)(cx, st, start, operator_index, expected);
            let (after, result) = spec_lower_short_circuit(
                cx,
                st,
                start,
                operator_index,
                end,
                operator,
                low,
            );
            &&& left is Some
            &&& is_open(lowered)
            &&& result is Some
            &&& fits(after)
        }),
    ensures
        ({
            let low = lowering(limit);
            let expected = Some(&primitive(PrimitiveType::Bool));
            let (lowered, left) = (low.expression)(cx, st, start, operator_index, expected);
            let (inner, right) = (low.expression)(
                cx,
                middle,
                next(operator_index),
                end,
                expected,
            );
            let (after, result) = spec_lower_short_circuit(
                cx,
                st,
                start,
                operator_index,
                end,
                operator,
                low,
            );
            let deciding = operator != BinaryOperator::LogicalAnd;
            &&& right is Some
            &&& is_open(middle) && middle.blocks[middle.current.0 as int].statements.len() == 0
            &&& forall|memory: Memory|
                #![trigger truth_of(left->0.operand, memory)]
                truth_of(left->0.operand, memory) == Some(deciding) ==> comes_with(
                    after.blocks,
                    end_of(lowered, memory),
                    after.current,
                    result->0.operand,
                    deciding,
                )
            &&& forall|memory: Memory|
                #![trigger truth_of(left->0.operand, memory)]
                truth_of(left->0.operand, memory) == Some(!deciding) ==> exists|steps: nat|
                    #[trigger] reached(after.blocks, end_of(lowered, memory), steps) == Some(
                        end_of(middle, memory),
                    )
            &&& is_open(inner) ==> forall|memory: Memory|
                #![trigger truth_of(right->0.operand, memory)]
                truth_of(right->0.operand, memory) is Some ==> comes_with(
                    after.blocks,
                    end_of(inner, memory),
                    after.current,
                    result->0.operand,
                    truth_of(right->0.operand, memory)->0,
                )
        }),
{
    let low = lowering(limit);
    lowering_continues_graphs(limit);
    lemma_lowering(limit);
    reveal(continues);
    reveal(fits);
    reveal(grows);
    reveal(spec_lower_short_circuit);
    reveal(spec_live);
    reveal(spec_temporary);
    reveal(spec_branch);
    reveal(spec_assign);
    reveal(spec_statement);
    reveal(spec_terminate);
    reveal(spec_new_block);
    let span = cx.span_at(operator_index);
    let bool_type = primitive(PrimitiveType::Bool);
    let expected = Some(&bool_type);
    let is_and = operator == BinaryOperator::LogicalAnd;
    let deciding = !is_and;
    let (lowered, left) = (low.expression)(cx, st, start, operator_index, expected);
    let (live, destination) = spec_live(lowered, bool_type, span);
    let (first, right_block) = spec_new_block(live);
    let (second, short_block) = spec_new_block(first);
    let (third, join) = spec_new_block(second);
    let branched = if is_and {
        spec_branch(third, left->0.operand, right_block, short_block, span)
    } else {
        spec_branch(third, left->0.operand, short_block, right_block, span)
    };
    let short = State { current: short_block, ..branched };
    let decided = spec_assign(
        short,
        destination,
        Rvalue::Use(Operand::Constant(Constant::Bool(deciding))),
        span,
    );
    let left_off = spec_terminate(decided, TerminatorKind::Goto(join), span);
    let middle = State { current: right_block, ..left_off };
    let (inner, right) = (low.expression)(cx, middle, next(operator_index), end, expected);
    let given = spec_assign(inner, destination, Rvalue::Use(right->0.operand), span);
    let joined = spec_terminate(given, TerminatorKind::Goto(join), span);
    let (after, result) = spec_lower_short_circuit(
        cx,
        st,
        start,
        operator_index,
        end,
        operator,
        low,
    );
    assert(after == (State { current: join, ..joined }));
    assert(grows(middle, inner));
    assert(fits(inner)) by {
        lemma_assign(inner, destination, Rvalue::Use(right->0.operand), span);
        lemma_terminate(given, TerminatorKind::Goto(join), span);
        lemma_set_current(joined, join);
        lemma_growth(joined, after);
        lemma_growth(given, joined);
        lemma_growth(inner, given);
    }
    assert(continues(middle, inner));
    let count = lowered.blocks.len() as int;
    let from = lowered.current.0 as int;
    let done = lowered.blocks[from].statements.len() as int;
    assert(middle.blocks.len() == count + 3);
    assert(inner.blocks.len() <= usize::MAX);
    assert(right_block.0 == count && short_block.0 == count + 1 && join.0 == count + 2);
    // The block behind the left operand.
    assert(has_same_code(middle.blocks[from], inner.blocks[from]));
    assert(after.blocks[from] == inner.blocks[from]);
    assert(middle.blocks[from].statements[done].kind == StatementKind::StorageLive(destination));
    assert(after.blocks[from].statements.len() == done + 1);
    assert(is_same_statement(
        middle.blocks[from].statements[done],
        after.blocks[from].statements[done],
    ));
    // The block in which the left operand has decided.
    assert(has_same_code(middle.blocks[count + 1], inner.blocks[count + 1]));
    assert(after.blocks[count + 1] == inner.blocks[count + 1]);
    assert(is_same_statement(
        middle.blocks[count + 1].statements[0],
        after.blocks[count + 1].statements[0],
    ));
    reveal_with_fuel(reached, 5);
    reveal_with_fuel(chosen, 3);
    assert forall|memory: Memory|
        #![trigger truth_of(left->0.operand, memory)]
        truth_of(left->0.operand, memory) == Some(deciding) implies comes_with(
                    after.blocks,
                    end_of(lowered, memory),
                    after.current,
                    result->0.operand,
                    deciding,
                ) by {
        let one = Point { block: from, done: done + 1, memory };
        let two = Point { block: count + 1, done: 0, memory };
        let kept = stored(memory, whole(destination), deciding);
        let three = Point { block: count + 1, done: 1, memory: kept };
        let last = Point { block: count + 2, done: 0, memory: kept };
        assert(step(after.blocks, end_of(lowered, memory)) == Some(one));
        assert(step(after.blocks, one) == Some(two));
        assert(step(after.blocks, two) == Some(three));
        assert(step(after.blocks, three) == Some(last));
        assert(reached(after.blocks, end_of(lowered, memory), 4) == Some(last));
    }
    assert forall|memory: Memory|
        #![trigger truth_of(left->0.operand, memory)]
        truth_of(left->0.operand, memory) == Some(!deciding) implies exists|steps: nat| #[trigger]
        reached(after.blocks, end_of(lowered, memory), steps) == Some(end_of(middle, memory)) by {
        let one = Point { block: from, done: done + 1, memory };
        let last = Point { block: count, done: 0, memory };
        assert(step(after.blocks, end_of(lowered, memory)) == Some(one));
        assert(step(after.blocks, one) == Some(last));
        assert(reached(after.blocks, end_of(lowered, memory), 2) == Some(last));
    }
    if is_open(inner) {
        assert forall|memory: Memory|
            #![trigger truth_of(right->0.operand, memory)]
            truth_of(right->0.operand, memory) is Some implies comes_with(
                    after.blocks,
                    end_of(inner, memory),
                    after.current,
                    result->0.operand,
                    truth_of(right->0.operand, memory)->0,
                ) by {
            let kept = stored(
                memory,
                whole(destination),
                truth_of(right->0.operand, memory)->0,
            );
            let before = end_of(inner, memory);
            let one = Point { done: before.done + 1, memory: kept, ..before };
            let last = Point { block: count + 2, done: 0, memory: kept };
            assert(step(after.blocks, before) == Some(one));
            assert(step(after.blocks, one) == Some(last));
            assert(reached(after.blocks, before, 2) == Some(last));
        }
    }
    middle
}

/// Whether an execution comes to a point.
pub open spec fn comes_to(blocks: Seq<BlockState>, from: Point, to: Point) -> bool {
    exists|steps: nat| #[trigger] reached(blocks, from, steps) == Some(to)
}

/// The start of a block.
pub open spec fn start_of(block: BasicBlockId, memory: Memory) -> Point {
    Point { block: block.0 as int, done: 0, memory }
}

proof fn lemma_one_step(blocks: Seq<BlockState>, from: Point, to: Point)
    requires
        step(blocks, from) == Some(to),
    ensures
        comes_to(blocks, from, to),
{
    reveal_with_fuel(reached, 2);
    assert(reached(blocks, from, 1) == Some(to));
}

/// In the graph of an `if` statement the condition chooses: where it is true the first branch is
/// executed with nothing changed, and where it is false the other one, or nothing if there is none.
/// Both branches go on behind the statement.
///
/// The returned states are those in which the branches are lowered.
pub proof fn a_condition_chooses_a_branch(cx: &Context, st: State, limit: nat) -> (branches: (
    State,
    State,
))
    requires
        ({
            let close = cx.matching_token(
                next(st.index),
                TokenKind::LeftParen,
                TokenKind::RightParen,
            );
            &&& close is Some
            &&& is_open(spec_condition(cx, st, behind(st.index, 2), close->0, lowering(limit)).0)
            &&& fits(spec_lower_if(cx, st, lowering(limit)))
        }),
    ensures
        ({
            let low = lowering(limit);
            let close = cx.matching_token(
                next(st.index),
                TokenKind::LeftParen,
                TokenKind::RightParen,
            )->0;
            let (tested, condition) = spec_condition(cx, st, behind(st.index, 2), close, low);
            let (first, second) = branches;
            let then_done = (low.statement)(cx, first);
            let else_done = if spec_here(cx, second) == Some(TokenKind::Else) {
                (low.statement)(cx, State { index: next(second.index), ..second })
            } else {
                second
            };
            let after = spec_lower_if(cx, st, low);
            &&& first.index == next(close) && second.index == then_done.index
            &&& after.index == else_done.index
            &&& first.blocks[first.current.0 as int].statements.len() == 0
            &&& second.blocks[second.current.0 as int].statements.len() == 0
            &&& forall|memory: Memory| #[trigger]
                truth_of(condition, memory) == Some(true) ==> comes_to(
                    after.blocks,
                    end_of(tested, memory),
                    start_of(first.current, memory),
                )
            &&& forall|memory: Memory| #[trigger]
                truth_of(condition, memory) == Some(false) ==> comes_to(
                    after.blocks,
                    end_of(tested, memory),
                    start_of(second.current, memory),
                )
            &&& is_open(then_done) ==> forall|memory: Memory| #[trigger]
                comes_to(
                    after.blocks,
                    end_of(then_done, memory),
                    start_of(after.current, memory),
                )
            &&& is_open(else_done) ==> forall|memory: Memory| #[trigger]
                comes_to(
                    after.blocks,
                    end_of(else_done, memory),
                    start_of(after.current, memory),
                )
        }),
{
    broadcast use lemma_growth;

    let low = lowering(limit);
    lowering_continues_graphs(limit);
    lemma_lowering(limit);
    reveal(spec_lower_if);
    reveal(spec_branch);
    reveal(spec_terminate);
    reveal(spec_new_block);
    reveal(spec_continue_at);
    reveal(spec_is_open);
    reveal(continues);
    reveal_with_fuel(chosen, 3);
    let start = st.index;
    let span = cx.span_at(start);
    let close = cx.matching_token(next(start), TokenKind::LeftParen, TokenKind::RightParen)->0;
    let (tested, condition) = spec_condition(cx, st, behind(start, 2), close, low);
    let moved = State { index: next(close), ..tested };
    let (one, then_block) = spec_new_block(moved);
    let (two, else_block) = spec_new_block(one);
    let (three, join) = spec_new_block(two);
    let branched = spec_branch(three, condition, then_block, else_block, span);
    let first = State { current: then_block, ..branched };
    let then_done = (low.statement)(cx, first);
    let then_left = spec_continue_at(then_done, join, span);
    let second = State { current: else_block, ..then_left };
    let other = State { index: next(second.index), ..second };
    let has_else = spec_here(cx, second) == Some(TokenKind::Else);
    let else_done = if has_else {
        (low.statement)(cx, other)
    } else {
        second
    };
    let else_left = spec_continue_at(else_done, join, span);
    let after = spec_lower_if(cx, st, low);
    assert(after == (State { current: join, ..else_left }));
    lemma_set_current(else_left, join);
    lemma_continue_at(else_done, join, span);
    lemma_set_index(second, next(second.index));
    lemma_set_current(then_left, else_block);
    lemma_continue_at(then_done, join, span);
    assert(fits(else_left) && fits(else_done));
    if has_else {
        assert(grows(other, else_done));
        assert(fits(other));
        assert(continues(other, else_done));
    } else {
        lemma_continues_itself(second);
    }
    assert(fits(second)) by {
        lemma_grows_itself(second);
    }
    assert(fits(then_left) && fits(then_done));
    assert(continues(first, then_done));
    let before = if has_else {
        other
    } else {
        second
    };
    assert(continues(before, else_done));
    let from = tested.current.0 as int;
    let count = tested.blocks.len() as int;
    assert(first.blocks.len() == count + 3);
    assert(after.blocks.len() <= usize::MAX) by {
        reveal(fits);
    }
    assert(then_block.0 == count && else_block.0 == count + 1 && join.0 == count + 2);
    // The block behind the condition.
    assert(has_same_code(first.blocks[from], then_done.blocks[from]));
    assert(then_left.blocks[from] == then_done.blocks[from]);
    assert(has_same_code(before.blocks[from], else_done.blocks[from]));
    assert(after.blocks[from] == else_done.blocks[from]);
    assert(after.blocks[from].terminator == branched.blocks[from].terminator);
    assert(after.blocks[from].statements.len() == tested.blocks[from].statements.len());
    assert forall|memory: Memory| #[trigger]
        truth_of(condition, memory) == Some(true) implies comes_to(
        after.blocks,
        end_of(tested, memory),
        start_of(first.current, memory),
    ) by {
        lemma_one_step(after.blocks, end_of(tested, memory), start_of(first.current, memory));
    }
    assert forall|memory: Memory| #[trigger]
        truth_of(condition, memory) == Some(false) implies comes_to(
        after.blocks,
        end_of(tested, memory),
        start_of(second.current, memory),
    ) by {
        lemma_one_step(after.blocks, end_of(tested, memory), start_of(second.current, memory));
    }
    // The block of the second branch is still empty when that is lowered.
    assert(has_same_code(first.blocks[count + 1], then_done.blocks[count + 1]));
    if is_open(then_done) {
        let end = then_done.current.0 as int;
        assert(end != count + 1);
        assert(has_same_code(before.blocks[end], else_done.blocks[end]));
        assert(after.blocks[end] == else_done.blocks[end]);
        assert forall|memory: Memory| #[trigger]
            comes_to(after.blocks, end_of(then_done, memory), start_of(after.current, memory)) by {
            lemma_one_step(
                after.blocks,
                end_of(then_done, memory),
                start_of(after.current, memory),
            );
        }
    }
    if is_open(else_done) {
        assert forall|memory: Memory| #[trigger]
            comes_to(after.blocks, end_of(else_done, memory), start_of(after.current, memory)) by {
            lemma_one_step(
                after.blocks,
                end_of(else_done, memory),
                start_of(after.current, memory),
            );
        }
    }
    (first, second)
}

/// In the graph of a `while` statement the condition is tested first. Where it is true the body is
/// executed with nothing changed, behind which the condition is tested again, and where it is false
/// the graph goes on behind the statement.
///
/// The returned states are those in which the condition and the body are lowered.
pub proof fn a_loop_goes_on_while_its_condition_holds(
    cx: &Context,
    st: State,
    limit: nat,
) -> (parts: (State, State))
    requires
        cx.matching_token(
            next(st.index),
            TokenKind::LeftParen,
            TokenKind::RightParen,
        ) is Some,
        is_open(st),
        fits(spec_lower_while(cx, st, lowering(limit))),
    ensures
        ({
            let low = lowering(limit);
            let close = cx.matching_token(
                next(st.index),
                TokenKind::LeftParen,
                TokenKind::RightParen,
            )->0;
            let (test, body) = parts;
            let (tested, condition) = spec_condition(cx, test, behind(st.index, 2), close, low);
            let body_done = (low.statement)(cx, body);
            let after = spec_lower_while(cx, st, low);
            &&& body.index == next(close) && after.index == body_done.index
            &&& test.blocks[test.current.0 as int].statements.len() == 0
            &&& body.blocks[body.current.0 as int].statements.len() == 0
            &&& forall|memory: Memory| #[trigger]
                comes_to(after.blocks, end_of(st, memory), start_of(test.current, memory))
            &&& is_open(tested) ==> forall|memory: Memory| #[trigger]
                truth_of(condition, memory) == Some(true) ==> comes_to(
                    after.blocks,
                    end_of(tested, memory),
                    start_of(body.current, memory),
                )
            &&& is_open(tested) ==> forall|memory: Memory| #[trigger]
                truth_of(condition, memory) == Some(false) ==> comes_to(
                    after.blocks,
                    end_of(tested, memory),
                    start_of(after.current, memory),
                )
            &&& is_open(body_done) ==> forall|memory: Memory| #[trigger]
                comes_to(
                    after.blocks,
                    end_of(body_done, memory),
                    start_of(test.current, memory),
                )
        }),
{
    broadcast use lemma_growth;

    let low = lowering(limit);
    lowering_continues_graphs(limit);
    lemma_lowering(limit);
    reveal(spec_lower_while);
    reveal(spec_lower_loop_body);
    reveal(spec_condition);
    reveal(spec_branch);
    reveal(spec_terminate);
    reveal(spec_new_block);
    reveal(spec_continue_at);
    reveal(spec_is_open);
    reveal(spec_push_loop);
    reveal(spec_pop_loop);
    reveal(continues);
    reveal_with_fuel(chosen, 3);
    let start = st.index;
    let span = cx.span_at(start);
    let close = cx.matching_token(next(start), TokenKind::LeftParen, TokenKind::RightParen)->0;
    let (one, test_block) = spec_new_block(st);
    let (two, body_block) = spec_new_block(one);
    let (three, exit_block) = spec_new_block(two);
    let entered = spec_terminate(three, TerminatorKind::Goto(test_block), span);
    let test = State { current: test_block, ..entered };
    let (tested, condition) = spec_condition(cx, test, behind(start, 2), close, low);
    let branched = spec_branch(tested, condition, body_block, exit_block, span);
    let inside = State { current: body_block, ..branched };
    let placed = State { index: next(close), ..inside };
    let body = spec_push_loop(placed, test_block, exit_block);
    let body_done = (low.statement)(cx, body);
    let popped = spec_pop_loop(body_done);
    let left = spec_continue_at(popped, test_block, span);
    let after = spec_lower_while(cx, st, low);
    assert(after == (State { current: exit_block, ..left }));
    lemma_set_current(left, exit_block);
    lemma_continue_at(popped, test_block, span);
    lemma_pop_loop(body_done);
    lemma_push_loop(placed, test_block, exit_block);
    lemma_set_index(inside, next(close));
    lemma_set_current(branched, body_block);
    lemma_branch(tested, condition, body_block, exit_block, span);
    assert(fits(left) && fits(popped) && fits(body_done));
    assert(grows(body, body_done));
    assert(fits(body) && fits(placed) && fits(inside) && fits(branched) && fits(tested));
    assert(continues(body, body_done));
    assert(continues(test, tested));
    let from = st.current.0 as int;
    let count = st.blocks.len() as int;
    assert(test.blocks.len() == count + 3);
    assert(after.blocks.len() <= usize::MAX) by {
        reveal(fits);
    }
    assert(test_block.0 == count && body_block.0 == count + 1 && exit_block.0 == count + 2);
    // The block before the statement.
    assert(has_same_code(test.blocks[from], tested.blocks[from]));
    assert(body.blocks[from] == tested.blocks[from]);
    assert(has_same_code(body.blocks[from], body_done.blocks[from]));
    assert(after.blocks[from] == body_done.blocks[from]);
    assert forall|memory: Memory| #[trigger]
        comes_to(after.blocks, end_of(st, memory), start_of(test.current, memory)) by {
        lemma_one_step(after.blocks, end_of(st, memory), start_of(test.current, memory));
    }
    // The block of the body is still empty when that is lowered.
    assert(has_same_code(test.blocks[count + 1], tested.blocks[count + 1]));
    if is_open(tested) {
        let end = tested.current.0 as int;
        assert(end != count + 1);
        assert(has_same_code(body.blocks[end], body_done.blocks[end]));
        assert(after.blocks[end] == body_done.blocks[end]);
        assert forall|memory: Memory| #[trigger]
            truth_of(condition, memory) == Some(true) implies comes_to(
            after.blocks,
            end_of(tested, memory),
            start_of(body.current, memory),
        ) by {
            lemma_one_step(after.blocks, end_of(tested, memory), start_of(body.current, memory));
        }
        assert forall|memory: Memory| #[trigger]
            truth_of(condition, memory) == Some(false) implies comes_to(
            after.blocks,
            end_of(tested, memory),
            start_of(after.current, memory),
        ) by {
            lemma_one_step(after.blocks, end_of(tested, memory), start_of(after.current, memory));
        }
    }
    if is_open(body_done) {
        assert forall|memory: Memory| #[trigger]
            comes_to(after.blocks, end_of(body_done, memory), start_of(test.current, memory)) by {
            lemma_one_step(
                after.blocks,
                end_of(body_done, memory),
                start_of(test.current, memory),
            );
        }
    }
    (test, body)
}

/// In the graph of `condition ? first : second` the condition chooses: where it is true the first
/// operand is executed with nothing changed, and where it is false the second. The graph goes on with
/// the value of the operand that was executed as the result, where that needs no conversion.
///
/// The returned states are those in which the two operands are lowered.
pub proof fn a_condition_chooses_a_value(
    cx: &Context,
    st: State,
    start: usize,
    marks: ConditionalAt,
    end: usize,
    expected: Option<&Type>,
    limit: nat,
) -> (operands: (State, State))
    requires
        ({
            let low = lowering(limit);
            let bool_type = primitive(PrimitiveType::Bool);
            let after = spec_lower_conditional(cx, st, start, marks, end, expected, low);
            &&& is_open((low.expression)(cx, st, start, marks.question, Some(&bool_type)).0)
            &&& after.1 is Some
            &&& fits(after.0)
        }),
    ensures
        ({
            let low = lowering(limit);
            let bool_type = primitive(PrimitiveType::Bool);
            let (after, result) = spec_lower_conditional(
                cx,
                st,
                start,
                marks,
                end,
                expected,
                low,
            );
            let (tested, condition) = (low.expression)(
                cx,
                st,
                start,
                marks.question,
                Some(&bool_type),
            );
            let (first, second) = operands;
            let ty = result->0.ty;
            let (one, left) = (low.expression)(
                cx,
                first,
                next(marks.question),
                marks.colon,
                Some(&ty),
            );
            let (two, right) = (low.expression)(cx, second, next(marks.colon), end, Some(&ty));
            &&& condition is Some && left is Some && right is Some
            &&& first.blocks[first.current.0 as int].statements.len() == 0
            &&& second.blocks[second.current.0 as int].statements.len() == 0
            &&& forall|memory: Memory| #[trigger]
                truth_of(condition->0.operand, memory) == Some(true) ==> comes_to(
                    after.blocks,
                    end_of(tested, memory),
                    start_of(first.current, memory),
                )
            &&& forall|memory: Memory| #[trigger]
                truth_of(condition->0.operand, memory) == Some(false) ==> comes_to(
                    after.blocks,
                    end_of(tested, memory),
                    start_of(second.current, memory),
                )
            &&& is_open(one) && same_type(&left->0.ty, &ty) ==> forall|memory: Memory| #[trigger]
                truth_of(left->0.operand, memory) is Some ==> comes_with(
                    after.blocks,
                    end_of(one, memory),
                    after.current,
                    result->0.operand,
                    truth_of(left->0.operand, memory)->0,
                )
            &&& is_open(two) && same_type(&right->0.ty, &ty) ==> forall|memory: Memory| #[trigger]
                truth_of(right->0.operand, memory) is Some ==> comes_with(
                    after.blocks,
                    end_of(two, memory),
                    after.current,
                    result->0.operand,
                    truth_of(right->0.operand, memory)->0,
                )
        }),
{
    broadcast use lemma_growth;

    let low = lowering(limit);
    lowering_continues_graphs(limit);
    lemma_lowering(limit);
    reveal(spec_lower_conditional);
    reveal(spec_lower_choice);
    reveal(spec_live);
    reveal(spec_temporary);
    reveal(spec_assign);
    reveal(spec_statement);
    reveal(spec_branch);
    reveal(spec_terminate);
    reveal(spec_new_block);
    reveal(continues);
    reveal_with_fuel(chosen, 3);
    reveal_with_fuel(reached, 3);
    let span = cx.span_at(marks.question);
    let bool_type = primitive(PrimitiveType::Bool);
    let (tested, condition) = (low.expression)(cx, st, start, marks.question, Some(&bool_type));
    let (after, result) = spec_lower_conditional(cx, st, start, marks, end, expected, low);
    let ty = result->0.ty;
    let (live, destination) = spec_live(tested, ty, span);
    let (made, then_block) = spec_new_block(live);
    let (more, else_block) = spec_new_block(made);
    let (most, join) = spec_new_block(more);
    let branched = spec_branch(most, condition->0.operand, then_block, else_block, span);
    let first = State { current: then_block, ..branched };
    let left_span = cx.span_at(next(marks.question));
    let (one, left) = (low.expression)(
        cx,
        first,
        next(marks.question),
        marks.colon,
        Some(&ty),
    );
    let left_value = converted(left->0.operand, &left->0.ty, &ty);
    let left_given = spec_assign(one, destination, left_value, left_span);
    let left_done = spec_terminate(left_given, TerminatorKind::Goto(join), left_span);
    let second = State { current: else_block, ..left_done };
    let right_span = cx.span_at(next(marks.colon));
    let (two, right) = (low.expression)(cx, second, next(marks.colon), end, Some(&ty));
    let right_value = converted(right->0.operand, &right->0.ty, &ty);
    let right_given = spec_assign(two, destination, right_value, right_span);
    let right_done = spec_terminate(right_given, TerminatorKind::Goto(join), right_span);
    assert(after == (State { current: join, ..right_done }));
    lemma_set_current(right_done, join);
    lemma_terminate(right_given, TerminatorKind::Goto(join), right_span);
    lemma_assign(two, destination, right_value, right_span);
    assert(fits(right_done) && fits(right_given) && fits(two));
    assert(grows(second, two));
    lemma_set_current(left_done, else_block);
    lemma_terminate(left_given, TerminatorKind::Goto(join), left_span);
    lemma_assign(one, destination, left_value, left_span);
    assert(fits(second) && fits(left_done) && fits(left_given) && fits(one));
    assert(continues(first, one));
    assert(continues(second, two));
    let from = tested.current.0 as int;
    let count = tested.blocks.len() as int;
    let done = tested.blocks[from].statements.len() as int;
    assert(first.blocks.len() == count + 3);
    assert(after.blocks.len() <= usize::MAX) by {
        reveal(fits);
    }
    assert(then_block.0 == count && else_block.0 == count + 1 && join.0 == count + 2);
    // The block behind the condition.
    assert(has_same_code(first.blocks[from], one.blocks[from]));
    assert(second.blocks[from] == one.blocks[from]);
    assert(has_same_code(second.blocks[from], two.blocks[from]));
    assert(after.blocks[from] == two.blocks[from]);
    assert(after.blocks[from].terminator == branched.blocks[from].terminator);
    assert(first.blocks[from].statements[done].kind == StatementKind::StorageLive(destination));
    assert(is_same_statement(
        first.blocks[from].statements[done],
        second.blocks[from].statements[done],
    ));
    assert(is_same_statement(
        second.blocks[from].statements[done],
        after.blocks[from].statements[done],
    ));
    assert forall|memory: Memory| #[trigger]
        truth_of(condition->0.operand, memory) is Some implies comes_to(
        after.blocks,
        end_of(tested, memory),
        start_of(
            if truth_of(condition->0.operand, memory)->0 {
                first.current
            } else {
                second.current
            },
            memory,
        ),
    ) by {
        let between = Point { block: from, done: done + 1, memory };
        let last = start_of(
            if truth_of(condition->0.operand, memory)->0 {
                first.current
            } else {
                second.current
            },
            memory,
        );
        assert(step(after.blocks, end_of(tested, memory)) == Some(between));
        assert(step(after.blocks, between) == Some(last));
        assert(reached(after.blocks, end_of(tested, memory), 2) == Some(last));
    }
    // The block of the second operand is still empty when that is lowered.
    assert(has_same_code(first.blocks[count + 1], one.blocks[count + 1]));
    if is_open(one) && same_type(&left->0.ty, &ty) {
        let place = one.current.0 as int;
        let there = one.blocks[place].statements.len() as int;
        assert(place != count + 1);
        assert(has_same_code(second.blocks[place], two.blocks[place]));
        assert(after.blocks[place] == two.blocks[place]);
        assert(is_same_statement(
            second.blocks[place].statements[there],
            after.blocks[place].statements[there],
        ));
        lemma_result(after.blocks, end_of_block(one), destination, left->0.operand, join);
        assert forall|memory: Memory| #[trigger]
            truth_of(left->0.operand, memory) is Some implies comes_with(
            after.blocks,
            end_of(one, memory),
            after.current,
            result->0.operand,
            truth_of(left->0.operand, memory)->0,
        ) by {}
    }
    if is_open(two) && same_type(&right->0.ty, &ty) {
        lemma_result(after.blocks, end_of_block(two), destination, right->0.operand, join);
        assert forall|memory: Memory| #[trigger]
            truth_of(right->0.operand, memory) is Some implies comes_with(
            after.blocks,
            end_of(two, memory),
            after.current,
            result->0.operand,
            truth_of(right->0.operand, memory)->0,
        ) by {}
    }
    (first, second)
}

/// The block and the number of statements where a graph goes on.
spec fn end_of_block(st: State) -> (int, int) {
    (st.current.0 as int, st.blocks[st.current.0 as int].statements.len() as int)
}

proof fn lemma_result(
    blocks: Seq<BlockState>,
    place: (int, int),
    destination: LocalId,
    operand: Operand,
    join: BasicBlockId,
)
    requires
        0 <= place.0 < blocks.len(),
        blocks[place.0].statements.len() == place.1 + 1,
        0 <= place.1,
        blocks[place.0].statements[place.1].kind == StatementKind::Assign(
            whole(destination),
            Rvalue::Use(operand),
        ),
        blocks[place.0].terminator is Some,
        blocks[place.0].terminator->0.kind == TerminatorKind::Goto(join),
    ensures
        forall|memory: Memory| #[trigger]
            truth_of(operand, memory) is Some ==> comes_with(
                blocks,
                Point { block: place.0, done: place.1, memory },
                join,
                Operand::Move(whole(destination)),
                truth_of(operand, memory)->0,
            ),
{
    reveal_with_fuel(reached, 3);
    assert forall|memory: Memory| #[trigger]
        truth_of(operand, memory) is Some implies comes_with(
        blocks,
        Point { block: place.0, done: place.1, memory },
        join,
        Operand::Move(whole(destination)),
        truth_of(operand, memory)->0,
    ) by {
        let value = truth_of(operand, memory)->0;
        let before = Point { block: place.0, done: place.1, memory };
        let kept = stored(memory, whole(destination), value);
        let one = Point { block: place.0, done: place.1 + 1, memory: kept };
        let last = start_of(join, kept);
        assert(step(blocks, before) == Some(one));
        assert(step(blocks, one) == Some(last));
        assert(reached(blocks, before, 2) == Some(last));
    }
}

} // verus!
