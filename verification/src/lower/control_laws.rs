//! Which code runs where lowering branches, loops and switches.
//!
//! Every law is about the states of lowering between the tasks of a construct.
//! What is built in between is any code that leaves alone the blocks which the
//! construct still needs.

use crate::hir::{Lit, SwitchCase};
use crate::lower::control::{
    arm_ended, arms_begun, for_body_begun, for_body_branched, if_begun, loop_begun,
    short_circuit_ended, slice_arm_stored, slice_result, terminated, word_arm_stored, word_result,
};
use crate::lower::control::{and_begun, or_begun};
use crate::lower::handlers::{cases_begun, literal_or_error};
use crate::lower::machine::{top, Control, Scene, StepView};
use crate::lower::machine_control::{arms_step, loop_step};
use crate::lower::names::literal;
use crate::lower::objects::left_word;
use crate::lower::plan::{ArmKind, Task};
use crate::lower::state::Lowerer;
use crate::mir::bits::{lemma_other_word, lemma_stored_word};
use crate::mir::builder::{
    blocked, constant, emitted, ended, group_builder_steps, moved, valued, word, BuilderView,
};
use crate::mir::function::{has_block, next_block, next_inst, next_value, FunctionView};
use crate::mir::inst::{inst, KindView, Op, TermView};
use crate::mir::meaning::{
    chosen, held, incoming_value, leads, performed, truth_word, with_word, word_at, word_in,
    words_in, Datum, Frame, Outcome, Spot,
};
use crate::mir::runs::{
    ends_at, group_growth, group_spots, grows, is_open, known_by, lemma_grows_further,
    lemma_held_kept, lemma_held_stored, lemma_leads_ended, lemma_leads_next, lemma_leads_on,
    lemma_leads_stored, lemma_runs_nothing, lemma_runs_result, length, runs, storing, undisturbed,
};
use crate::mir::types::{BlockId, Immediate, MirType, SliceLocation, Value, ValueId};
use crate::word::{be_value, word_modulus, word_of};
use vstd::prelude::*;

verus! {

/// Whether a block is open and empty.
pub open spec fn waits(func: FunctionView, block: BlockId) -> bool {
    is_open(func, block) && length(func, block) == 0
}

/// Whether the code after a state is built on what was there, inside the same
/// constructs, and the state after it is not in a block that waits.
pub open spec fn built_on(before: Scene, after: Scene) -> bool {
    grows(before.b.func, after.b.func) && after.control == before.control
}

/// Whether a block waits and is not the one that is being built.
pub open spec fn is_left_alone(s: Scene, block: BlockId) -> bool {
    waits(s.b.func, block) && s.b.block != block
}

/// The spot at the start of a block.
pub open spec fn start_of(block: BlockId, came: BlockId, frame: Frame) -> Spot {
    Spot { block, index: 0, came, frame }
}

/// The spot at the end of what is built, as a place to get to.
pub open spec fn at_end(s: Scene, came: BlockId, frame: Frame) -> Outcome {
    Outcome::At(ends_at(s.b, came, frame))
}

/// A store of a word and a jump.
proof fn lemma_word_arm(
    b: BuilderView,
    value: ValueId,
    merge: BlockId,
    f: FunctionView,
    came: BlockId,
    frame: Frame,
) -> (to: Frame)
    requires
        is_open(b.func, b.block),
        grows(word_arm_stored(b, value, merge).func, f),
    ensures
        to == (Frame { memory: with_word(frame.memory, 0, word_in(f, frame, value)), ..frame }),
        leads(
            f,
            ends_at(b, came, frame),
            Outcome::At(start_of(merge, b.block, to)),
        ),
{
    broadcast use {group_growth, group_builder_steps, group_spots};

    reveal(word_arm_stored);
    let slot = next_value(b.func);
    let b1 = constant(b, word(0));
    let kind = inst(Op::MStore, seq![slot, value]);
    let b2 = emitted(b1, kind, None);
    let to = Frame { memory: with_word(frame.memory, 0, word_in(f, frame, value)), ..frame };
    let there = start_of(merge, b.block, to);
    assert(grows(b2.func, f));
    assert(words_in(f, frame, seq![slot, value])[0] == 0);
    assert(words_in(f, frame, seq![slot, value])[1] == word_in(f, frame, value));
    assert(performed(f, frame, came, next_inst(b1.func), kind) == Some(to));
    lemma_leads_next(f, ends_at(b1, came, frame), Outcome::At(ends_at(b2, came, to)));
    lemma_leads_ended(f, b2, TermView::Jump(merge), came, to, Outcome::At(there));
    lemma_leads_on(f, ends_at(b, came, frame), ends_at(b2, came, to), Outcome::At(there));
    to
}

/// A load of the word that an arm left.
proof fn lemma_word_result(
    b: BuilderView,
    merge: BlockId,
    f: FunctionView,
    came: BlockId,
    frame: Frame,
) -> (to: Frame)
    requires
        is_open(b.func, merge),
        grows(word_result(b, merge).0.func, f),
    ensures
        runs(f, moved(b, merge), word_result(b, merge).0, came, frame, to),
        word_in(f, to, word_result(b, merge).1) == word_at(frame.memory, 0),
{
    broadcast use {group_growth, group_builder_steps, group_spots};

    reveal(word_result);
    let b0 = moved(b, merge);
    let slot = next_value(b0.func);
    let b1 = constant(b0, word(0));
    lemma_runs_nothing(f, b0, came, frame);
    assert(words_in(f, frame, seq![slot])[0] == 0);
    lemma_runs_result(
        f,
        b0,
        b1,
        inst(Op::MLoad, seq![slot]),
        Some(MirType::uint256()),
        came,
        frame,
        frame,
        Datum::Word(word_at(frame.memory, 0)),
    )
}

/// A conditional expression evaluates its first arm where its condition is not
/// zero and its second arm where it is, and gives the word of the arm that was
/// evaluated.
pub proof fn law_conditional<'t>(
    lowerer: Lowerer,
    start: Scene,
    first: Scene,
    first_done: Scene,
    second: Scene,
    second_done: Scene,
    end: Scene,
    f: FunctionView,
    came: BlockId,
    frame: Frame,
) -> (r: (Frame, Frame))
    requires
        arms_step(start, lowerer, Task::<'t>::ArmsBegin) == StepView::Done(first),
        built_on(first, first_done),
        arms_step(first_done, lowerer, Task::<'t>::ArmEnd(ArmKind::Word, false)) == StepView::Done(
            second,
        ),
        built_on(second, second_done),
        arms_step(second_done, lowerer, Task::<'t>::ArmEnd(ArmKind::Word, true)) == StepView::Done(
            end,
        ),
        is_open(start.b.func, start.b.block),
        is_open(first_done.b.func, first_done.b.block),
        is_open(second_done.b.func, second_done.b.block),
        first.control.last() matches Control::Arms(other, merge) && is_left_alone(first_done, other)
            && is_left_alone(first_done, merge) && is_left_alone(second_done, merge) && other
            != merge,
        grows(end.b.func, f),
    ensures
        leads(
            f,
            ends_at(start.b, came, frame),
            at_end(
                if word_in(f, frame, top(start.values, 0)) != 0 {
                    first
                } else {
                    second
                },
                start.b.block,
                frame,
            ),
        ),
        leads(
            f,
            ends_at(first_done.b, came, frame),
            at_end(end, first_done.b.block, r.0),
        ),
        word_in(f, frame, top(first_done.values, 0)) < word_modulus() ==> word_in(
            f,
            r.0,
            top(end.values, 0),
        ) == word_in(f, frame, top(first_done.values, 0)),
        leads(
            f,
            ends_at(second_done.b, came, frame),
            at_end(end, second_done.b.block, r.1),
        ),
        word_in(f, frame, top(second_done.values, 0)) < word_modulus() ==> word_in(
            f,
            r.1,
            top(end.values, 0),
        ) == word_in(f, frame, top(second_done.values, 0)),
{
    broadcast use {group_growth, group_builder_steps, group_spots};

    let other = first.control.last()->Arms_0;
    let merge = first.control.last()->Arms_1;
    let v1 = top(first_done.values, 0);
    let v2 = top(second_done.values, 0);
    // Everything is in what grows out of the end.
    let stored2 = word_arm_stored(second_done.b, v2, merge);
    assert(grows(stored2.func, f) && waits(stored2.func, merge)) by {
        reveal(word_result);
        reveal(word_arm_stored);
    }
    assert(grows(second_done.b.func, f)) by {
        reveal(word_arm_stored);
    }
    lemma_grows_further(second.b.func, second_done.b.func, f);
    let stored1 = word_arm_stored(first_done.b, v1, merge);
    assert(second.b == moved(stored1, other));
    assert(grows(first_done.b.func, f) && waits(second.b.func, other)) by {
        reveal(word_arm_stored);
    }
    lemma_grows_further(first.b.func, first_done.b.func, f);
    // The branch.
    assert(leads(
        f,
        ends_at(start.b, came, frame),
        at_end(
            if word_in(f, frame, top(start.values, 0)) != 0 {
                first
            } else {
                second
            },
            start.b.block,
            frame,
        ),
    )) by {
        reveal(arms_begun);
        let cond = top(start.values, 0);
        let b1 = blocked(start.b);
        let b2 = blocked(b1);
        let b3 = blocked(b2);
        let branch = TermView::Branch {
            condition: cond,
            then_block: next_block(start.b.func),
            else_block: next_block(b1.func),
        };
        assert(ends_at(b3, came, frame) == ends_at(start.b, came, frame));
        lemma_leads_ended(
            f,
            b3,
            branch,
            came,
            frame,
            at_end(
                if word_in(f, frame, cond) != 0 {
                    first
                } else {
                    second
                },
                start.b.block,
                frame,
            ),
        );
    }
    // The arms.
    let at_merge = moved(stored2, merge);
    let m1 = lemma_word_arm(first_done.b, v1, merge, f, came, frame);
    let to1 = lemma_word_result(stored2, merge, f, first_done.b.block, m1);
    lemma_leads_on(
        f,
        ends_at(first_done.b, came, frame),
        ends_at(at_merge, first_done.b.block, m1),
        at_end(end, first_done.b.block, to1),
    );
    let m2 = lemma_word_arm(second_done.b, v2, merge, f, came, frame);
    let to2 = lemma_word_result(stored2, merge, f, second_done.b.block, m2);
    lemma_leads_on(
        f,
        ends_at(second_done.b, came, frame),
        ends_at(at_merge, second_done.b.block, m2),
        at_end(end, second_done.b.block, to2),
    );
    if word_in(f, frame, v1) < word_modulus() {
        lemma_stored_word(frame.memory, 0, word_in(f, frame, v1));
    }
    if word_in(f, frame, v2) < word_modulus() {
        lemma_stored_word(frame.memory, 0, word_in(f, frame, v2));
    }
    (to1, to2)
}

/// The slice that an arm ends with is the one that is taken up where the arms meet.
pub proof fn law_slice_carried(
    b: BuilderView,
    value: ValueId,
    merge: BlockId,
    rest: BuilderView,
    location: SliceLocation,
    f: FunctionView,
    came: BlockId,
    frame: Frame,
) -> (to: Frame)
    requires
        is_open(b.func, b.block),
        grows(slice_arm_stored(b, value, merge).func, f),
        known_by(f, value, b.func.insts.len()),
        held(f, frame, value) matches Datum::Slice(ptr, len) && ptr < word_modulus() && len
            < word_modulus(),
        waits(rest.func, merge),
        grows(slice_result(rest, merge, location).0.func, f),
    ensures
        leads(
            f,
            ends_at(b, came, frame),
            Outcome::At(ends_at(slice_result(rest, merge, location).0, b.block, to)),
        ),
        held(f, to, slice_result(rest, merge, location).1) == held(f, frame, value),
{
    broadcast use {
        group_growth,
        group_builder_steps,
        group_spots,
        lemma_held_kept,
        lemma_held_stored,
    };

    reveal(slice_arm_stored);
    reveal(slice_result);
    let ty = Some(MirType::uint256());
    let (p, n) = (held(f, frame, value)->Slice_0, held(f, frame, value)->Slice_1);
    // The arm.
    let ptr = next_value(b.func);
    let b1 = emitted(b, inst(Op::SlicePtr, seq![value]), ty);
    let len = next_value(b1.func);
    let b2 = emitted(b1, inst(Op::SliceLen, seq![value]), ty);
    let ptr_slot = next_value(b2.func);
    let b3 = constant(b2, word(0));
    let b4 = emitted(b3, inst(Op::MStore, seq![ptr_slot, ptr]), None);
    let len_slot = next_value(b4.func);
    let b5 = constant(b4, word(32));
    let b6 = emitted(b5, inst(Op::MStore, seq![len_slot, len]), None);
    lemma_runs_nothing(f, b, came, frame);
    let f1 = lemma_runs_result(
        f,
        b,
        b,
        inst(Op::SlicePtr, seq![value]),
        ty,
        came,
        frame,
        frame,
        Datum::Word(p),
    );
    let f2 = lemma_runs_result(
        f,
        b,
        b1,
        inst(Op::SliceLen, seq![value]),
        ty,
        came,
        frame,
        f1,
        Datum::Word(n),
    );
    assert(word_in(f, f2, ptr) == p && word_in(f, f2, len) == n);
    assert(word_in(f, f2, ptr_slot) == 0);
    lemma_leads_stored(f, b3, ptr_slot, ptr, came, f2);
    let f3 = storing(f2, 0, p);
    assert(word_in(f, f3, len) == n && word_in(f, f3, len_slot) == 32);
    lemma_leads_stored(f, b5, len_slot, len, came, f3);
    let f4 = storing(f3, 32, n);
    let there = start_of(merge, b.block, f4);
    lemma_leads_ended(f, b6, TermView::Jump(merge), came, f4, Outcome::At(there));
    lemma_leads_on(
        f,
        ends_at(b, came, frame),
        ends_at(b2, came, f2),
        Outcome::At(ends_at(b4, came, f3)),
    );
    lemma_leads_on(
        f,
        ends_at(b, came, frame),
        ends_at(b4, came, f3),
        Outcome::At(ends_at(b6, came, f4)),
    );
    lemma_leads_on(f, ends_at(b, came, frame), ends_at(b6, came, f4), Outcome::At(there));
    // What it left.
    let r0 = moved(rest, merge);
    let first_slot = next_value(r0.func);
    let r1 = constant(r0, word(0));
    let first = next_value(r1.func);
    let r2 = emitted(r1, inst(Op::MLoad, seq![first_slot]), ty);
    let second_slot = next_value(r2.func);
    let r3 = constant(r2, word(32));
    let second = next_value(r3.func);
    let r4 = emitted(r3, inst(Op::MLoad, seq![second_slot]), ty);
    lemma_runs_nothing(f, r0, b.block, f4);
    lemma_stored_word(f3.memory, 32, n);
    lemma_other_word(f3.memory, 32, n, 0);
    lemma_stored_word(f2.memory, 0, p);
    assert(words_in(f, f4, seq![first_slot])[0] == 0);
    let g1 = lemma_runs_result(
        f,
        r0,
        r1,
        inst(Op::MLoad, seq![first_slot]),
        ty,
        b.block,
        f4,
        f4,
        Datum::Word(p),
    );
    assert(words_in(f, g1, seq![second_slot])[0] == 32);
    assert(g1.memory == f4.memory) by {
        reveal(undisturbed);
    }
    let g2 = lemma_runs_result(
        f,
        r0,
        r3,
        inst(Op::MLoad, seq![second_slot]),
        ty,
        b.block,
        f4,
        g1,
        Datum::Word(n),
    );
    assert(words_in(f, g2, seq![first, second])[0] == p);
    assert(words_in(f, g2, seq![first, second])[1] == n);
    let to = lemma_runs_result(
        f,
        r0,
        r4,
        inst(Op::MakeSlice { location }, seq![first, second]),
        Some(MirType::Slice(location)),
        b.block,
        f4,
        g2,
        Datum::Slice(p, n),
    );
    lemma_leads_on(
        f,
        ends_at(b, came, frame),
        ends_at(r0, b.block, f4),
        Outcome::At(ends_at(slice_result(rest, merge, location).0, b.block, to)),
    );
    to
}

/// A run goes on to where an arm ends, if it gets to the end of the arm.
proof fn lemma_arm_ended(
    b: BuilderView,
    target: BlockId,
    f: FunctionView,
    came: BlockId,
    frame: Frame,
)
    requires
        is_open(b.func, b.block),
        grows(arm_ended(b, target).func, f),
    ensures
        grows(b.func, f),
        leads(
            f,
            ends_at(b, came, frame),
            Outcome::At(start_of(target, b.block, frame)),
        ),
{
    broadcast use {group_growth, group_builder_steps};

    assert(!terminated(b)) by {
        reveal(is_open);
    }
    lemma_leads_ended(
        f,
        b,
        TermView::Jump(target),
        came,
        frame,
        Outcome::At(start_of(target, b.block, frame)),
    );
}

/// Ending an arm keeps what waits.
proof fn lemma_arm_keeps(b: BuilderView, target: BlockId, block: BlockId, f: FunctionView)
    requires
        has_block(b.func, b.block),
        block != b.block,
        waits(b.func, block),
    ensures
        waits(arm_ended(b, target).func, block),
        grows(arm_ended(b, target).func, f) ==> grows(b.func, f),
{
    broadcast use {group_growth, group_builder_steps};

    if !terminated(b) {
        assert(is_open(b.func, b.block)) by {
            reveal(is_open);
        }
    }
}

/// An `if` runs its first arm where its condition is not zero. Where it is zero,
/// it runs its other arm, or goes on after the `if` where there is no other. From
/// the end of each arm it goes on after the `if`.
pub proof fn law_if<'t>(
    lowerer: Lowerer,
    has_else: bool,
    start: Scene,
    first: Scene,
    first_done: Scene,
    second: Scene,
    second_done: Scene,
    end: Scene,
    f: FunctionView,
    came: BlockId,
    frame: Frame,
)
    requires
        arms_step(start, lowerer, Task::<'t>::IfBegin(has_else)) == StepView::Done(first),
        built_on(first, first_done),
        if has_else {
            arms_step(first_done, lowerer, Task::<'t>::IfElse) == StepView::Done(second)
                && built_on(second, second_done)
        } else {
            second_done == first_done
        },
        arms_step(second_done, lowerer, Task::<'t>::IfEnd) == StepView::Done(end),
        is_open(start.b.func, start.b.block),
        has_block(first_done.b.func, first_done.b.block),
        has_block(second_done.b.func, second_done.b.block),
        first.control.last() matches Control::Arms(other, merge) && is_left_alone(first_done, other)
            && is_left_alone(first_done, merge) && is_left_alone(second_done, merge) && (has_else
            ==> other != merge),
        grows(end.b.func, f),
    ensures
        leads(
            f,
            ends_at(start.b, came, frame),
            at_end(
                if word_in(f, frame, top(start.values, 0)) != 0 {
                    first
                } else if has_else {
                    second
                } else {
                    end
                },
                start.b.block,
                frame,
            ),
        ),
        is_open(first_done.b.func, first_done.b.block) ==> leads(
            f,
            ends_at(first_done.b, came, frame),
            at_end(end, first_done.b.block, frame),
        ),
        is_open(second_done.b.func, second_done.b.block) ==> leads(
            f,
            ends_at(second_done.b, came, frame),
            at_end(end, second_done.b.block, frame),
        ),
{
    broadcast use {group_growth, group_builder_steps, group_spots};

    let other = first.control.last()->Arms_0;
    let merge = first.control.last()->Arms_1;
    let ended2 = arm_ended(second_done.b, merge);
    assert(end.b == moved(ended2, merge));
    lemma_arm_keeps(second_done.b, merge, merge, f);
    if has_else {
        lemma_grows_further(second.b.func, second_done.b.func, f);
        lemma_arm_keeps(first_done.b, merge, other, f);
    }
    lemma_grows_further(first.b.func, first_done.b.func, f);
    if is_open(second_done.b.func, second_done.b.block) {
        lemma_arm_ended(second_done.b, merge, f, came, frame);
    }
    if is_open(first_done.b.func, first_done.b.block) {
        lemma_arm_ended(first_done.b, merge, f, came, frame);
    }
    reveal(if_begun);
    let cond = top(start.values, 0);
    let b1 = blocked(start.b);
    let b2 = blocked(b1);
    let b3 = if has_else {
        blocked(b2)
    } else {
        b2
    };
    assert(ends_at(b3, came, frame) == ends_at(start.b, came, frame));
    lemma_leads_ended(
        f,
        b3,
        TermView::Branch {
            condition: cond,
            then_block: next_block(start.b.func),
            else_block: other,
        },
        came,
        frame,
        at_end(
            if word_in(f, frame, cond) != 0 {
                first
            } else if has_else {
                second
            } else {
                end
            },
            start.b.block,
            frame,
        ),
    );
}

/// `&&` evaluates its right operand where the left one is not zero, and is zero
/// where it is. `||` evaluates its right operand where the left one is zero, and is
/// one where it is not. Where the right operand is evaluated, it is the value.
pub proof fn law_short_circuit<'t>(
    lowerer: Lowerer,
    is_and: bool,
    start: Scene,
    right: Scene,
    right_done: Scene,
    end: Scene,
    f: FunctionView,
    came: BlockId,
    frame: Frame,
) -> (r: (Frame, Frame))
    requires
        arms_step(start, lowerer, Task::<'t>::ShortCircuitBegin(is_and)) == StepView::Done(right),
        built_on(right, right_done),
        arms_step(right_done, lowerer, Task::<'t>::ShortCircuitEnd(is_and)) == StepView::Done(end),
        is_open(start.b.func, start.b.block),
        is_open(right_done.b.func, right_done.b.block),
        right.control.last() matches Control::ShortCircuit(_, merge) && is_left_alone(
            right_done,
            merge,
        ),
        grows(end.b.func, f),
    ensures
        ({
            let decides = is_and == (word_in(f, frame, top(start.values, 0)) == 0);
            &&& leads(
                f,
                ends_at(start.b, came, frame),
                if decides {
                    at_end(end, start.b.block, r.0)
                } else {
                    at_end(right, start.b.block, frame)
                },
            )
            &&& decides ==> word_in(f, r.0, top(end.values, 0)) == truth_word(!is_and)
        }),
        leads(
            f,
            ends_at(right_done.b, came, frame),
            at_end(end, right_done.b.block, r.1),
        ),
        held(f, r.1, top(end.values, 0)) == held(f, frame, top(right_done.values, 0)),
{
    broadcast use {group_growth, group_builder_steps, group_spots};

    let pred = right.control.last()->ShortCircuit_0;
    let merge = right.control.last()->ShortCircuit_1;
    let lhs = top(start.values, 0);
    let rhs = top(right_done.values, 0);
    reveal(and_begun);
    reveal(or_begun);
    assert(pred == start.b.block);
    assert(!terminated(right_done.b)) by {
        reveal(is_open);
    }
    // The end.
    reveal(short_circuit_ended);
    let ended_right = ended(right_done.b, TermView::Jump(merge));
    let at_merge = moved(ended_right, merge);
    let decided = next_value(at_merge.func);
    let b1 = valued(at_merge, Value::Immediate(Immediate::Bool(!is_and)));
    let edges = seq![(pred, decided), (right_done.b.block, rhs)];
    assert(end.b == emitted(b1, KindView::Phi(edges), Some(MirType::uint256())));
    assert(is_open(at_merge.func, merge) && length(at_merge.func, merge) == 0);
    assert(grows(b1.func, f));
    assert(grows(right_done.b.func, f));
    lemma_grows_further(right.b.func, right_done.b.func, f);
    // The start.
    let before = blocked(blocked(start.b));
    let rhs_block = next_block(start.b.func);
    let branch = if is_and {
        TermView::Branch { condition: lhs, then_block: rhs_block, else_block: merge }
    } else {
        TermView::Branch { condition: lhs, then_block: merge, else_block: rhs_block }
    };
    assert(right.b == moved(ended(before, branch), rhs_block));
    let decides = is_and == (word_in(f, frame, lhs) == 0);
    let mid = ends_at(at_merge, pred, frame);
    assert(ends_at(before, came, frame) == ends_at(start.b, came, frame));
    lemma_leads_ended(
        f,
        before,
        branch,
        came,
        frame,
        if decides {
            Outcome::At(mid)
        } else {
            at_end(right, start.b.block, frame)
        },
    );
    // The left operand decides.
    lemma_runs_nothing(f, at_merge, pred, frame);
    assert(incoming_value(edges, pred) == Some(decided));
    let to1 = lemma_runs_result(
        f,
        at_merge,
        b1,
        KindView::Phi(edges),
        Some(MirType::uint256()),
        pred,
        frame,
        frame,
        held(f, frame, decided),
    );
    if decides {
        lemma_leads_on(f, ends_at(start.b, came, frame), mid, at_end(end, pred, to1));
    }
    // The right operand decides.
    let from_right = right_done.b.block;
    assert(pred != from_right) by {
        assert(f.blocks[pred.0 as int].terminator is Some);
        lemma_complete(right.b.func, right_done.b.func, pred);
    }
    assert(incoming_value(edges, from_right) == Some(rhs)) by {
        assert(edges.skip(1)[0] == edges[1]);
        reveal_with_fuel(incoming_value, 3);
    }
    lemma_runs_nothing(f, at_merge, from_right, frame);
    let to2 = lemma_runs_result(
        f,
        at_merge,
        b1,
        KindView::Phi(edges),
        Some(MirType::uint256()),
        from_right,
        frame,
        frame,
        held(f, frame, rhs),
    );
    let mid2 = ends_at(at_merge, from_right, frame);
    lemma_leads_ended(f, right_done.b, TermView::Jump(merge), came, frame, Outcome::At(mid2));
    lemma_leads_on(f, ends_at(right_done.b, came, frame), mid2, at_end(end, from_right, to2));
    (to1, to2)
}

/// A block that is complete stays so.
proof fn lemma_complete(func: FunctionView, f: FunctionView, block: BlockId)
    requires
        grows(func, f),
        has_block(func, block),
        !is_open(func, block),
    ensures
        !is_open(f, block),
{
    reveal(grows);
    reveal(is_open);
    assert(f.blocks[block.0 as int].terminator == func.blocks[block.0 as int].terminator);
}

/// A loop starts at its first statement and starts again from its end. `break`
/// goes on after the loop, and `continue` starts it again.
pub proof fn law_loop<'t>(
    lowerer: Lowerer,
    start: Scene,
    body: Scene,
    body_done: Scene,
    end: Scene,
    f: FunctionView,
    came: BlockId,
    frame: Frame,
)
    requires
        loop_step(start, lowerer, Task::<'t>::LoopBegin(false)) == StepView::Done(body),
        built_on(body, body_done),
        loop_step(body_done, lowerer, Task::<'t>::LoopEnd(true)) == StepView::Done(end),
        is_open(start.b.func, start.b.block),
        has_block(body_done.b.func, body_done.b.block),
        body.control.last() matches Control::Loop(blocks) && is_left_alone(body_done, blocks.exit),
        grows(end.b.func, f),
    ensures
        leads(f, ends_at(start.b, came, frame), at_end(body, start.b.block, frame)),
        is_open(body_done.b.func, body_done.b.block) ==> leads(
            f,
            ends_at(body_done.b, came, frame),
            at_end(body, body_done.b.block, frame),
        ),
        start_of(body.loops.last().break_target, came, frame) == ends_at(
            end.b,
            came,
            frame,
        ),
        start_of(body.loops.last().continue_target, came, frame) == ends_at(
            body.b,
            came,
            frame,
        ),
{
    broadcast use {group_growth, group_builder_steps, group_spots};

    let blocks = body.control.last()->Loop_0;
    reveal(loop_begun);
    lemma_arm_keeps(body_done.b, blocks.start, blocks.exit, f);
    lemma_grows_further(body.b.func, body_done.b.func, f);
    if is_open(body_done.b.func, body_done.b.block) {
        lemma_arm_ended(body_done.b, blocks.start, f, came, frame);
    }
    let before = blocked(blocked(start.b));
    assert(ends_at(before, came, frame) == ends_at(start.b, came, frame));
    lemma_leads_ended(
        f,
        before,
        TermView::Jump(blocks.start),
        came,
        frame,
        at_end(body, start.b.block, frame),
    );
}

/// A `for` loop evaluates its condition first. Where it is not zero, the body runs,
/// and the update after it, and the condition is evaluated again. Where it is zero,
/// the run goes on at what leaves the loop. `continue` goes on with the update, and
/// `break` after the loop.
pub proof fn law_for_loop<'t>(
    lowerer: Lowerer,
    start: Scene,
    begun: Scene,
    cond: Scene,
    cond_done: Scene,
    body: Scene,
    body_done: Scene,
    update: Scene,
    update_done: Scene,
    left: Scene,
    left_done: Scene,
    end: Scene,
    f: FunctionView,
    came: BlockId,
    frame: Frame,
)
    requires
        loop_step(start, lowerer, Task::<'t>::LoopBegin(true)) == StepView::Done(begun),
        loop_step(begun, lowerer, Task::<'t>::ForBegin) == StepView::Done(cond),
        built_on(cond, cond_done),
        loop_step(cond_done, lowerer, Task::<'t>::ForBranch) == StepView::Done(body),
        built_on(body, body_done),
        loop_step(body_done, lowerer, Task::<'t>::ForUpdate) == StepView::Done(update),
        built_on(update, update_done),
        loop_step(update_done, lowerer, Task::<'t>::ForElse) == StepView::Done(left),
        built_on(left, left_done),
        loop_step(left_done, lowerer, Task::<'t>::LoopEnd(false)) == StepView::Done(end),
        is_open(start.b.func, start.b.block),
        is_open(cond_done.b.func, cond_done.b.block),
        has_block(body_done.b.func, body_done.b.block),
        has_block(update_done.b.func, update_done.b.block),
        begun.control.last() matches Control::Loop(blocks) && cond.control.last() matches
            Control::Turn(turn, done) && turn != done && is_left_alone(cond_done, turn)
            && is_left_alone(cond_done, done) && is_left_alone(body_done, blocks.next)
            && is_left_alone(body_done, done) && is_left_alone(update_done, done) && waits(
            left_done.b.func,
            blocks.exit,
        ),
        grows(end.b.func, f),
    ensures
        leads(f, ends_at(start.b, came, frame), at_end(cond, start.b.block, frame)),
        leads(
            f,
            ends_at(cond_done.b, came, frame),
            at_end(
                if word_in(f, frame, top(cond_done.values, 0)) != 0 {
                    body
                } else {
                    left
                },
                cond_done.b.block,
                frame,
            ),
        ),
        is_open(body_done.b.func, body_done.b.block) ==> leads(
            f,
            ends_at(body_done.b, came, frame),
            at_end(update, body_done.b.block, frame),
        ),
        is_open(update_done.b.func, update_done.b.block) ==> leads(
            f,
            ends_at(update_done.b, came, frame),
            at_end(cond, update_done.b.block, frame),
        ),
        start_of(begun.loops.last().continue_target, came, frame) == ends_at(
            update.b,
            came,
            frame,
        ),
        start_of(begun.loops.last().break_target, came, frame) == ends_at(
            end.b,
            came,
            frame,
        ),
{
    broadcast use {group_growth, group_builder_steps, group_spots};

    let blocks = begun.control.last()->Loop_0;
    let turn = cond.control.last()->Turn_0;
    let done = cond.control.last()->Turn_1;
    reveal(for_body_begun);
    assert(cond.control[cond.control.len() - 2] == begun.control.last());
    lemma_grows_further(left.b.func, left_done.b.func, f);
    lemma_arm_keeps(update_done.b, blocks.start, done, f);
    lemma_grows_further(update.b.func, update_done.b.func, f);
    lemma_arm_keeps(body_done.b, blocks.next, blocks.next, f);
    lemma_grows_further(body.b.func, body_done.b.func, f);
    assert(grows(cond_done.b.func, f) && waits(body.b.func, turn)) by {
        reveal(for_body_branched);
    }
    lemma_grows_further(cond.b.func, cond_done.b.func, f);
    if is_open(body_done.b.func, body_done.b.block) {
        lemma_arm_ended(body_done.b, blocks.next, f, came, frame);
    }
    assert(grows(begun.b.func, f));
    assert(cond.b.block == begun.b.block);
    assert(begun.b.block == blocks.start && waits(begun.b.func, blocks.start) && waits(
        cond.b.func,
        blocks.start,
    ) && grows(start.b.func, f) && leads(
        f,
        ends_at(start.b, came, frame),
        at_end(begun, start.b.block, frame),
    )) by {
        reveal(loop_begun);
        let before = blocked(blocked(blocked(start.b)));
        assert(ends_at(before, came, frame) == ends_at(start.b, came, frame));
        lemma_leads_ended(
            f,
            before,
            TermView::Jump(blocks.start),
            came,
            frame,
            at_end(begun, start.b.block, frame),
        );
    }
    if is_open(update_done.b.func, update_done.b.block) {
        lemma_arm_ended(update_done.b, blocks.start, f, came, frame);
    }
    reveal(for_body_branched);
    lemma_leads_ended(
        f,
        cond_done.b,
        TermView::Branch {
            condition: top(cond_done.values, 0),
            then_block: turn,
            else_block: done,
        },
        came,
        frame,
        at_end(
            if word_in(f, frame, top(cond_done.values, 0)) != 0 {
                body
            } else {
                left
            },
            cond_done.b.block,
            frame,
        ),
    );
}

/// The word that the constant of a case stands for, if it is a proper one.
pub open spec fn case_word(lit: Lit) -> Option<nat> {
    match lit {
        Lit::Bool(holds) => Some(truth_word(holds)),
        Lit::Number(number) => Some(number@),
        Lit::Str(bytes) => Some(
            left_word(
                if bytes@.len() <= 32 {
                    bytes@
                } else {
                    bytes@.take(32)
                },
            )@,
        ),
        Lit::Address(bytes) => Some(word_of(be_value(bytes@))@),
        Lit::Rational | Lit::Error(_) => None,
    }
}

/// Whether every constant of a switch is a proper one.
pub open spec fn cases_proper(cases: Seq<SwitchCase>) -> bool {
    forall|i: int|
        0 <= i < cases.len() ==> ((#[trigger] cases[i]).constant matches Some(lit) ==> case_word(
            lit,
        ) is Some)
}

/// Which of the first `count` cases is the first whose constant is a number.
pub open spec fn first_match(cases: Seq<SwitchCase>, number: nat, count: nat) -> Option<nat>
    decreases count,
{
    if count == 0 {
        None
    } else {
        match first_match(cases, number, (count - 1) as nat) {
            Some(i) => Some(i),
            None => match cases[count - 1].constant {
                Some(lit) => if case_word(lit) == Some(number) {
                    Some((count - 1) as nat)
                } else {
                    None
                },
                None => None,
            },
        }
    }
}

/// Which of the first `count` cases is the last without a constant.
pub open spec fn last_default(cases: Seq<SwitchCase>, count: nat) -> Option<nat>
    decreases count,
{
    if count == 0 {
        None
    } else if cases[count - 1].constant is None {
        Some((count - 1) as nat)
    } else {
        last_default(cases, (count - 1) as nat)
    }
}

/// The last case is chosen where no other is.
proof fn lemma_chosen_push(
    f: FunctionView,
    frame: Frame,
    number: nat,
    default: BlockId,
    cases: Seq<(ValueId, BlockId)>,
    last: (ValueId, BlockId),
)
    ensures
        chosen(f, frame, number, default, cases.push(last)) == chosen(
            f,
            frame,
            number,
            if word_in(f, frame, last.0) == number {
                last.1
            } else {
                default
            },
            cases,
        ),
    decreases cases.len(),
{
    if cases.len() == 0 {
        assert(cases.push(last).skip(1) =~= Seq::empty());
        reveal_with_fuel(chosen, 2);
    } else {
        assert(cases.push(last).skip(1) =~= cases.skip(1).push(last));
        lemma_chosen_push(f, frame, number, default, cases.skip(1), last);
    }
}

/// The blocks of the first `count` cases wait, and the one for a number is
/// chosen.
proof fn lemma_cases(
    b: BuilderView,
    merge: BlockId,
    cases: Seq<SwitchCase>,
    count: nat,
    f: FunctionView,
    frame: Frame,
    number: nat,
    default: BlockId,
)
    requires
        count <= cases.len(),
        cases_proper(cases),
        has_block(b.func, b.block),
        grows(cases_begun(b, merge, cases, count).0.func, f),
    ensures
        ({
            let (after, view) = cases_begun(b, merge, cases, count);
            &&& grows(b.func, f)
            &&& after.block == b.block
            &&& after.func.blocks.len() == b.func.blocks.len() + count
            &&& after.func.insts.len() == b.func.insts.len()
            &&& forall|x: BlockId|
                #![trigger is_open(after.func, x)]
                #![trigger length(after.func, x)]
                has_block(b.func, x) ==> is_open(after.func, x) == is_open(b.func, x) && length(
                    after.func,
                    x,
                ) == length(b.func, x)
            &&& view.bodies.len() == count
            &&& forall|i: int|
                0 <= i < count ==> waits(after.func, #[trigger] view.bodies[i])
                    && view.bodies[i].0 == b.func.blocks.len() + i
            &&& view.default == match last_default(cases, count) {
                Some(i) => view.bodies[i as int],
                None => merge,
            }
            &&& last_default(cases, count) matches Some(i) ==> i < count
            &&& first_match(cases, number, count) matches Some(i) ==> i < count
            &&& chosen(f, frame, number, default, view.cases) == match first_match(
                cases,
                number,
                count,
            ) {
                Some(i) => view.bodies[i as int],
                None => default,
            }
        }),
    decreases count,
{
    broadcast use {group_growth, group_builder_steps};

    reveal(cases_begun);
    if count > 0 {
        let less = (count - 1) as nat;
        let (b0, front) = cases_begun(b, merge, cases, less);
        let block = next_block(b0.func);
        let b1 = blocked(b0);
        match cases[less as int].constant {
            Some(lit) => {
                let (b2, value, _) = literal_or_error(b1, lit, cases[less as int].constant_span);
                assert(literal(b1, lit) is Ok);
                assert(grows(b1.func, f));
                assert(word_in(f, frame, value) == case_word(lit)->0);
                let other = if word_in(f, frame, value) == number {
                    block
                } else {
                    default
                };
                lemma_cases(b, merge, cases, less, f, frame, number, other);
                lemma_chosen_push(f, frame, number, default, front.cases, (value, block));
                assert(has_block(b0.func, b0.block));
            },
            None => {
                lemma_cases(b, merge, cases, less, f, frame, number, default);
            },
        }
        let (after, view) = cases_begun(b, merge, cases, count);
        assert(view.bodies == front.bodies.push(block));
        assert forall|i: int| 0 <= i < count implies waits(after.func, #[trigger] view.bodies[i])
            && view.bodies[i].0 == b.func.blocks.len() + i by {
            if i < less {
                assert(view.bodies[i] == front.bodies[i]);
                assert(waits(b0.func, front.bodies[i]));
            }
        }
    } else {
        reveal_with_fuel(chosen, 1);
    }
}

/// A switch goes to the first case whose constant is the word of its selector,
/// where there is one; else to the last case without a constant, where there is
/// one; else on after the switch. Each case is built in its own block, and from its
/// end the run goes on after the switch.
pub proof fn law_switch<'t>(
    lowerer: Lowerer,
    cases: &'t Vec<SwitchCase>,
    start: Scene,
    begun: Scene,
    before: Scene,
    case: Scene,
    case_done: Scene,
    case_end: Scene,
    last: Scene,
    end: Scene,
    index: usize,
    f: FunctionView,
    came: BlockId,
    frame: Frame,
)
    requires
        loop_step(start, lowerer, Task::<'t>::SwitchBegin(cases)) == StepView::Done(begun),
        cases_proper(cases@),
        built_on(begun, before) && before.cases == begun.cases,
        loop_step(before, lowerer, Task::<'t>::CaseBegin(index)) == StepView::Done(case),
        built_on(case, case_done),
        loop_step(case_done, lowerer, Task::<'t>::CaseEnd) == StepView::Done(case_end),
        built_on(case_end, last),
        loop_step(last, lowerer, Task::<'t>::SwitchEnd) == StepView::Done(end),
        is_open(start.b.func, start.b.block),
        is_open(case_done.b.func, case_done.b.block),
        waits(before.b.func, case.b.block),
        begun.control.last() matches Control::Switch(merge) && waits(last.b.func, merge),
        grows(end.b.func, f),
    ensures
        index < cases@.len(),
        ({
            let number = word_in(f, frame, top(start.values, 0));
            let picked = match first_match(cases@, number, cases@.len()) {
                Some(i) => Some(i),
                None => last_default(cases@, cases@.len()),
            };
            &&& picked == Some(index as nat) ==> leads(
                f,
                ends_at(start.b, came, frame),
                at_end(case, start.b.block, frame),
            )
            &&& picked is None ==> leads(
                f,
                ends_at(start.b, came, frame),
                at_end(end, start.b.block, frame),
            )
        }),
        leads(f, ends_at(case_done.b, came, frame), at_end(end, case_done.b.block, frame)),
{
    broadcast use {group_growth, group_builder_steps, group_spots};

    let merge = begun.control.last()->Switch_0;
    let selector = top(start.values, 0);
    let number = word_in(f, frame, selector);
    let b1 = blocked(start.b);
    let (b2, view) = cases_begun(b1, merge, cases@, cases@.len());
    let switch = TermView::Switch { value: selector, default: view.default, cases: view.cases };
    assert(end.b == moved(last.b, merge));
    lemma_grows_further(case_end.b.func, last.b.func, f);
    lemma_arm_ended(case_done.b, merge, f, came, frame);
    lemma_grows_further(case.b.func, case_done.b.func, f);
    lemma_grows_further(begun.b.func, before.b.func, f);
    lemma_cases_open(b1, merge, cases@, cases@.len());
    assert(grows(b2.func, f));
    lemma_cases(b1, merge, cases@, cases@.len(), f, frame, number, view.default);
    assert(ends_at(b2, came, frame) == ends_at(start.b, came, frame));
    let target = chosen(f, frame, number, view.default, view.cases);
    lemma_leads_ended(
        f,
        b2,
        switch,
        came,
        frame,
        Outcome::At(start_of(target, start.b.block, frame)),
    );
    assert(begun.cases.last() == view.bodies);
    assert(case.b.block == view.bodies[index as int]);
}

/// The cases of a switch leave the blocks before them as they are.
proof fn lemma_cases_open(b: BuilderView, merge: BlockId, cases: Seq<SwitchCase>, count: nat)
    requires
        count <= cases.len(),
        cases_proper(cases),
        is_open(b.func, b.block),
    ensures
        is_open(cases_begun(b, merge, cases, count).0.func, b.block),
        cases_begun(b, merge, cases, count).0.block == b.block,
    decreases count,
{
    broadcast use {group_growth, group_builder_steps};

    reveal(cases_begun);
    if count > 0 {
        lemma_cases_open(b, merge, cases, (count - 1) as nat);
        if let Some(lit) = cases[count - 1].constant {
            assert(case_word(lit) is Some);
        }
    }
}

} // verus!
