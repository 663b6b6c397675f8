//! Tasks that branch, loop and switch.

use crate::hir::{Lit, SwitchCase};
use crate::lower::control::{
    arm_ended, arms_begun, begin_arms, begin_for_body, begin_if, begin_loop, begin_short_circuit,
    branch_for_body, end_short_circuit, finish_arm, for_body_begun, for_body_branched, if_begun,
    is_terminated, load_slice_result, load_tuple_result, load_word_result, loop_begun,
    short_circuit_begun, short_circuit_ended, slice_arm_stored, slice_result, store_slice_arm,
    store_word_arm, terminated, tuple_result, word_arm_stored, word_result,
};
use crate::lower::emit::extends;
use crate::lower::handlers::{constants_fit, switch_begun};
use crate::lower::machine::{
    block_exists, cut, did, enclosed, framed, ready, scene, top, Control, Machine, Scene, Step,
    StepView,
};
use crate::lower::plan::{ArmKind, Task};
use crate::lower::state::{LoopContext, Lowerer};
use crate::mir::builder::{constant, ended, group_builder_steps, moved, word, FunctionBuilder};
use crate::mir::function::{has_block, has_value, is_public_function, next_value};
use crate::mir::inst::TermView;
use crate::mir::types::SliceLocation;
use vstd::prelude::*;

verus! {

/// What performing a task that branches comes to.
pub open spec fn arms_step<'t>(s: Scene, lowerer: Lowerer, task: Task<'t>) -> StepView {
    match task {
        Task::ShortCircuitBegin(is_and) => {
            if ready(s.b, s.values, 1) {
                let a0 = top(s.values, 0);
                StepView::Done(
                    Scene {
                        b: short_circuit_begun(s.b, a0, is_and).0,
                        values: cut(s.values, 1),
                        control: s.control.push(
                            Control::ShortCircuit(
                                short_circuit_begun(s.b, a0, is_and).1.0,
                                short_circuit_begun(s.b, a0, is_and).1.1,
                            ),
                        ),
                        ..s
                    },
                )
            } else {
                StepView::NotReady
            }
        },
        Task::ShortCircuitEnd(is_and) => {
            if ready(s.b, s.values, 1) {
                let a0 = top(s.values, 0);
                let c0 = enclosed(s.control, 0)->0;
                let start = c0->ShortCircuit_0;
                let merge = c0->ShortCircuit_1;
                if enclosed(s.control, 0) is Some
                    && c0 is ShortCircuit
                    && has_block(s.b.func, start)
                    && has_block(s.b.func, merge) {
                    StepView::Done(
                        Scene {
                            b: short_circuit_ended(s.b, (start, merge), a0, is_and).0,
                            values: cut(s.values, 1).push(
                                short_circuit_ended(s.b, (start, merge), a0, is_and).1,
                            ),
                            control: s.control.drop_last(),
                            ..s
                        },
                    )
                } else {
                    StepView::NotReady
                }
            } else {
                StepView::NotReady
            }
        },
        Task::ArmsBegin => {
            if ready(s.b, s.values, 1) {
                let a0 = top(s.values, 0);
                StepView::Done(
                    Scene {
                        b: arms_begun(s.b, a0).0,
                        values: cut(s.values, 1),
                        control: s.control.push(
                            Control::Arms(arms_begun(s.b, a0).1.0, arms_begun(s.b, a0).1.1),
                        ),
                        ..s
                    },
                )
            } else {
                StepView::NotReady
            }
        },
        Task::IfBegin(has_else) => {
            if ready(s.b, s.values, 1) {
                let a0 = top(s.values, 0);
                StepView::Done(
                    Scene {
                        b: if_begun(s.b, a0, has_else).0,
                        values: cut(s.values, 1),
                        control: s.control.push(
                            Control::Arms(
                                if_begun(s.b, a0, has_else).1.0,
                                if_begun(s.b, a0, has_else).1.1,
                            ),
                        ),
                        ..s
                    },
                )
            } else {
                StepView::NotReady
            }
        },
        Task::IfElse => {
            let c0 = enclosed(s.control, 0)->0;
            let other = c0->Arms_0;
            let merge = c0->Arms_1;
            if enclosed(s.control, 0) is Some
                && c0 is Arms
                && has_block(s.b.func, other)
                && has_block(s.b.func, merge) {
                StepView::Done(Scene { b: moved(arm_ended(s.b, merge), other), ..s })
            } else {
                StepView::NotReady
            }
        },
        Task::IfEnd => {
            let c0 = enclosed(s.control, 0)->0;
            let merge = c0->Arms_1;
            if enclosed(s.control, 0) is Some && c0 is Arms && has_block(s.b.func, merge) {
                StepView::Done(
                    Scene {
                        b: moved(arm_ended(s.b, merge), merge),
                        control: s.control.drop_last(),
                        ..s
                    },
                )
            } else {
                StepView::NotReady
            }
        },
        Task::ArmEnd(ArmKind::Word, last) => {
            if ready(s.b, s.values, 1) {
                let a0 = top(s.values, 0);
                let c0 = enclosed(s.control, 0)->0;
                let other = c0->Arms_0;
                let merge = c0->Arms_1;
                if enclosed(s.control, 0) is Some
                    && c0 is Arms
                    && has_block(s.b.func, other)
                    && has_block(s.b.func, merge) {
                    StepView::Done(
                        if last {
                            Scene {
                                b: word_result(word_arm_stored(s.b, a0, merge), merge).0,
                                values: cut(s.values, 1).push(
                                    word_result(word_arm_stored(s.b, a0, merge), merge).1,
                                ),
                                control: s.control.drop_last(),
                                ..s
                            }
                        } else {
                            Scene {
                                b: moved(word_arm_stored(s.b, a0, merge), other),
                                values: cut(s.values, 1),
                                ..s
                            }
                        },
                    )
                } else {
                    StepView::NotReady
                }
            } else {
                StepView::NotReady
            }
        },
        Task::ArmEnd(ArmKind::Slice, last) => {
            if ready(s.b, s.values, 1) {
                let a0 = top(s.values, 0);
                let c0 = enclosed(s.control, 0)->0;
                let other = c0->Arms_0;
                let merge = c0->Arms_1;
                if enclosed(s.control, 0) is Some
                    && c0 is Arms
                    && has_block(s.b.func, other)
                    && has_block(s.b.func, merge) {
                    StepView::Done(
                        if last {
                            Scene {
                                b: slice_result(
                                    slice_arm_stored(s.b, a0, merge),
                                    merge,
                                    SliceLocation::Calldata,
                                ).0,
                                values: cut(s.values, 1).push(
                                    slice_result(
                                        slice_arm_stored(s.b, a0, merge),
                                        merge,
                                        SliceLocation::Calldata,
                                    ).1,
                                ),
                                control: s.control.drop_last(),
                                ..s
                            }
                        } else {
                            Scene {
                                b: moved(slice_arm_stored(s.b, a0, merge), other),
                                values: cut(s.values, 1),
                                ..s
                            }
                        },
                    )
                } else {
                    StepView::NotReady
                }
            } else {
                StepView::NotReady
            }
        },
        Task::ArmEnd(ArmKind::Tuple, last) => {
            let c0 = enclosed(s.control, 0)->0;
            let other = c0->Arms_0;
            let merge = c0->Arms_1;
            if enclosed(s.control, 0) is Some
                && c0 is Arms
                && has_block(s.b.func, other)
                && has_block(s.b.func, merge) {
                StepView::Done(
                    if last {
                        Scene {
                            b: tuple_result(ended(s.b, TermView::Jump(merge)), merge).0,
                            values: s.values.push(
                                tuple_result(ended(s.b, TermView::Jump(merge)), merge).1,
                            ),
                            control: s.control.drop_last(),
                            ..s
                        }
                    } else {
                        Scene {
                            b: moved(ended(s.b, TermView::Jump(merge)), other),
                            values: s.values,
                            ..s
                        }
                    },
                )
            } else {
                StepView::NotReady
            }
        },
        _ => StepView::Other,
    }
}

impl Machine {
    /// Performs a task that branches.
    #[verifier::rlimit(40)]
    pub fn perform_arms<'b, 't>(
        &mut self,
        lowerer: &Lowerer,
        builder: &mut FunctionBuilder<'b>,
        task: &Task<'t>,
    ) -> (r: Step)
        requires
            old(builder).wf(),
        ensures
            final(builder).wf(),
            did(
                scene(*lowerer, *old(self), old(builder)@),
                scene(*lowerer, *final(self), final(builder)@),
                r,
                arms_step(scene(*lowerer, *old(self), old(builder)@), *lowerer, *task),
            ),
            extends(old(builder)@, final(builder)@),
            *final(final(builder).func) == *final(old(builder).func),
    {
        broadcast use group_builder_steps;

        let ghost before = scene(*lowerer, *self, builder@);
        let ghost expected = arms_step(before, *lowerer, *task);
        match task {
            Task::ShortCircuitBegin(is_and) => {
                if !self.is_ready(builder, 1) {
                    return Step::NotReady;
                }
                let a0 = self.peek(0);
                assert(has_value(builder@.func, top(self.values@, 0)));
                self.drop_values(1);
                let blocks = begin_short_circuit(builder, a0, *is_and);
                self.control.push(Control::ShortCircuit(blocks.0, blocks.1));
                assert(scene(*lowerer, *self, builder@) =~= expected->Done_0);
                Step::Done
            },
            Task::ShortCircuitEnd(is_and) => {
                if !self.is_ready(builder, 1) {
                    return Step::NotReady;
                }
                let a0 = self.peek(0);
                assert(has_value(builder@.func, top(self.values@, 0)));
                let (start, merge) = match self.enclosing(0) {
                    Some(Control::ShortCircuit(start, merge)) => (start, merge),
                    _ => {
                        return Step::NotReady;
                    }
                };
                if !(block_exists(builder, start) && block_exists(builder, merge)) {
                    return Step::NotReady;
                }
                self.drop_values(1);
                let v = end_short_circuit(builder, (start, merge), a0, *is_and);
                self.values.push(v);
                let _ = self.control.pop();
                assert(scene(*lowerer, *self, builder@) =~= expected->Done_0);
                Step::Done
            },
            Task::ArmsBegin => {
                if !self.is_ready(builder, 1) {
                    return Step::NotReady;
                }
                let a0 = self.peek(0);
                assert(has_value(builder@.func, top(self.values@, 0)));
                self.drop_values(1);
                let blocks = begin_arms(builder, a0);
                self.control.push(Control::Arms(blocks.0, blocks.1));
                assert(scene(*lowerer, *self, builder@) =~= expected->Done_0);
                Step::Done
            },
            Task::IfBegin(has_else) => {
                if !self.is_ready(builder, 1) {
                    return Step::NotReady;
                }
                let a0 = self.peek(0);
                assert(has_value(builder@.func, top(self.values@, 0)));
                self.drop_values(1);
                let blocks = begin_if(builder, a0, *has_else);
                self.control.push(Control::Arms(blocks.0, blocks.1));
                assert(scene(*lowerer, *self, builder@) =~= expected->Done_0);
                Step::Done
            },
            Task::IfElse => {
                let (other, merge) = match self.enclosing(0) {
                    Some(Control::Arms(other, merge)) => (other, merge),
                    _ => {
                        return Step::NotReady;
                    }
                };
                if !(block_exists(builder, other) && block_exists(builder, merge)) {
                    return Step::NotReady;
                }
                finish_arm(builder, merge);
                builder.switch_to_block(other);
                assert(scene(*lowerer, *self, builder@) =~= expected->Done_0);
                Step::Done
            },
            Task::IfEnd => {
                let (_other, merge) = match self.enclosing(0) {
                    Some(Control::Arms(_other, merge)) => (_other, merge),
                    _ => {
                        return Step::NotReady;
                    }
                };
                if !block_exists(builder, merge) {
                    return Step::NotReady;
                }
                finish_arm(builder, merge);
                builder.switch_to_block(merge);
                let _ = self.control.pop();
                assert(scene(*lowerer, *self, builder@) =~= expected->Done_0);
                Step::Done
            },
            Task::ArmEnd(ArmKind::Word, last) => {
                if !self.is_ready(builder, 1) {
                    return Step::NotReady;
                }
                let a0 = self.peek(0);
                assert(has_value(builder@.func, top(self.values@, 0)));
                let (other, merge) = match self.enclosing(0) {
                    Some(Control::Arms(other, merge)) => (other, merge),
                    _ => {
                        return Step::NotReady;
                    }
                };
                if !(block_exists(builder, other) && block_exists(builder, merge)) {
                    return Step::NotReady;
                }
                self.drop_values(1);
                store_word_arm(builder, a0, merge);
                if *last {
                    let v = load_word_result(builder, merge);
                    self.values.push(v);
                    let _ = self.control.pop();
                } else {
                    builder.switch_to_block(other);
                }
                assert(scene(*lowerer, *self, builder@) =~= expected->Done_0);
                Step::Done
            },
            Task::ArmEnd(ArmKind::Slice, last) => {
                if !self.is_ready(builder, 1) {
                    return Step::NotReady;
                }
                let a0 = self.peek(0);
                assert(has_value(builder@.func, top(self.values@, 0)));
                let (other, merge) = match self.enclosing(0) {
                    Some(Control::Arms(other, merge)) => (other, merge),
                    _ => {
                        return Step::NotReady;
                    }
                };
                if !(block_exists(builder, other) && block_exists(builder, merge)) {
                    return Step::NotReady;
                }
                self.drop_values(1);
                store_slice_arm(builder, a0, merge);
                if *last {
                    let v = load_slice_result(builder, merge, SliceLocation::Calldata);
                    self.values.push(v);
                    let _ = self.control.pop();
                } else {
                    builder.switch_to_block(other);
                }
                assert(scene(*lowerer, *self, builder@) =~= expected->Done_0);
                Step::Done
            },
            Task::ArmEnd(ArmKind::Tuple, last) => {
                let (other, merge) = match self.enclosing(0) {
                    Some(Control::Arms(other, merge)) => (other, merge),
                    _ => {
                        return Step::NotReady;
                    }
                };
                if !(block_exists(builder, other) && block_exists(builder, merge)) {
                    return Step::NotReady;
                }
                builder.jump(merge);
                if *last {
                    let v = load_tuple_result(builder, merge);
                    self.values.push(v);
                    let _ = self.control.pop();
                } else {
                    builder.switch_to_block(other);
                }
                assert(scene(*lowerer, *self, builder@) =~= expected->Done_0);
                Step::Done
            },
            _ => Step::Other,
        }
    }
}

/// What performing a task of a loop or a switch comes to.
pub open spec fn loop_step<'t>(s: Scene, lowerer: Lowerer, task: Task<'t>) -> StepView {
    match task {
        Task::LoopBegin(has_update) => {
            StepView::Done(
                Scene {
                    b: loop_begun(s.b, has_update).0,
                    control: s.control.push(Control::Loop(loop_begun(s.b, has_update).1)),
                    loops: s.loops.push(
                        LoopContext {
                            break_target: loop_begun(s.b, has_update).1.exit,
                            continue_target: loop_begun(s.b, has_update).1.next,
                        },
                    ),
                    ..s
                },
            )
        },
        Task::ForBegin => {
            StepView::Done(
                Scene {
                    b: for_body_begun(s.b).0,
                    control: s.control.push(
                        Control::Turn(for_body_begun(s.b).1.0, for_body_begun(s.b).1.1),
                    ),
                    ..s
                },
            )
        },
        Task::ForBranch => {
            if ready(s.b, s.values, 1) {
                let a0 = top(s.values, 0);
                let c0 = enclosed(s.control, 0)->0;
                let turn = c0->Turn_0;
                let done = c0->Turn_1;
                if enclosed(s.control, 0) is Some
                    && c0 is Turn
                    && has_block(s.b.func, turn)
                    && has_block(s.b.func, done) {
                    StepView::Done(
                        Scene {
                            b: for_body_branched(s.b, a0, turn, done),
                            values: cut(s.values, 1),
                            ..s
                        },
                    )
                } else {
                    StepView::NotReady
                }
            } else {
                StepView::NotReady
            }
        },
        Task::ForUpdate => {
            let c1 = enclosed(s.control, 1)->0;
            let blocks = c1->Loop_0;
            if enclosed(s.control, 1) is Some
                && c1 is Loop
                && has_block(s.b.func, blocks.start)
                && has_block(s.b.func, blocks.exit)
                && has_block(s.b.func, blocks.next) {
                StepView::Done(Scene { b: moved(arm_ended(s.b, blocks.next), blocks.next), ..s })
            } else {
                StepView::NotReady
            }
        },
        Task::ForElse => {
            let c0 = enclosed(s.control, 0)->0;
            let done = c0->Turn_1;
            let c1 = enclosed(s.control, 1)->0;
            let blocks = c1->Loop_0;
            if enclosed(s.control, 0) is Some
                && c0 is Turn
                && has_block(s.b.func, done)
                && enclosed(s.control, 1) is Some
                && c1 is Loop
                && has_block(s.b.func, blocks.start)
                && has_block(s.b.func, blocks.exit)
                && has_block(s.b.func, blocks.next) {
                StepView::Done(
                    Scene {
                        b: moved(arm_ended(s.b, blocks.start), done),
                        control: s.control.drop_last(),
                        ..s
                    },
                )
            } else {
                StepView::NotReady
            }
        },
        Task::LoopEnd(back) => {
            let c0 = enclosed(s.control, 0)->0;
            let blocks = c0->Loop_0;
            if enclosed(s.control, 0) is Some
                && c0 is Loop
                && has_block(s.b.func, blocks.start)
                && has_block(s.b.func, blocks.exit)
                && has_block(s.b.func, blocks.next) {
                StepView::Done(
                    Scene {
                        b: moved(
                            if back { arm_ended(s.b, blocks.start) } else { s.b },
                            blocks.exit,
                        ),
                        control: s.control.drop_last(),
                        loops: if s.loops.len() == 0 { s.loops } else { s.loops.drop_last() },
                        ..s
                    },
                )
            } else {
                StepView::NotReady
            }
        },
        Task::SwitchBegin(cases) => {
            if ready(s.b, s.values, 1) {
                let a0 = top(s.values, 0);
                if constants_fit(cases@) {
                    StepView::Done(
                        Scene {
                            b: switch_begun(s.b, a0, cases@).0,
                            values: cut(s.values, 1),
                            control: s.control.push(
                                Control::Switch(switch_begun(s.b, a0, cases@).1),
                            ),
                            cases: s.cases.push(switch_begun(s.b, a0, cases@).2.bodies),
                            complaints: s.complaints + switch_begun(s.b, a0, cases@).2.complaints,
                            ..s
                        },
                    )
                } else {
                    StepView::NotReady
                }
            } else {
                StepView::NotReady
            }
        },
        Task::CaseBegin(index) => {
            if s.cases.len() > 0
                && index < s.cases.last().len()
                && has_block(s.b.func, s.cases.last()[index as int]) {
                StepView::Done(Scene { b: moved(s.b, s.cases.last()[index as int]), ..s })
            } else {
                StepView::NotReady
            }
        },
        Task::CaseEnd => {
            let c0 = enclosed(s.control, 0)->0;
            let merge = c0->Switch_0;
            if enclosed(s.control, 0) is Some && c0 is Switch && has_block(s.b.func, merge) {
                StepView::Done(Scene { b: arm_ended(s.b, merge), ..s })
            } else {
                StepView::NotReady
            }
        },
        Task::SwitchEnd => {
            let c0 = enclosed(s.control, 0)->0;
            let merge = c0->Switch_0;
            if enclosed(s.control, 0) is Some
                && c0 is Switch
                && has_block(s.b.func, merge)
                && s.cases.len() > 0 {
                StepView::Done(
                    Scene {
                        b: moved(s.b, merge),
                        control: s.control.drop_last(),
                        cases: s.cases.drop_last(),
                        ..s
                    },
                )
            } else {
                StepView::NotReady
            }
        },
        _ => StepView::Other,
    }
}

/// Whether the addresses among the constants of cases are words.
fn check_constants(cases: &Vec<SwitchCase>) -> (r: bool)
    ensures
        r == constants_fit(cases@),
{
    let mut i: usize = 0;
    while i < cases.len()
        invariant
            i <= cases@.len(),
            constants_fit(cases@.take(i as int)),
        decreases cases@.len() - i,
    {
        if let Some(Lit::Address(bytes)) = &cases[i].constant {
            if bytes.len() > 32 {
                return false;
            }
        }
        assert forall|k: int| 0 <= k < i + 1 implies (#[trigger] cases@.take(
            i + 1,
        )[k]).constant matches Some(Lit::Address(bytes)) ==> bytes@.len() <= 32 by {
            if k < i {
                assert(cases@.take(i as int)[k] == cases@[k]);
            }
        }
        i = i + 1;
    }
    assert(cases@.take(cases@.len() as int) =~= cases@);
    true
}

impl Machine {
    /// Performs a task of a loop or a switch.
    #[verifier::rlimit(80)]
    pub fn perform_loop<'b, 't>(
        &mut self,
        lowerer: &mut Lowerer,
        builder: &mut FunctionBuilder<'b>,
        task: &Task<'t>,
    ) -> (r: Step)
        requires
            old(builder).wf(),
        ensures
            final(builder).wf(),
            did(
                scene(*old(lowerer), *old(self), old(builder)@),
                scene(*final(lowerer), *final(self), final(builder)@),
                r,
                loop_step(scene(*old(lowerer), *old(self), old(builder)@), *old(lowerer), *task),
            ),
            framed(*old(lowerer), *final(lowerer)),
            !(r is Done) ==> *final(lowerer) == *old(lowerer),
            extends(old(builder)@, final(builder)@),
            *final(final(builder).func) == *final(old(builder).func),
    {
        broadcast use group_builder_steps;

        let ghost before = scene(*lowerer, *self, builder@);
        let ghost expected = loop_step(before, *old(lowerer), *task);
        match task {
            Task::LoopBegin(has_update) => {
                let blocks = begin_loop(builder, *has_update);
                self.control.push(Control::Loop(blocks));
                lowerer.push_loop(
                    LoopContext { break_target: blocks.exit, continue_target: blocks.next },
                );
                assert(scene(*lowerer, *self, builder@) =~= expected->Done_0);
                Step::Done
            },
            Task::ForBegin => {
                let blocks = begin_for_body(builder);
                self.control.push(Control::Turn(blocks.0, blocks.1));
                assert(scene(*lowerer, *self, builder@) =~= expected->Done_0);
                Step::Done
            },
            Task::ForBranch => {
                if !self.is_ready(builder, 1) {
                    return Step::NotReady;
                }
                let a0 = self.peek(0);
                assert(has_value(builder@.func, top(self.values@, 0)));
                let (turn, done) = match self.enclosing(0) {
                    Some(Control::Turn(turn, done)) => (turn, done),
                    _ => {
                        return Step::NotReady;
                    }
                };
                if !(block_exists(builder, turn) && block_exists(builder, done)) {
                    return Step::NotReady;
                }
                self.drop_values(1);
                branch_for_body(builder, a0, turn, done);
                assert(scene(*lowerer, *self, builder@) =~= expected->Done_0);
                Step::Done
            },
            Task::ForUpdate => {
                let blocks = match self.enclosing(1) {
                    Some(Control::Loop(blocks)) => blocks,
                    _ => {
                        return Step::NotReady;
                    }
                };
                if !(block_exists(builder, blocks.start)
                    && block_exists(builder, blocks.exit)
                    && block_exists(builder, blocks.next)) {
                    return Step::NotReady;
                }
                finish_arm(builder, blocks.next);
                builder.switch_to_block(blocks.next);
                assert(scene(*lowerer, *self, builder@) =~= expected->Done_0);
                Step::Done
            },
            Task::ForElse => {
                let (_turn, done) = match self.enclosing(0) {
                    Some(Control::Turn(_turn, done)) => (_turn, done),
                    _ => {
                        return Step::NotReady;
                    }
                };
                let blocks = match self.enclosing(1) {
                    Some(Control::Loop(blocks)) => blocks,
                    _ => {
                        return Step::NotReady;
                    }
                };
                if !(block_exists(builder, done)
                    && block_exists(builder, blocks.start)
                    && block_exists(builder, blocks.exit)
                    && block_exists(builder, blocks.next)) {
                    return Step::NotReady;
                }
                finish_arm(builder, blocks.start);
                builder.switch_to_block(done);
                let _ = self.control.pop();
                assert(scene(*lowerer, *self, builder@) =~= expected->Done_0);
                Step::Done
            },
            Task::LoopEnd(back) => {
                let blocks = match self.enclosing(0) {
                    Some(Control::Loop(blocks)) => blocks,
                    _ => {
                        return Step::NotReady;
                    }
                };
                if !(block_exists(builder, blocks.start)
                    && block_exists(builder, blocks.exit)
                    && block_exists(builder, blocks.next)) {
                    return Step::NotReady;
                }
                if *back {
                    finish_arm(builder, blocks.start);
                }
                lowerer.pop_loop();
                builder.switch_to_block(blocks.exit);
                let _ = self.control.pop();
                assert(scene(*lowerer, *self, builder@) =~= expected->Done_0);
                Step::Done
            },
            Task::SwitchBegin(cases) => {
                if !self.is_ready(builder, 1) {
                    return Step::NotReady;
                }
                let a0 = self.peek(0);
                assert(has_value(builder@.func, top(self.values@, 0)));
                if !check_constants(cases) {
                    return Step::NotReady;
                }
                self.drop_values(1);
                let (merge, bodies) = lowerer.begin_switch(builder, a0, cases);
                self.control.push(Control::Switch(merge));
                self.cases.push(bodies);
                assert(scene(*lowerer, *self, builder@) =~= expected->Done_0);
                Step::Done
            },
            Task::CaseBegin(index) => {
                if !(self.cases.len() > 0
                    && *index < self.cases[self.cases.len() - 1].len()
                    && block_exists(builder, self.cases[self.cases.len() - 1][*index])) {
                    return Step::NotReady;
                }
                builder.switch_to_block(self.cases[self.cases.len() - 1][*index]);
                assert(scene(*lowerer, *self, builder@) =~= expected->Done_0);
                Step::Done
            },
            Task::CaseEnd => {
                let merge = match self.enclosing(0) {
                    Some(Control::Switch(merge)) => merge,
                    _ => {
                        return Step::NotReady;
                    }
                };
                if !block_exists(builder, merge) {
                    return Step::NotReady;
                }
                finish_arm(builder, merge);
                assert(scene(*lowerer, *self, builder@) =~= expected->Done_0);
                Step::Done
            },
            Task::SwitchEnd => {
                let merge = match self.enclosing(0) {
                    Some(Control::Switch(merge)) => merge,
                    _ => {
                        return Step::NotReady;
                    }
                };
                if !(block_exists(builder, merge) && self.cases.len() > 0) {
                    return Step::NotReady;
                }
                builder.switch_to_block(merge);
                let _ = self.control.pop();
                let _ = self.cases.pop();
                assert(scene(*lowerer, *self, builder@) =~= expected->Done_0);
                Step::Done
            },
            _ => Step::Other,
        }
    }
}

/// What performing a task that leaves a block comes to.
pub open spec fn exit_step<'t>(s: Scene, lowerer: Lowerer, task: Task<'t>) -> StepView {
    match task {
        Task::Jump(block) => {
            if has_block(s.b.func, block) {
                StepView::Done(
                    Scene { b: ended(s.b, TermView::Jump(block)), values: s.values, ..s },
                )
            } else {
                StepView::NotReady
            }
        },
        Task::RevertIfOpen => {
            StepView::Done(
                Scene {
                    b: if terminated(s.b) {
                        s.b
                    } else {
                        ended(
                            constant(s.b, word(0)),
                            TermView::Revert {
                                offset: next_value(s.b.func),
                                size: next_value(s.b.func),
                            },
                        )
                    },
                    values: s.values,
                    ..s
                },
            )
        },
        Task::LeaveIfOpen => {
            if lowerer.inline_returns matches Some(ctx) ==> has_block(s.b.func, ctx.exit_block) {
                StepView::Done(
                    Scene {
                        b: if terminated(s.b) {
                            s.b
                        } else {
                            match lowerer.inline_returns {
                                Some(ctx) => ended(s.b, TermView::Jump(ctx.exit_block)),
                                None => if is_public_function(s.b.func) && !lowerer.lowering_internal_function {
                                    ended(s.b, TermView::Stop)
                                } else {
                                    ended(s.b, TermView::Return(Seq::empty()))
                                },
                            }
                        },
                        values: s.values,
                        ..s
                    },
                )
            } else {
                StepView::NotReady
            }
        },
        Task::ReturnNothing => {
            StepView::Done(
                Scene { b: ended(s.b, TermView::Return(Seq::empty())), values: s.values, ..s },
            )
        },
        Task::Stop => {
            StepView::Done(Scene { b: ended(s.b, TermView::Stop), values: s.values, ..s })
        },
        _ => StepView::Other,
    }
}

/// Whether the block that an inlined body returns to exists.
pub fn exit_exists<'b>(lowerer: &Lowerer, builder: &FunctionBuilder<'b>) -> (r: bool)
    requires
        builder.wf(),
    ensures
        r == (lowerer.inline_returns matches Some(ctx) ==> has_block(
            builder@.func,
            ctx.exit_block,
        )),
{
    match &lowerer.inline_returns {
        Some(ctx) => block_exists(builder, ctx.exit_block),
        None => true,
    }
}

impl Machine {
    /// Performs a task that leaves a block.
    #[verifier::rlimit(40)]
    pub fn perform_exit<'b, 't>(
        &mut self,
        lowerer: &Lowerer,
        builder: &mut FunctionBuilder<'b>,
        task: &Task<'t>,
    ) -> (r: Step)
        requires
            old(builder).wf(),
        ensures
            final(builder).wf(),
            did(
                scene(*lowerer, *old(self), old(builder)@),
                scene(*lowerer, *final(self), final(builder)@),
                r,
                exit_step(scene(*lowerer, *old(self), old(builder)@), *lowerer, *task),
            ),
            extends(old(builder)@, final(builder)@),
            *final(final(builder).func) == *final(old(builder).func),
    {
        broadcast use group_builder_steps;

        let ghost before = scene(*lowerer, *self, builder@);
        let ghost expected = exit_step(before, *lowerer, *task);
        match task {
            Task::Jump(block) => {
                if !block_exists(builder, *block) {
                    return Step::NotReady;
                }
                builder.jump(*block);
                assert(scene(*lowerer, *self, builder@) =~= expected->Done_0);
                Step::Done
            },
            Task::RevertIfOpen => {
                if !is_terminated(builder) {
                    let zero = builder.imm_u64(0);
                    builder.revert(zero, zero);
                }
                assert(scene(*lowerer, *self, builder@) =~= expected->Done_0);
                Step::Done
            },
            Task::LeaveIfOpen => {
                if !exit_exists(lowerer, builder) {
                    return Step::NotReady;
                }
                if !is_terminated(builder) {
                    if let Some(ctx) = &lowerer.inline_returns {
                        builder.jump(ctx.exit_block);
                    } else if builder.func.is_public() && !lowerer.lowering_internal_function {
                        builder.stop();
                    } else {
                        builder.ret(Vec::new());
                    }
                }
                assert(scene(*lowerer, *self, builder@) =~= expected->Done_0);
                Step::Done
            },
            Task::ReturnNothing => {
                builder.ret(Vec::new());
                assert(scene(*lowerer, *self, builder@) =~= expected->Done_0);
                Step::Done
            },
            Task::Stop => {
                builder.stop();
                assert(scene(*lowerer, *self, builder@) =~= expected->Done_0);
                Step::Done
            },
            _ => Step::Other,
        }
    }
}

} // verus!
