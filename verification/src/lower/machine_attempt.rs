//! Tasks of try statements and their handlers, of calls and of events.

use crate::hir::{has_variables, hir_wf, Hir};
use crate::lower::control::{arm_ended, finish_arm};
use crate::lower::emit::extends;
use crate::lower::handlers::{
    begin_error_handler, begin_fallback, begin_handlers, begin_member_call, begin_panic_handler,
    begin_try, branch_try, count_leading_topics, data_of, emit_log, error_handler_begun,
    error_region, error_region_of, event_data, fallback_begun, finish_member_call, handlers_begun,
    has_handlers, has_operands, leading_topics, logged, member_call_begun, member_called,
    panic_handler_begun, rethrow, rethrown, split_event_values, store_event_data, topics_of,
    try_begun, try_branched, CallOperands, Handlers,
};
use crate::lower::machine::{
    block_exists, cut, did, enclosed, lemma_taken_exist, ready, scene, taken, top, value_exists,
    Control, Machine, Scene, Step, StepView,
};
use crate::lower::plan::Task;
use crate::lower::state::Lowerer;
use crate::lower::types::{event_signature, event_topic, keccak_of_text};
use crate::mir::builder::{constant, ended, group_builder_steps, moved, FunctionBuilder};
use crate::mir::function::{has_block, has_value, next_value};
use crate::mir::inst::TermView;
use crate::word::{lemma_word_of, word_of};
use vstd::prelude::*;

verus! {

/// Whether the values and blocks of handlers exist.
pub fn handlers_exist<'b>(builder: &FunctionBuilder<'b>, handlers: Handlers) -> (r: bool)
    requires
        builder.wf(),
    ensures
        r == has_handlers(builder@, handlers),
{
    block_exists(builder, handlers.rethrow) && value_exists(builder, handlers.size)
        && value_exists(builder, handlers.four) && value_exists(builder, handlers.has_selector)
        && value_exists(builder, handlers.selector) && block_exists(builder, handlers.fallback)
}

/// Whether the operands of a call exist.
pub fn operands_exist<'b>(builder: &FunctionBuilder<'b>, operands: CallOperands) -> (r: bool)
    requires
        builder.wf(),
    ensures
        r == has_operands(builder@, operands),
{
    value_exists(builder, operands.calldata_size) && value_exists(builder, operands.args_offset)
        && value_exists(builder, operands.ret_offset) && value_exists(builder, operands.ret_size)
        && value_exists(builder, operands.gas)
}

/// What performing a task of a try statement comes to.
pub open spec fn attempt_step<'t>(s: Scene, lowerer: Lowerer, task: Task<'t>) -> StepView {
    match task {
        Task::TryBegin => {
            StepView::Done(
                Scene {
                    b: try_begun(s.b).0,
                    control: s.control.push(
                        Control::Attempt(
                            try_begun(s.b).1.0,
                            try_begun(s.b).1.1,
                            try_begun(s.b).1.2,
                        ),
                    ),
                    ..s
                },
            )
        },
        Task::TryBranch => {
            if ready(s.b, s.values, 1) {
                let a0 = top(s.values, 0);
                let c0 = enclosed(s.control, 0)->0;
                let success = c0->Attempt_0;
                let failure = c0->Attempt_1;
                if enclosed(s.control, 0) is Some
                    && c0 is Attempt
                    && has_block(s.b.func, success)
                    && has_block(s.b.func, failure) {
                    StepView::Done(
                        Scene {
                            b: try_branched(s.b, a0, success, failure),
                            values: cut(s.values, 1),
                            ..s
                        },
                    )
                } else {
                    StepView::NotReady
                }
            } else {
                StepView::NotReady
            }
        },
        Task::TryCatch(_) => {
            let c0 = enclosed(s.control, 0)->0;
            let failure = c0->Attempt_1;
            let merge = c0->Attempt_2;
            if enclosed(s.control, 0) is Some
                && c0 is Attempt
                && has_block(s.b.func, failure)
                && has_block(s.b.func, merge) {
                StepView::Done(Scene { b: moved(arm_ended(s.b, merge), failure), ..s })
            } else {
                StepView::NotReady
            }
        },
        Task::TryEnd => {
            let c0 = enclosed(s.control, 0)->0;
            let merge = c0->Attempt_2;
            if enclosed(s.control, 0) is Some && c0 is Attempt && has_block(s.b.func, merge) {
                StepView::Done(Scene { b: moved(s.b, merge), control: s.control.drop_last(), ..s })
            } else {
                StepView::NotReady
            }
        },
        Task::HandlersBegin => {
            StepView::Done(
                Scene {
                    b: handlers_begun(s.b).0,
                    control: s.control.push(Control::Handlers(handlers_begun(s.b).1)),
                    ..s
                },
            )
        },
        Task::ErrorHandler => {
            let c0 = enclosed(s.control, 0)->0;
            let h = c0->Handlers_0;
            if enclosed(s.control, 0) is Some && c0 is Handlers && has_handlers(s.b, h) {
                StepView::Done(
                    Scene {
                        b: error_handler_begun(s.b, h.selector, h.has_selector).0,
                        control: s.control.push(
                            Control::Next(error_handler_begun(s.b, h.selector, h.has_selector).1),
                        ),
                        ..s
                    },
                )
            } else {
                StepView::NotReady
            }
        },
        Task::ErrorRegion => {
            if ready(s.b, s.values, 1) {
                let a0 = top(s.values, 0);
                let c1 = enclosed(s.control, 1)->0;
                let h = c1->Handlers_0;
                if enclosed(s.control, 1) is Some && c1 is Handlers && has_handlers(s.b, h) {
                    StepView::Done(
                        {
                            let (b, r) = error_region_of(s.b, a0, h.four);
                            Scene {
                                b,
                                values: cut(s.values, 1).push(r.0).push(r.1).push(r.2).push(r.3),
                                ..s
                            }
                        },
                    )
                } else {
                    StepView::NotReady
                }
            } else {
                StepView::NotReady
            }
        },
        Task::PanicHandler => {
            let c0 = enclosed(s.control, 0)->0;
            let h = c0->Handlers_0;
            if enclosed(s.control, 0) is Some && c0 is Handlers && has_handlers(s.b, h) {
                StepView::Done(
                    {
                        let (b, r) = panic_handler_begun(
                            s.b,
                            h.size,
                            h.four,
                            h.has_selector,
                            h.selector,
                        );
                        Scene {
                            b,
                            values: s.values.push(r.0),
                            control: s.control.push(Control::Next(r.1)),
                            ..s
                        }
                    },
                )
            } else {
                StepView::NotReady
            }
        },
        Task::HandlerEnd => {
            let c0 = enclosed(s.control, 0)->0;
            let next = c0->Next_0;
            let c2 = enclosed(s.control, 2)->0;
            let merge = c2->Attempt_2;
            if enclosed(s.control, 0) is Some
                && c0 is Next
                && has_block(s.b.func, next)
                && enclosed(s.control, 2) is Some
                && c2 is Attempt
                && has_block(s.b.func, merge) {
                StepView::Done(
                    Scene {
                        b: moved(arm_ended(s.b, merge), next),
                        control: s.control.drop_last(),
                        ..s
                    },
                )
            } else {
                StepView::NotReady
            }
        },
        Task::FallbackHandler => {
            let c0 = enclosed(s.control, 0)->0;
            let h = c0->Handlers_0;
            if enclosed(s.control, 0) is Some && c0 is Handlers && has_handlers(s.b, h) {
                StepView::Done(Scene { b: fallback_begun(s.b, h.fallback), ..s })
            } else {
                StepView::NotReady
            }
        },
        Task::FallbackEnd => {
            let c1 = enclosed(s.control, 1)->0;
            let merge = c1->Attempt_2;
            if enclosed(s.control, 1) is Some && c1 is Attempt && has_block(s.b.func, merge) {
                StepView::Done(Scene { b: arm_ended(s.b, merge), ..s })
            } else {
                StepView::NotReady
            }
        },
        Task::NoFallback => {
            let c0 = enclosed(s.control, 0)->0;
            let h = c0->Handlers_0;
            if enclosed(s.control, 0) is Some && c0 is Handlers && has_handlers(s.b, h) {
                StepView::Done(Scene { b: ended(s.b, TermView::Jump(h.rethrow)), ..s })
            } else {
                StepView::NotReady
            }
        },
        Task::Rethrow => {
            let c0 = enclosed(s.control, 0)->0;
            let h = c0->Handlers_0;
            if enclosed(s.control, 0) is Some && c0 is Handlers && has_handlers(s.b, h) {
                StepView::Done(
                    Scene { b: rethrown(s.b, h.rethrow), control: s.control.drop_last(), ..s },
                )
            } else {
                StepView::NotReady
            }
        },
        _ => StepView::Other,
    }
}

impl Machine {
    /// Performs a task of a try statement.
    #[verifier::rlimit(40)]
    pub fn perform_attempt<'b, 't>(
        &mut self,
        lowerer: &Lowerer,
        builder: &mut FunctionBuilder<'b>,
        task: &Task<'t>,
    ) -> (r: Step)
        requires
            old(builder).wf(),
        ensures
            final(builder).wf(),
            did(
                scene(*lowerer, *old(self), old(builder)@),
                scene(*lowerer, *final(self), final(builder)@),
                r,
                attempt_step(scene(*lowerer, *old(self), old(builder)@), *lowerer, *task),
            ),
            extends(old(builder)@, final(builder)@),
            *final(final(builder).func) == *final(old(builder).func),
    {
        broadcast use group_builder_steps;

        let ghost before = scene(*lowerer, *self, builder@);
        let ghost expected = attempt_step(before, *lowerer, *task);
        match task {
            Task::TryBegin => {
                let blocks = begin_try(builder);
                self.control.push(Control::Attempt(blocks.0, blocks.1, blocks.2));
                assert(scene(*lowerer, *self, builder@) =~= expected->Done_0);
                Step::Done
            },
            Task::TryBranch => {
                if !self.is_ready(builder, 1) {
                    return Step::NotReady;
                }
                let a0 = self.peek(0);
                assert(has_value(builder@.func, top(self.values@, 0)));
                let (success, failure, _merge) = match self.enclosing(0) {
                    Some(Control::Attempt(success, failure, _merge)) => (success, failure, _merge),
                    _ => {
                        return Step::NotReady;
                    }
                };
                if !(block_exists(builder, success) && block_exists(builder, failure)) {
                    return Step::NotReady;
                }
                self.drop_values(1);
                branch_try(builder, a0, success, failure);
                assert(scene(*lowerer, *self, builder@) =~= expected->Done_0);
                Step::Done
            },
            Task::TryCatch(_) => {
                let (_success, failure, merge) = match self.enclosing(0) {
                    Some(Control::Attempt(_success, failure, merge)) => (_success, failure, merge),
                    _ => {
                        return Step::NotReady;
                    }
                };
                if !(block_exists(builder, failure) && block_exists(builder, merge)) {
                    return Step::NotReady;
                }
                finish_arm(builder, merge);
                builder.switch_to_block(failure);
                assert(scene(*lowerer, *self, builder@) =~= expected->Done_0);
                Step::Done
            },
            Task::TryEnd => {
                let (_success, _failure, merge) = match self.enclosing(0) {
                    Some(
                        Control::Attempt(_success, _failure, merge),
                    ) => (_success, _failure, merge),
                    _ => {
                        return Step::NotReady;
                    }
                };
                if !block_exists(builder, merge) {
                    return Step::NotReady;
                }
                builder.switch_to_block(merge);
                let _ = self.control.pop();
                assert(scene(*lowerer, *self, builder@) =~= expected->Done_0);
                Step::Done
            },
            Task::HandlersBegin => {
                let handlers = begin_handlers(builder);
                self.control.push(Control::Handlers(handlers));
                assert(scene(*lowerer, *self, builder@) =~= expected->Done_0);
                Step::Done
            },
            Task::ErrorHandler => {
                let h = match self.enclosing(0) {
                    Some(Control::Handlers(h)) => h,
                    _ => {
                        return Step::NotReady;
                    }
                };
                if !handlers_exist(builder, h) {
                    return Step::NotReady;
                }
                let next = begin_error_handler(builder, h.selector, h.has_selector);
                self.control.push(Control::Next(next));
                assert(scene(*lowerer, *self, builder@) =~= expected->Done_0);
                Step::Done
            },
            Task::ErrorRegion => {
                if !self.is_ready(builder, 1) {
                    return Step::NotReady;
                }
                let a0 = self.peek(0);
                assert(has_value(builder@.func, top(self.values@, 0)));
                let h = match self.enclosing(1) {
                    Some(Control::Handlers(h)) => h,
                    _ => {
                        return Step::NotReady;
                    }
                };
                if !handlers_exist(builder, h) {
                    return Step::NotReady;
                }
                self.drop_values(1);
                let r = error_region(builder, a0, h.four);
                self.values.push(r.0);
                self.values.push(r.1);
                self.values.push(r.2);
                self.values.push(r.3);
                assert(scene(*lowerer, *self, builder@) =~= expected->Done_0);
                Step::Done
            },
            Task::PanicHandler => {
                let h = match self.enclosing(0) {
                    Some(Control::Handlers(h)) => h,
                    _ => {
                        return Step::NotReady;
                    }
                };
                if !handlers_exist(builder, h) {
                    return Step::NotReady;
                }
                let (code, next) = begin_panic_handler(
                    builder,
                    h.size,
                    h.four,
                    h.has_selector,
                    h.selector,
                );
                self.values.push(code);
                self.control.push(Control::Next(next));
                assert(scene(*lowerer, *self, builder@) =~= expected->Done_0);
                Step::Done
            },
            Task::HandlerEnd => {
                let next = match self.enclosing(0) {
                    Some(Control::Next(next)) => next,
                    _ => {
                        return Step::NotReady;
                    }
                };
                let (_success, _failure, merge) = match self.enclosing(2) {
                    Some(
                        Control::Attempt(_success, _failure, merge),
                    ) => (_success, _failure, merge),
                    _ => {
                        return Step::NotReady;
                    }
                };
                if !(block_exists(builder, next) && block_exists(builder, merge)) {
                    return Step::NotReady;
                }
                finish_arm(builder, merge);
                builder.switch_to_block(next);
                let _ = self.control.pop();
                assert(scene(*lowerer, *self, builder@) =~= expected->Done_0);
                Step::Done
            },
            Task::FallbackHandler => {
                let h = match self.enclosing(0) {
                    Some(Control::Handlers(h)) => h,
                    _ => {
                        return Step::NotReady;
                    }
                };
                if !handlers_exist(builder, h) {
                    return Step::NotReady;
                }
                begin_fallback(builder, h.fallback);
                assert(scene(*lowerer, *self, builder@) =~= expected->Done_0);
                Step::Done
            },
            Task::FallbackEnd => {
                let (_success, _failure, merge) = match self.enclosing(1) {
                    Some(
                        Control::Attempt(_success, _failure, merge),
                    ) => (_success, _failure, merge),
                    _ => {
                        return Step::NotReady;
                    }
                };
                if !block_exists(builder, merge) {
                    return Step::NotReady;
                }
                finish_arm(builder, merge);
                assert(scene(*lowerer, *self, builder@) =~= expected->Done_0);
                Step::Done
            },
            Task::NoFallback => {
                let h = match self.enclosing(0) {
                    Some(Control::Handlers(h)) => h,
                    _ => {
                        return Step::NotReady;
                    }
                };
                if !handlers_exist(builder, h) {
                    return Step::NotReady;
                }
                builder.jump(h.rethrow);
                assert(scene(*lowerer, *self, builder@) =~= expected->Done_0);
                Step::Done
            },
            Task::Rethrow => {
                let h = match self.enclosing(0) {
                    Some(Control::Handlers(h)) => h,
                    _ => {
                        return Step::NotReady;
                    }
                };
                if !handlers_exist(builder, h) {
                    return Step::NotReady;
                }
                rethrow(builder, h.rethrow);
                let _ = self.control.pop();
                assert(scene(*lowerer, *self, builder@) =~= expected->Done_0);
                Step::Done
            },
            _ => Step::Other,
        }
    }
}

/// How many topics an event is logged with: its indexed values, and its signature
/// if it has one.
pub open spec fn topic_count(indexed: usize, named: bool) -> nat {
    if named {
        (indexed + 1) as nat
    } else {
        indexed as nat
    }
}

/// What performing a task of a call or an event comes to.
pub open spec fn event_step<'t>(s: Scene, lowerer: Lowerer, hir: Hir, task: Task<'t>) -> StepView {
    match task {
        Task::MemberCallBegin(selector, count, returned) => {
            if ready(s.b, s.values, 1) {
                let a0 = top(s.values, 0);
                if ready(s.b, cut(s.values, 1), count as int)
                    && count <= (usize::MAX - 4) / 32
                    && returned <= u64::MAX / 32 {
                    StepView::Done(
                        {
                            let under = cut(s.values, 1);
                            let (b, operands) = member_call_begun(
                                s.b,
                                selector,
                                taken(under, count as int),
                                returned,
                            );
                            Scene {
                                b,
                                values: cut(under, count as int),
                                control: s.control.push(Control::Call(operands, a0)),
                                ..s
                            }
                        },
                    )
                } else {
                    StepView::NotReady
                }
            } else {
                StepView::NotReady
            }
        },
        Task::MemberCallEnd => {
            if ready(s.b, s.values, 1) {
                let a0 = top(s.values, 0);
                let c0 = enclosed(s.control, 0)->0;
                let operands = c0->Call_0;
                let addr = c0->Call_1;
                if enclosed(s.control, 0) is Some
                    && c0 is Call
                    && has_operands(s.b, operands)
                    && has_value(s.b.func, addr) {
                    StepView::Done(
                        {
                            let (b, v) = member_called(s.b, operands, addr, a0);
                            Scene {
                                b,
                                values: cut(s.values, 1).push(v),
                                control: s.control.drop_last(),
                                ..s
                            }
                        },
                    )
                } else {
                    StepView::NotReady
                }
            } else {
                StepView::NotReady
            }
        },
        Task::EventTopic(id) => {
            if id.0 < hir.events@.len() {
                let (b, v) = (
                    constant(
                        s.b,
                        word_of(keccak_of_text(event_signature(hir, hir.events@[id.0 as int]))),
                    ),
                    next_value(s.b.func),
                );
                StepView::Done(Scene { b, values: s.values.push(v), ..s })
            } else {
                StepView::NotReady
            }
        },
        Task::SplitEvent(id, count) => {
            if id.0 < hir.events@.len()
                && count + leading_topics(hir.events@[id.0 as int]) <= s.values.len()
                && count <= hir.events@[id.0 as int].parameters@.len() {
                StepView::Done(
                    {
                        let event = hir.events@[id.0 as int];
                        let given = count + leading_topics(event);
                        let values = taken(s.values, given);
                        Scene {
                            values: cut(s.values, given) + topics_of(
                                hir,
                                event,
                                values,
                                count as nat,
                            ) + data_of(hir, event, values, count as nat),
                            ..s
                        }
                    },
                )
            } else {
                StepView::NotReady
            }
        },
        Task::StoreEventData(count) => {
            if ready(s.b, s.values, count as int) {
                if count <= u64::MAX / 32 {
                    StepView::Done(
                        {
                            let (b, r) = event_data(s.b, taken(s.values, count as int));
                            Scene {
                                b,
                                values: cut(s.values, count as int).push(r.0).push(r.1),
                                ..s
                            }
                        },
                    )
                } else {
                    StepView::NotReady
                }
            } else {
                StepView::NotReady
            }
        },
        Task::Log(indexed, named) => {
            let count = topic_count(indexed, named);
            if ready(s.b, s.values, 2) {
                let a0 = top(s.values, 0);
                let a1 = top(s.values, 1);
                if count <= usize::MAX && ready(s.b, cut(s.values, 2), count as int) {
                    StepView::Done(
                        {
                            let under = cut(s.values, 2);
                            Scene {
                                b: logged(s.b, a1, a0, taken(under, count as int)),
                                values: cut(under, count as int),
                                ..s
                            }
                        },
                    )
                } else {
                    StepView::NotReady
                }
            } else {
                StepView::NotReady
            }
        },
        _ => StepView::Other,
    }
}

impl Machine {
    /// Performs a task of a call or an event.
    #[verifier::rlimit(40)]
    pub fn perform_event<'b, 't>(
        &mut self,
        lowerer: &Lowerer,
        builder: &mut FunctionBuilder<'b>,
        hir: &Hir,
        task: &Task<'t>,
    ) -> (r: Step)
        requires
            old(builder).wf(),
            hir_wf(*hir),
        ensures
            final(builder).wf(),
            did(
                scene(*lowerer, *old(self), old(builder)@),
                scene(*lowerer, *final(self), final(builder)@),
                r,
                event_step(scene(*lowerer, *old(self), old(builder)@), *lowerer, *hir, *task),
            ),
            extends(old(builder)@, final(builder)@),
            *final(final(builder).func) == *final(old(builder).func),
    {
        broadcast use group_builder_steps;

        let ghost before = scene(*lowerer, *self, builder@);
        let ghost expected = event_step(before, *lowerer, *hir, *task);
        match task {
            Task::MemberCallBegin(selector, count, returned) => {
                if !self.is_ready(builder, 1) {
                    return Step::NotReady;
                }
                let a0 = self.peek(0);
                assert(has_value(builder@.func, top(self.values@, 0)));
                if !(self.is_ready_under(builder, 1, *count)
                    && *count <= (usize::MAX - 4) / 32
                    && *returned <= u64::MAX / 32) {
                    return Step::NotReady;
                }
                self.drop_values(1);
                proof {
                    lemma_taken_exist(builder@, self.values@, *count as int);
                }
                let args = self.top_values(*count);
                self.drop_values(*count);
                let operands = begin_member_call(builder, *selector, &args, *returned);
                self.control.push(Control::Call(operands, a0));
                assert(scene(*lowerer, *self, builder@) =~= expected->Done_0);
                Step::Done
            },
            Task::MemberCallEnd => {
                if !self.is_ready(builder, 1) {
                    return Step::NotReady;
                }
                let a0 = self.peek(0);
                assert(has_value(builder@.func, top(self.values@, 0)));
                let (operands, addr) = match self.enclosing(0) {
                    Some(Control::Call(operands, addr)) => (operands, addr),
                    _ => {
                        return Step::NotReady;
                    }
                };
                if !(operands_exist(builder, operands) && value_exists(builder, addr)) {
                    return Step::NotReady;
                }
                self.drop_values(1);
                let v = finish_member_call(builder, operands, addr, a0);
                self.values.push(v);
                let _ = self.control.pop();
                assert(scene(*lowerer, *self, builder@) =~= expected->Done_0);
                Step::Done
            },
            Task::EventTopic(id) => {
                if !(id.0 < hir.events.len()) {
                    return Step::NotReady;
                }
                proof {
                    reveal(hir_wf);
                    assert(has_variables(*hir, hir.events@[id.0 as int].parameters@));
                }
                let topic = event_topic(hir, &hir.events[id.0]);
                proof {
                    lemma_word_of(topic);
                }
                let v = builder.imm_u256(topic);
                self.values.push(v);
                assert(scene(*lowerer, *self, builder@) =~= expected->Done_0);
                Step::Done
            },
            Task::SplitEvent(id, count) => {
                if !(id.0 < hir.events.len()) {
                    return Step::NotReady;
                }
                let event = &hir.events[id.0];
                let lead = count_leading_topics(event);
                if !(lead <= self.values.len()
                    && *count <= self.values.len() - lead
                    && *count <= event.parameters.len()) {
                    return Step::NotReady;
                }
                proof {
                    reveal(hir_wf);
                    assert(has_variables(*hir, hir.events@[id.0 as int].parameters@));
                }
                let values = self.top_values(*count + lead);
                self.drop_values(*count + lead);
                let (topics, data) = split_event_values(hir, event, &values);
                self.push_values(&topics);
                self.push_values(&data);
                assert(scene(*lowerer, *self, builder@) =~= expected->Done_0);
                Step::Done
            },
            Task::StoreEventData(count) => {
                if !self.is_ready(builder, *count) {
                    return Step::NotReady;
                }
                if !(*count as u64 <= u64::MAX / 32) {
                    return Step::NotReady;
                }
                proof {
                    lemma_taken_exist(builder@, self.values@, *count as int);
                }
                let data = self.top_values(*count);
                self.drop_values(*count);
                let r = store_event_data(builder, &data);
                self.values.push(r.0);
                self.values.push(r.1);
                assert(scene(*lowerer, *self, builder@) =~= expected->Done_0);
                Step::Done
            },
            Task::Log(indexed, named) => {
                if !self.is_ready(builder, 2) {
                    return Step::NotReady;
                }
                let a0 = self.peek(0);
                assert(has_value(builder@.func, top(self.values@, 0)));
                let a1 = self.peek(1);
                assert(has_value(builder@.func, top(self.values@, 1)));
                if *named && *indexed == usize::MAX {
                    return Step::NotReady;
                }
                let count: usize = if *named {
                    *indexed + 1
                } else {
                    *indexed
                };
                if !self.is_ready_under(builder, 2, count) {
                    return Step::NotReady;
                }
                self.drop_values(2);
                proof {
                    lemma_taken_exist(builder@, self.values@, count as int);
                }
                let topics = self.top_values(count);
                self.drop_values(count);
                emit_log(builder, a1, a0, &topics);
                assert(scene(*lowerer, *self, builder@) =~= expected->Done_0);
                Step::Done
            },
            _ => Step::Other,
        }
    }
}

} // verus!
