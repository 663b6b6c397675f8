//! Tasks that work on values alone.

use crate::lower::control::{external_function_value, function_packed};
use crate::lower::emit::{
    bytes_cleaned, clean_fixed_bytes, extends, lower_abi_decode_word, truth, truth_of, word_decoded,
};
use crate::lower::machine::{
    cut, did, lemma_taken_exist, ready, scene, taken, top, value_exists, Machine, Scene, Step,
    StepView,
};
use crate::lower::objects::{
    allocate_memory_object, allocated, constant_bytes, field_loaded, field_stored,
    gather_multi_return_values, load_field, lower_constant_bytes, results_gathered,
    stage_multi_return_tail, stage_multi_return_values, staged, store_at, store_field, stored_at,
    tail_staged,
};
use crate::lower::plan::Task;
use crate::lower::state::Lowerer;
use crate::mir::builder::{constant, emitted, group_builder_steps, valued, FunctionBuilder};
use crate::mir::function::{has_value, next_value};
use crate::mir::inst::{inst, Op};
use crate::mir::types::{MemoryObjectLayout, MirType, Value};
use vstd::prelude::*;

verus! {

/// What performing a task that computes a value comes to.
pub open spec fn value_step<'t>(s: Scene, lowerer: Lowerer, task: Task<'t>) -> StepView {
    match task {
        Task::Constant(value) => {
            let (b, v) = (constant(s.b, value), next_value(s.b.func));
            StepView::Done(Scene { b, values: s.values.push(v), ..s })
        },
        Task::Reuse(value) => {
            if has_value(s.b.func, value) {
                let (b, v) = (s.b, value);
                StepView::Done(Scene { b, values: s.values.push(v), ..s })
            } else {
                StepView::NotReady
            }
        },
        Task::ErrorValue(guar) => {
            let (b, v) = (valued(s.b, Value::Error(guar)), next_value(s.b.func));
            StepView::Done(Scene { b, values: s.values.push(v), ..s })
        },
        Task::LoadStorage => {
            if ready(s.b, s.values, 1) {
                let a0 = top(s.values, 0);
                let (b, v) = (
                    emitted(s.b, inst(Op::SLoad, seq![a0]), Some(MirType::uint256())),
                    next_value(s.b.func),
                );
                StepView::Done(Scene { b, values: cut(s.values, 1).push(v), ..s })
            } else {
                StepView::NotReady
            }
        },
        Task::LoadMemory => {
            if ready(s.b, s.values, 1) {
                let a0 = top(s.values, 0);
                let (b, v) = (
                    emitted(s.b, inst(Op::MLoad, seq![a0]), Some(MirType::uint256())),
                    next_value(s.b.func),
                );
                StepView::Done(Scene { b, values: cut(s.values, 1).push(v), ..s })
            } else {
                StepView::NotReady
            }
        },
        Task::LoadField(fields, index) => {
            if ready(s.b, s.values, 1) {
                let a0 = top(s.values, 0);
                let (b, v) = field_loaded(s.b, a0, MemoryObjectLayout::Struct { fields }, index);
                StepView::Done(Scene { b, values: cut(s.values, 1).push(v), ..s })
            } else {
                StepView::NotReady
            }
        },
        Task::Balance => {
            if ready(s.b, s.values, 1) {
                let a0 = top(s.values, 0);
                let (b, v) = (
                    emitted(s.b, inst(Op::Balance, seq![a0]), Some(MirType::uint256())),
                    next_value(s.b.func),
                );
                StepView::Done(Scene { b, values: cut(s.values, 1).push(v), ..s })
            } else {
                StepView::NotReady
            }
        },
        Task::SliceLen => {
            if ready(s.b, s.values, 1) {
                let a0 = top(s.values, 0);
                let (b, v) = (
                    emitted(s.b, inst(Op::SliceLen, seq![a0]), Some(MirType::uint256())),
                    next_value(s.b.func),
                );
                StepView::Done(Scene { b, values: cut(s.values, 1).push(v), ..s })
            } else {
                StepView::NotReady
            }
        },
        Task::Truth => {
            if ready(s.b, s.values, 1) {
                let a0 = top(s.values, 0);
                let (b, v) = truth(s.b, a0);
                StepView::Done(Scene { b, values: cut(s.values, 1).push(v), ..s })
            } else {
                StepView::NotReady
            }
        },
        Task::Add => {
            if ready(s.b, s.values, 2) {
                let a0 = top(s.values, 0);
                let a1 = top(s.values, 1);
                let (b, v) = (
                    emitted(s.b, inst(Op::Add, seq![a1, a0]), Some(MirType::uint256())),
                    next_value(s.b.func),
                );
                StepView::Done(Scene { b, values: cut(s.values, 2).push(v), ..s })
            } else {
                StepView::NotReady
            }
        },
        Task::Allocate(size, kind) => {
            let (b, v) = allocated(s.b, size, kind);
            StepView::Done(Scene { b, values: s.values.push(v), ..s })
        },
        Task::CleanFixedBytes(width) => {
            if ready(s.b, s.values, 1) {
                let a0 = top(s.values, 0);
                let (b, v) = bytes_cleaned(s.b, a0, width);
                StepView::Done(Scene { b, values: cut(s.values, 1).push(v), ..s })
            } else {
                StepView::NotReady
            }
        },
        Task::DecodeWord(elem) => {
            if ready(s.b, s.values, 1) {
                let a0 = top(s.values, 0);
                let (b, v) = word_decoded(s.b, elem, a0);
                StepView::Done(Scene { b, values: cut(s.values, 1).push(v), ..s })
            } else {
                StepView::NotReady
            }
        },
        Task::ExternalPointer(selector) => {
            if ready(s.b, s.values, 1) {
                let a0 = top(s.values, 0);
                let (b, v) = function_packed(s.b, a0, selector);
                StepView::Done(Scene { b, values: cut(s.values, 1).push(v), ..s })
            } else {
                StepView::NotReady
            }
        },
        Task::ConstantBytes(bytes) => {
            if bytes@.len() <= usize::MAX - 64 {
                let (b, v) = constant_bytes(s.b, bytes@);
                StepView::Done(Scene { b, values: s.values.push(v), ..s })
            } else {
                StepView::NotReady
            }
        },
        _ => StepView::Other,
    }
}

impl Machine {
    /// Performs a task that computes a value.
    #[verifier::rlimit(40)]
    pub fn perform_value<'b, 't>(
        &mut self,
        lowerer: &Lowerer,
        builder: &mut FunctionBuilder<'b>,
        task: &Task<'t>,
    ) -> (r: Step)
        requires
            old(builder).wf(),
        ensures
            final(builder).wf(),
            did(
                scene(*lowerer, *old(self), old(builder)@),
                scene(*lowerer, *final(self), final(builder)@),
                r,
                value_step(scene(*lowerer, *old(self), old(builder)@), *lowerer, *task),
            ),
            extends(old(builder)@, final(builder)@),
            *final(final(builder).func) == *final(old(builder).func),
    {
        broadcast use group_builder_steps;

        let ghost before = scene(*lowerer, *self, builder@);
        let ghost expected = value_step(before, *lowerer, *task);
        match task {
            Task::Constant(value) => {
                let v = builder.imm_u256(*value);
                self.values.push(v);
                assert(scene(*lowerer, *self, builder@) =~= expected->Done_0);
                Step::Done
            },
            Task::Reuse(value) => {
                if !value_exists(builder, *value) {
                    return Step::NotReady;
                }
                let v = *value;
                self.values.push(v);
                assert(scene(*lowerer, *self, builder@) =~= expected->Done_0);
                Step::Done
            },
            Task::ErrorValue(guar) => {
                let v = builder.error_value(*guar);
                self.values.push(v);
                assert(scene(*lowerer, *self, builder@) =~= expected->Done_0);
                Step::Done
            },
            Task::LoadStorage => {
                if !self.is_ready(builder, 1) {
                    return Step::NotReady;
                }
                let a0 = self.peek(0);
                assert(has_value(builder@.func, top(self.values@, 0)));
                self.drop_values(1);
                let v = builder.sload(a0);
                self.values.push(v);
                assert(scene(*lowerer, *self, builder@) =~= expected->Done_0);
                Step::Done
            },
            Task::LoadMemory => {
                if !self.is_ready(builder, 1) {
                    return Step::NotReady;
                }
                let a0 = self.peek(0);
                assert(has_value(builder@.func, top(self.values@, 0)));
                self.drop_values(1);
                let v = builder.mload(a0);
                self.values.push(v);
                assert(scene(*lowerer, *self, builder@) =~= expected->Done_0);
                Step::Done
            },
            Task::LoadField(fields, index) => {
                if !self.is_ready(builder, 1) {
                    return Step::NotReady;
                }
                let a0 = self.peek(0);
                assert(has_value(builder@.func, top(self.values@, 0)));
                self.drop_values(1);
                let v = load_field(
                    builder,
                    a0,
                    MemoryObjectLayout::Struct { fields: *fields },
                    *index,
                );
                self.values.push(v);
                assert(scene(*lowerer, *self, builder@) =~= expected->Done_0);
                Step::Done
            },
            Task::Balance => {
                if !self.is_ready(builder, 1) {
                    return Step::NotReady;
                }
                let a0 = self.peek(0);
                assert(has_value(builder@.func, top(self.values@, 0)));
                self.drop_values(1);
                let v = builder.balance(a0);
                self.values.push(v);
                assert(scene(*lowerer, *self, builder@) =~= expected->Done_0);
                Step::Done
            },
            Task::SliceLen => {
                if !self.is_ready(builder, 1) {
                    return Step::NotReady;
                }
                let a0 = self.peek(0);
                assert(has_value(builder@.func, top(self.values@, 0)));
                self.drop_values(1);
                let v = builder.slice_len(a0);
                self.values.push(v);
                assert(scene(*lowerer, *self, builder@) =~= expected->Done_0);
                Step::Done
            },
            Task::Truth => {
                if !self.is_ready(builder, 1) {
                    return Step::NotReady;
                }
                let a0 = self.peek(0);
                assert(has_value(builder@.func, top(self.values@, 0)));
                self.drop_values(1);
                let v = truth_of(builder, a0);
                self.values.push(v);
                assert(scene(*lowerer, *self, builder@) =~= expected->Done_0);
                Step::Done
            },
            Task::Add => {
                if !self.is_ready(builder, 2) {
                    return Step::NotReady;
                }
                let a0 = self.peek(0);
                assert(has_value(builder@.func, top(self.values@, 0)));
                let a1 = self.peek(1);
                assert(has_value(builder@.func, top(self.values@, 1)));
                self.drop_values(2);
                let v = builder.add(a1, a0);
                self.values.push(v);
                assert(scene(*lowerer, *self, builder@) =~= expected->Done_0);
                Step::Done
            },
            Task::Allocate(size, kind) => {
                let v = allocate_memory_object(builder, *size, *kind);
                self.values.push(v);
                assert(scene(*lowerer, *self, builder@) =~= expected->Done_0);
                Step::Done
            },
            Task::CleanFixedBytes(width) => {
                if !self.is_ready(builder, 1) {
                    return Step::NotReady;
                }
                let a0 = self.peek(0);
                assert(has_value(builder@.func, top(self.values@, 0)));
                self.drop_values(1);
                let v = clean_fixed_bytes(builder, a0, *width);
                self.values.push(v);
                assert(scene(*lowerer, *self, builder@) =~= expected->Done_0);
                Step::Done
            },
            Task::DecodeWord(elem) => {
                if !self.is_ready(builder, 1) {
                    return Step::NotReady;
                }
                let a0 = self.peek(0);
                assert(has_value(builder@.func, top(self.values@, 0)));
                self.drop_values(1);
                let v = lower_abi_decode_word(builder, *elem, a0);
                self.values.push(v);
                assert(scene(*lowerer, *self, builder@) =~= expected->Done_0);
                Step::Done
            },
            Task::ExternalPointer(selector) => {
                if !self.is_ready(builder, 1) {
                    return Step::NotReady;
                }
                let a0 = self.peek(0);
                assert(has_value(builder@.func, top(self.values@, 0)));
                self.drop_values(1);
                let v = external_function_value(builder, a0, *selector);
                self.values.push(v);
                assert(scene(*lowerer, *self, builder@) =~= expected->Done_0);
                Step::Done
            },
            Task::ConstantBytes(bytes) => {
                if !(bytes.len() <= usize::MAX - 64) {
                    return Step::NotReady;
                }
                let v = lower_constant_bytes(builder, bytes);
                self.values.push(v);
                assert(scene(*lowerer, *self, builder@) =~= expected->Done_0);
                Step::Done
            },
            _ => Step::Other,
        }
    }
}

/// What performing a task that moves or stores values comes to.
pub open spec fn stack_step<'t>(s: Scene, lowerer: Lowerer, task: Task<'t>) -> StepView {
    match task {
        Task::Duplicate => {
            if ready(s.b, s.values, 1) {
                let a0 = top(s.values, 0);
                StepView::Done(Scene { values: s.values.push(a0), ..s })
            } else {
                StepView::NotReady
            }
        },
        Task::Discard => {
            if ready(s.b, s.values, 1) {
                let a0 = top(s.values, 0);
                StepView::Done(Scene { b: s.b, values: cut(s.values, 1), ..s })
            } else {
                StepView::NotReady
            }
        },
        Task::Exchange => {
            if ready(s.b, s.values, 2) {
                let a0 = top(s.values, 0);
                let a1 = top(s.values, 1);
                StepView::Done(Scene { values: cut(s.values, 2).push(a0).push(a1), ..s })
            } else {
                StepView::NotReady
            }
        },
        Task::Pick(depth) => {
            if depth < s.values.len() {
                StepView::Done(Scene { values: s.values.push(top(s.values, depth as int)), ..s })
            } else {
                StepView::NotReady
            }
        },
        Task::DropBelow(count, kept) => {
            if kept <= s.values.len() && count <= s.values.len() - kept {
                StepView::Done(
                    Scene {
                        values: cut(
                            cut(s.values, kept as int),
                            count as int,
                        ) + taken(s.values, kept as int),
                        ..s
                    },
                )
            } else {
                StepView::NotReady
            }
        },
        Task::StoreAt(offset) => {
            if ready(s.b, s.values, 2) {
                let a0 = top(s.values, 0);
                let a1 = top(s.values, 1);
                StepView::Done(
                    Scene { b: stored_at(s.b, a1, offset, a0), values: cut(s.values, 1), ..s },
                )
            } else {
                StepView::NotReady
            }
        },
        Task::KeepField(fields, index) => {
            if ready(s.b, s.values, 2) {
                let a0 = top(s.values, 0);
                let a1 = top(s.values, 1);
                StepView::Done(
                    Scene {
                        b: field_stored(s.b, a1, MemoryObjectLayout::Struct { fields }, index, a0),
                        values: cut(s.values, 1),
                        ..s
                    },
                )
            } else {
                StepView::NotReady
            }
        },
        Task::StoreStorage => {
            if ready(s.b, s.values, 2) {
                let a0 = top(s.values, 0);
                let a1 = top(s.values, 1);
                StepView::Done(
                    Scene {
                        b: emitted(s.b, inst(Op::SStore, seq![a0, a1]), None),
                        values: cut(s.values, 2),
                        ..s
                    },
                )
            } else {
                StepView::NotReady
            }
        },
        Task::StoreMemory => {
            if ready(s.b, s.values, 2) {
                let a0 = top(s.values, 0);
                let a1 = top(s.values, 1);
                StepView::Done(
                    Scene {
                        b: emitted(s.b, inst(Op::MStore, seq![a0, a1]), None),
                        values: cut(s.values, 2),
                        ..s
                    },
                )
            } else {
                StepView::NotReady
            }
        },
        Task::StoreField(fields, index) => {
            if ready(s.b, s.values, 2) {
                let a0 = top(s.values, 0);
                let a1 = top(s.values, 1);
                StepView::Done(
                    Scene {
                        b: field_stored(s.b, a0, MemoryObjectLayout::Struct { fields }, index, a1),
                        values: cut(s.values, 2),
                        ..s
                    },
                )
            } else {
                StepView::NotReady
            }
        },
        Task::StageValues(count) => {
            if ready(s.b, s.values, count as int) {
                if count <= u64::MAX / 32 {
                    StepView::Done(
                        Scene {
                            b: staged(s.b, taken(s.values, count as int), 0),
                            values: cut(s.values, count as int),
                            ..s
                        },
                    )
                } else {
                    StepView::NotReady
                }
            } else {
                StepView::NotReady
            }
        },
        Task::StageTail(count) => {
            if ready(s.b, s.values, count as int) {
                if count <= u64::MAX / 32 {
                    StepView::Done(
                        Scene {
                            b: tail_staged(s.b, taken(s.values, count as int)),
                            values: if count > 0 {
                                cut(s.values, count as int).push(taken(s.values, count as int)[0])
                            } else {
                                s.values
                            },
                            ..s
                        },
                    )
                } else {
                    StepView::NotReady
                }
            } else {
                StepView::NotReady
            }
        },
        Task::GatherResults(count) => {
            if ready(s.b, s.values, 1) {
                let a0 = top(s.values, 0);
                if count <= u64::MAX / 32 {
                    StepView::Done(
                        Scene {
                            b: results_gathered(s.b, a0, count as nat).0,
                            values: cut(s.values, 1) + results_gathered(s.b, a0, count as nat).1,
                            ..s
                        },
                    )
                } else {
                    StepView::NotReady
                }
            } else {
                StepView::NotReady
            }
        },
        _ => StepView::Other,
    }
}

impl Machine {
    /// Performs a task that moves or stores values.
    #[verifier::rlimit(40)]
    pub fn perform_stack<'b, 't>(
        &mut self,
        lowerer: &Lowerer,
        builder: &mut FunctionBuilder<'b>,
        task: &Task<'t>,
    ) -> (r: Step)
        requires
            old(builder).wf(),
        ensures
            final(builder).wf(),
            did(
                scene(*lowerer, *old(self), old(builder)@),
                scene(*lowerer, *final(self), final(builder)@),
                r,
                stack_step(scene(*lowerer, *old(self), old(builder)@), *lowerer, *task),
            ),
            extends(old(builder)@, final(builder)@),
            *final(final(builder).func) == *final(old(builder).func),
    {
        broadcast use group_builder_steps;

        let ghost before = scene(*lowerer, *self, builder@);
        let ghost expected = stack_step(before, *lowerer, *task);
        match task {
            Task::Duplicate => {
                if !self.is_ready(builder, 1) {
                    return Step::NotReady;
                }
                let a0 = self.peek(0);
                assert(has_value(builder@.func, top(self.values@, 0)));
                self.values.push(a0);
                assert(scene(*lowerer, *self, builder@) =~= expected->Done_0);
                Step::Done
            },
            Task::Discard => {
                if !self.is_ready(builder, 1) {
                    return Step::NotReady;
                }
                assert(has_value(builder@.func, top(self.values@, 0)));
                self.drop_values(1);
                assert(scene(*lowerer, *self, builder@) =~= expected->Done_0);
                Step::Done
            },
            Task::Exchange => {
                if !self.is_ready(builder, 2) {
                    return Step::NotReady;
                }
                let a0 = self.peek(0);
                assert(has_value(builder@.func, top(self.values@, 0)));
                let a1 = self.peek(1);
                assert(has_value(builder@.func, top(self.values@, 1)));
                self.drop_values(2);
                self.values.push(a0);
                self.values.push(a1);
                assert(scene(*lowerer, *self, builder@) =~= expected->Done_0);
                Step::Done
            },
            Task::Pick(depth) => {
                if !(*depth < self.values.len()) {
                    return Step::NotReady;
                }
                let v = self.peek(*depth);
                self.values.push(v);
                assert(scene(*lowerer, *self, builder@) =~= expected->Done_0);
                Step::Done
            },
            Task::DropBelow(count, kept) => {
                if !(*kept <= self.values.len() && *count <= self.values.len() - *kept) {
                    return Step::NotReady;
                }
                let kept_values = self.top_values(*kept);
                self.drop_values(*kept);
                self.drop_values(*count);
                self.push_values(&kept_values);
                assert(scene(*lowerer, *self, builder@) =~= expected->Done_0);
                Step::Done
            },
            Task::StoreAt(offset) => {
                if !self.is_ready(builder, 2) {
                    return Step::NotReady;
                }
                let a0 = self.peek(0);
                assert(has_value(builder@.func, top(self.values@, 0)));
                let a1 = self.peek(1);
                assert(has_value(builder@.func, top(self.values@, 1)));
                self.drop_values(1);
                store_at(builder, a1, *offset, a0);
                assert(scene(*lowerer, *self, builder@) =~= expected->Done_0);
                Step::Done
            },
            Task::KeepField(fields, index) => {
                if !self.is_ready(builder, 2) {
                    return Step::NotReady;
                }
                let a0 = self.peek(0);
                assert(has_value(builder@.func, top(self.values@, 0)));
                let a1 = self.peek(1);
                assert(has_value(builder@.func, top(self.values@, 1)));
                self.drop_values(1);
                store_field(
                    builder,
                    a1,
                    MemoryObjectLayout::Struct { fields: *fields },
                    *index,
                    a0,
                );
                assert(scene(*lowerer, *self, builder@) =~= expected->Done_0);
                Step::Done
            },
            Task::StoreStorage => {
                if !self.is_ready(builder, 2) {
                    return Step::NotReady;
                }
                let a0 = self.peek(0);
                assert(has_value(builder@.func, top(self.values@, 0)));
                let a1 = self.peek(1);
                assert(has_value(builder@.func, top(self.values@, 1)));
                self.drop_values(2);
                builder.sstore(a0, a1);
                assert(scene(*lowerer, *self, builder@) =~= expected->Done_0);
                Step::Done
            },
            Task::StoreMemory => {
                if !self.is_ready(builder, 2) {
                    return Step::NotReady;
                }
                let a0 = self.peek(0);
                assert(has_value(builder@.func, top(self.values@, 0)));
                let a1 = self.peek(1);
                assert(has_value(builder@.func, top(self.values@, 1)));
                self.drop_values(2);
                builder.mstore(a0, a1);
                assert(scene(*lowerer, *self, builder@) =~= expected->Done_0);
                Step::Done
            },
            Task::StoreField(fields, index) => {
                if !self.is_ready(builder, 2) {
                    return Step::NotReady;
                }
                let a0 = self.peek(0);
                assert(has_value(builder@.func, top(self.values@, 0)));
                let a1 = self.peek(1);
                assert(has_value(builder@.func, top(self.values@, 1)));
                self.drop_values(2);
                store_field(
                    builder,
                    a0,
                    MemoryObjectLayout::Struct { fields: *fields },
                    *index,
                    a1,
                );
                assert(scene(*lowerer, *self, builder@) =~= expected->Done_0);
                Step::Done
            },
            Task::StageValues(count) => {
                if !self.is_ready(builder, *count) {
                    return Step::NotReady;
                }
                if !(*count as u64 <= u64::MAX / 32) {
                    return Step::NotReady;
                }
                proof {
                    lemma_taken_exist(builder@, self.values@, *count as int);
                }
                let values = self.top_values(*count);
                self.drop_values(*count);
                stage_multi_return_values(builder, &values);
                assert(scene(*lowerer, *self, builder@) =~= expected->Done_0);
                Step::Done
            },
            Task::StageTail(count) => {
                if !self.is_ready(builder, *count) {
                    return Step::NotReady;
                }
                if !(*count as u64 <= u64::MAX / 32) {
                    return Step::NotReady;
                }
                proof {
                    lemma_taken_exist(builder@, self.values@, *count as int);
                }
                let values = self.top_values(*count);
                self.drop_values(*count);
                stage_multi_return_tail(builder, &values);
                if *count > 0 {
                    self.values.push(values[0]);
                }
                assert(scene(*lowerer, *self, builder@) =~= expected->Done_0);
                Step::Done
            },
            Task::GatherResults(count) => {
                if !self.is_ready(builder, 1) {
                    return Step::NotReady;
                }
                let a0 = self.peek(0);
                assert(has_value(builder@.func, top(self.values@, 0)));
                if !(*count as u64 <= u64::MAX / 32) {
                    return Step::NotReady;
                }
                self.drop_values(1);
                let values = gather_multi_return_values(builder, a0, *count);
                self.push_values(&values);
                assert(scene(*lowerer, *self, builder@) =~= expected->Done_0);
                Step::Done
            },
            _ => Step::Other,
        }
    }
}

} // verus!
