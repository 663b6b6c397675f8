//! Performing any task.

use crate::hir::{Expr, ExprKind, Hir, Ty};
use crate::lower::bind::results_for;
use crate::lower::control::{cut_slice, open_slice, slice_cut, SliceProblem, SliceSource};
use crate::lower::defaults::{defaults_fit, spanned, struct_declared, zero_value};
use crate::lower::emit::extends;
use crate::lower::function::error_helper;
use crate::lower::machine::{cut, did, framed, ready, scene, top, Machine, Scene, Step, StepView};
use crate::lower::machine_attempt::{attempt_step, event_step};
use crate::lower::machine_control::{arms_step, exit_step, loop_step};
use crate::lower::machine_decode::{decode_step, storage_step};
use crate::lower::machine_flow::slice_of;
use crate::lower::machine_names::{codes_fit, name_step, param_step, plain_step, sequence_step};
use crate::lower::machine_places::{
    binding_step, copy_values, default_step, fill_pending, given_flags, local_step, pending_values,
    place_step, results_step, state_step, struct_is_declared, values_exist,
};
use crate::lower::machine_values::{stack_step, value_step};
use crate::lower::objects::{emit_helper_revert, helper_reverted, store_at, stored_at};
use crate::lower::plan::Task;
use crate::lower::state::{error_emitted, Complaint, Lowerer};
use crate::mir::builder::{emitted, group_builder_steps, BuilderView, FunctionBuilder};
use crate::mir::function::{has_value, has_values};
use crate::mir::inst::{inst, Op};
use crate::mir::module::ModuleView;
use crate::mir::types::{FunctionId, Span, ValueId};
use vstd::prelude::*;

verus! {

/// What gives the first `count` elements of an array in memory their default
/// values in place, and the complaints that are made.
pub open spec fn zeroed_in_place(b: BuilderView, hir: Hir, element: Ty, ptr: ValueId, count: nat) -> (
    BuilderView,
    Seq<Complaint>,
)
    decreases count,
{
    if count == 0 {
        (b, Seq::empty())
    } else {
        let (b, front) = zeroed_in_place(b, hir, element, ptr, (count - 1) as nat);
        let (b, value, complaints) = zero_value(b, hir, element);
        (
            if count == 1 {
                emitted(b, inst(Op::MStore, seq![ptr, value]), None)
            } else {
                stored_at(b, ptr, ((count - 1) * 32) as u64, value)
            },
            front + complaints,
        )
    }
}

impl Lowerer {
    /// Gives the elements of an array in memory their default values in place.
    pub fn zero_in_place<'b>(
        &mut self,
        builder: &mut FunctionBuilder<'b>,
        hir: &Hir,
        element: &Ty,
        len: u64,
        span: Span,
        ptr: ValueId,
    )
        requires
            old(builder).wf(),
            defaults_fit(*hir),
            struct_declared(*hir, *element),
            len * 32 <= u64::MAX,
            has_value(old(builder)@.func, ptr),
        ensures
            final(builder).wf(),
            final(builder)@ == zeroed_in_place(old(builder)@, *hir, *element, ptr, len as nat).0,
            *final(self) == (Lowerer { complaints: final(self).complaints, ..*old(self) }),
            final(self).complaints@ == old(self).complaints@ + spanned(
                zeroed_in_place(old(builder)@, *hir, *element, ptr, len as nat).1,
                span,
            ),
            extends(old(builder)@, final(builder)@),
            *final(final(builder).func) == *final(old(builder).func),
    {
        let mut i: u64 = 0;
        assert(self.complaints@ =~= old(self).complaints@ + spanned(Seq::empty(), span));
        while i < len
            invariant
                i <= len,
                len * 32 <= u64::MAX,
                builder.wf(),
                defaults_fit(*hir),
                struct_declared(*hir, *element),
                has_value(old(builder)@.func, ptr),
                builder@ == zeroed_in_place(old(builder)@, *hir, *element, ptr, i as nat).0,
                *self == (Lowerer { complaints: self.complaints, ..*old(self) }),
                self.complaints@ == old(self).complaints@ + spanned(
                    zeroed_in_place(old(builder)@, *hir, *element, ptr, i as nat).1,
                    span,
                ),
                extends(old(builder)@, builder@),
                *final(builder.func) == *final(old(builder).func),
            decreases len - i,
        {
            broadcast use group_builder_steps;

            let ghost front = zeroed_in_place(old(builder)@, *hir, *element, ptr, i as nat).1;
            let ghost more = zero_value(builder@, *hir, *element).2;
            let value = self.zero_memory_field_value_ty(builder, hir, element, span);
            if i == 0 {
                builder.mstore(ptr, value);
            } else {
                store_at(builder, ptr, i * 32, value);
            }
            i = i + 1;
            assert(spanned(front + more, span) =~= spanned(front, span) + spanned(more, span));
            assert(self.complaints@ =~= old(self).complaints@ + spanned(front + more, span));
        }
    }
}

/// The results of a call that are assigned, the first at the end.
pub open spec fn results_stack(values: Seq<ValueId>, given: Seq<bool>, from: nat) -> Seq<ValueId>
    decreases values.len() - from,
{
    if from >= values.len() {
        Seq::empty()
    } else {
        let rest = results_stack(values, given, from + 1);
        if given[from as int] {
            rest.push(values[from as int])
        } else {
            rest
        }
    }
}

/// Returns which of some elements are given.
fn flags_of_elements(elements: &Vec<Option<Expr>>) -> (r: Vec<bool>)
    ensures
        r@ == given_flags(elements@),
{
    let mut flags: Vec<bool> = Vec::new();
    let mut i: usize = 0;
    while i < elements.len()
        invariant
            i <= elements@.len(),
            flags@ == given_flags(elements@).take(i as int),
        decreases elements@.len() - i,
    {
        flags.push(elements[i].is_some());
        i = i + 1;
        assert(flags@ =~= given_flags(elements@).take(i as int));
    }
    assert(flags@ =~= given_flags(elements@));
    flags
}

impl Machine {
    /// Pushes the results of a call that are assigned, the first last.
    fn push_results(&mut self, values: &Vec<ValueId>, given: &Vec<bool>)
        requires
            values@.len() == given@.len(),
        ensures
            *final(self) == (Machine { values: final(self).values, ..*old(self) }),
            final(self).values@ == old(self).values@ + results_stack(values@, given@, 0),
    {
        let mut i: usize = values.len();
        assert(self.values@ =~= old(self).values@ + results_stack(values@, given@, i as nat));
        while i > 0
            invariant
                i <= values@.len(),
                values@.len() == given@.len(),
                *self == (Machine { values: self.values, ..*old(self) }),
                self.values@ == old(self).values@ + results_stack(values@, given@, i as nat),
            decreases i,
        {
            i = i - 1;
            if given[i] {
                self.values.push(values[i]);
            }
            assert(self.values@ =~= old(self).values@ + results_stack(values@, given@, i as nat));
        }
    }
}

/// The state after taking apart what is sliced, or complaining.
pub open spec fn slice_opened(s: Scene, value: ValueId, base: Expr, span: Span) -> Scene {
    let values = cut(s.values, 1);
    match slice_of(s.b, value, base) {
        Ok((b, source)) => Scene { b, values: values.push(source.ptr).push(source.len), ..s },
        Err(problem) => {
            let (b, value) = error_emitted(s.b);
            let complaint = match problem {
                SliceProblem::DynamicElements => Complaint::SliceOfDynamicElements,
                SliceProblem::Other => Complaint::SliceOfOther,
            };
            Scene {
                b,
                values: values.push(value),
                complaints: s.complaints.push((span, complaint)),
                ..s
            }
        },
    }
}

/// What performing a task of a slice, of a tuple assignment, of a deletion or of a
/// revert comes to.
pub open spec fn rest_step<'t>(s: Scene, lowerer: Lowerer, hir: Hir, task: Task<'t>) -> StepView {
    match task {
        Task::SliceOf(expr) => {
            if ready(s.b, s.values, 1) {
                let a0 = top(s.values, 0);
                if expr.kind is Slice {
                    StepView::Done(slice_opened(s, a0, *(expr.kind->Slice_0), expr.span))
                } else {
                    StepView::NotReady
                }
            } else {
                StepView::NotReady
            }
        },
        Task::SliceCut(bytes, location, true) => {
            if ready(s.b, s.values, 4) {
                let a0 = top(s.values, 0);
                let a1 = top(s.values, 1);
                let a2 = top(s.values, 2);
                let a3 = top(s.values, 3);
                let (b, v) = slice_cut(
                    s.b,
                    SliceSource { ptr: a3, len: a2, location },
                    a1,
                    a0,
                    bytes,
                );
                StepView::Done(Scene { b, values: cut(s.values, 4).push(v), ..s })
            } else {
                StepView::NotReady
            }
        },
        Task::SliceCut(bytes, location, false) => {
            if ready(s.b, s.values, 3) {
                let a0 = top(s.values, 0);
                let a1 = top(s.values, 1);
                let a2 = top(s.values, 2);
                let (b, v) = slice_cut(
                    s.b,
                    SliceSource { ptr: a2, len: a1, location },
                    a0,
                    a1,
                    bytes,
                );
                StepView::Done(Scene { b, values: cut(s.values, 3).push(v), ..s })
            } else {
                StepView::NotReady
            }
        },
        Task::ZeroElements(element, len, span) => {
            if ready(s.b, s.values, 1) {
                let a0 = top(s.values, 0);
                if struct_declared(hir, *element) && len <= u64::MAX / 32 {
                    StepView::Done(
                        {
                            let (b, complaints) = zeroed_in_place(
                                s.b,
                                hir,
                                *element,
                                a0,
                                len as nat,
                            );
                            Scene {
                                b,
                                values: cut(s.values, 1),
                                complaints: s.complaints + spanned(complaints, span),
                                ..s
                            }
                        },
                    )
                } else {
                    StepView::NotReady
                }
            } else {
                StepView::NotReady
            }
        },
        Task::HelperRevert(bytes) => {
            if 1 <= bytes@.len() <= 32 {
                StepView::Done(match s.helper {
                        Some(helper) => Scene { b: helper_reverted(s.b, helper, bytes@), ..s },
                        None => {
                            let helper = FunctionId(s.module.functions.len() as usize);
                            Scene {
                                b: helper_reverted(s.b, helper, bytes@),
                                module: ModuleView {
                                    functions: s.module.functions.push(error_helper()),
                                    ..s.module
                                },
                                helper: Some(helper),
                                ..s
                            }
                        },
                })
            } else {
                StepView::NotReady
            }
        },
        Task::AssignResults(elements, delivered) => {
            if ready(s.b, s.values, 1) {
                let a0 = top(s.values, 0);
                if (s.pending matches Some(pending) ==> has_values(s.b.func, pending))
                    && elements@.len() <= u64::MAX / 32 {
                    StepView::Done({
                            let given = given_flags(elements@);
                            match s.pending {
                                Some(pending) if delivered => Scene {
                                    values: cut(s.values, 1) + results_stack(
                                        pending_values(pending, a0, elements@.len()),
                                        given,
                                        0,
                                    ),
                                    pending: None,
                                    ..s
                                },
                                _ => {
                                    let (b, values) = results_for(s.b, given, a0);
                                    Scene {
                                        b,
                                        values: cut(s.values, 1) + results_stack(values, given, 0),
                                        pending: None,
                                        ..s
                                    }
                                },
                            }
                    })
                } else {
                    StepView::NotReady
                }
            } else {
                StepView::NotReady
            }
        },
        _ => StepView::Other,
    }
}

impl Machine {
    /// Performs a task of a slice, of a tuple assignment, of a deletion or of a revert.
    #[verifier::rlimit(80)]
    pub fn perform_rest<'b, 't>(
        &mut self,
        lowerer: &mut Lowerer,
        builder: &mut FunctionBuilder<'b>,
        hir: &Hir,
        task: &Task<'t>,
    ) -> (r: Step)
        requires
            old(builder).wf(),
            defaults_fit(*hir),
        ensures
            final(builder).wf(),
            did(
                scene(*old(lowerer), *old(self), old(builder)@),
                scene(*final(lowerer), *final(self), final(builder)@),
                r,
                rest_step(
                    scene(*old(lowerer), *old(self), old(builder)@),
                    *old(lowerer),
                    *hir,
                    *task,
                ),
            ),
            framed(*old(lowerer), *final(lowerer)),
            !(r is Done) ==> *final(lowerer) == *old(lowerer),
            extends(old(builder)@, final(builder)@),
            *final(final(builder).func) == *final(old(builder).func),
    {
        broadcast use group_builder_steps;

        let ghost before = scene(*lowerer, *self, builder@);
        let ghost expected = rest_step(before, *old(lowerer), *hir, *task);
        match task {
            Task::SliceOf(expr) => {
                if !self.is_ready(builder, 1) {
                    return Step::NotReady;
                }
                let a0 = self.peek(0);
                assert(has_value(builder@.func, top(self.values@, 0)));
                let base = match &expr.kind {
                    ExprKind::Slice(base, _, _) => base,
                    _ => {
                        return Step::NotReady;
                    }
                };
                self.drop_values(1);
                let bytes = base.facts.calldata_bytes;
                let array = base.facts.dynamic_array;
                match open_slice(builder, a0, bytes, array, base.facts.word_elements) {
                    Ok(source) => {
                        self.values.push(source.ptr);
                        self.values.push(source.len);
                    },
                    Err(problem) => {
                        let complaint = match problem {
                            SliceProblem::DynamicElements => Complaint::SliceOfDynamicElements,
                            SliceProblem::Other => Complaint::SliceOfOther,
                        };
                        let v = lowerer.err_value(builder, expr.span, complaint);
                        self.values.push(v);
                    },
                }
                assert(scene(*lowerer, *self, builder@) =~= expected->Done_0);
                Step::Done
            },
            Task::SliceCut(bytes, location, true) => {
                if !self.is_ready(builder, 4) {
                    return Step::NotReady;
                }
                let a0 = self.peek(0);
                assert(has_value(builder@.func, top(self.values@, 0)));
                let a1 = self.peek(1);
                assert(has_value(builder@.func, top(self.values@, 1)));
                let a2 = self.peek(2);
                assert(has_value(builder@.func, top(self.values@, 2)));
                let a3 = self.peek(3);
                assert(has_value(builder@.func, top(self.values@, 3)));
                self.drop_values(4);
                let v = cut_slice(
                    builder,
                    SliceSource { ptr: a3, len: a2, location: *location },
                    a1,
                    a0,
                    *bytes,
                );
                self.values.push(v);
                assert(scene(*lowerer, *self, builder@) =~= expected->Done_0);
                Step::Done
            },
            Task::SliceCut(bytes, location, false) => {
                if !self.is_ready(builder, 3) {
                    return Step::NotReady;
                }
                let a0 = self.peek(0);
                assert(has_value(builder@.func, top(self.values@, 0)));
                let a1 = self.peek(1);
                assert(has_value(builder@.func, top(self.values@, 1)));
                let a2 = self.peek(2);
                assert(has_value(builder@.func, top(self.values@, 2)));
                self.drop_values(3);
                let v = cut_slice(
                    builder,
                    SliceSource { ptr: a2, len: a1, location: *location },
                    a0,
                    a1,
                    *bytes,
                );
                self.values.push(v);
                assert(scene(*lowerer, *self, builder@) =~= expected->Done_0);
                Step::Done
            },
            Task::ZeroElements(element, len, span) => {
                if !self.is_ready(builder, 1) {
                    return Step::NotReady;
                }
                let a0 = self.peek(0);
                assert(has_value(builder@.func, top(self.values@, 0)));
                if !(struct_is_declared(hir, element) && *len <= u64::MAX / 32) {
                    return Step::NotReady;
                }
                self.drop_values(1);
                lowerer.zero_in_place(builder, hir, element, *len, *span, a0);
                assert(scene(*lowerer, *self, builder@) =~= expected->Done_0);
                Step::Done
            },
            Task::HelperRevert(bytes) => {
                if !(1 <= bytes.len() && bytes.len() <= 32) {
                    return Step::NotReady;
                }
                let helper = lowerer.ensure_revert_error_helper();
                emit_helper_revert(builder, helper, bytes);
                assert(scene(*lowerer, *self, builder@) =~= expected->Done_0);
                Step::Done
            },
            Task::AssignResults(elements, delivered) => {
                if !self.is_ready(builder, 1) {
                    return Step::NotReady;
                }
                let a0 = self.peek(0);
                assert(has_value(builder@.func, top(self.values@, 0)));
                let pending = match &lowerer.pending_inline_returns {
                    Some(pending) => Some(copy_values(pending)),
                    None => None,
                };
                let known = match &pending {
                    Some(pending) => values_exist(builder, pending),
                    None => true,
                };
                if !(known && elements.len() as u64 <= u64::MAX / 32) {
                    return Step::NotReady;
                }
                self.drop_values(1);
                let given = flags_of_elements(elements);
                match pending {
                    Some(pending) if *delivered => {
                        let values = fill_pending(&pending, a0, elements.len());
                        self.push_results(&values, &given);
                    },
                    _ => {
                        let values = Lowerer::gather_results(builder, &given, a0);
                        self.push_results(&values, &given);
                    },
                }
                lowerer.pending_inline_returns = None;
                assert(scene(*lowerer, *self, builder@) =~= expected->Done_0);
                Step::Done
            },
            _ => Step::Other,
        }
    }
}

/// What performing the first of two kinds of tasks comes to, or else the second.
pub open spec fn or_step(first: StepView, second: StepView) -> StepView {
    if first is Other {
        second
    } else {
        first
    }
}

/// What performing a task that computes or branches comes to.
pub open spec fn emission_step<'t>(
    s: Scene,
    lowerer: Lowerer,
    hir: Hir,
    task: Task<'t>,
) -> StepView {
    or_step(
        value_step(s, lowerer, task),
        or_step(
            stack_step(s, lowerer, task),
            or_step(
                arms_step(s, lowerer, task),
                or_step(loop_step(s, lowerer, task), exit_step(s, lowerer, task)),
            ),
        ),
    )
}

/// What performing a task of calls, data and storage comes to.
pub open spec fn data_step<'t>(s: Scene, lowerer: Lowerer, hir: Hir, task: Task<'t>) -> StepView {
    or_step(
        attempt_step(s, lowerer, task),
        or_step(
            event_step(s, lowerer, hir, task),
            or_step(
                decode_step(s, lowerer, task),
                or_step(storage_step(s, lowerer, task), place_step(s, lowerer, task)),
            ),
        ),
    )
}

/// What performing a task of variables comes to.
pub open spec fn variable_step<'t>(
    s: Scene,
    lowerer: Lowerer,
    hir: Hir,
    task: Task<'t>,
) -> StepView {
    or_step(
        local_step(s, lowerer, task),
        or_step(
            state_step(s, lowerer, task),
            or_step(
                binding_step(s, lowerer, hir, task),
                or_step(default_step(s, lowerer, hir, task), results_step(s, lowerer, hir, task)),
            ),
        ),
    )
}

/// What performing a task of names, parameters and the rest comes to.
pub open spec fn declaration_step<'t>(
    s: Scene,
    lowerer: Lowerer,
    hir: Hir,
    task: Task<'t>,
) -> StepView {
    or_step(
        name_step(s, lowerer, hir, task),
        or_step(
            param_step(s, lowerer, hir, task),
            or_step(
                sequence_step(s, lowerer, hir, task),
                or_step(plain_step(s, lowerer, hir, task), rest_step(s, lowerer, hir, task)),
            ),
        ),
    )
}

/// What performing a task comes to.
#[verifier::opaque]
pub open spec fn step<'t>(s: Scene, lowerer: Lowerer, hir: Hir, task: Task<'t>) -> StepView {
    or_step(
        emission_step(s, lowerer, hir, task),
        or_step(
            data_step(s, lowerer, hir, task),
            or_step(variable_step(s, lowerer, hir, task), declaration_step(s, lowerer, hir, task)),
        ),
    )
}

impl Machine {
    /// Performs a task that computes or branches.
    fn try_emission<'b, 't>(
        &mut self,
        lowerer: &mut Lowerer,
        builder: &mut FunctionBuilder<'b>,
        hir: &Hir,
        task: &Task<'t>,
    ) -> (r: Step)
        requires
            old(builder).wf(),
            defaults_fit(*hir),
            codes_fit(*old(lowerer)),
        ensures
            final(builder).wf(),
            did(
                scene(*old(lowerer), *old(self), old(builder)@),
                scene(*final(lowerer), *final(self), final(builder)@),
                r,
                emission_step(
                    scene(*old(lowerer), *old(self), old(builder)@),
                    *old(lowerer),
                    *hir,
                    *task,
                ),
            ),
            framed(*old(lowerer), *final(lowerer)),
            !(r is Done) ==> *final(lowerer) == *old(lowerer),
            extends(old(builder)@, final(builder)@),
            *final(final(builder).func) == *final(old(builder).func),
    {
        match self.perform_value(&*lowerer, builder, task) {
            Step::Other => {},
            step => {
                return step;
            },
        }
        match self.perform_stack(&*lowerer, builder, task) {
            Step::Other => {},
            step => {
                return step;
            },
        }
        match self.perform_arms(&*lowerer, builder, task) {
            Step::Other => {},
            step => {
                return step;
            },
        }
        match self.perform_loop(lowerer, builder, task) {
            Step::Other => {},
            step => {
                return step;
            },
        }
        self.perform_exit(&*lowerer, builder, task)
    }

    /// Performs a task of calls, data and storage.
    fn try_data<'b, 't>(
        &mut self,
        lowerer: &mut Lowerer,
        builder: &mut FunctionBuilder<'b>,
        hir: &Hir,
        task: &Task<'t>,
    ) -> (r: Step)
        requires
            old(builder).wf(),
            defaults_fit(*hir),
            codes_fit(*old(lowerer)),
        ensures
            final(builder).wf(),
            did(
                scene(*old(lowerer), *old(self), old(builder)@),
                scene(*final(lowerer), *final(self), final(builder)@),
                r,
                data_step(
                    scene(*old(lowerer), *old(self), old(builder)@),
                    *old(lowerer),
                    *hir,
                    *task,
                ),
            ),
            framed(*old(lowerer), *final(lowerer)),
            !(r is Done) ==> *final(lowerer) == *old(lowerer),
            extends(old(builder)@, final(builder)@),
            *final(final(builder).func) == *final(old(builder).func),
    {
        match self.perform_attempt(&*lowerer, builder, task) {
            Step::Other => {},
            step => {
                return step;
            },
        }
        match self.perform_event(&*lowerer, builder, hir, task) {
            Step::Other => {},
            step => {
                return step;
            },
        }
        match self.perform_decode(&*lowerer, builder, task) {
            Step::Other => {},
            step => {
                return step;
            },
        }
        match self.perform_storage(&*lowerer, builder, task) {
            Step::Other => {},
            step => {
                return step;
            },
        }
        self.perform_place(lowerer, builder, task)
    }

    /// Performs a task of variables.
    fn try_variable<'b, 't>(
        &mut self,
        lowerer: &mut Lowerer,
        builder: &mut FunctionBuilder<'b>,
        hir: &Hir,
        task: &Task<'t>,
    ) -> (r: Step)
        requires
            old(builder).wf(),
            defaults_fit(*hir),
            codes_fit(*old(lowerer)),
        ensures
            final(builder).wf(),
            did(
                scene(*old(lowerer), *old(self), old(builder)@),
                scene(*final(lowerer), *final(self), final(builder)@),
                r,
                variable_step(
                    scene(*old(lowerer), *old(self), old(builder)@),
                    *old(lowerer),
                    *hir,
                    *task,
                ),
            ),
            framed(*old(lowerer), *final(lowerer)),
            !(r is Done) ==> *final(lowerer) == *old(lowerer),
            extends(old(builder)@, final(builder)@),
            *final(final(builder).func) == *final(old(builder).func),
    {
        match self.perform_local(lowerer, builder, task) {
            Step::Other => {},
            step => {
                return step;
            },
        }
        match self.perform_state(lowerer, builder, task) {
            Step::Other => {},
            step => {
                return step;
            },
        }
        match self.perform_binding(lowerer, builder, hir, task) {
            Step::Other => {},
            step => {
                return step;
            },
        }
        match self.perform_default(lowerer, builder, hir, task) {
            Step::Other => {},
            step => {
                return step;
            },
        }
        self.perform_results(lowerer, builder, hir, task)
    }

    /// Performs a task of names, parameters and the rest.
    fn try_declaration<'b, 't>(
        &mut self,
        lowerer: &mut Lowerer,
        builder: &mut FunctionBuilder<'b>,
        hir: &Hir,
        task: &Task<'t>,
    ) -> (r: Step)
        requires
            old(builder).wf(),
            defaults_fit(*hir),
            codes_fit(*old(lowerer)),
        ensures
            final(builder).wf(),
            did(
                scene(*old(lowerer), *old(self), old(builder)@),
                scene(*final(lowerer), *final(self), final(builder)@),
                r,
                declaration_step(
                    scene(*old(lowerer), *old(self), old(builder)@),
                    *old(lowerer),
                    *hir,
                    *task,
                ),
            ),
            framed(*old(lowerer), *final(lowerer)),
            !(r is Done) ==> *final(lowerer) == *old(lowerer),
            extends(old(builder)@, final(builder)@),
            *final(final(builder).func) == *final(old(builder).func),
    {
        match self.perform_name(lowerer, builder, hir, task) {
            Step::Other => {},
            step => {
                return step;
            },
        }
        match self.perform_param(lowerer, builder, hir, task) {
            Step::Other => {},
            step => {
                return step;
            },
        }
        match self.perform_sequence(lowerer, builder, hir, task) {
            Step::Other => {},
            step => {
                return step;
            },
        }
        match self.perform_plain(lowerer, builder, hir, task) {
            Step::Other => {},
            step => {
                return step;
            },
        }
        self.perform_rest(lowerer, builder, hir, task)
    }

    /// Performs a task. One that stands for other tasks alone, or that asks another
    /// part of the compiler, is none of those that are performed here.
    pub fn perform<'b, 't>(
        &mut self,
        lowerer: &mut Lowerer,
        builder: &mut FunctionBuilder<'b>,
        hir: &Hir,
        task: &Task<'t>,
    ) -> (r: Step)
        requires
            old(builder).wf(),
            defaults_fit(*hir),
            codes_fit(*old(lowerer)),
        ensures
            final(builder).wf(),
            did(
                scene(*old(lowerer), *old(self), old(builder)@),
                scene(*final(lowerer), *final(self), final(builder)@),
                r,
                step(scene(*old(lowerer), *old(self), old(builder)@), *old(lowerer), *hir, *task),
            ),
            framed(*old(lowerer), *final(lowerer)),
            !(r is Done) ==> *final(lowerer) == *old(lowerer),
            extends(old(builder)@, final(builder)@),
            *final(final(builder).func) == *final(old(builder).func),
    {
        proof {
            reveal(step);
        }
        match self.try_emission(lowerer, builder, hir, task) {
            Step::Other => {},
            step => {
                return step;
            },
        }
        match self.try_data(lowerer, builder, hir, task) {
            Step::Other => {},
            step => {
                return step;
            },
        }
        match self.try_variable(lowerer, builder, hir, task) {
            Step::Other => {},
            step => {
                return step;
            },
        }
        self.try_declaration(lowerer, builder, hir, task)
    }
}

} // verus!
