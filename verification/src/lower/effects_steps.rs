//! Every step and every turn does to the stack what the effect of its task says,
//! so that no task of a plan finds fewer values than it takes.

use crate::hir::{Expr, ExprKind, Hir};
use crate::lower::agenda::{turn, Action};
use crate::lower::answers::{replies, settlement, Reply, Settled};
use crate::lower::arrays::{index_view, key_hash};
use crate::lower::bind::{given_results, results_for};
use crate::lower::construct::construction_tasks;
use crate::lower::control::terminated;
use crate::lower::effects::{
    changed, effect, group_standings, have_effect, inside, nested, of, service_effect,
    standing_after, standing_to, standing_with, Effect, Layer, Nesting, Standing,
};
use crate::lower::effects_calls::{
    law_catch_plans_leave_the_stack, law_emit_plans_leave_the_stack, law_key_plans_leave_the_slot,
    law_return_plans_leave_the_stack, law_ternary_plans_leave_one_value,
    law_try_call_plans_leave_one_value, law_try_results_plans_leave_the_stack,
};
use crate::lower::effects_statements::{
    law_block_plans_leave_the_stack, law_checks_keep_the_effect,
    law_construction_plans_leave_the_stack, law_effect_plans_leave_the_stack,
    law_end_plans_leave_the_stack, law_statement_plans_leave_the_stack,
    law_tuple_assign_plans_leave_the_stack,
};
use crate::lower::effects_values::{
    law_assign_plans_use_the_value, law_member_slice_plans_leave_one_value,
    law_other_length_plans_leave_one_value, law_slot_plans_leave_one_value,
    law_value_plans_leave_one_value,
};
use crate::lower::handlers::leading_topics;
use crate::lower::laws::law_event_values_are_split;
use crate::lower::machine::{taken, top, Control, Scene, StepView};
use crate::lower::machine_attempt::{attempt_step, event_step};
use crate::lower::machine_control::{arms_step, exit_step, loop_step};
use crate::lower::machine_decode::{decode_step, storage_step};
use crate::lower::machine_flow::{
    clause_fits, expandable, expansion, is_memory_slice, planned_tasks, result_assigns, slice_of,
    slice_tasks,
};
use crate::lower::machine_names::{name_step, param_step, plain_step, sequence_step};
use crate::lower::machine_places::{
    binding_step, default_step, given_flags, local_step, pending_values, place_step, results_step,
    state_step,
};
use crate::lower::machine_steps::{
    declaration_step, emission_step, or_step, rest_step, results_stack, step, variable_step,
};
use crate::lower::machine_values::{stack_step, value_step};
use crate::lower::objects::{buffer_base, results_gathered, results_loaded};
use crate::lower::plan::{is_slice_member, value_tasks, Service, Task};
use crate::lower::plan_assign::assign_tasks;
use crate::lower::plan_calls::{
    emit_tasks, given_count, member_slice_tasks, return_value_tasks, ternary_tasks, try_call_tasks,
};
use crate::lower::plan_function::end_tasks;
use crate::lower::plan_handlers::{catch_tasks, key_tasks, try_results_tasks};
use crate::lower::plan_names::{is_calldata_slice, member_slot, other_length_tasks};
use crate::lower::plan_stmt::{
    block_tasks, checked_tasks, effect_tasks, stmt_tasks, tuple_assign_tasks,
};
use crate::lower::slots::slot_of;
use crate::lower::state::Lowerer;
use crate::mir::builder::BuilderView;
use crate::mir::function::is_public_function;
use crate::mir::types::{SliceLocation, ValueId};
use vstd::prelude::*;

verus! {

/// The construct that an entry of the control stack stands for.
pub open spec fn layer_of(control: Control) -> Layer {
    match control {
        Control::ShortCircuit(_, _) => Layer::ShortCircuit,
        Control::Arms(_, _) => Layer::Arms,
        Control::Loop(_) => Layer::Loop,
        Control::Turn(_, _) => Layer::Turn,
        Control::Switch(_) => Layer::Switch,
        Control::Attempt(_, _, _) => Layer::Attempt,
        Control::Handlers(_) => Layer::Handlers,
        Control::Next(_) => Layer::Next,
        Control::Bytes(_) => Layer::Bytes,
        Control::Array(_, _) => Layer::Array,
        Control::Copy(_, _) => Layer::Copy,
        Control::Elements(_) => Layer::Elements,
        Control::Offset(_) => Layer::Offset,
        Control::Call(_, _) => Layer::Call,
    }
}

/// The constructs that a control stack stands for.
pub open spec fn nesting_of(control: Seq<Control>) -> Nesting
    decreases control.len(),
{
    if control.len() == 0 {
        Nesting::Outermost
    } else {
        inside(layer_of(control.last()), nesting_of(control.drop_last()))
    }
}

/// Where a state of lowering stands.
pub open spec fn standing_of(s: Scene) -> Standing {
    Standing { height: s.values.len(), within: nesting_of(s.control) }
}

/// One more entry is one more construct.
broadcast proof fn lemma_nesting_push(control: Seq<Control>, more: Control)
    ensures
        #[trigger] nesting_of(control.push(more)) == inside(layer_of(more), nesting_of(control)),
{
    assert(control.push(more).drop_last() =~= control);
}

/// Whether a step that is done takes and leaves as many values as the effect of
/// its task says, and begins and ends the constructs that the task does.
pub open spec fn keeps_effect<'t>(hir: Hir, before: Scene, task: Task<'t>, step: StepView) -> bool {
    step matches StepView::Done(after) ==> standing_with(hir, Some(standing_of(before)), task)
        == Some(standing_of(after))
}

/// As many results are loaded as asked for.
proof fn lemma_results_loaded(b: BuilderView, base: ValueId, from: nat, end: nat)
    ensures
        results_loaded(b, base, from, end).1.len() == if end <= from {
            0
        } else {
            end - from
        },
    decreases end,
{
    reveal_with_fuel(results_loaded, 2);
    if end > from {
        lemma_results_loaded(b, base, from, (end - 1) as nat);
    }
}

/// As many results are gathered as asked for, and at least the first.
proof fn lemma_results_gathered(b: BuilderView, first: ValueId, count: nat)
    ensures
        results_gathered(b, first, count).1.len() == if count == 0 {
            1
        } else {
            count
        },
{
    reveal(results_gathered);
    let (b, base) = buffer_base(b);
    lemma_results_loaded(b, base, 1, count);
}

/// Steps that compute values keep their effects.
proof fn lemma_value_steps<'t>(s: Scene, lowerer: Lowerer, hir: Hir, task: Task<'t>)
    ensures
        keeps_effect(hir, s, task, value_step(s, lowerer, task)),
{
}

/// Steps that arrange the stack keep their effects.
proof fn lemma_stack_steps<'t>(s: Scene, lowerer: Lowerer, hir: Hir, task: Task<'t>)
    ensures
        keeps_effect(hir, s, task, stack_step(s, lowerer, task)),
{
    if let Task::GatherResults(count) = task {
        lemma_results_gathered(s.b, top(s.values, 0), count as nat);
    }
}

/// Steps of branches keep their effects.
proof fn lemma_arms_steps<'t>(s: Scene, lowerer: Lowerer, hir: Hir, task: Task<'t>)
    ensures
        keeps_effect(hir, s, task, arms_step(s, lowerer, task)),
{
    broadcast use lemma_nesting_push;

    reveal_with_fuel(nesting_of, 3);
}

/// Steps of loops and exits keep their effects.
proof fn lemma_loop_steps<'t>(s: Scene, lowerer: Lowerer, hir: Hir, task: Task<'t>)
    ensures
        keeps_effect(hir, s, task, loop_step(s, lowerer, task)),
        keeps_effect(hir, s, task, exit_step(s, lowerer, task)),
{
    broadcast use lemma_nesting_push;

    reveal_with_fuel(nesting_of, 3);
}

/// Steps of try statements keep their effects.
proof fn lemma_attempt_steps<'t>(s: Scene, lowerer: Lowerer, hir: Hir, task: Task<'t>)
    ensures
        keeps_effect(hir, s, task, attempt_step(s, lowerer, task)),
{
    broadcast use lemma_nesting_push;

    reveal_with_fuel(nesting_of, 4);
}

/// Steps of events keep their effects.
proof fn lemma_event_steps<'t>(s: Scene, lowerer: Lowerer, hir: Hir, task: Task<'t>)
    ensures
        keeps_effect(hir, s, task, event_step(s, lowerer, hir, task)),
{
    broadcast use lemma_nesting_push;

    if let Task::SplitEvent(id, count) = task {
        let event = hir.events@[id.0 as int];
        let given = count + leading_topics(event);
        if given <= s.values.len() {
            law_event_values_are_split(hir, event, taken(s.values, given), count as nat);
        }
    }
}

/// Steps of decoding keep their effects.
proof fn lemma_decode_steps<'t>(s: Scene, lowerer: Lowerer, hir: Hir, task: Task<'t>)
    ensures
        keeps_effect(hir, s, task, decode_step(s, lowerer, task)),
{
    broadcast use lemma_nesting_push;

    reveal_with_fuel(nesting_of, 4);
}

/// Steps of storage elements keep their effects.
proof fn lemma_storage_steps<'t>(s: Scene, lowerer: Lowerer, hir: Hir, task: Task<'t>)
    ensures
        keeps_effect(hir, s, task, storage_step(s, lowerer, task)),
{
}

/// Steps of variables keep their effects.
proof fn lemma_place_steps<'t>(s: Scene, lowerer: Lowerer, hir: Hir, task: Task<'t>)
    ensures
        keeps_effect(hir, s, task, place_step(s, lowerer, task)),
        keeps_effect(hir, s, task, local_step(s, lowerer, task)),
        keeps_effect(hir, s, task, state_step(s, lowerer, task)),
{
}

/// Steps of bindings keep their effects.
proof fn lemma_binding_steps<'t>(s: Scene, lowerer: Lowerer, hir: Hir, task: Task<'t>)
    ensures
        keeps_effect(hir, s, task, binding_step(s, lowerer, hir, task)),
        keeps_effect(hir, s, task, default_step(s, lowerer, hir, task)),
        keeps_effect(hir, s, task, results_step(s, lowerer, hir, task)),
{
}

/// Steps of names and parameters keep their effects.
proof fn lemma_name_steps<'t>(s: Scene, lowerer: Lowerer, hir: Hir, task: Task<'t>)
    ensures
        keeps_effect(hir, s, task, name_step(s, lowerer, hir, task)),
        keeps_effect(hir, s, task, param_step(s, lowerer, hir, task)),
        keeps_effect(hir, s, task, sequence_step(s, lowerer, hir, task)),
        keeps_effect(hir, s, task, plain_step(s, lowerer, hir, task)),
{
}

/// The other steps keep their effects, except those whose task goes on with
/// others.
proof fn lemma_rest_steps<'t>(s: Scene, lowerer: Lowerer, hir: Hir, task: Task<'t>)
    requires
        !(task is SliceOf),
        !(task is AssignResults),
    ensures
        keeps_effect(hir, s, task, rest_step(s, lowerer, hir, task)),
{
}

/// A step that is done takes and leaves as many values as the effect of its task
/// says, unless the task goes on with others after it.
pub proof fn law_steps_keep_their_effects<'t>(s: Scene, lowerer: Lowerer, hir: Hir, task: Task<'t>)
    requires
        !(task is SliceOf),
        !(task is AssignResults),
    ensures
        keeps_effect(hir, s, task, step(s, lowerer, hir, task)),
{
    lemma_value_steps(s, lowerer, hir, task);
    lemma_stack_steps(s, lowerer, hir, task);
    lemma_arms_steps(s, lowerer, hir, task);
    lemma_loop_steps(s, lowerer, hir, task);
    lemma_attempt_steps(s, lowerer, hir, task);
    lemma_event_steps(s, lowerer, hir, task);
    lemma_decode_steps(s, lowerer, hir, task);
    lemma_storage_steps(s, lowerer, hir, task);
    lemma_place_steps(s, lowerer, hir, task);
    lemma_binding_steps(s, lowerer, hir, task);
    lemma_name_steps(s, lowerer, hir, task);
    lemma_rest_steps(s, lowerer, hir, task);
    reveal(step);
}

/// As many results are found for targets as there are targets.
proof fn lemma_given_results(
    b: BuilderView,
    base: ValueId,
    given: Seq<bool>,
    first: ValueId,
    count: nat,
)
    ensures
        given_results(b, base, given, first, count).1.len() == count,
    decreases count,
{
    reveal_with_fuel(given_results, 2);
    if count > 0 {
        lemma_given_results(b, base, given, first, (count - 1) as nat);
    }
}

/// As many results are found for targets as there are targets.
proof fn lemma_results_for(b: BuilderView, given: Seq<bool>, first: ValueId)
    ensures
        results_for(b, given, first).1.len() == given.len(),
{
    reveal(results_for);
    let (b, base) = if exists|i: int| 1 <= i < given.len() && #[trigger] given[i] {
        buffer_base(b)
    } else {
        (b, first)
    };
    lemma_given_results(b, base, given, first, given.len());
}

/// The results on the stack are those of the given elements.
proof fn lemma_results_stack(values: Seq<ValueId>, elements: Seq<Option<Expr>>, from: nat)
    requires
        values.len() == elements.len(),
        from <= elements.len(),
    ensures
        results_stack(values, given_flags(elements), from).len() == given_count(
            elements,
            elements.len(),
        ) - given_count(elements, from),
    decreases elements.len() - from,
{
    if from < elements.len() {
        lemma_results_stack(values, elements, from + 1);
    }
}

/// Each given element takes a result.
proof fn lemma_result_assigns<'t>(hir: Hir, elements: Seq<Option<Expr>>, count: nat)
    ensures
        have_effect(
            hir,
            result_assigns::<'t>(elements, count),
            of(given_count(elements, count), 0),
        ),
    decreases count,
{
    broadcast use group_standings;

    if count > 0 {
        lemma_result_assigns(hir, elements, (count - 1) as nat);
    }
}

/// Whether some tasks together do what a task does, wherever it can be done.
pub open spec fn stand_for<'t>(hir: Hir, tasks: Seq<Task<'t>>, task: Task<'t>) -> bool {
    forall|from: Standing|
        standing_with(hir, Some(from), task) is Some ==> #[trigger] standing_after(hir, tasks, from)
            == standing_with(hir, Some(from), task)
}

/// The plans of expressions keep the effects of the tasks that they stand for.
proof fn lemma_value_expansions<'t>(
    lowerer: Lowerer,
    b: BuilderView,
    values: Seq<ValueId>,
    hir: Hir,
    task: Task<'t>,
)
    requires
        task is Value || task is Effect || task is Ternary || task is Assign || task is TupleAssign
            || task is Slot || task is MemberSlot,
    ensures
        expansion(lowerer, b, values, hir, task) matches Some(tasks) && stand_for(hir, tasks, task),
{
    match task {
        Task::Value(expr) => {
            let plan = value_tasks::<'t>(lowerer, b.func, hir, *expr);
            law_value_plans_leave_one_value(lowerer, b.func, hir, *expr);
            law_checks_keep_the_effect(hir, lowerer.check_expr_errors, *expr, plan);
            assert(expansion(lowerer, b, values, hir, task) == Some(
                checked_tasks(lowerer.check_expr_errors, *expr, plan),
            )) by {
                reveal(expansion);
            }
        },
        Task::Effect(expr) => {
            law_effect_plans_leave_the_stack(lowerer, hir, *expr);
            assert(expansion(lowerer, b, values, hir, task) == Some(
                effect_tasks::<'t>(lowerer, hir, *expr),
            )) by {
                reveal(expansion);
            }
        },
        Task::Ternary(expr) => {
            assert(expansion(lowerer, b, values, hir, task) == Some(
                ternary_tasks::<'t>(*expr),
            )) by {
                reveal(expansion);
            }
            if expr.kind is Ternary {
                law_ternary_plans_leave_one_value(hir, *expr);
            } else {
                assert(have_effect(hir, ternary_tasks::<'t>(*expr), of(0, 0))) by {
                    broadcast use group_standings;

                }
            }
        },
        Task::Assign(expr) => {
            law_assign_plans_use_the_value(lowerer, hir, *expr);
            assert(expansion(lowerer, b, values, hir, task) == Some(
                assign_tasks::<'t>(lowerer, hir, *expr),
            )) by {
                reveal(expansion);
            }
        },
        Task::TupleAssign(elements, rhs) => {
            law_tuple_assign_plans_leave_the_stack(hir, *elements, *rhs);
            assert(expansion(lowerer, b, values, hir, task) == Some(
                tuple_assign_tasks::<'t>(*elements, *rhs),
            )) by {
                reveal(expansion);
            }
        },
        Task::Slot(expr) => {
            law_slot_plans_leave_one_value(lowerer, hir, *expr);
            assert(expansion(lowerer, b, values, hir, task) == Some(
                planned_tasks(lowerer, slot_of::<'t>(lowerer, hir, *expr), expr.span),
            )) by {
                reveal(expansion);
            }
        },
        Task::MemberSlot(expr) => {
            law_slot_plans_leave_one_value(lowerer, hir, *expr);
            assert(expansion(lowerer, b, values, hir, task) == Some(
                planned_tasks(lowerer, member_slot::<'t>(lowerer, hir, *expr), expr.span),
            )) by {
                reveal(expansion);
            }
        },
        _ => {},
    }
}

/// The plans of statements keep the effects of the tasks that they stand for.
proof fn lemma_statement_expansions<'t>(
    lowerer: Lowerer,
    b: BuilderView,
    values: Seq<ValueId>,
    hir: Hir,
    task: Task<'t>,
)
    requires
        task is Stmt || task is Statements || task is StatementsIfOpen || task is Return || task
            is EndFunction,
    ensures
        expansion(lowerer, b, values, hir, task) matches Some(tasks) && stand_for(hir, tasks, task),
{
    assert(have_effect(hir, Seq::<Task<'t>>::empty(), of(0, 0))) by {
        broadcast use group_standings;

    }
    match task {
        Task::Stmt(stmt) => {
            law_statement_plans_leave_the_stack(lowerer, hir, *stmt);
            assert(expansion(lowerer, b, values, hir, task) == Some(
                stmt_tasks::<'t>(lowerer, hir, *stmt),
            )) by {
                reveal(expansion);
            }
        },
        Task::Statements(body, index) => {
            law_block_plans_leave_the_stack(lowerer, hir, *body, index as nat);
            assert(expansion(lowerer, b, values, hir, task) == Some(
                block_tasks::<'t>(lowerer, hir, *body, index as nat),
            )) by {
                reveal(expansion);
            }
        },
        Task::StatementsIfOpen(body, index) => {
            law_block_plans_leave_the_stack(lowerer, hir, *body, index as nat);
            assert(expansion(lowerer, b, values, hir, task) == Some(
                if terminated(b) {
                    Seq::empty()
                } else {
                    block_tasks::<'t>(lowerer, hir, *body, index as nat)
                },
            )) by {
                reveal(expansion);
            }
        },
        Task::Return(value) => {
            law_return_plans_leave_the_stack(lowerer, hir, is_public_function(b.func), value);
            assert(expansion(lowerer, b, values, hir, task) == Some(
                return_value_tasks(lowerer, is_public_function(b.func), value),
            )) by {
                reveal(expansion);
            }
        },
        Task::EndFunction(results) => {
            law_end_plans_leave_the_stack(lowerer, hir, *results);
            assert(have_effect(hir, seq![Task::<'t>::Stop], of(0, 0))) by {
                broadcast use group_standings;

            }
            assert(expansion(lowerer, b, values, hir, task) == Some(
                if terminated(b) {
                    Seq::empty()
                } else if b.func.return_types.len() == 0 {
                    seq![Task::Stop]
                } else {
                    end_tasks::<'t>(lowerer, *results)
                },
            )) by {
                reveal(expansion);
            }
        },
        _ => {},
    }
}

/// The plans of calls and events keep the effects of the tasks that they stand
/// for.
proof fn lemma_call_expansions<'t>(
    lowerer: Lowerer,
    b: BuilderView,
    values: Seq<ValueId>,
    hir: Hir,
    task: Task<'t>,
)
    requires
        expandable(hir),
        task is TryCall || task is TryCatch || task is TryResults || task is Emit || task
            is MemberSlice || task is ConstructorPrelude,
    ensures
        expansion(lowerer, b, values, hir, task) matches Some(tasks) ==> stand_for(
            hir,
            tasks,
            task,
        ),
{
    match task {
        Task::TryCall(expr) => {
            law_try_call_plans_leave_one_value(hir, *expr);
            assert(expansion(lowerer, b, values, hir, task) == Some(
                try_call_tasks::<'t>(*expr),
            )) by {
                reveal(expansion);
            }
        },
        Task::TryCatch(clauses) => {
            assert forall|from: Standing|
                standing_with(hir, Some(from), task) is Some implies #[trigger] standing_after(
                hir,
                catch_tasks::<'t>(clauses@),
                from,
            ) == standing_with(hir, Some(from), task) by {
                law_catch_plans_leave_the_stack(hir, clauses@, from);
            }
            assert(expansion(lowerer, b, values, hir, task) == Some(
                catch_tasks::<'t>(clauses@),
            )) by {
                reveal(expansion);
            }
        },
        Task::TryResults(clause) => {
            if clause_fits(hir, *clause) {
                law_try_results_plans_leave_the_stack(hir, *clause);
            }
            assert(expansion(lowerer, b, values, hir, task) == if clause_fits(hir, *clause) {
                Some(try_results_tasks::<'t>(hir, *clause))
            } else {
                None
            }) by {
                reveal(expansion);
            }
        },
        Task::Emit(expr) => {
            law_emit_plans_leave_the_stack(hir, *expr);
            assert(expansion(lowerer, b, values, hir, task) matches Some(tasks) ==> tasks
                == emit_tasks::<'t>(hir, *expr)) by {
                reveal(expansion);
            }
        },
        Task::MemberSlice(expr) => {
            if is_slice_member(lowerer, hir, *expr) {
                law_member_slice_plans_leave_one_value(lowerer, hir, *expr);
            }
            assert(expansion(lowerer, b, values, hir, task) matches Some(tasks) ==> tasks
                == member_slice_tasks::<'t>(lowerer, hir, *expr) && is_slice_member(
                lowerer,
                hir,
                *expr,
            )) by {
                reveal(expansion);
            }
        },
        Task::ConstructorPrelude(contract) => {
            if contract.0 < hir.contracts@.len() {
                law_construction_plans_leave_the_stack(lowerer, hir, contract);
            }
            assert(expansion(lowerer, b, values, hir, task) matches Some(tasks) ==> tasks
                == construction_tasks::<'t>(lowerer, hir, contract) && contract.0
                < hir.contracts@.len()) by {
                reveal(expansion);
            }
        },
        _ => {},
    }
}

/// The plans that depend on an operand keep the effects of the tasks that they
/// stand for.
proof fn lemma_operand_expansions<'t>(
    lowerer: Lowerer,
    b: BuilderView,
    values: Seq<ValueId>,
    hir: Hir,
    task: Task<'t>,
)
    requires
        task is CalldataLength || task is CopyIfCalldata || task is MappingSlot,
    ensures
        expansion(lowerer, b, values, hir, task) matches Some(tasks) ==> stand_for(
            hir,
            tasks,
            task,
        ),
{
    match task {
        Task::CalldataLength(expr) => {
            if let ExprKind::Member(base, member) = expr.kind {
                let others = other_length_tasks::<'t>(lowerer, hir, *expr, *base, member@);
                law_other_length_plans_leave_one_value(lowerer, hir, *expr, *base, member@);
                assert(have_effect(hir, seq![Task::<'t>::SliceLen], of(1, 1))) by {
                    broadcast use group_standings;

                }
                assert(have_effect(hir, seq![Task::<'t>::Discard] + others, of(1, 1))) by {
                    broadcast use group_standings;

                }
                assert(expansion(lowerer, b, values, hir, task) matches Some(tasks) ==> tasks
                    == seq![Task::<'t>::SliceLen] || tasks == seq![Task::<'t>::Discard]
                    + others) by {
                    reveal(expansion);
                }
            } else {
                assert(expansion(lowerer, b, values, hir, task) is None) by {
                    reveal(expansion);
                }
            }
        },
        Task::CopyIfCalldata => {
            let copy = seq![Task::<'t>::Service(Service::CalldataBytes)];
            assert(have_effect(hir, copy, of(1, 1))) by {
                broadcast use group_standings;

            }
            assert(have_effect(hir, Seq::<Task<'t>>::empty(), of(1, 1))) by {
                broadcast use group_standings;

            }
            assert(expansion(lowerer, b, values, hir, task) matches Some(tasks) ==> tasks == copy
                || tasks == Seq::<Task<'t>>::empty()) by {
                reveal(expansion);
            }
        },
        Task::MappingSlot(index, dynamic) => {
            let hash = key_hash(
                lowerer,
                hir,
                is_calldata_slice(b.func, top(values, 0)),
                is_memory_slice(b.func, top(values, 0)),
                index_view(index),
                dynamic,
            );
            law_key_plans_leave_the_slot(hir, hash, index);
            assert(expansion(lowerer, b, values, hir, task) matches Some(tasks) ==> tasks
                == key_tasks(hash, index)) by {
                reveal(expansion);
            }
        },
        _ => {},
    }
}

/// Whether a task does nothing but stand for others.
pub open spec fn only_stands<'t>(task: Task<'t>) -> bool {
    match task {
        Task::Value(_) | Task::Effect(_) | Task::Ternary(_) | Task::Assign(_)
        | Task::TupleAssign(_, _) | Task::Slot(_) | Task::MemberSlot(_) | Task::Stmt(_)
        | Task::Statements(_, _) | Task::StatementsIfOpen(_, _) | Task::Return(_)
        | Task::EndFunction(_) | Task::TryCall(_) | Task::TryResults(_) | Task::Emit(_)
        | Task::MemberSlice(_) | Task::ConstructorPrelude(_) | Task::CalldataLength(_)
        | Task::CopyIfCalldata | Task::MappingSlot(_, _) => true,
        _ => false,
    }
}

/// Which tasks stand for others.
proof fn lemma_only_stands<'t>(
    lowerer: Lowerer,
    b: BuilderView,
    values: Seq<ValueId>,
    hir: Hir,
    task: Task<'t>,
)
    requires
        expansion(lowerer, b, values, hir, task) is Some,
    ensures
        only_stands(task) || task is SliceOf || task is AssignResults || task is TryCatch,
{
    reveal(expansion);
}

/// Whether a task does nothing before it goes on with others but what the last
/// group of steps says.
pub open spec fn goes_on<'t>(task: Task<'t>) -> bool {
    only_stands(task) || task is SliceOf || task is AssignResults
}

/// A task that goes on with others emits nothing.
proof fn lemma_goes_on_emission<'t>(s: Scene, lowerer: Lowerer, hir: Hir, task: Task<'t>)
    requires
        goes_on(task),
    ensures
        emission_step(s, lowerer, hir, task) is Other,
{
    assert(value_step(s, lowerer, task) is Other);
    assert(stack_step(s, lowerer, task) is Other);
    assert(arms_step(s, lowerer, task) is Other);
    assert(loop_step(s, lowerer, task) is Other);
    assert(exit_step(s, lowerer, task) is Other);
}

/// A task that goes on with others is none of a try statement or an event.
proof fn lemma_goes_on_attempt<'t>(s: Scene, lowerer: Lowerer, hir: Hir, task: Task<'t>)
    requires
        goes_on(task),
    ensures
        attempt_step(s, lowerer, task) is Other,
{
}

/// A task that goes on with others is none of an event.
proof fn lemma_goes_on_event<'t>(s: Scene, lowerer: Lowerer, hir: Hir, task: Task<'t>)
    requires
        goes_on(task),
    ensures
        event_step(s, lowerer, hir, task) is Other,
{
}

/// A task that goes on with others is none of decoding.
proof fn lemma_goes_on_decode<'t>(s: Scene, lowerer: Lowerer, hir: Hir, task: Task<'t>)
    requires
        goes_on(task),
    ensures
        decode_step(s, lowerer, task) is Other,
{
}

/// A task that goes on with others is none of storage or places.
proof fn lemma_goes_on_place<'t>(s: Scene, lowerer: Lowerer, hir: Hir, task: Task<'t>)
    requires
        goes_on(task),
    ensures
        storage_step(s, lowerer, task) is Other,
        place_step(s, lowerer, task) is Other,
{
}

/// A task that goes on with others binds nothing.
proof fn lemma_goes_on_variable<'t>(s: Scene, lowerer: Lowerer, hir: Hir, task: Task<'t>)
    requires
        goes_on(task),
    ensures
        variable_step(s, lowerer, hir, task) is Other,
{
    assert(local_step(s, lowerer, task) is Other);
    assert(state_step(s, lowerer, task) is Other);
    assert(binding_step(s, lowerer, hir, task) is Other);
    assert(default_step(s, lowerer, hir, task) is Other);
    assert(results_step(s, lowerer, hir, task) is Other);
}

/// A task that goes on with others declares nothing.
proof fn lemma_goes_on_declaration<'t>(s: Scene, lowerer: Lowerer, hir: Hir, task: Task<'t>)
    requires
        goes_on(task),
    ensures
        declaration_step(s, lowerer, hir, task) == rest_step(s, lowerer, hir, task),
{
    assert(name_step(s, lowerer, hir, task) is Other);
    assert(param_step(s, lowerer, hir, task) is Other);
    assert(sequence_step(s, lowerer, hir, task) is Other);
    assert(plain_step(s, lowerer, hir, task) is Other);
}

/// The step of a task that goes on with others is one of the last group; a task
/// that only stands for others has none.
proof fn lemma_goes_on_step<'t>(s: Scene, lowerer: Lowerer, hir: Hir, task: Task<'t>)
    requires
        goes_on(task),
    ensures
        step(s, lowerer, hir, task) == rest_step(s, lowerer, hir, task),
        only_stands(task) ==> rest_step(s, lowerer, hir, task) is Other,
{
    lemma_goes_on_emission(s, lowerer, hir, task);
    lemma_goes_on_attempt(s, lowerer, hir, task);
    lemma_goes_on_event(s, lowerer, hir, task);
    lemma_goes_on_decode(s, lowerer, hir, task);
    lemma_goes_on_place(s, lowerer, hir, task);
    lemma_goes_on_variable(s, lowerer, hir, task);
    lemma_goes_on_declaration(s, lowerer, hir, task);
    let groups = (
        emission_step(s, lowerer, hir, task),
        attempt_step(s, lowerer, task),
        event_step(s, lowerer, hir, task),
        decode_step(s, lowerer, task),
        storage_step(s, lowerer, task),
        place_step(s, lowerer, task),
        variable_step(s, lowerer, hir, task),
        declaration_step(s, lowerer, hir, task),
    );
    assert(step(s, lowerer, hir, task) == or_step(
        groups.0,
        or_step(
            or_step(groups.1, or_step(groups.2, or_step(groups.3, or_step(groups.4, groups.5)))),
            or_step(groups.6, groups.7),
        ),
    )) by {
        reveal(step);
    }
}

/// The tasks that a task stands for together do to the stack what the effect of
/// the task says, and none of them runs short.
pub proof fn law_expansions_keep_the_effect<'t>(
    lowerer: Lowerer,
    b: BuilderView,
    values: Seq<ValueId>,
    hir: Hir,
    task: Task<'t>,
)
    requires
        expandable(hir),
        !(task is SliceOf),
        !(task is AssignResults),
    ensures
        expansion(lowerer, b, values, hir, task) matches Some(tasks) ==> stand_for(
            hir,
            tasks,
            task,
        ),
{
    if expansion(lowerer, b, values, hir, task) is Some {
        lemma_only_stands(lowerer, b, values, hir, task);
        match task {
            Task::Value(_) | Task::Effect(_) | Task::Ternary(_) | Task::Assign(_)
            | Task::TupleAssign(_, _) | Task::Slot(_) | Task::MemberSlot(_) => {
                lemma_value_expansions(lowerer, b, values, hir, task);
            },
            Task::Stmt(_) | Task::Statements(_, _) | Task::StatementsIfOpen(_, _)
            | Task::Return(_) | Task::EndFunction(_) => {
                lemma_statement_expansions(lowerer, b, values, hir, task);
            },
            Task::TryCall(_) | Task::TryCatch(_) | Task::TryResults(_) | Task::Emit(_)
            | Task::MemberSlice(_) | Task::ConstructorPrelude(_) => {
                lemma_call_expansions(lowerer, b, values, hir, task);
            },
            _ => {
                lemma_operand_expansions(lowerer, b, values, hir, task);
            },
        }
    }
}

/// Assigning results ends with the results used up.
proof fn lemma_assigned_results<'t>(s: Scene, lowerer: Lowerer, hir: Hir, task: Task<'t>)
    requires
        task is AssignResults,
    ensures
        rest_step(s, lowerer, hir, task) matches StepView::Done(after) ==> {
            &&& expansion(lowerer, s.b, s.values, hir, task) matches Some(tasks)
            &&& standing_after(hir, tasks, standing_of(after)) == Some(
                changed(standing_of(s), of(1, 0)),
            )
        },
{
    if let Task::AssignResults(elements, delivered) = task {
        let first = top(s.values, 0);
        let given = given_flags(elements@);
        lemma_results_for(s.b, given, first);
        lemma_results_stack(results_for(s.b, given, first).1, elements@, 0);
        if let Some(pending) = s.pending {
            lemma_results_stack(pending_values(pending, first, elements@.len()), elements@, 0);
        }
        lemma_result_assigns(hir, elements@, elements@.len());
        assert(expansion(lowerer, s.b, s.values, hir, task) == Some(
            result_assigns::<'t>(elements@, elements@.len()),
        )) by {
            reveal(expansion);
        }
    }
}

/// The plan that cuts a slice takes the pointer and the length and leaves the
/// slice.
proof fn lemma_slice_effect<'t>(
    hir: Hir,
    base: Expr,
    start: Option<Box<Expr>>,
    end: Option<Box<Expr>>,
    location: SliceLocation,
)
    ensures
        have_effect(hir, slice_tasks::<'t>(base, start, end, location), of(2, 1)),
{
    broadcast use group_standings;

    reveal_with_fuel(standing_to, 4);
}

/// Cutting a slice ends with the slice in the place of what is sliced.
#[verifier::rlimit(60)]
proof fn lemma_sliced<'t>(s: Scene, lowerer: Lowerer, hir: Hir, task: Task<'t>)
    requires
        task is SliceOf,
    ensures
        rest_step(s, lowerer, hir, task) matches StepView::Done(after) ==> {
            &&& expansion(lowerer, s.b, s.values, hir, task) matches Some(tasks)
            &&& standing_after(hir, tasks, standing_of(after)) == Some(standing_of(s))
        },
{
    if let Task::SliceOf(expr) = task {
        if let ExprKind::Slice(base, start, end) = expr.kind {
            if rest_step(s, lowerer, hir, task) is Done {
                assert(expansion(lowerer, s.b, s.values, hir, task) == Some(
                    match slice_of(s.b, top(s.values, 0), *base) {
                        Ok((_, source)) => slice_tasks::<'t>(*base, start, end, source.location),
                        Err(_) => Seq::empty(),
                    },
                )) by {
                    reveal(expansion);
                }
                assert(have_effect(hir, Seq::<Task<'t>>::empty(), of(0, 0))) by {
                    broadcast use group_standings;

                }
                if let Ok((_, source)) = slice_of(s.b, top(s.values, 0), *base) {
                    lemma_slice_effect(hir, *base, start, end, source.location);
                }
            }
        }
    }
}

/// The waiting tasks with the next one put first.
proof fn lemma_waiting_reversed<'t>(waiting: Seq<Task<'t>>, tasks: Seq<Task<'t>>)
    requires
        waiting.len() > 0,
    ensures
        waiting.reverse() == seq![waiting.last()] + waiting.drop_last().reverse(),
        (waiting.drop_last() + tasks.reverse()).reverse() == tasks
            + waiting.drop_last().reverse(),
{
    assert(waiting.reverse() =~= seq![waiting.last()] + waiting.drop_last().reverse());
    assert((waiting.drop_last() + tasks.reverse()).reverse() =~= tasks
        + waiting.drop_last().reverse());
}

/// The tasks of a plan, put on an agenda, wait in an order in which they have the
/// effect of the plan.
pub proof fn law_agendas_start_balanced<'t>(
    hir: Hir,
    tasks: Seq<Task<'t>>,
    whole: Effect,
    from: Standing,
)
    requires
        have_effect(hir, tasks, whole),
        whole.takes <= from.height,
    ensures
        standing_after(hir, tasks.reverse().reverse(), from) == Some(changed(from, whole)),
{
    assert(tasks.reverse().reverse() =~= tasks);
}

/// If the tasks that wait lead from where lowering stands to an end without
/// running short of values or lacking a construct, then so they do after every
/// turn: a task that is done or taken apart keeps the end, and so does a service
/// that takes and leaves what its effect says. The operands and the constructs of
/// the next task are always there, and when no task waits the end is reached.
pub proof fn law_turns_keep_the_balance<'t>(
    s: Scene,
    lowerer: Lowerer,
    hir: Hir,
    waiting: Seq<Task<'t>>,
    end: Standing,
)
    requires
        expandable(hir),
        standing_after(hir, waiting.reverse(), standing_of(s)) == Some(end),
    ensures
        waiting.len() > 0 ==> {
            &&& effect(hir, waiting.last()).takes <= s.values.len()
            &&& nested(nesting_of(s.control), waiting.last()) is Some
        },
        ({
            let after = turn(s, lowerer, hir, waiting);
            match after.action {
                Action::Continue | Action::Stuck => standing_after(
                    hir,
                    after.waiting.reverse(),
                    standing_of(after.scene),
                ) == Some(end),
                Action::Ask(service) => standing_after(
                    hir,
                    after.waiting.reverse(),
                    changed(standing_of(s), service_effect(service)),
                ) == Some(end),
                Action::Finished => standing_of(s) == end,
            }
        }),
{
    broadcast use group_standings;

    if waiting.len() == 0 {
        assert(waiting.reverse() =~= Seq::empty());
    } else {
        let task = waiting.last();
        let rest = waiting.drop_last();
        let more = expansion(lowerer, s.b, s.values, hir, task);
        let tasks = match more {
            Some(tasks) => tasks,
            None => Seq::empty(),
        };
        lemma_waiting_reversed(waiting, tasks);
        assert(standing_with(hir, Some(standing_of(s)), task) is Some);
        if task is SliceOf || task is AssignResults {
            lemma_goes_on_step(s, lowerer, hir, task);
            if task is SliceOf {
                lemma_sliced(s, lowerer, hir, task);
            } else {
                lemma_assigned_results(s, lowerer, hir, task);
            }
        } else {
            law_steps_keep_their_effects(s, lowerer, hir, task);
            law_expansions_keep_the_effect(lowerer, s.b, s.values, hir, task);
            if more is Some && !(task is TryCatch) {
                lemma_only_stands(lowerer, s.b, s.values, hir, task);
                lemma_goes_on_step(s, lowerer, hir, task);
            }
        }
    }
}

/// Settling a reply leaves on the stack what the effect of the service says, once
/// its operands are taken, or asks for a service that takes nothing and leaves
/// that.
pub proof fn law_settlements_keep_the_balance<'t>(s: Scene, service: Service<'t>, reply: Reply)
    requires
        replies(service),
    ensures
        ({
            let (after, settled) = settlement(s, service, reply);
            match settled {
                Settled::Done => standing_of(after) == changed(
                    standing_of(s),
                    of(0, service_effect(service).leaves),
                ),
                Settled::Ask(next) => after == s && service_effect(next) == of(
                    0,
                    service_effect(service).leaves,
                ),
                Settled::Stop(_, _) | Settled::Unfit => after == s,
            }
        }),
{
}

} // verus!
