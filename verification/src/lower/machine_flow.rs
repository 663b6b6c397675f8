//! Tasks that turn into other tasks, and tasks that depend on what was emitted
//! so far.

use crate::hir::{has_variables, hir_wf, Expr, ExprKind, Hir, TryClause, VariableId};
use crate::lower::arrays::{index_view, key_hash};
use crate::lower::construct::{construction_tasks, plan_construction};
use crate::lower::control::{is_terminated, slice_source, terminated, SliceProblem, SliceSource};
use crate::lower::machine::{cut, ready, top, Machine};
use crate::lower::plan::{is_slice_member, value_tasks, Service, Task};
use crate::lower::plan_assign::assign_tasks;
use crate::lower::plan_calls::{
    emit_tasks, emitted_event, field_heads_fit, member_heads, member_slice_tasks, plan_emit,
    plan_ternary, plan_try_call, return_value_tasks, ternary_tasks, try_call_tasks,
};
use crate::lower::plan_function::{end_tasks, plan_end};
use crate::lower::plan_handlers::{
    catch_tasks, dynamic_array_in_storage, key_tasks, plan_catch, plan_key, plan_try_results,
    push_slot_tasks, storage_dynamic_array_info, try_results_tasks, variable_member,
    variable_members,
};
use crate::lower::plan_names::{
    is_calldata_slice, member_slot, other_length_tasks, value_is_calldata_slice,
};
use crate::lower::plan_stmt::{
    block_tasks, checked_tasks, effect_tasks, initializers_fit, plan_tuple_assign, stmt_tasks,
    tuple_assign_tasks,
};
use crate::lower::slots::{plan_view, slot_of, SlotPlan, SlotRoot};
use crate::lower::state::{lookup, Complaint, Lowerer};
use crate::mir::builder::{word, BuilderView, FunctionBuilder};
use crate::mir::function::{
    function_wf, has_value, is_public_function, value_fits, Function, FunctionView,
};
use crate::mir::types::{MirType, SliceLocation, Span, Value, ValueId};
use crate::word::U256;
use vstd::prelude::*;

verus! {

/// The first `count` offsets of a slot, each with the addition of it.
pub open spec fn offset_tasks<'a>(offsets: Seq<u64>, count: nat) -> Seq<Task<'a>>
    decreases count,
{
    if count == 0 {
        Seq::empty()
    } else {
        offset_tasks(offsets, (count - 1) as nat) + seq![Task::Constant(word(offsets[count - 1]))]
            .push(Task::Add)
    }
}

/// The array that an element is appended to in a call of `push`.
pub open spec fn pushed_to(call: Expr) -> Option<Expr> {
    match call.kind {
        ExprKind::Call(callee, _, _) => match callee.kind {
            ExprKind::Member(base, _) => Some(*base),
            _ => None,
        },
        _ => None,
    }
}

/// The tasks that compute the slot that a plan starts from.
pub open spec fn root_tasks<'a>(lowerer: Lowerer, root: SlotRoot<'a>) -> Seq<Task<'a>> {
    match root {
        SlotRoot::Reference(id) => match lookup(lowerer.locals@, id) {
            Some(value) => seq![Task::Reuse(value)],
            None => match lookup(lowerer.local_memory_slots@, id) {
                Some(offset) => seq![Task::LoadVariable(offset)],
                None => Seq::empty(),
            },
        },
        SlotRoot::Constant(slot) => seq![Task::Constant(slot)],
        SlotRoot::Element(expr) => seq![Task::Service(Service::ElementSlot(expr))],
        SlotRoot::Pushed(expr) => match pushed_to(*expr) {
            Some(base) => match dynamic_array_in_storage(base) {
                Some((element, slots)) => seq![Task::Slot(&base)] + push_slot_tasks(element, slots),
                None => Seq::empty(),
            },
            None => Seq::empty(),
        },
        SlotRoot::Called(expr) => seq![Task::Value(expr)],
    }
}

/// The tasks that compute a slot, or complain where there is none.
pub open spec fn planned_tasks<'a>(
    lowerer: Lowerer,
    plan: Option<(SlotRoot<'a>, Seq<u64>)>,
    span: Span,
) -> Seq<Task<'a>> {
    match plan {
        Some((root, offsets)) => root_tasks(lowerer, root) + offset_tasks(offsets, offsets.len()),
        None => seq![Task::Complain(Complaint::StorageReferenceAssignment, span)],
    }
}

/// Returns the tasks that compute a slot, or complain where there is none.
fn plan_slot<'a>(lowerer: &Lowerer, plan: Option<SlotPlan<'a>>, span: Span) -> (r: Vec<Task<'a>>)
    ensures
        r@ == planned_tasks(*lowerer, plan_view(plan), span),
{
    let mut tasks: Vec<Task<'a>> = Vec::new();
    let plan = match plan {
        Some(plan) => plan,
        None => {
            tasks.push(Task::Complain(Complaint::StorageReferenceAssignment, span));
            assert(tasks@ =~= planned_tasks(*lowerer, None, span));
            return tasks;
        },
    };
    match plan.root {
        SlotRoot::Reference(id) => {
            if let Some(value) = lowerer.get_local(id) {
                tasks.push(Task::Reuse(value));
            } else if let Some(offset) = lowerer.get_local_memory_offset(id) {
                tasks.push(Task::LoadVariable(offset));
            }
        },
        SlotRoot::Constant(slot) => {
            tasks.push(Task::Constant(slot));
        },
        SlotRoot::Element(expr) => {
            tasks.push(Task::Service(Service::ElementSlot(expr)));
        },
        SlotRoot::Pushed(expr) => {
            if let ExprKind::Call(callee, _, _) = &expr.kind {
                if let ExprKind::Member(base, _) = &callee.kind {
                    if let Some((element, slots)) = storage_dynamic_array_info(base) {
                        tasks.push(Task::Slot(base));
                        tasks.push(Task::PushBegin);
                        tasks.push(
                            Task::Service(
                                Service::PanicIf(
                                    crate::lower::plan::PanicCode::MemoryAllocationOverflow,
                                ),
                            ),
                        );
                        tasks.push(Task::PushedElement(slots));
                        tasks.push(Task::Service(Service::ClearValueAt(element)));
                        tasks.push(Task::PushEnd);
                    }
                }
            }
        },
        SlotRoot::Called(expr) => {
            tasks.push(Task::Value(expr));
        },
    }
    assert(tasks@ =~= root_tasks(*lowerer, plan.root));
    let ghost begin = tasks@;
    let mut i: usize = 0;
    assert(tasks@ =~= begin + offset_tasks::<'a>(plan.offsets@, 0));
    while i < plan.offsets.len()
        invariant
            i <= plan.offsets@.len(),
            tasks@ == begin + offset_tasks::<'a>(plan.offsets@, i as nat),
        decreases plan.offsets@.len() - i,
    {
        tasks.push(Task::Constant(U256::from_u64(plan.offsets[i])));
        tasks.push(Task::Add);
        i = i + 1;
        assert(tasks@ =~= begin + offset_tasks::<'a>(plan.offsets@, i as nat));
    }
    tasks
}

/// Whether a value is a slice of memory.
pub open spec fn is_memory_slice(func: FunctionView, value: ValueId) -> bool {
    match func.values[value.0 as int] {
        Value::Arg(arg) => arg.ty == MirType::Slice(SliceLocation::Memory),
        Value::Inst(id) => func.insts[id.0 as int].result_ty == Some(
            MirType::Slice(SliceLocation::Memory),
        ),
        Value::Undef(ty) => ty == MirType::Slice(SliceLocation::Memory),
        _ => false,
    }
}

/// Whether a value is a slice of memory.
fn value_is_memory_slice(func: &Function, value: ValueId) -> (r: bool)
    requires
        function_wf(func@),
        has_value(func@, value),
    ensures
        r == is_memory_slice(func@, value),
{
    proof {
        reveal(function_wf);
        assert(value_fits(func@, func@.values[value.0 as int]));
    }
    let ty: Option<MirType> = match func.values[value.0] {
        Value::Arg(arg) => Some(arg.ty),
        Value::Inst(id) => func.insts[id.0].result_ty,
        Value::Undef(ty) => Some(ty),
        _ => None,
    };
    match ty {
        Some(MirType::Slice(SliceLocation::Memory)) => true,
        _ => false,
    }
}

/// Whether the data of a successful call can be decoded into the variables of a
/// clause.
pub open spec fn clause_fits(hir: Hir, clause: TryClause) -> bool {
    &&& has_variables(hir, clause.args@)
    &&& member_heads(variable_members(hir, clause.args@), clause.args@.len()) <= u64::MAX
    &&& clause.args@.len() + 4 <= usize::MAX
}

/// More members take no less.
proof fn lemma_heads_add<'a>(hir: Hir, ids: Seq<VariableId>, fewer: nat, more: nat)
    requires
        fewer <= more,
    ensures
        member_heads(variable_members::<'a>(hir, ids), fewer) <= member_heads(
            variable_members::<'a>(hir, ids),
            more,
        ),
    decreases more,
{
    if fewer < more {
        lemma_heads_add(hir, ids, fewer, (more - 1) as nat);
    }
}

/// Whether the data of a successful call can be decoded into the variables of a
/// clause.
fn check_clause(hir: &Hir, clause: &TryClause) -> (r: bool)
    ensures
        r == clause_fits(*hir, *clause),
{
    if clause.args.len() > usize::MAX - 4 {
        return false;
    }
    let mut i: usize = 0;
    while i < clause.args.len()
        invariant
            i <= clause.args@.len(),
            forall|k: int| 0 <= k < i ==> (#[trigger] clause.args@[k]).0 < hir.variables@.len(),
        decreases clause.args@.len() - i,
    {
        if clause.args[i].0 >= hir.variables.len() {
            assert(!(clause.args@[i as int].0 < hir.variables@.len()));
            return false;
        }
        i = i + 1;
    }
    let mut size: u64 = 0;
    let mut k: usize = 0;
    while k < clause.args.len()
        invariant
            k <= clause.args@.len(),
            has_variables(*hir, clause.args@),
            size == member_heads(variable_members(*hir, clause.args@), k as nat),
        decreases clause.args@.len() - k,
    {
        assert(clause.args@[k as int].0 < hir.variables@.len());
        assert(variable_members(*hir, clause.args@)[k as int] == variable_member(
            *hir,
            clause.args@[k as int],
        ));
        let more = hir.variables[clause.args[k].0].abi.head_size;
        if more > u64::MAX - size {
            proof {
                lemma_heads_add(*hir, clause.args@, (k + 1) as nat, clause.args@.len());
            }
            return false;
        }
        size = size + more;
        k = k + 1;
    }
    true
}

/// Whether a program is such that tasks can be expanded.
pub open spec fn expandable(hir: Hir) -> bool {
    &&& hir_wf(hir)
    &&& initializers_fit(hir)
    &&& field_heads_fit(hir)
}

/// The tasks that a task stands for, where it stands for some and they can be
/// found.
#[verifier::opaque]
pub open spec fn expansion<'t>(
    lowerer: Lowerer,
    b: BuilderView,
    values: Seq<ValueId>,
    hir: Hir,
    task: Task<'t>,
) -> Option<Seq<Task<'t>>> {
    match task {
        Task::Value(expr) => Some(
            checked_tasks(
                lowerer.check_expr_errors,
                *expr,
                value_tasks::<'t>(lowerer, b.func, hir, *expr),
            ),
        ),
        Task::Effect(expr) => Some(effect_tasks::<'t>(lowerer, hir, *expr)),
        Task::Ternary(expr) => Some(ternary_tasks::<'t>(*expr)),
        Task::Assign(expr) => Some(assign_tasks::<'t>(lowerer, hir, *expr)),
        Task::TupleAssign(elements, rhs) => Some(tuple_assign_tasks::<'t>(*elements, *rhs)),
        Task::Slot(expr) => Some(
            planned_tasks(lowerer, slot_of::<'t>(lowerer, hir, *expr), expr.span),
        ),
        Task::MemberSlot(expr) => Some(
            planned_tasks(lowerer, member_slot::<'t>(lowerer, hir, *expr), expr.span),
        ),
        Task::Stmt(stmt) => Some(stmt_tasks::<'t>(lowerer, hir, *stmt)),
        Task::Statements(body, index) => Some(
            block_tasks::<'t>(lowerer, hir, *body, index as nat),
        ),
        Task::StatementsIfOpen(body, index) => Some(
            if terminated(b) {
                Seq::empty()
            } else {
                block_tasks::<'t>(lowerer, hir, *body, index as nat)
            },
        ),
        Task::Return(value) => Some(
            return_value_tasks(lowerer, is_public_function(b.func), value),
        ),
        Task::EndFunction(results) => Some(
            if terminated(b) {
                Seq::empty()
            } else if b.func.return_types.len() == 0 {
                seq![Task::Stop]
            } else {
                end_tasks::<'t>(lowerer, *results)
            },
        ),
        Task::TryCall(expr) => Some(try_call_tasks::<'t>(*expr)),
        Task::TryCatch(clauses) => Some(catch_tasks::<'t>(clauses@)),
        Task::TryResults(clause) => if clause_fits(hir, *clause) {
            Some(try_results_tasks::<'t>(hir, *clause))
        } else {
            None
        },
        Task::Emit(expr) => match emitted_event(*expr) {
            Some(id) => if id.0 < hir.events@.len() {
                Some(emit_tasks::<'t>(hir, *expr))
            } else {
                None
            },
            None => Some(emit_tasks::<'t>(hir, *expr)),
        },
        Task::MemberSlice(expr) => if is_slice_member(lowerer, hir, *expr) {
            Some(member_slice_tasks::<'t>(lowerer, hir, *expr))
        } else {
            None
        },
        Task::ConstructorPrelude(contract) => if contract.0 < hir.contracts@.len() {
            Some(construction_tasks::<'t>(lowerer, hir, contract))
        } else {
            None
        },
        Task::CalldataLength(expr) => match expr.kind {
            ExprKind::Member(base, member) => if ready(b, values, 1) {
                Some(
                    if is_calldata_slice(b.func, top(values, 0)) {
                        seq![Task::SliceLen]
                    } else {
                        seq![Task::Discard] + other_length_tasks(
                            lowerer,
                            hir,
                            *expr,
                            *base,
                            member@,
                        )
                    },
                )
            } else {
                None
            },
            _ => None,
        },
        Task::AssignResults(elements, _) => Some(
            result_assigns::<'t>(elements@, elements@.len()),
        ),
        Task::SliceOf(expr) => match expr.kind {
            ExprKind::Slice(base, start, end) => if ready(b, values, 1) {
                Some(
                    match slice_of(b, top(values, 0), *base) {
                        Ok((_, source)) => slice_tasks(*base, start, end, source.location),
                        Err(_) => Seq::empty(),
                    },
                )
            } else {
                None
            },
            _ => None,
        },
        Task::CopyIfCalldata => if ready(b, values, 1) {
            Some(
                if is_calldata_slice(b.func, top(values, 0)) {
                    seq![Task::Service(Service::CalldataBytes)]
                } else {
                    Seq::empty()
                },
            )
        } else {
            None
        },
        Task::MappingSlot(index, dynamic) => if ready(b, values, 1) && index_declared(hir, index) {
            Some(
                key_tasks(
                    key_hash(
                        lowerer,
                        hir,
                        is_calldata_slice(b.func, top(values, 0)),
                        is_memory_slice(b.func, top(values, 0)),
                        index_view(index),
                        dynamic,
                    ),
                    index,
                ),
            )
        } else {
            None
        },
        _ => None,
    }
}

/// The tasks that assign the results of a call, which are on the stack with the
/// first at the top, to the first `count` elements of a tuple.
pub open spec fn result_assigns<'t>(elements: Seq<Option<Expr>>, count: nat) -> Seq<Task<'t>>
    decreases count,
{
    if count == 0 {
        Seq::empty()
    } else {
        let front = result_assigns::<'t>(elements, (count - 1) as nat);
        match elements[count - 1] {
            Some(element) => front.push(Task::Assign(&element)),
            None => front,
        }
    }
}

/// Returns the tasks that assign the results of a call to the elements of a
/// tuple.
fn plan_result_assigns<'t>(elements: &'t Vec<Option<Expr>>) -> (r: Vec<Task<'t>>)
    ensures
        r@ == result_assigns::<'t>(elements@, elements@.len()),
{
    let mut tasks: Vec<Task<'t>> = Vec::new();
    let mut i: usize = 0;
    while i < elements.len()
        invariant
            i <= elements@.len(),
            tasks@ == result_assigns::<'t>(elements@, i as nat),
        decreases elements@.len() - i,
    {
        if let Some(element) = &elements[i] {
            tasks.push(Task::Assign(element));
        }
        i = i + 1;
    }
    tasks
}

/// The source of a slice of an expression.
pub open spec fn slice_of(b: BuilderView, value: ValueId, base: Expr) -> Result<
    (BuilderView, SliceSource),
    SliceProblem,
> {
    slice_source(
        b,
        value,
        base.facts.calldata_bytes,
        base.facts.dynamic_array,
        base.facts.word_elements,
    )
}

/// The tasks that cut a slice once its source is on the stack.
pub open spec fn slice_tasks<'t>(
    base: Expr,
    start: Option<Box<Expr>>,
    end: Option<Box<Expr>>,
    location: SliceLocation,
) -> Seq<Task<'t>> {
    let first = match start {
        Some(start) => Task::Value(&*start),
        None => Task::Constant(word(0)),
    };
    let cut = Task::SliceCut(base.facts.calldata_bytes, location, end is Some);
    match end {
        Some(end) => seq![first].push(Task::Value(&*end)).push(cut),
        None => seq![first].push(cut),
    }
}

/// Whether the variable that an index names is declared.
pub open spec fn index_declared(hir: Hir, index: Option<&Expr>) -> bool {
    index matches Some(expr) ==> (expr.facts.variable matches Some(id) ==> id.0
        < hir.variables@.len())
}

/// The tasks that may have been found.
pub open spec fn found<'t>(tasks: Option<Vec<Task<'t>>>) -> Option<Seq<Task<'t>>> {
    match tasks {
        Some(tasks) => Some(tasks@),
        None => None,
    }
}

impl Machine {
    /// Returns the tasks that a task stands for because of its syntax.
    fn expand_syntax<'b, 't>(
        &self,
        lowerer: &Lowerer,
        builder: &FunctionBuilder<'b>,
        hir: &'t Hir,
        task: &Task<'t>,
    ) -> (r: Option<Vec<Task<'t>>>)
        requires
            builder.wf(),
            expandable(*hir),
        ensures
            r is Some ==> found(r) == expansion(*lowerer, builder@, self.values@, *hir, *task),
            r is None ==> (*task is Return || *task is EndFunction || *task is TryCall || *task
                is TryCatch || *task is TryResults || *task is Emit || *task is MemberSlice || *task
                is ConstructorPrelude || *task is CalldataLength || *task is CopyIfCalldata || *task
                is MappingSlot || *task is SliceOf || expansion(
                *lowerer,
                builder@,
                self.values@,
                *hir,
                *task,
            ) is None),
    {
        proof {
            reveal(expansion);
        }
        match task {
            Task::Value(expr) => {
                let tasks = lowerer.plan_value(builder.func, hir, *expr);
                Some(lowerer.plan_checked(*expr, tasks))
            },
            Task::Effect(expr) => Some(lowerer.plan_effect(hir, *expr)),
            Task::Ternary(expr) => Some(plan_ternary(*expr)),
            Task::Assign(expr) => Some(lowerer.plan_assign(hir, *expr)),
            Task::TupleAssign(elements, rhs) => Some(plan_tuple_assign(*elements, *rhs)),
            Task::Slot(expr) => Some(plan_slot(lowerer, lowerer.slot_plan(hir, *expr), expr.span)),
            Task::MemberSlot(expr) => Some(
                plan_slot(lowerer, lowerer.member_slot_plan_of(hir, *expr), expr.span),
            ),
            Task::AssignResults(elements, _) => Some(plan_result_assigns(*elements)),
            Task::Stmt(stmt) => Some(lowerer.plan_stmt(hir, *stmt)),
            Task::Statements(body, index) => Some(lowerer.plan_block(hir, *body, *index)),
            Task::StatementsIfOpen(body, index) => Some(
                if is_terminated(builder) {
                    Vec::new()
                } else {
                    lowerer.plan_block(hir, *body, *index)
                },
            ),
            _ => None,
        }
    }

    /// Returns the tasks that a task stands for, where it stands for some and
    /// they can be found.
    pub fn expand<'b, 't>(
        &self,
        lowerer: &Lowerer,
        builder: &FunctionBuilder<'b>,
        hir: &'t Hir,
        task: &Task<'t>,
    ) -> (r: Option<Vec<Task<'t>>>)
        requires
            builder.wf(),
            expandable(*hir),
        ensures
            found(r) == expansion(*lowerer, builder@, self.values@, *hir, *task),
    {
        proof {
            reveal(expansion);
        }
        match task {
            Task::Return(value) => Some(lowerer.plan_return(builder.func.is_public(), *value)),
            Task::EndFunction(results) => {
                if is_terminated(builder) {
                    return Some(Vec::new());
                }
                if builder.func.return_types.len() == 0 {
                    let tasks = vec![Task::Stop];
                    assert(tasks@ =~= seq![Task::<'t>::Stop]);
                    return Some(tasks);
                }
                Some(plan_end(lowerer, *results))
            },
            Task::TryCall(expr) => Some(plan_try_call(*expr)),
            Task::TryCatch(clauses) => Some(plan_catch(*clauses)),
            Task::TryResults(clause) => {
                if check_clause(hir, *clause) {
                    Some(plan_try_results(hir, *clause))
                } else {
                    None
                }
            },
            Task::Emit(expr) => {
                if let ExprKind::Call(callee, _, _) = &expr.kind {
                    if let Some(crate::hir::Res::Item(crate::hir::ItemId::Event(id))) =
                        callee.facts.res {
                        if id.0 >= hir.events.len() {
                            return None;
                        }
                    }
                }
                Some(plan_emit(hir, *expr))
            },
            Task::MemberSlice(expr) => {
                if lowerer.is_calldata_slice_member(hir, *expr) {
                    Some(lowerer.plan_member_slice(hir, *expr))
                } else {
                    None
                }
            },
            Task::ConstructorPrelude(contract) => {
                if contract.0 < hir.contracts.len() {
                    Some(plan_construction(lowerer, hir, *contract))
                } else {
                    None
                }
            },
            Task::CalldataLength(_) | Task::CopyIfCalldata | Task::MappingSlot(_, _) | Task::SliceOf(
                _,
            ) => {
                self.expand_operand(lowerer, builder, hir, task)
            },
            _ => self.expand_syntax(lowerer, builder, hir, task),
        }
    }

    /// Returns the tasks that a task stands for because of what its operand is.
    fn expand_operand<'b, 't>(
        &self,
        lowerer: &Lowerer,
        builder: &FunctionBuilder<'b>,
        hir: &'t Hir,
        task: &Task<'t>,
    ) -> (r: Option<Vec<Task<'t>>>)
        requires
            builder.wf(),
            expandable(*hir),
            *task is CalldataLength || *task is CopyIfCalldata || *task is MappingSlot || *task
                is SliceOf,
        ensures
            found(r) == expansion(*lowerer, builder@, self.values@, *hir, *task),
    {
        proof {
            reveal(expansion);
        }
        if !self.is_ready(builder, 1) {
            return None;
        }
        let operand = self.peek(0);
        assert(has_value(builder@.func, top(self.values@, 0)));
        let in_calldata = value_is_calldata_slice(builder.func, operand);
        match task {
            Task::CalldataLength(expr) => {
                if let ExprKind::Member(base, member) = &expr.kind {
                    let mut tasks: Vec<Task<'t>> = Vec::new();
                    if in_calldata {
                        tasks.push(Task::SliceLen);
                        assert(tasks@ =~= seq![Task::<'t>::SliceLen]);
                        return Some(tasks);
                    }
                    tasks.push(Task::Discard);
                    let mut more = lowerer.plan_other_length(hir, *expr, base, member.as_str());
                    let ghost others = more@;
                    tasks.append(&mut more);
                    assert(tasks@ =~= seq![Task::<'t>::Discard] + others);
                    Some(tasks)
                } else {
                    None
                }
            },
            Task::SliceOf(expr) => {
                if let ExprKind::Slice(base, start, end) = &expr.kind {
                    let mut tasks: Vec<Task<'t>> = Vec::new();
                    let bytes = base.facts.calldata_bytes;
                    let array = base.facts.dynamic_array;
                    let location = if in_calldata {
                        if !bytes && array && !base.facts.word_elements {
                            return Some(tasks);
                        }
                        SliceLocation::Calldata
                    } else {
                        if !bytes && !array {
                            return Some(tasks);
                        }
                        SliceLocation::Memory
                    };
                    match start {
                        Some(start) => {
                            tasks.push(Task::Value(start));
                        },
                        None => {
                            tasks.push(Task::Constant(U256::from_u64(0)));
                        },
                    }
                    let has_end = match end {
                        Some(end) => {
                            tasks.push(Task::Value(end));
                            true
                        },
                        None => false,
                    };
                    tasks.push(Task::SliceCut(bytes, location, has_end));
                    assert(tasks@ =~= slice_tasks::<'t>(**base, *start, *end, location));
                    Some(tasks)
                } else {
                    None
                }
            },
            Task::CopyIfCalldata => {
                let mut tasks: Vec<Task<'t>> = Vec::new();
                if in_calldata {
                    tasks.push(Task::Service(Service::CalldataBytes));
                    assert(tasks@ =~= seq![Task::<'t>::Service(Service::CalldataBytes)]);
                }
                Some(tasks)
            },
            Task::MappingSlot(index, dynamic) => {
                if let Some(expr) = index {
                    if let Some(id) = expr.facts.variable {
                        if id.0 >= hir.variables.len() {
                            return None;
                        }
                    }
                }
                let in_memory = value_is_memory_slice(builder.func, operand);
                let hash = lowerer.choose_key_hash(hir, in_calldata, in_memory, *index, *dynamic);
                Some(plan_key(hash, *index))
            },
            _ => None,
        }
    }
}

} // verus!
