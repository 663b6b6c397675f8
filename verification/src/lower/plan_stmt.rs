//! Plans for statements.

use crate::hir::{
    hir_wf, is_value_ty, peeled, DataLocation, Expr, ExprKind, Hir, LoopSource, Stmt, StructId,
    SwitchCase, Ty, VarKind, Variable, VariableId,
};
use crate::lower::analysis::{
    expr_fits, has_external_call, has_update, immediate_packed_hash_return_args,
    is_for_loop_with_update, is_low_level, is_low_level_call_expr, leaves, packed_hash_return,
};
use crate::lower::fields::is_local_kind;
use crate::lower::plan::{Service, Task};
use crate::lower::slots::slot_of;
use crate::lower::state::{lookup, Complaint, Lowerer};
use crate::lower::types::{calldata_dynamic_var_kind, calldata_kind};
use crate::mir::builder::word;
use crate::mir::types::Span;
use crate::word::U256;
use vstd::prelude::*;

verus! {

/// The tasks that lower an expression to a value where it starts: one that
/// refers to an error stands for it, and its operands are not checked again.
pub open spec fn checked_tasks<'a>(checks: bool, expr: Expr, tasks: Seq<Task<'a>>) -> Seq<
    Task<'a>,
> {
    if checks {
        match expr.facts.error {
            Some(guar) => seq![Task::ErrorValue(guar)],
            None => seq![Task::SetChecks(false)] + tasks + seq![Task::SetChecks(true)],
        }
    } else {
        tasks
    }
}

/// Whether an expression yields nothing.
pub open spec fn is_unit_expr(expr: Expr) -> bool {
    expr.facts.ty matches Some(Ty::Tuple(elements)) && elements@.len() == 0
}

/// Whether an expression yields nothing.
pub fn yields_nothing(expr: &Expr) -> (r: bool)
    ensures
        r == is_unit_expr(*expr),
{
    match &expr.facts.ty {
        Some(ty) => ty.is_unit(),
        None => false,
    }
}

/// The array that `delete` zeroes in place: one in memory that a local variable
/// names.
pub open spec fn zeroed_array(lowerer: Lowerer, hir: Hir, target: Expr) -> Option<(Ty, u64, Span)> {
    match target.facts.variable {
        Some(id) => if id.0 < hir.variables@.len() && is_local_kind(
            hir.variables@[id.0 as int].kind,
        ) && !lowerer.storage_ref_locals@.contains(id.0) && lookup(lowerer.storage_slots@, id)
            is None && in_memory(hir.variables@[id.0 as int]) {
            match peeled(hir.variables@[id.0 as int].ty) {
                Ty::Array(element, len) => if len@ <= u64::MAX {
                    Some((*element, len@ as u64, hir.variables@[id.0 as int].ty_span))
                } else {
                    None
                },
                _ => None,
            }
        } else {
            None
        },
        None => None,
    }
}

/// Whether a variable is not declared to be anywhere but in memory.
pub open spec fn in_memory(var: Variable) -> bool {
    var.location is None || var.location == Some(DataLocation::Memory)
}

/// The struct in storage that `delete` clears.
pub open spec fn cleared_struct(lowerer: Lowerer, hir: Hir, target: Expr) -> Option<StructId> {
    match target.facts.ty {
        Some(ty) => match peeled(ty) {
            Ty::Struct(id) => if slot_of(lowerer, hir, target) is Some {
                Some(id)
            } else {
                None
            },
            _ => None,
        },
        None => None,
    }
}

/// The tasks that lower `delete`: a struct in storage is cleared, an array in
/// memory is zeroed in place, and anything else is assigned zero.
pub open spec fn delete_tasks<'a>(lowerer: Lowerer, hir: Hir, target: Expr) -> Seq<Task<'a>> {
    match cleared_struct(lowerer, hir, target) {
        Some(id) => seq![Task::Slot(&target)].push(Task::Service(Service::ClearStruct(id))),
        None => match zeroed_array(lowerer, hir, target) {
            Some((element, len, span)) => seq![Task::Value(&target)]
                .push(Task::ZeroElements(&element, len, span)),
            None => seq![Task::Constant(word(0))].push(Task::Assign(&target)),
        },
    }
}

/// The tasks that lower the first `count` elements of a tuple for their
/// effects.
pub open spec fn element_effects<'a>(elements: Seq<Option<Expr>>, count: nat) -> Seq<Task<'a>>
    decreases count,
{
    if count == 0 || count > elements.len() {
        Seq::empty()
    } else {
        let front = element_effects(elements, (count - 1) as nat);
        match elements[count - 1] {
            Some(element) => front.push(Task::Effect(&element)),
            None => front,
        }
    }
}

/// The tasks that lower an expression that yields nothing.
pub open spec fn unit_tasks<'a>(lowerer: Lowerer, hir: Hir, expr: Expr) -> Seq<Task<'a>> {
    match expr.kind {
        ExprKind::Call(_, _, _) => seq![Task::Service(Service::UnitCall(&expr))],
        ExprKind::Delete(target) => delete_tasks(lowerer, hir, *target),
        ExprKind::Ternary(cond, then_val, else_val) => seq![Task::Value(&*cond)]
            .push(Task::ArmsBegin)
            .push(Task::Effect(&*then_val))
            .push(Task::IfElse)
            .push(Task::Effect(&*else_val))
            .push(Task::IfEnd),
        ExprKind::Tuple(elements) => element_effects(elements@, elements@.len()),
        ExprKind::Error(_) => Seq::empty(),
        _ => seq![Task::Service(Service::Bug(expr.span))],
    }
}

/// The tasks that lower an expression for its effects, once it is known to be
/// free of errors.
pub open spec fn plain_effect_tasks<'a>(lowerer: Lowerer, hir: Hir, expr: Expr) -> Seq<Task<'a>> {
    match expr.kind {
        ExprKind::Assign(lhs, None, rhs) => match lhs.kind {
            ExprKind::Tuple(elements) => seq![Task::TupleAssign(&elements, &*rhs)],
            _ => value_or_unit_tasks(lowerer, hir, expr),
        },
        _ => value_or_unit_tasks(lowerer, hir, expr),
    }
}

/// The tasks that lower an expression and drop its value if it has one.
pub open spec fn value_or_unit_tasks<'a>(lowerer: Lowerer, hir: Hir, expr: Expr) -> Seq<Task<'a>> {
    if is_unit_expr(expr) {
        unit_tasks(lowerer, hir, expr)
    } else {
        seq![Task::Value(&expr)].push(Task::Discard)
    }
}

/// The tasks that lower an expression for its effects.
pub open spec fn effect_tasks<'a>(lowerer: Lowerer, hir: Hir, expr: Expr) -> Seq<Task<'a>> {
    if lowerer.check_expr_errors && expr.facts.error is Some {
        if is_unit_expr(expr) {
            Seq::empty()
        } else {
            seq![Task::ErrorValue(expr.facts.error->0)].push(Task::Discard)
        }
    } else if lowerer.check_expr_errors {
        seq![Task::SetChecks(false)] + plain_effect_tasks(lowerer, hir, expr) + seq![
            Task::SetChecks(true),
        ]
    } else {
        plain_effect_tasks(lowerer, hir, expr)
    }
}

/// Whether a declared variable lives in memory: it is assigned later, or its
/// initial value comes from another contract through shared memory.
pub open spec fn lives_in_memory(lowerer: Lowerer, hir: Hir, id: VariableId) -> bool {
    let var = hir.variables@[id.0 as int];
    lowerer.assigned_vars@.contains(id.0) || (var.initializer matches Some(init) && leaves(
        hir,
        init,
    ) && !(peeled(var.ty) is Struct))
}

/// The task that lowers the initial value of a variable.
pub open spec fn initial_task<'a>(var: Variable, id: VariableId) -> Task<'a> {
    match var.initializer {
        Some(init) => if var.takes_memory_bytes {
            Task::Service(Service::MemoryBytes(&init))
        } else if var.takes_memory_array {
            Task::Service(Service::MemoryArray(&init))
        } else {
            Task::Value(&init)
        },
        None => Task::DefaultVariable(id, Complaint::LocalInitializer, var.span),
    }
}

/// The tasks that lower a declaration of one variable. A storage reference is
/// bound to a slot. A variable without an initial value that stays a plain
/// value is left out until it is read.
pub open spec fn declaration_tasks<'a>(lowerer: Lowerer, hir: Hir, id: VariableId) -> Seq<
    Task<'a>,
> {
    let var = hir.variables@[id.0 as int];
    if var.location == Some(DataLocation::Storage) {
        match var.initializer {
            Some(init) => if slot_of::<'a>(lowerer, hir, init) is Some {
                seq![Task::MarkStorageRef(id)]
                    .push(Task::Slot(&init))
                    .push(Task::BindStorageRef(id))
            } else {
                seq![Task::MarkStorageRef(id)]
                    .push(Task::Report(Complaint::StorageReferenceInitializer, init.span))
            },
            None => seq![Task::MarkStorageRef(id)].push(Task::ReserveStorageRef(id)),
        }
    } else {
        let needs_memory = lives_in_memory(lowerer, hir, id);
        if var.initializer is None && !needs_memory && (is_value_ty(var.ty) || calldata_kind(var)
            is Some) {
            Seq::empty()
        } else {
            seq![initial_task(var, id)].push(Task::BindDeclared(id, needs_memory))
        }
    }
}

/// The elements of a tuple expression, through parentheses.
pub open spec fn tuple_of(expr: Expr) -> Option<Vec<Option<Expr>>>
    decreases expr,
{
    match expr.kind {
        ExprKind::Tuple(elements) => if elements@.len() == 1 && elements@[0] is Some {
            tuple_of(elements@[0]->0)
        } else {
            Some(elements)
        },
        _ => None,
    }
}

/// How many elements of a tuple come before the first omitted one.
pub open spec fn given_elements(elements: Seq<Option<Expr>>, from: nat) -> nat
    decreases elements.len() - from,
{
    if from >= elements.len() || elements[from as int] is None {
        from
    } else {
        given_elements(elements, from + 1)
    }
}

/// The tasks that lower the first `count` elements of a tuple, none omitted.
pub open spec fn element_values<'a>(elements: Seq<Option<Expr>>, count: nat) -> Seq<Task<'a>>
    decreases count,
{
    if count == 0 || count > elements.len() {
        Seq::empty()
    } else {
        element_values(elements, (count - 1) as nat).push(Task::Value(&elements[count - 1]->0))
    }
}

/// So many times the same task.
pub open spec fn discards<'a>(count: nat) -> Seq<Task<'a>> {
    Seq::new(count, |i: int| Task::Discard)
}

/// The tasks that lower the values of a tuple for so many targets: an omitted
/// element and a wrong count are complained about once the values before are
/// lowered.
pub open spec fn tuple_value_tasks<'a>(
    elements: Seq<Option<Expr>>,
    targets: nat,
    complaint: Complaint,
    span: Span,
    rest: Seq<Task<'a>>,
) -> Seq<Task<'a>> {
    let given = given_elements(elements, 0);
    let values = element_values::<'a>(elements, given);
    if given < elements.len() {
        values + discards(given) + seq![Task::Report(Complaint::OmittedElement, span)]
    } else if elements.len() != targets {
        values + discards(given) + seq![Task::Report(complaint, span)]
    } else {
        values + rest
    }
}

/// The tasks that bind the results of a low-level call to the first `count`
/// variables: the success flag and the returned data.
pub open spec fn low_level_bindings<'a>(ids: Seq<Option<VariableId>>, count: nat) -> Seq<Task<'a>>
    decreases count,
{
    if count == 0 || count > ids.len() {
        Seq::empty()
    } else {
        let front = low_level_bindings(ids, (count - 1) as nat);
        match ids[count - 1] {
            Some(id) => if count == 1 {
                front + seq![Task::Duplicate].push(Task::BindMemory(id))
            } else {
                front + seq![Task::Service(Service::ReturndataBytes)].push(Task::BindMemory(id))
            },
            None => front,
        }
    }
}

/// The tasks that lower a declaration of several variables.
pub open spec fn multi_declaration_tasks<'a>(ids: Vec<Option<VariableId>>, init: Expr) -> Seq<
    Task<'a>,
> {
    match tuple_of(init) {
        Some(elements) => tuple_value_tasks(
            elements@,
            ids@.len(),
            Complaint::DeclarationArity,
            init.span,
            seq![Task::BindLocals(&ids)],
        ),
        None => if is_low_level(init) {
            seq![Task::Value(&init)] + low_level_bindings(ids@, ids@.len()) + seq![Task::Discard]
        } else {
            seq![Task::ClearPending]
                .push(Task::Value(&init))
                .push(Task::BindResults(&ids, init.facts.slice_results))
        },
    }
}

/// The tasks that assign the first `count` of so many values on the stack to
/// the elements of a tuple, first to last.
pub open spec fn element_assigns<'a>(elements: Seq<Option<Expr>>, count: nat) -> Seq<Task<'a>>
    decreases count,
{
    if count == 0 || count > elements.len() {
        Seq::empty()
    } else {
        let front = element_assigns(elements, (count - 1) as nat);
        match elements[count - 1] {
            Some(element) => front + seq![Task::Pick((elements.len() - count) as usize)]
                .push(Task::Assign(&element)),
            None => front,
        }
    }
}

/// The tasks that assign the results of a low-level call to the first `count`
/// elements of a tuple.
pub open spec fn low_level_assigns<'a>(elements: Seq<Option<Expr>>, count: nat) -> Seq<Task<'a>>
    decreases count,
{
    if count == 0 || count > elements.len() {
        Seq::empty()
    } else {
        let front = low_level_assigns(elements, (count - 1) as nat);
        match elements[count - 1] {
            Some(element) => if count == 1 {
                front + seq![Task::Duplicate].push(Task::Assign(&element))
            } else {
                front + seq![Task::Service(Service::ReturndataBytes)].push(Task::Assign(&element))
            },
            None => front,
        }
    }
}

/// The tasks that assign several values to the elements of a tuple. All values
/// are lowered before the first is assigned, so that a swap reads the old ones.
pub open spec fn tuple_assign_tasks<'a>(elements: Vec<Option<Expr>>, rhs: Expr) -> Seq<Task<'a>> {
    match tuple_of(rhs) {
        Some(values) => tuple_value_tasks(
            values@,
            elements@.len(),
            Complaint::AssignmentArity,
            rhs.span,
            element_assigns(elements@, elements@.len()) + discards(elements@.len()),
        ),
        None => if is_low_level(rhs) {
            seq![Task::Value(&rhs)] + low_level_assigns(elements@, elements@.len()) + seq![
                Task::Discard,
            ]
        } else {
            seq![Task::ClearPending]
                .push(Task::Value(&rhs))
                .push(Task::AssignResults(&elements, rhs.facts.slice_results))
        },
    }
}

/// The tasks that lower the first `count` statements, one after the other.
pub open spec fn statement_tasks<'a>(body: Seq<Stmt>, count: nat) -> Seq<Task<'a>>
    decreases count,
{
    if count == 0 || count > body.len() {
        Seq::empty()
    } else {
        statement_tasks(body, (count - 1) as nat).push(Task::Stmt(&body[count - 1]))
    }
}

/// The tasks that lower a `for` loop with an update.
pub open spec fn for_tasks<'a>(cond: Expr, inner: Seq<Stmt>, else_stmt: Option<Box<Stmt>>) -> Seq<
    Task<'a>,
> {
    let last = (inner.len() - 1) as nat;
    let turn = seq![Task::LoopBegin(true)]
        .push(Task::ForBegin)
        .push(Task::Value(&cond))
        .push(Task::ForBranch)
        + statement_tasks(inner, last) + seq![Task::ForUpdate]
            .push(Task::Stmt(&inner[last as int]))
            .push(Task::ForElse);
    let ended = match else_stmt {
        Some(else_stmt) => turn.push(Task::Stmt(&*else_stmt)),
        None => turn,
    };
    ended.push(Task::LoopEnd(false))
}

/// The tasks that lower a loop.
pub open spec fn loop_tasks<'a>(body: Vec<Stmt>, source: LoopSource) -> Seq<Task<'a>> {
    if source is For && has_update(body@) {
        match body@[0] {
            Stmt::If(cond, then_stmt, else_stmt) => match *then_stmt {
                Stmt::Block(inner) => for_tasks(cond, inner@, else_stmt),
                _ => Seq::empty(),
            },
            _ => Seq::empty(),
        }
    } else {
        seq![Task::LoopBegin(false)].push(Task::Statements(&body, 0)).push(Task::LoopEnd(true))
    }
}

/// The tasks that lower the first `count` cases of a switch.
pub open spec fn case_tasks<'a>(cases: Seq<SwitchCase>, count: nat) -> Seq<Task<'a>>
    decreases count,
{
    if count == 0 || count > cases.len() {
        Seq::empty()
    } else {
        case_tasks(cases, (count - 1) as nat) + seq![Task::CaseBegin((count - 1) as usize)]
            .push(Task::Statements(&cases[count - 1].body, 0))
            .push(Task::CaseEnd)
    }
}

/// The tasks that lower a return statement.
pub open spec fn return_tasks<'a>(value: Option<Expr>) -> Seq<Task<'a>> {
    match value {
        Some(expr) => if is_unit_expr(expr) {
            seq![Task::Effect(&expr)].push(Task::LeaveIfOpen)
        } else {
            seq![Task::Return(Some(&expr))]
        },
        None => seq![Task::Return(None)],
    }
}

/// The tasks that lower a statement.
pub open spec fn stmt_tasks<'a>(lowerer: Lowerer, hir: Hir, stmt: Stmt) -> Seq<Task<'a>> {
    match stmt {
        Stmt::DeclSingle(id) => if id.0 < hir.variables@.len() {
            declaration_tasks(lowerer, hir, id)
        } else {
            Seq::empty()
        },
        Stmt::DeclMulti(ids, init) => multi_declaration_tasks(ids, init),
        Stmt::Expr(expr) => seq![Task::Effect(&expr)],
        Stmt::Block(body) | Stmt::AssemblyBlock(body) => seq![Task::Statements(&body, 0)],
        Stmt::UncheckedBlock(body) => seq![Task::SetUnchecked(true)]
            .push(Task::Statements(&body, 0))
            .push(Task::SetUnchecked(lowerer.in_unchecked_block)),
        Stmt::If(cond, then_stmt, else_stmt) => match else_stmt {
            Some(else_stmt) => seq![Task::Value(&cond)]
                .push(Task::IfBegin(true))
                .push(Task::Stmt(&*then_stmt))
                .push(Task::IfElse)
                .push(Task::Stmt(&*else_stmt))
                .push(Task::IfEnd),
            None => seq![Task::Value(&cond)]
                .push(Task::IfBegin(false))
                .push(Task::Stmt(&*then_stmt))
                .push(Task::IfEnd),
        },
        Stmt::Loop(body, source) => loop_tasks(body, source),
        Stmt::Switch(selector, cases) => seq![Task::Value(&selector)]
            .push(Task::SwitchBegin(&cases))
            + case_tasks(cases@, cases@.len()) + seq![Task::SwitchEnd],
        Stmt::Return(value) => return_tasks(value),
        Stmt::Revert(expr) => seq![Task::Effect(&expr)].push(Task::RevertIfOpen),
        Stmt::Emit(expr) => seq![Task::Emit(&expr)],
        Stmt::Try(expr, clauses) => try_tasks(expr, clauses),
        Stmt::Continue => match current_loop_of(lowerer) {
            Some(ctx) => seq![Task::Jump(ctx.continue_target)],
            None => Seq::empty(),
        },
        Stmt::Break => match current_loop_of(lowerer) {
            Some(ctx) => seq![Task::Jump(ctx.break_target)],
            None => Seq::empty(),
        },
        Stmt::Placeholder => Seq::empty(),
        Stmt::Error(_) => Seq::empty(),
    }
}

/// The innermost loop.
pub open spec fn current_loop_of(lowerer: Lowerer) -> Option<crate::lower::state::LoopContext> {
    if lowerer.loop_stack@.len() == 0 {
        None
    } else {
        Some(lowerer.loop_stack@.last())
    }
}

/// The tasks that lower a try statement: the call, the success clause, which is
/// the first, and the handlers.
pub open spec fn try_tasks<'a>(expr: Expr, clauses: Vec<crate::hir::TryClause>) -> Seq<Task<'a>> {
    let begun = seq![Task::TryBegin].push(Task::TryCall(&expr)).push(Task::TryBranch);
    let success = if clauses@.len() == 0 {
        begun
    } else if clauses@[0].args@.len() == 0 {
        begun.push(Task::Statements(&clauses@[0].body, 0))
    } else {
        begun + seq![Task::TryResults(&clauses@[0])].push(Task::Statements(&clauses@[0].body, 0))
    };
    success + seq![Task::TryCatch(&clauses)].push(Task::TryEnd)
}

/// The tasks that lower the statements of a block from an index on.
pub open spec fn block_tasks<'a>(lowerer: Lowerer, hir: Hir, body: Vec<Stmt>, index: nat) -> Seq<
    Task<'a>,
> {
    if index >= body@.len() {
        Seq::empty()
    } else {
        let next = if index + 1 < body@.len() {
            Some(body@[index as int + 1])
        } else {
            None
        };
        match packed_hash_return(hir, lowerer.hir_has_errors, body@[index as int], next) {
            Some(args) if lowerer.current_results@.len() == 1 => {
                seq![Task::Service(Service::PackedArguments(&args))]
                    .push(Task::Service(Service::FinishCurrent(1)))
            },
            _ => seq![Task::Stmt(&body@[index as int])]
                .push(Task::StatementsIfOpen(&body, (index + 1) as usize)),
        }
    }
}

/// Whether the variables that initial values name are declared.
pub open spec fn initializers_fit(hir: Hir) -> bool {
    forall|i: int|
        0 <= i < hir.variables@.len() && (#[trigger] hir.variables@[i]).initializer is Some
            ==> expr_fits(hir, hir.variables@[i].initializer->0)
}

/// Appends tasks.
fn append_tasks<'a>(tasks: &mut Vec<Task<'a>>, more: Vec<Task<'a>>)
    ensures
        final(tasks)@ == old(tasks)@ + more@,
{
    let ghost before = tasks@;
    let ghost all = more@;
    let mut more = more;
    tasks.append(&mut more);
    assert(tasks@ =~= before + all);
}

/// Returns so many times the same task.
fn plan_discards<'a>(count: usize) -> (r: Vec<Task<'a>>)
    ensures
        r@ == discards::<'a>(count as nat),
{
    let mut tasks: Vec<Task<'a>> = Vec::new();
    let mut i: usize = 0;
    while i < count
        invariant
            i <= count,
            tasks@ =~= discards::<'a>(i as nat),
        decreases count - i,
    {
        tasks.push(Task::Discard);
        i = i + 1;
    }
    tasks
}

/// Returns the elements of a tuple expression, through parentheses.
pub fn peel_tuple<'a>(expr: &'a Expr) -> (r: Option<&'a Vec<Option<Expr>>>)
    ensures
        (match r {
            Some(elements) => Some(*elements),
            None => None,
        }) == tuple_of(*expr),
    decreases expr,
{
    match &expr.kind {
        ExprKind::Tuple(elements) => {
            if elements.len() == 1 {
                if let Some(inner) = &elements[0] {
                    return peel_tuple(inner);
                }
            }
            Some(elements)
        },
        _ => None,
    }
}

/// Returns the tasks that lower the elements of a tuple for their effects.
fn plan_element_effects<'a>(elements: &'a Vec<Option<Expr>>) -> (r: Vec<Task<'a>>)
    ensures
        r@ == element_effects::<'a>(elements@, elements@.len()),
{
    let mut tasks: Vec<Task<'a>> = Vec::new();
    let mut i: usize = 0;
    while i < elements.len()
        invariant
            i <= elements@.len(),
            tasks@ =~= element_effects::<'a>(elements@, i as nat),
        decreases elements@.len() - i,
    {
        if let Some(element) = &elements[i] {
            tasks.push(Task::Effect(element));
        }
        i = i + 1;
    }
    tasks
}

/// Elements before the first omitted one stay so from any of them on.
proof fn lemma_given(elements: Seq<Option<Expr>>, from: nat)
    requires
        from < elements.len(),
        elements[from as int] is Some,
    ensures
        given_elements(elements, from) == given_elements(elements, from + 1),
{
}

/// Returns the tasks that lower the values of a tuple for so many targets.
fn plan_tuple_values<'a>(
    elements: &'a Vec<Option<Expr>>,
    targets: usize,
    complaint: Complaint,
    span: Span,
    rest: Vec<Task<'a>>,
) -> (r: Vec<Task<'a>>)
    ensures
        r@ == tuple_value_tasks(elements@, targets as nat, complaint, span, rest@),
{
    let mut tasks: Vec<Task<'a>> = Vec::new();
    let mut i: usize = 0;
    let mut omitted = false;
    while i < elements.len() && !omitted
        invariant
            i <= elements@.len(),
            tasks@ =~= element_values::<'a>(elements@, i as nat),
            given_elements(elements@, 0) == given_elements(elements@, i as nat),
            omitted ==> i < elements@.len() && elements@[i as int] is None,
        decreases elements@.len() - i, if omitted { 0int } else { 1int },
    {
        match &elements[i] {
            Some(element) => {
                proof {
                    lemma_given(elements@, i as nat);
                }
                tasks.push(Task::Value(element));
                i = i + 1;
            },
            None => {
                omitted = true;
            },
        }
    }
    assert(given_elements(elements@, 0) == i);
    if omitted {
        append_tasks(&mut tasks, plan_discards(i));
        tasks.push(Task::Report(Complaint::OmittedElement, span));
    } else if elements.len() != targets {
        append_tasks(&mut tasks, plan_discards(i));
        tasks.push(Task::Report(complaint, span));
    } else {
        append_tasks(&mut tasks, rest);
    }
    assert(tasks@ =~= tuple_value_tasks(elements@, targets as nat, complaint, span, rest@));
    tasks
}

/// Returns the tasks that lower a declaration of several variables.
fn plan_multi_declaration<'a>(ids: &'a Vec<Option<VariableId>>, init: &'a Expr) -> (r: Vec<
    Task<'a>,
>)
    ensures
        r@ == multi_declaration_tasks::<'a>(*ids, *init),
{
    if let Some(elements) = peel_tuple(init) {
        let rest: Vec<Task<'a>> = vec![Task::BindLocals(ids)];
        assert(rest@ =~= seq![Task::<'a>::BindLocals(ids)]);
        return plan_tuple_values(
            elements,
            ids.len(),
            Complaint::DeclarationArity,
            init.span,
            rest,
        );
    }
    let mut tasks: Vec<Task<'a>> = Vec::new();
    if is_low_level_call_expr(init) {
        tasks.push(Task::Value(init));
        let mut i: usize = 0;
        while i < ids.len()
            invariant
                i <= ids@.len(),
                tasks@ =~= seq![Task::<'a>::Value(init)] + low_level_bindings::<'a>(
                    ids@,
                    i as nat,
                ),
            decreases ids@.len() - i,
        {
            if let Some(id) = ids[i] {
                if i == 0 {
                    tasks.push(Task::Duplicate);
                } else {
                    tasks.push(Task::Service(Service::ReturndataBytes));
                }
                tasks.push(Task::BindMemory(id));
            }
            i = i + 1;
        }
        tasks.push(Task::Discard);
    } else {
        tasks.push(Task::ClearPending);
        tasks.push(Task::Value(init));
        tasks.push(Task::BindResults(ids, init.facts.slice_results));
    }
    assert(tasks@ =~= multi_declaration_tasks::<'a>(*ids, *init));
    tasks
}

/// Takes an assignment of several values apart into tasks.
pub fn plan_tuple_assign<'a>(elements: &'a Vec<Option<Expr>>, rhs: &'a Expr) -> (r: Vec<Task<'a>>)
    ensures
        r@ == tuple_assign_tasks::<'a>(*elements, *rhs),
{
    if let Some(values) = peel_tuple(rhs) {
        let mut rest: Vec<Task<'a>> = Vec::new();
        let mut i: usize = 0;
        while i < elements.len()
            invariant
                i <= elements@.len(),
                rest@ =~= element_assigns::<'a>(elements@, i as nat),
            decreases elements@.len() - i,
        {
            if let Some(element) = &elements[i] {
                rest.push(Task::Pick(elements.len() - (i + 1)));
                rest.push(Task::Assign(element));
            }
            i = i + 1;
        }
        append_tasks(&mut rest, plan_discards(elements.len()));
        return plan_tuple_values(
            values,
            elements.len(),
            Complaint::AssignmentArity,
            rhs.span,
            rest,
        );
    }
    let mut tasks: Vec<Task<'a>> = Vec::new();
    if is_low_level_call_expr(rhs) {
        tasks.push(Task::Value(rhs));
        let mut i: usize = 0;
        while i < elements.len()
            invariant
                i <= elements@.len(),
                tasks@ =~= seq![Task::<'a>::Value(rhs)] + low_level_assigns::<'a>(
                    elements@,
                    i as nat,
                ),
            decreases elements@.len() - i,
        {
            if let Some(element) = &elements[i] {
                if i == 0 {
                    tasks.push(Task::Duplicate);
                } else {
                    tasks.push(Task::Service(Service::ReturndataBytes));
                }
                tasks.push(Task::Assign(element));
            }
            i = i + 1;
        }
        tasks.push(Task::Discard);
    } else {
        tasks.push(Task::ClearPending);
        tasks.push(Task::Value(rhs));
        tasks.push(Task::AssignResults(elements, rhs.facts.slice_results));
    }
    assert(tasks@ =~= tuple_assign_tasks::<'a>(*elements, *rhs));
    tasks
}

/// Returns the tasks that lower a `for` loop with an update.
fn plan_for<'a>(cond: &'a Expr, inner: &'a Vec<Stmt>, else_stmt: &'a Option<Box<Stmt>>) -> (r: Vec<
    Task<'a>,
>)
    requires
        inner@.len() >= 1,
    ensures
        r@ == for_tasks::<'a>(*cond, inner@, *else_stmt),
{
    let mut tasks: Vec<Task<'a>> = vec![
        Task::LoopBegin(true),
        Task::ForBegin,
        Task::Value(cond),
        Task::ForBranch,
    ];
    let ghost head = tasks@;
    assert(head =~= seq![Task::<'a>::LoopBegin(true)]
        .push(Task::ForBegin)
        .push(Task::Value(cond))
        .push(Task::ForBranch));
    let last: usize = inner.len() - 1;
    let mut i: usize = 0;
    while i < last
        invariant
            i <= last < inner@.len(),
            tasks@ =~= head + statement_tasks::<'a>(inner@, i as nat),
        decreases last - i,
    {
        tasks.push(Task::Stmt(&inner[i]));
        i = i + 1;
    }
    tasks.push(Task::ForUpdate);
    tasks.push(Task::Stmt(&inner[last]));
    tasks.push(Task::ForElse);
    if let Some(else_stmt) = else_stmt {
        tasks.push(Task::Stmt(else_stmt));
    }
    tasks.push(Task::LoopEnd(false));
    assert(tasks@ =~= for_tasks::<'a>(*cond, inner@, *else_stmt));
    tasks
}

/// Returns the tasks that lower a loop.
fn plan_loop<'a>(body: &'a Vec<Stmt>, source: LoopSource) -> (r: Vec<Task<'a>>)
    ensures
        r@ == loop_tasks::<'a>(*body, source),
{
    if matches!(source, LoopSource::For) && is_for_loop_with_update(body) {
        if let Stmt::If(cond, then_stmt, else_stmt) = &body[0] {
            if let Stmt::Block(inner) = &**then_stmt {
                return plan_for(cond, inner, else_stmt);
            }
        }
    }
    let tasks: Vec<Task<'a>> = vec![
        Task::LoopBegin(false),
        Task::Statements(body, 0),
        Task::LoopEnd(true),
    ];
    assert(tasks@ =~= loop_tasks::<'a>(*body, source));
    tasks
}

/// Returns the tasks that lower a switch.
fn plan_switch<'a>(selector: &'a Expr, cases: &'a Vec<SwitchCase>) -> (r: Vec<Task<'a>>)
    ensures
        r@ == seq![Task::<'a>::Value(selector)].push(Task::SwitchBegin(cases)) + case_tasks::<'a>(
            cases@,
            cases@.len(),
        ) + seq![Task::SwitchEnd],
{
    let mut tasks: Vec<Task<'a>> = vec![Task::Value(selector), Task::SwitchBegin(cases)];
    let ghost head = tasks@;
    assert(head =~= seq![Task::<'a>::Value(selector)].push(Task::SwitchBegin(cases)));
    let mut i: usize = 0;
    while i < cases.len()
        invariant
            i <= cases@.len(),
            tasks@ =~= head + case_tasks::<'a>(cases@, i as nat),
        decreases cases@.len() - i,
    {
        tasks.push(Task::CaseBegin(i));
        tasks.push(Task::Statements(&cases[i].body, 0));
        tasks.push(Task::CaseEnd);
        i = i + 1;
    }
    tasks.push(Task::SwitchEnd);
    assert(tasks@ =~= head + case_tasks::<'a>(cases@, cases@.len()) + seq![Task::SwitchEnd]);
    tasks
}

/// Returns the tasks that lower a try statement.
fn plan_try<'a>(expr: &'a Expr, clauses: &'a Vec<crate::hir::TryClause>) -> (r: Vec<Task<'a>>)
    ensures
        r@ == try_tasks::<'a>(*expr, *clauses),
{
    let mut tasks: Vec<Task<'a>> = vec![
        Task::TryBegin,
        Task::TryCall(expr),
        Task::TryBranch,
    ];
    if clauses.len() > 0 {
        if clauses[0].args.len() > 0 {
            tasks.push(Task::TryResults(&clauses[0]));
        }
        tasks.push(Task::Statements(&clauses[0].body, 0));
    }
    tasks.push(Task::TryCatch(clauses));
    tasks.push(Task::TryEnd);
    assert(tasks@ =~= try_tasks::<'a>(*expr, *clauses));
    tasks
}

impl Lowerer {
    /// Adds to the tasks of an expression what its place asks for: where errors
    /// are checked, an expression that refers to one stands for it.
    pub fn plan_checked<'a>(&self, expr: &Expr, tasks: Vec<Task<'a>>) -> (r: Vec<Task<'a>>)
        ensures
            r@ == checked_tasks(self.check_expr_errors, *expr, tasks@),
    {
        if !self.check_expr_errors {
            return tasks;
        }
        let mut out: Vec<Task<'a>> = Vec::new();
        match expr.facts.error {
            Some(guar) => {
                out.push(Task::ErrorValue(guar));
            },
            None => {
                out.push(Task::SetChecks(false));
                append_tasks(&mut out, tasks);
                out.push(Task::SetChecks(true));
            },
        }
        assert(out@ =~= checked_tasks(self.check_expr_errors, *expr, tasks@));
        out
    }

    /// Returns the tasks that lower `delete`.
    fn plan_delete<'a>(&self, hir: &'a Hir, target: &'a Expr) -> (r: Vec<Task<'a>>)
        requires
            hir_wf(*hir),
        ensures
            r@ == delete_tasks::<'a>(*self, *hir, *target),
    {
        let ghost expected = delete_tasks::<'a>(*self, *hir, *target);
        let mut tasks: Vec<Task<'a>> = Vec::new();
        if let Some(ty) = &target.facts.ty {
            if let Ty::Struct(id) = ty.peel_refs() {
                if self.slot_plan(hir, target).is_some() {
                    tasks.push(Task::Slot(target));
                    tasks.push(Task::Service(Service::ClearStruct(*id)));
                    assert(tasks@ =~= expected);
                    return tasks;
                }
            }
        }
        if let Some(id) = target.facts.variable {
            if id.0 < hir.variables.len() && !self.is_storage_ref_local(id)
                && self.get_storage_slot(id).is_none() {
                let var = &hir.variables[id.0];
                let local = matches!(
                    var.kind,
                    VarKind::Parameter | VarKind::Return | VarKind::Local
                );
                let memory = match var.location {
                    None | Some(DataLocation::Memory) => true,
                    _ => false,
                };
                if local && memory {
                    if let Ty::Array(element, len) = var.ty.peel_refs() {
                        if let Some(len) = len.to_u64() {
                            tasks.push(Task::Value(target));
                            tasks.push(Task::ZeroElements(element, len, var.ty_span));
                            assert(tasks@ =~= expected);
                            return tasks;
                        }
                    }
                }
            }
        }
        tasks.push(Task::Constant(U256::zero()));
        tasks.push(Task::Assign(target));
        assert(tasks@ =~= expected);
        tasks
    }

    /// Returns the tasks that lower an expression that yields nothing.
    fn plan_unit<'a>(&self, hir: &'a Hir, expr: &'a Expr) -> (r: Vec<Task<'a>>)
        requires
            hir_wf(*hir),
        ensures
            r@ == unit_tasks::<'a>(*self, *hir, *expr),
    {
        let mut tasks: Vec<Task<'a>> = Vec::new();
        match &expr.kind {
            ExprKind::Call(_, _, _) => {
                tasks.push(Task::Service(Service::UnitCall(expr)));
            },
            ExprKind::Delete(target) => {
                return self.plan_delete(hir, target);
            },
            ExprKind::Ternary(cond, then_val, else_val) => {
                tasks.push(Task::Value(cond));
                tasks.push(Task::ArmsBegin);
                tasks.push(Task::Effect(then_val));
                tasks.push(Task::IfElse);
                tasks.push(Task::Effect(else_val));
                tasks.push(Task::IfEnd);
            },
            ExprKind::Tuple(elements) => {
                return plan_element_effects(elements);
            },
            ExprKind::Error(_) => {},
            _ => {
                tasks.push(Task::Service(Service::Bug(expr.span)));
            },
        }
        assert(tasks@ =~= unit_tasks::<'a>(*self, *hir, *expr));
        tasks
    }

    /// Returns the tasks that lower an expression for its effects, once it is
    /// known to be free of errors.
    fn plan_plain_effect<'a>(&self, hir: &'a Hir, expr: &'a Expr) -> (r: Vec<Task<'a>>)
        requires
            hir_wf(*hir),
        ensures
            r@ == plain_effect_tasks::<'a>(*self, *hir, *expr),
    {
        if let ExprKind::Assign(lhs, None, rhs) = &expr.kind {
            if let ExprKind::Tuple(elements) = &lhs.kind {
                let tasks: Vec<Task<'a>> = vec![Task::TupleAssign(elements, rhs)];
                assert(tasks@ =~= plain_effect_tasks::<'a>(*self, *hir, *expr));
                return tasks;
            }
        }
        if yields_nothing(expr) {
            return self.plan_unit(hir, expr);
        }
        let tasks: Vec<Task<'a>> = vec![Task::Value(expr), Task::Discard];
        assert(tasks@ =~= plain_effect_tasks::<'a>(*self, *hir, *expr));
        tasks
    }

    /// Takes an expression apart into the tasks that lower it for its effects.
    pub fn plan_effect<'a>(&self, hir: &'a Hir, expr: &'a Expr) -> (r: Vec<Task<'a>>)
        requires
            hir_wf(*hir),
        ensures
            r@ == effect_tasks::<'a>(*self, *hir, *expr),
    {
        let mut tasks: Vec<Task<'a>> = Vec::new();
        if !self.check_expr_errors {
            return self.plan_plain_effect(hir, expr);
        }
        match expr.facts.error {
            Some(guar) => {
                if !yields_nothing(expr) {
                    tasks.push(Task::ErrorValue(guar));
                    tasks.push(Task::Discard);
                }
            },
            None => {
                tasks.push(Task::SetChecks(false));
                append_tasks(&mut tasks, self.plan_plain_effect(hir, expr));
                tasks.push(Task::SetChecks(true));
            },
        }
        assert(tasks@ =~= effect_tasks::<'a>(*self, *hir, *expr));
        tasks
    }

    /// Returns the tasks that lower a declaration of one variable.
    fn plan_declaration<'a>(&self, hir: &'a Hir, id: VariableId) -> (r: Vec<Task<'a>>)
        requires
            hir_wf(*hir),
            initializers_fit(*hir),
            id.0 < hir.variables@.len(),
        ensures
            r@ == declaration_tasks::<'a>(*self, *hir, id),
    {
        let ghost expected = declaration_tasks::<'a>(*self, *hir, id);
        let var = &hir.variables[id.0];
        let mut tasks: Vec<Task<'a>> = Vec::new();
        if let Some(DataLocation::Storage) = var.location {
            tasks.push(Task::MarkStorageRef(id));
            match &var.initializer {
                Some(init) => {
                    if self.slot_plan(hir, init).is_some() {
                        tasks.push(Task::Slot(init));
                        tasks.push(Task::BindStorageRef(id));
                    } else {
                        tasks.push(Task::Report(Complaint::StorageReferenceInitializer, init.span));
                    }
                },
                None => {
                    tasks.push(Task::ReserveStorageRef(id));
                },
            }
            assert(tasks@ =~= expected);
            return tasks;
        }
        let has_external = match &var.initializer {
            Some(init) => has_external_call(hir, init),
            None => false,
        };
        let is_struct = matches!(var.ty.peel_refs(), Ty::Struct(_));
        let needs_memory = self.is_var_assigned(id) || (has_external && !is_struct);
        assert(needs_memory == lives_in_memory(*self, *hir, id));
        if var.initializer.is_none() && !needs_memory {
            if var.ty.is_value_type() || calldata_dynamic_var_kind(var).is_some() {
                assert(tasks@ =~= expected);
                return tasks;
            }
        }
        match &var.initializer {
            Some(init) => {
                if var.takes_memory_bytes {
                    tasks.push(Task::Service(Service::MemoryBytes(init)));
                } else if var.takes_memory_array {
                    tasks.push(Task::Service(Service::MemoryArray(init)));
                } else {
                    tasks.push(Task::Value(init));
                }
            },
            None => {
                tasks.push(Task::DefaultVariable(id, Complaint::LocalInitializer, var.span));
            },
        }
        tasks.push(Task::BindDeclared(id, needs_memory));
        assert(tasks@ =~= expected);
        tasks
    }

    /// Takes a statement apart into tasks.
    pub fn plan_stmt<'a>(&self, hir: &'a Hir, stmt: &'a Stmt) -> (r: Vec<Task<'a>>)
        requires
            hir_wf(*hir),
            initializers_fit(*hir),
        ensures
            r@ == stmt_tasks::<'a>(*self, *hir, *stmt),
    {
        let ghost expected = stmt_tasks::<'a>(*self, *hir, *stmt);
        let mut tasks: Vec<Task<'a>> = Vec::new();
        match stmt {
            Stmt::DeclSingle(id) => {
                if id.0 < hir.variables.len() {
                    return self.plan_declaration(hir, *id);
                }
            },
            Stmt::DeclMulti(ids, init) => {
                return plan_multi_declaration(ids, init);
            },
            Stmt::Expr(expr) => {
                tasks.push(Task::Effect(expr));
            },
            Stmt::Block(body) | Stmt::AssemblyBlock(body) => {
                tasks.push(Task::Statements(body, 0));
            },
            Stmt::UncheckedBlock(body) => {
                tasks.push(Task::SetUnchecked(true));
                tasks.push(Task::Statements(body, 0));
                tasks.push(Task::SetUnchecked(self.in_unchecked_block));
            },
            Stmt::If(cond, then_stmt, else_stmt) => {
                tasks.push(Task::Value(cond));
                tasks.push(Task::IfBegin(else_stmt.is_some()));
                tasks.push(Task::Stmt(then_stmt));
                if let Some(else_stmt) = else_stmt {
                    tasks.push(Task::IfElse);
                    tasks.push(Task::Stmt(else_stmt));
                }
                tasks.push(Task::IfEnd);
            },
            Stmt::Loop(body, source) => {
                return plan_loop(body, *source);
            },
            Stmt::Switch(selector, cases) => {
                return plan_switch(selector, cases);
            },
            Stmt::Return(value) => match value {
                Some(expr) => {
                    if yields_nothing(expr) {
                        tasks.push(Task::Effect(expr));
                        tasks.push(Task::LeaveIfOpen);
                    } else {
                        tasks.push(Task::Return(Some(expr)));
                    }
                },
                None => {
                    tasks.push(Task::Return(None));
                },
            },
            Stmt::Revert(expr) => {
                tasks.push(Task::Effect(expr));
                tasks.push(Task::RevertIfOpen);
            },
            Stmt::Emit(expr) => {
                tasks.push(Task::Emit(expr));
            },
            Stmt::Try(expr, clauses) => {
                return plan_try(expr, clauses);
            },
            Stmt::Continue => {
                if let Some(ctx) = self.current_loop() {
                    tasks.push(Task::Jump(ctx.continue_target));
                }
            },
            Stmt::Break => {
                if let Some(ctx) = self.current_loop() {
                    tasks.push(Task::Jump(ctx.break_target));
                }
            },
            Stmt::Placeholder => {},
            Stmt::Error(_) => {},
        }
        assert(tasks@ =~= expected);
        tasks
    }

    /// Takes the statements of a block from an index on apart into tasks: the
    /// first of them, and the rest unless control leaves. A declaration whose
    /// hash is returned at once is lowered together with the return.
    pub fn plan_block<'a>(&self, hir: &'a Hir, body: &'a Vec<Stmt>, index: usize) -> (r: Vec<
        Task<'a>,
    >)
        requires
            hir_wf(*hir),
        ensures
            r@ == block_tasks::<'a>(*self, *hir, *body, index as nat),
    {
        let ghost expected = block_tasks::<'a>(*self, *hir, *body, index as nat);
        let mut tasks: Vec<Task<'a>> = Vec::new();
        if index >= body.len() {
            assert(tasks@ =~= expected);
            return tasks;
        }
        let next: Option<&'a Stmt> = if index + 1 < body.len() {
            Some(&body[index + 1])
        } else {
            None
        };
        let packed = immediate_packed_hash_return_args(
            hir,
            self.hir_has_errors,
            &body[index],
            next,
        );
        if let Some(args) = packed {
            if self.current_results.len() == 1 {
                tasks.push(Task::Service(Service::PackedArguments(args)));
                tasks.push(Task::Service(Service::FinishCurrent(1)));
                assert(tasks@ =~= expected);
                return tasks;
            }
        }
        tasks.push(Task::Stmt(&body[index]));
        tasks.push(Task::StatementsIfOpen(body, index + 1));
        assert(tasks@ =~= expected);
        tasks
    }
}

} // verus!
