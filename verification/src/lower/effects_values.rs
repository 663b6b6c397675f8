//! The plans of expressions leave one value more, and those of assignments use
//! the assigned value up.

use crate::hir::{BinOp, Builtin, Expr, ExprKind, Hir, Ident, Ty, UnOp, VariableId};
use crate::lower::effects::{effect, group_standings, have_effect, of, standing_to};
use crate::lower::machine_flow::{offset_tasks, planned_tasks, pushed_to, root_tasks};
use crate::lower::plan::{
    array_tasks, assignment_tasks, binary_tasks, is_slice_member, operand_task, unary_tasks,
    value_tasks,
};
use crate::lower::plan_assign::{
    assign_component_tasks, assign_member_tasks, assign_tasks, assign_variable_tasks,
    right_side_task, store_state_tasks,
};
use crate::lower::plan_calls::member_slice_tasks;
use crate::lower::plan_handlers::{dynamic_array_in_storage, push_slot_tasks};
use crate::lower::plan_names::{
    builtin_member_tasks, field_tasks, length_tasks, member_slot, member_tasks, name_tasks,
    other_length_tasks, plain_member_tasks, slice_variable_tasks,
};
use crate::lower::slots::{reference_known, slot_of, SlotRoot};
use crate::lower::state::{Lowerer, StorageLocation};
use crate::mir::function::FunctionView;
use crate::mir::types::Span;
use vstd::prelude::*;

verus! {

/// The plan of a binary expression leaves one value more.
#[verifier::rlimit(80)]
proof fn lemma_binary_effect<'t>(hir: Hir, expr: Expr, lhs: Expr, op: BinOp, rhs: Expr)
    requires
        expr.kind is Binary,
    ensures
        have_effect(hir, binary_tasks::<'t>(expr, lhs, op, rhs), of(0, 1)),
{
    broadcast use group_standings;

    reveal_with_fuel(standing_to, 5);
    assert(effect(hir, operand_task::<'t>(lhs, rhs)) == of(0, 1));
    assert(effect(hir, operand_task::<'t>(rhs, lhs)) == of(0, 1));
}

/// The plan of a unary expression leaves one value more.
#[verifier::rlimit(80)]
proof fn lemma_unary_effect<'t>(hir: Hir, expr: Expr, op: UnOp, operand: Expr)
    requires
        expr.kind is Unary,
    ensures
        have_effect(hir, unary_tasks::<'t>(expr, op, operand), of(0, 1)),
{
    broadcast use group_standings;

    reveal_with_fuel(standing_to, 6);
}

/// The plan of an array literal leaves one value more.
proof fn lemma_array_effect<'t>(hir: Hir, elements: Seq<Expr>, count: nat)
    ensures
        have_effect(hir, array_tasks::<'t>(elements, count), of(0, 1)),
    decreases count,
{
    broadcast use group_standings;

    reveal_with_fuel(standing_to, 3);
    if count > 0 && count <= elements.len() {
        lemma_array_effect(hir, elements, (count - 1) as nat);
    }
}

/// The plan of an assignment leaves one value more.
proof fn lemma_assignment_effect<'t>(
    lowerer: Lowerer,
    hir: Hir,
    expr: Expr,
    lhs: Expr,
    op: Option<BinOp>,
    rhs: Expr,
)
    ensures
        have_effect(hir, assignment_tasks::<'t>(lowerer, hir, expr, lhs, op, rhs), of(0, 1)),
{
    broadcast use group_standings;

    reveal_with_fuel(standing_to, 7);
    assert(effect(hir, right_side_task::<'t>(lowerer, hir, lhs, rhs)) == of(0, 1));
}

/// The plan of a name leaves one value more.
proof fn lemma_name_effect<'t>(lowerer: Lowerer, hir: Hir, expr: Expr)
    ensures
        have_effect(hir, name_tasks::<'t>(lowerer, hir, expr), of(0, 1)),
{
    broadcast use group_standings;

    reveal_with_fuel(standing_to, 3);
}

/// The plan of a slice variable leaves one value more.
proof fn lemma_slice_variable_effect<'t>(
    lowerer: Lowerer,
    func: FunctionView,
    hir: Hir,
    base: Expr,
)
    ensures
        slice_variable_tasks::<'t>(lowerer, func, hir, base) matches Some(tasks) ==> have_effect(
            hir,
            tasks,
            of(0, 1),
        ),
{
    broadcast use group_standings;

    reveal_with_fuel(standing_to, 2);
}

/// The plan of a length leaves one value more.
proof fn lemma_length_effect<'t>(
    lowerer: Lowerer,
    func: FunctionView,
    hir: Hir,
    expr: Expr,
    base: Expr,
)
    ensures
        length_tasks::<'t>(lowerer, func, hir, expr, base) matches Some(tasks) ==> have_effect(
            hir,
            tasks,
            of(0, 1),
        ),
{
    broadcast use group_standings;

    reveal_with_fuel(standing_to, 4);
    lemma_slice_variable_effect(lowerer, func, hir, base);
}

/// The plan of a struct member leaves one value more.
proof fn lemma_field_effect<'t>(
    lowerer: Lowerer,
    hir: Hir,
    expr: Expr,
    base: Expr,
    member: Seq<char>,
)
    ensures
        have_effect(hir, field_tasks::<'t>(lowerer, hir, expr, base, member), of(0, 1)),
        have_effect(hir, other_length_tasks::<'t>(lowerer, hir, expr, base, member), of(0, 1)),
{
    broadcast use group_standings;

    reveal_with_fuel(standing_to, 3);
}

/// The plan of a built-in member leaves one value more.
proof fn lemma_builtin_member_effect<'t>(
    lowerer: Lowerer,
    func: FunctionView,
    hir: Hir,
    expr: Expr,
    base: Expr,
    builtin: Builtin,
)
    ensures
        builtin_member_tasks::<'t>(lowerer, func, hir, expr, base, builtin) matches Some(tasks)
            ==> have_effect(hir, tasks, of(0, 1)),
{
    broadcast use group_standings;

    reveal_with_fuel(standing_to, 3);
    lemma_length_effect(lowerer, func, hir, expr, base);
}

/// The plan of a member leaves one value more.
proof fn lemma_member_effect<'t>(
    lowerer: Lowerer,
    func: FunctionView,
    hir: Hir,
    expr: Expr,
    base: Expr,
    member: Seq<char>,
)
    ensures
        have_effect(hir, member_tasks::<'t>(lowerer, func, hir, expr, base, member), of(0, 1)),
{
    broadcast use group_standings;

    reveal_with_fuel(standing_to, 3);
    if let Some(builtin) = expr.facts.builtin {
        lemma_builtin_member_effect(lowerer, func, hir, expr, base, builtin);
    }
    lemma_length_effect(lowerer, func, hir, expr, base);
    lemma_field_effect(lowerer, hir, expr, base, member);
    assert(have_effect(
        hir,
        plain_member_tasks::<'t>(lowerer, func, hir, expr, base, member),
        of(0, 1),
    ));
}

/// The plan of an expression leaves exactly one value more than there were, and
/// no task of it runs short.
pub proof fn law_value_plans_leave_one_value<'t>(
    lowerer: Lowerer,
    func: FunctionView,
    hir: Hir,
    expr: Expr,
)
    ensures
        have_effect(hir, value_tasks::<'t>(lowerer, func, hir, expr), of(0, 1)),
{
    broadcast use group_standings;

    reveal_with_fuel(standing_to, 3);
    match expr.kind {
        ExprKind::Ident(_) => {
            lemma_name_effect(lowerer, hir, expr);
        },
        ExprKind::Binary(lhs, op, rhs) => {
            lemma_binary_effect(hir, expr, *lhs, op, *rhs);
        },
        ExprKind::Unary(op, operand) => {
            lemma_unary_effect(hir, expr, op, *operand);
        },
        ExprKind::Member(base, member) => {
            lemma_member_effect(lowerer, func, hir, expr, *base, member@);
        },
        ExprKind::Assign(lhs, op, rhs) => {
            lemma_assignment_effect(lowerer, hir, expr, *lhs, op, *rhs);
        },
        ExprKind::Array(elements) => {
            lemma_array_effect(hir, elements@, elements@.len());
        },
        _ => {},
    }
}

/// The plan that stores to a state variable uses the top value up.
proof fn lemma_store_state_effect<'t>(hir: Hir, ty: Ty, location: StorageLocation)
    ensures
        have_effect(hir, store_state_tasks::<'t>(ty, location), of(1, 0)),
{
    broadcast use group_standings;

    reveal_with_fuel(standing_to, 3);
}

/// The plan that assigns to a variable uses the top value up.
proof fn lemma_assign_variable_effect<'t>(lowerer: Lowerer, hir: Hir, id: VariableId)
    ensures
        have_effect(hir, assign_variable_tasks::<'t>(lowerer, hir, id), of(1, 0)),
{
    broadcast use group_standings;

    reveal_with_fuel(standing_to, 3);
    lemma_store_state_effect(
        hir,
        hir.variables@[id.0 as int].ty,
        lowerer.storage_locations@[id.0],
    );
}

/// The plan that assigns to a component in inline assembly uses the top value
/// up.
proof fn lemma_assign_component_effect<'t>(lowerer: Lowerer, hir: Hir, base: Expr, member: Ident)
    ensures
        have_effect(hir, assign_component_tasks::<'t>(lowerer, hir, base, member), of(1, 0)),
{
    broadcast use group_standings;

    reveal_with_fuel(standing_to, 3);
}

/// The plan that assigns to a member uses the top value up.
proof fn lemma_assign_member_effect<'t>(
    lowerer: Lowerer,
    hir: Hir,
    lhs: Expr,
    base: Expr,
    member: Seq<char>,
)
    ensures
        have_effect(hir, assign_member_tasks::<'t>(lowerer, hir, lhs, base, member), of(1, 0)),
{
    broadcast use group_standings;

    reveal_with_fuel(standing_to, 3);
}

/// The plan of an assignment of the top value takes that value and leaves
/// nothing, and no task of it runs short.
pub proof fn law_assign_plans_use_the_value<'t>(lowerer: Lowerer, hir: Hir, lhs: Expr)
    ensures
        have_effect(hir, assign_tasks::<'t>(lowerer, hir, lhs), of(1, 0)),
{
    broadcast use group_standings;

    reveal_with_fuel(standing_to, 4);
    match lhs.kind {
        ExprKind::Ident(_) => {
            if let Some(id) = lhs.facts.variable {
                lemma_assign_variable_effect(lowerer, hir, id);
            }
        },
        ExprKind::Member(base, member) => {
            lemma_assign_member_effect(lowerer, hir, lhs, *base, member@);
        },
        ExprKind::YulMember(base, member) => {
            lemma_assign_component_effect(lowerer, hir, *base, member);
        },
        _ => {},
    }
}

/// Whether a slot can be computed from a root.
pub open spec fn grounded<'t>(lowerer: Lowerer, root: SlotRoot<'t>) -> bool {
    match root {
        SlotRoot::Reference(id) => reference_known(lowerer, id),
        SlotRoot::Pushed(expr) => pushed_to(*expr) matches Some(base) && dynamic_array_in_storage(
            base,
        ) is Some,
        _ => true,
    }
}

/// Every slot is computed from something.
proof fn lemma_slot_grounded<'t>(lowerer: Lowerer, hir: Hir, expr: Expr)
    ensures
        slot_of::<'t>(lowerer, hir, expr) matches Some((root, _)) ==> grounded(lowerer, root),
    decreases expr,
{
    match expr.kind {
        ExprKind::Member(base, member) => {
            lemma_slot_grounded(lowerer, hir, *base);
        },
        ExprKind::Tuple(elements) => {
            if elements@.len() == 1 {
                if let Some(inner) = elements@[0] {
                    lemma_slot_grounded(lowerer, hir, inner);
                }
            }
        },
        _ => {},
    }
}

/// The slot of a struct member is computed from something.
proof fn lemma_member_slot_grounded<'t>(lowerer: Lowerer, hir: Hir, expr: Expr)
    ensures
        member_slot::<'t>(lowerer, hir, expr) matches Some((root, _)) ==> grounded(lowerer, root),
{
    if let ExprKind::Member(base, member) = expr.kind {
        lemma_slot_grounded(lowerer, hir, *base);
    }
}

/// The plan that appends an empty element takes the slot of the array and leaves
/// that of the element.
pub proof fn law_push_slot_plans_leave_the_slot<'t>(hir: Hir, element: Ty, slots: u64)
    ensures
        have_effect(hir, push_slot_tasks::<'t>(element, slots), of(1, 1)),
{
    broadcast use group_standings;

    reveal_with_fuel(standing_to, 6);
}

/// Offsets are added to the top value.
proof fn lemma_offset_effect<'t>(hir: Hir, offsets: Seq<u64>, count: nat)
    ensures
        have_effect(hir, offset_tasks::<'t>(offsets, count), of(1, 1)),
    decreases count,
{
    broadcast use group_standings;

    reveal_with_fuel(standing_to, 3);
    if count > 0 {
        lemma_offset_effect(hir, offsets, (count - 1) as nat);
    }
}

/// The plan of a slot that is computed from something leaves one value more.
proof fn lemma_planned_effect<'t>(
    lowerer: Lowerer,
    hir: Hir,
    plan: Option<(SlotRoot<'t>, Seq<u64>)>,
    span: Span,
)
    requires
        plan matches Some((root, _)) ==> grounded(lowerer, root),
    ensures
        have_effect(hir, planned_tasks(lowerer, plan, span), of(0, 1)),
{
    broadcast use group_standings;

    reveal_with_fuel(standing_to, 3);
    if let Some((root, offsets)) = plan {
        lemma_offset_effect(hir, offsets, offsets.len());
        assert(have_effect(hir, root_tasks(lowerer, root), of(0, 1))) by {
            if let SlotRoot::Pushed(expr) = root {
                let (element, slots) = dynamic_array_in_storage(pushed_to(*expr)->0)->0;
                law_push_slot_plans_leave_the_slot(hir, element, slots);
            }
        }
    }
}

/// The plan of a storage slot leaves one value more, the slot or the value that
/// stands for a complaint, and no task of it runs short.
pub proof fn law_slot_plans_leave_one_value<'t>(lowerer: Lowerer, hir: Hir, expr: Expr)
    ensures
        have_effect(
            hir,
            planned_tasks(lowerer, slot_of::<'t>(lowerer, hir, expr), expr.span),
            of(0, 1),
        ),
        have_effect(
            hir,
            planned_tasks(lowerer, member_slot::<'t>(lowerer, hir, expr), expr.span),
            of(0, 1),
        ),
{
    lemma_slot_grounded(lowerer, hir, expr);
    lemma_member_slot_grounded(lowerer, hir, expr);
    lemma_planned_effect(lowerer, hir, slot_of::<'t>(lowerer, hir, expr), expr.span);
    lemma_planned_effect(lowerer, hir, member_slot::<'t>(lowerer, hir, expr), expr.span);
}

/// The plan of a member that is a slice of the call data leaves one value more.
pub proof fn law_member_slice_plans_leave_one_value<'t>(lowerer: Lowerer, hir: Hir, expr: Expr)
    requires
        is_slice_member(lowerer, hir, expr),
    ensures
        have_effect(hir, member_slice_tasks::<'t>(lowerer, hir, expr), of(0, 1)),
{
    broadcast use group_standings;

    reveal_with_fuel(standing_to, 6);
}

/// The plan of a length that is not that of a call-data slice leaves one value
/// more.
pub proof fn law_other_length_plans_leave_one_value<'t>(
    lowerer: Lowerer,
    hir: Hir,
    expr: Expr,
    base: Expr,
    member: Seq<char>,
)
    ensures
        have_effect(hir, other_length_tasks::<'t>(lowerer, hir, expr, base, member), of(0, 1)),
{
    lemma_field_effect(lowerer, hir, expr, base, member);
}

} // verus!
