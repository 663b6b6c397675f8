//! Where variables are mentioned and changed, and where the contract is left.

use crate::hir::{Expr, ExprKind, Hir, ItemId, Stmt, SwitchCase, TryClause, TypeKind, VariableId};
use crate::lower::analysis::{
    any_element_leaves, any_element_mentions, any_leaves, any_mentions, assigned_by,
    assigned_by_all, assigned_by_elements, assigned_in, assigned_in_block, assigned_in_cases,
    assigned_in_clauses, element_targets, leaves, mentions, targets,
};
use crate::lower::occurrence_laws::{is_initial, is_inside, is_operand, lemma_occurs_up, occurs};
use vstd::prelude::*;

verus! {

/// Whether an expression is a call of a member of a variable, no struct field,
/// that is declared as a contract.
pub open spec fn calls_contract(hir: Hir, expr: Expr) -> bool {
    match expr.kind {
        ExprKind::Call(callee, _, _) => match callee.kind {
            ExprKind::Member(base, _) => match base.facts.variable {
                Some(id) => {
                    let var = hir.variables@[id.0 as int];
                    !(var.kind is StructField) && match var.declared {
                        TypeKind::Custom(ItemId::Contract(_)) => true,
                        _ => false,
                    }
                },
                None => false,
            },
            _ => false,
        },
        _ => false,
    }
}

/// Whether an expression is a name of a variable.
pub open spec fn is_name_of(expr: Expr, var: VariableId) -> bool {
    expr.kind is Ident && expr.facts.variable == Some(var)
}

/// Whether assigning to an expression changes a variable: one that it names, or
/// that is named, so many levels down, by an element of a tuple or the base of a
/// component.
pub open spec fn is_target(expr: Expr, id: usize, depth: nat) -> bool
    decreases depth,
{
    match expr.kind {
        ExprKind::Tuple(elements) => depth > 0 && exists|i: int|
            0 <= i < elements@.len() && (#[trigger] elements@[i] matches Some(element)
                && is_target(element, id, (depth - 1) as nat)),
        ExprKind::YulMember(base, _) => depth > 0 && is_target(*base, id, (depth - 1) as nat),
        _ => expr.facts.variable == Some(VariableId(id)),
    }
}

/// The targets of a tuple are those of its elements.
proof fn lemma_element_targets(elements: Seq<Option<Expr>>, count: nat, id: usize)
    requires
        count <= elements.len(),
    ensures
        element_targets(elements, count).contains(id) <==> exists|i: int|
            0 <= i < count && (#[trigger] elements[i] matches Some(element) && targets(
                element,
            ).contains(id)),
    decreases count,
{
    if count > 0 {
        lemma_element_targets(elements, (count - 1) as nat, id);
        if element_targets(elements, (count - 1) as nat).contains(id) {
            let i = choose|i: int|
                0 <= i < count - 1 && (#[trigger] elements[i] matches Some(element) && targets(
                    element,
                ).contains(id));
            assert(0 <= i < count && elements[i] is Some);
        }
        let last = elements[count - 1];
        assert(last is Some ==> elements[count - 1] is Some);
    }
}

/// The variables that assigning to an expression changes are found.
pub proof fn law_targets_found(expr: Expr, id: usize, depth: nat)
    requires
        is_target(expr, id, depth),
    ensures
        targets(expr).contains(id),
    decreases depth,
{
    match expr.kind {
        ExprKind::Tuple(elements) => {
            lemma_element_targets(elements@, elements@.len(), id);
            let i = choose|i: int|
                0 <= i < elements@.len() && (#[trigger] elements@[i] matches Some(element)
                    && is_target(element, id, (depth - 1) as nat));
            law_targets_found(elements@[i]->0, id, (depth - 1) as nat);
            assert(elements@[i] is Some);
        },
        ExprKind::YulMember(base, _) => {
            law_targets_found(*base, id, (depth - 1) as nat);
        },
        _ => {},
    }
}

/// Assigning to an expression changes the variables that are found.
pub proof fn law_targets_exist(expr: Expr, id: usize) -> (depth: nat)
    requires
        targets(expr).contains(id),
    ensures
        is_target(expr, id, depth),
    decreases expr,
{
    match expr.kind {
        ExprKind::Tuple(elements) => {
            lemma_element_targets(elements@, elements@.len(), id);
            let i = choose|i: int|
                0 <= i < elements@.len() && (#[trigger] elements@[i] matches Some(element)
                    && targets(element).contains(id));
            let depth = law_targets_exist(elements@[i]->0, id);
            assert(elements@[i] is Some && is_target(elements@[i]->0, id, depth));
            depth + 1
        },
        ExprKind::YulMember(base, _) => law_targets_exist(*base, id) + 1,
        _ => 0,
    }
}

/// Whether an expression itself changes a variable: it assigns to it, steps it or
/// deletes it.
pub open spec fn changes(expr: Expr, id: usize) -> bool {
    match expr.kind {
        ExprKind::Assign(target, _, _) | ExprKind::Delete(target) => changes_target(*target, id),
        ExprKind::Unary(op, target) => (op is PreInc || op is PostInc || op is PreDec || op
            is PostDec) && changes_target(*target, id),
        _ => false,
    }
}

/// Whether assigning to an expression changes a variable.
pub open spec fn changes_target(target: Expr, id: usize) -> bool {
    exists|depth: nat| #[trigger] is_target(target, id, depth)
}

/// The targets are the variables that an assignment changes.
proof fn lemma_changes_target(target: Expr, id: usize)
    ensures
        changes_target(target, id) == targets(target).contains(id),
{
    if changes_target(target, id) {
        law_targets_found(target, id, choose|depth: nat| #[trigger] is_target(target, id, depth));
    }
    if targets(target).contains(id) {
        let depth = law_targets_exist(target, id);
        assert(is_target(target, id, depth));
    }
}

/// What an expression itself changes is found, and nothing else is found in it
/// besides what its operands change.
proof fn lemma_changes(expr: Expr, id: usize)
    ensures
        changes(expr, id) ==> assigned_by(expr).contains(id),
{
    match expr.kind {
        ExprKind::Assign(target, _, _) | ExprKind::Delete(target) => {
            lemma_changes_target(*target, id);
        },
        ExprKind::Unary(op, target) => {
            lemma_changes_target(*target, id);
        },
        _ => {},
    }
}

/// The scan of a list finds what the scan of one of its expressions finds.
proof fn lemma_external_call_all(exprs: Seq<Expr>, count: nat, hir: Hir)
    requires
        count <= exprs.len(),
    ensures
        any_leaves(hir, exprs, count) <==> exists|i: int|
            0 <= i < count && #[trigger] leaves(hir, exprs[i]),
    decreases count,
{
    if count > 0 {
        lemma_external_call_all(exprs, (count - 1) as nat, hir);
        if any_leaves(hir, exprs, (count - 1) as nat) {
            let i = choose|i: int| 0 <= i < count - 1 && #[trigger] leaves(hir, exprs[i]);
            assert(0 <= i < count && leaves(hir, exprs[i]));
        }
        if leaves(hir, exprs[count - 1]) {
            assert(0 <= count - 1 < count);
        }
    }
}

/// The scan of a tuple finds what the scan of one of its elements finds.
proof fn lemma_external_call_elements(elements: Seq<Option<Expr>>, count: nat, hir: Hir)
    requires
        count <= elements.len(),
    ensures
        any_element_leaves(hir, elements, count) <==> exists|i: int|
            0 <= i < count
                && (#[trigger] elements[i] matches Some(element) && leaves(hir, element)),
    decreases count,
{
    if count > 0 {
        lemma_external_call_elements(elements, (count - 1) as nat, hir);
        if any_element_leaves(hir, elements, (count - 1) as nat) {
            let i = choose|i: int|
                0 <= i < count - 1
                    && (#[trigger] elements[i] matches Some(element) && leaves(hir, element));
            assert(0 <= i < count && elements[i] is Some);
        }
        let last = elements[count - 1];
        assert(last is Some ==> elements[count - 1] is Some);
    }
}

/// What is found in an operand is found in the expression.
proof fn lemma_external_call_operand(part: Expr, whole: Expr, hir: Hir)
    requires
        is_operand(part, whole),
        leaves(hir, part),
    ensures
        leaves(hir, whole),
{
    match whole.kind {
        ExprKind::Call(callee, args, options) => {
            lemma_external_call_all(args@, args@.len(), hir);
            lemma_external_call_all(options@, options@.len(), hir);
            if args@.contains(part) {
                let i = choose|i: int| 0 <= i < args@.len() && args@[i] == part;
                assert(leaves(hir, args@[i]));
            }
            if options@.contains(part) {
                let i = choose|i: int| 0 <= i < options@.len() && options@[i] == part;
                assert(leaves(hir, options@[i]));
            }
        },
        ExprKind::Array(elements) => {
            lemma_external_call_all(elements@, elements@.len(), hir);
            let i = choose|i: int| 0 <= i < elements@.len() && elements@[i] == part;
            assert(leaves(hir, elements@[i]));
        },
        ExprKind::Tuple(elements) => {
            lemma_external_call_elements(elements@, elements@.len(), hir);
            let i = choose|i: int| 0 <= i < elements@.len() && elements@[i] == Some(part);
            assert(elements@[i] is Some);
        },
        _ => {},
    }
}

/// A call of a contract, at any depth, is found.
pub proof fn law_external_call_found(part: Expr, whole: Expr, depth: nat, hir: Hir)
    requires
        occurs(part, whole, depth),
        calls_contract(hir, part),
    ensures
        leaves(hir, whole),
    decreases depth,
{
    if depth > 0 {
        let mid = choose|mid: Expr| #[trigger]
            is_operand(mid, whole) && occurs(part, mid, (depth - 1) as nat);
        law_external_call_found(part, mid, (depth - 1) as nat, hir);
        lemma_external_call_operand(mid, whole, hir);
    }
}

/// A call of a contract that is found stands at some depth.
pub proof fn law_external_call_exists(whole: Expr, hir: Hir) -> (r: (Expr, nat))
    requires
        leaves(hir, whole),
    ensures
        occurs(r.0, whole, r.1),
        calls_contract(hir, r.0),
    decreases whole, 1nat,
{
    if calls_contract(hir, whole) {
        (whole, 0)
    } else {
        let mid = match whole.kind {
            ExprKind::Assign(lhs, _, rhs) | ExprKind::Binary(lhs, _, rhs) => if leaves(hir, *lhs) {
                *lhs
            } else {
                *rhs
            },
            ExprKind::Unary(_, inner) | ExprKind::Payable(inner) | ExprKind::Delete(inner) => {
                *inner
            },
            ExprKind::Ternary(cond, then_val, else_val) => if leaves(hir, *cond) {
                *cond
            } else if leaves(hir, *then_val) {
                *then_val
            } else {
                *else_val
            },
            ExprKind::Call(callee, args, options) => {
                lemma_external_call_all(args@, args@.len(), hir);
                lemma_external_call_all(options@, options@.len(), hir);
                if leaves(hir, *callee) {
                    *callee
                } else if any_leaves(hir, args@, args@.len()) {
                    args@[choose|i: int| 0 <= i < args@.len() && #[trigger] leaves(hir, args@[i])]
                } else {
                    options@[choose|i: int|
                        0 <= i < options@.len() && #[trigger] leaves(hir, options@[i])]
                }
            },
            ExprKind::Index(base, index) => if leaves(hir, *base) {
                *base
            } else {
                *(index->0)
            },
            ExprKind::Slice(base, start, end) => if leaves(hir, *base) {
                *base
            } else if start is Some && leaves(hir, *(start->0)) {
                *(start->0)
            } else {
                *(end->0)
            },
            ExprKind::Member(base, _) | ExprKind::YulMember(base, _) => *base,
            ExprKind::Array(elements) => {
                lemma_external_call_all(elements@, elements@.len(), hir);
                elements@[choose|i: int|
                    0 <= i < elements@.len() && #[trigger] leaves(hir, elements@[i])]
            },
            ExprKind::Tuple(elements) => {
                lemma_external_call_elements(elements@, elements@.len(), hir);
                elements@[choose|i: int|
                    0 <= i < elements@.len() && (#[trigger] elements@[i] matches Some(element)
                        && leaves(hir, element))]->0
            },
            _ => whole,
        };
        assert(is_operand(mid, whole) && leaves(hir, mid));
        let (part, depth) = law_external_call_exists(mid, hir);
        lemma_occurs_up(part, mid, whole, depth);
        (part, depth + 1)
    }
}

/// The scan of a list finds what the scan of one of its expressions finds.
proof fn lemma_mention_all(exprs: Seq<Expr>, count: nat, var: VariableId)
    requires
        count <= exprs.len(),
    ensures
        any_mentions(exprs, count, var) <==> exists|i: int|
            0 <= i < count && #[trigger] mentions(exprs[i], var),
    decreases count,
{
    if count > 0 {
        lemma_mention_all(exprs, (count - 1) as nat, var);
        if any_mentions(exprs, (count - 1) as nat, var) {
            let i = choose|i: int| 0 <= i < count - 1 && #[trigger] mentions(exprs[i], var);
            assert(0 <= i < count && mentions(exprs[i], var));
        }
        if mentions(exprs[count - 1], var) {
            assert(0 <= count - 1 < count);
        }
    }
}

/// The scan of a tuple finds what the scan of one of its elements finds.
proof fn lemma_mention_elements(elements: Seq<Option<Expr>>, count: nat, var: VariableId)
    requires
        count <= elements.len(),
    ensures
        any_element_mentions(elements, count, var) <==> exists|i: int|
            0 <= i < count
                && (#[trigger] elements[i] matches Some(element) && mentions(element, var)),
    decreases count,
{
    if count > 0 {
        lemma_mention_elements(elements, (count - 1) as nat, var);
        if any_element_mentions(elements, (count - 1) as nat, var) {
            let i = choose|i: int|
                0 <= i < count - 1
                    && (#[trigger] elements[i] matches Some(element) && mentions(element, var));
            assert(0 <= i < count && elements[i] is Some);
        }
        let last = elements[count - 1];
        assert(last is Some ==> elements[count - 1] is Some);
    }
}

/// What is found in an operand is found in the expression.
proof fn lemma_mention_operand(part: Expr, whole: Expr, var: VariableId)
    requires
        is_operand(part, whole),
        mentions(part, var),
    ensures
        mentions(whole, var),
{
    match whole.kind {
        ExprKind::Call(callee, args, options) => {
            lemma_mention_all(args@, args@.len(), var);
            lemma_mention_all(options@, options@.len(), var);
            if args@.contains(part) {
                let i = choose|i: int| 0 <= i < args@.len() && args@[i] == part;
                assert(mentions(args@[i], var));
            }
            if options@.contains(part) {
                let i = choose|i: int| 0 <= i < options@.len() && options@[i] == part;
                assert(mentions(options@[i], var));
            }
        },
        ExprKind::Array(elements) => {
            lemma_mention_all(elements@, elements@.len(), var);
            let i = choose|i: int| 0 <= i < elements@.len() && elements@[i] == part;
            assert(mentions(elements@[i], var));
        },
        ExprKind::Tuple(elements) => {
            lemma_mention_elements(elements@, elements@.len(), var);
            let i = choose|i: int| 0 <= i < elements@.len() && elements@[i] == Some(part);
            assert(elements@[i] is Some);
        },
        _ => {},
    }
}

/// A name of a variable, at any depth, is found.
pub proof fn law_mention_found(part: Expr, whole: Expr, depth: nat, var: VariableId)
    requires
        occurs(part, whole, depth),
        is_name_of(part, var),
    ensures
        mentions(whole, var),
    decreases depth,
{
    if depth > 0 {
        let mid = choose|mid: Expr| #[trigger]
            is_operand(mid, whole) && occurs(part, mid, (depth - 1) as nat);
        law_mention_found(part, mid, (depth - 1) as nat, var);
        lemma_mention_operand(mid, whole, var);
    }
}

/// A name of a variable that is found stands at some depth.
pub proof fn law_mention_exists(whole: Expr, var: VariableId) -> (r: (Expr, nat))
    requires
        mentions(whole, var),
    ensures
        occurs(r.0, whole, r.1),
        is_name_of(r.0, var),
    decreases whole, 1nat,
{
    if is_name_of(whole, var) {
        (whole, 0)
    } else {
        let mid = match whole.kind {
            ExprKind::Assign(lhs, _, rhs)
            | ExprKind::Binary(lhs, _, rhs) => if mentions(*lhs, var) {
                *lhs
            } else {
                *rhs
            },
            ExprKind::Unary(_, inner) | ExprKind::Payable(inner) | ExprKind::Delete(inner) => {
                *inner
            },
            ExprKind::Ternary(cond, then_val, else_val) => if mentions(*cond, var) {
                *cond
            } else if mentions(*then_val, var) {
                *then_val
            } else {
                *else_val
            },
            ExprKind::Call(callee, args, options) => {
                lemma_mention_all(args@, args@.len(), var);
                lemma_mention_all(options@, options@.len(), var);
                if mentions(*callee, var) {
                    *callee
                } else if any_mentions(args@, args@.len(), var) {
                    args@[choose|i: int| 0 <= i < args@.len() && #[trigger] mentions(args@[i], var)]
                } else {
                    options@[choose|i: int|
                        0 <= i < options@.len() && #[trigger] mentions(options@[i], var)]
                }
            },
            ExprKind::Index(base, index) => if mentions(*base, var) {
                *base
            } else {
                *(index->0)
            },
            ExprKind::Slice(base, start, end) => if mentions(*base, var) {
                *base
            } else if start is Some && mentions(*(start->0), var) {
                *(start->0)
            } else {
                *(end->0)
            },
            ExprKind::Member(base, _) | ExprKind::YulMember(base, _) => *base,
            ExprKind::Array(elements) => {
                lemma_mention_all(elements@, elements@.len(), var);
                elements@[choose|i: int|
                    0 <= i < elements@.len() && #[trigger] mentions(elements@[i], var)]
            },
            ExprKind::Tuple(elements) => {
                lemma_mention_elements(elements@, elements@.len(), var);
                elements@[choose|i: int|
                    0 <= i < elements@.len() && (#[trigger] elements@[i] matches Some(element)
                        && mentions(element, var))]->0
            },
            _ => whole,
        };
        assert(is_operand(mid, whole) && mentions(mid, var));
        let (part, depth) = law_mention_exists(mid, var);
        lemma_occurs_up(part, mid, whole, depth);
        (part, depth + 1)
    }
}

/// The scan of a list finds what the scan of one of its expressions finds.
proof fn lemma_change_all(exprs: Seq<Expr>, count: nat, id: usize)
    requires
        count <= exprs.len(),
    ensures
        assigned_by_all(exprs, count).contains(id) <==> exists|i: int|
            0 <= i < count && #[trigger] assigned_by(exprs[i]).contains(id),
    decreases count,
{
    if count > 0 {
        lemma_change_all(exprs, (count - 1) as nat, id);
        if assigned_by_all(exprs, (count - 1) as nat).contains(id) {
            let i = choose|i: int|
                0 <= i < count - 1 && #[trigger] assigned_by(exprs[i]).contains(id);
            assert(0 <= i < count && assigned_by(exprs[i]).contains(id));
        }
        if assigned_by(exprs[count - 1]).contains(id) {
            assert(0 <= count - 1 < count);
        }
    }
}

/// The scan of a tuple finds what the scan of one of its elements finds.
proof fn lemma_change_elements(elements: Seq<Option<Expr>>, count: nat, id: usize)
    requires
        count <= elements.len(),
    ensures
        assigned_by_elements(elements, count).contains(id) <==> exists|i: int|
            0 <= i < count
                && (#[trigger] elements[i] matches Some(element) && assigned_by(
                element,
            ).contains(id)),
    decreases count,
{
    if count > 0 {
        lemma_change_elements(elements, (count - 1) as nat, id);
        if assigned_by_elements(elements, (count - 1) as nat).contains(id) {
            let i = choose|i: int|
                0 <= i < count - 1
                    && (#[trigger] elements[i] matches Some(element) && assigned_by(
                    element,
                ).contains(id));
            assert(0 <= i < count && elements[i] is Some);
        }
        let last = elements[count - 1];
        assert(last is Some ==> elements[count - 1] is Some);
    }
}

/// What is found in an operand is found in the expression.
proof fn lemma_change_operand(part: Expr, whole: Expr, id: usize)
    requires
        is_operand(part, whole),
        assigned_by(part).contains(id),
    ensures
        assigned_by(whole).contains(id),
{
    match whole.kind {
        ExprKind::Call(callee, args, options) => {
            lemma_change_all(args@, args@.len(), id);
            lemma_change_all(options@, options@.len(), id);
            if args@.contains(part) {
                let i = choose|i: int| 0 <= i < args@.len() && args@[i] == part;
                assert(assigned_by(args@[i]).contains(id));
            }
            if options@.contains(part) {
                let i = choose|i: int| 0 <= i < options@.len() && options@[i] == part;
                assert(assigned_by(options@[i]).contains(id));
            }
        },
        ExprKind::Array(elements) => {
            lemma_change_all(elements@, elements@.len(), id);
            let i = choose|i: int| 0 <= i < elements@.len() && elements@[i] == part;
            assert(assigned_by(elements@[i]).contains(id));
        },
        ExprKind::Tuple(elements) => {
            lemma_change_elements(elements@, elements@.len(), id);
            let i = choose|i: int| 0 <= i < elements@.len() && elements@[i] == Some(part);
            assert(elements@[i] is Some);
        },
        _ => {},
    }
}

/// A change of a variable, at any depth, is found.
pub proof fn law_change_found(part: Expr, whole: Expr, depth: nat, id: usize)
    requires
        occurs(part, whole, depth),
        changes(part, id),
    ensures
        assigned_by(whole).contains(id),
    decreases depth,
{
    lemma_changes(part, id);
    if depth > 0 {
        let mid = choose|mid: Expr| #[trigger]
            is_operand(mid, whole) && occurs(part, mid, (depth - 1) as nat);
        law_change_found(part, mid, (depth - 1) as nat, id);
        lemma_change_operand(mid, whole, id);
    }
}

/// A change of a variable that is found stands at some depth.
pub proof fn law_change_exists(whole: Expr, id: usize) -> (r: (Expr, nat))
    requires
        assigned_by(whole).contains(id),
    ensures
        occurs(r.0, whole, r.1),
        changes(r.0, id),
    decreases whole, 1nat,
{
    match whole.kind {
        ExprKind::Assign(target, _, _) | ExprKind::Delete(target) | ExprKind::Unary(_, target) => {
            lemma_changes_target(*target, id);
        },
        _ => {},
    }
    if changes(whole, id) {
        (whole, 0)
    } else {
        let mid = match whole.kind {
            ExprKind::Assign(lhs, _, rhs)
            | ExprKind::Binary(lhs, _, rhs) => if assigned_by(*lhs).contains(id) {
                *lhs
            } else {
                *rhs
            },
            ExprKind::Unary(_, inner) | ExprKind::Payable(inner) | ExprKind::Delete(inner) => {
                *inner
            },
            ExprKind::Ternary(cond, then_val, else_val) => if assigned_by(*cond).contains(id) {
                *cond
            } else if assigned_by(*then_val).contains(id) {
                *then_val
            } else {
                *else_val
            },
            ExprKind::Call(callee, args, options) => {
                lemma_change_all(args@, args@.len(), id);
                lemma_change_all(options@, options@.len(), id);
                if assigned_by(*callee).contains(id) {
                    *callee
                } else if assigned_by_all(args@, args@.len()).contains(id) {
                    args@[choose|i: int| 0 <= i < args@.len()
                        && #[trigger] assigned_by(args@[i]).contains(id)]
                } else {
                    options@[choose|i: int|
                        0 <= i < options@.len() && #[trigger] assigned_by(options@[i]).contains(id)]
                }
            },
            ExprKind::Index(base, index) => if assigned_by(*base).contains(id) {
                *base
            } else {
                *(index->0)
            },
            ExprKind::Slice(base, start, end) => if assigned_by(*base).contains(id) {
                *base
            } else if start is Some && assigned_by(*(start->0)).contains(id) {
                *(start->0)
            } else {
                *(end->0)
            },
            ExprKind::Member(base, _) | ExprKind::YulMember(base, _) => *base,
            ExprKind::Array(elements) => {
                lemma_change_all(elements@, elements@.len(), id);
                elements@[choose|i: int|
                    0 <= i < elements@.len() && #[trigger] assigned_by(elements@[i]).contains(id)]
            },
            ExprKind::Tuple(elements) => {
                lemma_change_elements(elements@, elements@.len(), id);
                elements@[choose|i: int|
                    0 <= i < elements@.len() && (#[trigger] elements@[i] matches Some(element)
                        && assigned_by(element).contains(id))]->0
            },
            _ => whole,
        };
        assert(is_operand(mid, whole) && assigned_by(mid).contains(id));
        let (part, depth) = law_change_exists(mid, id);
        lemma_occurs_up(part, mid, whole, depth);
        (part, depth + 1)
    }
}

/// What statements change, one of them changes.
proof fn lemma_block_changes(hir: Hir, body: Seq<Stmt>, count: nat, id: usize)
    requires
        count <= body.len(),
    ensures
        assigned_in_block(hir, body, count).contains(id) <==> exists|i: int|
            0 <= i < count && #[trigger] assigned_in(hir, body[i]).contains(id),
    decreases count,
{
    if count > 0 {
        lemma_block_changes(hir, body, (count - 1) as nat, id);
        if assigned_in_block(hir, body, (count - 1) as nat).contains(id) {
            let i = choose|i: int|
                0 <= i < count - 1 && #[trigger] assigned_in(hir, body[i]).contains(id);
            assert(0 <= i < count && assigned_in(hir, body[i]).contains(id));
        }
        if assigned_in(hir, body[count - 1]).contains(id) {
            assert(0 <= count - 1 < count);
        }
    }
}

/// What cases change, one of them changes.
proof fn lemma_cases_change(hir: Hir, cases: Seq<SwitchCase>, count: nat, id: usize)
    requires
        count <= cases.len(),
    ensures
        assigned_in_cases(hir, cases, count).contains(id) <==> exists|i: int|
            0 <= i < count && #[trigger] body_changes(hir, cases[i].body@, id),
    decreases count,
{
    if count > 0 {
        lemma_cases_change(hir, cases, (count - 1) as nat, id);
        if assigned_in_cases(hir, cases, (count - 1) as nat).contains(id) {
            let i = choose|i: int|
                0 <= i < count - 1 && #[trigger] body_changes(hir, cases[i].body@, id);
            assert(0 <= i < count && body_changes(hir, cases[i].body@, id));
        }
        if body_changes(hir, cases[count - 1].body@, id) {
            assert(0 <= count - 1 < count);
        }
    }
}

/// What clauses change, one of them changes.
proof fn lemma_clauses_change(hir: Hir, clauses: Seq<TryClause>, count: nat, id: usize)
    requires
        count <= clauses.len(),
    ensures
        assigned_in_clauses(hir, clauses, count).contains(id) <==> exists|i: int|
            0 <= i < count && #[trigger] body_changes(hir, clauses[i].body@, id),
    decreases count,
{
    if count > 0 {
        lemma_clauses_change(hir, clauses, (count - 1) as nat, id);
        if assigned_in_clauses(hir, clauses, (count - 1) as nat).contains(id) {
            let i = choose|i: int|
                0 <= i < count - 1 && #[trigger] body_changes(hir, clauses[i].body@, id);
            assert(0 <= i < count && body_changes(hir, clauses[i].body@, id));
        }
        if body_changes(hir, clauses[count - 1].body@, id) {
            assert(0 <= count - 1 < count);
        }
    }
}

/// Whether a body changes a variable.
spec fn body_changes(hir: Hir, body: Seq<Stmt>, id: usize) -> bool {
    assigned_in_block(hir, body, body.len()).contains(id)
}

/// Whether a statement evaluates an expression and no statement inside it does.
pub open spec fn evaluates(hir: Hir, expr: Expr, stmt: Stmt) -> bool {
    match stmt {
        Stmt::DeclSingle(id) => is_initial(hir, id, expr),
        Stmt::DeclMulti(_, init) => expr == init,
        Stmt::Expr(own) | Stmt::Revert(own) | Stmt::Emit(own) | Stmt::Try(own, _) => expr == own,
        Stmt::Return(own) => own == Some(expr),
        Stmt::If(cond, _, _) => expr == cond,
        Stmt::Switch(selector, _) => expr == selector,
        _ => false,
    }
}

/// Whether a statement evaluates an expression, so many levels down.
pub open spec fn evaluates_below(hir: Hir, expr: Expr, stmt: Stmt, depth: nat) -> bool
    decreases depth,
{
    if depth == 0 {
        evaluates(hir, expr, stmt)
    } else {
        exists|mid: Stmt| #[trigger]
            is_inside(mid, stmt) && evaluates_below(hir, expr, mid, (depth - 1) as nat)
    }
}

/// What a statement inside another changes, the other changes.
proof fn lemma_inside_changes(hir: Hir, part: Stmt, whole: Stmt, id: usize)
    requires
        is_inside(part, whole),
        assigned_in(hir, part).contains(id),
    ensures
        assigned_in(hir, whole).contains(id),
{
    match whole {
        Stmt::Block(body) | Stmt::UncheckedBlock(body) | Stmt::AssemblyBlock(body) | Stmt::Loop(
            body,
            _,
        ) => {
            lemma_block_changes(hir, body@, body@.len(), id);
            let i = choose|i: int| 0 <= i < body@.len() && body@[i] == part;
            assert(assigned_in(hir, body@[i]).contains(id));
        },
        Stmt::Switch(_, cases) => {
            lemma_cases_change(hir, cases@, cases@.len(), id);
            let k = choose|k: int|
                0 <= k < cases@.len() && #[trigger] cases@[k].body@.contains(part);
            let body = cases@[k].body@;
            lemma_block_changes(hir, body, body.len(), id);
            let i = choose|i: int| 0 <= i < body.len() && body[i] == part;
            assert(assigned_in(hir, body[i]).contains(id));
            assert(body_changes(hir, cases@[k].body@, id));
        },
        Stmt::Try(_, clauses) => {
            lemma_clauses_change(hir, clauses@, clauses@.len(), id);
            let k = choose|k: int|
                0 <= k < clauses@.len() && #[trigger] clauses@[k].body@.contains(part);
            let body = clauses@[k].body@;
            lemma_block_changes(hir, body, body.len(), id);
            let i = choose|i: int| 0 <= i < body.len() && body[i] == part;
            assert(assigned_in(hir, body[i]).contains(id));
            assert(body_changes(hir, clauses@[k].body@, id));
        },
        _ => {},
    }
}

/// A change of a variable by any expression below a statement is found.
pub proof fn law_change_below_found(
    hir: Hir,
    part: Expr,
    expr: Expr,
    stmt: Stmt,
    level: nat,
    depth: nat,
    id: usize,
)
    requires
        evaluates_below(hir, expr, stmt, level),
        occurs(part, expr, depth),
        changes(part, id),
    ensures
        assigned_in(hir, stmt).contains(id),
    decreases level,
{
    if level == 0 {
        law_change_found(part, expr, depth, id);
    } else {
        let mid = choose|mid: Stmt| #[trigger]
            is_inside(mid, stmt) && evaluates_below(hir, expr, mid, (level - 1) as nat);
        law_change_below_found(hir, part, expr, mid, (level - 1) as nat, depth, id);
        lemma_inside_changes(hir, mid, stmt, id);
    }
}

/// A change that is found below a statement is made by an expression there.
pub proof fn law_change_below_exists(hir: Hir, stmt: Stmt, id: usize) -> (r: (
    Expr,
    nat,
    Expr,
    nat,
))
    requires
        assigned_in(hir, stmt).contains(id),
    ensures
        evaluates_below(hir, r.0, stmt, r.1),
        occurs(r.2, r.0, r.3),
        changes(r.2, id),
    decreases stmt, 1nat,
{
    // Either a statement inside it, or an expression that it evaluates.
    let (mid, own_expr): (Option<Stmt>, Option<Expr>) = match stmt {
        Stmt::DeclSingle(var) => (None, Some(hir.variables@[var.0 as int].initializer->0)),
        Stmt::DeclMulti(_, init) => (None, Some(init)),
        Stmt::Expr(own) | Stmt::Revert(own) | Stmt::Emit(own) => (None, Some(own)),
        Stmt::Return(own) => (None, Some(own->0)),
        Stmt::Block(body) | Stmt::UncheckedBlock(body) | Stmt::AssemblyBlock(body) | Stmt::Loop(
            body,
            _,
        ) => {
            lemma_block_changes(hir, body@, body@.len(), id);
            let i = choose|i: int|
                0 <= i < body@.len() && #[trigger] assigned_in(hir, body@[i]).contains(id);
            (Some(body@[i]), None)
        },
        Stmt::If(cond, then_stmt, else_stmt) => if assigned_by(cond).contains(id) {
            (None, Some(cond))
        } else if assigned_in(hir, *then_stmt).contains(id) {
            (Some(*then_stmt), None)
        } else {
            (Some(*(else_stmt->0)), None)
        },
        Stmt::Switch(selector, cases) => {
            lemma_cases_change(hir, cases@, cases@.len(), id);
            if assigned_by(selector).contains(id) {
                (None, Some(selector))
            } else {
                let k = choose|k: int|
                    0 <= k < cases@.len() && #[trigger] body_changes(hir, cases@[k].body@, id);
                let body = cases@[k].body@;
                lemma_block_changes(hir, body, body.len(), id);
                let i = choose|i: int|
                    0 <= i < body.len() && #[trigger] assigned_in(hir, body[i]).contains(id);
                assert(cases@[k].body@.contains(body[i]));
                (Some(body[i]), None)
            }
        },
        Stmt::Try(own, clauses) => {
            lemma_clauses_change(hir, clauses@, clauses@.len(), id);
            if assigned_by(own).contains(id) {
                (None, Some(own))
            } else {
                let k = choose|k: int|
                    0 <= k < clauses@.len() && #[trigger] body_changes(hir, clauses@[k].body@, id);
                let body = clauses@[k].body@;
                lemma_block_changes(hir, body, body.len(), id);
                let i = choose|i: int|
                    0 <= i < body.len() && #[trigger] assigned_in(hir, body[i]).contains(id);
                assert(clauses@[k].body@.contains(body[i]));
                (Some(body[i]), None)
            }
        },
        _ => (None, None),
    };
    match mid {
        Some(inner) => {
            assert(is_inside(inner, stmt) && assigned_in(hir, inner).contains(id));
            assert(decreases_to!(stmt => inner));
            let (found, level, part, depth) = law_change_below_exists(hir, inner, id);
            assert(evaluates_below(hir, found, stmt, level + 1));
            (found, level + 1, part, depth)
        },
        None => {
            let expr = own_expr->0;
            assert(evaluates(hir, expr, stmt) && assigned_by(expr).contains(id));
            let (part, depth) = law_change_exists(expr, id);
            (expr, 0, part, depth)
        },
    }
}

} // verus!
