//! What a body does to its variables, and which calls it makes.

use crate::hir::{
    peeled, Builtin, DataLocation, Expr, ExprKind, Hir, ItemId, Lit, Res, Stmt, StructId,
    SwitchCase, TryClause, Ty, TypeKind, UnOp, VariableId,
};
use crate::text::text_is;
use std::collections::HashSet;
use vstd::prelude::*;

verus! {

/// Whether a unary operator changes its operand.
pub open spec fn mutates(op: UnOp) -> bool {
    op is PreInc || op is PostInc || op is PreDec || op is PostDec
}

/// The variables that assigning to an expression changes: those of every
/// element of a tuple, the base of an assembly component, or the variable the
/// expression names.
pub open spec fn targets(expr: Expr) -> Set<usize>
    decreases expr, 0nat,
{
    match expr.kind {
        ExprKind::Tuple(elements) => element_targets(elements@, elements@.len()),
        ExprKind::YulMember(base, _) => targets(*base),
        _ => match expr.facts.variable {
            Some(id) => Set::empty().insert(id.0),
            None => Set::empty(),
        },
    }
}

/// The variables that assigning to the first `count` elements changes.
pub open spec fn element_targets(elements: Seq<Option<Expr>>, count: nat) -> Set<usize>
    decreases elements, count,
{
    if count == 0 || count > elements.len() {
        Set::empty()
    } else {
        let front = element_targets(elements, (count - 1) as nat);
        match elements[count - 1] {
            Some(element) => front.union(targets(element)),
            None => front,
        }
    }
}

/// The variables that an expression assigns.
pub open spec fn assigned_by(expr: Expr) -> Set<usize>
    decreases expr, 0nat,
{
    match expr.kind {
        ExprKind::Assign(lhs, _, rhs) => targets(*lhs).union(assigned_by(*lhs)).union(
            assigned_by(*rhs),
        ),
        ExprKind::Binary(lhs, _, rhs) => assigned_by(*lhs).union(assigned_by(*rhs)),
        ExprKind::Unary(op, operand) => if mutates(op) {
            targets(*operand).union(assigned_by(*operand))
        } else {
            assigned_by(*operand)
        },
        ExprKind::Ternary(cond, then_val, else_val) => assigned_by(*cond).union(
            assigned_by(*then_val),
        ).union(assigned_by(*else_val)),
        ExprKind::Call(callee, args, options) => assigned_by(*callee).union(
            assigned_by_all(args@, args@.len()),
        ).union(assigned_by_all(options@, options@.len())),
        ExprKind::Index(base, index) => assigned_by(*base).union((match index {
            Some(index) => assigned_by(*index),
            None => Set::empty(),
        })),
        ExprKind::Slice(base, start, end) => assigned_by(*base).union(
            (match start {
            Some(start) => assigned_by(*start),
            None => Set::empty(),
        }),
        ).union((match end {
            Some(end) => assigned_by(*end),
            None => Set::empty(),
        })),
        ExprKind::Member(base, _) | ExprKind::YulMember(base, _) => assigned_by(*base),
        ExprKind::Array(elements) => assigned_by_all(elements@, elements@.len()),
        ExprKind::Tuple(elements) => assigned_by_elements(elements@, elements@.len()),
        ExprKind::Delete(inner) => targets(*inner).union(assigned_by(*inner)),
        ExprKind::Payable(inner) => assigned_by(*inner),
        _ => Set::empty(),
    }
}

/// The variables that the first `count` expressions assign.
pub open spec fn assigned_by_all(exprs: Seq<Expr>, count: nat) -> Set<usize>
    decreases exprs, count,
{
    if count == 0 || count > exprs.len() {
        Set::empty()
    } else {
        assigned_by_all(exprs, (count - 1) as nat).union(assigned_by(exprs[count - 1]))
    }
}

/// The variables that the first `count` tuple elements assign.
pub open spec fn assigned_by_elements(elements: Seq<Option<Expr>>, count: nat) -> Set<usize>
    decreases elements, count,
{
    if count == 0 || count > elements.len() {
        Set::empty()
    } else {
        let front = assigned_by_elements(elements, (count - 1) as nat);
        match elements[count - 1] {
            Some(element) => front.union(assigned_by(element)),
            None => front,
        }
    }
}

/// The variables that the initial value of a variable assigns.
pub open spec fn assigned_by_initializer(hir: Hir, id: VariableId) -> Set<usize> {
    if id.0 < hir.variables@.len() {
        match hir.variables@[id.0 as int].initializer {
            Some(init) => assigned_by(init),
            None => Set::empty(),
        }
    } else {
        Set::empty()
    }
}

/// The variables that a statement assigns after their declaration. A declaration
/// does not assign what it declares, but its initial value may assign other
/// variables.
pub open spec fn assigned_in(hir: Hir, stmt: Stmt) -> Set<usize>
    decreases stmt, 0nat,
{
    match stmt {
        Stmt::DeclSingle(id) => assigned_by_initializer(hir, id),
        Stmt::DeclMulti(_, init) => assigned_by(init),
        Stmt::Expr(expr) | Stmt::Revert(expr) | Stmt::Emit(expr) => assigned_by(expr),
        Stmt::Return(Some(expr)) => assigned_by(expr),
        Stmt::Block(body) | Stmt::UncheckedBlock(body) | Stmt::AssemblyBlock(body) => {
            assigned_in_block(hir, body@, body@.len())
        },
        Stmt::Loop(body, _) => assigned_in_block(hir, body@, body@.len()),
        Stmt::If(cond, then_stmt, else_stmt) => {
            let front = assigned_by(cond).union(assigned_in(hir, *then_stmt));
            match else_stmt {
                Some(else_stmt) => front.union(assigned_in(hir, *else_stmt)),
                None => front,
            }
        },
        Stmt::Switch(selector, cases) => assigned_by(selector).union(
            assigned_in_cases(hir, cases@, cases@.len()),
        ),
        Stmt::Try(expr, clauses) => assigned_by(expr).union(
            assigned_in_clauses(hir, clauses@, clauses@.len()),
        ),
        _ => Set::empty(),
    }
}

/// The variables that the first `count` statements assign.
pub open spec fn assigned_in_block(hir: Hir, body: Seq<Stmt>, count: nat) -> Set<usize>
    decreases body, count,
{
    if count == 0 || count > body.len() {
        Set::empty()
    } else {
        assigned_in_block(hir, body, (count - 1) as nat).union(assigned_in(hir, body[count - 1]))
    }
}

/// The variables that the first `count` cases assign.
pub open spec fn assigned_in_cases(hir: Hir, cases: Seq<SwitchCase>, count: nat) -> Set<usize>
    decreases cases, count,
{
    if count == 0 || count > cases.len() {
        Set::empty()
    } else {
        let body = cases[count - 1].body@;
        assigned_in_cases(hir, cases, (count - 1) as nat).union(
            assigned_in_block(hir, body, body.len()),
        )
    }
}

/// The variables that the first `count` clauses assign.
pub open spec fn assigned_in_clauses(hir: Hir, clauses: Seq<TryClause>, count: nat) -> Set<usize>
    decreases clauses, count,
{
    if count == 0 || count > clauses.len() {
        Set::empty()
    } else {
        let body = clauses[count - 1].body@;
        assigned_in_clauses(hir, clauses, (count - 1) as nat).union(
            assigned_in_block(hir, body, body.len()),
        )
    }
}

/// Records the variables that assigning to an expression changes.
pub fn mark_assigned_var(expr: &Expr, found: &mut HashSet<usize>)
    ensures
        final(found)@ == old(found)@.union(targets(*expr)),
    decreases expr, 0nat,
{
    broadcast use vstd::std_specs::hash::group_hash_axioms;

    match &expr.kind {
        ExprKind::Tuple(elements) => mark_elements(elements, found),
        ExprKind::YulMember(base, _) => mark_assigned_var(base, found),
        _ => {
            if let Some(id) = expr.facts.variable {
                found.insert(id.0);
            }
        },
    }
    assert(found@ =~= old(found)@.union(targets(*expr)));
}

/// Records the variables that assigning to every element changes.
fn mark_elements(elements: &Vec<Option<Expr>>, found: &mut HashSet<usize>)
    ensures
        final(found)@ == old(found)@.union(element_targets(elements@, elements@.len())),
    decreases elements,
{
    let ghost before = found@;
    let mut i: usize = 0;
    assert(found@ =~= before.union(element_targets(elements@, 0)));
    while i < elements.len()
        invariant
            i <= elements@.len(),
            found@ == before.union(element_targets(elements@, i as nat)),
        decreases elements@.len() - i,
    {
        if let Some(element) = &elements[i] {
            mark_assigned_var(element, found);
        }
        i = i + 1;
        assert(found@ =~= before.union(element_targets(elements@, i as nat)));
    }
}

/// Records the variables that an expression assigns.
pub fn collect_assigned_vars_expr(expr: &Expr, found: &mut HashSet<usize>)
    ensures
        final(found)@ == old(found)@.union(assigned_by(*expr)),
    decreases expr, 0nat,
{
    match &expr.kind {
        ExprKind::Assign(lhs, _, rhs) => {
            mark_assigned_var(lhs, found);
            collect_assigned_vars_expr(lhs, found);
            collect_assigned_vars_expr(rhs, found);
        },
        ExprKind::Binary(lhs, _, rhs) => {
            collect_assigned_vars_expr(lhs, found);
            collect_assigned_vars_expr(rhs, found);
        },
        ExprKind::Unary(op, operand) => {
            if matches!(op, UnOp::PreInc | UnOp::PostInc | UnOp::PreDec | UnOp::PostDec) {
                mark_assigned_var(operand, found);
            }
            collect_assigned_vars_expr(operand, found);
        },
        ExprKind::Ternary(cond, then_val, else_val) => {
            collect_assigned_vars_expr(cond, found);
            collect_assigned_vars_expr(then_val, found);
            collect_assigned_vars_expr(else_val, found);
        },
        ExprKind::Call(callee, args, options) => {
            collect_assigned_vars_expr(callee, found);
            collect_assigned_vars_exprs(args, found);
            collect_assigned_vars_exprs(options, found);
        },
        ExprKind::Index(base, index) => {
            collect_assigned_vars_expr(base, found);
            if let Some(index) = index {
                collect_assigned_vars_expr(index, found);
            }
        },
        ExprKind::Slice(base, start, end) => {
            collect_assigned_vars_expr(base, found);
            if let Some(start) = start {
                collect_assigned_vars_expr(start, found);
            }
            if let Some(end) = end {
                collect_assigned_vars_expr(end, found);
            }
        },
        ExprKind::Member(base, _) | ExprKind::YulMember(base, _) => {
            collect_assigned_vars_expr(base, found);
        },
        ExprKind::Array(elements) => collect_assigned_vars_exprs(elements, found),
        ExprKind::Tuple(elements) => collect_assigned_vars_elements(elements, found),
        ExprKind::Delete(inner) => {
            mark_assigned_var(inner, found);
            collect_assigned_vars_expr(inner, found);
        },
        ExprKind::Payable(inner) => collect_assigned_vars_expr(inner, found),
        _ => {},
    }
    assert(found@ =~= old(found)@.union(assigned_by(*expr)));
}

/// Records the variables that every expression of a list assigns.
fn collect_assigned_vars_exprs(exprs: &Vec<Expr>, found: &mut HashSet<usize>)
    ensures
        final(found)@ == old(found)@.union(assigned_by_all(exprs@, exprs@.len())),
    decreases exprs,
{
    let ghost before = found@;
    let mut i: usize = 0;
    assert(found@ =~= before.union(assigned_by_all(exprs@, 0)));
    while i < exprs.len()
        invariant
            i <= exprs@.len(),
            found@ == before.union(assigned_by_all(exprs@, i as nat)),
        decreases exprs@.len() - i,
    {
        collect_assigned_vars_expr(&exprs[i], found);
        i = i + 1;
        assert(found@ =~= before.union(assigned_by_all(exprs@, i as nat)));
    }
}

/// Records the variables that every element of a tuple assigns.
fn collect_assigned_vars_elements(elements: &Vec<Option<Expr>>, found: &mut HashSet<usize>)
    ensures
        final(found)@ == old(found)@.union(assigned_by_elements(elements@, elements@.len())),
    decreases elements,
{
    let ghost before = found@;
    let mut i: usize = 0;
    assert(found@ =~= before.union(assigned_by_elements(elements@, 0)));
    while i < elements.len()
        invariant
            i <= elements@.len(),
            found@ == before.union(assigned_by_elements(elements@, i as nat)),
        decreases elements@.len() - i,
    {
        if let Some(element) = &elements[i] {
            collect_assigned_vars_expr(element, found);
        }
        i = i + 1;
        assert(found@ =~= before.union(assigned_by_elements(elements@, i as nat)));
    }
}

/// Records the variables that a block assigns after their declaration.
pub fn collect_assigned_vars_block(hir: &Hir, body: &Vec<Stmt>, found: &mut HashSet<usize>)
    ensures
        final(found)@ == old(found)@.union(assigned_in_block(*hir, body@, body@.len())),
    decreases body,
{
    let ghost before = found@;
    let mut i: usize = 0;
    assert(found@ =~= before.union(assigned_in_block(*hir, body@, 0)));
    while i < body.len()
        invariant
            i <= body@.len(),
            found@ == before.union(assigned_in_block(*hir, body@, i as nat)),
        decreases body@.len() - i,
    {
        collect_assigned_vars_stmt(hir, &body[i], found);
        i = i + 1;
        assert(found@ =~= before.union(assigned_in_block(*hir, body@, i as nat)));
    }
}

/// Records the variables that a statement assigns after their declaration.
pub fn collect_assigned_vars_stmt(hir: &Hir, stmt: &Stmt, found: &mut HashSet<usize>)
    ensures
        final(found)@ == old(found)@.union(assigned_in(*hir, *stmt)),
    decreases stmt, 0nat,
{
    match stmt {
        Stmt::DeclSingle(id) => {
            if id.0 < hir.variables.len() {
                if let Some(init) = &hir.variables[id.0].initializer {
                    collect_assigned_vars_expr(init, found);
                }
            }
        },
        Stmt::DeclMulti(_, init) => collect_assigned_vars_expr(init, found),
        Stmt::Expr(expr) | Stmt::Revert(expr) | Stmt::Emit(expr) => {
            collect_assigned_vars_expr(expr, found);
        },
        Stmt::Return(Some(expr)) => collect_assigned_vars_expr(expr, found),
        Stmt::Block(body) | Stmt::UncheckedBlock(body) | Stmt::AssemblyBlock(body) => {
            collect_assigned_vars_block(hir, body, found);
        },
        Stmt::Loop(body, _) => collect_assigned_vars_block(hir, body, found),
        Stmt::If(cond, then_stmt, else_stmt) => {
            collect_assigned_vars_expr(cond, found);
            collect_assigned_vars_stmt(hir, then_stmt, found);
            if let Some(else_stmt) = else_stmt {
                collect_assigned_vars_stmt(hir, else_stmt, found);
            }
        },
        Stmt::Switch(selector, cases) => {
            collect_assigned_vars_expr(selector, found);
            collect_assigned_vars_cases(hir, cases, found);
        },
        Stmt::Try(expr, clauses) => {
            collect_assigned_vars_expr(expr, found);
            collect_assigned_vars_clauses(hir, clauses, found);
        },
        _ => {},
    }
    assert(found@ =~= old(found)@.union(assigned_in(*hir, *stmt)));
}

/// Records the variables that every case assigns.
fn collect_assigned_vars_cases(hir: &Hir, cases: &Vec<SwitchCase>, found: &mut HashSet<usize>)
    ensures
        final(found)@ == old(found)@.union(assigned_in_cases(*hir, cases@, cases@.len())),
    decreases cases,
{
    let ghost before = found@;
    let mut i: usize = 0;
    assert(found@ =~= before.union(assigned_in_cases(*hir, cases@, 0)));
    while i < cases.len()
        invariant
            i <= cases@.len(),
            found@ == before.union(assigned_in_cases(*hir, cases@, i as nat)),
        decreases cases@.len() - i,
    {
        collect_assigned_vars_block(hir, &cases[i].body, found);
        i = i + 1;
        assert(found@ =~= before.union(assigned_in_cases(*hir, cases@, i as nat)));
    }
}

/// Records the variables that every clause assigns.
fn collect_assigned_vars_clauses(hir: &Hir, clauses: &Vec<TryClause>, found: &mut HashSet<usize>)
    ensures
        final(found)@ == old(found)@.union(assigned_in_clauses(*hir, clauses@, clauses@.len())),
    decreases clauses,
{
    let ghost before = found@;
    let mut i: usize = 0;
    assert(found@ =~= before.union(assigned_in_clauses(*hir, clauses@, 0)));
    while i < clauses.len()
        invariant
            i <= clauses@.len(),
            found@ == before.union(assigned_in_clauses(*hir, clauses@, i as nat)),
        decreases clauses@.len() - i,
    {
        collect_assigned_vars_block(hir, &clauses[i].body, found);
        i = i + 1;
        assert(found@ =~= before.union(assigned_in_clauses(*hir, clauses@, i as nat)));
    }
}

/// Whether a call of `callee` leaves the contract: it is a member of a variable
/// that is declared with a contract type and is no struct field.
pub open spec fn calls_out(hir: Hir, callee: Expr) -> bool {
    callee.kind matches ExprKind::Member(base, _) && base.facts.variable matches Some(id)
        && !(hir.variables@[id.0 as int].kind is StructField)
        && hir.variables@[id.0 as int].declared matches TypeKind::Custom(ItemId::Contract(_))
}

/// Whether the variables that an expression and its operands name are declared.
pub open spec fn expr_fits(hir: Hir, expr: Expr) -> bool
    decreases expr, 0nat,
{
    &&& expr.facts.variable matches Some(id) ==> id.0 < hir.variables@.len()
    &&& match expr.kind {
        ExprKind::Assign(lhs, _, rhs) => expr_fits(hir, *lhs) && expr_fits(hir, *rhs),
        ExprKind::Binary(lhs, _, rhs) => expr_fits(hir, *lhs) && expr_fits(hir, *rhs),
        ExprKind::Unary(_, inner) | ExprKind::Payable(inner) | ExprKind::Delete(inner) => {
            expr_fits(hir, *inner)
        },
        ExprKind::Ternary(cond, then_val, else_val) => expr_fits(hir, *cond) && expr_fits(
            hir,
            *then_val,
        ) && expr_fits(hir, *else_val),
        ExprKind::Call(callee, args, options) => expr_fits(hir, *callee) && exprs_fit(
            hir,
            args@,
            args@.len(),
        ) && exprs_fit(hir, options@, options@.len()),
        ExprKind::Index(base, index) => expr_fits(hir, *base) && (match index {
            Some(index) => expr_fits(hir, *index),
            None => true,
        }),
        ExprKind::Slice(base, start, end) => expr_fits(hir, *base) && (match start {
            Some(start) => expr_fits(hir, *start),
            None => true,
        })
            && (match end {
            Some(end) => expr_fits(hir, *end),
            None => true,
        }),
        ExprKind::Member(base, _) | ExprKind::YulMember(base, _) => expr_fits(hir, *base),
        ExprKind::Array(elements) => exprs_fit(hir, elements@, elements@.len()),
        ExprKind::Tuple(elements) => elements_fit(hir, elements@, elements@.len()),
        _ => true,
    }
}

/// Whether the variables that the first `count` expressions name are declared.
pub open spec fn exprs_fit(hir: Hir, exprs: Seq<Expr>, count: nat) -> bool
    decreases exprs, count,
{
    if count == 0 || count > exprs.len() {
        true
    } else {
        exprs_fit(hir, exprs, (count - 1) as nat) && expr_fits(hir, exprs[count - 1])
    }
}

/// Whether the variables that the first `count` elements name are declared.
pub open spec fn elements_fit(hir: Hir, elements: Seq<Option<Expr>>, count: nat) -> bool
    decreases elements, count,
{
    if count == 0 || count > elements.len() {
        true
    } else {
        elements_fit(hir, elements, (count - 1) as nat) && match elements[count - 1] {
            Some(element) => expr_fits(hir, element),
            None => true,
        }
    }
}

/// A part of a fitting list fits.
proof fn lemma_exprs_fit(hir: Hir, exprs: Seq<Expr>, count: nat, index: int)
    requires
        exprs_fit(hir, exprs, count),
        0 <= index < count <= exprs.len(),
    ensures
        expr_fits(hir, exprs[index]),
    decreases count,
{
    if index < count - 1 {
        lemma_exprs_fit(hir, exprs, (count - 1) as nat, index);
    }
}

/// A part of a fitting tuple fits.
proof fn lemma_elements_fit(hir: Hir, elements: Seq<Option<Expr>>, count: nat, index: int)
    requires
        elements_fit(hir, elements, count),
        0 <= index < count <= elements.len(),
        elements[index] is Some,
    ensures
        expr_fits(hir, elements[index]->0),
    decreases count,
{
    if index < count - 1 {
        lemma_elements_fit(hir, elements, (count - 1) as nat, index);
    }
}

/// Whether evaluating an expression may leave the contract.
pub open spec fn leaves(hir: Hir, expr: Expr) -> bool
    decreases expr, 0nat,
{
    match expr.kind {
        ExprKind::Call(callee, args, options) => calls_out(hir, *callee) || leaves(hir, *callee)
            || any_leaves(hir, args@, args@.len()) || any_leaves(hir, options@, options@.len()),
        ExprKind::Member(base, _) | ExprKind::YulMember(base, _) => leaves(hir, *base),
        ExprKind::Binary(lhs, _, rhs) => leaves(hir, *lhs) || leaves(hir, *rhs),
        ExprKind::Assign(lhs, _, rhs) => leaves(hir, *lhs) || leaves(hir, *rhs),
        ExprKind::Unary(_, inner) | ExprKind::Payable(inner) | ExprKind::Delete(inner) => leaves(
            hir,
            *inner,
        ),
        ExprKind::Ternary(cond, then_val, else_val) => leaves(hir, *cond) || leaves(
            hir,
            *then_val,
        ) || leaves(hir, *else_val),
        ExprKind::Index(base, index) => leaves(hir, *base) || (match index {
            Some(index) => leaves(hir, *index),
            None => false,
        }),
        ExprKind::Slice(base, start, end) => leaves(hir, *base) || (match start {
            Some(start) => leaves(hir, *start),
            None => false,
        })
            || (match end {
            Some(end) => leaves(hir, *end),
            None => false,
        }),
        ExprKind::Array(elements) => any_leaves(hir, elements@, elements@.len()),
        ExprKind::Tuple(elements) => any_element_leaves(hir, elements@, elements@.len()),
        _ => false,
    }
}

/// Whether evaluating one of the first `count` expressions may leave the
/// contract.
pub open spec fn any_leaves(hir: Hir, exprs: Seq<Expr>, count: nat) -> bool
    decreases exprs, count,
{
    if count == 0 || count > exprs.len() {
        false
    } else {
        any_leaves(hir, exprs, (count - 1) as nat) || leaves(hir, exprs[count - 1])
    }
}

/// Whether evaluating one of the first `count` elements may leave the contract.
pub open spec fn any_element_leaves(hir: Hir, elements: Seq<Option<Expr>>, count: nat) -> bool
    decreases elements, count,
{
    if count == 0 || count > elements.len() {
        false
    } else {
        any_element_leaves(hir, elements, (count - 1) as nat) || match elements[count - 1] {
            Some(element) => leaves(hir, element),
            None => false,
        }
    }
}

/// Once one of the expressions may leave the contract, the whole list may.
proof fn lemma_any_leaves(hir: Hir, exprs: Seq<Expr>, few: nat, count: nat)
    requires
        few <= count <= exprs.len(),
        any_leaves(hir, exprs, few),
    ensures
        any_leaves(hir, exprs, count),
    decreases count,
{
    if few < count {
        lemma_any_leaves(hir, exprs, few, (count - 1) as nat);
    }
}

/// Once one of the elements may leave the contract, the whole tuple may.
proof fn lemma_any_element_leaves(hir: Hir, elements: Seq<Option<Expr>>, few: nat, count: nat)
    requires
        few <= count <= elements.len(),
        any_element_leaves(hir, elements, few),
    ensures
        any_element_leaves(hir, elements, count),
    decreases count,
{
    if few < count {
        lemma_any_element_leaves(hir, elements, few, (count - 1) as nat);
    }
}

/// Whether a call of `callee` leaves the contract.
pub fn is_external_call(hir: &Hir, callee: &Expr) -> (r: bool)
    requires
        expr_fits(*hir, *callee),
    ensures
        r == calls_out(*hir, *callee),
{
    reveal_with_fuel(expr_fits, 2);
    match &callee.kind {
        ExprKind::Member(base, _) => match base.facts.variable {
            Some(id) => {
                let var = &hir.variables[id.0];
                !matches!(var.kind, crate::hir::VarKind::StructField) && matches!(
                    var.declared,
                    TypeKind::Custom(ItemId::Contract(_))
                )
            },
            None => false,
        },
        _ => false,
    }
}

/// Whether evaluating an expression may leave the contract.
pub fn has_external_call(hir: &Hir, expr: &Expr) -> (r: bool)
    requires
        expr_fits(*hir, *expr),
    ensures
        r == leaves(*hir, *expr),
    decreases expr, 0nat,
{
    match &expr.kind {
        ExprKind::Call(callee, args, options) => is_external_call(hir, callee)
            || has_external_call(hir, callee) || any_external_call(hir, args)
            || any_external_call(hir, options),
        ExprKind::Member(base, _) | ExprKind::YulMember(base, _) => has_external_call(hir, base),
        ExprKind::Binary(lhs, _, rhs) => has_external_call(hir, lhs) || has_external_call(hir, rhs),
        ExprKind::Assign(lhs, _, rhs) => has_external_call(hir, lhs) || has_external_call(hir, rhs),
        ExprKind::Unary(_, inner) | ExprKind::Payable(inner) | ExprKind::Delete(inner) => {
            has_external_call(hir, inner)
        },
        ExprKind::Ternary(cond, then_val, else_val) => has_external_call(hir, cond)
            || has_external_call(hir, then_val) || has_external_call(hir, else_val),
        ExprKind::Index(base, index) => {
            if has_external_call(hir, base) {
                return true;
            }
            match index {
                Some(index) => has_external_call(hir, index),
                None => false,
            }
        },
        ExprKind::Slice(base, start, end) => {
            if has_external_call(hir, base) {
                return true;
            }
            if let Some(start) = start {
                if has_external_call(hir, start) {
                    return true;
                }
            }
            match end {
                Some(end) => has_external_call(hir, end),
                None => false,
            }
        },
        ExprKind::Array(elements) => any_external_call(hir, elements),
        ExprKind::Tuple(elements) => any_element_external_call(hir, elements),
        _ => false,
    }
}

/// Whether evaluating one of the expressions may leave the contract.
fn any_external_call(hir: &Hir, exprs: &Vec<Expr>) -> (r: bool)
    requires
        exprs_fit(*hir, exprs@, exprs@.len()),
    ensures
        r == any_leaves(*hir, exprs@, exprs@.len()),
    decreases exprs,
{
    let mut i: usize = 0;
    while i < exprs.len()
        invariant
            i <= exprs@.len(),
            exprs_fit(*hir, exprs@, exprs@.len()),
            !any_leaves(*hir, exprs@, i as nat),
        decreases exprs@.len() - i,
    {
        proof {
            lemma_exprs_fit(*hir, exprs@, exprs@.len(), i as int);
        }
        if has_external_call(hir, &exprs[i]) {
            proof {
                lemma_any_leaves(*hir, exprs@, (i + 1) as nat, exprs@.len());
            }
            return true;
        }
        i = i + 1;
    }
    false
}

/// Whether evaluating one of the elements may leave the contract.
fn any_element_external_call(hir: &Hir, elements: &Vec<Option<Expr>>) -> (r: bool)
    requires
        elements_fit(*hir, elements@, elements@.len()),
    ensures
        r == any_element_leaves(*hir, elements@, elements@.len()),
    decreases elements,
{
    let mut i: usize = 0;
    while i < elements.len()
        invariant
            i <= elements@.len(),
            elements_fit(*hir, elements@, elements@.len()),
            !any_element_leaves(*hir, elements@, i as nat),
        decreases elements@.len() - i,
    {
        if let Some(element) = &elements[i] {
            proof {
                lemma_elements_fit(*hir, elements@, elements@.len(), i as int);
            }
            if has_external_call(hir, element) {
                proof {
                    lemma_any_element_leaves(*hir, elements@, (i + 1) as nat, elements@.len());
                }
                return true;
            }
        }
        i = i + 1;
    }
    false
}

/// Whether an expression or an operand is a name of the variable.
pub open spec fn mentions(expr: Expr, var: VariableId) -> bool
    decreases expr, 0nat,
{
    match expr.kind {
        ExprKind::Ident(_) => expr.facts.variable == Some(var),
        ExprKind::Assign(lhs, _, rhs) => mentions(*lhs, var) || mentions(*rhs, var),
        ExprKind::Binary(lhs, _, rhs) => mentions(*lhs, var) || mentions(*rhs, var),
        ExprKind::Unary(_, inner) | ExprKind::Payable(inner) | ExprKind::Delete(inner) => {
            mentions(*inner, var)
        },
        ExprKind::Ternary(cond, then_val, else_val) => mentions(*cond, var) || mentions(
            *then_val,
            var,
        ) || mentions(*else_val, var),
        ExprKind::Call(callee, args, options) => mentions(*callee, var) || any_mentions(
            options@,
            options@.len(),
            var,
        ) || any_mentions(args@, args@.len(), var),
        ExprKind::Index(base, index) => mentions(*base, var) || (match index {
            Some(index) => mentions(*index, var),
            None => false,
        }),
        ExprKind::Slice(base, start, end) => mentions(*base, var) || (match start {
            Some(start) => mentions(*start, var),
            None => false,
        }) || (match end {
            Some(end) => mentions(*end, var),
            None => false,
        }),
        ExprKind::Member(base, _) | ExprKind::YulMember(base, _) => mentions(*base, var),
        ExprKind::Array(elements) => any_mentions(elements@, elements@.len(), var),
        ExprKind::Tuple(elements) => any_element_mentions(elements@, elements@.len(), var),
        _ => false,
    }
}

/// Whether one of the first `count` expressions mentions the variable.
pub open spec fn any_mentions(exprs: Seq<Expr>, count: nat, var: VariableId) -> bool
    decreases exprs, count,
{
    if count == 0 || count > exprs.len() {
        false
    } else {
        any_mentions(exprs, (count - 1) as nat, var) || mentions(exprs[count - 1], var)
    }
}

/// Whether one of the first `count` elements mentions the variable.
pub open spec fn any_element_mentions(
    elements: Seq<Option<Expr>>,
    count: nat,
    var: VariableId,
) -> bool
    decreases elements, count,
{
    if count == 0 || count > elements.len() {
        false
    } else {
        any_element_mentions(elements, (count - 1) as nat, var) || match elements[count - 1] {
            Some(element) => mentions(element, var),
            None => false,
        }
    }
}

/// Once one of the expressions mentions the variable, the whole list does.
proof fn lemma_any_mentions(exprs: Seq<Expr>, few: nat, count: nat, var: VariableId)
    requires
        few <= count <= exprs.len(),
        any_mentions(exprs, few, var),
    ensures
        any_mentions(exprs, count, var),
    decreases count,
{
    if few < count {
        lemma_any_mentions(exprs, few, (count - 1) as nat, var);
    }
}

/// Once one of the elements mentions the variable, the whole tuple does.
proof fn lemma_any_element_mentions(
    elements: Seq<Option<Expr>>,
    few: nat,
    count: nat,
    var: VariableId,
)
    requires
        few <= count <= elements.len(),
        any_element_mentions(elements, few, var),
    ensures
        any_element_mentions(elements, count, var),
    decreases count,
{
    if few < count {
        lemma_any_element_mentions(elements, few, (count - 1) as nat, var);
    }
}

/// Whether an expression or an operand is a name of the variable.
pub fn expr_references_variable(expr: &Expr, var: VariableId) -> (r: bool)
    ensures
        r == mentions(*expr, var),
    decreases expr, 0nat,
{
    match &expr.kind {
        ExprKind::Ident(_) => match expr.facts.variable {
            Some(id) => id == var,
            None => false,
        },
        ExprKind::Assign(lhs, _, rhs) => expr_references_variable(lhs, var)
            || expr_references_variable(rhs, var),
        ExprKind::Binary(lhs, _, rhs) => expr_references_variable(lhs, var)
            || expr_references_variable(rhs, var),
        ExprKind::Unary(_, inner) | ExprKind::Payable(inner) | ExprKind::Delete(inner) => {
            expr_references_variable(inner, var)
        },
        ExprKind::Ternary(cond, then_val, else_val) => expr_references_variable(cond, var)
            || expr_references_variable(then_val, var) || expr_references_variable(else_val, var),
        ExprKind::Call(callee, args, options) => expr_references_variable(callee, var)
            || any_references(options, var) || any_references(args, var),
        ExprKind::Index(base, index) => {
            if expr_references_variable(base, var) {
                return true;
            }
            match index {
                Some(index) => expr_references_variable(index, var),
                None => false,
            }
        },
        ExprKind::Slice(base, start, end) => {
            if expr_references_variable(base, var) {
                return true;
            }
            if let Some(start) = start {
                if expr_references_variable(start, var) {
                    return true;
                }
            }
            match end {
                Some(end) => expr_references_variable(end, var),
                None => false,
            }
        },
        ExprKind::Member(base, _) | ExprKind::YulMember(base, _) => expr_references_variable(
            base,
            var,
        ),
        ExprKind::Array(elements) => any_references(elements, var),
        ExprKind::Tuple(elements) => any_element_references(elements, var),
        _ => false,
    }
}

/// Whether one of the expressions mentions the variable.
fn any_references(exprs: &Vec<Expr>, var: VariableId) -> (r: bool)
    ensures
        r == any_mentions(exprs@, exprs@.len(), var),
    decreases exprs,
{
    let mut i: usize = 0;
    while i < exprs.len()
        invariant
            i <= exprs@.len(),
            !any_mentions(exprs@, i as nat, var),
        decreases exprs@.len() - i,
    {
        if expr_references_variable(&exprs[i], var) {
            proof {
                lemma_any_mentions(exprs@, (i + 1) as nat, exprs@.len(), var);
            }
            return true;
        }
        i = i + 1;
    }
    false
}

/// Whether one of the elements mentions the variable.
fn any_element_references(elements: &Vec<Option<Expr>>, var: VariableId) -> (r: bool)
    ensures
        r == any_element_mentions(elements@, elements@.len(), var),
    decreases elements,
{
    let mut i: usize = 0;
    while i < elements.len()
        invariant
            i <= elements@.len(),
            !any_element_mentions(elements@, i as nat, var),
        decreases elements@.len() - i,
    {
        if let Some(element) = &elements[i] {
            if expr_references_variable(element, var) {
                proof {
                    lemma_any_element_mentions(
                        elements@,
                        (i + 1) as nat,
                        elements@.len(),
                        var,
                    );
                }
                return true;
            }
        }
        i = i + 1;
    }
    false
}

/// The constant whose initial value an expression stands for.
pub open spec fn named_constant(expr: Expr) -> Option<VariableId> {
    match expr.kind {
        ExprKind::Ident(_) => expr.facts.variable,
        ExprKind::Member(..) => match expr.facts.res {
            Some(Res::Item(ItemId::Variable(id))) => Some(id),
            _ => None,
        },
        _ => None,
    }
}

/// The bytes of a constant string, through at most `steps` names.
pub open spec fn string_of(hir: Hir, expr: Expr, steps: nat) -> Option<Seq<u8>>
    decreases steps,
{
    if steps == 0 {
        None
    } else {
        match expr.kind {
            ExprKind::Lit(Lit::Str(bytes)) => Some(bytes@),
            _ => match named_constant(expr) {
                Some(id) => if id.0 < hir.variables@.len()
                    && hir.variables@[id.0 as int].mutability is Constant {
                    match hir.variables@[id.0 as int].initializer {
                        Some(init) => string_of(hir, init, (steps - 1) as nat),
                        None => None,
                    }
                } else {
                    None
                },
                None => None,
            },
        }
    }
}

/// Returns the bytes of a compile-time-constant string expression: a string
/// literal, or a reference to a constant whose initial value, through at most
/// three further names, is a literal.
pub fn constant_string_bytes<'a>(hir: &'a Hir, expr: &'a Expr) -> (r: Option<&'a Vec<u8>>)
    ensures
        r is Some <==> string_of(*hir, *expr, 4) is Some,
        r matches Some(bytes) ==> Some(bytes@) == string_of(*hir, *expr, 4),
{
    let mut current: &'a Expr = expr;
    let mut steps: u8 = 4;
    while steps > 0
        invariant
            steps <= 4,
            string_of(*hir, *current, steps as nat) == string_of(*hir, *expr, 4),
        decreases steps,
    {
        let id: VariableId = match &current.kind {
            ExprKind::Lit(Lit::Str(bytes)) => {
                return Some(bytes);
            },
            ExprKind::Ident(_) => match current.facts.variable {
                Some(id) => id,
                None => {
                    return None;
                },
            },
            ExprKind::Member(_, _) => match current.facts.res {
                Some(Res::Item(ItemId::Variable(id))) => id,
                _ => {
                    return None;
                },
            },
            _ => {
                return None;
            },
        };
        if id.0 >= hir.variables.len() {
            return None;
        }
        let var = &hir.variables[id.0];
        if !var.is_constant() {
            return None;
        }
        match &var.initializer {
            Some(init) => {
                current = init;
            },
            None => {
                return None;
            },
        }
        steps = steps - 1;
    }
    None
}

/// Whether a loop body has the shape of a `for` loop with an update: a single
/// conditional whose block holds at least two statements, the last of them an
/// expression.
pub open spec fn has_update(body: Seq<Stmt>) -> bool {
    &&& body.len() == 1
    &&& body[0] matches Stmt::If(_, then_stmt, _)
    &&& *then_stmt matches Stmt::Block(inner)
    &&& inner@.len() >= 2
    &&& inner@.last() is Expr
}

/// Whether a loop body has the shape of a `for` loop with an update.
pub fn is_for_loop_with_update(body: &Vec<Stmt>) -> (r: bool)
    ensures
        r == has_update(body@),
{
    if body.len() != 1 {
        return false;
    }
    match &body[0] {
        Stmt::If(_, then_stmt, _) => match &**then_stmt {
            Stmt::Block(inner) => {
                let count: usize = inner.len();
                count >= 2 && matches!(inner[count - 1], Stmt::Expr(_))
            },
            _ => false,
        },
        _ => false,
    }
}

/// Whether an expression is `keccak256` of the variable alone.
pub open spec fn hashes_variable(expr: Expr, var: VariableId) -> bool {
    expr.kind matches ExprKind::Call(callee, args, _) && callee.facts.builtin == Some(
        Builtin::Keccak256,
    ) && args@.len() == 1 && args@[0].facts.variable == Some(var)
}

/// Whether an expression is `keccak256` of the variable alone.
pub fn is_keccak_call_of_local(expr: &Expr, var: VariableId) -> (r: bool)
    ensures
        r == hashes_variable(*expr, var),
{
    match &expr.kind {
        ExprKind::Call(callee, args, _) => {
            let is_hash = match callee.facts.builtin {
                Some(Builtin::Keccak256) => true,
                _ => false,
            };
            if !is_hash || args.len() != 1 {
                return false;
            }
            match args[0].facts.variable {
                Some(id) => id == var,
                None => false,
            }
        },
        _ => false,
    }
}

/// The arguments of `abi.encodePacked` where an expression is a call of it.
pub open spec fn packed_args(expr: Expr) -> Option<Vec<Expr>> {
    match expr.kind {
        ExprKind::Call(callee, args, _) => if callee.facts.builtin == Some(
            Builtin::AbiEncodePacked,
        ) {
            Some(args)
        } else {
            None
        },
        _ => None,
    }
}

/// The packed arguments whose hash two statements return: a declaration
/// initialized with `abi.encodePacked`, directly followed by a return of the
/// variable's hash. Where the program has errors, the declaration refers to none.
pub open spec fn packed_hash_return(
    hir: Hir,
    has_errors: bool,
    stmt: Stmt,
    next: Option<Stmt>,
) -> Option<Vec<Expr>> {
    match (stmt, next) {
        (Stmt::DeclSingle(id), Some(Stmt::Return(Some(ret)))) => if id.0 < hir.variables@.len() {
            match hir.variables@[id.0 as int].initializer {
                Some(init) => if !(has_errors && init.facts.error is Some) && hashes_variable(
                    ret,
                    id,
                ) {
                    packed_args(init)
                } else {
                    None
                },
                None => None,
            }
        } else {
            None
        },
        _ => None,
    }
}

/// Returns the packed arguments whose hash a declaration and the statement
/// after it return.
pub fn immediate_packed_hash_return_args<'a>(
    hir: &'a Hir,
    has_errors: bool,
    stmt: &Stmt,
    next: Option<&Stmt>,
) -> (r: Option<&'a Vec<Expr>>)
    ensures
        (match r {
            Some(args) => Some(*args),
            None => None,
        }) == packed_hash_return(
            *hir,
            has_errors,
            *stmt,
            (match next {
                Some(next) => Some(*next),
                None => None,
            }),
        ),
{
    let id: VariableId = match stmt {
        Stmt::DeclSingle(id) => *id,
        _ => {
            return None;
        },
    };
    if id.0 >= hir.variables.len() {
        return None;
    }
    let init = match &hir.variables[id.0].initializer {
        Some(init) => init,
        None => {
            return None;
        },
    };
    if has_errors && init.facts.error.is_some() {
        return None;
    }
    let args = match &init.kind {
        ExprKind::Call(callee, args, _) => match callee.facts.builtin {
            Some(Builtin::AbiEncodePacked) => args,
            _ => {
                return None;
            },
        },
        _ => {
            return None;
        },
    };
    match next {
        Some(Stmt::Return(Some(ret))) => {
            if is_keccak_call_of_local(ret, id) {
                Some(args)
            } else {
                None
            }
        },
        _ => None,
    }
}

/// The number of components of a conditional whose branches are tuples.
pub open spec fn ternary_arity(expr: Expr) -> Option<nat> {
    match expr.kind {
        ExprKind::Ternary(_, then_val, else_val) => match (then_val.kind, else_val.kind) {
            (ExprKind::Tuple(elements), _) if elements@.len() > 1 => Some(elements@.len()),
            (_, ExprKind::Tuple(elements)) if elements@.len() > 1 => Some(elements@.len()),
            _ => None,
        },
        _ => None,
    }
}

/// Gets the number of components of a conditional whose branches are tuples.
pub fn get_ternary_tuple_arity(expr: &Expr) -> (r: Option<usize>)
    ensures
        (match r {
            Some(arity) => Some(arity as nat),
            None => None,
        }) == ternary_arity(*expr),
{
    match &expr.kind {
        ExprKind::Ternary(_, then_val, else_val) => {
            if let ExprKind::Tuple(elements) = &then_val.kind {
                if elements.len() > 1 {
                    return Some(elements.len());
                }
            }
            if let ExprKind::Tuple(elements) = &else_val.kind {
                if elements.len() > 1 {
                    return Some(elements.len());
                }
            }
            None
        },
        _ => None,
    }
}

/// Whether an expression is a call of `call`, `staticcall` or `delegatecall` on
/// something that is no contract.
pub open spec fn is_low_level(expr: Expr) -> bool {
    expr.kind matches ExprKind::Call(callee, _, _) && callee.kind matches ExprKind::Member(
        base,
        member,
    ) && (member@ == "call"@ || member@ == "staticcall"@ || member@ == "delegatecall"@)
        && !base.facts.contract
}

/// Whether an expression is a low-level call.
pub fn is_low_level_call_expr(expr: &Expr) -> (r: bool)
    ensures
        r == is_low_level(*expr),
{
    match &expr.kind {
        ExprKind::Call(callee, _, _) => match &callee.kind {
            ExprKind::Member(base, member) => {
                let name = member.as_str();
                (text_is(name, "call") || text_is(name, "staticcall") || text_is(
                    name,
                    "delegatecall",
                )) && !base.facts.contract
            },
            _ => false,
        },
        _ => false,
    }
}

/// The field of the struct that a statement initializes: it is an assignment
/// `ret.field = value` whose value does not mention `ret`.
pub open spec fn initialized_field(hir: Hir, stmt: Stmt, ret: VariableId, id: StructId) -> Option<
    usize,
> {
    match stmt {
        Stmt::Expr(expr) => match expr.kind {
            ExprKind::Assign(lhs, None, rhs) => match (lhs.kind, lhs.facts.field) {
                (ExprKind::Member(base, _), Some((lhs_id, index))) => if base.facts.variable
                    == Some(ret) && !mentions(*rhs, ret) && lhs_id == id && index
                    < hir.structs@[id.0 as int].fields@.len() {
                    Some(hir.structs@[id.0 as int].fields@[index as int].0)
                } else {
                    None
                },
                _ => None,
            },
            _ => None,
        },
        _ => None,
    }
}

/// The fields that the first `count` statements initialize.
pub open spec fn initialized_fields(
    hir: Hir,
    body: Seq<Stmt>,
    count: nat,
    ret: VariableId,
    id: StructId,
) -> Set<usize>
    decreases count,
{
    if count == 0 || count > body.len() {
        Set::empty()
    } else {
        let front = initialized_fields(hir, body, (count - 1) as nat, ret, id);
        match initialized_field(hir, body[count - 1], ret, id) {
            Some(field) => front.insert(field),
            None => front,
        }
    }
}

/// Whether the first `count` statements do nothing but initialize fields, and
/// as many of them as the struct has.
pub open spec fn initializes_all(
    hir: Hir,
    body: Seq<Stmt>,
    count: nat,
    ret: VariableId,
    id: StructId,
) -> bool {
    &&& 0 < count <= body.len()
    &&& forall|i: int|
        0 <= i < count ==> initialized_field(hir, #[trigger] body[i], ret, id) is Some
    &&& initialized_fields(hir, body, count, ret, id).len()
        == hir.structs@[id.0 as int].fields@.len()
}

/// The struct of a named return in memory.
pub open spec fn named_memory_struct(hir: Hir, ret: VariableId) -> Option<StructId> {
    let var = hir.variables@[ret.0 as int];
    if var.name is Some && var.location == Some(DataLocation::Memory) {
        match peeled(var.ty) {
            Ty::Struct(id) => Some(id),
            _ => None,
        }
    } else {
        None
    }
}

/// Whether a body initializes every field of a named return in memory before
/// it uses the return in any other way.
pub open spec fn fully_initialized(hir: Hir, ret: VariableId, body: Seq<Stmt>) -> bool {
    named_memory_struct(hir, ret) matches Some(id) && hir.structs@[id.0 as int].fields@.len() > 0
        && exists|count: nat| #[trigger] initializes_all(hir, body, count, ret, id)
}

/// Returns the type of a named memory-struct return whose fields are all
/// assigned before the return variable is otherwise used.
pub fn fully_initialized_named_return_struct_ty<'a>(
    hir: &'a Hir,
    ret: VariableId,
    body: &Vec<Stmt>,
) -> (r: Option<&'a Ty>)
    requires
        ret.0 < hir.variables@.len(),
        named_memory_struct(*hir, ret) matches Some(id) ==> id.0 < hir.structs@.len(),
    ensures
        r is Some <==> fully_initialized(*hir, ret, body@),
        r matches Some(ty) ==> *ty == hir.variables@[ret.0 as int].ty,
{
    broadcast use vstd::std_specs::hash::group_hash_axioms;

    let var = &hir.variables[ret.0];
    let in_memory = match var.location {
        Some(DataLocation::Memory) => true,
        _ => false,
    };
    if var.name.is_none() || !in_memory {
        return None;
    }
    let id: StructId = match var.ty.peel_refs() {
        Ty::Struct(id) => *id,
        _ => {
            return None;
        },
    };
    let strukt = &hir.structs[id.0];
    if strukt.fields.len() == 0 {
        return None;
    }
    let mut initialized: HashSet<usize> = HashSet::new();
    let mut i: usize = 0;
    assert(initialized@ =~= initialized_fields(*hir, body@, 0, ret, id));
    while i < body.len()
        invariant
            vstd::std_specs::hash::obeys_key_model::<usize>(),
            vstd::std_specs::hash::builds_valid_hashers::<std::collections::hash_map::RandomState>(),
            i <= body@.len(),
            id.0 < hir.structs@.len(),
            ret.0 < hir.variables@.len(),
            *strukt == hir.structs@[id.0 as int],
            *var == hir.variables@[ret.0 as int],
            strukt.fields@.len() > 0,
            named_memory_struct(*hir, ret) == Some(id),
            initialized@ == initialized_fields(*hir, body@, i as nat, ret, id),
            forall|k: int|
                0 <= k < i ==> initialized_field(*hir, #[trigger] body@[k], ret, id) is Some,
            forall|count: nat|
                count <= i ==> !(#[trigger] initializes_all(*hir, body@, count, ret, id)),
        decreases body@.len() - i,
    {
        broadcast use vstd::std_specs::hash::group_hash_axioms;

        match initializer_of_field(hir, &body[i], ret, id) {
            Some(field) => {
                initialized.insert(field);
                let count: usize = initialized.len();
                i = i + 1;
                assert(initialized@ =~= initialized_fields(*hir, body@, i as nat, ret, id));
                if count == strukt.fields.len() {
                    assert(initializes_all(*hir, body@, i as nat, ret, id));
                    return Some(&var.ty);
                }
                assert forall|other: nat| other <= i implies !(#[trigger] initializes_all(
                    *hir,
                    body@,
                    other,
                    ret,
                    id,
                )) by {
                    if other == i {
                    }
                }
            },
            None => {
                assert forall|count: nat| !(#[trigger] initializes_all(
                    *hir,
                    body@,
                    count,
                    ret,
                    id,
                )) by {
                    if count > i {
                        assert(initialized_field(*hir, body@[i as int], ret, id) is None);
                    }
                }
                return None;
            },
        }
    }
    None
}

/// Returns the field of the struct that a statement initializes.
fn initializer_of_field(hir: &Hir, stmt: &Stmt, ret: VariableId, id: StructId) -> (r: Option<usize>)
    requires
        id.0 < hir.structs@.len(),
    ensures
        r == initialized_field(*hir, *stmt, ret, id),
{
    let expr = match stmt {
        Stmt::Expr(expr) => expr,
        _ => {
            return None;
        },
    };
    match &expr.kind {
        ExprKind::Assign(lhs, None, rhs) => match &lhs.kind {
            ExprKind::Member(base, _) => {
                let of_ret = match base.facts.variable {
                    Some(var) => var == ret,
                    None => false,
                };
                if !of_ret || expr_references_variable(rhs, ret) {
                    return None;
                }
                match lhs.facts.field {
                    Some((lhs_id, index)) => {
                        let fields = &hir.structs[id.0].fields;
                        if lhs_id == id && index < fields.len() {
                            Some(fields[index].0)
                        } else {
                            None
                        }
                    },
                    None => None,
                }
            },
            _ => None,
        },
        _ => None,
    }
}

} // verus!
