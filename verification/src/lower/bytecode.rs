//! Which contracts' creation code a contract embeds.

use crate::hir::{
    contract_fits, has_contracts, has_functions, hir_wf, Contract, ContractId, Expr, ExprKind, Hir,
    HirFunction, ItemId, Modifier, Stmt, SwitchCase, TryClause, TypeKind, VariableId,
};
use crate::text::text_is;
use std::collections::HashSet;
use vstd::prelude::*;

verus! {

/// The contract that a type names.
pub open spec fn contract_of(ty: TypeKind) -> Set<usize> {
    match ty {
        TypeKind::Custom(ItemId::Contract(id)) => Set::empty().insert(id.0),
        _ => Set::empty(),
    }
}

/// The contract whose code an expression embeds by itself: `new C`,
/// `type(C).creationCode` or `type(C).runtimeCode`.
pub open spec fn embedded_by(kind: ExprKind) -> Set<usize> {
    match kind {
        ExprKind::New(ty) => contract_of(ty),
        ExprKind::Member(base, member) => if member@ == "creationCode"@ || member@
            == "runtimeCode"@ {
            match base.kind {
                ExprKind::TypeCall(ty) => contract_of(ty),
                _ => Set::empty(),
            }
        } else {
            Set::empty()
        },
        _ => Set::empty(),
    }
}

/// The contracts whose code an expression embeds.
pub open spec fn embedded_in(expr: Expr) -> Set<usize>
    decreases expr, 0nat,
{
    let own = embedded_by(expr.kind);
    match expr.kind {
        ExprKind::Assign(lhs, _, rhs) => own.union(embedded_in(*lhs)).union(embedded_in(*rhs)),
        ExprKind::Binary(lhs, _, rhs) => own.union(embedded_in(*lhs)).union(embedded_in(*rhs)),
        ExprKind::Unary(_, inner) | ExprKind::Payable(inner) | ExprKind::Delete(inner) => {
            own.union(embedded_in(*inner))
        },
        ExprKind::Ternary(cond, then_val, else_val) => own.union(embedded_in(*cond)).union(
            embedded_in(*then_val),
        ).union(embedded_in(*else_val)),
        ExprKind::Call(callee, args, options) => own.union(embedded_in(*callee)).union(
            embedded_in_all(options@, options@.len()),
        ).union(embedded_in_all(args@, args@.len())),
        ExprKind::Index(base, index) => own.union(embedded_in(*base)).union(
            (match index {
                Some(index) => embedded_in(*index),
                None => Set::empty(),
            }),
        ),
        ExprKind::Slice(base, start, end) => own.union(embedded_in(*base)).union(
            (match start {
                Some(start) => embedded_in(*start),
                None => Set::empty(),
            }),
        ).union(
            (match end {
                Some(end) => embedded_in(*end),
                None => Set::empty(),
            }),
        ),
        ExprKind::Member(base, _) | ExprKind::YulMember(base, _) => own.union(embedded_in(*base)),
        ExprKind::Array(elements) => own.union(embedded_in_all(elements@, elements@.len())),
        ExprKind::Tuple(elements) => own.union(embedded_in_elements(elements@, elements@.len())),
        _ => own,
    }
}

/// The contracts whose code the first `count` expressions embed.
pub open spec fn embedded_in_all(exprs: Seq<Expr>, count: nat) -> Set<usize>
    decreases exprs, count,
{
    if count == 0 || count > exprs.len() {
        Set::empty()
    } else {
        embedded_in_all(exprs, (count - 1) as nat).union(embedded_in(exprs[count - 1]))
    }
}

/// The contracts whose code the first `count` elements embed.
pub open spec fn embedded_in_elements(elements: Seq<Option<Expr>>, count: nat) -> Set<usize>
    decreases elements, count,
{
    if count == 0 || count > elements.len() {
        Set::empty()
    } else {
        let front = embedded_in_elements(elements, (count - 1) as nat);
        match elements[count - 1] {
            Some(element) => front.union(embedded_in(element)),
            None => front,
        }
    }
}

/// The contracts whose code the initial value of a variable embeds.
pub open spec fn embedded_in_variable(hir: Hir, id: VariableId) -> Set<usize> {
    if id.0 < hir.variables@.len() {
        match hir.variables@[id.0 as int].initializer {
            Some(init) => embedded_in(init),
            None => Set::empty(),
        }
    } else {
        Set::empty()
    }
}

/// The contracts whose code the first `count` variables embed.
pub open spec fn embedded_in_variables(hir: Hir, ids: Seq<VariableId>, count: nat) -> Set<usize>
    decreases count,
{
    if count == 0 || count > ids.len() {
        Set::empty()
    } else {
        embedded_in_variables(hir, ids, (count - 1) as nat).union(
            embedded_in_variable(hir, ids[count - 1]),
        )
    }
}

/// The contracts whose code the first `count` optional variables embed.
pub open spec fn embedded_in_slots(hir: Hir, ids: Seq<Option<VariableId>>, count: nat) -> Set<usize>
    decreases count,
{
    if count == 0 || count > ids.len() {
        Set::empty()
    } else {
        let front = embedded_in_slots(hir, ids, (count - 1) as nat);
        match ids[count - 1] {
            Some(id) => front.union(embedded_in_variable(hir, id)),
            None => front,
        }
    }
}

/// The contracts whose code a statement embeds.
pub open spec fn embedded_in_stmt(hir: Hir, stmt: Stmt) -> Set<usize>
    decreases stmt, 0nat,
{
    match stmt {
        Stmt::DeclSingle(id) => embedded_in_variable(hir, id),
        Stmt::DeclMulti(ids, expr) => embedded_in_slots(hir, ids@, ids@.len()).union(
            embedded_in(expr),
        ),
        Stmt::Expr(expr) | Stmt::Revert(expr) | Stmt::Emit(expr) => embedded_in(expr),
        Stmt::Return(Some(expr)) => embedded_in(expr),
        Stmt::Block(body) | Stmt::UncheckedBlock(body) | Stmt::AssemblyBlock(body) => {
            embedded_in_block(hir, body@, body@.len())
        },
        Stmt::Loop(body, _) => embedded_in_block(hir, body@, body@.len()),
        Stmt::If(cond, then_stmt, else_stmt) => {
            let front = embedded_in(cond).union(embedded_in_stmt(hir, *then_stmt));
            match else_stmt {
                Some(else_stmt) => front.union(embedded_in_stmt(hir, *else_stmt)),
                None => front,
            }
        },
        Stmt::Switch(selector, cases) => embedded_in(selector).union(
            embedded_in_cases(hir, cases@, cases@.len()),
        ),
        Stmt::Try(expr, clauses) => embedded_in(expr).union(
            embedded_in_clauses(hir, clauses@, clauses@.len()),
        ),
        _ => Set::empty(),
    }
}

/// The contracts whose code the first `count` statements embed.
pub open spec fn embedded_in_block(hir: Hir, body: Seq<Stmt>, count: nat) -> Set<usize>
    decreases body, count,
{
    if count == 0 || count > body.len() {
        Set::empty()
    } else {
        embedded_in_block(hir, body, (count - 1) as nat).union(
            embedded_in_stmt(hir, body[count - 1]),
        )
    }
}

/// The contracts whose code the first `count` cases embed.
pub open spec fn embedded_in_cases(hir: Hir, cases: Seq<SwitchCase>, count: nat) -> Set<usize>
    decreases cases, count,
{
    if count == 0 || count > cases.len() {
        Set::empty()
    } else {
        let body = cases[count - 1].body@;
        embedded_in_cases(hir, cases, (count - 1) as nat).union(
            embedded_in_block(hir, body, body.len()),
        )
    }
}

/// The contracts whose code the first `count` clauses embed.
pub open spec fn embedded_in_clauses(hir: Hir, clauses: Seq<TryClause>, count: nat) -> Set<usize>
    decreases clauses, count,
{
    if count == 0 || count > clauses.len() {
        Set::empty()
    } else {
        let clause = clauses[count - 1];
        embedded_in_clauses(hir, clauses, (count - 1) as nat).union(
            embedded_in_variables(hir, clause.args@, clause.args@.len()),
        ).union(embedded_in_block(hir, clause.body@, clause.body@.len()))
    }
}

/// The contracts whose code the arguments of a modifier embed.
pub open spec fn embedded_in_modifier(modifier: Modifier) -> Set<usize> {
    match modifier.args {
        Some(args) => embedded_in_all(args@, args@.len()),
        None => Set::empty(),
    }
}

/// The contracts whose code the first `count` modifiers embed.
pub open spec fn embedded_in_modifiers(modifiers: Seq<Modifier>, count: nat) -> Set<usize>
    decreases count,
{
    if count == 0 || count > modifiers.len() {
        Set::empty()
    } else {
        embedded_in_modifiers(modifiers, (count - 1) as nat).union(
            embedded_in_modifier(modifiers[count - 1]),
        )
    }
}

/// The contracts whose code the first `count` base arguments embed.
pub open spec fn embedded_in_base_args(args: Seq<Option<Modifier>>, count: nat) -> Set<usize>
    decreases count,
{
    if count == 0 || count > args.len() {
        Set::empty()
    } else {
        let front = embedded_in_base_args(args, (count - 1) as nat);
        match args[count - 1] {
            Some(modifier) => front.union(embedded_in_modifier(modifier)),
            None => front,
        }
    }
}

/// The contracts whose code a function embeds.
pub open spec fn embedded_in_function(hir: Hir, func: HirFunction) -> Set<usize> {
    embedded_in_modifiers(func.modifiers@, func.modifiers@.len()).union(
        (match func.body {
            Some(body) => embedded_in_block(hir, body@, body@.len()),
            None => Set::empty(),
        }),
    )
}

/// The contracts whose code the first `count` functions of a base embed.
pub open spec fn embedded_in_functions(hir: Hir, base: Contract, count: nat) -> Set<usize>
    decreases count,
{
    if count == 0 || count > base.functions@.len() {
        Set::empty()
    } else {
        let id = base.functions@[count - 1];
        embedded_in_functions(hir, base, (count - 1) as nat).union(
            embedded_in_function(hir, hir.functions@[id.0 as int]),
        )
    }
}

/// The contracts whose code the first `count` bases embed.
pub open spec fn embedded_in_bases(hir: Hir, contract: Contract, count: nat) -> Set<usize>
    decreases count,
{
    if count == 0 || count > contract.linearized_bases@.len() {
        Set::empty()
    } else {
        let base = hir.contracts@[contract.linearized_bases@[count - 1].0 as int];
        embedded_in_bases(hir, contract, (count - 1) as nat).union(
            embedded_in_variables(hir, base.variables@, base.variables@.len()),
        ).union(embedded_in_functions(hir, base, base.functions@.len()))
    }
}

/// The contracts whose creation code a contract refers to: in the arguments
/// for its bases, and in the variables, modifiers and bodies of itself and its
/// bases.
pub open spec fn bytecode_dependencies(hir: Hir, contract: Contract) -> Set<usize> {
    embedded_in_base_args(contract.base_args@, contract.base_args@.len()).union(
        embedded_in_bases(hir, contract, contract.linearized_bases@.len()),
    )
}

/// Records the contract that a type names.
fn collect_type(ty: &TypeKind, found: &mut HashSet<usize>)
    ensures
        final(found)@ == old(found)@.union(contract_of(*ty)),
{
    broadcast use vstd::std_specs::hash::group_hash_axioms;

    if let TypeKind::Custom(ItemId::Contract(id)) = ty {
        found.insert(id.0);
    }
    assert(found@ =~= old(found)@.union(contract_of(*ty)));
}

/// Records the contract whose code an expression embeds by itself.
fn collect_kind(kind: &ExprKind, found: &mut HashSet<usize>)
    ensures
        final(found)@ == old(found)@.union(embedded_by(*kind)),
{
    match kind {
        ExprKind::New(ty) => collect_type(ty, found),
        ExprKind::Member(base, member) => {
            if text_is(member.as_str(), "creationCode") || text_is(member.as_str(), "runtimeCode") {
                if let ExprKind::TypeCall(ty) = &base.kind {
                    collect_type(ty, found);
                }
            }
        },
        _ => {},
    }
    assert(found@ =~= old(found)@.union(embedded_by(*kind)));
}

/// Records the contracts whose code an expression embeds.
fn visit_expr(expr: &Expr, found: &mut HashSet<usize>)
    ensures
        final(found)@ == old(found)@.union(embedded_in(*expr)),
    decreases expr, 0nat,
{
    collect_kind(&expr.kind, found);
    match &expr.kind {
        ExprKind::Assign(lhs, _, rhs) => {
            visit_expr(lhs, found);
            visit_expr(rhs, found);
        },
        ExprKind::Binary(lhs, _, rhs) => {
            visit_expr(lhs, found);
            visit_expr(rhs, found);
        },
        ExprKind::Unary(_, inner) | ExprKind::Payable(inner) | ExprKind::Delete(inner) => {
            visit_expr(inner, found);
        },
        ExprKind::Ternary(cond, then_val, else_val) => {
            visit_expr(cond, found);
            visit_expr(then_val, found);
            visit_expr(else_val, found);
        },
        ExprKind::Call(callee, args, options) => {
            visit_expr(callee, found);
            visit_exprs(options, found);
            visit_exprs(args, found);
        },
        ExprKind::Index(base, index) => {
            visit_expr(base, found);
            if let Some(index) = index {
                visit_expr(index, found);
            }
        },
        ExprKind::Slice(base, start, end) => {
            visit_expr(base, found);
            if let Some(start) = start {
                visit_expr(start, found);
            }
            if let Some(end) = end {
                visit_expr(end, found);
            }
        },
        ExprKind::Member(base, _) | ExprKind::YulMember(base, _) => visit_expr(base, found),
        ExprKind::Array(elements) => visit_exprs(elements, found),
        ExprKind::Tuple(elements) => visit_elements(elements, found),
        _ => {},
    }
    assert(found@ =~= old(found)@.union(embedded_in(*expr)));
}

/// Records the contracts whose code expressions embed.
fn visit_exprs(items: &Vec<Expr>, found: &mut HashSet<usize>)
    ensures
        final(found)@ == old(found)@.union(embedded_in_all(items@, items@.len())),
    decreases items,
{
    let ghost before = found@;
    let mut i: usize = 0;
    assert(found@ =~= before.union(embedded_in_all(items@, 0)));
    while i < items.len()
        invariant
            i <= items@.len(),
            found@ == before.union(embedded_in_all(items@, i as nat)),
        decreases items@.len() - i,
    {
        visit_expr(&items[i], found);
        i = i + 1;
        assert(found@ =~= before.union(embedded_in_all(items@, i as nat)));
    }
}

/// Records the contracts whose code the elements of a tuple embed.
fn visit_elements(items: &Vec<Option<Expr>>, found: &mut HashSet<usize>)
    ensures
        final(found)@ == old(found)@.union(embedded_in_elements(items@, items@.len())),
    decreases items,
{
    let ghost before = found@;
    let mut i: usize = 0;
    assert(found@ =~= before.union(embedded_in_elements(items@, 0)));
    while i < items.len()
        invariant
            i <= items@.len(),
            found@ == before.union(embedded_in_elements(items@, i as nat)),
        decreases items@.len() - i,
    {
        if let Some(item) = &items[i] {
            visit_expr(item, found);
        }
        i = i + 1;
        assert(found@ =~= before.union(embedded_in_elements(items@, i as nat)));
    }
}

/// Records the contracts whose code the initial value of a variable embeds.
fn visit_nested_var(hir: &Hir, id: VariableId, found: &mut HashSet<usize>)
    ensures
        final(found)@ == old(found)@.union(embedded_in_variable(*hir, id)),
{
    if id.0 < hir.variables.len() {
        if let Some(init) = &hir.variables[id.0].initializer {
            visit_expr(init, found);
        }
    }
    assert(found@ =~= old(found)@.union(embedded_in_variable(*hir, id)));
}

/// Records the contracts whose code a statement embeds.
fn visit_stmt(hir: &Hir, stmt: &Stmt, found: &mut HashSet<usize>)
    ensures
        final(found)@ == old(found)@.union(embedded_in_stmt(*hir, *stmt)),
    decreases stmt, 0nat,
{
    match stmt {
        Stmt::DeclSingle(id) => visit_nested_var(hir, *id, found),
        Stmt::DeclMulti(ids, expr) => {
            visit_slots(hir, ids, found);
            visit_expr(expr, found);
        },
        Stmt::Expr(expr) | Stmt::Revert(expr) | Stmt::Emit(expr) => visit_expr(expr, found),
        Stmt::Return(Some(expr)) => visit_expr(expr, found),
        Stmt::Block(body) | Stmt::UncheckedBlock(body) | Stmt::AssemblyBlock(body) => {
            visit_block(hir, body, found);
        },
        Stmt::Loop(body, _) => visit_block(hir, body, found),
        Stmt::If(cond, then_stmt, else_stmt) => {
            visit_expr(cond, found);
            visit_stmt(hir, then_stmt, found);
            if let Some(else_stmt) = else_stmt {
                visit_stmt(hir, else_stmt, found);
            }
        },
        Stmt::Switch(selector, cases) => {
            visit_expr(selector, found);
            visit_cases(hir, cases, found);
        },
        Stmt::Try(expr, clauses) => {
            visit_expr(expr, found);
            visit_clauses(hir, clauses, found);
        },
        _ => {},
    }
    assert(found@ =~= old(found)@.union(embedded_in_stmt(*hir, *stmt)));
}

/// Records the contracts whose code variables embed.
fn visit_variables(hir: &Hir, items: &Vec<VariableId>, found: &mut HashSet<usize>)
    ensures
        final(found)@ == old(found)@.union(embedded_in_variables(*hir, items@, items@.len())),
{
    let ghost before = found@;
    let mut i: usize = 0;
    assert(found@ =~= before.union(embedded_in_variables(*hir, items@, 0)));
    while i < items.len()
        invariant
            i <= items@.len(),
            found@ == before.union(embedded_in_variables(*hir, items@, i as nat)),
        decreases items@.len() - i,
    {
        visit_nested_var(hir, items[i], found);
        i = i + 1;
        assert(found@ =~= before.union(embedded_in_variables(*hir, items@, i as nat)));
    }
}

/// Records the contracts whose code optional variables embed.
fn visit_slots(hir: &Hir, items: &Vec<Option<VariableId>>, found: &mut HashSet<usize>)
    ensures
        final(found)@ == old(found)@.union(embedded_in_slots(*hir, items@, items@.len())),
{
    let ghost before = found@;
    let mut i: usize = 0;
    assert(found@ =~= before.union(embedded_in_slots(*hir, items@, 0)));
    while i < items.len()
        invariant
            i <= items@.len(),
            found@ == before.union(embedded_in_slots(*hir, items@, i as nat)),
        decreases items@.len() - i,
    {
        if let Some(item) = &items[i] {
            visit_nested_var(hir, *item, found);
        }
        i = i + 1;
        assert(found@ =~= before.union(embedded_in_slots(*hir, items@, i as nat)));
    }
}

/// Records the contracts whose code the statements of a block embed.
fn visit_block(hir: &Hir, items: &Vec<Stmt>, found: &mut HashSet<usize>)
    ensures
        final(found)@ == old(found)@.union(embedded_in_block(*hir, items@, items@.len())),
    decreases items,
{
    let ghost before = found@;
    let mut i: usize = 0;
    assert(found@ =~= before.union(embedded_in_block(*hir, items@, 0)));
    while i < items.len()
        invariant
            i <= items@.len(),
            found@ == before.union(embedded_in_block(*hir, items@, i as nat)),
        decreases items@.len() - i,
    {
        visit_stmt(hir, &items[i], found);
        i = i + 1;
        assert(found@ =~= before.union(embedded_in_block(*hir, items@, i as nat)));
    }
}

/// Records the contracts whose code the cases of a switch embed.
fn visit_cases(hir: &Hir, items: &Vec<SwitchCase>, found: &mut HashSet<usize>)
    ensures
        final(found)@ == old(found)@.union(embedded_in_cases(*hir, items@, items@.len())),
    decreases items,
{
    let ghost before = found@;
    let mut i: usize = 0;
    assert(found@ =~= before.union(embedded_in_cases(*hir, items@, 0)));
    while i < items.len()
        invariant
            i <= items@.len(),
            found@ == before.union(embedded_in_cases(*hir, items@, i as nat)),
        decreases items@.len() - i,
    {
        visit_block(hir, &items[i].body, found);
        i = i + 1;
        assert(found@ =~= before.union(embedded_in_cases(*hir, items@, i as nat)));
    }
}

/// Records the contracts whose code the clauses of a try statement embed.
fn visit_clauses(hir: &Hir, items: &Vec<TryClause>, found: &mut HashSet<usize>)
    ensures
        final(found)@ == old(found)@.union(embedded_in_clauses(*hir, items@, items@.len())),
    decreases items,
{
    let ghost before = found@;
    let mut i: usize = 0;
    assert(found@ =~= before.union(embedded_in_clauses(*hir, items@, 0)));
    while i < items.len()
        invariant
            i <= items@.len(),
            found@ == before.union(embedded_in_clauses(*hir, items@, i as nat)),
        decreases items@.len() - i,
    {
        visit_variables(hir, &items[i].args, found);
        visit_block(hir, &items[i].body, found);
        i = i + 1;
        assert(found@ =~= before.union(embedded_in_clauses(*hir, items@, i as nat)));
    }
}

/// Records the contracts whose code the arguments of a modifier embed.
fn visit_modifier(modifier: &Modifier, found: &mut HashSet<usize>)
    ensures
        final(found)@ == old(found)@.union(embedded_in_modifier(*modifier)),
{
    if let Some(args) = &modifier.args {
        visit_exprs(args, found);
    }
    assert(found@ =~= old(found)@.union(embedded_in_modifier(*modifier)));
}

/// Records the contracts whose code modifiers embed.
fn visit_modifiers(items: &Vec<Modifier>, found: &mut HashSet<usize>)
    ensures
        final(found)@ == old(found)@.union(embedded_in_modifiers(items@, items@.len())),
{
    let ghost before = found@;
    let mut i: usize = 0;
    assert(found@ =~= before.union(embedded_in_modifiers(items@, 0)));
    while i < items.len()
        invariant
            i <= items@.len(),
            found@ == before.union(embedded_in_modifiers(items@, i as nat)),
        decreases items@.len() - i,
    {
        visit_modifier(&items[i], found);
        i = i + 1;
        assert(found@ =~= before.union(embedded_in_modifiers(items@, i as nat)));
    }
}

/// Records the contracts whose code the arguments for the bases embed.
fn visit_base_args(items: &Vec<Option<Modifier>>, found: &mut HashSet<usize>)
    ensures
        final(found)@ == old(found)@.union(embedded_in_base_args(items@, items@.len())),
{
    let ghost before = found@;
    let mut i: usize = 0;
    assert(found@ =~= before.union(embedded_in_base_args(items@, 0)));
    while i < items.len()
        invariant
            i <= items@.len(),
            found@ == before.union(embedded_in_base_args(items@, i as nat)),
        decreases items@.len() - i,
    {
        if let Some(item) = &items[i] {
            visit_modifier(item, found);
        }
        i = i + 1;
        assert(found@ =~= before.union(embedded_in_base_args(items@, i as nat)));
    }
}

/// Records the contracts whose code the functions of a base embed.
fn visit_functions(hir: &Hir, base: &Contract, found: &mut HashSet<usize>)
    requires
        has_functions(*hir, base.functions@),
    ensures
        final(found)@ == old(found)@.union(
            embedded_in_functions(*hir, *base, base.functions@.len()),
        ),
{
    let ghost before = found@;
    let mut i: usize = 0;
    assert(found@ =~= before.union(embedded_in_functions(*hir, *base, 0)));
    while i < base.functions.len()
        invariant
            i <= base.functions@.len(),
            has_functions(*hir, base.functions@),
            found@ == before.union(embedded_in_functions(*hir, *base, i as nat)),
        decreases base.functions@.len() - i,
    {
        assert(base.functions@[i as int].0 < hir.functions@.len());
        let func = &hir.functions[base.functions[i].0];
        visit_modifiers(&func.modifiers, found);
        if let Some(body) = &func.body {
            visit_block(hir, body, found);
        }
        i = i + 1;
        assert(found@ =~= before.union(embedded_in_functions(*hir, *base, i as nat)));
    }
}

/// Returns the contracts whose creation code `contract_id` refers to, by their
/// indices.
pub fn contract_bytecode_dependencies(hir: &Hir, contract_id: ContractId) -> (r: HashSet<usize>)
    requires
        hir_wf(*hir),
        contract_id.0 < hir.contracts@.len(),
    ensures
        r@ == bytecode_dependencies(*hir, hir.contracts@[contract_id.0 as int]),
{
    broadcast use vstd::std_specs::hash::group_hash_axioms;

    let contract = &hir.contracts[contract_id.0];
    let mut found: HashSet<usize> = HashSet::new();
    visit_base_args(&contract.base_args, &mut found);
    let ghost before = found@;
    assert(before =~= embedded_in_base_args(contract.base_args@, contract.base_args@.len()));
    let mut i: usize = 0;
    assert(found@ =~= before.union(embedded_in_bases(*hir, *contract, 0)));
    proof {
        reveal(hir_wf);
        assert(contract_fits(*hir, *contract));
    }
    while i < contract.linearized_bases.len()
        invariant
            i <= contract.linearized_bases@.len(),
            hir_wf(*hir),
            has_contracts(*hir, contract.linearized_bases@),
            found@ == before.union(embedded_in_bases(*hir, *contract, i as nat)),
        decreases contract.linearized_bases@.len() - i,
    {
        assert(contract.linearized_bases@[i as int].0 < hir.contracts@.len());
        let base = &hir.contracts[contract.linearized_bases[i].0];
        proof {
            reveal(hir_wf);
            assert(contract_fits(*hir, *base));
        }
        visit_variables(hir, &base.variables, &mut found);
        visit_functions(hir, base, &mut found);
        i = i + 1;
        assert(found@ =~= before.union(embedded_in_bases(*hir, *contract, i as nat)));
    }
    found
}

} // verus!
