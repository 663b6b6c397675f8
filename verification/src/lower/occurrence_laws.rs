//! What the scans of a program find: exactly what occurs somewhere in it.

use crate::hir::{
    Contract, Expr, ExprKind, Hir, HirFunction, ItemId, Modifier, Stmt, SwitchCase, TryClause,
    TypeKind, VariableId,
};
use crate::lower::bytecode::{
    bytecode_dependencies, embedded_in, embedded_in_all, embedded_in_base_args, embedded_in_bases,
    embedded_in_block, embedded_in_cases, embedded_in_clauses, embedded_in_elements,
    embedded_in_function, embedded_in_functions, embedded_in_modifier, embedded_in_modifiers,
    embedded_in_slots, embedded_in_stmt, embedded_in_variable, embedded_in_variables,
};
use vstd::prelude::*;

verus! {

/// Whether an expression is an operand of another.
pub open spec fn is_operand(part: Expr, whole: Expr) -> bool {
    match whole.kind {
        ExprKind::Binary(lhs, _, rhs) | ExprKind::Assign(lhs, _, rhs) => part == *lhs || part
            == *rhs,
        ExprKind::Unary(_, inner) | ExprKind::Payable(inner) | ExprKind::Delete(inner) => part
            == *inner,
        ExprKind::Ternary(cond, then_val, else_val) => part == *cond || part == *then_val || part
            == *else_val,
        ExprKind::Call(callee, args, options) => part == *callee || args@.contains(part)
            || options@.contains(part),
        ExprKind::Index(base, index) => part == *base || index == Some(Box::new(part)),
        ExprKind::Slice(base, start, end) => part == *base || start == Some(Box::new(part)) || end
            == Some(Box::new(part)),
        ExprKind::Member(base, _) | ExprKind::YulMember(base, _) => part == *base,
        ExprKind::Array(elements) => elements@.contains(part),
        ExprKind::Tuple(elements) => elements@.contains(Some(part)),
        _ => false,
    }
}

/// Whether an expression occurs in another, so many levels down.
pub open spec fn occurs(part: Expr, whole: Expr, depth: nat) -> bool
    decreases depth,
{
    if depth == 0 {
        part == whole
    } else {
        exists|mid: Expr| #[trigger] is_operand(mid, whole) && occurs(part, mid, (depth - 1) as nat)
    }
}

/// Whether a variable has an initial value.
pub open spec fn is_initial(hir: Hir, id: VariableId, expr: Expr) -> bool {
    id.0 < hir.variables@.len() && hir.variables@[id.0 as int].initializer == Some(expr)
}

/// Whether an expression stands in a statement and in no statement inside it. The
/// initial value of a variable stands where the variable is declared.
pub open spec fn stands_in(hir: Hir, expr: Expr, stmt: Stmt) -> bool {
    match stmt {
        Stmt::DeclSingle(id) => is_initial(hir, id, expr),
        Stmt::DeclMulti(ids, init) => expr == init || exists|id: VariableId|
            #[trigger] ids@.contains(Some(id)) && is_initial(hir, id, expr),
        Stmt::Expr(own) | Stmt::Revert(own) | Stmt::Emit(own) => expr == own,
        Stmt::Return(own) => own == Some(expr),
        Stmt::If(cond, _, _) => expr == cond,
        Stmt::Switch(selector, _) => expr == selector,
        Stmt::Try(own, clauses) => expr == own || exists|i: int, id: VariableId|
            0 <= i < clauses@.len() && #[trigger] clauses@[i].args@.contains(id) && is_initial(
                hir,
                id,
                expr,
            ),
        _ => false,
    }
}

/// Whether a statement is directly inside another.
pub open spec fn is_inside(part: Stmt, whole: Stmt) -> bool {
    match whole {
        Stmt::Block(body) | Stmt::UncheckedBlock(body) | Stmt::AssemblyBlock(body) => {
            body@.contains(part)
        },
        Stmt::Loop(body, _) => body@.contains(part),
        Stmt::If(_, then_stmt, else_stmt) => part == *then_stmt || else_stmt == Some(
            Box::new(part),
        ),
        Stmt::Switch(_, cases) => exists|i: int|
            0 <= i < cases@.len() && #[trigger] cases@[i].body@.contains(part),
        Stmt::Try(_, clauses) => exists|i: int|
            0 <= i < clauses@.len() && #[trigger] clauses@[i].body@.contains(part),
        _ => false,
    }
}

/// Whether an expression stands in a statement, so many levels down.
pub open spec fn stands_below(hir: Hir, expr: Expr, stmt: Stmt, depth: nat) -> bool
    decreases depth,
{
    if depth == 0 {
        stands_in(hir, expr, stmt)
    } else {
        exists|mid: Stmt| #[trigger]
            is_inside(mid, stmt) && stands_below(hir, expr, mid, (depth - 1) as nat)
    }
}

/// Whether a type names a contract.
pub open spec fn names_contract(ty: TypeKind, id: usize) -> bool {
    ty matches TypeKind::Custom(ItemId::Contract(found)) && found.0 == id
}

/// Whether an expression is `new C`, `type(C).creationCode` or
/// `type(C).runtimeCode`.
pub open spec fn needs_code(expr: Expr, id: usize) -> bool {
    match expr.kind {
        ExprKind::New(ty) => names_contract(ty, id),
        ExprKind::Member(base, member) => (member@ == "creationCode"@ || member@
            == "runtimeCode"@) && match base.kind {
            ExprKind::TypeCall(ty) => names_contract(ty, id),
            _ => false,
        },
        _ => false,
    }
}

/// What a list embeds, each of its expressions embeds.
proof fn lemma_all_embed(exprs: Seq<Expr>, count: nat, id: usize)
    requires
        count <= exprs.len(),
    ensures
        embedded_in_all(exprs, count).contains(id) <==> exists|i: int|
            0 <= i < count && #[trigger] embedded_in(exprs[i]).contains(id),
    decreases count,
{
    if count > 0 {
        lemma_all_embed(exprs, (count - 1) as nat, id);
        if embedded_in_all(exprs, (count - 1) as nat).contains(id) {
            let i = choose|i: int|
                0 <= i < count - 1 && #[trigger] embedded_in(exprs[i]).contains(id);
            assert(0 <= i < count && embedded_in(exprs[i]).contains(id));
        }
        if embedded_in(exprs[count - 1]).contains(id) {
            assert(0 <= count - 1 < count);
        }
    }
}

/// What a tuple embeds, one of its elements embeds.
proof fn lemma_elements_embed(elements: Seq<Option<Expr>>, count: nat, id: usize)
    requires
        count <= elements.len(),
    ensures
        embedded_in_elements(elements, count).contains(id) <==> exists|i: int|
            0 <= i < count && (#[trigger] elements[i] matches Some(element) && embedded_in(
                element,
            ).contains(id)),
    decreases count,
{
    if count > 0 {
        lemma_elements_embed(elements, (count - 1) as nat, id);
        let last = elements[count - 1];
        if embedded_in_elements(elements, (count - 1) as nat).contains(id) {
            let i = choose|i: int|
                0 <= i < count - 1 && (#[trigger] elements[i] matches Some(element) && embedded_in(
                    element,
                ).contains(id));
            assert(0 <= i < count && elements[i] is Some);
        }
    }
}

/// What an operand embeds, the expression embeds.
proof fn lemma_operand_embeds(part: Expr, whole: Expr, id: usize)
    requires
        is_operand(part, whole),
        embedded_in(part).contains(id),
    ensures
        embedded_in(whole).contains(id),
{
    match whole.kind {
        ExprKind::Call(callee, args, options) => {
            lemma_all_embed(args@, args@.len(), id);
            lemma_all_embed(options@, options@.len(), id);
            if args@.contains(part) {
                let i = choose|i: int| 0 <= i < args@.len() && args@[i] == part;
                assert(embedded_in(args@[i]).contains(id));
            }
            if options@.contains(part) {
                let i = choose|i: int| 0 <= i < options@.len() && options@[i] == part;
                assert(embedded_in(options@[i]).contains(id));
            }
        },
        ExprKind::Array(elements) => {
            lemma_all_embed(elements@, elements@.len(), id);
            let i = choose|i: int| 0 <= i < elements@.len() && elements@[i] == part;
            assert(embedded_in(elements@[i]).contains(id));
        },
        ExprKind::Tuple(elements) => {
            lemma_elements_embed(elements@, elements@.len(), id);
            let i = choose|i: int| 0 <= i < elements@.len() && elements@[i] == Some(part);
            assert(elements@[i] is Some);
        },
        _ => {},
    }
}

/// The code that an expression needs, at any depth, is found.
pub proof fn law_needed_code_is_found(part: Expr, whole: Expr, depth: nat, id: usize)
    requires
        occurs(part, whole, depth),
        needs_code(part, id),
    ensures
        embedded_in(whole).contains(id),
    decreases depth,
{
    if depth > 0 {
        let mid = choose|mid: Expr| #[trigger]
            is_operand(mid, whole) && occurs(part, mid, (depth - 1) as nat);
        law_needed_code_is_found(part, mid, (depth - 1) as nat, id);
        lemma_operand_embeds(mid, whole, id);
    }
}

/// An expression that occurs in an operand occurs one level further down.
pub proof fn lemma_occurs_up(part: Expr, mid: Expr, whole: Expr, depth: nat)
    requires
        is_operand(mid, whole),
        occurs(part, mid, depth),
    ensures
        occurs(part, whole, depth + 1),
{
}

/// The code that is found is needed by an expression at some depth.
pub proof fn law_found_code_is_needed(whole: Expr, id: usize) -> (r: (Expr, nat))
    requires
        embedded_in(whole).contains(id),
    ensures
        occurs(r.0, whole, r.1),
        needs_code(r.0, id),
    decreases whole, 1nat,
{
    if needs_code(whole, id) {
        (whole, 0)
    } else {
        let mid = match whole.kind {
            ExprKind::Assign(lhs, _, rhs) | ExprKind::Binary(lhs, _, rhs) => if embedded_in(
                *lhs,
            ).contains(id) {
                *lhs
            } else {
                *rhs
            },
            ExprKind::Unary(_, inner) | ExprKind::Payable(inner) | ExprKind::Delete(inner) => {
                *inner
            },
            ExprKind::Ternary(cond, then_val, else_val) => if embedded_in(*cond).contains(id) {
                *cond
            } else if embedded_in(*then_val).contains(id) {
                *then_val
            } else {
                *else_val
            },
            ExprKind::Call(callee, args, options) => {
                lemma_all_embed(args@, args@.len(), id);
                lemma_all_embed(options@, options@.len(), id);
                if embedded_in(*callee).contains(id) {
                    *callee
                } else if embedded_in_all(args@, args@.len()).contains(id) {
                    args@[choose|i: int|
                        0 <= i < args@.len() && #[trigger] embedded_in(args@[i]).contains(id)]
                } else {
                    options@[choose|i: int|
                        0 <= i < options@.len() && #[trigger] embedded_in(options@[i]).contains(
                            id,
                        )]
                }
            },
            ExprKind::Index(base, index) => if embedded_in(*base).contains(id) {
                *base
            } else {
                *(index->0)
            },
            ExprKind::Slice(base, start, end) => if embedded_in(*base).contains(id) {
                *base
            } else if start is Some && embedded_in(*(start->0)).contains(id) {
                *(start->0)
            } else {
                *(end->0)
            },
            ExprKind::Member(base, _) | ExprKind::YulMember(base, _) => *base,
            ExprKind::Array(elements) => {
                lemma_all_embed(elements@, elements@.len(), id);
                elements@[choose|i: int|
                    0 <= i < elements@.len() && #[trigger] embedded_in(elements@[i]).contains(id)]
            },
            ExprKind::Tuple(elements) => {
                lemma_elements_embed(elements@, elements@.len(), id);
                elements@[choose|i: int|
                    0 <= i < elements@.len() && (#[trigger] elements@[i] matches Some(element)
                        && embedded_in(element).contains(id))]->0
            },
            _ => whole,
        };
        assert(is_operand(mid, whole) && embedded_in(mid).contains(id));
        let (part, depth) = law_found_code_is_needed(mid, id);
        lemma_occurs_up(part, mid, whole, depth);
        (part, depth + 1)
    }
}

/// What statements embed, one of them embeds.
proof fn lemma_block_embeds(hir: Hir, body: Seq<Stmt>, count: nat, id: usize)
    requires
        count <= body.len(),
    ensures
        embedded_in_block(hir, body, count).contains(id) <==> exists|i: int|
            0 <= i < count && #[trigger] embedded_in_stmt(hir, body[i]).contains(id),
    decreases count,
{
    if count > 0 {
        lemma_block_embeds(hir, body, (count - 1) as nat, id);
        if embedded_in_block(hir, body, (count - 1) as nat).contains(id) {
            let i = choose|i: int|
                0 <= i < count - 1 && #[trigger] embedded_in_stmt(hir, body[i]).contains(id);
            assert(0 <= i < count && embedded_in_stmt(hir, body[i]).contains(id));
        }
        if embedded_in_stmt(hir, body[count - 1]).contains(id) {
            assert(0 <= count - 1 < count);
        }
    }
}

/// What cases embed, one of them embeds.
proof fn lemma_cases_embed(hir: Hir, cases: Seq<SwitchCase>, count: nat, id: usize)
    requires
        count <= cases.len(),
    ensures
        embedded_in_cases(hir, cases, count).contains(id) <==> exists|i: int|
            0 <= i < count && #[trigger] case_embeds(hir, cases[i], id),
    decreases count,
{
    if count > 0 {
        lemma_cases_embed(hir, cases, (count - 1) as nat, id);
        if embedded_in_cases(hir, cases, (count - 1) as nat).contains(id) {
            let i = choose|i: int| 0 <= i < count - 1 && #[trigger] case_embeds(hir, cases[i], id);
            assert(0 <= i < count && case_embeds(hir, cases[i], id));
        }
        if case_embeds(hir, cases[count - 1], id) {
            assert(0 <= count - 1 < count);
        }
    }
}

/// What clauses embed, one of them embeds.
proof fn lemma_clauses_embed(hir: Hir, clauses: Seq<TryClause>, count: nat, id: usize)
    requires
        count <= clauses.len(),
    ensures
        embedded_in_clauses(hir, clauses, count).contains(id) <==> exists|i: int|
            0 <= i < count && #[trigger] clause_embeds(hir, clauses[i], id),
    decreases count,
{
    if count > 0 {
        lemma_clauses_embed(hir, clauses, (count - 1) as nat, id);
        if embedded_in_clauses(hir, clauses, (count - 1) as nat).contains(id) {
            let i = choose|i: int|
                0 <= i < count - 1 && #[trigger] clause_embeds(hir, clauses[i], id);
            assert(0 <= i < count && clause_embeds(hir, clauses[i], id));
        }
        if clause_embeds(hir, clauses[count - 1], id) {
            assert(0 <= count - 1 < count);
        }
    }
}

/// What variables embed, one of them embeds.
proof fn lemma_variables_embed(hir: Hir, ids: Seq<VariableId>, count: nat, id: usize)
    requires
        count <= ids.len(),
    ensures
        embedded_in_variables(hir, ids, count).contains(id) <==> exists|i: int|
            0 <= i < count && #[trigger] embedded_in_variable(hir, ids[i]).contains(id),
    decreases count,
{
    if count > 0 {
        lemma_variables_embed(hir, ids, (count - 1) as nat, id);
        if embedded_in_variables(hir, ids, (count - 1) as nat).contains(id) {
            let i = choose|i: int|
                0 <= i < count - 1 && #[trigger] embedded_in_variable(hir, ids[i]).contains(id);
            assert(0 <= i < count && embedded_in_variable(hir, ids[i]).contains(id));
        }
        if embedded_in_variable(hir, ids[count - 1]).contains(id) {
            assert(0 <= count - 1 < count);
        }
    }
}

/// What declared variables embed, one of them embeds.
proof fn lemma_slots_embed(hir: Hir, ids: Seq<Option<VariableId>>, count: nat, id: usize)
    requires
        count <= ids.len(),
    ensures
        embedded_in_slots(hir, ids, count).contains(id) <==> exists|i: int|
            0 <= i < count && #[trigger] slot_embeds(hir, ids[i], id),
    decreases count,
{
    if count > 0 {
        lemma_slots_embed(hir, ids, (count - 1) as nat, id);
        if embedded_in_slots(hir, ids, (count - 1) as nat).contains(id) {
            let i = choose|i: int| 0 <= i < count - 1 && #[trigger] slot_embeds(hir, ids[i], id);
            assert(0 <= i < count && slot_embeds(hir, ids[i], id));
        }
        if slot_embeds(hir, ids[count - 1], id) {
            assert(0 <= count - 1 < count);
        }
    }
}

/// What modifiers embed, one of them embeds.
proof fn lemma_modifiers_embed(modifiers: Seq<Modifier>, count: nat, id: usize)
    requires
        count <= modifiers.len(),
    ensures
        embedded_in_modifiers(modifiers, count).contains(id) <==> exists|i: int|
            0 <= i < count && #[trigger] embedded_in_modifier(modifiers[i]).contains(id),
    decreases count,
{
    if count > 0 {
        lemma_modifiers_embed(modifiers, (count - 1) as nat, id);
        if embedded_in_modifiers(modifiers, (count - 1) as nat).contains(id) {
            let i = choose|i: int|
                0 <= i < count - 1 && #[trigger] embedded_in_modifier(modifiers[i]).contains(id);
            assert(0 <= i < count && embedded_in_modifier(modifiers[i]).contains(id));
        }
        if embedded_in_modifier(modifiers[count - 1]).contains(id) {
            assert(0 <= count - 1 < count);
        }
    }
}

/// What the arguments of bases embed, those of one of them embed.
proof fn lemma_base_args_embed(args: Seq<Option<Modifier>>, count: nat, id: usize)
    requires
        count <= args.len(),
    ensures
        embedded_in_base_args(args, count).contains(id) <==> exists|i: int|
            0 <= i < count && #[trigger] arguments_embed(args[i], id),
    decreases count,
{
    if count > 0 {
        lemma_base_args_embed(args, (count - 1) as nat, id);
        if embedded_in_base_args(args, (count - 1) as nat).contains(id) {
            let i = choose|i: int| 0 <= i < count - 1 && #[trigger] arguments_embed(args[i], id);
            assert(0 <= i < count && arguments_embed(args[i], id));
        }
        if arguments_embed(args[count - 1], id) {
            assert(0 <= count - 1 < count);
        }
    }
}

/// What functions embed, one of them embeds.
proof fn lemma_functions_embed(hir: Hir, base: Contract, count: nat, id: usize)
    requires
        count <= base.functions@.len(),
    ensures
        embedded_in_functions(hir, base, count).contains(id) <==> exists|i: int|
            0 <= i < count
                && #[trigger] embedded_in_function(
                hir,
                hir.functions@[base.functions@[i].0 as int],
            ).contains(id),
    decreases count,
{
    if count > 0 {
        lemma_functions_embed(hir, base, (count - 1) as nat, id);
        if embedded_in_functions(hir, base, (count - 1) as nat).contains(id) {
            let i = choose|i: int|
                0 <= i < count - 1
                    && #[trigger] embedded_in_function(
                    hir,
                    hir.functions@[base.functions@[i].0 as int],
                ).contains(id);
            let function = hir.functions@[base.functions@[i].0 as int];
            assert(0 <= i < count && embedded_in_function(hir, function).contains(id));
        }
        let last = hir.functions@[base.functions@[count - 1].0 as int];
        if embedded_in_function(hir, last).contains(id) {
            assert(0 <= count - 1 < count);
        }
    }
}

/// What bases embed, one of them embeds.
proof fn lemma_bases_embed(hir: Hir, contract: Contract, count: nat, id: usize)
    requires
        count <= contract.linearized_bases@.len(),
    ensures
        embedded_in_bases(hir, contract, count).contains(id) <==> exists|i: int|
            0 <= i < count
                && #[trigger] base_embeds(
                hir,
                hir.contracts@[contract.linearized_bases@[i].0 as int],
                id,
            ),
    decreases count,
{
    if count > 0 {
        lemma_bases_embed(hir, contract, (count - 1) as nat, id);
        if embedded_in_bases(hir, contract, (count - 1) as nat).contains(id) {
            let i = choose|i: int|
                0 <= i < count - 1
                    && #[trigger] base_embeds(
                    hir,
                    hir.contracts@[contract.linearized_bases@[i].0 as int],
                    id,
                );
            let base = hir.contracts@[contract.linearized_bases@[i].0 as int];
            assert(0 <= i < count && base_embeds(hir, base, id));
        }
        if base_embeds(hir, hir.contracts@[contract.linearized_bases@[count - 1].0 as int], id) {
            assert(0 <= count - 1 < count);
        }
    }
}

/// Whether a case embeds the code of a contract.
spec fn case_embeds(hir: Hir, case: SwitchCase, id: usize) -> bool {
    embedded_in_block(hir, case.body@, case.body@.len()).contains(id)
}

/// Whether a clause embeds the code of a contract.
spec fn clause_embeds(hir: Hir, clause: TryClause, id: usize) -> bool {
    embedded_in_variables(hir, clause.args@, clause.args@.len()).contains(id) || embedded_in_block(
        hir,
        clause.body@,
        clause.body@.len(),
    ).contains(id)
}

/// Whether a variable that may be declared embeds the code of a contract.
spec fn slot_embeds(hir: Hir, slot: Option<VariableId>, id: usize) -> bool {
    slot matches Some(var) && embedded_in_variable(hir, var).contains(id)
}

/// Whether the arguments of a base embed the code of a contract.
spec fn arguments_embed(args: Option<Modifier>, id: usize) -> bool {
    args matches Some(modifier) && embedded_in_modifier(modifier).contains(id)
}

/// Whether a base embeds the code of a contract.
spec fn base_embeds(hir: Hir, base: Contract, id: usize) -> bool {
    embedded_in_variables(hir, base.variables@, base.variables@.len()).contains(id)
        || embedded_in_functions(hir, base, base.functions@.len()).contains(id)
}

/// What stands in a statement, the statement embeds.
proof fn lemma_standing_embeds(hir: Hir, expr: Expr, stmt: Stmt, id: usize)
    requires
        stands_in(hir, expr, stmt),
        embedded_in(expr).contains(id),
    ensures
        embedded_in_stmt(hir, stmt).contains(id),
{
    match stmt {
        Stmt::DeclMulti(ids, init) => {
            lemma_slots_embed(hir, ids@, ids@.len(), id);
            if expr != init {
                let var = choose|var: VariableId|
                    #[trigger] ids@.contains(Some(var)) && is_initial(hir, var, expr);
                let i = choose|i: int| 0 <= i < ids@.len() && ids@[i] == Some(var);
                assert(slot_embeds(hir, ids@[i], id));
            }
        },
        Stmt::Try(own, clauses) => {
            lemma_clauses_embed(hir, clauses@, clauses@.len(), id);
            if expr != own {
                let (k, var) = choose|k: int, var: VariableId|
                    0 <= k < clauses@.len() && #[trigger] clauses@[k].args@.contains(var)
                        && is_initial(hir, var, expr);
                let args = clauses@[k].args@;
                lemma_variables_embed(hir, args, args.len(), id);
                let i = choose|i: int| 0 <= i < args.len() && args[i] == var;
                assert(embedded_in_variable(hir, args[i]).contains(id));
                assert(clause_embeds(hir, clauses@[k], id));
            }
        },
        _ => {},
    }
}

/// What a statement inside another embeds, the other embeds.
proof fn lemma_inside_embeds(hir: Hir, part: Stmt, whole: Stmt, id: usize)
    requires
        is_inside(part, whole),
        embedded_in_stmt(hir, part).contains(id),
    ensures
        embedded_in_stmt(hir, whole).contains(id),
{
    match whole {
        Stmt::Block(body) | Stmt::UncheckedBlock(body) | Stmt::AssemblyBlock(body) | Stmt::Loop(
            body,
            _,
        ) => {
            lemma_block_embeds(hir, body@, body@.len(), id);
            let i = choose|i: int| 0 <= i < body@.len() && body@[i] == part;
            assert(embedded_in_stmt(hir, body@[i]).contains(id));
        },
        Stmt::Switch(_, cases) => {
            lemma_cases_embed(hir, cases@, cases@.len(), id);
            let k = choose|k: int|
                0 <= k < cases@.len() && #[trigger] cases@[k].body@.contains(part);
            let body = cases@[k].body@;
            lemma_block_embeds(hir, body, body.len(), id);
            let i = choose|i: int| 0 <= i < body.len() && body[i] == part;
            assert(embedded_in_stmt(hir, body[i]).contains(id));
            assert(case_embeds(hir, cases@[k], id));
        },
        Stmt::Try(_, clauses) => {
            lemma_clauses_embed(hir, clauses@, clauses@.len(), id);
            let k = choose|k: int|
                0 <= k < clauses@.len() && #[trigger] clauses@[k].body@.contains(part);
            let body = clauses@[k].body@;
            lemma_block_embeds(hir, body, body.len(), id);
            let i = choose|i: int| 0 <= i < body.len() && body[i] == part;
            assert(embedded_in_stmt(hir, body[i]).contains(id));
            assert(clause_embeds(hir, clauses@[k], id));
        },
        _ => {},
    }
}

/// The code that an expression below a statement needs is found.
pub proof fn law_needed_code_below_is_found(
    hir: Hir,
    part: Expr,
    expr: Expr,
    stmt: Stmt,
    level: nat,
    depth: nat,
    id: usize,
)
    requires
        stands_below(hir, expr, stmt, level),
        occurs(part, expr, depth),
        needs_code(part, id),
    ensures
        embedded_in_stmt(hir, stmt).contains(id),
    decreases level,
{
    if level == 0 {
        law_needed_code_is_found(part, expr, depth, id);
        lemma_standing_embeds(hir, expr, stmt, id);
    } else {
        let mid = choose|mid: Stmt| #[trigger]
            is_inside(mid, stmt) && stands_below(hir, expr, mid, (level - 1) as nat);
        law_needed_code_below_is_found(hir, part, expr, mid, (level - 1) as nat, depth, id);
        lemma_inside_embeds(hir, mid, stmt, id);
    }
}

/// The code that is found in a statement is needed by an expression below it.
pub proof fn law_found_code_below_is_needed(hir: Hir, stmt: Stmt, id: usize) -> (r: (
    Expr,
    nat,
    Expr,
    nat,
))
    requires
        embedded_in_stmt(hir, stmt).contains(id),
    ensures
        stands_below(hir, r.0, stmt, r.1),
        occurs(r.2, r.0, r.3),
        needs_code(r.2, id),
    decreases stmt, 1nat,
{
    // Either a statement inside it, or an expression that stands in it.
    let (mid, own_expr): (Option<Stmt>, Option<Expr>) = match stmt {
        Stmt::DeclSingle(var) => (None, Some(hir.variables@[var.0 as int].initializer->0)),
        Stmt::DeclMulti(ids, init) => {
            lemma_slots_embed(hir, ids@, ids@.len(), id);
            if embedded_in(init).contains(id) {
                (None, Some(init))
            } else {
                let i = choose|i: int|
                    0 <= i < ids@.len() && #[trigger] slot_embeds(hir, ids@[i], id);
                let var = ids@[i]->0;
                assert(ids@.contains(Some(var)));
                (None, Some(hir.variables@[var.0 as int].initializer->0))
            }
        },
        Stmt::Expr(own) | Stmt::Revert(own) | Stmt::Emit(own) => (None, Some(own)),
        Stmt::Return(own) => (None, Some(own->0)),
        Stmt::Block(body) | Stmt::UncheckedBlock(body) | Stmt::AssemblyBlock(body) | Stmt::Loop(
            body,
            _,
        ) => {
            lemma_block_embeds(hir, body@, body@.len(), id);
            let i = choose|i: int|
                0 <= i < body@.len() && #[trigger] embedded_in_stmt(hir, body@[i]).contains(id);
            (Some(body@[i]), None)
        },
        Stmt::If(cond, then_stmt, else_stmt) => if embedded_in(cond).contains(id) {
            (None, Some(cond))
        } else if embedded_in_stmt(hir, *then_stmt).contains(id) {
            (Some(*then_stmt), None)
        } else {
            (Some(*(else_stmt->0)), None)
        },
        Stmt::Switch(selector, cases) => {
            lemma_cases_embed(hir, cases@, cases@.len(), id);
            if embedded_in(selector).contains(id) {
                (None, Some(selector))
            } else {
                let k = choose|k: int|
                    0 <= k < cases@.len() && #[trigger] case_embeds(hir, cases@[k], id);
                let body = cases@[k].body@;
                lemma_block_embeds(hir, body, body.len(), id);
                let i = choose|i: int|
                    0 <= i < body.len() && #[trigger] embedded_in_stmt(hir, body[i]).contains(id);
                assert(cases@[k].body@.contains(body[i]));
                (Some(body[i]), None)
            }
        },
        Stmt::Try(own, clauses) => {
            lemma_clauses_embed(hir, clauses@, clauses@.len(), id);
            if embedded_in(own).contains(id) {
                (None, Some(own))
            } else {
                let k = choose|k: int|
                    0 <= k < clauses@.len() && #[trigger] clause_embeds(hir, clauses@[k], id);
                let args = clauses@[k].args@;
                let body = clauses@[k].body@;
                lemma_variables_embed(hir, args, args.len(), id);
                lemma_block_embeds(hir, body, body.len(), id);
                if embedded_in_variables(hir, args, args.len()).contains(id) {
                    let i = choose|i: int|
                        0 <= i < args.len() && #[trigger] embedded_in_variable(
                            hir,
                            args[i],
                        ).contains(id);
                    assert(clauses@[k].args@.contains(args[i]));
                    (None, Some(hir.variables@[args[i].0 as int].initializer->0))
                } else {
                    let i = choose|i: int|
                        0 <= i < body.len() && #[trigger] embedded_in_stmt(hir, body[i]).contains(
                            id,
                        );
                    assert(clauses@[k].body@.contains(body[i]));
                    (Some(body[i]), None)
                }
            }
        },
        _ => (None, None),
    };
    match mid {
        Some(inner) => {
            assert(is_inside(inner, stmt) && embedded_in_stmt(hir, inner).contains(id));
            assert(decreases_to!(stmt => inner));
            let (found, level, part, depth) = law_found_code_below_is_needed(hir, inner, id);
            assert(stands_below(hir, found, stmt, level + 1));
            (found, level + 1, part, depth)
        },
        None => {
            let expr = own_expr->0;
            assert(stands_in(hir, expr, stmt) && embedded_in(expr).contains(id));
            let (part, depth) = law_found_code_is_needed(expr, id);
            (expr, 0, part, depth)
        },
    }
}

/// Whether an expression stands somewhere in a contract: among the arguments of
/// its bases, or in itself or one of its bases, as an initial value of a state
/// variable, as an argument of a modifier of a function or in the body of one.
pub open spec fn stands_in_contract(hir: Hir, expr: Expr, contract: Contract, level: nat) -> bool {
    ||| exists|i: int|
        0 <= i < contract.base_args@.len() && #[trigger] has_argument(
            contract.base_args@[i],
            expr,
        )
    ||| exists|i: int|
        0 <= i < contract.linearized_bases@.len() && #[trigger] stands_in_base(
            hir,
            expr,
            hir.contracts@[contract.linearized_bases@[i].0 as int],
            level,
        )
}

/// Whether an expression is an argument of a modifier that is there.
pub open spec fn has_argument(modifier: Option<Modifier>, expr: Expr) -> bool {
    modifier matches Some(modifier) && is_argument(modifier, expr)
}

/// Whether an expression is an argument of a modifier.
pub open spec fn is_argument(modifier: Modifier, expr: Expr) -> bool {
    modifier.args matches Some(args) && args@.contains(expr)
}

/// Whether an expression stands in a base itself.
pub open spec fn stands_in_base(hir: Hir, expr: Expr, base: Contract, level: nat) -> bool {
    ||| exists|i: int|
        0 <= i < base.variables@.len() && #[trigger] is_initial(hir, base.variables@[i], expr)
    ||| exists|i: int|
        0 <= i < base.functions@.len() && #[trigger] stands_in_function(
            hir,
            expr,
            hir.functions@[base.functions@[i].0 as int],
            level,
        )
}

/// Whether an expression stands in a function.
pub open spec fn stands_in_function(hir: Hir, expr: Expr, func: HirFunction, level: nat) -> bool {
    ||| exists|i: int|
        0 <= i < func.modifiers@.len() && #[trigger] is_argument(func.modifiers@[i], expr)
    ||| exists|i: int|
        func.body is Some && 0 <= i < func.body->0@.len() && #[trigger] stands_below(
            hir,
            expr,
            func.body->0@[i],
            level,
        )
}

/// What an argument of a modifier embeds, the modifier embeds.
proof fn lemma_argument_embeds(modifier: Modifier, expr: Expr, id: usize)
    requires
        is_argument(modifier, expr),
        embedded_in(expr).contains(id),
    ensures
        embedded_in_modifier(modifier).contains(id),
{
    let args = modifier.args->0@;
    lemma_all_embed(args, args.len(), id);
    let i = choose|i: int| 0 <= i < args.len() && args[i] == expr;
    assert(embedded_in(args[i]).contains(id));
}

/// The code that any expression in a contract needs is one of its dependencies.
pub proof fn law_needed_code_is_a_dependency(
    hir: Hir,
    contract: Contract,
    part: Expr,
    expr: Expr,
    level: nat,
    depth: nat,
    id: usize,
)
    requires
        stands_in_contract(hir, expr, contract, level),
        occurs(part, expr, depth),
        needs_code(part, id),
    ensures
        bytecode_dependencies(hir, contract).contains(id),
{
    law_needed_code_is_found(part, expr, depth, id);
    if exists|i: int|
        0 <= i < contract.base_args@.len() && #[trigger] has_argument(
            contract.base_args@[i],
            expr,
        ) {
        let i = choose|i: int|
            0 <= i < contract.base_args@.len() && #[trigger] has_argument(
                contract.base_args@[i],
                expr,
            );
        lemma_argument_embeds(contract.base_args@[i]->0, expr, id);
        lemma_base_args_embed(contract.base_args@, contract.base_args@.len(), id);
        assert(arguments_embed(contract.base_args@[i], id));
    } else {
        let k = choose|i: int|
            0 <= i < contract.linearized_bases@.len() && #[trigger] stands_in_base(
                hir,
                expr,
                hir.contracts@[contract.linearized_bases@[i].0 as int],
                level,
            );
        let base = hir.contracts@[contract.linearized_bases@[k].0 as int];
        lemma_bases_embed(hir, contract, contract.linearized_bases@.len(), id);
        if exists|i: int|
            0 <= i < base.variables@.len() && #[trigger] is_initial(
                hir,
                base.variables@[i],
                expr,
            ) {
            let i = choose|i: int|
                0 <= i < base.variables@.len() && #[trigger] is_initial(
                    hir,
                    base.variables@[i],
                    expr,
                );
            lemma_variables_embed(hir, base.variables@, base.variables@.len(), id);
            assert(embedded_in_variable(hir, base.variables@[i]).contains(id));
        } else {
            let n = choose|i: int|
                0 <= i < base.functions@.len() && #[trigger] stands_in_function(
                    hir,
                    expr,
                    hir.functions@[base.functions@[i].0 as int],
                    level,
                );
            let func = hir.functions@[base.functions@[n].0 as int];
            lemma_functions_embed(hir, base, base.functions@.len(), id);
            if exists|i: int|
                0 <= i < func.modifiers@.len() && #[trigger] is_argument(
                    func.modifiers@[i],
                    expr,
                ) {
                let i = choose|i: int|
                    0 <= i < func.modifiers@.len() && #[trigger] is_argument(
                        func.modifiers@[i],
                        expr,
                    );
                lemma_argument_embeds(func.modifiers@[i], expr, id);
                lemma_modifiers_embed(func.modifiers@, func.modifiers@.len(), id);
                assert(embedded_in_modifier(func.modifiers@[i]).contains(id));
            } else {
                let body = func.body->0@;
                let i = choose|i: int|
                    func.body is Some && 0 <= i < func.body->0@.len() && #[trigger] stands_below(
                        hir,
                        expr,
                        func.body->0@[i],
                        level,
                    );
                law_needed_code_below_is_found(hir, part, expr, body[i], level, depth, id);
                lemma_block_embeds(hir, body, body.len(), id);
                assert(embedded_in_stmt(hir, body[i]).contains(id));
            }
            assert(embedded_in_function(
                hir,
                hir.functions@[base.functions@[n].0 as int],
            ).contains(id));
        }
        assert(base_embeds(
            hir,
            hir.contracts@[contract.linearized_bases@[k].0 as int],
            id,
        ));
    }
}

/// A list of a modifier embeds what one of its arguments embeds.
proof fn lemma_modifier_argument(modifier: Modifier, id: usize) -> (expr: Expr)
    requires
        embedded_in_modifier(modifier).contains(id),
    ensures
        is_argument(modifier, expr),
        embedded_in(expr).contains(id),
{
    let args = modifier.args->0@;
    lemma_all_embed(args, args.len(), id);
    let i = choose|i: int| 0 <= i < args.len() && #[trigger] embedded_in(args[i]).contains(id);
    args[i]
}

/// Every dependency of a contract is needed by an expression in it.
pub proof fn law_dependencies_are_needed(hir: Hir, contract: Contract, id: usize) -> (r: (
    Expr,
    nat,
    Expr,
    nat,
))
    requires
        bytecode_dependencies(hir, contract).contains(id),
    ensures
        stands_in_contract(hir, r.0, contract, r.1),
        occurs(r.2, r.0, r.3),
        needs_code(r.2, id),
{
    lemma_base_args_embed(contract.base_args@, contract.base_args@.len(), id);
    lemma_bases_embed(hir, contract, contract.linearized_bases@.len(), id);
    if embedded_in_base_args(contract.base_args@, contract.base_args@.len()).contains(id) {
        let i = choose|i: int|
            0 <= i < contract.base_args@.len() && #[trigger] arguments_embed(
                contract.base_args@[i],
                id,
            );
        let expr = lemma_modifier_argument(contract.base_args@[i]->0, id);
        assert(has_argument(contract.base_args@[i], expr));
        let (part, depth) = law_found_code_is_needed(expr, id);
        (expr, 0, part, depth)
    } else {
        let k = choose|i: int|
            0 <= i < contract.linearized_bases@.len() && #[trigger] base_embeds(
                hir,
                hir.contracts@[contract.linearized_bases@[i].0 as int],
                id,
            );
        let base = hir.contracts@[contract.linearized_bases@[k].0 as int];
        lemma_variables_embed(hir, base.variables@, base.variables@.len(), id);
        lemma_functions_embed(hir, base, base.functions@.len(), id);
        let (expr, level, part, depth) = if embedded_in_variables(
            hir,
            base.variables@,
            base.variables@.len(),
        ).contains(id) {
            let i = choose|i: int|
                0 <= i < base.variables@.len() && #[trigger] embedded_in_variable(
                    hir,
                    base.variables@[i],
                ).contains(id);
            let expr = hir.variables@[base.variables@[i].0 as int].initializer->0;
            assert(is_initial(hir, base.variables@[i], expr));
            let (part, depth) = law_found_code_is_needed(expr, id);
            (expr, 0nat, part, depth)
        } else {
            let n = choose|i: int|
                0 <= i < base.functions@.len() && #[trigger] embedded_in_function(
                    hir,
                    hir.functions@[base.functions@[i].0 as int],
                ).contains(id);
            let func = hir.functions@[base.functions@[n].0 as int];
            lemma_modifiers_embed(func.modifiers@, func.modifiers@.len(), id);
            let (expr, level, part, depth) = if embedded_in_modifiers(
                func.modifiers@,
                func.modifiers@.len(),
            ).contains(id) {
                let i = choose|i: int|
                    0 <= i < func.modifiers@.len() && #[trigger] embedded_in_modifier(
                        func.modifiers@[i],
                    ).contains(id);
                let expr = lemma_modifier_argument(func.modifiers@[i], id);
                let (part, depth) = law_found_code_is_needed(expr, id);
                (expr, 0nat, part, depth)
            } else {
                let body = func.body->0@;
                lemma_block_embeds(hir, body, body.len(), id);
                let i = choose|i: int|
                    0 <= i < body.len() && #[trigger] embedded_in_stmt(hir, body[i]).contains(id);
                law_found_code_below_is_needed(hir, body[i], id)
            };
            assert(stands_in_function(
                hir,
                expr,
                hir.functions@[base.functions@[n].0 as int],
                level,
            ));
            (expr, level, part, depth)
        };
        assert(stands_in_base(
            hir,
            expr,
            hir.contracts@[contract.linearized_bases@[k].0 as int],
            level,
        ));
        (expr, level, part, depth)
    }
}

} // verus!
