//! The plans of statements, effects and whole functions leave the stack as it
//! was.

use crate::hir::{
    contract_fits, has_contracts, hir_wf, ContractId, Expr, ExprKind, Hir, HirFunction, LoopSource,
    Stmt, StructId, SwitchCase, TryClause, VariableId,
};
use crate::lower::construct::{
    argument_tasks, base_argument_tasks, base_body_tasks, base_resolved, bases_argument_tasks,
    bases_resolved, construction_tasks, constructor_arguments, constructor_parameters, forget_task,
    initializer_tasks, is_resolved, lemma_distinct_contracts, lemma_providers_declared,
    parameter_count, passed_modifier, provider_of, providers_declared, state_tasks,
    synthetic_constructor_tasks, BaseArguments,
};
use crate::lower::effects::{
    all_have, changed, effect, group_standings, have_effect, layer, lemma_standing_drops,
    lemma_standing_pushes, lemma_standing_still, of, standing_after, standing_to, Layer, Standing,
};
use crate::lower::inherit::all_variables;
use crate::lower::plan::Task;
use crate::lower::plan_function::{
    body_of, body_tasks, end_tasks, entry_tasks, field_tasks, fields_tasks, function_tasks,
    loaded_result, param_shape, param_tasks, params_tasks, prelude_tasks, reserve_tasks,
    result_types, Convention, ParamShape,
};
use crate::lower::plan_stmt::{
    block_tasks, case_tasks, checked_tasks, declaration_tasks, delete_tasks, discards, effect_tasks,
    element_assigns, element_effects, element_values, for_tasks, given_elements, initial_task,
    loop_tasks, low_level_assigns, low_level_bindings, multi_declaration_tasks, plain_effect_tasks,
    statement_tasks, stmt_tasks, try_tasks, tuple_assign_tasks, tuple_of, tuple_value_tasks,
    unit_tasks,
};
use crate::lower::state::{Complaint, Lowerer};
use crate::mir::types::Span;
use vstd::prelude::*;

verus! {

/// Checks around a plan do not change what it does to the stack.
pub proof fn law_checks_keep_the_effect<'t>(
    hir: Hir,
    checks: bool,
    expr: Expr,
    tasks: Seq<Task<'t>>,
)
    requires
        have_effect(hir, tasks, of(0, 1)),
    ensures
        have_effect(hir, checked_tasks(checks, expr, tasks), of(0, 1)),
{
    broadcast use group_standings;

}

/// The plan of `delete` leaves the stack as it was.
proof fn lemma_delete_effect<'t>(lowerer: Lowerer, hir: Hir, target: Expr)
    ensures
        have_effect(hir, delete_tasks::<'t>(lowerer, hir, target), of(0, 0)),
{
    broadcast use group_standings;

    reveal_with_fuel(standing_to, 3);
}

/// The effects of the elements of a tuple leave the stack as it was.
proof fn lemma_element_effects_effect<'t>(hir: Hir, elements: Seq<Option<Expr>>, count: nat)
    ensures
        have_effect(hir, element_effects::<'t>(elements, count), of(0, 0)),
    decreases count,
{
    broadcast use group_standings;

    if count > 0 && count <= elements.len() {
        lemma_element_effects_effect(hir, elements, (count - 1) as nat);
    }
}

/// The plan of an expression that yields nothing leaves the stack as it was.
#[verifier::rlimit(60)]
proof fn lemma_unit_effect<'t>(lowerer: Lowerer, hir: Hir, expr: Expr)
    ensures
        have_effect(hir, unit_tasks::<'t>(lowerer, hir, expr), of(0, 0)),
{
    broadcast use group_standings;

    reveal_with_fuel(standing_to, 7);
    match expr.kind {
        ExprKind::Delete(target) => {
            lemma_delete_effect(lowerer, hir, *target);
        },
        ExprKind::Tuple(elements) => {
            lemma_element_effects_effect(hir, elements@, elements@.len());
        },
        _ => {},
    }
}

/// The plan of an expression for its effects leaves the stack as it was, and no
/// task of it runs short.
#[verifier::rlimit(40)]
pub proof fn law_effect_plans_leave_the_stack<'t>(lowerer: Lowerer, hir: Hir, expr: Expr)
    ensures
        have_effect(hir, effect_tasks::<'t>(lowerer, hir, expr), of(0, 0)),
{
    broadcast use group_standings;

    reveal_with_fuel(standing_to, 3);
    lemma_unit_effect(lowerer, hir, expr);
    assert(have_effect(hir, plain_effect_tasks::<'t>(lowerer, hir, expr), of(0, 0)));
}

/// The plan of a declaration leaves the stack as it was.
#[verifier::rlimit(80)]
proof fn lemma_declaration_effect<'t>(lowerer: Lowerer, hir: Hir, id: VariableId)
    ensures
        have_effect(hir, declaration_tasks::<'t>(lowerer, hir, id), of(0, 0)),
{
    broadcast use group_standings;

    reveal_with_fuel(standing_to, 4);
    assert(effect(hir, initial_task::<'t>(hir.variables@[id.0 as int], id)) == of(0, 1));
}

/// The elements of a tuple leave a value each.
proof fn lemma_element_values_effect<'t>(hir: Hir, elements: Seq<Option<Expr>>, count: nat)
    requires
        count <= elements.len(),
    ensures
        have_effect(hir, element_values::<'t>(elements, count), of(0, count)),
    decreases count,
{
    broadcast use group_standings;

    if count > 0 {
        lemma_element_values_effect(hir, elements, (count - 1) as nat);
    }
}

/// Values are dropped one by one.
proof fn lemma_discards_effect<'t>(hir: Hir, count: nat)
    ensures
        have_effect(hir, discards::<'t>(count), of(count, 0)),
{
    reveal(standing_after);
    assert forall|from: Standing| count <= from.height implies #[trigger] standing_after(
        hir,
        discards::<'t>(count),
        from,
    ) == Some(changed(from, of(count, 0))) by {
        lemma_standing_drops(hir, discards::<'t>(count), count, from);
    }
}

/// No more elements come before the first omitted one than there are.
proof fn lemma_given_elements(elements: Seq<Option<Expr>>, from: nat)
    requires
        from <= elements.len(),
    ensures
        given_elements(elements, from) <= elements.len(),
    decreases elements.len() - from,
{
    if from < elements.len() {
        lemma_given_elements(elements, from + 1);
    }
}

/// The plan that evaluates a tuple leaves the stack as it was if what follows
/// uses all the values up.
proof fn lemma_tuple_value_effect<'t>(
    hir: Hir,
    elements: Seq<Option<Expr>>,
    targets: nat,
    complaint: Complaint,
    span: Span,
    rest: Seq<Task<'t>>,
)
    requires
        have_effect(hir, rest, of(targets, 0)),
    ensures
        have_effect(
            hir,
            tuple_value_tasks(elements, targets, complaint, span, rest),
            of(0, 0),
        ),
{
    broadcast use group_standings;

    let given = given_elements(elements, 0);
    lemma_given_elements(elements, 0);
    lemma_element_values_effect(hir, elements, given);
    lemma_discards_effect(hir, given);
}

/// The variables bound to the results of a low-level call leave whether it
/// succeeded.
proof fn lemma_low_level_bindings_effect<'t>(
    hir: Hir,
    ids: Seq<Option<VariableId>>,
    count: nat,
)
    ensures
        have_effect(hir, low_level_bindings::<'t>(ids, count), of(1, 1)),
    decreases count,
{
    broadcast use group_standings;

    reveal_with_fuel(standing_to, 3);
    if count > 0 && count <= ids.len() {
        lemma_low_level_bindings_effect(hir, ids, (count - 1) as nat);
    }
}

/// The plan of a declaration of several variables leaves the stack as it was.
proof fn lemma_multi_declaration_effect<'t>(hir: Hir, ids: Vec<Option<VariableId>>, init: Expr)
    ensures
        have_effect(hir, multi_declaration_tasks::<'t>(ids, init), of(0, 0)),
{
    broadcast use group_standings;

    reveal_with_fuel(standing_to, 4);
    match tuple_of(init) {
        Some(elements) => {
            lemma_tuple_value_effect(
                hir,
                elements@,
                ids@.len(),
                Complaint::DeclarationArity,
                init.span,
                seq![Task::<'t>::BindLocals(&ids)],
            );
        },
        None => {
            lemma_low_level_bindings_effect(hir, ids@, ids@.len());
        },
    }
}

/// Assigning to the elements of a tuple keeps the values.
proof fn lemma_element_assigns_effect<'t>(hir: Hir, elements: Seq<Option<Expr>>, count: nat)
    requires
        elements.len() <= usize::MAX,
    ensures
        have_effect(
            hir,
            element_assigns::<'t>(elements, count),
            of(elements.len(), elements.len()),
        ),
    decreases count,
{
    broadcast use group_standings;

    reveal_with_fuel(standing_to, 3);
    if count > 0 && count <= elements.len() {
        lemma_element_assigns_effect(hir, elements, (count - 1) as nat);
    }
}

/// Assigning the results of a low-level call keeps whether it succeeded.
proof fn lemma_low_level_assigns_effect<'t>(hir: Hir, elements: Seq<Option<Expr>>, count: nat)
    ensures
        have_effect(hir, low_level_assigns::<'t>(elements, count), of(1, 1)),
    decreases count,
{
    broadcast use group_standings;

    reveal_with_fuel(standing_to, 3);
    if count > 0 && count <= elements.len() {
        lemma_low_level_assigns_effect(hir, elements, (count - 1) as nat);
    }
}

/// The plan of a tuple assignment leaves the stack as it was, and no task of it
/// runs short.
pub proof fn law_tuple_assign_plans_leave_the_stack<'t>(
    hir: Hir,
    elements: Vec<Option<Expr>>,
    rhs: Expr,
)
    ensures
        have_effect(hir, tuple_assign_tasks::<'t>(elements, rhs), of(0, 0)),
{
    broadcast use group_standings;

    reveal_with_fuel(standing_to, 4);
    match tuple_of(rhs) {
        Some(values) => {
            assert(elements.len() <= usize::MAX);
            lemma_element_assigns_effect(hir, elements@, elements@.len());
            lemma_discards_effect(hir, elements@.len());
            lemma_tuple_value_effect(
                hir,
                values@,
                elements@.len(),
                Complaint::AssignmentArity,
                rhs.span,
                element_assigns::<'t>(elements@, elements@.len()) + discards::<'t>(
                    elements@.len(),
                ),
            );
        },
        None => {
            lemma_low_level_assigns_effect(hir, elements@, elements@.len());
        },
    }
}

/// Statements leave the stack as it was.
proof fn lemma_statement_effect<'t>(hir: Hir, body: Seq<Stmt>, count: nat)
    ensures
        have_effect(hir, statement_tasks::<'t>(body, count), of(0, 0)),
    decreases count,
{
    broadcast use group_standings;

    if count > 0 && count <= body.len() {
        lemma_statement_effect(hir, body, (count - 1) as nat);
    }
}

/// The plan of a `for` loop leaves the stack as it was.
proof fn lemma_for_effect<'t>(
    hir: Hir,
    cond: Expr,
    inner: Seq<Stmt>,
    else_stmt: Option<Box<Stmt>>,
)
    ensures
        have_effect(hir, for_tasks::<'t>(cond, inner, else_stmt), of(0, 0)),
{
    broadcast use group_standings;

    reveal_with_fuel(standing_to, 5);
    lemma_statement_effect(hir, inner, (inner.len() - 1) as nat);
}

/// The plan of a loop leaves the stack as it was.
proof fn lemma_loop_effect<'t>(hir: Hir, body: Vec<Stmt>, source: LoopSource)
    ensures
        have_effect(hir, loop_tasks::<'t>(body, source), of(0, 0)),
{
    broadcast use group_standings;

    reveal_with_fuel(standing_to, 4);
    if let Stmt::If(cond, then_stmt, else_stmt) = body@[0] {
        if let Stmt::Block(inner) = *then_stmt {
            lemma_for_effect(hir, cond, inner@, else_stmt);
        }
    }
}

/// The cases of a switch leave all as it was.
proof fn lemma_case_effect<'t>(hir: Hir, cases: Seq<SwitchCase>, count: nat)
    ensures
        forall|from: Standing|
            layer(from.within) == Some(Layer::Switch) ==> #[trigger] standing_after(
                hir,
                case_tasks::<'t>(cases, count),
                from,
            ) == Some(from),
    decreases count,
{
    broadcast use group_standings;

    reveal_with_fuel(standing_to, 4);
    if count > 0 && count <= cases.len() {
        lemma_case_effect(hir, cases, (count - 1) as nat);
    }
}

/// The plan of a try statement leaves the stack as it was.
proof fn lemma_try_effect<'t>(hir: Hir, expr: Expr, clauses: Vec<TryClause>)
    ensures
        have_effect(hir, try_tasks::<'t>(expr, clauses), of(0, 0)),
{
    broadcast use group_standings;

    reveal_with_fuel(standing_to, 4);
}

/// The plan of a statement leaves the stack as it was, and no task of it runs
/// short.
#[verifier::rlimit(80)]
pub proof fn law_statement_plans_leave_the_stack<'t>(lowerer: Lowerer, hir: Hir, stmt: Stmt)
    ensures
        have_effect(hir, stmt_tasks::<'t>(lowerer, hir, stmt), of(0, 0)),
{
    broadcast use group_standings;

    reveal_with_fuel(standing_to, 7);
    match stmt {
        Stmt::DeclSingle(id) => {
            lemma_declaration_effect(lowerer, hir, id);
        },
        Stmt::DeclMulti(ids, init) => {
            lemma_multi_declaration_effect(hir, ids, init);
        },
        Stmt::Loop(body, source) => {
            lemma_loop_effect(hir, body, source);
        },
        Stmt::Switch(_, cases) => {
            lemma_case_effect(hir, cases@, cases@.len());
        },
        Stmt::Try(expr, clauses) => {
            lemma_try_effect(hir, expr, clauses);
        },
        _ => {},
    }
}

/// The plan of the statements of a block leaves the stack as it was.
pub proof fn law_block_plans_leave_the_stack<'t>(
    lowerer: Lowerer,
    hir: Hir,
    body: Vec<Stmt>,
    index: nat,
)
    ensures
        have_effect(hir, block_tasks::<'t>(lowerer, hir, body, index), of(0, 0)),
{
    broadcast use group_standings;

    reveal_with_fuel(standing_to, 3);
}

/// The fields of a struct parameter are stored to the object at the top.
proof fn lemma_fields_effect<'t>(hir: Hir, id: StructId, count: nat)
    ensures
        have_effect(hir, fields_tasks::<'t>(hir, id, count), of(1, 1)),
    decreases count,
{
    broadcast use group_standings;

    reveal_with_fuel(standing_to, 4);
    if count > 0 {
        lemma_fields_effect(hir, id, (count - 1) as nat);
        let fields = hir.structs@[id.0 as int].fields@;
        assert(have_effect(
            hir,
            field_tasks::<'t>(
                hir.variables@[fields[count - 1].0 as int],
                fields.len() as u64,
                (count - 1) as u64,
            ),
            of(1, 1),
        ));
    }
}

/// The plan of a parameter leaves the stack as it was.
proof fn lemma_param_effect<'t>(hir: Hir, id: VariableId, decodes: bool)
    ensures
        have_effect(hir, param_tasks::<'t>(hir, id, decodes), of(0, 0)),
{
    broadcast use group_standings;

    reveal_with_fuel(standing_to, 5);
    if let ParamShape::Struct(struct_id) =
        param_shape(hir.variables@[id.0 as int], decodes) {
        lemma_fields_effect(hir, struct_id, hir.structs@[struct_id.0 as int].fields@.len());
    }
}

/// The plans of parameters, results and their places leave the stack as it was.
proof fn lemma_params_effect<'t>(
    hir: Hir,
    ids: Seq<VariableId>,
    decodes: bool,
    body: Option<&'t Vec<Stmt>>,
    count: nat,
)
    ensures
        have_effect(hir, params_tasks::<'t>(hir, ids, decodes, count), of(0, 0)),
        have_effect(hir, result_types::<'t>(hir, ids, count), of(0, 0)),
        have_effect(hir, reserve_tasks(hir, ids, body, count), of(0, 0)),
    decreases count,
{
    broadcast use group_standings;

    if count > 0 {
        lemma_params_effect(hir, ids, decodes, body, (count - 1) as nat);
        lemma_param_effect(hir, ids[count - 1], decodes);
    }
}

/// The plan of a function leaves the stack as it was, and no task of it runs
/// short.
pub proof fn law_function_plans_leave_the_stack<'t>(
    hir: Hir,
    func: HirFunction,
    convention: Convention,
)
    ensures
        have_effect(hir, function_tasks::<'t>(hir, func, convention), of(0, 0)),
{
    broadcast use group_standings;

    let body = body_of::<'t>(func);
    lemma_params_effect(
        hir,
        func.parameters@,
        convention.decodes_params,
        body,
        func.parameters@.len(),
    );
    lemma_params_effect(
        hir,
        func.results@,
        convention.decodes_params,
        body,
        func.results@.len(),
    );
    assert(have_effect(hir, entry_tasks::<'t>(hir, func, convention), of(0, 0)));
    assert(have_effect(hir, prelude_tasks::<'t>(func), of(0, 0)));
    assert(have_effect(hir, body_tasks::<'t>(func), of(0, 0)));
}

/// The plan of the end of a function leaves the stack as it was.
pub proof fn law_end_plans_leave_the_stack<'t>(
    lowerer: Lowerer,
    hir: Hir,
    results: Vec<VariableId>,
)
    ensures
        have_effect(hir, end_tasks::<'t>(lowerer, results), of(0, 0)),
{
    broadcast use group_standings;

    let loads = results@.map_values(|id: VariableId| loaded_result::<'t>(lowerer, id));
    assert(all_have(hir, loads, of(0, 1)));
    assert forall|from: Standing| #[trigger]
        standing_after(hir, loads, from) == Some(changed(from, of(0, loads.len()))) by {
        reveal(standing_after);
        lemma_standing_pushes(hir, loads, loads.len(), from);
    }
}

/// The initial values of state variables leave the stack as it was.
proof fn lemma_state_effect<'t>(lowerer: Lowerer, hir: Hir, ids: Seq<VariableId>, count: nat)
    ensures
        have_effect(hir, state_tasks::<'t>(lowerer, hir, ids, count), of(0, 0)),
    decreases count,
{
    broadcast use group_standings;

    reveal_with_fuel(standing_to, 3);
    if count > 0 {
        lemma_state_effect(lowerer, hir, ids, (count - 1) as nat);
        assert(have_effect(
            hir,
            initializer_tasks::<'t>(
                lowerer,
                ids[count - 1],
                hir.variables@[ids[count - 1].0 as int].initializer->0,
            ),
            of(0, 0),
        ));
    }
}

/// The arguments of a base leave a value each.
proof fn lemma_argument_effect<'t>(
    hir: Hir,
    parameters: Seq<VariableId>,
    args: Seq<Expr>,
    count: nat,
)
    ensures
        have_effect(hir, argument_tasks::<'t>(parameters, args, count), of(0, count)),
    decreases count,
{
    broadcast use group_standings;

    reveal_with_fuel(standing_to, 3);
    if count > 0 {
        lemma_argument_effect(hir, parameters, args, (count - 1) as nat);
    }
}

/// Whether every base to which nothing is passed needs nothing.
pub open spec fn unprovided_empty(hir: Hir, done: Seq<BaseArguments>) -> bool {
    forall|i: int|
        0 <= i < done.len() ==> ((#[trigger] done[i]).provider is None ==> parameter_count(
            hir,
            done[i].base,
        ) == 0)
}

/// Resolving a base keeps it so that bases to which nothing is passed need
/// nothing.
proof fn lemma_unprovided_base(
    hir: Hir,
    contract: ContractId,
    base: ContractId,
    done: Seq<BaseArguments>,
    active: Seq<ContractId>,
)
    requires
        unprovided_empty(hir, done),
        active.no_duplicates(),
        has_contracts(hir, active),
        base.0 < hir.contracts@.len(),
        providers_declared(hir, contract),
    ensures
        unprovided_empty(hir, base_resolved(hir, contract, base, done, active).0),
    decreases hir.contracts@.len() - active.len(),
{
    if !is_resolved(done, base) && !active.contains(base) {
        if let Some(provider) = provider_of(hir, contract, base) {
            lemma_distinct_contracts(hir, active, base);
            if provider.0 != contract && hir.contracts@[provider.0.0 as int].ctor is Some {
                assert(active.push(base).no_duplicates());
                lemma_unprovided_base(hir, contract, provider.0, done, active.push(base));
            }
        }
    }
}

/// Bases to which nothing is passed need nothing.
proof fn lemma_unprovided(hir: Hir, contract: ContractId, count: nat)
    requires
        hir_wf(hir),
        contract.0 < hir.contracts@.len(),
        count <= hir.contracts@[contract.0 as int].linearized_bases@.len(),
    ensures
        unprovided_empty(hir, bases_resolved(hir, contract, count).0),
    decreases count,
{
    lemma_providers_declared(hir, contract);
    reveal(hir_wf);
    assert(contract_fits(hir, hir.contracts@[contract.0 as int]));
    if count > 1 {
        lemma_unprovided(hir, contract, (count - 1) as nat);
        let bases = hir.contracts@[contract.0 as int].linearized_bases@;
        assert(bases[count - 1].0 < hir.contracts@.len());
        lemma_unprovided_base(
            hir,
            contract,
            bases[count - 1],
            bases_resolved(hir, contract, (count - 1) as nat).0,
            Seq::empty(),
        );
    }
}

/// The arguments of bases are all taken.
proof fn lemma_bases_argument_effect<'t>(hir: Hir, done: Seq<BaseArguments>, count: nat)
    requires
        unprovided_empty(hir, done),
        count <= done.len(),
    ensures
        have_effect(hir, bases_argument_tasks::<'t>(hir, done, count), of(0, 0)),
    decreases count,
{
    broadcast use group_standings;

    if count > 0 {
        lemma_bases_argument_effect(hir, done, (count - 1) as nat);
        let arguments = done[count - 1];
        let parameters = constructor_parameters(hir, arguments.base);
        if let Some(ctor) = hir.contracts@[arguments.base.0 as int].ctor {
            assert(hir.functions@[ctor.0 as int].parameters.len() <= usize::MAX);
        }
        if let Some(provider) = arguments.provider {
            lemma_argument_effect(
                hir,
                parameters,
                (passed_modifier(hir, provider).args->0)@,
                parameters.len(),
            );
        }
        assert(have_effect(hir, base_argument_tasks::<'t>(hir, arguments), of(0, 0)));
    }
}

/// The constructors of the bases leave the stack as it was.
proof fn lemma_base_body_effect<'t>(
    hir: Hir,
    contract: ContractId,
    bases: Seq<ContractId>,
    count: nat,
)
    ensures
        have_effect(hir, base_body_tasks::<'t>(hir, contract, bases, count), of(0, 0)),
    decreases count,
{
    broadcast use group_standings;

    if count > 0 {
        lemma_base_body_effect(hir, contract, bases, (count - 1) as nat);
    }
}

/// The plan of the construction of a contract leaves the stack as it was, and no
/// task of it runs short: the arguments of every base are there when they are
/// taken.
pub proof fn law_construction_plans_leave_the_stack<'t>(
    lowerer: Lowerer,
    hir: Hir,
    contract: ContractId,
)
    requires
        hir_wf(hir),
        contract.0 < hir.contracts@.len(),
    ensures
        have_effect(hir, construction_tasks::<'t>(lowerer, hir, contract), of(0, 0)),
        have_effect(hir, synthetic_constructor_tasks::<'t>(lowerer, hir, contract), of(0, 0)),
{
    broadcast use group_standings;

    let ids = all_variables(hir, contract);
    let bases = hir.contracts@[contract.0 as int].linearized_bases@;
    let done = constructor_arguments(hir, contract).0;
    lemma_unprovided(hir, contract, bases.len());
    lemma_state_effect(lowerer, hir, ids, ids.len());
    lemma_bases_argument_effect(hir, done, done.len());
    lemma_base_body_effect(hir, contract, bases, bases.len());
    let forgets = done.map_values(|arguments: BaseArguments| forget_task::<'t>(hir, arguments));
    assert(all_have(hir, forgets, of(0, 0)));
    assert forall|from: Standing| #[trigger] standing_after(hir, forgets, from) == Some(from) by {
        reveal(standing_after);
        lemma_standing_still(hir, forgets, forgets.len(), from);
    }
}

} // verus!
