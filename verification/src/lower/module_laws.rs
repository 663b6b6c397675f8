//! The module of a contract: where it starts, and what stays of it.

use crate::hir::{ContractId, Hir};
use crate::lower::agenda::turn;
use crate::lower::answers::{settlement, Reply};
use crate::lower::contract::is_started;
use crate::lower::machine::{Scene, StepView};
use crate::lower::machine_attempt::{attempt_step, event_step};
use crate::lower::machine_control::{arms_step, exit_step, loop_step};
use crate::lower::machine_decode::{decode_step, storage_step};
use crate::lower::machine_names::{name_step, param_step, plain_step, sequence_step};
use crate::lower::machine_places::{
    binding_step, default_step, local_step, place_step, results_step, state_step,
};
use crate::lower::machine_steps::{
    data_step, declaration_step, emission_step, or_step, rest_step, step, variable_step,
};
use crate::lower::machine_values::{stack_step, value_step};
use crate::lower::plan::{Service, Task};
use crate::lower::state::{Lowerer, StorageLocation};
use crate::mir::module::ModuleView;
use vstd::prelude::*;

verus! {

/// Whether two states of lowering hold the same, creation code aside.
pub open spec fn alike(first: Lowerer, second: Lowerer) -> bool {
    &&& first.module@ == second.module@
    &&& first.contract_id == second.contract_id
    &&& first.current_contract_id == second.current_contract_id
    &&& first.storage_slots@ == second.storage_slots@
    &&& first.storage_locations@ == second.storage_locations@
    &&& first.struct_storage_base_slots@ == second.struct_storage_base_slots@
    &&& first.immutable_slots@ == second.immutable_slots@
    &&& first.next_immutable_offset == second.next_immutable_offset
    &&& first.locals@ == second.locals@
    &&& first.local_memory_slots@ == second.local_memory_slots@
    &&& first.slice_slot_locals@ == second.slice_slot_locals@
    &&& first.storage_ref_locals@ == second.storage_ref_locals@
    &&& first.next_local_memory_offset == second.next_local_memory_offset
    &&& first.inline_returns == second.inline_returns
    &&& first.pending_inline_returns == second.pending_inline_returns
    &&& first.loop_stack@ == second.loop_stack@
    &&& first.assigned_vars@ == second.assigned_vars@
    &&& first.check_expr_errors == second.check_expr_errors
    &&& first.hir_has_errors == second.hir_has_errors
    &&& first.inline_stack@ == second.inline_stack@
    &&& first.inline_expr_error_checks@ == second.inline_expr_error_checks@
    &&& first.hir_to_mir_functions@ == second.hir_to_mir_functions@
    &&& first.hir_to_internal_mir_functions@ == second.hir_to_internal_mir_functions@
    &&& first.lowering_functions@ == second.lowering_functions@
    &&& first.internal_function_pointer_targets@ == second.internal_function_pointer_targets@
    &&& first.lowering_constructor == second.lowering_constructor
    &&& first.lowering_internal_function == second.lowering_internal_function
    &&& first.revert_error_helper == second.revert_error_helper
    &&& first.storage_bytes_helper == second.storage_bytes_helper
    &&& first.synthesizing_helper == second.synthesizing_helper
    &&& first.in_unchecked_block == second.in_unchecked_block
    &&& first.current_results@ == second.current_results@
    &&& first.has_mcopy == second.has_mcopy
    &&& first.complaints@ == second.complaints@
}

/// A contract starts in the same state whether it is lowered without creation code
/// of other contracts or with none of it: its module is named after it and is an
/// interface if it is one.
pub proof fn law_entry_points_agree(
    plain: Lowerer,
    with_codes: Lowerer,
    hir: Hir,
    contract: ContractId,
    locations: Seq<StorageLocation>,
    hir_has_errors: bool,
    has_mcopy: bool,
)
    requires
        is_started(plain, hir, contract, locations, hir_has_errors, has_mcopy),
        is_started(with_codes, hir, contract, locations, hir_has_errors, has_mcopy),
        plain.contract_bytecodes@ == Map::<usize, Vec<u8>>::empty(),
        with_codes.contract_bytecodes@ == Map::<usize, Vec<u8>>::empty(),
    ensures
        alike(plain, with_codes),
        plain.contract_bytecodes@ == with_codes.contract_bytecodes@,
        plain.module@.name == hir.contracts@[contract.0 as int].name@,
        plain.module@.is_interface == hir.contracts@[contract.0 as int].is_interface,
{
}

/// Whether a module is still named the same and still an interface or not.
pub open spec fn same_head(before: ModuleView, after: ModuleView) -> bool {
    before.name == after.name && before.is_interface == after.is_interface
}

/// Whether a step that is done keeps the head of the module.
pub open spec fn keeps_head(before: Scene, step: StepView) -> bool {
    step matches StepView::Done(after) ==> same_head(before.module, after.module)
}

/// Steps that emit code keep the head of the module.
proof fn lemma_emission_keeps_head<'t>(s: Scene, lowerer: Lowerer, hir: Hir, task: Task<'t>)
    ensures
        keeps_head(s, emission_step(s, lowerer, hir, task)),
{
    assert(keeps_head(s, value_step(s, lowerer, task)));
    assert(keeps_head(s, stack_step(s, lowerer, task)));
    assert(keeps_head(s, arms_step(s, lowerer, task)));
    assert(keeps_head(s, loop_step(s, lowerer, task)));
    assert(keeps_head(s, exit_step(s, lowerer, task)));
}

/// Steps that handle data keep the head of the module.
proof fn lemma_data_keeps_head<'t>(s: Scene, lowerer: Lowerer, hir: Hir, task: Task<'t>)
    ensures
        keeps_head(s, data_step(s, lowerer, hir, task)),
{
    assert(keeps_head(s, attempt_step(s, lowerer, task)));
    assert(keeps_head(s, event_step(s, lowerer, hir, task)));
    assert(keeps_head(s, decode_step(s, lowerer, task)));
    assert(keeps_head(s, storage_step(s, lowerer, task)));
    assert(keeps_head(s, place_step(s, lowerer, task)));
}

/// Steps that bind variables keep the head of the module.
proof fn lemma_variable_keeps_head<'t>(s: Scene, lowerer: Lowerer, hir: Hir, task: Task<'t>)
    ensures
        keeps_head(s, variable_step(s, lowerer, hir, task)),
{
    assert(keeps_head(s, local_step(s, lowerer, task)));
    assert(keeps_head(s, state_step(s, lowerer, task)));
    assert(keeps_head(s, binding_step(s, lowerer, hir, task)));
    assert(keeps_head(s, default_step(s, lowerer, hir, task)));
    assert(keeps_head(s, results_step(s, lowerer, hir, task)));
}

/// Steps that declare keep the head of the module.
proof fn lemma_declaration_keeps_head<'t>(s: Scene, lowerer: Lowerer, hir: Hir, task: Task<'t>)
    ensures
        keeps_head(s, declaration_step(s, lowerer, hir, task)),
{
    assert(keeps_head(s, name_step(s, lowerer, hir, task)));
    assert(keeps_head(s, param_step(s, lowerer, hir, task)));
    assert(keeps_head(s, sequence_step(s, lowerer, hir, task)));
    assert(keeps_head(s, plain_step(s, lowerer, hir, task)));
    assert(keeps_head(s, rest_step(s, lowerer, hir, task)));
}

/// No turn renames the module or changes whether it is an interface.
pub proof fn law_turns_keep_the_module_head<'t>(
    s: Scene,
    lowerer: Lowerer,
    hir: Hir,
    waiting: Seq<Task<'t>>,
)
    ensures
        same_head(s.module, turn(s, lowerer, hir, waiting).scene.module),
{
    if waiting.len() > 0 {
        let task = waiting.last();
        lemma_emission_keeps_head(s, lowerer, hir, task);
        lemma_data_keeps_head(s, lowerer, hir, task);
        lemma_variable_keeps_head(s, lowerer, hir, task);
        lemma_declaration_keeps_head(s, lowerer, hir, task);
        let groups = (
            emission_step(s, lowerer, hir, task),
            data_step(s, lowerer, hir, task),
            variable_step(s, lowerer, hir, task),
            declaration_step(s, lowerer, hir, task),
        );
        assert(step(s, lowerer, hir, task) == or_step(
            groups.0,
            or_step(groups.1, or_step(groups.2, groups.3)),
        )) by {
            reveal(step);
        }
    }
}

/// No settled reply renames the module or changes whether it is an interface.
pub proof fn law_settlements_keep_the_module_head<'t>(s: Scene, service: Service<'t>, reply: Reply)
    ensures
        same_head(s.module, settlement(s, service, reply).0.module),
{
}

} // verus!
