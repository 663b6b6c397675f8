//! Contracts.

use crate::hir::{hir_wf, ContractId, Hir, HirFunctionId, VariableId};
use crate::lower::construct::{needs_constructor, needs_synthetic_constructor};
use crate::lower::inherit::{
    collect_inherited_functions, immutable_order_of, inherited_functions, locations_given,
    offsets_given, slots_given, storage_order_of, struct_slots_given, IMMUTABLE_WORD_SIZE,
};
use crate::lower::state::{Complaint, LoopContext, Lowerer, StorageLocation};
use crate::memory::EvmMemoryLayout;
use crate::mir::function::{
    empty_function, function_wf, lemma_wf_frame, Function, FunctionAttributes, FunctionView,
    StateMutability, Visibility,
};
use crate::mir::module::{empty_module, Module, ModuleView};
use crate::mir::types::{FunctionId, MirType, Span, ValueId};
use crate::word::U256;
use std::collections::HashMap;
use vstd::prelude::*;

verus! {

/// A function of a contract that is to be lowered.
#[derive(Clone, Copy, Debug, PartialEq, Eq, Structural)]
pub enum Work {
    /// The constructor of a contract that declares none.
    Constructor(ContractId),
    /// A declared function.
    Function(HirFunctionId),
}

/// The functions of a contract that are to be lowered, in order.
pub open spec fn contract_work(hir: Hir, contract: ContractId) -> Seq<Work> {
    let constructor = if hir.contracts@[contract.0 as int].ctor is None && needs_constructor(
        hir,
        contract,
    ) {
        seq![Work::Constructor(contract)]
    } else {
        Seq::empty()
    };
    constructor + inherited_functions(hir, contract).map_values(
        |id: HirFunctionId| Work::Function(id),
    )
}

/// Whether the immutables of a contract have offsets.
pub open spec fn immutables_fit(hir: Hir, contract: ContractId, first: u32) -> bool {
    first + immutable_order_of(hir, contract).len() * IMMUTABLE_WORD_SIZE <= u32::MAX
}

/// The flags that a constructor made for a contract suspends.
#[derive(Debug)]
pub struct SuspendedFlags {
    /// Whether constructor code was being lowered.
    pub lowering_constructor: bool,
    /// Whether variables lived in the internal-call frame.
    pub lowering_internal_function: bool,
    /// Whether arithmetic wrapped.
    pub in_unchecked_block: bool,
    /// Return variables.
    pub current_results: Vec<VariableId>,
}

/// The constructor made for a contract, before its body is lowered.
pub open spec fn made_constructor() -> FunctionView {
    FunctionView {
        attributes: FunctionAttributes {
            visibility: Visibility::Public,
            state_mutability: StateMutability::NonPayable,
            is_constructor: true,
            is_fallback: false,
            is_receive: false,
            no_inline: false,
        },
        ..empty_function("constructor"@)
    }
}

/// Whether a state is that of a contract about to be lowered.
pub open spec fn is_contract_begun(
    before: Lowerer,
    after: Lowerer,
    hir: Hir,
    contract: ContractId,
    locations: Seq<StorageLocation>,
) -> bool {
    &&& after == (Lowerer {
        module: after.module,
        contract_id: Some(contract),
        current_contract_id: Some(contract),
        storage_slots: after.storage_slots,
        storage_locations: after.storage_locations,
        struct_storage_base_slots: after.struct_storage_base_slots,
        immutable_slots: after.immutable_slots,
        next_immutable_offset: (before.next_immutable_offset + immutable_order_of(
            hir,
            contract,
        ).len() * IMMUTABLE_WORD_SIZE) as u32,
        ..before
    })
    &&& after.storage_slots@ == slots_given(
        before.storage_slots@,
        storage_order_of(hir, contract),
        locations,
        locations.len(),
    )
    &&& after.storage_locations@ == locations_given(
        before.storage_locations@,
        storage_order_of(hir, contract),
        locations,
        locations.len(),
    )
    &&& after.struct_storage_base_slots@ == struct_slots_given(
        hir,
        before.struct_storage_base_slots@,
        storage_order_of(hir, contract),
        locations,
        locations.len(),
    )
    &&& after.immutable_slots@ == offsets_given(
        before.immutable_slots@,
        immutable_order_of(hir, contract),
        before.next_immutable_offset,
        immutable_order_of(hir, contract).len(),
    )
    &&& after.module@ == (ModuleView {
        is_interface: before.module@.is_interface
            || hir.contracts@[contract.0 as int].is_interface,
        immutables: before.module@.immutables + Seq::new(
            immutable_order_of(hir, contract).len(),
            |i: int| MirType::uint256(),
        ),
        ..before.module@
    })
}

impl Lowerer {
    /// Starts a contract: marks interfaces, which have no code to deploy,
    /// gives every state variable its place, and returns the functions that
    /// are to be lowered. A contract without a constructor gets one if its
    /// state or its bases need it.
    pub fn lower_contract(
        &mut self,
        hir: &Hir,
        contract_id: ContractId,
        locations: &Vec<StorageLocation>,
    ) -> (r: Vec<Work>)
        requires
            hir_wf(*hir),
            contract_id.0 < hir.contracts@.len(),
            old(self).storage_slots@ == Map::<usize, U256>::empty(),
            locations@.len() == storage_order_of(*hir, contract_id).len(),
            immutables_fit(*hir, contract_id, old(self).next_immutable_offset),
        ensures
            is_contract_begun(*old(self), *final(self), *hir, contract_id, locations@),
            r@ == contract_work(*hir, contract_id),
    {
        self.contract_id = Some(contract_id);
        self.current_contract_id = Some(contract_id);
        if hir.contracts[contract_id.0].is_interface {
            self.module.is_interface = true;
        }
        let ghost marked = *self;
        assert(self.module@ =~= (ModuleView {
            is_interface: old(self).module@.is_interface
                || hir.contracts@[contract_id.0 as int].is_interface,
            ..old(self).module@
        }));
        self.allocate_storage(hir, contract_id, locations);
        let functions = collect_inherited_functions(hir, contract_id);
        let mut work: Vec<Work> = Vec::new();
        if hir.contracts[contract_id.0].ctor.is_none() && needs_synthetic_constructor(
            hir,
            contract_id,
        ) {
            work.push(Work::Constructor(contract_id));
        }
        let ghost begin = work@;
        let ghost declared = functions@.map_values(|id: HirFunctionId| Work::Function(id));
        let mut i: usize = 0;
        assert(work@ =~= begin + declared.take(0));
        while i < functions.len()
            invariant
                i <= functions@.len(),
                declared == functions@.map_values(|id: HirFunctionId| Work::Function(id)),
                work@ == begin + declared.take(i as int),
            decreases functions@.len() - i,
        {
            work.push(Work::Function(functions[i]));
            i = i + 1;
            assert(work@ =~= begin + declared.take(i as int));
        }
        assert(work@ =~= contract_work(*hir, contract_id));
        work
    }

    /// Ends a contract.
    pub fn end_contract(&mut self)
        ensures
            *final(self) == (Lowerer { current_contract_id: None, ..*old(self) }),
    {
        self.current_contract_id = None;
    }

    /// Starts the constructor made for a contract that declares none.
    pub fn begin_synthetic_constructor(&mut self) -> (r: (Function, SuspendedFlags))
        ensures
            r.0@ == made_constructor(),
            function_wf(r.0@),
            r.1 == (SuspendedFlags {
                lowering_constructor: old(self).lowering_constructor,
                lowering_internal_function: old(self).lowering_internal_function,
                in_unchecked_block: old(self).in_unchecked_block,
                current_results: old(self).current_results,
            }),
            *final(self) == (Lowerer {
                lowering_constructor: true,
                lowering_internal_function: false,
                in_unchecked_block: false,
                current_results: final(self).current_results,
                ..*old(self)
            }),
            final(self).current_results@ == Seq::<VariableId>::empty(),
    {
        let name: String = "constructor".to_string();
        let mut func = Function::new(name);
        let ghost plain = func@;
        func.attributes = FunctionAttributes {
            visibility: Visibility::Public,
            state_mutability: StateMutability::NonPayable,
            is_constructor: true,
            is_fallback: false,
            is_receive: false,
            no_inline: false,
        };
        proof {
            lemma_wf_frame(plain, func@);
        }
        let mut current_results: Vec<VariableId> = Vec::new();
        std::mem::swap(&mut current_results, &mut self.current_results);
        let flags = SuspendedFlags {
            lowering_constructor: self.lowering_constructor,
            lowering_internal_function: self.lowering_internal_function,
            in_unchecked_block: self.in_unchecked_block,
            current_results,
        };
        self.lowering_constructor = true;
        self.lowering_internal_function = false;
        self.in_unchecked_block = false;
        (func, flags)
    }

    /// Adds the constructor made for a contract, and restores the flags.
    pub fn finish_synthetic_constructor(&mut self, func: Function, flags: SuspendedFlags) -> (r:
        FunctionId)
        ensures
            *final(self) == (Lowerer {
                module: final(self).module,
                lowering_constructor: flags.lowering_constructor,
                lowering_internal_function: flags.lowering_internal_function,
                in_unchecked_block: flags.in_unchecked_block,
                current_results: flags.current_results,
                ..*old(self)
            }),
            r.0 == old(self).module@.functions.len(),
            final(self).module@ == (ModuleView {
                functions: old(self).module@.functions.push(func@),
                ..old(self).module@
            }),
    {
        self.lowering_constructor = flags.lowering_constructor;
        self.lowering_internal_function = flags.lowering_internal_function;
        self.in_unchecked_block = flags.in_unchecked_block;
        self.current_results = flags.current_results;
        self.module.add_function(func)
    }

    /// Returns the completed module.
    pub fn finish(self) -> (r: Module)
        ensures
            r == self.module,
    {
        self.module
    }
}

/// Starts lowering a contract: returns the state of lowering and the functions
/// that are to be lowered. `locations` are the storage locations of its state
/// variables, in the order of
/// [`storage_order`](crate::lower::inherit::storage_order).
pub fn lower_contract(
    hir: &Hir,
    contract_id: ContractId,
    locations: &Vec<StorageLocation>,
    hir_has_errors: bool,
    has_mcopy: bool,
) -> (r: (Lowerer, Vec<Work>))
    requires
        hir_wf(*hir),
        contract_id.0 < hir.contracts@.len(),
        locations@.len() == storage_order_of(*hir, contract_id).len(),
        immutables_fit(*hir, contract_id, 0),
    ensures
        is_started(r.0, *hir, contract_id, locations@, hir_has_errors, has_mcopy),
        r.0.contract_bytecodes@ == Map::<usize, Vec<u8>>::empty(),
        r.1@ == contract_work(*hir, contract_id),
{
    lower_contract_with_bytecodes(
        hir,
        contract_id,
        locations,
        HashMap::new(),
        hir_has_errors,
        has_mcopy,
    )
}

/// Starts lowering a contract with creation code of other contracts at hand
/// for `new` expressions.
pub fn lower_contract_with_bytecodes(
    hir: &Hir,
    contract_id: ContractId,
    locations: &Vec<StorageLocation>,
    child_bytecodes: HashMap<usize, Vec<u8>>,
    hir_has_errors: bool,
    has_mcopy: bool,
) -> (r: (Lowerer, Vec<Work>))
    requires
        hir_wf(*hir),
        contract_id.0 < hir.contracts@.len(),
        locations@.len() == storage_order_of(*hir, contract_id).len(),
        immutables_fit(*hir, contract_id, 0),
    ensures
        is_started(r.0, *hir, contract_id, locations@, hir_has_errors, has_mcopy),
        r.0.contract_bytecodes == child_bytecodes,
        r.1@ == contract_work(*hir, contract_id),
{
    let name: String = hir.contracts[contract_id.0].name.clone();
    let mut lowerer = Lowerer::new(name, hir_has_errors, has_mcopy);
    lowerer.contract_bytecodes = child_bytecodes;
    let ghost blank = lowerer;
    let work = lowerer.lower_contract(hir, contract_id, locations);
    proof {
        assert(blank.module@.immutables + Seq::new(
            immutable_order_of(*hir, contract_id).len(),
            |i: int| MirType::uint256(),
        ) =~= Seq::new(
            immutable_order_of(*hir, contract_id).len(),
            |i: int| MirType::uint256(),
        ));
    }
    (lowerer, work)
}

/// Whether a state is that of a contract whose lowering just started.
pub open spec fn is_started(
    lowerer: Lowerer,
    hir: Hir,
    contract: ContractId,
    locations: Seq<StorageLocation>,
    hir_has_errors: bool,
    has_mcopy: bool,
) -> bool {
    let order = storage_order_of(hir, contract);
    let immutables = immutable_order_of(hir, contract);
    &&& lowerer.module@ == (ModuleView {
        is_interface: hir.contracts@[contract.0 as int].is_interface,
        immutables: Seq::new(immutables.len(), |i: int| MirType::uint256()),
        ..empty_module(hir.contracts@[contract.0 as int].name@)
    })
    &&& lowerer.contract_id == Some(contract)
    &&& lowerer.current_contract_id == Some(contract)
    &&& lowerer.storage_slots@ == slots_given(Map::empty(), order, locations, locations.len())
    &&& lowerer.storage_locations@ == locations_given(
        Map::empty(),
        order,
        locations,
        locations.len(),
    )
    &&& lowerer.struct_storage_base_slots@ == struct_slots_given(
        hir,
        Map::empty(),
        order,
        locations,
        locations.len(),
    )
    &&& lowerer.immutable_slots@ == offsets_given(Map::empty(), immutables, 0, immutables.len())
    &&& lowerer.next_immutable_offset == immutables.len() * IMMUTABLE_WORD_SIZE
    &&& lowerer.locals@ == Map::<usize, ValueId>::empty()
    &&& lowerer.local_memory_slots@ == Map::<usize, u64>::empty()
    &&& lowerer.slice_slot_locals@ == Set::<usize>::empty()
    &&& lowerer.inline_returns is None
    &&& lowerer.pending_inline_returns is None
    &&& lowerer.next_local_memory_offset == EvmMemoryLayout::HEAP_START
    &&& lowerer.loop_stack@ == Seq::<LoopContext>::empty()
    &&& lowerer.assigned_vars@ == Set::<usize>::empty()
    &&& lowerer.check_expr_errors == hir_has_errors
    &&& lowerer.hir_has_errors == hir_has_errors
    &&& lowerer.storage_ref_locals@ == Set::<usize>::empty()
    &&& lowerer.inline_stack@ == Seq::<HirFunctionId>::empty()
    &&& lowerer.inline_expr_error_checks@ == Seq::<bool>::empty()
    &&& lowerer.hir_to_mir_functions@ == Map::<usize, FunctionId>::empty()
    &&& lowerer.hir_to_internal_mir_functions@ == Map::<usize, FunctionId>::empty()
    &&& lowerer.lowering_functions@ == Set::<usize>::empty()
    &&& lowerer.internal_function_pointer_targets@ == Set::<usize>::empty()
    &&& !lowerer.lowering_constructor
    &&& !lowerer.lowering_internal_function
    &&& lowerer.revert_error_helper is None
    &&& lowerer.storage_bytes_helper is None
    &&& !lowerer.synthesizing_helper
    &&& !lowerer.in_unchecked_block
    &&& lowerer.current_results@ == Seq::<VariableId>::empty()
    &&& lowerer.has_mcopy == has_mcopy
    &&& lowerer.complaints@ == Seq::<(Span, Complaint)>::empty()
}

} // verus!
