//! Functions and the state that belongs to one function.

use crate::hir::{
    has_variables, hir_function_fits, ContractId, FunctionKind, Hir, HirFunction, HirFunctionId,
    VariableId,
};
use crate::lower::analysis::{assigned_in_block, collect_assigned_vars_block};
use crate::lower::objects::{emit_short_string_revert, short_string_reverted};
use crate::lower::params::{declare_param, lemma_new_param, with_new_param};
use crate::lower::plan_function::{
    convention_of, function_convention, head_size_of, heads_size, Convention,
};
use crate::lower::state::{InlineReturnCtx, Lowerer};
use crate::memory::EvmMemoryLayout;
use crate::mir::builder::{group_builder_steps, BuilderView, FunctionBuilder};
use crate::mir::function::{
    empty_function, function_wf, has_value, layout_view, lemma_wf_frame, next_value, Function,
    FunctionAttributes, FunctionView,
};
use crate::mir::module::ModuleView;
use crate::mir::parser::layout::interned;
use crate::mir::types::{AbiLayoutRef, BlockId, FunctionId, MemoryObjectKind, MirType, ValueId};
use std::collections::{HashMap, HashSet};
use vstd::prelude::*;

verus! {

/// The state of a function whose lowering is suspended while another function
/// is lowered.
pub struct Suspended {
    /// Values of variables that never change.
    pub locals: HashMap<usize, ValueId>,
    /// Memory offsets of variables that change.
    pub local_memory_slots: HashMap<usize, u64>,
    /// Variables whose two-word slot holds a slice.
    pub slice_slot_locals: HashSet<usize>,
    /// Next available memory offset.
    pub next_local_memory_offset: u64,
    /// Variables that are assigned after their declaration.
    pub assigned_vars: HashSet<usize>,
    /// Where the returns of an inlined body go.
    pub inline_returns: Option<InlineReturnCtx>,
    /// Results of the most recently inlined callee.
    pub pending_inline_returns: Option<Vec<ValueId>>,
    /// The contract whose code is being lowered.
    pub current_contract_id: Option<ContractId>,
    /// Whether constructor code is being lowered.
    pub lowering_constructor: bool,
    /// Whether variables live in the internal-call frame.
    pub lowering_internal_function: bool,
    /// Whether arithmetic wraps.
    pub in_unchecked_block: bool,
    /// Return variables.
    pub current_results: Vec<VariableId>,
}

/// The state of the function being lowered.
pub open spec fn state_of_function(lowerer: Lowerer) -> Suspended {
    Suspended {
        locals: lowerer.locals,
        local_memory_slots: lowerer.local_memory_slots,
        slice_slot_locals: lowerer.slice_slot_locals,
        next_local_memory_offset: lowerer.next_local_memory_offset,
        assigned_vars: lowerer.assigned_vars,
        inline_returns: lowerer.inline_returns,
        pending_inline_returns: lowerer.pending_inline_returns,
        current_contract_id: lowerer.current_contract_id,
        lowering_constructor: lowerer.lowering_constructor,
        lowering_internal_function: lowerer.lowering_internal_function,
        in_unchecked_block: lowerer.in_unchecked_block,
        current_results: lowerer.current_results,
    }
}

/// The state of lowering with the state of one function put back.
pub open spec fn resumed(lowerer: Lowerer, suspended: Suspended) -> Lowerer {
    Lowerer {
        locals: suspended.locals,
        local_memory_slots: suspended.local_memory_slots,
        slice_slot_locals: suspended.slice_slot_locals,
        next_local_memory_offset: suspended.next_local_memory_offset,
        assigned_vars: suspended.assigned_vars,
        inline_returns: suspended.inline_returns,
        pending_inline_returns: suspended.pending_inline_returns,
        current_contract_id: suspended.current_contract_id,
        lowering_constructor: suspended.lowering_constructor,
        lowering_internal_function: suspended.lowering_internal_function,
        in_unchecked_block: suspended.in_unchecked_block,
        current_results: suspended.current_results,
        ..lowerer
    }
}

/// Whether a state is that of no function yet: nothing bound, nothing
/// suspended.
pub open spec fn is_fresh(lowerer: Lowerer) -> bool {
    &&& lowerer.locals@ == Map::<usize, ValueId>::empty()
    &&& lowerer.local_memory_slots@ == Map::<usize, u64>::empty()
    &&& lowerer.slice_slot_locals@ == Set::<usize>::empty()
    &&& lowerer.assigned_vars@ == Set::<usize>::empty()
    &&& lowerer.inline_returns is None
    &&& lowerer.pending_inline_returns is None
    &&& lowerer.current_results@ == Seq::<VariableId>::empty()
}

/// What asking for a function yields.
pub enum FunctionEntry {
    /// It is lowered already.
    Known(FunctionId),
    /// It is being lowered: a stand-in was added.
    StandIn(FunctionId),
    /// It is to be lowered now, and then the suspended function goes on.
    Open(Suspended),
}

/// The properties of a function that do not show in its body.
pub open spec fn attributes_of(func: HirFunction) -> FunctionAttributes {
    FunctionAttributes {
        visibility: func.visibility,
        state_mutability: func.state_mutability,
        is_constructor: func.kind is Constructor,
        is_fallback: func.kind is Fallback,
        is_receive: func.kind is Receive,
        no_inline: false,
    }
}

/// The name of a lowered function.
pub open spec fn name_of(func: HirFunction) -> Seq<char> {
    match func.name {
        Some(name) => name@,
        None => "_anonymous"@,
    }
}

/// A function before its body is lowered.
pub open spec fn opened_function(
    func: HirFunction,
    convention: Convention,
    abi_returns: Option<AbiLayoutRef>,
) -> FunctionView {
    FunctionView {
        attributes: attributes_of(func),
        selector: if convention.external {
            Some(func.selector)
        } else {
            None
        },
        abi_returns: if convention.external {
            layout_view(abi_returns)
        } else {
            None
        },
        ..empty_function(name_of(func))
    }
}

/// Returns the name of a lowered function.
fn lowered_name(func: &HirFunction) -> (r: String)
    ensures
        r@ == name_of(*func),
{
    match &func.name {
        Some(name) => name.clone(),
        None => {
            let name: String = "_anonymous".to_string();
            name
        },
    }
}

/// Copies a list of variables.
fn copy_variables(ids: &Vec<VariableId>) -> (r: Vec<VariableId>)
    ensures
        r@ == ids@,
{
    let mut copy: Vec<VariableId> = Vec::new();
    let mut i: usize = 0;
    while i < ids.len()
        invariant
            i <= ids@.len(),
            copy@ == ids@.take(i as int),
        decreases ids@.len() - i,
    {
        copy.push(ids[i]);
        i = i + 1;
        assert(copy@ =~= ids@.take(i as int));
    }
    assert(copy@ =~= ids@);
    copy
}

/// Whether a variable of a list is dynamically encoded.
pub open spec fn any_dynamic(hir: Hir, ids: Seq<VariableId>) -> bool {
    exists|i: int|
        0 <= i < ids.len() && (#[trigger] hir.variables@[ids[i].0 as int]).abi.is_dynamic
}

/// Returns whether a variable of a list is dynamically encoded.
fn has_dynamic(hir: &Hir, ids: &Vec<VariableId>) -> (r: bool)
    requires
        has_variables(*hir, ids@),
    ensures
        r == any_dynamic(*hir, ids@),
{
    let mut i: usize = 0;
    while i < ids.len()
        invariant
            i <= ids@.len(),
            has_variables(*hir, ids@),
            forall|k: int|
                0 <= k < i ==> !(#[trigger] hir.variables@[ids@[k].0 as int]).abi.is_dynamic,
        decreases ids@.len() - i,
    {
        assert(ids@[i as int].0 < hir.variables@.len());
        if hir.variables[ids[i].0].abi.is_dynamic {
            return true;
        }
        i = i + 1;
    }
    false
}

/// The bytes of an external return of static size, or zero.
pub open spec fn static_return_size(hir: Hir, func: HirFunction, convention: Convention) -> u64 {
    if convention.external && !any_dynamic(hir, func.results@) {
        heads_size(hir, func.results@, func.results@.len()) as u64
    } else {
        0
    }
}

/// The bytes of variables behind the start of the heap.
pub open spec fn frame_size(next: u64) -> u64 {
    if next >= EvmMemoryLayout::HEAP_START {
        (next - EvmMemoryLayout::HEAP_START) as u64
    } else {
        0
    }
}

/// The variables that a function assigns after their declaration.
pub open spec fn assigned_of(hir: Hir, func: HirFunction) -> Set<usize> {
    match func.body {
        Some(body) => assigned_in_block(hir, body@, body@.len()),
        None => Set::empty(),
    }
}

/// The helper that reverts with a short string: it takes the length and the
/// left-aligned bytes.
pub open spec fn error_helper() -> FunctionView {
    let b = BuilderView {
        func: FunctionView {
            attributes: FunctionAttributes {
                no_inline: true,
                ..FunctionAttributes::spec_internal()
            },
            ..empty_function("__revert_error"@)
        },
        block: BlockId(0),
    };
    let len = next_value(b.func);
    let b = with_new_param(b, MirType::UInt(256));
    let data = next_value(b.func);
    let b = with_new_param(b, MirType::UInt(256));
    short_string_reverted(b, len, data).func
}

/// Builds the helper that reverts with a short string.
fn build_error_helper() -> (r: Function)
    ensures
        r@ == error_helper(),
{
    broadcast use group_builder_steps, lemma_new_param;

    let name: String = "__revert_error".to_string();
    let mut func = Function::new(name);
    let ghost plain = func@;
    func.attributes.no_inline = true;
    proof {
        lemma_wf_frame(plain, func@);
    }
    assert(func@ =~= (FunctionView {
        attributes: FunctionAttributes { no_inline: true, ..FunctionAttributes::spec_internal() },
        ..empty_function("__revert_error"@)
    }));
    {
        let mut builder = FunctionBuilder::new(&mut func);
        let len = declare_param(&mut builder, MirType::UInt(256));
        let data = declare_param(&mut builder, MirType::UInt(256));
        emit_short_string_revert(&mut builder, len, data);
    }
    func
}

/// The shared helper that loads bytes from storage.
pub enum BytesHelper {
    /// It is there.
    Known(FunctionId),
    /// It has to be built: its function, and the slot that it takes.
    Open(Function, ValueId),
}

/// The helper that loads bytes from storage before it has a body, and the slot
/// that it takes.
pub open spec fn bytes_helper_opened() -> (FunctionView, ValueId) {
    let b = BuilderView {
        func: FunctionView {
            attributes: FunctionAttributes {
                no_inline: true,
                ..FunctionAttributes::spec_internal()
            },
            ..empty_function("__load_storage_bytes"@)
        },
        block: BlockId(0),
    };
    let slot = next_value(b.func);
    let func = with_new_param(b, MirType::UInt(256)).func;
    (
        FunctionView {
            return_types: func.return_types.push(MirType::MemoryObject(MemoryObjectKind::Bytes)),
            ..func
        },
        slot,
    )
}

/// Opens the helper that loads bytes from storage.
fn open_bytes_helper() -> (r: (Function, ValueId))
    ensures
        (r.0@, r.1) == bytes_helper_opened(),
        function_wf(r.0@),
        has_value(r.0@, r.1),
{
    broadcast use group_builder_steps, lemma_new_param;

    let name: String = "__load_storage_bytes".to_string();
    let mut func = Function::new(name);
    let ghost plain = func@;
    func.attributes.no_inline = true;
    proof {
        lemma_wf_frame(plain, func@);
    }
    assert(func@ =~= (FunctionView {
        attributes: FunctionAttributes { no_inline: true, ..FunctionAttributes::spec_internal() },
        ..empty_function("__load_storage_bytes"@)
    }));
    let slot = {
        let mut builder = FunctionBuilder::new(&mut func);
        let slot = declare_param(&mut builder, MirType::UInt(256));
        builder.add_return(MirType::MemoryObject(MemoryObjectKind::Bytes));
        slot
    };
    (func, slot)
}

impl Lowerer {
    /// Returns the module's shared helper that loads bytes from storage, or
    /// opens it on first use. It takes a slot and returns bytes in memory; what
    /// decodes the slot is emitted into it before it is closed.
    pub fn ensure_load_storage_bytes_helper(&mut self) -> (r: BytesHelper)
        ensures
            match old(self).storage_bytes_helper {
                Some(helper) => r == BytesHelper::Known(helper) && *final(self) == *old(self),
                None => {
                    &&& *final(self) == (Lowerer { synthesizing_helper: true, ..*old(self) })
                    &&& r matches BytesHelper::Open(func, slot)
                    &&& (func@, slot) == bytes_helper_opened()
                    &&& function_wf(func@)
                    &&& has_value(func@, slot)
                },
            },
    {
        if let Some(helper) = self.storage_bytes_helper {
            return BytesHelper::Known(helper);
        }
        let (func, slot) = open_bytes_helper();
        self.synthesizing_helper = true;
        BytesHelper::Open(func, slot)
    }

    /// Closes the shared helper that loads bytes from storage: it is there from
    /// now on.
    pub fn close_load_storage_bytes_helper(&mut self, body: Function) -> (r: FunctionId)
        ensures
            r.0 == old(self).module@.functions.len(),
            *final(self) == (Lowerer {
                module: final(self).module,
                storage_bytes_helper: Some(r),
                synthesizing_helper: false,
                ..*old(self)
            }),
            final(self).module@ == (ModuleView {
                functions: old(self).module@.functions.push(body@),
                ..old(self).module@
            }),
    {
        self.synthesizing_helper = false;
        let helper = self.module.add_function(body);
        self.storage_bytes_helper = Some(helper);
        helper
    }
}

impl Lowerer {
    /// Puts the state of the function being lowered aside.
    fn suspend(&mut self) -> (r: Suspended)
        ensures
            r == state_of_function(*old(self)),
            is_fresh(*final(self)),
            resumed(*final(self), r) == *old(self),
            final(self).next_local_memory_offset == old(self).next_local_memory_offset,
            final(self).current_contract_id == old(self).current_contract_id,
            final(self).lowering_constructor == old(self).lowering_constructor,
            final(self).lowering_internal_function == old(self).lowering_internal_function,
            final(self).in_unchecked_block == old(self).in_unchecked_block,
    {
        let mut locals: HashMap<usize, ValueId> = HashMap::new();
        let mut local_memory_slots: HashMap<usize, u64> = HashMap::new();
        let mut slice_slot_locals: HashSet<usize> = HashSet::new();
        let mut assigned_vars: HashSet<usize> = HashSet::new();
        let mut inline_returns: Option<InlineReturnCtx> = None;
        let mut pending_inline_returns: Option<Vec<ValueId>> = None;
        let mut current_results: Vec<VariableId> = Vec::new();
        std::mem::swap(&mut locals, &mut self.locals);
        std::mem::swap(&mut local_memory_slots, &mut self.local_memory_slots);
        std::mem::swap(&mut slice_slot_locals, &mut self.slice_slot_locals);
        std::mem::swap(&mut assigned_vars, &mut self.assigned_vars);
        std::mem::swap(&mut inline_returns, &mut self.inline_returns);
        std::mem::swap(&mut pending_inline_returns, &mut self.pending_inline_returns);
        std::mem::swap(&mut current_results, &mut self.current_results);
        Suspended {
            locals,
            local_memory_slots,
            slice_slot_locals,
            next_local_memory_offset: self.next_local_memory_offset,
            assigned_vars,
            inline_returns,
            pending_inline_returns,
            current_contract_id: self.current_contract_id,
            lowering_constructor: self.lowering_constructor,
            lowering_internal_function: self.lowering_internal_function,
            in_unchecked_block: self.in_unchecked_block,
            current_results,
        }
    }

    /// Goes on with a suspended function.
    fn resume(&mut self, suspended: Suspended)
        ensures
            *final(self) == resumed(*old(self), suspended),
    {
        self.locals = suspended.locals;
        self.local_memory_slots = suspended.local_memory_slots;
        self.slice_slot_locals = suspended.slice_slot_locals;
        self.next_local_memory_offset = suspended.next_local_memory_offset;
        self.assigned_vars = suspended.assigned_vars;
        self.inline_returns = suspended.inline_returns;
        self.pending_inline_returns = suspended.pending_inline_returns;
        self.current_contract_id = suspended.current_contract_id;
        self.lowering_constructor = suspended.lowering_constructor;
        self.lowering_internal_function = suspended.lowering_internal_function;
        self.in_unchecked_block = suspended.in_unchecked_block;
        self.current_results = suspended.current_results;
    }

    /// Asks for the lowered form of a function. If it has to be lowered first,
    /// the function being lowered is suspended.
    pub fn enter_function(&mut self, hir: &Hir, id: HirFunctionId) -> (r: FunctionEntry)
        requires
            id.0 < hir.functions@.len(),
        ensures
            match r {
                FunctionEntry::Known(known) => {
                    &&& old(self).hir_to_mir_functions@.contains_key(id.0)
                    &&& known == old(self).hir_to_mir_functions@[id.0]
                    &&& *final(self) == *old(self)
                },
                FunctionEntry::StandIn(stand_in) => {
                    &&& !old(self).hir_to_mir_functions@.contains_key(id.0)
                    &&& old(self).lowering_functions@.contains(id.0)
                    &&& *final(self) == (Lowerer { module: final(self).module, ..*old(self) })
                    &&& stand_in.0 == old(self).module@.functions.len()
                    &&& final(self).module@ == (ModuleView {
                        functions: old(self).module@.functions.push(
                            empty_function("_recursive_internal"@),
                        ),
                        ..old(self).module@
                    })
                },
                FunctionEntry::Open(suspended) => {
                    &&& !old(self).hir_to_mir_functions@.contains_key(id.0)
                    &&& !old(self).lowering_functions@.contains(id.0)
                    &&& suspended == state_of_function(*old(self))
                    &&& is_fresh(*final(self))
                    &&& resumed(*final(self), suspended) == (Lowerer {
                        lowering_functions: final(self).lowering_functions,
                        ..*old(self)
                    })
                    &&& final(self).lowering_functions@ == old(self).lowering_functions@.insert(
                        id.0,
                    )
                    &&& final(self).current_contract_id == hir.functions@[id.0 as int].contract
                    &&& !final(self).in_unchecked_block
                },
            },
    {
        broadcast use vstd::std_specs::hash::group_hash_axioms;

        if let Some(known) = self.hir_to_mir_functions.get(&id.0) {
            return FunctionEntry::Known(*known);
        }
        if self.lowering_functions.contains(&id.0) {
            let name: String = "_recursive_internal".to_string();
            let stand_in = self.module.add_function(Function::new(name));
            return FunctionEntry::StandIn(stand_in);
        }
        let suspended = self.suspend();
        self.lowering_functions.insert(id.0);
        self.current_contract_id = hir.functions[id.0].contract;
        self.in_unchecked_block = false;
        FunctionEntry::Open(suspended)
    }

    /// Asks for the copy of a public function with the internal convention. It
    /// is registered before its body is lowered, so its calls of itself find
    /// it.
    pub fn enter_internal_copy(&mut self, hir: &Hir, id: HirFunctionId) -> (r: FunctionEntry)
        requires
            id.0 < hir.functions@.len(),
        ensures
            match r {
                FunctionEntry::Known(known) => {
                    &&& old(self).hir_to_internal_mir_functions@.contains_key(id.0)
                    &&& known == old(self).hir_to_internal_mir_functions@[id.0]
                    &&& *final(self) == *old(self)
                },
                FunctionEntry::StandIn(_) => false,
                FunctionEntry::Open(suspended) => {
                    &&& !old(self).hir_to_internal_mir_functions@.contains_key(id.0)
                    &&& suspended == state_of_function(*old(self))
                    &&& is_fresh(*final(self))
                    &&& resumed(*final(self), suspended) == *old(self)
                    &&& final(self).current_contract_id == hir.functions@[id.0 as int].contract
                    &&& !final(self).in_unchecked_block
                },
            },
    {
        broadcast use vstd::std_specs::hash::group_hash_axioms;

        if let Some(known) = self.hir_to_internal_mir_functions.get(&id.0) {
            return FunctionEntry::Known(*known);
        }
        let suspended = self.suspend();
        self.current_contract_id = hir.functions[id.0].contract;
        self.in_unchecked_block = false;
        FunctionEntry::Open(suspended)
    }

    /// Goes on with the function that was suspended when this one was entered.
    pub fn leave_function(&mut self, id: HirFunctionId, suspended: Suspended)
        ensures
            *final(self) == resumed(
                Lowerer { lowering_functions: final(self).lowering_functions, ..*old(self) },
                suspended,
            ),
            final(self).lowering_functions@ == old(self).lowering_functions@.remove(id.0),
    {
        broadcast use vstd::std_specs::hash::group_hash_axioms;

        let _ = self.lowering_functions.remove(&id.0);
        self.resume(suspended);
    }

    /// Goes on with the function that was suspended when a copy with the
    /// internal convention was entered.
    pub fn leave_internal_copy(&mut self, suspended: Suspended)
        ensures
            *final(self) == resumed(*old(self), suspended),
    {
        self.resume(suspended);
    }

    /// Starts a function: registers it, so that its calls of itself find it,
    /// and forgets the variables of the last one. Returns its identifier and
    /// the function whose body is to be built, and whether expressions were
    /// being checked for errors.
    pub fn begin_function(
        &mut self,
        hir: &Hir,
        id: HirFunctionId,
        force_internal: bool,
        abi_returns: Option<AbiLayoutRef>,
    ) -> (r: (FunctionId, Function, bool))
        requires
            id.0 < hir.functions@.len(),
        ensures
            r.0.0 == old(self).module@.functions.len(),
            r.1@ == opened_function(
                hir.functions@[id.0 as int],
                convention_of(hir.functions@[id.0 as int], force_internal),
                if hir.functions@[id.0 as int].results@.len() > 0 {
                    abi_returns
                } else {
                    None
                },
            ),
            function_wf(r.1@),
            r.2 == old(self).check_expr_errors,
            *final(self) == (Lowerer {
                module: final(self).module,
                hir_to_mir_functions: final(self).hir_to_mir_functions,
                hir_to_internal_mir_functions: final(self).hir_to_internal_mir_functions,
                locals: final(self).locals,
                local_memory_slots: final(self).local_memory_slots,
                slice_slot_locals: final(self).slice_slot_locals,
                next_local_memory_offset: EvmMemoryLayout::HEAP_START,
                assigned_vars: final(self).assigned_vars,
                lowering_constructor: hir.functions@[id.0 as int].kind is Constructor,
                lowering_internal_function: convention_of(
                    hir.functions@[id.0 as int],
                    force_internal,
                ).internal_frame,
                in_unchecked_block: false,
                current_results: final(self).current_results,
                check_expr_errors: old(self).hir_has_errors,
                ..*old(self)
            }),
            final(self).module@.functions == old(self).module@.functions.push(
                empty_function(name_of(hir.functions@[id.0 as int])),
            ),
            final(self).module@.abi_layouts == if convention_of(
                hir.functions@[id.0 as int],
                force_internal,
            ).external && hir.functions@[id.0 as int].results@.len() > 0 && abi_returns is Some {
                interned(old(self).module@.abi_layouts, (abi_returns->0)@)
            } else {
                old(self).module@.abi_layouts
            },
            final(self).module@ == (ModuleView {
                functions: final(self).module@.functions,
                abi_layouts: final(self).module@.abi_layouts,
                ..old(self).module@
            }),
            force_internal ==> final(self).hir_to_internal_mir_functions@
                == old(self).hir_to_internal_mir_functions@.insert(id.0, r.0)
                && final(self).hir_to_mir_functions == old(self).hir_to_mir_functions,
            !force_internal ==> final(self).hir_to_mir_functions@
                == old(self).hir_to_mir_functions@.insert(id.0, r.0)
                && final(self).hir_to_internal_mir_functions
                == old(self).hir_to_internal_mir_functions,
            final(self).locals@ == Map::<usize, ValueId>::empty(),
            final(self).local_memory_slots@ == Map::<usize, u64>::empty(),
            final(self).slice_slot_locals@ == Set::<usize>::empty(),
            final(self).assigned_vars@ == assigned_of(*hir, hir.functions@[id.0 as int]),
            final(self).current_results@ == hir.functions@[id.0 as int].results@,
    {
        broadcast use vstd::std_specs::hash::group_hash_axioms;

        let func = &hir.functions[id.0];
        let check = self.check_expr_errors;
        self.check_expr_errors = self.hir_has_errors;
        let mir_id = self.module.add_function(Function::new(lowered_name(func)));
        if force_internal {
            self.hir_to_internal_mir_functions.insert(id.0, mir_id);
        } else {
            self.hir_to_mir_functions.insert(id.0, mir_id);
        }
        let convention = function_convention(func, force_internal);
        let mut mir_func = Function::new(lowered_name(func));
        let ghost plain = mir_func@;
        mir_func.attributes = FunctionAttributes {
            visibility: func.visibility,
            state_mutability: func.state_mutability,
            is_constructor: matches!(func.kind, FunctionKind::Constructor),
            is_fallback: matches!(func.kind, FunctionKind::Fallback),
            is_receive: matches!(func.kind, FunctionKind::Receive),
            no_inline: false,
        };
        if convention.external {
            mir_func.selector = Some(func.selector);
        }
        self.locals = HashMap::new();
        self.local_memory_slots = HashMap::new();
        self.slice_slot_locals = HashSet::new();
        self.next_local_memory_offset = EvmMemoryLayout::HEAP_START;
        self.lowering_constructor = matches!(func.kind, FunctionKind::Constructor);
        self.lowering_internal_function = convention.internal_frame;
        self.in_unchecked_block = false;
        self.current_results = copy_variables(&func.results);
        if convention.external && func.results.len() > 0 {
            if let Some(layout) = abi_returns {
                let layout = self.module.intern_abi_layout(layout);
                mir_func.abi_returns = Some(layout);
            }
        }
        let mut assigned: HashSet<usize> = HashSet::new();
        if let Some(body) = &func.body {
            collect_assigned_vars_block(hir, body, &mut assigned);
        }
        assert(assigned@ =~= assigned_of(*hir, *func));
        self.assigned_vars = assigned;
        proof {
            lemma_wf_frame(plain, mir_func@);
        }
        (mir_id, mir_func, check)
    }

    /// Completes a function: records the sizes that the body determined and
    /// puts it in the place registered for it.
    pub fn finish_function(
        &mut self,
        hir: &Hir,
        id: HirFunctionId,
        force_internal: bool,
        mir_id: FunctionId,
        body: Function,
        check: bool,
    )
        requires
            id.0 < hir.functions@.len(),
            hir_function_fits(*hir, hir.functions@[id.0 as int]),
            heads_size(
                *hir,
                hir.functions@[id.0 as int].results@,
                hir.functions@[id.0 as int].results@.len(),
            ) <= u64::MAX,
            mir_id.0 < old(self).module@.functions.len(),
        ensures
            *final(self) == (Lowerer {
                module: final(self).module,
                lowering_constructor: false,
                lowering_internal_function: false,
                check_expr_errors: check,
                ..*old(self)
            }),
            final(self).module@ == (ModuleView {
                functions: old(self).module@.functions.update(
                    mir_id.0 as int,
                    FunctionView {
                        internal_frame_size: frame_size(old(self).next_local_memory_offset),
                        external_static_return_size: if convention_of(
                            hir.functions@[id.0 as int],
                            force_internal,
                        ).external && !any_dynamic(*hir, hir.functions@[id.0 as int].results@) {
                            static_return_size(
                                *hir,
                                hir.functions@[id.0 as int],
                                convention_of(hir.functions@[id.0 as int], force_internal),
                            )
                        } else {
                            body@.external_static_return_size
                        },
                        ..body@
                    },
                ),
                ..old(self).module@
            }),
    {
        let func = &hir.functions[id.0];
        let convention = function_convention(func, force_internal);
        let mut body = body;
        self.lowering_constructor = false;
        self.lowering_internal_function = false;
        body.internal_frame_size = if self.next_local_memory_offset >= EvmMemoryLayout::HEAP_START {
            self.next_local_memory_offset - EvmMemoryLayout::HEAP_START
        } else {
            0
        };
        if convention.external && !has_dynamic(hir, &func.results) {
            body.external_static_return_size = head_size_of(hir, &func.results);
        }
        self.module.set_function(mir_id, body);
        self.check_expr_errors = check;
    }

    /// Returns the module's shared helper that reverts with a short string,
    /// and builds it on first use.
    pub fn ensure_revert_error_helper(&mut self) -> (r: FunctionId)
        ensures
            match old(self).revert_error_helper {
                Some(helper) => r == helper && *final(self) == *old(self),
                None => {
                    &&& r.0 == old(self).module@.functions.len()
                    &&& *final(self) == (Lowerer {
                        module: final(self).module,
                        revert_error_helper: Some(r),
                        ..*old(self)
                    })
                    &&& final(self).module@ == (ModuleView {
                        functions: old(self).module@.functions.push(error_helper()),
                        ..old(self).module@
                    })
                },
            },
    {
        if let Some(helper) = self.revert_error_helper {
            return helper;
        }
        let helper = self.module.add_function(build_error_helper());
        self.revert_error_helper = Some(helper);
        helper
    }
}

} // verus!
