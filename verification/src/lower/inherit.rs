//! What a contract takes over from its bases.

use crate::hir::{
    contract_fits, has_contracts, has_functions, has_variables, hir_wf, peeled, ContractId,
    FunctionKind, Hir, HirFunction, HirFunctionId, Modifier, Ty, VarKind, VarMut, Variable,
    VariableId,
};
use crate::lower::state::{Lowerer, StorageLocation};
use crate::mir::function::Visibility;
use crate::mir::module::ModuleView;
use crate::mir::types::MirType;
use crate::word::U256;
use std::collections::HashSet;
use vstd::prelude::*;

verus! {

/// Bytes of an immutable.
pub const IMMUTABLE_WORD_SIZE: u32 = 32;

/// The functions found so far, and what they rule out.
#[verifier::ext_equal]
pub struct Found {
    /// The functions.
    pub functions: Seq<HirFunctionId>,
    /// The selectors that are taken.
    pub selectors: Set<u32>,
    /// Whether the constructor was found.
    pub has_constructor: bool,
    /// Whether a fallback function was found.
    pub has_fallback: bool,
    /// Whether a receive function was found.
    pub has_receive: bool,
}

/// Nothing found.
pub open spec fn nothing_found() -> Found {
    Found {
        functions: Seq::empty(),
        selectors: Set::empty(),
        has_constructor: false,
        has_fallback: false,
        has_receive: false,
    }
}

/// Whether a function is called from outside.
pub open spec fn is_exposed(func: HirFunction) -> bool {
    func.visibility is External || func.visibility is Public
}

/// Whether a function is an ordinary one.
pub open spec fn is_ordinary(func: HirFunction) -> bool {
    func.kind is Function || func.kind is Modifier
}

/// What is found after looking at one more function of a base.
pub open spec fn looked_at(
    found: Found,
    hir: Hir,
    contract: ContractId,
    base: ContractId,
    id: HirFunctionId,
) -> Found {
    let func = hir.functions@[id.0 as int];
    let taken = Found { functions: found.functions.push(id), ..found };
    match func.kind {
        FunctionKind::Constructor => if base == contract && !found.has_constructor {
            Found { has_constructor: true, ..taken }
        } else {
            found
        },
        FunctionKind::Fallback => if !found.has_fallback {
            Found { has_fallback: true, ..taken }
        } else {
            found
        },
        FunctionKind::Receive => if !found.has_receive {
            Found { has_receive: true, ..taken }
        } else {
            found
        },
        FunctionKind::Function | FunctionKind::Modifier => if base != contract
            && func.visibility is Private {
            found
        } else if is_exposed(func) {
            if found.selectors.contains(func.selector) {
                found
            } else {
                Found { selectors: found.selectors.insert(func.selector), ..taken }
            }
        } else {
            taken
        },
    }
}

/// What is found after the first `count` functions of a base.
pub open spec fn found_in_base(
    found: Found,
    hir: Hir,
    contract: ContractId,
    base: ContractId,
    count: nat,
) -> Found
    decreases count,
{
    if count == 0 {
        found
    } else {
        looked_at(
            found_in_base(found, hir, contract, base, (count - 1) as nat),
            hir,
            contract,
            base,
            hir.contracts@[base.0 as int].functions@[count - 1],
        )
    }
}

/// What is found in the first `count` bases of a contract.
pub open spec fn found_in_bases(hir: Hir, contract: ContractId, count: nat) -> Found
    decreases count,
{
    if count == 0 {
        nothing_found()
    } else {
        let base = hir.contracts@[contract.0 as int].linearized_bases@[count - 1];
        found_in_base(
            found_in_bases(hir, contract, (count - 1) as nat),
            hir,
            contract,
            base,
            hir.contracts@[base.0 as int].functions@.len(),
        )
    }
}

/// The functions of a contract and its bases, without the ones overridden.
pub open spec fn inherited_functions(hir: Hir, contract: ContractId) -> Seq<HirFunctionId> {
    found_in_bases(
        hir,
        contract,
        hir.contracts@[contract.0 as int].linearized_bases@.len(),
    ).functions
}

/// Collects all functions from the inheritance chain, handling overrides.
///
/// Functions from more-derived contracts take precedence over base contracts.
/// Ordinary functions are told apart by their selectors, the constructor,
/// fallback and receive functions by their kind. Constructors are not
/// inherited, and neither are private functions.
pub fn collect_inherited_functions(hir: &Hir, contract_id: ContractId) -> (r: Vec<HirFunctionId>)
    requires
        hir_wf(*hir),
        contract_id.0 < hir.contracts@.len(),
    ensures
        r@ == inherited_functions(*hir, contract_id),
{
    broadcast use vstd::std_specs::hash::group_hash_axioms;

    proof {
        reveal(hir_wf);
        assert(contract_fits(*hir, hir.contracts@[contract_id.0 as int]));
    }
    let bases = &hir.contracts[contract_id.0].linearized_bases;
    let mut seen: HashSet<u32> = HashSet::new();
    let mut has_constructor = false;
    let mut has_fallback = false;
    let mut has_receive = false;
    let mut functions: Vec<HirFunctionId> = Vec::new();
    let mut i: usize = 0;
    assert(seen@ =~= Set::<u32>::empty());
    assert(functions@ =~= Seq::<HirFunctionId>::empty());
    while i < bases.len()
        invariant
            i <= bases@.len(),
            hir_wf(*hir),
            contract_id.0 < hir.contracts@.len(),
            bases@ == hir.contracts@[contract_id.0 as int].linearized_bases@,
            has_contracts(*hir, bases@),
            vstd::std_specs::hash::obeys_key_model::<u32>(),
            vstd::std_specs::hash::builds_valid_hashers::<std::collections::hash_map::RandomState>(),
            found_in_bases(*hir, contract_id, i as nat) == (Found {
                functions: functions@,
                selectors: seen@,
                has_constructor,
                has_fallback,
                has_receive,
            }),
        decreases bases@.len() - i,
    {
        let base_id = bases[i];
        assert(bases@[i as int].0 < hir.contracts@.len());
        proof {
            reveal(hir_wf);
            assert(contract_fits(*hir, hir.contracts@[base_id.0 as int]));
        }
        let ids = &hir.contracts[base_id.0].functions;
        let ghost before = found_in_bases(*hir, contract_id, i as nat);
        let mut k: usize = 0;
        while k < ids.len()
            invariant
                k <= ids@.len(),
                contract_id.0 < hir.contracts@.len(),
                base_id.0 < hir.contracts@.len(),
                ids@ == hir.contracts@[base_id.0 as int].functions@,
                has_functions(*hir, ids@),
                vstd::std_specs::hash::obeys_key_model::<u32>(),
                vstd::std_specs::hash::builds_valid_hashers::<
                    std::collections::hash_map::RandomState,
                >(),
                found_in_base(before, *hir, contract_id, base_id, k as nat) == (Found {
                    functions: functions@,
                    selectors: seen@,
                    has_constructor,
                    has_fallback,
                    has_receive,
                }),
            decreases ids@.len() - k,
        {
            broadcast use vstd::std_specs::hash::group_hash_axioms;

            let id = ids[k];
            assert(ids@[k as int].0 < hir.functions@.len());
            let func = &hir.functions[id.0];
            match func.kind {
                FunctionKind::Constructor => {
                    if base_id == contract_id && !has_constructor {
                        has_constructor = true;
                        functions.push(id);
                    }
                },
                FunctionKind::Fallback => {
                    if !has_fallback {
                        has_fallback = true;
                        functions.push(id);
                    }
                },
                FunctionKind::Receive => {
                    if !has_receive {
                        has_receive = true;
                        functions.push(id);
                    }
                },
                FunctionKind::Function | FunctionKind::Modifier => {
                    let inherited = base_id == contract_id || !matches!(
                        func.visibility,
                        Visibility::Private
                    );
                    if inherited {
                        if matches!(func.visibility, Visibility::External | Visibility::Public) {
                            if !seen.contains(&func.selector) {
                                seen.insert(func.selector);
                                functions.push(id);
                            }
                        } else {
                            functions.push(id);
                        }
                    }
                },
            }
            k = k + 1;
            assert(found_in_base(before, *hir, contract_id, base_id, k as nat) =~= (Found {
                functions: functions@,
                selectors: seen@,
                has_constructor,
                has_fallback,
                has_receive,
            }));
        }
        i = i + 1;
    }
    functions
}

/// The variables of the last `count` contracts of a list, the last contract
/// first.
pub open spec fn variables_of(hir: Hir, bases: Seq<ContractId>, count: nat) -> Seq<VariableId>
    decreases count,
{
    if count == 0 {
        Seq::empty()
    } else {
        variables_of(hir, bases, (count - 1) as nat)
            + hir.contracts@[bases[bases.len() - count].0 as int].variables@
    }
}

/// The variables of a contract and its bases, the most basic contract first.
pub open spec fn all_variables(hir: Hir, contract: ContractId) -> Seq<VariableId> {
    let bases = hir.contracts@[contract.0 as int].linearized_bases@;
    variables_of(hir, bases, bases.len())
}

/// Returns the variables of a contract and its bases, the most basic contract
/// first.
pub fn collect_variables(hir: &Hir, contract_id: ContractId) -> (r: Vec<VariableId>)
    requires
        hir_wf(*hir),
        contract_id.0 < hir.contracts@.len(),
    ensures
        r@ == all_variables(*hir, contract_id),
        has_variables(*hir, r@),
{
    proof {
        reveal(hir_wf);
        assert(contract_fits(*hir, hir.contracts@[contract_id.0 as int]));
    }
    let bases = &hir.contracts[contract_id.0].linearized_bases;
    let mut found: Vec<VariableId> = Vec::new();
    let mut i: usize = 0;
    assert(found@ =~= variables_of(*hir, bases@, 0));
    while i < bases.len()
        invariant
            i <= bases@.len(),
            hir_wf(*hir),
            has_contracts(*hir, bases@),
            found@ == variables_of(*hir, bases@, i as nat),
            has_variables(*hir, found@),
        decreases bases@.len() - i,
    {
        let base_id = bases[bases.len() - 1 - i];
        assert(bases@[bases@.len() - 1 - i].0 < hir.contracts@.len());
        proof {
            reveal(hir_wf);
            assert(contract_fits(*hir, hir.contracts@[base_id.0 as int]));
        }
        let ids = &hir.contracts[base_id.0].variables;
        let ghost before = found@;
        let mut k: usize = 0;
        assert(found@ =~= before + ids@.take(0));
        while k < ids.len()
            invariant
                k <= ids@.len(),
                has_variables(*hir, ids@),
                has_variables(*hir, found@),
                found@ == before + ids@.take(k as int),
            decreases ids@.len() - k,
        {
            assert(ids@[k as int].0 < hir.variables@.len());
            found.push(ids[k]);
            k = k + 1;
            assert(found@ =~= before + ids@.take(k as int));
        }
        assert(ids@.take(ids@.len() as int) =~= ids@);
        i = i + 1;
    }
    found
}

/// Whether a variable takes storage.
pub open spec fn is_stored(var: Variable) -> bool {
    var.kind is State && var.mutability is Mutable
}

/// Whether a variable is an immutable of the contract.
pub open spec fn is_state_immutable(var: Variable) -> bool {
    var.kind is State && var.mutability is Immutable
}

/// The variables among the first `count` that take storage, each once.
pub open spec fn stored_among(hir: Hir, ids: Seq<VariableId>, count: nat) -> Seq<VariableId>
    decreases count,
{
    if count == 0 {
        Seq::empty()
    } else {
        let front = stored_among(hir, ids, (count - 1) as nat);
        let id = ids[count - 1];
        if is_stored(hir.variables@[id.0 as int]) && !front.contains(id) {
            front.push(id)
        } else {
            front
        }
    }
}

/// The immutables among the first `count` variables.
pub open spec fn immutables_among(hir: Hir, ids: Seq<VariableId>, count: nat) -> Seq<VariableId>
    decreases count,
{
    if count == 0 {
        Seq::empty()
    } else {
        let front = immutables_among(hir, ids, (count - 1) as nat);
        if is_state_immutable(hir.variables@[ids[count - 1].0 as int]) {
            front.push(ids[count - 1])
        } else {
            front
        }
    }
}

/// The variables of a contract that take storage, in the order of their slots:
/// those of a base come before those of the contracts derived from it.
pub open spec fn storage_order_of(hir: Hir, contract: ContractId) -> Seq<VariableId> {
    let ids = all_variables(hir, contract);
    stored_among(hir, ids, ids.len())
}

/// The immutables of a contract, in the order of their offsets.
pub open spec fn immutable_order_of(hir: Hir, contract: ContractId) -> Seq<VariableId> {
    let ids = all_variables(hir, contract);
    immutables_among(hir, ids, ids.len())
}

/// Whether a list holds a variable.
fn holds(ids: &Vec<VariableId>, id: VariableId) -> (r: bool)
    ensures
        r == ids@.contains(id),
{
    let mut i: usize = 0;
    while i < ids.len()
        invariant
            i <= ids@.len(),
            forall|k: int| 0 <= k < i ==> #[trigger] ids@[k] != id,
        decreases ids@.len() - i,
    {
        if ids[i] == id {
            return true;
        }
        i = i + 1;
    }
    false
}

/// Returns the variables of a contract that take storage, in the order of their
/// slots.
pub fn storage_order(hir: &Hir, contract_id: ContractId) -> (r: Vec<VariableId>)
    requires
        hir_wf(*hir),
        contract_id.0 < hir.contracts@.len(),
    ensures
        r@ == storage_order_of(*hir, contract_id),
        has_variables(*hir, r@),
{
    let ids = collect_variables(hir, contract_id);
    let mut order: Vec<VariableId> = Vec::new();
    let mut i: usize = 0;
    assert(order@ =~= stored_among(*hir, ids@, 0));
    while i < ids.len()
        invariant
            i <= ids@.len(),
            has_variables(*hir, ids@),
            has_variables(*hir, order@),
            order@ == stored_among(*hir, ids@, i as nat),
        decreases ids@.len() - i,
    {
        assert(ids@[i as int].0 < hir.variables@.len());
        let var = &hir.variables[ids[i].0];
        let stored = matches!(var.kind, VarKind::State) && matches!(
            var.mutability,
            VarMut::Mutable
        );
        if stored && !holds(&order, ids[i]) {
            order.push(ids[i]);
        }
        i = i + 1;
    }
    order
}

/// Returns the immutables of a contract, in the order of their offsets.
pub fn immutable_order(hir: &Hir, contract_id: ContractId) -> (r: Vec<VariableId>)
    requires
        hir_wf(*hir),
        contract_id.0 < hir.contracts@.len(),
    ensures
        r@ == immutable_order_of(*hir, contract_id),
{
    let ids = collect_variables(hir, contract_id);
    let mut order: Vec<VariableId> = Vec::new();
    let mut i: usize = 0;
    assert(order@ =~= immutables_among(*hir, ids@, 0));
    while i < ids.len()
        invariant
            i <= ids@.len(),
            has_variables(*hir, ids@),
            order@ == immutables_among(*hir, ids@, i as nat),
        decreases ids@.len() - i,
    {
        assert(ids@[i as int].0 < hir.variables@.len());
        let var = &hir.variables[ids[i].0];
        if matches!(var.kind, VarKind::State) && matches!(var.mutability, VarMut::Immutable) {
            order.push(ids[i]);
        }
        i = i + 1;
    }
    order
}

/// The slots of the first `count` variables.
pub open spec fn slots_given(
    slots: Map<usize, U256>,
    order: Seq<VariableId>,
    locations: Seq<StorageLocation>,
    count: nat,
) -> Map<usize, U256>
    decreases count,
{
    if count == 0 {
        slots
    } else {
        slots_given(slots, order, locations, (count - 1) as nat).insert(
            order[count - 1].0,
            locations[count - 1].slot,
        )
    }
}

/// The locations of the first `count` variables.
pub open spec fn locations_given(
    known: Map<usize, StorageLocation>,
    order: Seq<VariableId>,
    locations: Seq<StorageLocation>,
    count: nat,
) -> Map<usize, StorageLocation>
    decreases count,
{
    if count == 0 {
        known
    } else {
        locations_given(known, order, locations, (count - 1) as nat).insert(
            order[count - 1].0,
            locations[count - 1],
        )
    }
}

/// The base slots of the structs among the first `count` variables.
pub open spec fn struct_slots_given(
    hir: Hir,
    slots: Map<usize, U256>,
    order: Seq<VariableId>,
    locations: Seq<StorageLocation>,
    count: nat,
) -> Map<usize, U256>
    decreases count,
{
    if count == 0 {
        slots
    } else {
        let front = struct_slots_given(hir, slots, order, locations, (count - 1) as nat);
        if peeled(hir.variables@[order[count - 1].0 as int].ty) is Struct {
            front.insert(order[count - 1].0, locations[count - 1].slot)
        } else {
            front
        }
    }
}

/// The offsets of the first `count` immutables.
pub open spec fn offsets_given(
    offsets: Map<usize, u32>,
    order: Seq<VariableId>,
    first: u32,
    count: nat,
) -> Map<usize, u32>
    decreases count,
{
    if count == 0 {
        offsets
    } else {
        offsets_given(offsets, order, first, (count - 1) as nat).insert(
            order[count - 1].0,
            (first + (count - 1) * IMMUTABLE_WORD_SIZE) as u32,
        )
    }
}

impl Lowerer {
    /// Gives every state variable its storage location, and every immutable
    /// its offset in the code. The locations are those of
    /// [`storage_order`], in that order.
    pub fn allocate_storage(
        &mut self,
        hir: &Hir,
        contract_id: ContractId,
        locations: &Vec<StorageLocation>,
    )
        requires
            hir_wf(*hir),
            contract_id.0 < hir.contracts@.len(),
            old(self).storage_slots@ == Map::<usize, U256>::empty(),
            locations@.len() == storage_order_of(*hir, contract_id).len(),
            old(self).next_immutable_offset + immutable_order_of(*hir, contract_id).len()
                * IMMUTABLE_WORD_SIZE <= u32::MAX,
        ensures
            *final(self) == (Lowerer {
                module: final(self).module,
                storage_slots: final(self).storage_slots,
                storage_locations: final(self).storage_locations,
                struct_storage_base_slots: final(self).struct_storage_base_slots,
                immutable_slots: final(self).immutable_slots,
                next_immutable_offset: (old(self).next_immutable_offset + immutable_order_of(
                    *hir,
                    contract_id,
                ).len() * IMMUTABLE_WORD_SIZE) as u32,
                ..*old(self)
            }),
            final(self).storage_slots@ == slots_given(
                old(self).storage_slots@,
                storage_order_of(*hir, contract_id),
                locations@,
                locations@.len(),
            ),
            final(self).storage_locations@ == locations_given(
                old(self).storage_locations@,
                storage_order_of(*hir, contract_id),
                locations@,
                locations@.len(),
            ),
            final(self).struct_storage_base_slots@ == struct_slots_given(
                *hir,
                old(self).struct_storage_base_slots@,
                storage_order_of(*hir, contract_id),
                locations@,
                locations@.len(),
            ),
            final(self).immutable_slots@ == offsets_given(
                old(self).immutable_slots@,
                immutable_order_of(*hir, contract_id),
                old(self).next_immutable_offset,
                immutable_order_of(*hir, contract_id).len(),
            ),
            final(self).module@ == (ModuleView {
                immutables: old(self).module@.immutables + Seq::new(
                    immutable_order_of(*hir, contract_id).len(),
                    |i: int| MirType::uint256(),
                ),
                ..old(self).module@
            }),
    {
        broadcast use vstd::std_specs::hash::group_hash_axioms;

        let order = storage_order(hir, contract_id);
        let mut i: usize = 0;
        while i < order.len()
            invariant
                i <= order@.len(),
                order@ == storage_order_of(*hir, contract_id),
                has_variables(*hir, order@),
                locations@.len() == order@.len(),
                vstd::std_specs::hash::obeys_key_model::<usize>(),
                vstd::std_specs::hash::builds_valid_hashers::<
                    std::collections::hash_map::RandomState,
                >(),
                *self == (Lowerer {
                    storage_slots: self.storage_slots,
                    storage_locations: self.storage_locations,
                    struct_storage_base_slots: self.struct_storage_base_slots,
                    ..*old(self)
                }),
                self.storage_slots@ == slots_given(
                    old(self).storage_slots@,
                    order@,
                    locations@,
                    i as nat,
                ),
                self.storage_locations@ == locations_given(
                    old(self).storage_locations@,
                    order@,
                    locations@,
                    i as nat,
                ),
                self.struct_storage_base_slots@ == struct_slots_given(
                    *hir,
                    old(self).struct_storage_base_slots@,
                    order@,
                    locations@,
                    i as nat,
                ),
            decreases order@.len() - i,
        {
            broadcast use vstd::std_specs::hash::group_hash_axioms;

            let id = order[i];
            assert(order@[i as int].0 < hir.variables@.len());
            let location = locations[i];
            if let Ty::Struct(_) = hir.variables[id.0].ty.peel_refs() {
                self.struct_storage_base_slots.insert(id.0, location.slot);
            }
            self.storage_slots.insert(id.0, location.slot);
            self.storage_locations.insert(id.0, location);
            i = i + 1;
        }
        let ghost placed = *self;
        let immutables = immutable_order(hir, contract_id);
        let first: u32 = self.next_immutable_offset;
        let mut k: usize = 0;
        assert(self.module@.immutables =~= old(self).module@.immutables + Seq::new(
            0,
            |i: int| MirType::uint256(),
        ));
        while k < immutables.len()
            invariant
                k <= immutables@.len(),
                first == old(self).next_immutable_offset,
                first + immutables@.len() * IMMUTABLE_WORD_SIZE <= u32::MAX,
                vstd::std_specs::hash::obeys_key_model::<usize>(),
                vstd::std_specs::hash::builds_valid_hashers::<
                    std::collections::hash_map::RandomState,
                >(),
                *self == (Lowerer {
                    module: self.module,
                    immutable_slots: self.immutable_slots,
                    next_immutable_offset: (first + k * IMMUTABLE_WORD_SIZE) as u32,
                    ..placed
                }),
                self.immutable_slots@ == offsets_given(
                    old(self).immutable_slots@,
                    immutables@,
                    first,
                    k as nat,
                ),
                self.module@ == (ModuleView {
                    immutables: old(self).module@.immutables + Seq::new(
                        k as nat,
                        |i: int| MirType::uint256(),
                    ),
                    ..old(self).module@
                }),
            decreases immutables@.len() - k,
        {
            broadcast use vstd::std_specs::hash::group_hash_axioms;

            let offset = self.next_immutable_offset;
            self.next_immutable_offset = offset + IMMUTABLE_WORD_SIZE;
            self.immutable_slots.insert(immutables[k].0, offset);
            self.module.add_immutable();
            k = k + 1;
            assert(self.module@.immutables =~= old(self).module@.immutables + Seq::new(
                k as nat,
                |i: int| MirType::uint256(),
            ));
        }
    }
}

} // verus!
