//! Binding values to variables.

use crate::hir::{DataLocation, Hir, Variable, VariableId};
use crate::lower::emit::extends;
use crate::lower::objects::{buffer_base, load_offset, loaded_at, multi_return_buffer_base};
use crate::lower::plan_names::{is_calldata_slice, value_is_calldata_slice};
use crate::lower::state::{frame_offset, lookup, slice_stored, variable_stored, Lowerer};
use crate::lower::types::{calldata_dynamic_var_kind, calldata_kind};
use crate::memory::EvmMemoryLayout;
use crate::mir::builder::{
    constant, emitted, ended, group_builder_steps, word, BuilderView, FunctionBuilder,
};
use crate::mir::function::{has_block, has_value, has_values, next_value, FunctionView};
use crate::mir::inst::{inst, Op, TermView};
use crate::mir::types::{MirType, SliceLocation, ValueId};
use vstd::prelude::*;

verus! {

/// Where the variables of a function are.
#[verifier::ext_equal]
pub struct Places {
    /// Values of variables that never change.
    pub locals: Map<usize, ValueId>,
    /// Memory offsets of variables that change.
    pub memory: Map<usize, u64>,
    /// Variables whose two-word slot holds a slice.
    pub slices: Set<usize>,
    /// Variables whose value is a storage slot.
    pub references: Set<usize>,
    /// Next available memory offset.
    pub next: u64,
}

/// Where the variables of the function being lowered are.
pub open spec fn places(lowerer: Lowerer) -> Places {
    Places {
        locals: lowerer.locals@,
        memory: lowerer.local_memory_slots@,
        slices: lowerer.slice_slot_locals@,
        references: lowerer.storage_ref_locals@,
        next: lowerer.next_local_memory_offset,
    }
}

/// Whether two states differ only in where variables are.
pub open spec fn only_places_differ(before: Lowerer, after: Lowerer) -> bool {
    after == (Lowerer {
        locals: after.locals,
        local_memory_slots: after.local_memory_slots,
        slice_slot_locals: after.slice_slot_locals,
        storage_ref_locals: after.storage_ref_locals,
        next_local_memory_offset: after.next_local_memory_offset,
        ..before
    })
}

/// Whether so many words of memory are left for variables.
pub open spec fn room(internal: bool, func: FunctionView, next: u64, words: nat) -> bool {
    next + words * EvmMemoryLayout::WORD_SIZE <= u64::MAX && (internal ==> frame_offset(
        func,
        (next + words * EvmMemoryLayout::WORD_SIZE) as u64,
    ) <= u64::MAX)
}

/// The places after a variable gets the next word.
pub open spec fn with_word(p: Places, id: VariableId) -> Places {
    Places {
        memory: p.memory.insert(id.0, p.next),
        next: (p.next + EvmMemoryLayout::WORD_SIZE) as u64,
        ..p
    }
}

/// The places after a slice variable gets the next two words.
pub open spec fn with_two_words(p: Places, id: VariableId) -> Places {
    Places {
        memory: p.memory.insert(id.0, p.next),
        slices: p.slices.insert(id.0),
        next: (p.next + 2 * EvmMemoryLayout::WORD_SIZE) as u64,
        ..p
    }
}

/// The places after a variable gets a value.
pub open spec fn with_local(p: Places, id: VariableId, value: ValueId) -> Places {
    Places { locals: p.locals.insert(id.0, value), ..p }
}

/// The places after a variable is marked as a storage reference.
pub open spec fn with_reference(p: Places, id: VariableId) -> Places {
    Places { references: p.references.insert(id.0), ..p }
}

/// A variable bound to a value in a fresh word.
pub open spec fn bound_in_memory(
    p: Places,
    b: BuilderView,
    internal: bool,
    id: VariableId,
    value: ValueId,
) -> (Places, BuilderView) {
    (with_word(p, id), variable_stored(b, internal, p.next, value))
}

/// A slice variable bound to a value in two fresh words.
pub open spec fn bound_as_slice(
    p: Places,
    b: BuilderView,
    internal: bool,
    id: VariableId,
    value: ValueId,
) -> (Places, BuilderView) {
    (with_two_words(p, id), slice_stored(b, internal, p.next, value))
}

/// A freshly declared variable bound to a value: in memory if it is assigned
/// later, as two words if it is a call-data slice, and as it is otherwise.
pub open spec fn bound_local(
    p: Places,
    b: BuilderView,
    internal: bool,
    assigned: bool,
    var: Variable,
    id: VariableId,
    value: ValueId,
) -> (Places, BuilderView) {
    let p = if var.location == Some(DataLocation::Storage) {
        with_reference(p, id)
    } else {
        p
    };
    if !assigned {
        (with_local(p, id, value), b)
    } else if calldata_kind(var) is Some {
        bound_as_slice(p, b, internal, id, value)
    } else {
        bound_in_memory(p, b, internal, id, value)
    }
}

/// The first `count` variables of a declaration bound to their values.
#[verifier::opaque]
pub open spec fn bound_locals(
    p: Places,
    b: BuilderView,
    lowerer: Lowerer,
    hir: Hir,
    ids: Seq<Option<VariableId>>,
    values: Seq<ValueId>,
    count: nat,
) -> (Places, BuilderView)
    decreases count,
{
    if count == 0 {
        (p, b)
    } else {
        let (p, b) = bound_locals(p, b, lowerer, hir, ids, values, (count - 1) as nat);
        match ids[count - 1] {
            Some(id) => bound_local(
                p,
                b,
                lowerer.lowering_internal_function,
                lowerer.assigned_vars@.contains(id.0),
                hir.variables@[id.0 as int],
                id,
                values[count - 1],
            ),
            None => (p, b),
        }
    }
}

/// Whether the variables of a declaration are declared.
pub open spec fn slots_declared(hir: Hir, ids: Seq<Option<VariableId>>) -> bool {
    forall|i: int|
        0 <= i < ids.len() && (#[trigger] ids[i]) is Some ==> (ids[i]->0).0 < hir.variables@.len()
}

/// A parameter bound to its value: in memory if it is assigned later and no
/// storage reference, and as it is otherwise.
pub open spec fn bound_param(
    p: Places,
    b: BuilderView,
    internal: bool,
    in_memory: bool,
    id: VariableId,
    value: ValueId,
) -> (Places, BuilderView) {
    if in_memory {
        bound_in_memory(p, b, internal, id, value)
    } else {
        (with_local(p, id, value), b)
    }
}

impl Lowerer {
    /// Binds a value to a fresh word of memory.
    pub fn bind_memory<'a>(
        &mut self,
        builder: &mut FunctionBuilder<'a>,
        id: VariableId,
        value: ValueId,
    )
        requires
            old(builder).wf(),
            has_value(old(builder)@.func, value),
            room(
                old(self).lowering_internal_function,
                old(builder)@.func,
                old(self).next_local_memory_offset,
                1,
            ),
        ensures
            final(builder).wf(),
            only_places_differ(*old(self), *final(self)),
            (places(*final(self)), final(builder)@) == bound_in_memory(
                places(*old(self)),
                old(builder)@,
                old(self).lowering_internal_function,
                id,
                value,
            ),
            extends(old(builder)@, final(builder)@),
            final(builder)@.func.params == old(builder)@.func.params,
            final(builder)@.func.return_types == old(builder)@.func.return_types,
            *final(final(builder).func) == *final(old(builder).func),
    {
        let offset = self.alloc_local_memory(id);
        self.store_variable(builder, offset, value);
    }

    /// Binds a slice to two fresh words of memory.
    pub fn bind_slice<'a>(
        &mut self,
        builder: &mut FunctionBuilder<'a>,
        id: VariableId,
        value: ValueId,
    )
        requires
            old(builder).wf(),
            has_value(old(builder)@.func, value),
            room(
                old(self).lowering_internal_function,
                old(builder)@.func,
                old(self).next_local_memory_offset,
                2,
            ),
        ensures
            final(builder).wf(),
            only_places_differ(*old(self), *final(self)),
            (places(*final(self)), final(builder)@) == bound_as_slice(
                places(*old(self)),
                old(builder)@,
                old(self).lowering_internal_function,
                id,
                value,
            ),
            extends(old(builder)@, final(builder)@),
            final(builder)@.func.params == old(builder)@.func.params,
            final(builder)@.func.return_types == old(builder)@.func.return_types,
            *final(final(builder).func) == *final(old(builder).func),
    {
        let offset = self.alloc_local_slice_memory(id);
        self.store_slice_slot(builder, offset, value);
    }

    /// Binds a lowered value to a freshly declared local, mirroring
    /// single-declaration lowering: a reassigned local gets a memory slot (two
    /// words for a call-data slice), everything else stays a plain value.
    pub fn bind_local_value<'a>(
        &mut self,
        builder: &mut FunctionBuilder<'a>,
        hir: &Hir,
        id: VariableId,
        value: ValueId,
    )
        requires
            old(builder).wf(),
            has_value(old(builder)@.func, value),
            id.0 < hir.variables@.len(),
            room(
                old(self).lowering_internal_function,
                old(builder)@.func,
                old(self).next_local_memory_offset,
                2,
            ),
        ensures
            final(builder).wf(),
            only_places_differ(*old(self), *final(self)),
            (places(*final(self)), final(builder)@) == bound_local(
                places(*old(self)),
                old(builder)@,
                old(self).lowering_internal_function,
                old(self).assigned_vars@.contains(id.0),
                hir.variables@[id.0 as int],
                id,
                value,
            ),
            extends(old(builder)@, final(builder)@),
            final(builder)@.func.params == old(builder)@.func.params,
            final(builder)@.func.return_types == old(builder)@.func.return_types,
            *final(final(builder).func) == *final(old(builder).func),
    {
        let var = &hir.variables[id.0];
        if let Some(DataLocation::Storage) = var.location {
            self.mark_storage_ref(id);
        }
        if !self.is_var_assigned(id) {
            self.set_local(id, value);
        } else if calldata_dynamic_var_kind(var).is_some() {
            self.bind_slice(builder, id, value);
        } else {
            self.bind_memory(builder, id, value);
        }
    }

    /// Binds values to the variables of a declaration; omitted ones are
    /// skipped.
    pub fn bind_local_values<'a>(
        &mut self,
        builder: &mut FunctionBuilder<'a>,
        hir: &Hir,
        ids: &Vec<Option<VariableId>>,
        values: &Vec<ValueId>,
    )
        requires
            old(builder).wf(),
            ids@.len() == values@.len(),
            has_values(old(builder)@.func, values@),
            slots_declared(*hir, ids@),
            room(
                old(self).lowering_internal_function,
                old(builder)@.func,
                old(self).next_local_memory_offset,
                2 * ids@.len(),
            ),
        ensures
            final(builder).wf(),
            only_places_differ(*old(self), *final(self)),
            (places(*final(self)), final(builder)@) == bound_locals(
                places(*old(self)),
                old(builder)@,
                *old(self),
                *hir,
                ids@,
                values@,
                ids@.len(),
            ),
            extends(old(builder)@, final(builder)@),
            *final(final(builder).func) == *final(old(builder).func),
    {
        proof {
            reveal(bound_locals);
        }
        let mut i: usize = 0;
        while i < ids.len()
            invariant
                i <= ids@.len(),
                ids@.len() == values@.len(),
                builder.wf(),
                has_values(old(builder)@.func, values@),
                slots_declared(*hir, ids@),
                extends(old(builder)@, builder@),
                builder@.func.params == old(builder)@.func.params,
                builder@.func.return_types == old(builder)@.func.return_types,
                only_places_differ(*old(self), *self),
                self.next_local_memory_offset <= old(self).next_local_memory_offset + 2 * i
                    * EvmMemoryLayout::WORD_SIZE,
                room(
                    old(self).lowering_internal_function,
                    old(builder)@.func,
                    old(self).next_local_memory_offset,
                    2 * ids@.len(),
                ),
                (places(*self), builder@) == bound_locals(
                    places(*old(self)),
                    old(builder)@,
                    *old(self),
                    *hir,
                    ids@,
                    values@,
                    i as nat,
                ),
                *final(builder.func) == *final(old(builder).func),
            decreases ids@.len() - i,
        {
            proof {
                reveal(bound_locals);
                assert(has_value(old(builder)@.func, values@[i as int]));
            }
            if let Some(id) = ids[i] {
                assert(ids@[i as int] is Some);
                self.bind_local_value(builder, hir, id, values[i]);
            }
            i = i + 1;
        }
    }

    /// Binds a parameter's lowered value, mirroring local declarations: a
    /// reassigned parameter gets a memory slot, everything else stays a plain
    /// value. A storage reference is excluded: its value is a slot.
    pub fn bind_param_value<'a>(
        &mut self,
        builder: &mut FunctionBuilder<'a>,
        hir: &Hir,
        id: VariableId,
        value: ValueId,
    )
        requires
            old(builder).wf(),
            has_value(old(builder)@.func, value),
            id.0 < hir.variables@.len(),
            room(
                old(self).lowering_internal_function,
                old(builder)@.func,
                old(self).next_local_memory_offset,
                1,
            ),
        ensures
            final(builder).wf(),
            only_places_differ(*old(self), *final(self)),
            (places(*final(self)), final(builder)@) == bound_param(
                places(*old(self)),
                old(builder)@,
                old(self).lowering_internal_function,
                old(self).assigned_vars@.contains(id.0)
                    && !hir.variables@[id.0 as int].storage_ref,
                id,
                value,
            ),
            extends(old(builder)@, final(builder)@),
            *final(final(builder).func) == *final(old(builder).func),
    {
        if self.is_var_assigned(id) && !hir.variables[id.0].storage_ref {
            self.bind_memory(builder, id, value);
            return;
        }
        self.set_local(id, value);
    }

    /// Like [`Lowerer::bind_param_value`], but records the store to emit once
    /// every parameter is registered. The address of a slot depends on the
    /// number of parameters, so one computed while parameters are still being
    /// added differs from those of the reads that follow.
    pub fn bind_param_value_deferred(
        &mut self,
        hir: &Hir,
        id: VariableId,
        value: ValueId,
        deferred: &mut Vec<(u64, ValueId)>,
    )
        requires
            id.0 < hir.variables@.len(),
            old(self).next_local_memory_offset + EvmMemoryLayout::WORD_SIZE <= u64::MAX,
        ensures
            only_places_differ(*old(self), *final(self)),
            old(self).assigned_vars@.contains(id.0) && !hir.variables@[id.0 as int].storage_ref
                ==> {
                &&& places(*final(self)) == with_word(places(*old(self)), id)
                &&& final(deferred)@ == old(deferred)@.push(
                    (old(self).next_local_memory_offset, value),
                )
            },
            !(old(self).assigned_vars@.contains(id.0) && !hir.variables@[id.0 as int].storage_ref)
                ==> {
                &&& places(*final(self)) == with_local(places(*old(self)), id, value)
                &&& final(deferred)@ == old(deferred)@
            },
    {
        if self.is_var_assigned(id) && !hir.variables[id.0].storage_ref {
            let offset = self.alloc_local_memory(id);
            deferred.push((offset, value));
            return;
        }
        self.set_local(id, value);
    }

    /// Binds a storage-reference variable to a slot, or reserves a place for
    /// one without a slot: a reassigned one gets a word of memory, to which
    /// assignments write the slot.
    pub fn bind_storage_ref<'a>(
        &mut self,
        builder: &mut FunctionBuilder<'a>,
        id: VariableId,
        slot: Option<ValueId>,
    )
        requires
            old(builder).wf(),
            slot matches Some(value) ==> has_value(old(builder)@.func, value),
            room(
                old(self).lowering_internal_function,
                old(builder)@.func,
                old(self).next_local_memory_offset,
                1,
            ),
        ensures
            final(builder).wf(),
            only_places_differ(*old(self), *final(self)),
            (places(*final(self)), final(builder)@) == bound_reference(
                places(*old(self)),
                old(builder)@,
                old(self).lowering_internal_function,
                old(self).assigned_vars@.contains(id.0),
                id,
                slot,
            ),
            extends(old(builder)@, final(builder)@),
            *final(final(builder).func) == *final(old(builder).func),
    {
        if self.is_var_assigned(id) {
            let offset = self.alloc_local_memory(id);
            if let Some(value) = slot {
                self.store_variable(builder, offset, value);
            }
        } else if let Some(value) = slot {
            self.set_local(id, value);
        }
    }

    /// Binds the initial value of a declared variable.
    pub fn bind_declared<'a>(
        &mut self,
        builder: &mut FunctionBuilder<'a>,
        hir: &Hir,
        id: VariableId,
        needs_memory: bool,
        value: ValueId,
    )
        requires
            old(builder).wf(),
            has_value(old(builder)@.func, value),
            id.0 < hir.variables@.len(),
            room(
                old(self).lowering_internal_function,
                old(builder)@.func,
                old(self).next_local_memory_offset,
                2,
            ),
        ensures
            final(builder).wf(),
            only_places_differ(*old(self), *final(self)),
            (places(*final(self)), final(builder)@) == bound_declared(
                places(*old(self)),
                old(builder)@,
                old(self).lowering_internal_function,
                needs_memory,
                hir.variables@[id.0 as int],
                id,
                value,
            ),
            extends(old(builder)@, final(builder)@),
            *final(final(builder).func) == *final(old(builder).func),
    {
        if !needs_memory {
            self.set_local(id, value);
        } else if calldata_dynamic_var_kind(&hir.variables[id.0]).is_some() {
            self.bind_slice(builder, id, value);
        } else {
            self.bind_memory(builder, id, value);
        }
    }

    /// Gathers the results of a call for the targets that are given: the first
    /// is at hand, the others are loaded from the multi-return buffer before
    /// anything is stored, which keeps the unbumped buffer independent of the
    /// stores.
    pub fn gather_results<'a>(
        builder: &mut FunctionBuilder<'a>,
        given: &Vec<bool>,
        first: ValueId,
    ) -> (r: Vec<ValueId>)
        requires
            old(builder).wf(),
            has_value(old(builder)@.func, first),
            given@.len() * 32 <= u64::MAX,
        ensures
            final(builder).wf(),
            (final(builder)@, r@) == results_for(old(builder)@, given@, first),
            r@.len() == given@.len(),
            has_values(final(builder)@.func, r@),
            extends(old(builder)@, final(builder)@),
            final(builder)@.func.params == old(builder)@.func.params,
            final(builder)@.func.return_types == old(builder)@.func.return_types,
            *final(final(builder).func) == *final(old(builder).func),
    {
        broadcast use group_builder_steps;

        proof {
            reveal(results_for);
            reveal(given_results);
            reveal(buffer_base);
        }
        let mut any_tail = false;
        let mut k: usize = 1;
        while k < given.len()
            invariant
                1 <= k,
                k <= given@.len() || k == 1,
                any_tail == exists|i: int| 1 <= i < k && #[trigger] given@[i],
            decreases given@.len() - k,
        {
            if given[k] {
                any_tail = true;
            }
            k = k + 1;
        }
        let base = if any_tail {
            multi_return_buffer_base(builder)
        } else {
            first
        };
        let ghost begin = builder@;
        let mut values: Vec<ValueId> = Vec::new();
        let mut i: usize = 0;
        while i < given.len()
            invariant
                i <= given@.len(),
                given@.len() * 32 <= u64::MAX,
                builder.wf(),
                has_value(begin.func, base),
                has_value(begin.func, first),
                extends(old(builder)@, begin),
                extends(begin, builder@),
                begin.func.params == old(builder)@.func.params,
                begin.func.return_types == old(builder)@.func.return_types,
                builder@.func.params == begin.func.params,
                builder@.func.return_types == begin.func.return_types,
                values@.len() == i,
                has_values(builder@.func, values@),
                (builder@, values@) == given_results(begin, base, given@, first, i as nat),
                *final(builder.func) == *final(old(builder).func),
            decreases given@.len() - i,
        {
            broadcast use group_builder_steps;

            proof {
                reveal(given_results);
                reveal(loaded_at);
            }
            if i > 0 && given[i] {
                let value = load_offset(builder, base, i as u64 * 32);
                values.push(value);
            } else {
                values.push(first);
            }
            i = i + 1;
        }
        values
    }

    /// Binds the results of a call to the variables of a declaration, each in a
    /// fresh word. Storage references are marked.
    pub fn bind_results<'a>(
        &mut self,
        builder: &mut FunctionBuilder<'a>,
        hir: &Hir,
        ids: &Vec<Option<VariableId>>,
        values: &Vec<ValueId>,
    )
        requires
            old(builder).wf(),
            ids@.len() == values@.len(),
            has_values(old(builder)@.func, values@),
            slots_declared(*hir, ids@),
            room(
                old(self).lowering_internal_function,
                old(builder)@.func,
                old(self).next_local_memory_offset,
                ids@.len(),
            ),
        ensures
            final(builder).wf(),
            only_places_differ(*old(self), *final(self)),
            (places(*final(self)), final(builder)@) == results_bound(
                places(*old(self)),
                old(builder)@,
                old(self).lowering_internal_function,
                *hir,
                ids@,
                values@,
                ids@.len(),
            ),
            extends(old(builder)@, final(builder)@),
            *final(final(builder).func) == *final(old(builder).func),
    {
        proof {
            reveal(results_bound);
        }
        let mut i: usize = 0;
        while i < ids.len()
            invariant
                i <= ids@.len(),
                ids@.len() == values@.len(),
                builder.wf(),
                has_values(old(builder)@.func, values@),
                slots_declared(*hir, ids@),
                extends(old(builder)@, builder@),
                builder@.func.params == old(builder)@.func.params,
                builder@.func.return_types == old(builder)@.func.return_types,
                only_places_differ(*old(self), *self),
                self.next_local_memory_offset <= old(self).next_local_memory_offset + i
                    * EvmMemoryLayout::WORD_SIZE,
                room(
                    old(self).lowering_internal_function,
                    old(builder)@.func,
                    old(self).next_local_memory_offset,
                    ids@.len(),
                ),
                (places(*self), builder@) == results_bound(
                    places(*old(self)),
                    old(builder)@,
                    old(self).lowering_internal_function,
                    *hir,
                    ids@,
                    values@,
                    i as nat,
                ),
                *final(builder.func) == *final(old(builder).func),
            decreases ids@.len() - i,
        {
            proof {
                reveal(results_bound);
                assert(has_value(old(builder)@.func, values@[i as int]));
            }
            if let Some(id) = ids[i] {
                assert(ids@[i as int] is Some);
                self.bind_memory(builder, id, values[i]);
                if let Some(DataLocation::Storage) = hir.variables[id.0].location {
                    self.mark_storage_ref(id);
                }
            }
            i = i + 1;
        }
    }

    /// Replaces the offset or the length of a slice variable that has no place
    /// in memory. A variable that is not bound to a slice has the empty one.
    pub fn set_slice_component<'a>(
        &mut self,
        builder: &mut FunctionBuilder<'a>,
        id: VariableId,
        is_length: bool,
        value: ValueId,
    )
        requires
            old(builder).wf(),
            has_value(old(builder)@.func, value),
            lookup(old(self).locals@, id) matches Some(slice) ==> has_value(
                old(builder)@.func,
                slice,
            ),
        ensures
            final(builder).wf(),
            only_places_differ(*old(self), *final(self)),
            (places(*final(self)), final(builder)@) == slice_component_set(
                places(*old(self)),
                old(builder)@,
                id,
                is_length,
                value,
            ),
            extends(old(builder)@, final(builder)@),
            *final(final(builder).func) == *final(old(builder).func),
    {
        broadcast use group_builder_steps;

        let current: Option<ValueId> = match self.get_local(id) {
            Some(slice) => if value_is_calldata_slice(builder.func, slice) {
                Some(slice)
            } else {
                None
            },
            None => None,
        };
        let (ptr, len) = if is_length {
            let ptr = match current {
                Some(slice) => builder.slice_ptr(slice),
                None => builder.imm_u64(0),
            };
            (ptr, value)
        } else {
            let len = match current {
                Some(slice) => builder.slice_len(slice),
                None => builder.imm_u64(0),
            };
            (value, len)
        };
        let slice = builder.make_slice(ptr, len, SliceLocation::Calldata);
        self.set_local(id, slice);
    }

    /// Delivers an inlined body's `return` values to its call site: each value
    /// is stored into the matching return variable's slot (two words for a
    /// call-data slice, one otherwise) and control jumps to the inline exit
    /// block.
    pub fn deliver_inline_return<'a>(
        &mut self,
        builder: &mut FunctionBuilder<'a>,
        return_vars: &Vec<VariableId>,
        exit_block: crate::mir::types::BlockId,
        values: &Vec<ValueId>,
    )
        requires
            old(builder).wf(),
            has_values(old(builder)@.func, values@),
            has_block(old(builder)@.func, exit_block),
            forall|i: int|
                0 <= i < return_vars@.len() ==> crate::lower::names::variable_placed(
                    *old(self),
                    old(builder)@,
                    #[trigger] return_vars@[i],
                ),
        ensures
            final(builder).wf(),
            only_places_differ(*old(self), *final(self)),
            (places(*final(self)), final(builder)@) == inline_returned(
                places(*old(self)),
                old(builder)@,
                old(self).lowering_internal_function,
                return_vars@,
                exit_block,
                values@,
            ),
            extends(old(builder)@, final(builder)@),
            *final(final(builder).func) == *final(old(builder).func),
    {
        broadcast use group_builder_steps;

        proof {
            reveal(results_delivered);
        }
        let mut i: usize = 0;
        while i < return_vars.len()
            invariant
                i <= return_vars@.len(),
                builder.wf(),
                has_values(old(builder)@.func, values@),
                has_block(old(builder)@.func, exit_block),
                extends(old(builder)@, builder@),
                builder@.func.params == old(builder)@.func.params,
                builder@.func.return_types == old(builder)@.func.return_types,
                only_places_differ(*old(self), *self),
                self.local_memory_slots@ == old(self).local_memory_slots@,
                self.slice_slot_locals@ == old(self).slice_slot_locals@,
                forall|i: int|
                    0 <= i < return_vars@.len() ==> crate::lower::names::variable_placed(
                        *old(self),
                        old(builder)@,
                        #[trigger] return_vars@[i],
                    ),
                (places(*self), builder@) == results_delivered(
                    places(*old(self)),
                    old(builder)@,
                    old(self).lowering_internal_function,
                    return_vars@,
                    values@,
                    i as nat,
                ),
                *final(builder.func) == *final(old(builder).func),
            decreases return_vars@.len() - i,
        {
            broadcast use group_builder_steps;

            proof {
                reveal(results_delivered);
            }
            let id = return_vars[i];
            assert(crate::lower::names::variable_placed(
                *old(self),
                old(builder)@,
                return_vars@[i as int],
            ));
            if i < values.len() {
                assert(has_value(old(builder)@.func, values@[i as int]));
                match self.get_local_memory_offset(id) {
                    Some(offset) => {
                        if self.is_slice_slot_local(id) {
                            self.store_slice_slot(builder, offset, values[i]);
                        } else {
                            self.store_variable(builder, offset, values[i]);
                        }
                    },
                    None => {
                        self.set_local(id, values[i]);
                    },
                }
            }
            i = i + 1;
        }
        builder.jump(exit_block);
    }
}

/// A storage-reference variable bound to a slot, if it has one.
pub open spec fn bound_reference(
    p: Places,
    b: BuilderView,
    internal: bool,
    assigned: bool,
    id: VariableId,
    slot: Option<ValueId>,
) -> (Places, BuilderView) {
    if assigned {
        match slot {
            Some(value) => bound_in_memory(p, b, internal, id, value),
            None => (with_word(p, id), b),
        }
    } else {
        match slot {
            Some(value) => (with_local(p, id, value), b),
            None => (p, b),
        }
    }
}

/// A declared variable bound to its initial value.
pub open spec fn bound_declared(
    p: Places,
    b: BuilderView,
    internal: bool,
    needs_memory: bool,
    var: Variable,
    id: VariableId,
    value: ValueId,
) -> (Places, BuilderView) {
    if !needs_memory {
        (with_local(p, id, value), b)
    } else if calldata_kind(var) is Some {
        bound_as_slice(p, b, internal, id, value)
    } else {
        bound_in_memory(p, b, internal, id, value)
    }
}

/// The results for the first `count` targets; those that are not given, and the
/// first, are the first result.
#[verifier::opaque]
pub open spec fn given_results(
    b: BuilderView,
    base: ValueId,
    given: Seq<bool>,
    first: ValueId,
    count: nat,
) -> (BuilderView, Seq<ValueId>)
    decreases count,
{
    if count == 0 {
        (b, Seq::empty())
    } else {
        let (b, front) = given_results(b, base, given, first, (count - 1) as nat);
        if count > 1 && given[count - 1] {
            let (b, value) = loaded_at(b, base, ((count - 1) * 32) as u64);
            (b, front.push(value))
        } else {
            (b, front.push(first))
        }
    }
}

/// The results of a call for the targets that are given. The base of the buffer
/// is loaded only if a later target is given.
#[verifier::opaque]
pub open spec fn results_for(b: BuilderView, given: Seq<bool>, first: ValueId) -> (
    BuilderView,
    Seq<ValueId>,
) {
    let (b, base) = if exists|i: int| 1 <= i < given.len() && #[trigger] given[i] {
        buffer_base(b)
    } else {
        (b, first)
    };
    given_results(b, base, given, first, given.len())
}

/// The first `count` variables of a declaration bound to results.
#[verifier::opaque]
pub open spec fn results_bound(
    p: Places,
    b: BuilderView,
    internal: bool,
    hir: Hir,
    ids: Seq<Option<VariableId>>,
    values: Seq<ValueId>,
    count: nat,
) -> (Places, BuilderView)
    decreases count,
{
    if count == 0 {
        (p, b)
    } else {
        let (p, b) = results_bound(p, b, internal, hir, ids, values, (count - 1) as nat);
        match ids[count - 1] {
            Some(id) => {
                let (p, b) = bound_in_memory(p, b, internal, id, values[count - 1]);
                if hir.variables@[id.0 as int].location == Some(DataLocation::Storage) {
                    (with_reference(p, id), b)
                } else {
                    (p, b)
                }
            },
            None => (p, b),
        }
    }
}

/// A component of a slice, or zero where there is no slice.
pub open spec fn component_of(b: BuilderView, slice: Option<ValueId>, is_length: bool) -> (
    BuilderView,
    ValueId,
) {
    match slice {
        Some(slice) => (
            emitted(
                b,
                inst(
                    if is_length {
                        Op::SliceLen
                    } else {
                        Op::SlicePtr
                    },
                    seq![slice],
                ),
                Some(MirType::uint256()),
            ),
            next_value(b.func),
        ),
        None => (constant(b, word(0)), next_value(b.func)),
    }
}

/// A slice variable with its offset or length replaced.
pub open spec fn slice_component_set(
    p: Places,
    b: BuilderView,
    id: VariableId,
    is_length: bool,
    value: ValueId,
) -> (Places, BuilderView) {
    let current = match lookup(p.locals, id) {
        Some(slice) => if is_calldata_slice(b.func, slice) {
            Some(slice)
        } else {
            None
        },
        None => None,
    };
    let (b, other) = component_of(b, current, !is_length);
    let parts = if is_length {
        seq![other, value]
    } else {
        seq![value, other]
    };
    (
        with_local(p, id, next_value(b.func)),
        emitted(
            b,
            inst(Op::MakeSlice { location: SliceLocation::Calldata }, parts),
            Some(MirType::Slice(SliceLocation::Calldata)),
        ),
    )
}

/// The first `count` return variables after they got their values.
#[verifier::opaque]
pub open spec fn results_delivered(
    p: Places,
    b: BuilderView,
    internal: bool,
    return_vars: Seq<VariableId>,
    values: Seq<ValueId>,
    count: nat,
) -> (Places, BuilderView)
    decreases count,
{
    if count == 0 {
        (p, b)
    } else {
        let (p, b) = results_delivered(p, b, internal, return_vars, values, (count - 1) as nat);
        let id = return_vars[count - 1];
        if count > values.len() {
            (p, b)
        } else {
            match lookup(p.memory, id) {
                Some(offset) => if p.slices.contains(id.0) {
                    (p, slice_stored(b, internal, offset, values[count - 1]))
                } else {
                    (p, variable_stored(b, internal, offset, values[count - 1]))
                },
                None => (with_local(p, id, values[count - 1]), b),
            }
        }
    }
}

/// A return of an inlined body.
pub open spec fn inline_returned(
    p: Places,
    b: BuilderView,
    internal: bool,
    return_vars: Seq<VariableId>,
    exit_block: crate::mir::types::BlockId,
    values: Seq<ValueId>,
) -> (Places, BuilderView) {
    let (p, b) = results_delivered(p, b, internal, return_vars, values, return_vars.len());
    (p, ended(b, TermView::Jump(exit_block)))
}

} // verus!
