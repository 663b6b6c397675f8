//! Tasks that load, store and bind variables.

use crate::hir::{Hir, Ty, VariableId};
use crate::lower::bind::{
    bound_declared, bound_in_memory, bound_local, bound_locals, bound_reference, inline_returned,
    places, results_bound, results_for, room, slice_component_set, slots_declared, with_local,
    with_reference, with_word, Places,
};
use crate::lower::defaults::{defaults_fit, spanned, struct_declared};
use crate::lower::emit::extends;
use crate::lower::machine::{
    block_exists, cut, did, framed, lemma_taken_exist, ready, scene, taken, top, value_exists,
    Machine, Scene, Step, StepView,
};
use crate::lower::names::variable_placed;
use crate::lower::objects::{
    buffer_base, gather_multi_return_values, loaded_at, results_gathered, results_loaded,
};
use crate::lower::plan::Task;
use crate::lower::results::{
    body_view, default_result, default_variable, result_reserved, DefaultValue,
};
use crate::lower::state::{
    error_emitted, immutable_loaded, immutable_stored, lookup, offset_fits, slice_loaded,
    slice_offset_fits, slice_stored, variable_loaded, variable_stored, Complaint, Lowerer,
};
use crate::memory::EvmMemoryLayout;
use crate::mir::builder::{constant, group_builder_steps, word, BuilderView, FunctionBuilder};
use crate::mir::function::{has_block, has_value, has_values, next_value};
use crate::mir::types::{SliceLocation, Span, ValueId};
use vstd::prelude::*;

verus! {

/// Whether so many words of memory are left for variables.
pub fn has_room<'b>(lowerer: &Lowerer, builder: &FunctionBuilder<'b>, words: usize) -> (r: bool)
    requires
        builder.wf(),
    ensures
        r == room(
            lowerer.lowering_internal_function,
            builder@.func,
            lowerer.next_local_memory_offset,
            words as nat,
        ),
{
    let end: u128 = lowerer.next_local_memory_offset as u128 + words as u128 * 32;
    if end > 0xffff_ffff_ffff_ffff {
        return false;
    }
    offset_has_address(lowerer, builder, end as u64)
}

/// Whether a variable at an offset has an address.
pub fn offset_has_address<'b>(
    lowerer: &Lowerer,
    builder: &FunctionBuilder<'b>,
    offset: u64,
) -> (r: bool)
    requires
        builder.wf(),
    ensures
        r == offset_fits(lowerer.lowering_internal_function, builder@.func, offset),
{
    if !lowerer.lowering_internal_function {
        return true;
    }
    let heap: u64 = EvmMemoryLayout::HEAP_START;
    let local: u64 = if offset >= heap {
        offset - heap
    } else {
        0
    };
    let frame: u128 = 32 + builder.func.params.len() as u128 * 32
        + builder.func.return_types.len() as u128 * 32 + local as u128;
    frame <= 0xffff_ffff_ffff_ffff
}

/// Whether a slice at an offset has an address for both of its words.
pub fn slice_has_address<'b>(
    lowerer: &Lowerer,
    builder: &FunctionBuilder<'b>,
    offset: u64,
) -> (r: bool)
    requires
        builder.wf(),
    ensures
        r == slice_offset_fits(lowerer.lowering_internal_function, builder@.func, offset),
{
    offset <= u64::MAX - 32 && offset_has_address(lowerer, builder, offset) && offset_has_address(
        lowerer,
        builder,
        offset + 32,
    )
}

/// Whether the value and the place of a variable belong to the function.
pub fn variable_has_place<'b>(
    lowerer: &Lowerer,
    builder: &FunctionBuilder<'b>,
    id: VariableId,
) -> (r: bool)
    requires
        builder.wf(),
    ensures
        r == variable_placed(*lowerer, builder@, id),
{
    if let Some(value) = lowerer.get_local(id) {
        if !value_exists(builder, value) {
            return false;
        }
    }
    if let Some(offset) = lowerer.get_local_memory_offset(id) {
        if !offset_has_address(lowerer, builder, offset) {
            return false;
        }
        if lowerer.is_slice_slot_local(id) && !slice_has_address(lowerer, builder, offset) {
            return false;
        }
    }
    true
}

/// Whether the struct in a type is declared.
pub fn struct_is_declared(hir: &Hir, ty: &Ty) -> (r: bool)
    ensures
        r == struct_declared(*hir, *ty),
    decreases ty,
{
    match ty {
        Ty::Ref(inner, _) => struct_is_declared(hir, inner),
        Ty::Array(element, _) => struct_is_declared(hir, element),
        Ty::Struct(id) => id.0 < hir.structs.len(),
        _ => true,
    }
}

/// Whether the variables among some are declared.
fn are_declared(hir: &Hir, ids: &Vec<Option<VariableId>>) -> (r: bool)
    ensures
        r == slots_declared(*hir, ids@),
{
    let mut i: usize = 0;
    while i < ids.len()
        invariant
            i <= ids@.len(),
            forall|k: int|
                0 <= k < i && (#[trigger] ids@[k]) is Some ==> (ids@[k]->0).0
                    < hir.variables@.len(),
        decreases ids@.len() - i,
    {
        if let Some(id) = ids[i] {
            if id.0 >= hir.variables.len() {
                assert(ids@[i as int] is Some);
                return false;
            }
        }
        i = i + 1;
    }
    true
}

/// Whether all of some values exist.
pub fn values_exist<'b>(builder: &FunctionBuilder<'b>, values: &Vec<ValueId>) -> (r: bool)
    requires
        builder.wf(),
    ensures
        r == has_values(builder@.func, values@),
{
    let mut i: usize = 0;
    while i < values.len()
        invariant
            i <= values@.len(),
            builder.wf(),
            forall|k: int| 0 <= k < i ==> has_value(builder@.func, #[trigger] values@[k]),
        decreases values@.len() - i,
    {
        if !value_exists(builder, values[i]) {
            assert(!has_value(builder@.func, values@[i as int]));
            return false;
        }
        i = i + 1;
    }
    true
}

/// Copies values.
pub fn copy_values(values: &Vec<ValueId>) -> (r: Vec<ValueId>)
    ensures
        r@ == values@,
{
    let mut copy: Vec<ValueId> = Vec::new();
    let mut i: usize = 0;
    while i < values.len()
        invariant
            i <= values@.len(),
            copy@ == values@.take(i as int),
        decreases values@.len() - i,
    {
        copy.push(values[i]);
        i = i + 1;
        assert(copy@ =~= values@.take(i as int));
    }
    assert(copy@ =~= values@);
    copy
}

/// Copies variables.
fn copy_ids(ids: &Vec<VariableId>) -> (r: Vec<VariableId>)
    ensures
        r@ == ids@,
{
    let mut copy: Vec<VariableId> = Vec::new();
    let mut i: usize = 0;
    while i < ids.len()
        invariant
            i <= ids@.len(),
            copy@ == ids@.take(i as int),
        decreases ids@.len() - i,
    {
        copy.push(ids[i]);
        i = i + 1;
        assert(copy@ =~= ids@.take(i as int));
    }
    assert(copy@ =~= ids@);
    copy
}

/// The results of a call that a declaration of `count` variables binds, where
/// an inlined callee left some: the first stands in for any that are missing.
pub open spec fn pending_values(pending: Seq<ValueId>, first: ValueId, count: nat) -> Seq<ValueId> {
    Seq::new(
        count,
        |i: int|
            if i < pending.len() {
                pending[i]
            } else {
                first
            },
    )
}

/// Returns the results of a call that a declaration of `count` variables binds,
/// where an inlined callee left some.
pub fn fill_pending(pending: &Vec<ValueId>, first: ValueId, count: usize) -> (r: Vec<ValueId>)
    ensures
        r@ == pending_values(pending@, first, count as nat),
{
    let mut values: Vec<ValueId> = Vec::new();
    let mut i: usize = 0;
    while i < count
        invariant
            i <= count,
            values@ == pending_values(pending@, first, count as nat).take(i as int),
        decreases count - i,
    {
        if i < pending.len() {
            values.push(pending[i]);
        } else {
            values.push(first);
        }
        i = i + 1;
        assert(values@ =~= pending_values(pending@, first, count as nat).take(i as int));
    }
    assert(values@ =~= pending_values(pending@, first, count as nat));
    values
}

/// Which of some places are given.
pub open spec fn given_flags<T>(items: Seq<Option<T>>) -> Seq<bool> {
    items.map_values(|item: Option<T>| item is Some)
}

/// Returns which of some variables are given.
fn flags_of_ids(ids: &Vec<Option<VariableId>>) -> (r: Vec<bool>)
    ensures
        r@ == given_flags(ids@),
{
    let mut flags: Vec<bool> = Vec::new();
    let mut i: usize = 0;
    while i < ids.len()
        invariant
            i <= ids@.len(),
            flags@ == given_flags(ids@).take(i as int),
        decreases ids@.len() - i,
    {
        flags.push(ids[i].is_some());
        i = i + 1;
        assert(flags@ =~= given_flags(ids@).take(i as int));
    }
    assert(flags@ =~= given_flags(ids@));
    flags
}

/// The state after a step that finds a default value or makes a complaint.
pub open spec fn defaulted(
    s: Scene,
    found: DefaultValue,
    at: Span,
    complaint: Complaint,
    span: Span,
) -> Scene {
    let complaints = s.complaints + spanned(found.2, at);
    match found.1 {
        Some(value) => Scene { b: found.0, values: s.values.push(value), complaints, ..s },
        None => {
            let (b, value) = error_emitted(found.0);
            Scene {
                b,
                values: s.values.push(value),
                complaints: complaints.push((span, complaint)),
                ..s
            }
        },
    }
}

/// The places without the values of the first `count` variables.
pub open spec fn without_locals(
    locals: Map<usize,
    ValueId>,
    ids: Seq<VariableId>,
    count: nat,
) -> Map<
    usize,
    ValueId,
>
    decreases count,
{
    if count == 0 {
        locals
    } else {
        without_locals(locals, ids, (count - 1) as nat).remove(ids[count - 1].0)
    }
}

/// Where an inlined body returns to exists, and so do the places of its return
/// variables.
pub open spec fn inline_ready(lowerer: Lowerer, b: BuilderView) -> bool {
    match lowerer.inline_returns {
        Some(ctx) => has_block(b.func, ctx.exit_block) && forall|i: int|
            0 <= i < ctx.return_vars@.len() ==> variable_placed(
                lowerer,
                b,
                #[trigger] ctx.return_vars@[i],
            ),
        None => false,
    }
}

/// Whether where an inlined body returns to exists, and the places of its
/// return variables.
fn is_inline_ready<'b>(lowerer: &Lowerer, builder: &FunctionBuilder<'b>) -> (r: bool)
    requires
        builder.wf(),
    ensures
        r == inline_ready(*lowerer, builder@),
{
    let ctx = match &lowerer.inline_returns {
        Some(ctx) => ctx,
        None => {
            return false;
        },
    };
    if !block_exists(builder, ctx.exit_block) {
        return false;
    }
    let mut i: usize = 0;
    while i < ctx.return_vars.len()
        invariant
            i <= ctx.return_vars@.len(),
            builder.wf(),
            lowerer.inline_returns == Some(*ctx),
            has_block(builder@.func, ctx.exit_block),
            forall|k: int|
                0 <= k < i ==> variable_placed(*lowerer, builder@, #[trigger] ctx.return_vars@[k]),
        decreases ctx.return_vars@.len() - i,
    {
        if !variable_has_place(lowerer, builder, ctx.return_vars[i]) {
            assert(!variable_placed(*lowerer, builder@, ctx.return_vars@[i as int]));
            return false;
        }
        i = i + 1;
    }
    true
}

/// Loading results leaves the signature alone.
proof fn lemma_loaded_signature(b: BuilderView, base: ValueId, from: nat, end: nat)
    ensures
        results_loaded(b, base, from, end).0.func.params == b.func.params,
        results_loaded(b, base, from, end).0.func.return_types == b.func.return_types,
    decreases end,
{
    broadcast use group_builder_steps;

    reveal(results_loaded);
    reveal(loaded_at);
    if end > from {
        lemma_loaded_signature(b, base, from, (end - 1) as nat);
    }
}

/// Gathering results leaves the signature alone.
proof fn lemma_gathered_signature(b: BuilderView, first: ValueId, count: nat)
    ensures
        results_gathered(b, first, count).0.func.params == b.func.params,
        results_gathered(b, first, count).0.func.return_types == b.func.return_types,
{
    broadcast use group_builder_steps;

    reveal(results_gathered);
    reveal(buffer_base);
    let (next, base) = buffer_base(b);
    lemma_loaded_signature(next, base, 1, count);
}

impl Lowerer {
    /// Forgets the values of variables.
    pub fn forget_locals(&mut self, ids: &Vec<VariableId>)
        ensures
            *final(self) == (Lowerer { locals: final(self).locals, ..*old(self) }),
            final(self).locals@ == without_locals(old(self).locals@, ids@, ids@.len()),
    {
        broadcast use vstd::std_specs::hash::group_hash_axioms;

        let mut i: usize = 0;
        while i < ids.len()
            invariant
                i <= ids@.len(),
                *self == (Lowerer { locals: self.locals, ..*old(self) }),
                self.locals@ == without_locals(old(self).locals@, ids@, i as nat),
            decreases ids@.len() - i,
        {
            broadcast use vstd::std_specs::hash::group_hash_axioms;

            let _ = self.locals.remove(&ids[i].0);
            i = i + 1;
            assert(self.locals@ =~= without_locals(old(self).locals@, ids@, i as nat));
        }
    }
}

/// Whether the parameters that live in memory can be stored.
pub open spec fn deferred_fit(
    b: BuilderView,
    internal: bool,
    deferred: Seq<(u64, ValueId)>,
) -> bool {
    forall|i: int|
        0 <= i < deferred.len() ==> has_value(b.func, (#[trigger] deferred[i]).1) && offset_fits(
            internal,
            b.func,
            deferred[i].0,
        )
}

/// The builder after storing the first `count` parameters that live in memory.
pub open spec fn params_stored(
    b: BuilderView,
    internal: bool,
    deferred: Seq<(u64, ValueId)>,
    count: nat,
) -> BuilderView
    decreases count,
{
    if count == 0 {
        b
    } else {
        variable_stored(
            params_stored(b, internal, deferred, (count - 1) as nat),
            internal,
            deferred[count - 1].0,
            deferred[count - 1].1,
        )
    }
}

/// Whether the parameters that live in memory can be stored.
fn are_storable<'b>(
    lowerer: &Lowerer,
    builder: &FunctionBuilder<'b>,
    deferred: &Vec<(u64, ValueId)>,
) -> (r: bool)
    requires
        builder.wf(),
    ensures
        r == deferred_fit(builder@, lowerer.lowering_internal_function, deferred@),
{
    let mut i: usize = 0;
    while i < deferred.len()
        invariant
            i <= deferred@.len(),
            builder.wf(),
            forall|k: int|
                0 <= k < i ==> has_value(builder@.func, (#[trigger] deferred@[k]).1)
                    && offset_fits(
                    lowerer.lowering_internal_function,
                    builder@.func,
                    deferred@[k].0,
                ),
        decreases deferred@.len() - i,
    {
        let (offset, value) = deferred[i];
        if !value_exists(builder, value) || !offset_has_address(lowerer, builder, offset) {
            assert(deferred@[i as int] == (offset, value));
            return false;
        }
        i = i + 1;
    }
    true
}

/// Stores the parameters that live in memory.
fn store_params<'b>(
    lowerer: &Lowerer,
    builder: &mut FunctionBuilder<'b>,
    deferred: &Vec<(u64, ValueId)>,
)
    requires
        old(builder).wf(),
        deferred_fit(old(builder)@, lowerer.lowering_internal_function, deferred@),
    ensures
        final(builder).wf(),
        final(builder)@ == params_stored(
            old(builder)@,
            lowerer.lowering_internal_function,
            deferred@,
            deferred@.len(),
        ),
        extends(old(builder)@, final(builder)@),
        *final(final(builder).func) == *final(old(builder).func),
{
    let mut i: usize = 0;
    while i < deferred.len()
        invariant
            i <= deferred@.len(),
            builder.wf(),
            deferred_fit(old(builder)@, lowerer.lowering_internal_function, deferred@),
            builder@ == params_stored(
                old(builder)@,
                lowerer.lowering_internal_function,
                deferred@,
                i as nat,
            ),
            builder@.func.params == old(builder)@.func.params,
            builder@.func.return_types == old(builder)@.func.return_types,
            extends(old(builder)@, builder@),
            *final(builder.func) == *final(old(builder).func),
        decreases deferred@.len() - i,
    {
        let (offset, value) = deferred[i];
        assert(deferred@[i as int] == (offset, value));
        lowerer.store_variable(builder, offset, value);
        i = i + 1;
    }
}

/// What performing a task that loads or stores a variable comes to.
pub open spec fn place_step<'t>(s: Scene, lowerer: Lowerer, task: Task<'t>) -> StepView {
    match task {
        Task::LoadVariable(offset) => {
            if offset_fits(lowerer.lowering_internal_function, s.b.func, offset) {
                let (b, v) = variable_loaded(s.b, lowerer.lowering_internal_function, offset);
                StepView::Done(Scene { b, values: s.values.push(v), ..s })
            } else {
                StepView::NotReady
            }
        },
        Task::LoadSlice(offset) => {
            if slice_offset_fits(lowerer.lowering_internal_function, s.b.func, offset) {
                let (b, v) = slice_loaded(
                    s.b,
                    lowerer.lowering_internal_function,
                    offset,
                    SliceLocation::Calldata,
                );
                StepView::Done(Scene { b, values: s.values.push(v), ..s })
            } else {
                StepView::NotReady
            }
        },
        Task::LoadImmutable(offset) => {
            let (b, v) = immutable_loaded(s.b, lowerer.lowering_constructor, offset);
            StepView::Done(Scene { b, values: s.values.push(v), ..s })
        },
        Task::StoreVariable(offset) => {
            if ready(s.b, s.values, 1) {
                let a0 = top(s.values, 0);
                if offset_fits(lowerer.lowering_internal_function, s.b.func, offset) {
                    StepView::Done(
                        Scene {
                            b: variable_stored(s.b, lowerer.lowering_internal_function, offset, a0),
                            values: cut(s.values, 1),
                            ..s
                        },
                    )
                } else {
                    StepView::NotReady
                }
            } else {
                StepView::NotReady
            }
        },
        Task::StoreSlice(offset) => {
            if ready(s.b, s.values, 1) {
                let a0 = top(s.values, 0);
                if slice_offset_fits(lowerer.lowering_internal_function, s.b.func, offset) {
                    StepView::Done(
                        Scene {
                            b: slice_stored(s.b, lowerer.lowering_internal_function, offset, a0),
                            values: cut(s.values, 1),
                            ..s
                        },
                    )
                } else {
                    StepView::NotReady
                }
            } else {
                StepView::NotReady
            }
        },
        Task::StoreSliceWord(offset, is_length) => {
            if ready(s.b, s.values, 1) {
                let a0 = top(s.values, 0);
                if slice_offset_fits(lowerer.lowering_internal_function, s.b.func, offset) {
                    StepView::Done(
                        Scene {
                            b: variable_stored(
                                s.b,
                                lowerer.lowering_internal_function,
                                if is_length { (offset + 32) as u64 } else { offset },
                                a0,
                            ),
                            values: cut(s.values, 1),
                            ..s
                        },
                    )
                } else {
                    StepView::NotReady
                }
            } else {
                StepView::NotReady
            }
        },
        Task::SetLocal(id) => {
            if ready(s.b, s.values, 1) {
                let a0 = top(s.values, 0);
                StepView::Done(
                    Scene { values: cut(s.values, 1), places: with_local(s.places, id, a0), ..s },
                )
            } else {
                StepView::NotReady
            }
        },
        Task::BindArgument(id) => {
            if ready(s.b, s.values, 1) {
                let a0 = top(s.values, 0);
                StepView::Done(Scene { places: with_local(s.places, id, a0), ..s })
            } else {
                StepView::NotReady
            }
        },
        Task::StoreImmutable(offset) => {
            if ready(s.b, s.values, 1) {
                let a0 = top(s.values, 0);
                StepView::Done(
                    Scene { b: immutable_stored(s.b, offset, a0), values: cut(s.values, 1), ..s },
                )
            } else {
                StepView::NotReady
            }
        },
        Task::MarkStorageRef(id) => {
            StepView::Done(Scene { places: with_reference(s.places, id), ..s })
        },
        Task::SetSliceComponent(id, is_length) => {
            if ready(s.b, s.values, 1) {
                let a0 = top(s.values, 0);
                if lookup(lowerer.locals@, id) matches Some(slice) ==> has_value(s.b.func, slice) {
                    StepView::Done(
                        {
                            let (p, b) = slice_component_set(s.places, s.b, id, is_length, a0);
                            Scene { b, places: p, values: cut(s.values, 1), ..s }
                        },
                    )
                } else {
                    StepView::NotReady
                }
            } else {
                StepView::NotReady
            }
        },
        _ => StepView::Other,
    }
}

impl Machine {
    /// Performs a task that loads or stores a variable.
    #[verifier::rlimit(80)]
    pub fn perform_place<'b, 't>(
        &mut self,
        lowerer: &mut Lowerer,
        builder: &mut FunctionBuilder<'b>,
        task: &Task<'t>,
    ) -> (r: Step)
        requires
            old(builder).wf(),
        ensures
            final(builder).wf(),
            did(
                scene(*old(lowerer), *old(self), old(builder)@),
                scene(*final(lowerer), *final(self), final(builder)@),
                r,
                place_step(scene(*old(lowerer), *old(self), old(builder)@), *old(lowerer), *task),
            ),
            framed(*old(lowerer), *final(lowerer)),
            !(r is Done) ==> *final(lowerer) == *old(lowerer),
            extends(old(builder)@, final(builder)@),
            *final(final(builder).func) == *final(old(builder).func),
    {
        broadcast use group_builder_steps;

        let ghost before = scene(*lowerer, *self, builder@);
        let ghost expected = place_step(before, *old(lowerer), *task);
        match task {
            Task::LoadVariable(offset) => {
                if !offset_has_address(lowerer, builder, *offset) {
                    return Step::NotReady;
                }
                let v = lowerer.load_variable(builder, *offset);
                self.values.push(v);
                assert(scene(*lowerer, *self, builder@) =~= expected->Done_0);
                Step::Done
            },
            Task::LoadSlice(offset) => {
                if !slice_has_address(lowerer, builder, *offset) {
                    return Step::NotReady;
                }
                let v = lowerer.load_slice_slot(builder, *offset, SliceLocation::Calldata);
                self.values.push(v);
                assert(scene(*lowerer, *self, builder@) =~= expected->Done_0);
                Step::Done
            },
            Task::LoadImmutable(offset) => {
                let v = lowerer.load_immutable_value(builder, *offset);
                self.values.push(v);
                assert(scene(*lowerer, *self, builder@) =~= expected->Done_0);
                Step::Done
            },
            Task::StoreVariable(offset) => {
                if !self.is_ready(builder, 1) {
                    return Step::NotReady;
                }
                let a0 = self.peek(0);
                assert(has_value(builder@.func, top(self.values@, 0)));
                if !offset_has_address(lowerer, builder, *offset) {
                    return Step::NotReady;
                }
                self.drop_values(1);
                lowerer.store_variable(builder, *offset, a0);
                assert(scene(*lowerer, *self, builder@) =~= expected->Done_0);
                Step::Done
            },
            Task::StoreSlice(offset) => {
                if !self.is_ready(builder, 1) {
                    return Step::NotReady;
                }
                let a0 = self.peek(0);
                assert(has_value(builder@.func, top(self.values@, 0)));
                if !slice_has_address(lowerer, builder, *offset) {
                    return Step::NotReady;
                }
                self.drop_values(1);
                lowerer.store_slice_slot(builder, *offset, a0);
                assert(scene(*lowerer, *self, builder@) =~= expected->Done_0);
                Step::Done
            },
            Task::StoreSliceWord(offset, is_length) => {
                if !self.is_ready(builder, 1) {
                    return Step::NotReady;
                }
                let a0 = self.peek(0);
                assert(has_value(builder@.func, top(self.values@, 0)));
                if !slice_has_address(lowerer, builder, *offset) {
                    return Step::NotReady;
                }
                self.drop_values(1);
                lowerer.store_variable(builder, if *is_length {
                        *offset + 32
                    } else {
                        *offset
                    }, a0);
                assert(scene(*lowerer, *self, builder@) =~= expected->Done_0);
                Step::Done
            },
            Task::SetLocal(id) => {
                if !self.is_ready(builder, 1) {
                    return Step::NotReady;
                }
                let a0 = self.peek(0);
                assert(has_value(builder@.func, top(self.values@, 0)));
                self.drop_values(1);
                lowerer.set_local(*id, a0);
                assert(scene(*lowerer, *self, builder@) =~= expected->Done_0);
                Step::Done
            },
            Task::BindArgument(id) => {
                if !self.is_ready(builder, 1) {
                    return Step::NotReady;
                }
                let a0 = self.peek(0);
                assert(has_value(builder@.func, top(self.values@, 0)));
                lowerer.set_local(*id, a0);
                assert(scene(*lowerer, *self, builder@) =~= expected->Done_0);
                Step::Done
            },
            Task::StoreImmutable(offset) => {
                if !self.is_ready(builder, 1) {
                    return Step::NotReady;
                }
                let a0 = self.peek(0);
                assert(has_value(builder@.func, top(self.values@, 0)));
                self.drop_values(1);
                lowerer.store_immutable_value(builder, *offset, a0);
                assert(scene(*lowerer, *self, builder@) =~= expected->Done_0);
                Step::Done
            },
            Task::MarkStorageRef(id) => {
                lowerer.mark_storage_ref(*id);
                assert(scene(*lowerer, *self, builder@) =~= expected->Done_0);
                Step::Done
            },
            Task::SetSliceComponent(id, is_length) => {
                if !self.is_ready(builder, 1) {
                    return Step::NotReady;
                }
                let a0 = self.peek(0);
                assert(has_value(builder@.func, top(self.values@, 0)));
                let known = match lowerer.get_local(*id) {
                    Some(slice) => value_exists(builder, slice),
                    None => true,
                };
                if !known {
                    return Step::NotReady;
                }
                self.drop_values(1);
                lowerer.set_slice_component(builder, *id, *is_length, a0);
                assert(scene(*lowerer, *self, builder@) =~= expected->Done_0);
                Step::Done
            },
            _ => Step::Other,
        }
    }
}

/// What performing a task that gives a variable a place comes to.
pub open spec fn local_step<'t>(s: Scene, lowerer: Lowerer, task: Task<'t>) -> StepView {
    match task {
        Task::BindStorageRef(id) => {
            if ready(s.b, s.values, 1) {
                let a0 = top(s.values, 0);
                if room(lowerer.lowering_internal_function, s.b.func, s.places.next, 1) {
                    StepView::Done(
                        {
                            let (p, b) = bound_reference(
                                s.places,
                                s.b,
                                lowerer.lowering_internal_function,
                                lowerer.assigned_vars@.contains(id.0),
                                id,
                                Some(a0),
                            );
                            Scene { b, places: p, values: cut(s.values, 1), ..s }
                        },
                    )
                } else {
                    StepView::NotReady
                }
            } else {
                StepView::NotReady
            }
        },
        Task::ReserveStorageRef(id) => {
            if room(lowerer.lowering_internal_function, s.b.func, s.places.next, 1) {
                StepView::Done(
                    {
                        let (p, b) = bound_reference(
                            s.places,
                            s.b,
                            lowerer.lowering_internal_function,
                            lowerer.assigned_vars@.contains(id.0),
                            id,
                            None,
                        );
                        Scene { b, places: p, ..s }
                    },
                )
            } else {
                StepView::NotReady
            }
        },
        Task::BindMemory(id) => {
            if ready(s.b, s.values, 1) {
                let a0 = top(s.values, 0);
                if room(lowerer.lowering_internal_function, s.b.func, s.places.next, 1) {
                    StepView::Done(
                        {
                            let (p, b) = bound_in_memory(
                                s.places,
                                s.b,
                                lowerer.lowering_internal_function,
                                id,
                                a0,
                            );
                            Scene { b, places: p, values: cut(s.values, 1), ..s }
                        },
                    )
                } else {
                    StepView::NotReady
                }
            } else {
                StepView::NotReady
            }
        },
        Task::StoreParams => {
            if deferred_fit(s.b, lowerer.lowering_internal_function, s.deferred) {
                StepView::Done(
                    Scene {
                        b: params_stored(
                            s.b,
                            lowerer.lowering_internal_function,
                            s.deferred,
                            s.deferred.len(),
                        ),
                        deferred: Seq::empty(),
                        ..s
                    },
                )
            } else {
                StepView::NotReady
            }
        },
        _ => StepView::Other,
    }
}

impl Machine {
    /// Performs a task that gives a variable a place.
    #[verifier::rlimit(80)]
    pub fn perform_local<'b, 't>(
        &mut self,
        lowerer: &mut Lowerer,
        builder: &mut FunctionBuilder<'b>,
        task: &Task<'t>,
    ) -> (r: Step)
        requires
            old(builder).wf(),
        ensures
            final(builder).wf(),
            did(
                scene(*old(lowerer), *old(self), old(builder)@),
                scene(*final(lowerer), *final(self), final(builder)@),
                r,
                local_step(scene(*old(lowerer), *old(self), old(builder)@), *old(lowerer), *task),
            ),
            framed(*old(lowerer), *final(lowerer)),
            !(r is Done) ==> *final(lowerer) == *old(lowerer),
            extends(old(builder)@, final(builder)@),
            *final(final(builder).func) == *final(old(builder).func),
    {
        broadcast use group_builder_steps;

        let ghost before = scene(*lowerer, *self, builder@);
        let ghost expected = local_step(before, *old(lowerer), *task);
        match task {
            Task::BindStorageRef(id) => {
                if !self.is_ready(builder, 1) {
                    return Step::NotReady;
                }
                let a0 = self.peek(0);
                assert(has_value(builder@.func, top(self.values@, 0)));
                if !has_room(lowerer, builder, 1) {
                    return Step::NotReady;
                }
                self.drop_values(1);
                lowerer.bind_storage_ref(builder, *id, Some(a0));
                assert(scene(*lowerer, *self, builder@) =~= expected->Done_0);
                Step::Done
            },
            Task::ReserveStorageRef(id) => {
                if !has_room(lowerer, builder, 1) {
                    return Step::NotReady;
                }
                lowerer.bind_storage_ref(builder, *id, None);
                assert(scene(*lowerer, *self, builder@) =~= expected->Done_0);
                Step::Done
            },
            Task::BindMemory(id) => {
                if !self.is_ready(builder, 1) {
                    return Step::NotReady;
                }
                let a0 = self.peek(0);
                assert(has_value(builder@.func, top(self.values@, 0)));
                if !has_room(lowerer, builder, 1) {
                    return Step::NotReady;
                }
                self.drop_values(1);
                lowerer.bind_memory(builder, *id, a0);
                assert(scene(*lowerer, *self, builder@) =~= expected->Done_0);
                Step::Done
            },
            Task::StoreParams => {
                if !are_storable(lowerer, builder, &self.deferred) {
                    return Step::NotReady;
                }
                store_params(lowerer, builder, &self.deferred);
                self.deferred = Vec::new();
                assert(scene(*lowerer, *self, builder@) =~= expected->Done_0);
                Step::Done
            },
            _ => Step::Other,
        }
    }
}

/// What performing a task that changes what lowering keeps track of comes to.
pub open spec fn state_step<'t>(s: Scene, lowerer: Lowerer, task: Task<'t>) -> StepView {
    match task {
        Task::ClearPending => {
            StepView::Done(Scene { pending: None, ..s })
        },
        Task::SetChecks(on) => {
            StepView::Done(Scene { checks: on, ..s })
        },
        Task::SetUnchecked(on) => {
            StepView::Done(Scene { unchecked: on, ..s })
        },
        Task::Report(complaint, span) => {
            StepView::Done(Scene { complaints: s.complaints.push((span, complaint)), ..s })
        },
        Task::Complain(complaint, span) => {
            StepView::Done(
                {
                    let (b, v) = error_emitted(s.b);
                    Scene {
                        b,
                        values: s.values.push(v),
                        complaints: s.complaints.push((span, complaint)),
                        ..s
                    }
                },
            )
        },
        Task::ForgetParameters(ids) => {
            StepView::Done(
                Scene {
                    places: Places {
                        locals: without_locals(s.places.locals, ids@, ids@.len()),
                        ..s.places
                    },
                    ..s
                },
            )
        },
        Task::FunctionPointer(id) => {
            if id.0 < u64::MAX as usize {
                StepView::Done(
                    Scene {
                        b: constant(s.b, word((id.0 + 1) as u64)),
                        values: s.values.push(next_value(s.b.func)),
                        pointers: s.pointers.insert(id.0),
                        ..s
                    },
                )
            } else {
                StepView::NotReady
            }
        },
        Task::ResolveBase(base, count) => {
            if count <= s.values.len() {
                StepView::Done(
                    Scene {
                        values: cut(s.values, count as int),
                        arguments: s.arguments.push((base, taken(s.values, count as int))),
                        ..s
                    },
                )
            } else {
                StepView::NotReady
            }
        },
        _ => StepView::Other,
    }
}

impl Machine {
    /// Performs a task that changes what lowering keeps track of.
    #[verifier::rlimit(80)]
    pub fn perform_state<'b, 't>(
        &mut self,
        lowerer: &mut Lowerer,
        builder: &mut FunctionBuilder<'b>,
        task: &Task<'t>,
    ) -> (r: Step)
        requires
            old(builder).wf(),
        ensures
            final(builder).wf(),
            did(
                scene(*old(lowerer), *old(self), old(builder)@),
                scene(*final(lowerer), *final(self), final(builder)@),
                r,
                state_step(scene(*old(lowerer), *old(self), old(builder)@), *old(lowerer), *task),
            ),
            framed(*old(lowerer), *final(lowerer)),
            !(r is Done) ==> *final(lowerer) == *old(lowerer),
            extends(old(builder)@, final(builder)@),
            *final(final(builder).func) == *final(old(builder).func),
    {
        broadcast use group_builder_steps;

        let ghost before = scene(*lowerer, *self, builder@);
        let ghost expected = state_step(before, *old(lowerer), *task);
        match task {
            Task::ClearPending => {
                lowerer.pending_inline_returns = None;
                assert(scene(*lowerer, *self, builder@) =~= expected->Done_0);
                Step::Done
            },
            Task::SetChecks(on) => {
                lowerer.check_expr_errors = *on;
                assert(scene(*lowerer, *self, builder@) =~= expected->Done_0);
                Step::Done
            },
            Task::SetUnchecked(on) => {
                lowerer.in_unchecked_block = *on;
                assert(scene(*lowerer, *self, builder@) =~= expected->Done_0);
                Step::Done
            },
            Task::Report(complaint, span) => {
                lowerer.complaints.push((*span, *complaint));
                assert(scene(*lowerer, *self, builder@) =~= expected->Done_0);
                Step::Done
            },
            Task::Complain(complaint, span) => {
                let v = lowerer.err_value(builder, *span, *complaint);
                self.values.push(v);
                assert(scene(*lowerer, *self, builder@) =~= expected->Done_0);
                Step::Done
            },
            Task::ForgetParameters(ids) => {
                lowerer.forget_locals(ids);
                assert(scene(*lowerer, *self, builder@) =~= expected->Done_0);
                Step::Done
            },
            Task::FunctionPointer(id) => {
                if !(id.0 < u64::MAX as usize) {
                    return Step::NotReady;
                }
                let v = builder.imm_u64(id.0 as u64 + 1);
                self.values.push(v);
                let _ = lowerer.internal_function_pointer_targets.insert(id.0);
                assert(scene(*lowerer, *self, builder@) =~= expected->Done_0);
                Step::Done
            },
            Task::ResolveBase(base, count) => {
                if !(*count <= self.values.len()) {
                    return Step::NotReady;
                }
                let values = self.top_values(*count);
                self.drop_values(*count);
                self.arguments.push((*base, values));
                assert(scene(*lowerer, *self, builder@) =~= expected->Done_0);
                Step::Done
            },
            _ => Step::Other,
        }
    }
}

/// What performing a task that binds variables comes to.
pub open spec fn binding_step<'t>(
    s: Scene,
    lowerer: Lowerer,
    hir: Hir,
    task: Task<'t>,
) -> StepView {
    match task {
        Task::BindDeclared(id, in_memory) => {
            if ready(s.b, s.values, 1) {
                let a0 = top(s.values, 0);
                if room(lowerer.lowering_internal_function, s.b.func, s.places.next, 2)
                    && id.0 < hir.variables@.len() {
                    StepView::Done(
                        {
                            let (p, b) = bound_declared(
                                s.places,
                                s.b,
                                lowerer.lowering_internal_function,
                                in_memory,
                                hir.variables@[id.0 as int],
                                id,
                                a0,
                            );
                            Scene { b, places: p, values: cut(s.values, 1), ..s }
                        },
                    )
                } else {
                    StepView::NotReady
                }
            } else {
                StepView::NotReady
            }
        },
        Task::BindLocal(id) => {
            if ready(s.b, s.values, 1) {
                let a0 = top(s.values, 0);
                if room(lowerer.lowering_internal_function, s.b.func, s.places.next, 2)
                    && id.0 < hir.variables@.len() {
                    StepView::Done(
                        {
                            let (p, b) = bound_local(
                                s.places,
                                s.b,
                                lowerer.lowering_internal_function,
                                lowerer.assigned_vars@.contains(id.0),
                                hir.variables@[id.0 as int],
                                id,
                                a0,
                            );
                            Scene { b, places: p, values: cut(s.values, 1), ..s }
                        },
                    )
                } else {
                    StepView::NotReady
                }
            } else {
                StepView::NotReady
            }
        },
        Task::BindLocals(ids) => {
            if ready(s.b, s.values, ids@.len() as int) {
                if ids@.len() <= usize::MAX / 2
                        && room(
                        lowerer.lowering_internal_function,
                        s.b.func,
                        s.places.next,
                        2 * ids@.len(),
                    )
                    && slots_declared(hir, ids@) {
                    StepView::Done(
                        {
                            let (p, b) = bound_locals(
                                s.places,
                                s.b,
                                lowerer,
                                hir,
                                ids@,
                                taken(s.values, ids@.len() as int),
                                ids@.len(),
                            );
                            Scene { b, places: p, values: cut(s.values, ids@.len() as int), ..s }
                        },
                    )
                } else {
                    StepView::NotReady
                }
            } else {
                StepView::NotReady
            }
        },
        Task::BindParam(id) => {
            if ready(s.b, s.values, 1) {
                let a0 = top(s.values, 0);
                if id.0 < hir.variables@.len() && s.places.next <= u64::MAX - 32 {
                    StepView::Done(
                        {
                            let in_memory = lowerer.assigned_vars@.contains(id.0) && !hir.variables@[
                                id.0 as int
                            ].storage_ref;
                            Scene {
                                values: cut(s.values, 1),
                                places: if in_memory {
                                    with_word(s.places, id)
                                } else {
                                    with_local(s.places, id, a0)
                                },
                                deferred: if in_memory {
                                    s.deferred.push((s.places.next, a0))
                                } else {
                                    s.deferred
                                },
                                ..s
                            }
                        },
                    )
                } else {
                    StepView::NotReady
                }
            } else {
                StepView::NotReady
            }
        },
        _ => StepView::Other,
    }
}

impl Machine {
    /// Performs a task that binds variables.
    #[verifier::rlimit(80)]
    pub fn perform_binding<'b, 't>(
        &mut self,
        lowerer: &mut Lowerer,
        builder: &mut FunctionBuilder<'b>,
        hir: &Hir,
        task: &Task<'t>,
    ) -> (r: Step)
        requires
            old(builder).wf(),
        ensures
            final(builder).wf(),
            did(
                scene(*old(lowerer), *old(self), old(builder)@),
                scene(*final(lowerer), *final(self), final(builder)@),
                r,
                binding_step(
                    scene(*old(lowerer), *old(self), old(builder)@),
                    *old(lowerer),
                    *hir,
                    *task,
                ),
            ),
            framed(*old(lowerer), *final(lowerer)),
            !(r is Done) ==> *final(lowerer) == *old(lowerer),
            extends(old(builder)@, final(builder)@),
            *final(final(builder).func) == *final(old(builder).func),
    {
        broadcast use group_builder_steps;

        let ghost before = scene(*lowerer, *self, builder@);
        let ghost expected = binding_step(before, *old(lowerer), *hir, *task);
        match task {
            Task::BindDeclared(id, in_memory) => {
                if !self.is_ready(builder, 1) {
                    return Step::NotReady;
                }
                let a0 = self.peek(0);
                assert(has_value(builder@.func, top(self.values@, 0)));
                if !(has_room(lowerer, builder, 2) && id.0 < hir.variables.len()) {
                    return Step::NotReady;
                }
                self.drop_values(1);
                lowerer.bind_declared(builder, hir, *id, *in_memory, a0);
                assert(scene(*lowerer, *self, builder@) =~= expected->Done_0);
                Step::Done
            },
            Task::BindLocal(id) => {
                if !self.is_ready(builder, 1) {
                    return Step::NotReady;
                }
                let a0 = self.peek(0);
                assert(has_value(builder@.func, top(self.values@, 0)));
                if !(has_room(lowerer, builder, 2) && id.0 < hir.variables.len()) {
                    return Step::NotReady;
                }
                self.drop_values(1);
                lowerer.bind_local_value(builder, hir, *id, a0);
                assert(scene(*lowerer, *self, builder@) =~= expected->Done_0);
                Step::Done
            },
            Task::BindLocals(ids) => {
                if !self.is_ready(builder, ids.len()) {
                    return Step::NotReady;
                }
                if !(ids.len() <= usize::MAX / 2
                    && has_room(lowerer, builder, 2 * ids.len())
                    && are_declared(hir, ids)) {
                    return Step::NotReady;
                }
                proof {
                    lemma_taken_exist(builder@, self.values@, ids@.len() as int);
                }
                let values = self.top_values(ids.len());
                self.drop_values(ids.len());
                lowerer.bind_local_values(builder, hir, ids, &values);
                assert(scene(*lowerer, *self, builder@) =~= expected->Done_0);
                Step::Done
            },
            Task::BindParam(id) => {
                if !self.is_ready(builder, 1) {
                    return Step::NotReady;
                }
                let a0 = self.peek(0);
                assert(has_value(builder@.func, top(self.values@, 0)));
                if !(id.0 < hir.variables.len()
                    && lowerer.next_local_memory_offset <= u64::MAX - 32) {
                    return Step::NotReady;
                }
                self.drop_values(1);
                lowerer.bind_param_value_deferred(hir, *id, a0, &mut self.deferred);
                assert(scene(*lowerer, *self, builder@) =~= expected->Done_0);
                Step::Done
            },
            _ => Step::Other,
        }
    }
}

/// What performing a task that finds a default value comes to.
pub open spec fn default_step<'t>(
    s: Scene,
    lowerer: Lowerer,
    hir: Hir,
    task: Task<'t>,
) -> StepView {
    match task {
        Task::ReserveResult(id, body) => {
            if id.0 < hir.variables@.len()
                && struct_declared(hir, hir.variables@[id.0 as int].ty)
                && room(lowerer.lowering_internal_function, s.b.func, s.places.next, 2) {
                StepView::Done(
                    {
                        let (p, b, complaints) = result_reserved(
                            s.places,
                            s.b,
                            hir,
                            id,
                            body_view(body),
                            lowerer.lowering_internal_function,
                            lowerer.current_results@.len(),
                        );
                        Scene {
                            b,
                            places: p,
                            complaints: s.complaints + spanned(
                                complaints,
                                hir.variables@[id.0 as int].ty_span,
                            ),
                            ..s
                        }
                    },
                )
            } else {
                StepView::NotReady
            }
        },
        Task::DefaultVariable(id, complaint, span) => {
            if id.0 < hir.variables@.len() && struct_declared(hir, hir.variables@[id.0 as int].ty) {
                StepView::Done(
                    defaulted(
                        s,
                        default_variable(s.b, hir, hir.variables@[id.0 as int]),
                        hir.variables@[id.0 as int].ty_span,
                        complaint,
                        span,
                    ),
                )
            } else {
                StepView::NotReady
            }
        },
        Task::DefaultResult(id) => {
            if id.0 < hir.variables@.len() && struct_declared(hir, hir.variables@[id.0 as int].ty) {
                StepView::Done(
                    defaulted(
                        s,
                        default_result(
                            s.b,
                            hir,
                            hir.variables@[id.0 as int],
                            lowerer.lowering_internal_function,
                            lowerer.current_results@.len(),
                        ),
                        hir.variables@[id.0 as int].ty_span,
                        Complaint::MissingReturnSlot,
                        hir.variables@[id.0 as int].span,
                    ),
                )
            } else {
                StepView::NotReady
            }
        },
        _ => StepView::Other,
    }
}

impl Machine {
    /// Performs a task that finds a default value.
    #[verifier::rlimit(80)]
    pub fn perform_default<'b, 't>(
        &mut self,
        lowerer: &mut Lowerer,
        builder: &mut FunctionBuilder<'b>,
        hir: &Hir,
        task: &Task<'t>,
    ) -> (r: Step)
        requires
            old(builder).wf(),
            defaults_fit(*hir),
        ensures
            final(builder).wf(),
            did(
                scene(*old(lowerer), *old(self), old(builder)@),
                scene(*final(lowerer), *final(self), final(builder)@),
                r,
                default_step(
                    scene(*old(lowerer), *old(self), old(builder)@),
                    *old(lowerer),
                    *hir,
                    *task,
                ),
            ),
            framed(*old(lowerer), *final(lowerer)),
            !(r is Done) ==> *final(lowerer) == *old(lowerer),
            extends(old(builder)@, final(builder)@),
            *final(final(builder).func) == *final(old(builder).func),
    {
        broadcast use group_builder_steps;

        let ghost before = scene(*lowerer, *self, builder@);
        let ghost expected = default_step(before, *old(lowerer), *hir, *task);
        match task {
            Task::ReserveResult(id, body) => {
                if !(id.0 < hir.variables.len()
                    && struct_is_declared(hir, &hir.variables[id.0].ty)
                    && has_room(lowerer, builder, 2)) {
                    return Step::NotReady;
                }
                lowerer.reserve_result(builder, hir, *id, *body);
                assert(scene(*lowerer, *self, builder@) =~= expected->Done_0);
                Step::Done
            },
            Task::DefaultVariable(id, complaint, span) => {
                if !(id.0 < hir.variables.len()
                    && struct_is_declared(hir, &hir.variables[id.0].ty)) {
                    return Step::NotReady;
                }
                let found = lowerer.lower_default_variable_value(builder, hir, *id);
                let v = match found {
                    Some(value) => value,
                    None => lowerer.err_value(builder, *span, *complaint),
                };
                self.values.push(v);
                assert(scene(*lowerer, *self, builder@) =~= expected->Done_0);
                Step::Done
            },
            Task::DefaultResult(id) => {
                if !(id.0 < hir.variables.len()
                    && struct_is_declared(hir, &hir.variables[id.0].ty)) {
                    return Step::NotReady;
                }
                let found = lowerer.lower_default_return_value(builder, hir, *id);
                let v = match found {
                    Some(value) => value,
                    None => lowerer.err_value(
                        builder,
                        hir.variables[id.0].span,
                        Complaint::MissingReturnSlot,
                    ),
                };
                self.values.push(v);
                assert(scene(*lowerer, *self, builder@) =~= expected->Done_0);
                Step::Done
            },
            _ => Step::Other,
        }
    }
}

/// What performing a task that takes up the results of a call comes to.
pub open spec fn results_step<'t>(
    s: Scene,
    lowerer: Lowerer,
    hir: Hir,
    task: Task<'t>,
) -> StepView {
    match task {
        Task::BindResults(ids, delivered) => {
            if ready(s.b, s.values, 1) {
                let a0 = top(s.values, 0);
                if (s.pending matches Some(pending) ==> has_values(s.b.func, pending))
                    && ids@.len() <= u64::MAX / 32
                    && ids@.len() <= usize::MAX / 2
                        && room(
                        lowerer.lowering_internal_function,
                        s.b.func,
                        s.places.next,
                        2 * ids@.len(),
                    )
                    && slots_declared(hir, ids@) {
                    StepView::Done({
                            let ended = Scene { values: cut(s.values, 1), pending: None, ..s };
                            match s.pending {
                                Some(pending) if delivered => {
                                    let (p, b) = bound_locals(
                                        s.places,
                                        s.b,
                                        lowerer,
                                        hir,
                                        ids@,
                                        pending_values(pending, a0, ids@.len()),
                                        ids@.len(),
                                    );
                                    Scene { b, places: p, ..ended }
                                },
                                _ => {
                                    let (b, values) = results_for(s.b, given_flags(ids@), a0);
                                    let (p, b) = results_bound(
                                        s.places,
                                        b,
                                        lowerer.lowering_internal_function,
                                        hir,
                                        ids@,
                                        values,
                                        ids@.len(),
                                    );
                                    Scene { b, places: p, ..ended }
                                },
                            }
                    })
                } else {
                    StepView::NotReady
                }
            } else {
                StepView::NotReady
            }
        },
        Task::DeliverInline(count) => {
            if ready(s.b, s.values, count as int) {
                if inline_ready(lowerer, s.b) {
                    StepView::Done(
                        {
                            let ctx = lowerer.inline_returns->0;
                            let (p, b) = inline_returned(
                                s.places,
                                s.b,
                                lowerer.lowering_internal_function,
                                ctx.return_vars@,
                                ctx.exit_block,
                                taken(s.values, count as int),
                            );
                            Scene { b, places: p, values: cut(s.values, count as int), ..s }
                        },
                    )
                } else {
                    StepView::NotReady
                }
            } else {
                StepView::NotReady
            }
        },
        Task::DeliverResults(count) => {
            if ready(s.b, s.values, 1) {
                let a0 = top(s.values, 0);
                if (s.pending matches Some(pending) ==> has_values(s.b.func, pending))
                    && count <= u64::MAX / 32
                    && inline_ready(lowerer, s.b) {
                    StepView::Done({
                            let ctx = lowerer.inline_returns->0;
                            let (b, values) = match s.pending {
                                Some(pending) => (s.b, pending),
                                None => results_gathered(s.b, a0, count as nat),
                            };
                            let (p, b) = inline_returned(
                                s.places,
                                b,
                                lowerer.lowering_internal_function,
                                ctx.return_vars@,
                                ctx.exit_block,
                                values,
                            );
                            Scene { b, places: p, values: cut(s.values, 1), pending: None, ..s }
                    })
                } else {
                    StepView::NotReady
                }
            } else {
                StepView::NotReady
            }
        },
        _ => StepView::Other,
    }
}

impl Machine {
    /// Performs a task that takes up the results of a call.
    #[verifier::rlimit(80)]
    pub fn perform_results<'b, 't>(
        &mut self,
        lowerer: &mut Lowerer,
        builder: &mut FunctionBuilder<'b>,
        hir: &Hir,
        task: &Task<'t>,
    ) -> (r: Step)
        requires
            old(builder).wf(),
        ensures
            final(builder).wf(),
            did(
                scene(*old(lowerer), *old(self), old(builder)@),
                scene(*final(lowerer), *final(self), final(builder)@),
                r,
                results_step(
                    scene(*old(lowerer), *old(self), old(builder)@),
                    *old(lowerer),
                    *hir,
                    *task,
                ),
            ),
            framed(*old(lowerer), *final(lowerer)),
            !(r is Done) ==> *final(lowerer) == *old(lowerer),
            extends(old(builder)@, final(builder)@),
            *final(final(builder).func) == *final(old(builder).func),
    {
        broadcast use group_builder_steps;

        let ghost before = scene(*lowerer, *self, builder@);
        let ghost expected = results_step(before, *old(lowerer), *hir, *task);
        match task {
            Task::BindResults(ids, delivered) => {
                if !self.is_ready(builder, 1) {
                    return Step::NotReady;
                }
                let a0 = self.peek(0);
                assert(has_value(builder@.func, top(self.values@, 0)));
                let pending = match &lowerer.pending_inline_returns {
                    Some(pending) => Some(copy_values(pending)),
                    None => None,
                };
                let known = match &pending {
                    Some(pending) => values_exist(builder, pending),
                    None => true,
                };
                if !(known
                    && ids.len() as u64 <= u64::MAX / 32
                    && ids.len() <= usize::MAX / 2
                    && has_room(lowerer, builder, 2 * ids.len())
                    && are_declared(hir, ids)) {
                    return Step::NotReady;
                }
                self.drop_values(1);
                match pending {
                    Some(pending) if *delivered => {
                        let values = fill_pending(&pending, a0, ids.len());
                        assert(has_values(builder@.func, values@));
                        lowerer.bind_local_values(builder, hir, ids, &values);
                    },
                    _ => {
                        let given = flags_of_ids(ids);
                        let values = Lowerer::gather_results(builder, &given, a0);
                        lowerer.bind_results(builder, hir, ids, &values);
                    },
                }
                lowerer.pending_inline_returns = None;
                assert(scene(*lowerer, *self, builder@) =~= expected->Done_0);
                Step::Done
            },
            Task::DeliverInline(count) => {
                if !self.is_ready(builder, *count) {
                    return Step::NotReady;
                }
                if !is_inline_ready(lowerer, builder) {
                    return Step::NotReady;
                }
                proof {
                    lemma_taken_exist(builder@, self.values@, *count as int);
                }
                let values = self.top_values(*count);
                self.drop_values(*count);
                if let Some(ctx) = &lowerer.inline_returns {
                    let return_vars = copy_ids(&ctx.return_vars);
                    let exit_block = ctx.exit_block;
                    lowerer.deliver_inline_return(builder, &return_vars, exit_block, &values);
                }
                assert(scene(*lowerer, *self, builder@) =~= expected->Done_0);
                Step::Done
            },
            Task::DeliverResults(count) => {
                if !self.is_ready(builder, 1) {
                    return Step::NotReady;
                }
                let a0 = self.peek(0);
                assert(has_value(builder@.func, top(self.values@, 0)));
                let pending = match &lowerer.pending_inline_returns {
                    Some(pending) => Some(copy_values(pending)),
                    None => None,
                };
                let known = match &pending {
                    Some(pending) => values_exist(builder, pending),
                    None => true,
                };
                if !(known && *count as u64 <= u64::MAX / 32 && is_inline_ready(lowerer, builder)) {
                    return Step::NotReady;
                }
                self.drop_values(1);
                lowerer.pending_inline_returns = None;
                proof {
                    lemma_gathered_signature(builder@, a0, *count as nat);
                }
                let ghost begin = builder@;
                let values = match pending {
                    Some(pending) => pending,
                    None => gather_multi_return_values(builder, a0, *count),
                };
                assert forall|id: VariableId| #[trigger] variable_placed(
                    *old(lowerer),
                    begin,
                    id,
                ) implies variable_placed(*lowerer, builder@, id) by {}
                assert(inline_ready(*old(lowerer), begin));
                if let Some(ctx) = &lowerer.inline_returns {
                    let return_vars = copy_ids(&ctx.return_vars);
                    let exit_block = ctx.exit_block;
                    lowerer.deliver_inline_return(builder, &return_vars, exit_block, &values);
                }
                assert(scene(*lowerer, *self, builder@) =~= expected->Done_0);
                Step::Done
            },
            _ => Step::Other,
        }
    }
}

} // verus!
