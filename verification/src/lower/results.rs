//! The variables that a function returns.

use crate::hir::{
    has_variables, hir_wf, is_value_ty, peeled, DataLocation, Hir, Stmt, StructId, Ty, VarKind,
    Variable, VariableId,
};
use crate::lower::analysis::{fully_initialized, fully_initialized_named_return_struct_ty};
use crate::lower::bind::{places, room, with_two_words, with_word, Places};
use crate::lower::defaults::{
    contained_struct, defaults_fit, field_ty, is_ranking, lemma_peeled_rank, spanned,
    struct_declared, structs_nest, zero_value, MIN_BULK_ZERO_STRUCT_FIELDS,
};
use crate::lower::emit::extends;
use crate::lower::objects::{
    allocate_memory_object, allocate_zeroed_memory_object, allocated, field_stored, store_field,
    zero_allocated,
};
use crate::lower::state::{slice_emptied, variable_addr, Complaint, Lowerer};
use crate::lower::types::{calldata_dynamic_var_kind, calldata_kind};
use crate::mir::builder::{
    constant, emitted, group_builder_steps, valued, word, BuilderView, FunctionBuilder,
};
use crate::mir::function::{has_value, next_value};
use crate::mir::inst::{inst, Op};
use crate::mir::types::{
    MemoryObjectKind, MemoryObjectLayout, MirType, SliceLocation, Span, Value, ValueId,
};
use vstd::prelude::*;

verus! {

/// What looking for a default value yields: the builder, the value if there is
/// one, and the complaints that are made.
pub type DefaultValue = (BuilderView, Option<ValueId>, Seq<Complaint>);

/// Whether a variable is local to a function, parameters aside.
pub open spec fn is_local_or_result(var: Variable) -> bool {
    var.kind is Local || var.kind is Return
}

/// The default value of an uninitialized local or return variable.
#[verifier::opaque]
pub open spec fn default_variable(b: BuilderView, hir: Hir, var: Variable) -> DefaultValue {
    if var.initializer is Some || !is_local_or_result(var) {
        (b, None, Seq::empty())
    } else if calldata_kind(var) is Some {
        let zero = next_value(b.func);
        let b = constant(b, word(0));
        (
            emitted(
                b,
                inst(Op::MakeSlice { location: SliceLocation::Calldata }, seq![zero, zero]),
                Some(MirType::Slice(SliceLocation::Calldata)),
            ),
            Some(next_value(b.func)),
            Seq::empty(),
        )
    } else {
        match peeled(var.ty) {
            Ty::Error(guar) => (
                valued(b, Value::Error(guar)),
                Some(next_value(b.func)),
                Seq::empty(),
            ),
            _ => if var.location == Some(DataLocation::Memory) && !is_value_ty(var.ty) {
                let (b, value, complaints) = zero_value(b, hir, var.ty);
                (b, Some(value), complaints)
            } else if is_value_ty(var.ty) {
                (constant(b, word(0)), Some(next_value(b.func)), Seq::empty())
            } else {
                (b, None, Seq::empty())
            },
        }
    }
}

/// The struct that a default return value is zeroed in bulk for.
pub open spec fn bulk_zeroed(hir: Hir, var: Variable, internal: bool, result_count: nat) -> Option<
    StructId,
> {
    match peeled(var.ty) {
        Ty::Struct(id) => if var.initializer is None && var.location == Some(DataLocation::Memory)
            && !internal && result_count == 1 && hir.structs@[id.0 as int].fields@.len()
            >= MIN_BULK_ZERO_STRUCT_FIELDS {
            Some(id)
        } else {
            None
        },
        _ => None,
    }
}

/// The builder after the first `count` fields of a zeroed struct that are not
/// values got their default values.
pub open spec fn reference_fields(
    b: BuilderView,
    hir: Hir,
    id: StructId,
    ptr: ValueId,
    count: nat,
) -> (BuilderView, Seq<Complaint>)
    decreases count,
{
    if count == 0 {
        (b, Seq::empty())
    } else {
        let (b, front) = reference_fields(b, hir, id, ptr, (count - 1) as nat);
        let ty = field_ty(hir, id, count - 1);
        if is_value_ty(peeled(ty)) {
            (b, front)
        } else {
            let (b, value, complaints) = zero_value(b, hir, ty);
            (
                field_stored(
                    b,
                    ptr,
                    MemoryObjectLayout::Struct {
                        fields: hir.structs@[id.0 as int].fields@.len() as u64,
                    },
                    (count - 1) as u64,
                    value,
                ),
                front + complaints,
            )
        }
    }
}

/// The default value of a return variable.
#[verifier::opaque]
pub open spec fn default_result(
    b: BuilderView,
    hir: Hir,
    var: Variable,
    internal: bool,
    result_count: nat,
) -> DefaultValue {
    match bulk_zeroed(hir, var, internal, result_count) {
        Some(id) => {
            let (b, ptr) = zero_allocated(
                b,
                (hir.structs@[id.0 as int].memory_words * 32) as u64,
                MemoryObjectKind::Struct,
            );
            let (b, complaints) = reference_fields(
                b,
                hir,
                id,
                ptr,
                hir.structs@[id.0 as int].fields@.len(),
            );
            (b, Some(ptr), complaints)
        },
        None => default_variable(b, hir, var),
    }
}

/// What reserving a place for a return variable yields: the places, the
/// builder, and the complaints that are made.
pub type Reserved = (Places, BuilderView, Seq<Complaint>);

/// A named return variable with its place and its initial value. A struct whose
/// fields are all assigned first needs no default.
#[verifier::opaque]
pub open spec fn result_reserved(
    p: Places,
    b: BuilderView,
    hir: Hir,
    id: VariableId,
    body: Option<Seq<Stmt>>,
    internal: bool,
    result_count: nat,
) -> Reserved {
    let var = hir.variables@[id.0 as int];
    if calldata_kind(var) is Some {
        (with_two_words(p, id), slice_emptied(b, internal, p.next), Seq::empty())
    } else {
        let (b, addr) = variable_addr(b, internal, p.next);
        if body is Some && fully_initialized(hir, id, body->0) {
            let words = hir.structs@[(contained_struct(var.ty)->0).0 as int].memory_words;
            let (b, value) = allocated(b, (words * 32) as u64, MemoryObjectKind::Struct);
            (
                with_word(p, id),
                emitted(b, inst(Op::MStore, seq![addr, value]), None),
                Seq::empty(),
            )
        } else {
            let (b, value, complaints) = default_result(b, hir, var, internal, result_count);
            let b = match value {
                Some(value) => emitted(b, inst(Op::MStore, seq![addr, value]), None),
                None => b,
            };
            (with_word(p, id), b, complaints)
        }
    }
}

/// Whether two states differ only in where variables are and in the complaints.
pub open spec fn only_places_and_complaints_differ(before: Lowerer, after: Lowerer) -> bool {
    after == (Lowerer {
        local_memory_slots: after.local_memory_slots,
        slice_slot_locals: after.slice_slot_locals,
        next_local_memory_offset: after.next_local_memory_offset,
        complaints: after.complaints,
        ..before
    })
}

impl Lowerer {
    /// Materializes the default of an uninitialized local or return variable.
    /// Reference values get a real empty object rather than a zero pointer.
    pub fn lower_default_variable_value<'a>(
        &mut self,
        builder: &mut FunctionBuilder<'a>,
        hir: &Hir,
        id: VariableId,
    ) -> (r: Option<ValueId>)
        requires
            old(builder).wf(),
            defaults_fit(*hir),
            id.0 < hir.variables@.len(),
            struct_declared(*hir, hir.variables@[id.0 as int].ty),
        ensures
            final(builder).wf(),
            final(builder)@ == default_variable(
                old(builder)@,
                *hir,
                hir.variables@[id.0 as int],
            ).0,
            r == default_variable(old(builder)@, *hir, hir.variables@[id.0 as int]).1,
            *final(self) == (Lowerer { complaints: final(self).complaints, ..*old(self) }),
            final(self).complaints@ == old(self).complaints@ + spanned(
                default_variable(old(builder)@, *hir, hir.variables@[id.0 as int]).2,
                hir.variables@[id.0 as int].ty_span,
            ),
            r matches Some(value) ==> has_value(final(builder)@.func, value),
            extends(old(builder)@, final(builder)@),
            *final(final(builder).func) == *final(old(builder).func),
    {
        broadcast use group_builder_steps;

        let var = &hir.variables[id.0];
        proof {
            reveal(default_variable);
            assert(self.complaints@ =~= self.complaints@ + spanned(Seq::empty(), var.ty_span));
        }
        if var.initializer.is_some() || !matches!(var.kind, VarKind::Local | VarKind::Return) {
            return None;
        }
        if calldata_dynamic_var_kind(var).is_some() {
            let zero = builder.imm_u64(0);
            return Some(builder.make_slice(zero, zero, SliceLocation::Calldata));
        }
        if let Ty::Error(guar) = var.ty.peel_refs() {
            return Some(builder.error_value(*guar));
        }
        let in_memory = match var.location {
            Some(DataLocation::Memory) => true,
            _ => false,
        };
        if in_memory && !var.ty.is_value_type() {
            return Some(self.zero_memory_field_value_ty(builder, hir, &var.ty, var.ty_span));
        }
        if var.ty.is_value_type() {
            Some(builder.imm_u64(0))
        } else {
            None
        }
    }

    /// Gives the fields of a zeroed struct that are not values their defaults.
    fn initialize_reference_fields<'a>(
        &mut self,
        builder: &mut FunctionBuilder<'a>,
        hir: &Hir,
        id: StructId,
        ptr: ValueId,
        span: Span,
    )
        requires
            old(builder).wf(),
            has_value(old(builder)@.func, ptr),
            defaults_fit(*hir),
            id.0 < hir.structs@.len(),
            forall|i: int|
                0 <= i < hir.structs@[id.0 as int].fields@.len() ==> struct_declared(
                    *hir,
                    #[trigger] field_ty(*hir, id, i),
                ),
        ensures
            final(builder).wf(),
            final(builder)@ == reference_fields(
                old(builder)@,
                *hir,
                id,
                ptr,
                hir.structs@[id.0 as int].fields@.len(),
            ).0,
            *final(self) == (Lowerer { complaints: final(self).complaints, ..*old(self) }),
            final(self).complaints@ == old(self).complaints@ + spanned(
                reference_fields(
                    old(builder)@,
                    *hir,
                    id,
                    ptr,
                    hir.structs@[id.0 as int].fields@.len(),
                ).1,
                span,
            ),
            extends(old(builder)@, final(builder)@),
            *final(final(builder).func) == *final(old(builder).func),
    {
        let count: usize = hir.structs[id.0].fields.len();
        let mut i: usize = 0;
        assert(self.complaints@ =~= self.complaints@ + spanned(Seq::empty(), span));
        while i < count
            invariant
                i <= count,
                builder.wf(),
                has_value(old(builder)@.func, ptr),
                defaults_fit(*hir),
                id.0 < hir.structs@.len(),
                count == hir.structs@[id.0 as int].fields@.len(),
                forall|i: int|
                    0 <= i < hir.structs@[id.0 as int].fields@.len() ==> struct_declared(
                        *hir,
                        #[trigger] field_ty(*hir, id, i),
                    ),
                builder@ == reference_fields(old(builder)@, *hir, id, ptr, i as nat).0,
                *self == (Lowerer { complaints: self.complaints, ..*old(self) }),
                self.complaints@ == old(self).complaints@ + spanned(
                    reference_fields(old(builder)@, *hir, id, ptr, i as nat).1,
                    span,
                ),
                extends(old(builder)@, builder@),
                *final(builder.func) == *final(old(builder).func),
            decreases count - i,
        {
            proof {
                reveal(hir_wf);
                assert(has_variables(*hir, hir.structs@[id.0 as int].fields@));
                assert(hir.structs@[id.0 as int].fields@[i as int].0 < hir.variables@.len());
                assert(struct_declared(*hir, field_ty(*hir, id, i as int)));
            }
            let field = &hir.variables[hir.structs[id.0].fields[i].0];
            if !field.ty.peel_refs().is_value_type() {
                let value = self.zero_memory_field_value_ty(builder, hir, &field.ty, span);
                store_field(
                    builder,
                    ptr,
                    MemoryObjectLayout::Struct { fields: count as u64 },
                    i as u64,
                    value,
                );
            }
            i = i + 1;
            assert(self.complaints@ =~= old(self).complaints@ + spanned(
                reference_fields(old(builder)@, *hir, id, ptr, i as nat).1,
                span,
            ));
        }
    }

    /// Materializes a default return value. A top-level memory struct is zeroed
    /// in bulk while its reference fields still get real empty objects instead
    /// of zero pointers.
    pub fn lower_default_return_value<'a>(
        &mut self,
        builder: &mut FunctionBuilder<'a>,
        hir: &Hir,
        id: VariableId,
    ) -> (r: Option<ValueId>)
        requires
            old(builder).wf(),
            defaults_fit(*hir),
            id.0 < hir.variables@.len(),
            struct_declared(*hir, hir.variables@[id.0 as int].ty),
        ensures
            final(builder).wf(),
            final(builder)@ == default_result(
                old(builder)@,
                *hir,
                hir.variables@[id.0 as int],
                old(self).lowering_internal_function,
                old(self).current_results@.len(),
            ).0,
            r == default_result(
                old(builder)@,
                *hir,
                hir.variables@[id.0 as int],
                old(self).lowering_internal_function,
                old(self).current_results@.len(),
            ).1,
            *final(self) == (Lowerer { complaints: final(self).complaints, ..*old(self) }),
            final(self).complaints@ == old(self).complaints@ + spanned(
                default_result(
                    old(builder)@,
                    *hir,
                    hir.variables@[id.0 as int],
                    old(self).lowering_internal_function,
                    old(self).current_results@.len(),
                ).2,
                hir.variables@[id.0 as int].ty_span,
            ),
            r matches Some(value) ==> has_value(final(builder)@.func, value),
            extends(old(builder)@, final(builder)@),
            *final(final(builder).func) == *final(old(builder).func),
    {
        let var = &hir.variables[id.0];
        proof {
            reveal(default_result);
            lemma_peeled_rank(*hir, var.ty);
            lemma_fields_declared(*hir);
        }
        let in_memory = match var.location {
            Some(DataLocation::Memory) => true,
            _ => false,
        };
        if let Ty::Struct(struct_id) = var.ty.peel_refs() {
            if var.initializer.is_none() && in_memory && !self.lowering_internal_function
                && self.current_results.len() == 1 && hir.structs[struct_id.0].fields.len()
                >= MIN_BULK_ZERO_STRUCT_FIELDS {
                let words: u64 = hir.structs[struct_id.0].memory_words;
                let ptr = allocate_zeroed_memory_object(
                    builder,
                    words * 32,
                    MemoryObjectKind::Struct,
                );
                self.initialize_reference_fields(builder, hir, *struct_id, ptr, var.ty_span);
                return Some(ptr);
            }
        }
        self.lower_default_variable_value(builder, hir, id)
    }

    /// Reserves a place for a named return variable, so that the body can
    /// assign to it, and initializes it.
    pub fn reserve_result<'a>(
        &mut self,
        builder: &mut FunctionBuilder<'a>,
        hir: &Hir,
        id: VariableId,
        body: Option<&Vec<Stmt>>,
    )
        requires
            old(builder).wf(),
            defaults_fit(*hir),
            id.0 < hir.variables@.len(),
            struct_declared(*hir, hir.variables@[id.0 as int].ty),
            room(
                old(self).lowering_internal_function,
                old(builder)@.func,
                old(self).next_local_memory_offset,
                2,
            ),
        ensures
            final(builder).wf(),
            only_places_and_complaints_differ(*old(self), *final(self)),
            places(*final(self)) == result_reserved(
                places(*old(self)),
                old(builder)@,
                *hir,
                id,
                body_view(body),
                old(self).lowering_internal_function,
                old(self).current_results@.len(),
            ).0,
            final(builder)@ == result_reserved(
                places(*old(self)),
                old(builder)@,
                *hir,
                id,
                body_view(body),
                old(self).lowering_internal_function,
                old(self).current_results@.len(),
            ).1,
            final(self).complaints@ == old(self).complaints@ + spanned(
                result_reserved(
                    places(*old(self)),
                    old(builder)@,
                    *hir,
                    id,
                    body_view(body),
                    old(self).lowering_internal_function,
                    old(self).current_results@.len(),
                ).2,
                hir.variables@[id.0 as int].ty_span,
            ),
            extends(old(builder)@, final(builder)@),
            *final(final(builder).func) == *final(old(builder).func),
    {
        broadcast use group_builder_steps;

        let var = &hir.variables[id.0];
        proof {
            reveal(result_reserved);
            lemma_peeled_rank(*hir, var.ty);
            assert(self.complaints@ =~= self.complaints@ + spanned(Seq::empty(), var.ty_span));
        }
        if calldata_dynamic_var_kind(var).is_some() {
            let offset = self.alloc_local_slice_memory(id);
            self.init_empty_slice_slot(builder, offset);
            return;
        }
        let offset = self.alloc_local_memory(id);
        let addr = self.local_memory_addr(builder, offset);
        let is_initialized = match body {
            Some(body) => fully_initialized_named_return_struct_ty(hir, id, body).is_some(),
            None => false,
        };
        if is_initialized {
            if let Ty::Struct(struct_id) = var.ty.peel_refs() {
                let words: u64 = hir.structs[struct_id.0].memory_words;
                let value = allocate_memory_object(builder, words * 32, MemoryObjectKind::Struct);
                builder.mstore(addr, value);
            }
            return;
        }
        if let Some(value) = self.lower_default_return_value(builder, hir, id) {
            builder.mstore(addr, value);
        }
    }
}

/// Whether every struct inside a struct is declared.
pub open spec fn struct_fields_declared(hir: Hir) -> bool {
    forall|id: StructId, i: int|
        id.0 < hir.structs@.len() && 0 <= i < hir.structs@[id.0 as int].fields@.len()
            ==> struct_declared(hir, #[trigger] field_ty(hir, id, i))
}

/// Structs that nest contain declared ones only.
proof fn lemma_fields_declared(hir: Hir)
    requires
        structs_nest(hir),
    ensures
        struct_fields_declared(hir),
{
    let rank = choose|rank: Map<usize, nat>| is_ranking(hir, rank);
    assert(is_ranking(hir, rank));
}

/// The statements of a body.
pub open spec fn body_view(body: Option<&Vec<Stmt>>) -> Option<Seq<Stmt>> {
    match body {
        Some(body) => Some(body@),
        None => None,
    }
}

} // verus!
