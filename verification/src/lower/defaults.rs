//! Default values of variables.

use crate::hir::{
    has_variables, hir_wf, is_value_ty, peeled, ElementaryType, Hir, Struct, StructId, Ty,
};
use crate::lower::emit::extends;
use crate::lower::objects::{
    allocate_memory_object, allocated, element_stored, empty_object, field_stored, store_element,
    store_field, zero_length_object,
};
use crate::lower::state::{error_emitted, Complaint, Lowerer};
use crate::mir::builder::{
    constant, emitted, group_builder_steps, valued, word, BuilderView, FunctionBuilder,
};
use crate::mir::function::{has_value, next_value};
use crate::mir::inst::{inst, Op};
use crate::mir::types::{MemoryObjectKind, MemoryObjectLayout, Span, Value, ValueId};
use crate::word::U256;
use vstd::prelude::*;

verus! {

/// Fewest words that are zeroed in bulk rather than one by one.
pub const MIN_BULK_ZERO_MEMORY_WORDS: u64 = 4;

/// Fewest fields of a struct that is zeroed in bulk.
pub const MIN_BULK_ZERO_STRUCT_FIELDS: usize = 4;

/// The struct that a value of a type contains directly.
pub open spec fn contained_struct(ty: Ty) -> Option<StructId>
    decreases ty,
{
    match ty {
        Ty::Ref(inner, _) => contained_struct(*inner),
        Ty::Array(element, _) => contained_struct(*element),
        Ty::Struct(id) => Some(id),
        _ => None,
    }
}

/// The type of a field.
pub open spec fn field_ty(hir: Hir, id: StructId, field: int) -> Ty {
    hir.variables@[hir.structs@[id.0 as int].fields@[field].0 as int].ty
}

/// Whether a ranking puts every struct above the structs it contains.
pub open spec fn is_ranking(hir: Hir, rank: Map<usize, nat>) -> bool {
    forall|id: StructId, field: int|
        #![trigger field_ty(hir, id, field)]
        id.0 < hir.structs@.len() && 0 <= field < hir.structs@[id.0 as int].fields@.len() ==> match (
        contained_struct(field_ty(hir, id, field))) {
            Some(inner) => inner.0 < hir.structs@.len() && rank[inner.0] < rank[id.0],
            None => true,
        }
}

/// Whether no struct contains itself, and every contained struct is declared.
pub open spec fn structs_nest(hir: Hir) -> bool {
    exists|rank: Map<usize, nat>| is_ranking(hir, rank)
}

/// How deep a struct nests.
pub closed spec fn rank_of(hir: Hir, id: StructId) -> nat {
    (choose|rank: Map<usize, nat>| is_ranking(hir, rank))[id.0]
}

/// How deep the structs in a type nest.
pub open spec fn ty_rank(hir: Hir, ty: Ty) -> nat {
    match contained_struct(ty) {
        Some(id) => 2 * rank_of(hir, id) + 2,
        None => 0,
    }
}

/// A field nests less deeply than its struct.
pub proof fn lemma_field_rank(hir: Hir, id: StructId, field: int)
    requires
        structs_nest(hir),
        id.0 < hir.structs@.len(),
        0 <= field < hir.structs@[id.0 as int].fields@.len(),
    ensures
        ty_rank(hir, field_ty(hir, id, field)) < 2 * rank_of(hir, id) + 1,
        contained_struct(field_ty(hir, id, field)) matches Some(inner) ==> inner.0
            < hir.structs@.len(),
{
}

/// A type behind references nests as deeply and is no larger.
pub proof fn lemma_peeled_rank(hir: Hir, ty: Ty)
    ensures
        contained_struct(peeled(ty)) == contained_struct(ty),
        peeled(ty) matches Ty::Array(element, _) ==> decreases_to!(ty => *element)
            && contained_struct(*element) == contained_struct(ty),
        peeled(ty) matches Ty::Struct(id) ==> contained_struct(ty) == Some(id),
    decreases ty,
{
    match ty {
        Ty::Ref(inner, _) => lemma_peeled_rank(hir, *inner),
        _ => {},
    }
}

/// What building a default value yields: the builder, the value, and the
/// complaints that are made.
pub type Built = (BuilderView, ValueId, Seq<Complaint>);

/// Whether the struct in a type is declared.
pub open spec fn struct_declared(hir: Hir, ty: Ty) -> bool {
    contained_struct(ty) matches Some(id) ==> id.0 < hir.structs@.len()
}

/// The default value of a type in memory.
pub open spec fn zero_value(b: BuilderView, hir: Hir, ty: Ty) -> Built
    decreases ty_rank(hir, ty), ty, 0nat,
    when structs_nest(hir) && struct_declared(hir, ty)
{
    proof {
        lemma_peeled_rank(hir, ty);
    }
    match peeled(ty) {
        Ty::Array(element, len) => if len@ * 32 > u64::MAX {
            let (b, value) = error_emitted(b);
            (b, value, seq![Complaint::LargeMemoryArray])
        } else {
            let (b, ptr) = allocated(b, (len@ * 32) as u64, MemoryObjectKind::FixedArray);
            if len@ >= MIN_BULK_ZERO_MEMORY_WORDS && is_value_ty(peeled(*element)) {
                let size = next_value(b.func);
                let b = constant(b, word((len@ * 32) as u64));
                (emitted(b, inst(Op::MemoryZero, seq![ptr, size]), None), ptr, Seq::empty())
            } else {
                let (b, complaints) = zero_elements(b, hir, *element, ptr, len@, len@);
                (b, ptr, complaints)
            }
        },
        Ty::DynArray(_) => {
            let (b, ptr) = empty_object(b, MemoryObjectKind::DynamicArray);
            (b, ptr, Seq::empty())
        },
        Ty::Elementary(ElementaryType::Bytes) | Ty::Elementary(ElementaryType::String) => {
            let (b, ptr) = empty_object(b, MemoryObjectKind::Bytes);
            (b, ptr, Seq::empty())
        },
        Ty::Struct(id) => {
            let (b, ptr) = allocated(
                b,
                (hir.structs@[id.0 as int].memory_words * 32) as u64,
                MemoryObjectKind::Struct,
            );
            let (b, complaints) = zero_fields(
                b,
                hir,
                id,
                ptr,
                hir.structs@[id.0 as int].fields@.len(),
            );
            (b, ptr, complaints)
        },
        Ty::Error(guar) => (valued(b, Value::Error(guar)), next_value(b.func), Seq::empty()),
        other => if is_value_ty(other) {
            (constant(b, word(0)), next_value(b.func), Seq::empty())
        } else {
            let (b, value) = error_emitted(b);
            (b, value, seq![Complaint::MemoryDefault])
        },
    }
}

/// The builder after giving the first `count` elements of an array their
/// default values.
pub open spec fn zero_elements(
    b: BuilderView,
    hir: Hir,
    element: Ty,
    ptr: ValueId,
    len: nat,
    count: nat,
) -> (BuilderView, Seq<Complaint>)
    decreases ty_rank(hir, element), element, count + 1,
    when structs_nest(hir) && struct_declared(hir, element)
{
    if count == 0 {
        (b, Seq::empty())
    } else {
        let (b, front) = zero_elements(b, hir, element, ptr, len, (count - 1) as nat);
        let (b, value, complaints) = zero_value(b, hir, element);
        (
            element_stored(
                b,
                ptr,
                MemoryObjectLayout::FixedArray { len: len as u64, element_words: 1 },
                (count - 1) as u64,
                value,
            ),
            front + complaints,
        )
    }
}

/// The builder after giving the first `count` fields of a struct their default
/// values.
pub open spec fn zero_fields(
    b: BuilderView,
    hir: Hir,
    id: StructId,
    ptr: ValueId,
    count: nat,
) -> (BuilderView, Seq<Complaint>)
    decreases 2 * rank_of(hir, id) + 1, id, count,
    when structs_nest(hir) && id.0 < hir.structs@.len() && count
        <= hir.structs@[id.0 as int].fields@.len()
{
    if count == 0 {
        (b, Seq::empty())
    } else {
        proof {
            lemma_field_rank(hir, id, count - 1);
        }
        let (b, front) = zero_fields(b, hir, id, ptr, (count - 1) as nat);
        let (b, value, complaints) = zero_value(b, hir, field_ty(hir, id, count - 1));
        (
            field_stored(
                b,
                ptr,
                MemoryObjectLayout::Struct {
                    fields: hir.structs@[id.0 as int].fields@.len() as u64,
                },
                (count - 1) as u64,
                value,
            ),
            front + complaints,
        )
    }
}

/// Complaints about one place.
pub open spec fn spanned(complaints: Seq<Complaint>, span: Span) -> Seq<(Span, Complaint)> {
    complaints.map_values(|complaint: Complaint| (span, complaint))
}

/// Whether the size of every struct in memory is a number of bytes.
pub open spec fn struct_sizes_fit(hir: Hir) -> bool {
    forall|i: int|
        0 <= i < hir.structs@.len() ==> (#[trigger] hir.structs@[i]).memory_words * 32 <= u64::MAX
}

/// Whether default values can be built.
pub open spec fn defaults_fit(hir: Hir) -> bool {
    hir_wf(hir) && structs_nest(hir) && struct_sizes_fit(hir)
}

impl Lowerer {
    /// Builds the default value of a type in memory. Reference values get a
    /// real empty object rather than a zero pointer.
    pub fn zero_memory_field_value_ty<'a>(
        &mut self,
        builder: &mut FunctionBuilder<'a>,
        hir: &Hir,
        ty: &Ty,
        span: Span,
    ) -> (r: ValueId)
        requires
            old(builder).wf(),
            defaults_fit(*hir),
            struct_declared(*hir, *ty),
        ensures
            final(builder).wf(),
            final(builder)@ == zero_value(old(builder)@, *hir, *ty).0,
            r == zero_value(old(builder)@, *hir, *ty).1,
            *final(self) == (Lowerer { complaints: final(self).complaints, ..*old(self) }),
            final(self).complaints@ == old(self).complaints@ + spanned(
                zero_value(old(builder)@, *hir, *ty).2,
                span,
            ),
            has_value(final(builder)@.func, r),
            extends(old(builder)@, final(builder)@),
            *final(final(builder).func) == *final(old(builder).func),
        decreases ty_rank(*hir, *ty), ty, 0nat,
    {
        broadcast use group_builder_steps;

        proof {
            lemma_peeled_rank(*hir, *ty);
            assert(self.complaints@ =~= self.complaints@ + spanned(Seq::empty(), span));
        }
        let inner = ty.peel_refs();
        match inner {
            Ty::Array(element, len) => {
                let size: Option<u64> = match len.to_u64() {
                    Some(len) => len.checked_mul(32),
                    None => None,
                };
                let size: u64 = match size {
                    Some(size) => size,
                    None => {
                        let value = self.err_value(builder, span, Complaint::LargeMemoryArray);
                        assert(self.complaints@ =~= old(self).complaints@ + spanned(
                            seq![Complaint::LargeMemoryArray],
                            span,
                        ));
                        return value;
                    },
                };
                let len: u64 = size / 32;
                let ptr = allocate_memory_object(builder, size, MemoryObjectKind::FixedArray);
                if len >= MIN_BULK_ZERO_MEMORY_WORDS && element.peel_refs().is_value_type() {
                    let size_val = builder.imm_u64(size);
                    builder.memory_zero(ptr, size_val);
                    return ptr;
                }
                self.zero_initialize_elements(builder, hir, element, ptr, len, span);
                ptr
            },
            Ty::DynArray(_) => zero_length_object(builder, MemoryObjectKind::DynamicArray),
            Ty::Elementary(ElementaryType::Bytes) | Ty::Elementary(ElementaryType::String) => {
                zero_length_object(builder, MemoryObjectKind::Bytes)
            },
            Ty::Struct(id) => {
                let words: u64 = hir.structs[id.0].memory_words;
                let ptr = allocate_memory_object(builder, words * 32, MemoryObjectKind::Struct);
                self.zero_initialize_memory_struct(builder, hir, *id, ptr, span);
                ptr
            },
            Ty::Error(guar) => builder.error_value(*guar),
            _ => {
                if inner.is_value_type() {
                    builder.imm_u256(U256::zero())
                } else {
                    let value = self.err_value(builder, span, Complaint::MemoryDefault);
                    assert(self.complaints@ =~= old(self).complaints@ + spanned(
                        seq![Complaint::MemoryDefault],
                        span,
                    ));
                    value
                }
            },
        }
    }

    /// Gives every element of an array in memory its default value.
    fn zero_initialize_elements<'a>(
        &mut self,
        builder: &mut FunctionBuilder<'a>,
        hir: &Hir,
        element: &Ty,
        ptr: ValueId,
        len: u64,
        span: Span,
    )
        requires
            old(builder).wf(),
            has_value(old(builder)@.func, ptr),
            defaults_fit(*hir),
            struct_declared(*hir, *element),
        ensures
            final(builder).wf(),
            final(builder)@ == zero_elements(
                old(builder)@,
                *hir,
                *element,
                ptr,
                len as nat,
                len as nat,
            ).0,
            *final(self) == (Lowerer { complaints: final(self).complaints, ..*old(self) }),
            final(self).complaints@ == old(self).complaints@ + spanned(
                zero_elements(old(builder)@, *hir, *element, ptr, len as nat, len as nat).1,
                span,
            ),
            extends(old(builder)@, final(builder)@),
            *final(final(builder).func) == *final(old(builder).func),
        decreases ty_rank(*hir, *element), element, len + 1,
    {
        let mut i: u64 = 0;
        assert(self.complaints@ =~= self.complaints@ + spanned(Seq::empty(), span));
        while i < len
            invariant
                i <= len,
                builder.wf(),
                has_value(old(builder)@.func, ptr),
                defaults_fit(*hir),
                struct_declared(*hir, *element),
                builder@ == zero_elements(
                    old(builder)@,
                    *hir,
                    *element,
                    ptr,
                    len as nat,
                    i as nat,
                ).0,
                *self == (Lowerer { complaints: self.complaints, ..*old(self) }),
                self.complaints@ == old(self).complaints@ + spanned(
                    zero_elements(old(builder)@, *hir, *element, ptr, len as nat, i as nat).1,
                    span,
                ),
                extends(old(builder)@, builder@),
                *final(builder.func) == *final(old(builder).func),
            decreases len - i,
        {
            let value = self.zero_memory_field_value_ty(builder, hir, element, span);
            store_element(
                builder,
                ptr,
                MemoryObjectLayout::FixedArray { len, element_words: 1 },
                i,
                value,
            );
            i = i + 1;
            assert(self.complaints@ =~= old(self).complaints@ + spanned(
                zero_elements(old(builder)@, *hir, *element, ptr, len as nat, i as nat).1,
                span,
            ));
        }
    }

    /// Gives every field of a struct in memory its default value.
    fn zero_initialize_memory_struct<'a>(
        &mut self,
        builder: &mut FunctionBuilder<'a>,
        hir: &Hir,
        id: StructId,
        ptr: ValueId,
        span: Span,
    )
        requires
            old(builder).wf(),
            has_value(old(builder)@.func, ptr),
            defaults_fit(*hir),
            id.0 < hir.structs@.len(),
        ensures
            final(builder).wf(),
            final(builder)@ == zero_fields(
                old(builder)@,
                *hir,
                id,
                ptr,
                hir.structs@[id.0 as int].fields@.len(),
            ).0,
            *final(self) == (Lowerer { complaints: final(self).complaints, ..*old(self) }),
            final(self).complaints@ == old(self).complaints@ + spanned(
                zero_fields(
                    old(builder)@,
                    *hir,
                    id,
                    ptr,
                    hir.structs@[id.0 as int].fields@.len(),
                ).1,
                span,
            ),
            extends(old(builder)@, final(builder)@),
            *final(final(builder).func) == *final(old(builder).func),
        decreases 2 * rank_of(*hir, id) + 1, id, 0nat,
    {
        let count: usize = hir.structs[id.0].fields.len();
        let mut i: usize = 0;
        assert(self.complaints@ =~= self.complaints@ + spanned(Seq::empty(), span));
        while i < count
            invariant
                i <= count,
                builder.wf(),
                has_value(old(builder)@.func, ptr),
                defaults_fit(*hir),
                id.0 < hir.structs@.len(),
                count == hir.structs@[id.0 as int].fields@.len(),
                builder@ == zero_fields(old(builder)@, *hir, id, ptr, i as nat).0,
                *self == (Lowerer { complaints: self.complaints, ..*old(self) }),
                self.complaints@ == old(self).complaints@ + spanned(
                    zero_fields(old(builder)@, *hir, id, ptr, i as nat).1,
                    span,
                ),
                extends(old(builder)@, builder@),
                *final(builder.func) == *final(old(builder).func),
            decreases count - i,
        {
            proof {
                reveal(hir_wf);
                lemma_field_rank(*hir, id, i as int);
                assert(has_variables(*hir, hir.structs@[id.0 as int].fields@));
                assert(hir.structs@[id.0 as int].fields@[i as int].0 < hir.variables@.len());
            }
            let field = &hir.variables[hir.structs[id.0].fields[i].0];
            let value = self.zero_memory_field_value_ty(builder, hir, &field.ty, span);
            store_field(
                builder,
                ptr,
                MemoryObjectLayout::Struct { fields: count as u64 },
                i as u64,
                value,
            );
            i = i + 1;
            assert(self.complaints@ =~= old(self).complaints@ + spanned(
                zero_fields(old(builder)@, *hir, id, ptr, i as nat).1,
                span,
            ));
        }
    }
}

} // verus!
