//! Arrays and mappings in storage.

use crate::hir::{DataLocation, Expr, ExprKind, Hir, Lit};
use crate::lower::emit::extends;
use crate::lower::objects::{
    compute_dynamic_memory_mapping_slot, compute_literal_mapping_slot, literal_mapping_slot,
    memory_mapping_slot,
};
use crate::lower::state::{lookup, Lowerer};
use crate::lower::types::{is_content_key, is_dynamic_mapping_key};
use crate::mir::builder::{
    constant, emitted, group_builder_steps, word, BuilderView, FunctionBuilder,
};
use crate::mir::function::{has_value, next_value};
use crate::mir::inst::{inst, Op};
use crate::mir::types::{MirType, ValueId};
use crate::word::U256;
use vstd::prelude::*;

verus! {

/// An index, multiplied.
#[verifier::opaque]
pub open spec fn index_multiplied(
    b: BuilderView,
    index: ValueId,
    slots: u64,
) -> (BuilderView, ValueId) {
    let factor = next_value(b.func);
    let b = constant(b, word(slots));
    let scaled = next_value(b.func);
    let b = emitted(b, inst(Op::Mul, seq![index, factor]), Some(MirType::uint256()));
    (b, scaled)
}

/// Multiplies an index.
fn multiply_index<'a>(builder: &mut FunctionBuilder<'a>, index: ValueId, slots: u64) -> (r: ValueId)
    requires
        old(builder).wf(),
        has_value(old(builder)@.func, index),
    ensures
        final(builder).wf(),
        (final(builder)@, r) == index_multiplied(old(builder)@, index, slots),
        has_value(final(builder)@.func, r),
        extends(old(builder)@, final(builder)@),
        *final(final(builder).func) == *final(old(builder).func),
{
    broadcast use group_builder_steps;

    proof {
        reveal(index_multiplied);
    }
    let factor = builder.imm_u64(slots);
    let scaled = builder.mul(index, factor);
    scaled
}

/// The slots in front of an element.
pub open spec fn index_scaled(b: BuilderView, index: ValueId, slots: u64) -> (
    BuilderView,
    ValueId,
) {
    if slots <= 1 {
        (b, index)
    } else {
        index_multiplied(b, index, slots)
    }
}

/// Scales an array index by its element's slot count; single-slot elements are
/// addressed by the index directly.
pub fn scale_index_by_slots<'a>(
    builder: &mut FunctionBuilder<'a>,
    index: ValueId,
    slots: u64,
) -> (r: ValueId)
    requires
        old(builder).wf(),
        has_value(old(builder)@.func, index),
    ensures
        final(builder).wf(),
        (final(builder)@, r) == index_scaled(old(builder)@, index, slots),
        has_value(final(builder)@.func, r),
        extends(old(builder)@, final(builder)@),
        *final(final(builder).func) == *final(old(builder).func),
{
    if slots <= 1 {
        return index;
    }
    multiply_index(builder, index, slots)
}

/// The length of an array in storage.
pub open spec fn array_length(b: BuilderView, slot: ValueId, fixed_len: Option<u64>) -> (
    BuilderView,
    ValueId,
) {
    match fixed_len {
        Some(len) => (constant(b, word(len)), next_value(b.func)),
        None => (
            emitted(b, inst(Op::SLoad, seq![slot]), Some(MirType::uint256())),
            next_value(b.func),
        ),
    }
}

/// Returns the length of an array in storage: a constant, or the word at its
/// slot.
pub fn load_array_length<'a>(
    builder: &mut FunctionBuilder<'a>,
    slot: ValueId,
    fixed_len: Option<u64>,
) -> (r: ValueId)
    requires
        old(builder).wf(),
        has_value(old(builder)@.func, slot),
    ensures
        final(builder).wf(),
        (final(builder)@, r) == array_length(old(builder)@, slot, fixed_len),
        has_value(final(builder)@.func, r),
        extends(old(builder)@, final(builder)@),
        *final(final(builder).func) == *final(old(builder).func),
{
    broadcast use group_builder_steps;

    match fixed_len {
        Some(len) => builder.imm_u64(len),
        None => builder.sload(slot),
    }
}

/// The slot of an element of a fixed-size array.
#[verifier::opaque]
pub open spec fn inline_element(
    b: BuilderView,
    slot: ValueId,
    index: ValueId,
    slots: u64,
) -> (BuilderView, ValueId) {
    let (b, offset) = index_scaled(b, index, slots);
    let element = next_value(b.func);
    let b = emitted(b, inst(Op::Add, seq![slot, offset]), Some(MirType::uint256()));
    (b, element)
}

/// Returns the slot of an element of a fixed-size array.
fn inline_element_slot<'a>(
    builder: &mut FunctionBuilder<'a>,
    slot: ValueId,
    index: ValueId,
    slots: u64,
) -> (r: ValueId)
    requires
        old(builder).wf(),
        has_value(old(builder)@.func, slot),
        has_value(old(builder)@.func, index),
    ensures
        final(builder).wf(),
        (final(builder)@, r) == inline_element(old(builder)@, slot, index, slots),
        has_value(final(builder)@.func, r),
        extends(old(builder)@, final(builder)@),
        *final(final(builder).func) == *final(old(builder).func),
{
    broadcast use group_builder_steps;

    proof {
        reveal(inline_element);
    }
    let offset = scale_index_by_slots(builder, index, slots);
    let element = builder.add(slot, offset);
    element
}

/// The slot of an element of an array of any length.
#[verifier::opaque]
pub open spec fn hashed_element(
    b: BuilderView,
    slot: ValueId,
    index: ValueId,
    slots: u64,
) -> (BuilderView, ValueId) {
    let scratch = next_value(b.func);
    let b = constant(b, word(0));
    let b = emitted(b, inst(Op::MStore, seq![scratch, slot]), None);
    let one_word = next_value(b.func);
    let b = constant(b, word(32));
    let data_slot = next_value(b.func);
    let b = emitted(b, inst(Op::Keccak256, seq![scratch, one_word]), Some(MirType::bytes32()));
    let (b, offset) = index_scaled(b, index, slots);
    let element = next_value(b.func);
    let b = emitted(b, inst(Op::Add, seq![data_slot, offset]), Some(MirType::uint256()));
    (b, element)
}

/// Returns the slot of an element of an array of any length: the elements start
/// at the hash of the slot of the array.
pub fn hashed_element_slot<'a>(
    builder: &mut FunctionBuilder<'a>,
    slot: ValueId,
    index: ValueId,
    slots: u64,
) -> (r: ValueId)
    requires
        old(builder).wf(),
        has_value(old(builder)@.func, slot),
        has_value(old(builder)@.func, index),
    ensures
        final(builder).wf(),
        (final(builder)@, r) == hashed_element(old(builder)@, slot, index, slots),
        has_value(final(builder)@.func, r),
        extends(old(builder)@, final(builder)@),
        *final(final(builder).func) == *final(old(builder).func),
{
    broadcast use group_builder_steps;

    proof {
        reveal(hashed_element);
    }
    let scratch = builder.imm_u64(0);
    builder.mstore(scratch, slot);
    let one_word = builder.imm_u64(32);
    let data_slot = builder.keccak256(scratch, one_word);
    let offset = scale_index_by_slots(builder, index, slots);
    let element = builder.add(data_slot, offset);
    element
}

/// The slot of an element of an array in storage.
pub open spec fn element_slot(
    b: BuilderView,
    slot: ValueId,
    fixed_len: Option<u64>,
    index: ValueId,
    slots: u64,
) -> (BuilderView, ValueId) {
    match fixed_len {
        Some(_) => inline_element(b, slot, index, slots),
        None => hashed_element(b, slot, index, slots),
    }
}

/// Returns the slot of an element of an array in storage, once its index was
/// checked against the length.
pub fn lower_storage_array_element_slot<'a>(
    builder: &mut FunctionBuilder<'a>,
    slot: ValueId,
    fixed_len: Option<u64>,
    index: ValueId,
    slots: u64,
) -> (r: ValueId)
    requires
        old(builder).wf(),
        has_value(old(builder)@.func, slot),
        has_value(old(builder)@.func, index),
    ensures
        final(builder).wf(),
        (final(builder)@, r) == element_slot(old(builder)@, slot, fixed_len, index, slots),
        has_value(final(builder)@.func, r),
        extends(old(builder)@, final(builder)@),
        *final(final(builder).func) == *final(old(builder).func),
{
    match fixed_len {
        Some(_) => inline_element_slot(builder, slot, index, slots),
        None => hashed_element_slot(builder, slot, index, slots),
    }
}

/// The lengths before and after appending an element.
#[verifier::opaque]
pub open spec fn push_begun(b: BuilderView, slot: ValueId) -> (
    BuilderView,
    (ValueId, ValueId, ValueId),
) {
    let length = next_value(b.func);
    let b = emitted(b, inst(Op::SLoad, seq![slot]), Some(MirType::uint256()));
    let one = next_value(b.func);
    let b = constant(b, word(1));
    let new_length = next_value(b.func);
    let b = emitted(b, inst(Op::Add, seq![length, one]), Some(MirType::uint256()));
    let overflow = next_value(b.func);
    let b = emitted(b, inst(Op::Lt, seq![new_length, length]), Some(MirType::Bool));
    (b, (length, new_length, overflow))
}

/// Starts appending an element: returns the old and the new length, and whether
/// it overflows.
pub fn begin_push<'a>(
    builder: &mut FunctionBuilder<'a>,
    slot: ValueId,
) -> (r: (ValueId, ValueId, ValueId))
    requires
        old(builder).wf(),
        has_value(old(builder)@.func, slot),
    ensures
        final(builder).wf(),
        (final(builder)@, r) == push_begun(old(builder)@, slot),
        has_value(final(builder)@.func, r.0),
        has_value(final(builder)@.func, r.1),
        has_value(final(builder)@.func, r.2),
        extends(old(builder)@, final(builder)@),
        *final(final(builder).func) == *final(old(builder).func),
{
    broadcast use group_builder_steps;

    proof {
        reveal(push_begun);
    }
    let length = builder.sload(slot);
    let one = builder.imm_u64(1);
    let new_length = builder.add(length, one);
    let overflow = builder.lt(new_length, length);
    (length, new_length, overflow)
}

/// The length after removing the last element.
#[verifier::opaque]
pub open spec fn pop_begun(b: BuilderView, length: ValueId) -> (BuilderView, ValueId) {
    let one = next_value(b.func);
    let b = constant(b, word(1));
    let new_length = next_value(b.func);
    let b = emitted(b, inst(Op::Sub, seq![length, one]), Some(MirType::uint256()));
    (b, new_length)
}

/// Starts removing the last element, once the length was checked: returns the
/// new length.
pub fn begin_pop<'a>(builder: &mut FunctionBuilder<'a>, length: ValueId) -> (r: ValueId)
    requires
        old(builder).wf(),
        has_value(old(builder)@.func, length),
    ensures
        final(builder).wf(),
        (final(builder)@, r) == pop_begun(old(builder)@, length),
        has_value(final(builder)@.func, r),
        extends(old(builder)@, final(builder)@),
        *final(final(builder).func) == *final(old(builder).func),
{
    broadcast use group_builder_steps;

    proof {
        reveal(pop_begun);
    }
    let one = builder.imm_u64(1);
    let new_length = builder.sub(length, one);
    new_length
}

/// How the slot of a mapping element is computed from its key.
#[derive(Clone, Copy, Debug, PartialEq, Eq, Structural)]
pub enum KeyHash {
    /// From the bytes of a literal.
    Literal,
    /// From bytes in the call data.
    Calldata,
    /// From a slice of memory.
    MemorySlice,
    /// From bytes in memory.
    Memory,
    /// From bytes in storage.
    Storage,
    /// From the word itself.
    Word,
}

/// The bytes of a literal key.
pub open spec fn literal_key(expr: Expr) -> Option<Seq<u8>> {
    match expr.kind {
        ExprKind::Lit(Lit::Str(bytes)) => Some(bytes@),
        _ => None,
    }
}

/// Returns the bytes of a string literal.
pub fn str_lit_key_bytes<'a>(expr: &'a Expr) -> (r: Option<&'a Vec<u8>>)
    ensures
        match r {
            Some(bytes) => literal_key(*expr) == Some(bytes@),
            None => literal_key(*expr) is None,
        },
{
    match &expr.kind {
        ExprKind::Lit(Lit::Str(bytes)) => Some(bytes),
        _ => None,
    }
}

/// Whether an expression is a storage-reference local of `string` or `bytes`
/// type: it lowers to its slot.
pub open spec fn is_storage_ref_bytes(lowerer: Lowerer, hir: Hir, expr: Expr) -> bool {
    expr.facts.variable matches Some(id) && lowerer.storage_ref_locals@.contains(id.0)
        && is_content_key(hir.variables@[id.0 as int].declared)
}

/// Whether an expression is a variable whose value is bytes in the call data.
pub open spec fn is_calldata_arg(lowerer: Lowerer, hir: Hir, expr: Expr) -> bool {
    expr.facts.variable matches Some(id) && lowerer.locals@.contains_key(id.0)
        && !lowerer.local_memory_slots@.contains_key(id.0)
        && hir.variables@[id.0 as int].location == Some(DataLocation::Calldata)
        && is_content_key(hir.variables@[id.0 as int].declared)
}

/// How the slot of a mapping element is computed: `string` and `bytes` keys are
/// hashed by their contents, everything else by its word.
pub open spec fn key_hash(
    lowerer: Lowerer,
    hir: Hir,
    key_is_calldata_slice: bool,
    key_is_memory_slice: bool,
    index: Option<Expr>,
    key_is_dynamic: bool,
) -> KeyHash {
    match index {
        Some(expr) if key_is_dynamic => if literal_key(expr) is Some {
            KeyHash::Literal
        } else if key_is_calldata_slice {
            KeyHash::Calldata
        } else if key_is_memory_slice {
            KeyHash::MemorySlice
        } else if is_calldata_arg(lowerer, hir, expr) {
            KeyHash::Calldata
        } else if expr.facts.memory_bytes || expr.facts.storage_bytes {
            KeyHash::Memory
        } else if is_storage_ref_bytes(lowerer, hir, expr) {
            KeyHash::Storage
        } else {
            KeyHash::Word
        },
        _ => KeyHash::Word,
    }
}

/// The index of an element access.
pub open spec fn index_view(index: Option<&Expr>) -> Option<Expr> {
    match index {
        Some(expr) => Some(*expr),
        None => None,
    }
}

/// Where the slot of a mapping comes from.
#[derive(Clone, Copy, Debug, PartialEq, Eq, Structural)]
pub enum MappingBase {
    /// It is a constant.
    Constant(U256),
    /// It is the value of a variable.
    Value(ValueId),
    /// It has to be computed.
    Lvalue,
}

/// Where the slot of a mapping comes from: a state variable, a storage
/// reference, or anything else that has a slot.
pub open spec fn mapping_base(lowerer: Lowerer, base: Expr) -> MappingBase {
    match base.facts.variable {
        Some(id) => match lookup(lowerer.storage_slots@, id) {
            Some(slot) => MappingBase::Constant(slot),
            None => match lookup(lowerer.locals@, id) {
                Some(value) => MappingBase::Value(value),
                None => MappingBase::Lvalue,
            },
        },
        None => MappingBase::Lvalue,
    }
}

impl Lowerer {
    /// Returns the slot of a mapping that is a state variable.
    pub fn get_mapping_base_slot(&self, expr: &Expr) -> (r: Option<U256>)
        ensures
            r == match expr.facts.variable {
                Some(id) => lookup(self.storage_slots@, id),
                None => None,
            },
    {
        match expr.facts.variable {
            Some(id) => self.get_storage_slot(id),
            None => None,
        }
    }

    /// Returns where the slot of a mapping comes from.
    pub fn find_mapping_base(&self, base: &Expr) -> (r: MappingBase)
        ensures
            r == mapping_base(*self, *base),
    {
        if let Some(slot) = self.get_mapping_base_slot(base) {
            return MappingBase::Constant(slot);
        }
        match base.facts.variable {
            Some(id) => match self.get_local(id) {
                Some(value) => MappingBase::Value(value),
                None => MappingBase::Lvalue,
            },
            None => MappingBase::Lvalue,
        }
    }

    /// Whether an expression is a storage-reference local of `string` or
    /// `bytes` type.
    pub fn is_storage_ref_bytes_local(&self, hir: &Hir, expr: &Expr) -> (r: bool)
        requires
            expr.facts.variable matches Some(id) ==> id.0 < hir.variables@.len(),
        ensures
            r == is_storage_ref_bytes(*self, *hir, *expr),
    {
        broadcast use vstd::std_specs::hash::group_hash_axioms;

        match expr.facts.variable {
            Some(id) => self.storage_ref_locals.contains(&id.0) && is_dynamic_mapping_key(
                &hir.variables[id.0].declared,
            ),
            None => false,
        }
    }

    /// Whether an expression is a variable whose value is bytes in the call
    /// data.
    pub fn is_dynamic_calldata_arg(&self, hir: &Hir, expr: &Expr) -> (r: bool)
        requires
            expr.facts.variable matches Some(id) ==> id.0 < hir.variables@.len(),
        ensures
            r == is_calldata_arg(*self, *hir, *expr),
    {
        match expr.facts.variable {
            Some(id) => {
                if self.get_local(id).is_none() || self.get_local_memory_offset(id).is_some() {
                    return false;
                }
                let var = &hir.variables[id.0];
                let in_calldata = match var.location {
                    Some(DataLocation::Calldata) => true,
                    _ => false,
                };
                in_calldata && is_dynamic_mapping_key(&var.declared)
            },
            None => false,
        }
    }

    /// Returns how the slot of a mapping element is computed.
    pub fn choose_key_hash(
        &self,
        hir: &Hir,
        key_is_calldata_slice: bool,
        key_is_memory_slice: bool,
        index: Option<&Expr>,
        key_is_dynamic: bool,
    ) -> (r: KeyHash)
        requires
            index matches Some(expr) ==> (expr.facts.variable matches Some(id) ==> id.0
                < hir.variables@.len()),
        ensures
            r == key_hash(
                *self,
                *hir,
                key_is_calldata_slice,
                key_is_memory_slice,
                index_view(index),
                key_is_dynamic,
            ),
    {
        if !key_is_dynamic {
            return KeyHash::Word;
        }
        match index {
            Some(expr) => {
                if str_lit_key_bytes(expr).is_some() {
                    KeyHash::Literal
                } else if key_is_calldata_slice {
                    KeyHash::Calldata
                } else if key_is_memory_slice {
                    KeyHash::MemorySlice
                } else if self.is_dynamic_calldata_arg(hir, expr) {
                    KeyHash::Calldata
                } else if expr.facts.memory_bytes || expr.facts.storage_bytes {
                    KeyHash::Memory
                } else if self.is_storage_ref_bytes_local(hir, expr) {
                    KeyHash::Storage
                } else {
                    KeyHash::Word
                }
            },
            None => KeyHash::Word,
        }
    }
}

/// The slot of a mapping element whose key is at hand: for a memory key the
/// bytes, for a literal its bytes, and else the value.
pub open spec fn mapping_element(
    b: BuilderView,
    has_mcopy: bool,
    hash: KeyHash,
    literal: Seq<u8>,
    key: ValueId,
    slot: ValueId,
) -> (BuilderView, ValueId) {
    match hash {
        KeyHash::Literal => literal_mapping_slot(b, literal, slot),
        KeyHash::Calldata => (
            emitted(b, inst(Op::MappingSlotCalldata, seq![key, slot]), Some(MirType::bytes32())),
            next_value(b.func),
        ),
        KeyHash::MemorySlice | KeyHash::Memory | KeyHash::Storage => memory_mapping_slot(
            b,
            has_mcopy,
            key,
            slot,
        ),
        KeyHash::Word => (
            emitted(b, inst(Op::MappingSlot, seq![key, slot]), Some(MirType::bytes32())),
            next_value(b.func),
        ),
    }
}

/// Computes the slot of a mapping element. A key that is a slice of memory or
/// bytes in storage was copied to bytes in memory before.
pub fn compute_mapping_slot_for_key<'a>(
    builder: &mut FunctionBuilder<'a>,
    has_mcopy: bool,
    hash: KeyHash,
    literal: &Vec<u8>,
    key: ValueId,
    slot: ValueId,
) -> (r: ValueId)
    requires
        old(builder).wf(),
        has_value(old(builder)@.func, key),
        has_value(old(builder)@.func, slot),
        literal@.len() + 64 <= usize::MAX,
    ensures
        final(builder).wf(),
        (final(builder)@, r) == mapping_element(
            old(builder)@,
            has_mcopy,
            hash,
            literal@,
            key,
            slot,
        ),
        has_value(final(builder)@.func, r),
        extends(old(builder)@, final(builder)@),
        *final(final(builder).func) == *final(old(builder).func),
{
    broadcast use group_builder_steps;

    match hash {
        KeyHash::Literal => compute_literal_mapping_slot(builder, literal, slot),
        KeyHash::Calldata => builder.mapping_slot_calldata(key, slot),
        KeyHash::MemorySlice | KeyHash::Memory | KeyHash::Storage => {
            compute_dynamic_memory_mapping_slot(builder, has_mcopy, key, slot)
        },
        KeyHash::Word => builder.mapping_slot(key, slot),
    }
}

} // verus!
