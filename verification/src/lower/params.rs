//! Decoding the parameters of a function.

use crate::hir::FieldEncoding;
use crate::lower::emit::{
    args_base, calldata_word, decode_revert_if, emit_abi_decode_revert_if,
    emit_abi_param_validation, extends, extension_compared, head_loaded, mask_compared, mcopy,
    memory_copied, memory_word, param_validated, range_compared, revert_unless, truth_compared,
    word_checked, AbiParamSource,
};
use crate::lower::objects::{
    allocate_memory_object, allocated, element_stored, object_allocated, padding_mask,
    padding_mask_word, store_element,
};
use crate::lower::types::AbiWordValidator;
use crate::memory::EvmMemoryLayout;
use crate::mir::builder::{
    constant, emitted, group_builder_steps, word, BuilderView, FunctionBuilder,
};
use crate::mir::function::{has_value, next_value, with_param};
use crate::mir::inst::{inst, Op};
use crate::mir::types::{
    AllocationKind, AllocationSemantics, MemoryObjectKind, MemoryObjectLayout, MirType, ValueId,
};
use vstd::prelude::*;

verus! {

/// The builder after declaring a parameter.
#[verifier::opaque]
pub open spec fn with_new_param(b: BuilderView, ty: MirType) -> BuilderView {
    BuilderView { func: with_param(b.func, ty), block: b.block }
}

/// What declaring a parameter leaves alone.
pub broadcast proof fn lemma_new_param(b: BuilderView, ty: MirType)
    ensures
        (#[trigger] with_new_param(b, ty)).block == b.block,
        with_new_param(b, ty).func.values.len() == b.func.values.len() + 1,
        with_new_param(b, ty).func.insts.len() == b.func.insts.len(),
        with_new_param(b, ty).func.blocks.len() == b.func.blocks.len(),
        with_new_param(b, ty).func.params == b.func.params.push(ty),
        with_new_param(b, ty).func.return_types == b.func.return_types,
{
    reveal(with_new_param);
}

/// Declares a parameter.
pub fn declare_param<'a>(builder: &mut FunctionBuilder<'a>, ty: MirType) -> (r: ValueId)
    requires
        old(builder).wf(),
    ensures
        final(builder).wf(),
        final(builder)@ == with_new_param(old(builder)@, ty),
        r == next_value(old(builder)@.func),
        has_value(final(builder)@.func, r),
        extends(old(builder)@, final(builder)@),
        *final(final(builder).func) == *final(old(builder).func),
{
    broadcast use lemma_new_param;

    proof {
        reveal(with_new_param);
    }
    builder.add_param(ty)
}

/// The base of a struct with a tail, from its head word.
#[verifier::opaque]
pub open spec fn dynamic_struct_based(
    b: BuilderView,
    source: AbiParamSource,
) -> (BuilderView, ValueId) {
    let offset = next_value(b.func);
    let b = with_new_param(b, MirType::uint256());
    let limit = next_value(b.func);
    let b = constant(b, word(0xffff_ffff_ffff_ffff));
    let out_of_range = next_value(b.func);
    let b = emitted(b, inst(Op::Gt, seq![offset, limit]), Some(MirType::Bool));
    let b = decode_revert_if(b, out_of_range);
    let start = next_value(b.func);
    let b = constant(b, word(args_base(source)));
    let base = next_value(b.func);
    let b = emitted(b, inst(Op::Add, seq![start, offset]), Some(MirType::uint256()));
    (b, base)
}

/// Declares a parameter that is a struct with a tail: its head word is the offset
/// of its base from the start of the arguments. Returns the base.
pub fn dynamic_struct_param<'a>(
    builder: &mut FunctionBuilder<'a>,
    source: AbiParamSource,
) -> (r: ValueId)
    requires
        old(builder).wf(),
    ensures
        final(builder).wf(),
        (final(builder)@, r) == dynamic_struct_based(old(builder)@, source),
        has_value(final(builder)@.func, r),
        extends(old(builder)@, final(builder)@),
        *final(final(builder).func) == *final(old(builder).func),
{
    broadcast use group_builder_steps, lemma_new_param;

    proof {
        reveal(dynamic_struct_based);
    }
    let offset = declare_param(builder, MirType::uint256());
    let limit = builder.imm_u64(0xffff_ffff_ffff_ffff);
    let out_of_range = builder.gt(offset, limit);
    emit_abi_decode_revert_if(builder, out_of_range);
    let start = builder.imm_u64(source.base());
    let base = builder.add(start, offset);
    base
}

/// The builder after declaring `count` words.
pub open spec fn words_declared(b: BuilderView, count: nat) -> BuilderView
    decreases count,
{
    if count == 0 {
        b
    } else {
        with_new_param(words_declared(b, (count - 1) as nat), MirType::uint256())
    }
}

/// The position of an aggregate of `count` words in the head.
#[verifier::opaque]
pub open spec fn aggregate_placed(b: BuilderView, source: AbiParamSource, count: u64) -> (
    BuilderView,
    ValueId,
) {
    let first_word = b.func.params.len();
    let b = words_declared(b, count as nat);
    let position = (args_base(source) + first_word * EvmMemoryLayout::WORD_SIZE) as u64;
    (constant(b, word(position)), next_value(b.func))
}

/// Declares the words of an aggregate that stands in the head, so that the
/// fields after it get theirs. Returns its position.
pub fn aggregate_param<'a>(
    builder: &mut FunctionBuilder<'a>,
    source: AbiParamSource,
    count: u64,
) -> (r: ValueId)
    requires
        old(builder).wf(),
        EvmMemoryLayout::HEAP_START + old(builder)@.func.params.len()
            * EvmMemoryLayout::WORD_SIZE <= u64::MAX,
    ensures
        final(builder).wf(),
        (final(builder)@, r) == aggregate_placed(old(builder)@, source, count),
        has_value(final(builder)@.func, r),
        extends(old(builder)@, final(builder)@),
        *final(final(builder).func) == *final(old(builder).func),
{
    broadcast use group_builder_steps, lemma_new_param;

    proof {
        reveal(aggregate_placed);
    }
    let first_word: u64 = builder.func.params.len() as u64;
    let mut i: u64 = 0;
    while i < count
        invariant
            i <= count,
            builder.wf(),
            builder@ == words_declared(old(builder)@, i as nat),
            extends(old(builder)@, builder@),
            *final(builder.func) == *final(old(builder).func),
        decreases count - i,
    {
        broadcast use lemma_new_param;

        let _ = declare_param(builder, MirType::uint256());
        i = i + 1;
    }
    builder.imm_u64(source.base() + first_word * EvmMemoryLayout::WORD_SIZE)
}

/// A parameter of one word, validated.
pub open spec fn word_param(
    b: BuilderView,
    source: AbiParamSource,
    ty: MirType,
    validator: Option<AbiWordValidator>,
) -> (BuilderView, ValueId) {
    let value = next_value(b.func);
    let arg_index = b.func.params.len() as u64;
    (param_validated(with_new_param(b, ty), source, arg_index, validator), value)
}

/// Declares a parameter of one word and validates what is passed for it.
pub fn declare_word_param<'a>(
    builder: &mut FunctionBuilder<'a>,
    source: AbiParamSource,
    ty: MirType,
    validator: Option<AbiWordValidator>,
) -> (r: ValueId)
    requires
        old(builder).wf(),
        EvmMemoryLayout::HEAP_START + old(builder)@.func.params.len()
            * EvmMemoryLayout::WORD_SIZE <= u64::MAX,
    ensures
        final(builder).wf(),
        (final(builder)@, r) == word_param(old(builder)@, source, ty, validator),
        has_value(final(builder)@.func, r),
        extends(old(builder)@, final(builder)@),
        *final(final(builder).func) == *final(old(builder).func),
{
    broadcast use group_builder_steps, lemma_new_param;

    let arg_index: u64 = builder.func.params.len() as u64;
    let value = declare_param(builder, ty);
    emit_abi_param_validation(builder, source, arg_index, validator);
    value
}

/// The bytes that a payload takes, in whole words.
#[verifier::opaque]
pub open spec fn linked_bytes_sized(b: BuilderView, len: ValueId) -> (BuilderView, ValueId) {
    let thirty_one = next_value(b.func);
    let b = constant(b, word(31));
    let padded = next_value(b.func);
    let b = emitted(b, inst(Op::Add, seq![len, thirty_one]), Some(MirType::uint256()));
    let mask = next_value(b.func);
    let b = constant(b, padding_mask());
    let size = next_value(b.func);
    let b = emitted(b, inst(Op::And, seq![padded, mask]), Some(MirType::uint256()));
    (b, size)
}

/// Returns the bytes that a payload of `len` bytes takes.
fn linked_bytes_size<'a>(builder: &mut FunctionBuilder<'a>, len: ValueId) -> (r: ValueId)
    requires
        old(builder).wf(),
        has_value(old(builder)@.func, len),
    ensures
        final(builder).wf(),
        (final(builder)@, r) == linked_bytes_sized(old(builder)@, len),
        has_value(final(builder)@.func, r),
        extends(old(builder)@, final(builder)@),
        *final(final(builder).func) == *final(old(builder).func),
{
    broadcast use group_builder_steps, lemma_new_param;

    proof {
        reveal(linked_bytes_sized);
    }
    let thirty_one = builder.imm_u64(31);
    let padded = builder.add(len, thirty_one);
    let mask = builder.imm_u256(padding_mask_word());
    let size = builder.and(padded, mask);
    size
}

/// The copy of the array that a field's head word points at.
#[verifier::opaque]
pub open spec fn linked_array_copied(b: BuilderView, head: ValueId) -> (BuilderView, ValueId) {
    let four = next_value(b.func);
    let b = constant(b, word(4));
    let pos = next_value(b.func);
    let b = emitted(b, inst(Op::Add, seq![four, head]), Some(MirType::uint256()));
    let len = next_value(b.func);
    let b = emitted(b, inst(Op::CalldataLoad, seq![pos]), Some(MirType::uint256()));
    let one_word = next_value(b.func);
    let b = constant(b, word(32));
    let byte_len = next_value(b.func);
    let b = emitted(b, inst(Op::Mul, seq![len, one_word]), Some(MirType::uint256()));
    let size = next_value(b.func);
    let b = emitted(b, inst(Op::Add, seq![one_word, byte_len]), Some(MirType::uint256()));
    let ptr = next_value(b.func);
    let b = emitted(
        b,
        inst(
            Op::Alloc {
                kind: AllocationKind::Object(MemoryObjectLayout::DynamicArray { element_words: 1 }),
                semantics: AllocationSemantics::internal(),
            },
            seq![size],
        ),
        Some(MirType::MemoryObject(MemoryObjectLayout::DynamicArray { element_words: 1 }.kind())),
    );
    let b = emitted(
        b,
        inst(Op::SetMemoryObjectLen { kind: MemoryObjectKind::DynamicArray }, seq![ptr, len]),
        None,
    );
    let dst = next_value(b.func);
    let b = emitted(
        b,
        inst(Op::MemoryObjectData { kind: MemoryObjectKind::DynamicArray }, seq![ptr]),
        Some(MirType::MemPtr),
    );
    let src = next_value(b.func);
    let b = emitted(b, inst(Op::Add, seq![pos, one_word]), Some(MirType::uint256()));
    let b = emitted(b, inst(Op::CalldataCopy, seq![dst, src, byte_len]), None);
    (b, ptr)
}

/// Copies the array that a field's head word points at to memory.
fn linked_array_field<'a>(builder: &mut FunctionBuilder<'a>, head: ValueId) -> (r: ValueId)
    requires
        old(builder).wf(),
        has_value(old(builder)@.func, head),
    ensures
        final(builder).wf(),
        (final(builder)@, r) == linked_array_copied(old(builder)@, head),
        has_value(final(builder)@.func, r),
        extends(old(builder)@, final(builder)@),
        *final(final(builder).func) == *final(old(builder).func),
{
    broadcast use group_builder_steps, lemma_new_param;

    proof {
        reveal(linked_array_copied);
    }
    let four = builder.imm_u64(4);
    let pos = builder.add(four, head);
    let len = builder.calldataload(pos);
    let one_word = builder.imm_u64(32);
    let byte_len = builder.mul(len, one_word);
    let size = builder.add(one_word, byte_len);
    let ptr = builder.alloc_object(
        size,
        MemoryObjectLayout::DynamicArray { element_words: 1 },
        AllocationSemantics::internal(),
    );
    builder.set_memory_object_len(ptr, len, MemoryObjectKind::DynamicArray);
    let dst = builder.memory_object_data(ptr, MemoryObjectKind::DynamicArray);
    let src = builder.add(pos, one_word);
    builder.calldatacopy(dst, src, byte_len);
    ptr
}

/// The copy of the bytes that a field's head word points at.
#[verifier::opaque]
pub open spec fn linked_bytes_copied(b: BuilderView, head: ValueId) -> (BuilderView, ValueId) {
    let four = next_value(b.func);
    let b = constant(b, word(4));
    let pos = next_value(b.func);
    let b = emitted(b, inst(Op::Add, seq![four, head]), Some(MirType::uint256()));
    let len = next_value(b.func);
    let b = emitted(b, inst(Op::CalldataLoad, seq![pos]), Some(MirType::uint256()));
    let one_word = next_value(b.func);
    let b = constant(b, word(32));
    let (b, byte_len) = linked_bytes_sized(b, len);
    let size = next_value(b.func);
    let b = emitted(b, inst(Op::Add, seq![one_word, byte_len]), Some(MirType::uint256()));
    let ptr = next_value(b.func);
    let b = emitted(
        b,
        inst(
            Op::Alloc {
                kind: AllocationKind::Object(MemoryObjectLayout::Bytes),
                semantics: AllocationSemantics::internal(),
            },
            seq![size],
        ),
        Some(MirType::MemoryObject(MemoryObjectLayout::Bytes.kind())),
    );
    let b = emitted(
        b,
        inst(Op::SetMemoryObjectLen { kind: MemoryObjectKind::Bytes }, seq![ptr, len]),
        None,
    );
    let dst = next_value(b.func);
    let b = emitted(
        b,
        inst(Op::MemoryObjectData { kind: MemoryObjectKind::Bytes }, seq![ptr]),
        Some(MirType::MemPtr),
    );
    let src = next_value(b.func);
    let b = emitted(b, inst(Op::Add, seq![pos, one_word]), Some(MirType::uint256()));
    let b = emitted(b, inst(Op::CalldataCopy, seq![dst, src, byte_len]), None);
    (b, ptr)
}

/// Copies the bytes that a field's head word points at to memory.
fn linked_bytes_field<'a>(builder: &mut FunctionBuilder<'a>, head: ValueId) -> (r: ValueId)
    requires
        old(builder).wf(),
        has_value(old(builder)@.func, head),
    ensures
        final(builder).wf(),
        (final(builder)@, r) == linked_bytes_copied(old(builder)@, head),
        has_value(final(builder)@.func, r),
        extends(old(builder)@, final(builder)@),
        *final(final(builder).func) == *final(old(builder).func),
{
    broadcast use group_builder_steps, lemma_new_param;

    proof {
        reveal(linked_bytes_copied);
    }
    let four = builder.imm_u64(4);
    let pos = builder.add(four, head);
    let len = builder.calldataload(pos);
    let one_word = builder.imm_u64(32);
    let byte_len = linked_bytes_size(builder, len);
    let size = builder.add(one_word, byte_len);
    let ptr = builder.alloc_object(
        size,
        MemoryObjectLayout::Bytes,
        AllocationSemantics::internal(),
    );
    builder.set_memory_object_len(ptr, len, MemoryObjectKind::Bytes);
    let dst = builder.memory_object_data(ptr, MemoryObjectKind::Bytes);
    let src = builder.add(pos, one_word);
    builder.calldatacopy(dst, src, byte_len);
    ptr
}

/// The value of a field from its head word: arrays and bytes are copied to
/// memory, other fields are the word itself.
pub open spec fn linked_field(b: BuilderView, head: ValueId, encoding: FieldEncoding) -> (
    BuilderView,
    ValueId,
) {
    match encoding {
        FieldEncoding::DynArray => linked_array_copied(b, head),
        FieldEncoding::DynBytes => linked_bytes_copied(b, head),
        _ => (b, head),
    }
}

/// Returns the value of a field from its head word.
pub fn lower_linked_field<'a>(
    builder: &mut FunctionBuilder<'a>,
    head: ValueId,
    encoding: FieldEncoding,
) -> (r: ValueId)
    requires
        old(builder).wf(),
        has_value(old(builder)@.func, head),
    ensures
        final(builder).wf(),
        (final(builder)@, r) == linked_field(old(builder)@, head, encoding),
        has_value(final(builder)@.func, r),
        extends(old(builder)@, final(builder)@),
        *final(final(builder).func) == *final(old(builder).func),
{
    match encoding {
        FieldEncoding::DynArray => linked_array_field(builder, head),
        FieldEncoding::DynBytes => linked_bytes_field(builder, head),
        _ => head,
    }
}

/// The payload of a parameter with a tail: where it is and how long it is.
#[verifier::opaque]
pub open spec fn payload_found(b: BuilderView, source: AbiParamSource, ty: MirType) -> (
    BuilderView,
    (ValueId, ValueId),
) {
    let head = next_value(b.func);
    let b = with_new_param(b, ty);
    let base = next_value(b.func);
    let b = constant(b, word(args_base(source)));
    let len_pos = next_value(b.func);
    let b = emitted(b, inst(Op::Add, seq![base, head]), Some(MirType::uint256()));
    let len = next_value(b.func);
    let op = if source is ConstructorMemory {
        Op::MLoad
    } else {
        Op::CalldataLoad
    };
    (emitted(b, inst(op, seq![len_pos]), Some(MirType::uint256())), (len_pos, len))
}

/// Declares a parameter with a tail. Calls read the payload from the call data
/// after the selector, constructors from the copied arguments. Returns where
/// the payload is and its length.
pub fn find_payload<'a>(
    builder: &mut FunctionBuilder<'a>,
    source: AbiParamSource,
    ty: MirType,
) -> (r: (ValueId, ValueId))
    requires
        old(builder).wf(),
    ensures
        final(builder).wf(),
        (final(builder)@, r) == payload_found(old(builder)@, source, ty),
        has_value(final(builder)@.func, r.0),
        has_value(final(builder)@.func, r.1),
        extends(old(builder)@, final(builder)@),
        *final(final(builder).func) == *final(old(builder).func),
{
    broadcast use group_builder_steps, lemma_new_param;

    proof {
        reveal(payload_found);
    }
    let head = declare_param(builder, ty);
    let base = builder.imm_u64(source.base());
    let len_pos = builder.add(base, head);
    let len = match source {
        AbiParamSource::ConstructorMemory => builder.mload(len_pos),
        AbiParamSource::ExternalCalldata => builder.calldataload(len_pos),
    };
    (len_pos, len)
}

/// A payload copied to memory.
pub open spec fn payload_copied(
    b: BuilderView,
    source: AbiParamSource,
    has_mcopy: bool,
    dst: ValueId,
    src: ValueId,
    len: ValueId,
) -> BuilderView {
    if source is ConstructorMemory {
        memory_copied(b, has_mcopy, dst, src, len)
    } else {
        emitted(b, inst(Op::CalldataCopy, seq![dst, src, len]), None)
    }
}

/// Copies a payload to memory.
pub fn copy_payload<'a>(
    builder: &mut FunctionBuilder<'a>,
    source: AbiParamSource,
    has_mcopy: bool,
    dst: ValueId,
    src: ValueId,
    len: ValueId,
)
    requires
        old(builder).wf(),
        has_value(old(builder)@.func, dst),
        has_value(old(builder)@.func, src),
        has_value(old(builder)@.func, len),
    ensures
        final(builder).wf(),
        final(builder)@ == payload_copied(old(builder)@, source, has_mcopy, dst, src, len),
        extends(old(builder)@, final(builder)@),
        *final(final(builder).func) == *final(old(builder).func),
{
    broadcast use group_builder_steps;

    match source {
        AbiParamSource::ConstructorMemory => mcopy(builder, has_mcopy, dst, src, len),
        AbiParamSource::ExternalCalldata => builder.calldatacopy(dst, src, len),
    }
}

/// An array for a payload.
#[verifier::opaque]
pub open spec fn array_placed(b: BuilderView, len_pos: ValueId, len: ValueId) -> (
    BuilderView,
    (ValueId, ValueId, ValueId, ValueId),
) {
    let one_word = next_value(b.func);
    let b = constant(b, word(32));
    let data_bytes = next_value(b.func);
    let b = emitted(b, inst(Op::Mul, seq![len, one_word]), Some(MirType::uint256()));
    let total_bytes = next_value(b.func);
    let b = emitted(b, inst(Op::Add, seq![data_bytes, one_word]), Some(MirType::uint256()));
    let ptr = next_value(b.func);
    let b = emitted(
        b,
        inst(
            Op::Alloc {
                kind: AllocationKind::Object(MemoryObjectLayout::DynamicArray { element_words: 1 }),
                semantics: AllocationSemantics::internal(),
            },
            seq![total_bytes],
        ),
        Some(MirType::MemoryObject(MemoryObjectLayout::DynamicArray { element_words: 1 }.kind())),
    );
    let b = emitted(
        b,
        inst(Op::SetMemoryObjectLen { kind: MemoryObjectKind::DynamicArray }, seq![ptr, len]),
        None,
    );
    let dst = next_value(b.func);
    let b = emitted(
        b,
        inst(Op::MemoryObjectData { kind: MemoryObjectKind::DynamicArray }, seq![ptr]),
        Some(MirType::MemPtr),
    );
    let src = next_value(b.func);
    let b = emitted(b, inst(Op::Add, seq![len_pos, one_word]), Some(MirType::uint256()));
    (b, (ptr, dst, src, data_bytes))
}

/// Allocates an array for a payload. Returns it, where its elements go, where
/// they come from and how many bytes they take.
fn place_array<'a>(
    builder: &mut FunctionBuilder<'a>,
    len_pos: ValueId,
    len: ValueId,
) -> (r: (ValueId, ValueId, ValueId, ValueId))
    requires
        old(builder).wf(),
        has_value(old(builder)@.func, len_pos),
        has_value(old(builder)@.func, len),
    ensures
        final(builder).wf(),
        (final(builder)@, r) == array_placed(old(builder)@, len_pos, len),
        has_value(final(builder)@.func, r.0),
        has_value(final(builder)@.func, r.1),
        has_value(final(builder)@.func, r.2),
        has_value(final(builder)@.func, r.3),
        extends(old(builder)@, final(builder)@),
        *final(final(builder).func) == *final(old(builder).func),
{
    broadcast use group_builder_steps, lemma_new_param;

    proof {
        reveal(array_placed);
    }
    let one_word = builder.imm_u64(32);
    let data_bytes = builder.mul(len, one_word);
    let total_bytes = builder.add(data_bytes, one_word);
    let ptr = builder.alloc_object(
        total_bytes,
        MemoryObjectLayout::DynamicArray { element_words: 1 },
        AllocationSemantics::internal(),
    );
    builder.set_memory_object_len(ptr, len, MemoryObjectKind::DynamicArray);
    let dst = builder.memory_object_data(ptr, MemoryObjectKind::DynamicArray);
    let src = builder.add(len_pos, one_word);
    (ptr, dst, src, data_bytes)
}

/// A parameter that is an array of words in memory.
#[verifier::opaque]
pub open spec fn array_param(
    b: BuilderView,
    source: AbiParamSource,
    has_mcopy: bool,
    ty: MirType,
) -> (BuilderView, ValueId) {
    let (b, (len_pos, len)) = payload_found(b, source, ty);
    let (b, (ptr, dst, src, data_bytes)) = array_placed(b, len_pos, len);
    (payload_copied(b, source, has_mcopy, dst, src, data_bytes), ptr)
}

/// Declares a parameter that is an array of words in memory and copies it.
pub fn lower_array_param<'a>(
    builder: &mut FunctionBuilder<'a>,
    source: AbiParamSource,
    has_mcopy: bool,
    ty: MirType,
) -> (r: ValueId)
    requires
        old(builder).wf(),
    ensures
        final(builder).wf(),
        (final(builder)@, r) == array_param(old(builder)@, source, has_mcopy, ty),
        has_value(final(builder)@.func, r),
        extends(old(builder)@, final(builder)@),
        *final(final(builder).func) == *final(old(builder).func),
{
    proof {
        reveal(array_param);
    }
    let (len_pos, len) = find_payload(builder, source, ty);
    let (ptr, dst, src, data_bytes) = place_array(builder, len_pos, len);
    copy_payload(builder, source, has_mcopy, dst, src, data_bytes);
    ptr
}

/// The size of an object for `len` bytes.
#[verifier::opaque]
pub open spec fn bytes_param_sized(b: BuilderView, len: ValueId) -> (
    BuilderView,
    (ValueId, ValueId),
) {
    let thirty_one = next_value(b.func);
    let b = constant(b, word(31));
    let rounded = next_value(b.func);
    let b = emitted(b, inst(Op::Add, seq![len, thirty_one]), Some(MirType::uint256()));
    let mask = next_value(b.func);
    let b = emitted(b, inst(Op::Not, seq![thirty_one]), Some(MirType::uint256()));
    let padded = next_value(b.func);
    let b = emitted(b, inst(Op::And, seq![rounded, mask]), Some(MirType::uint256()));
    let one_word = next_value(b.func);
    let b = constant(b, word(32));
    let total = next_value(b.func);
    let b = emitted(b, inst(Op::Add, seq![padded, one_word]), Some(MirType::uint256()));
    (b, (one_word, total))
}

/// Returns a word size and the bytes that an object for `len` bytes takes.
fn bytes_param_size<'a>(builder: &mut FunctionBuilder<'a>, len: ValueId) -> (r: (ValueId, ValueId))
    requires
        old(builder).wf(),
        has_value(old(builder)@.func, len),
    ensures
        final(builder).wf(),
        (final(builder)@, r) == bytes_param_sized(old(builder)@, len),
        has_value(final(builder)@.func, r.0),
        has_value(final(builder)@.func, r.1),
        extends(old(builder)@, final(builder)@),
        *final(final(builder).func) == *final(old(builder).func),
{
    broadcast use group_builder_steps, lemma_new_param;

    proof {
        reveal(bytes_param_sized);
    }
    let thirty_one = builder.imm_u64(31);
    let rounded = builder.add(len, thirty_one);
    let mask = builder.not(thirty_one);
    let padded = builder.and(rounded, mask);
    let one_word = builder.imm_u64(32);
    let total = builder.add(padded, one_word);
    (one_word, total)
}

/// A parameter that is bytes in memory: where its payload is, its length, the
/// size of a word and the size of the object for it.
#[verifier::opaque]
pub open spec fn bytes_param_begun(b: BuilderView, source: AbiParamSource, ty: MirType) -> (
    BuilderView,
    (ValueId, ValueId, ValueId, ValueId),
) {
    let (b, (len_pos, len)) = payload_found(b, source, ty);
    let (b, (one_word, total)) = bytes_param_sized(b, len);
    (b, (len_pos, len, one_word, total))
}

/// Declares a parameter that is bytes in memory. Returns where its payload is,
/// its length, the size of a word and the size of the object for it.
pub fn begin_bytes_param<'a>(
    builder: &mut FunctionBuilder<'a>,
    source: AbiParamSource,
    ty: MirType,
) -> (r: (ValueId, ValueId, ValueId, ValueId))
    requires
        old(builder).wf(),
    ensures
        final(builder).wf(),
        (final(builder)@, r) == bytes_param_begun(old(builder)@, source, ty),
        has_value(final(builder)@.func, r.0),
        has_value(final(builder)@.func, r.1),
        has_value(final(builder)@.func, r.2),
        has_value(final(builder)@.func, r.3),
        extends(old(builder)@, final(builder)@),
        *final(final(builder).func) == *final(old(builder).func),
{
    proof {
        reveal(bytes_param_begun);
    }
    let (len_pos, len) = find_payload(builder, source, ty);
    let (one_word, total) = bytes_param_size(builder, len);
    (len_pos, len, one_word, total)
}

/// The builder after copying the payload of a parameter that is bytes.
#[verifier::opaque]
pub open spec fn bytes_param_ended(
    b: BuilderView,
    source: AbiParamSource,
    has_mcopy: bool,
    len_pos: ValueId,
    len: ValueId,
    one_word: ValueId,
    ptr: ValueId,
) -> BuilderView {
    let b = emitted(
        b,
        inst(Op::SetMemoryObjectLen { kind: MemoryObjectKind::Bytes }, seq![ptr, len]),
        None,
    );
    let data_ptr = next_value(b.func);
    let b = emitted(
        b,
        inst(Op::MemoryObjectData { kind: MemoryObjectKind::Bytes }, seq![ptr]),
        Some(MirType::MemPtr),
    );
    let src = next_value(b.func);
    let b = emitted(b, inst(Op::Add, seq![len_pos, one_word]), Some(MirType::uint256()));
    let b = payload_copied(b, source, has_mcopy, data_ptr, src, len);
    b
}

/// Copies the payload of a parameter that is bytes to the object allocated for it.
pub fn finish_bytes_param<'a>(
    builder: &mut FunctionBuilder<'a>,
    source: AbiParamSource,
    has_mcopy: bool,
    len_pos: ValueId,
    len: ValueId,
    one_word: ValueId,
    ptr: ValueId,
)
    requires
        old(builder).wf(),
        has_value(old(builder)@.func, len_pos),
        has_value(old(builder)@.func, len),
        has_value(old(builder)@.func, one_word),
        has_value(old(builder)@.func, ptr),
    ensures
        final(builder).wf(),
        final(builder)@ == bytes_param_ended(
            old(builder)@,
            source,
            has_mcopy,
            len_pos,
            len,
            one_word,
            ptr,
        ),
        extends(old(builder)@, final(builder)@),
        *final(final(builder).func) == *final(old(builder).func),
{
    broadcast use group_builder_steps, lemma_new_param;

    proof {
        reveal(bytes_param_ended);
    }
    builder.set_memory_object_len(ptr, len, MemoryObjectKind::Bytes);
    let data_ptr = builder.memory_object_data(ptr, MemoryObjectKind::Bytes);
    let src = builder.add(len_pos, one_word);
    copy_payload(builder, source, has_mcopy, data_ptr, src, len);
}

/// The first `count` elements of an array whose words stand in the head.
#[verifier::opaque]
pub open spec fn elements_declared(
    b: BuilderView,
    source: AbiParamSource,
    validator: Option<AbiWordValidator>,
    array: ValueId,
    len: u64,
    count: nat,
) -> BuilderView
    decreases count,
{
    if count == 0 {
        b
    } else {
        let b = elements_declared(b, source, validator, array, len, (count - 1) as nat);
        let (b, value) = word_param(b, source, MirType::uint256(), validator);
        element_stored(
            b,
            array,
            MemoryObjectLayout::FixedArray { len, element_words: 1 },
            (count - 1) as u64,
            value,
        )
    }
}

/// Validating a parameter declares none.
pub proof fn lemma_validation_keeps_params(
    b: BuilderView,
    source: AbiParamSource,
    arg_index: u64,
    validator: Option<AbiWordValidator>,
)
    ensures
        param_validated(b, source, arg_index, validator).func.params == b.func.params,
        param_validated(b, source, arg_index, validator).func.return_types
            == b.func.return_types,
{
    broadcast use group_builder_steps;

    reveal(head_loaded);
    reveal(calldata_word);
    reveal(memory_word);
    reveal(word_checked);
    reveal(mask_compared);
    reveal(extension_compared);
    reveal(truth_compared);
    reveal(range_compared);
    reveal(revert_unless);
}

/// A parameter that is a fixed-size array of words.
pub open spec fn fixed_array_param(
    b: BuilderView,
    source: AbiParamSource,
    validator: Option<AbiWordValidator>,
    len: u64,
) -> (BuilderView, ValueId) {
    let (b, array) = allocated(b, (len * 32) as u64, MemoryObjectKind::FixedArray);
    (elements_declared(b, source, validator, array, len, len as nat), array)
}

/// Declares the words of a parameter that is a fixed-size array and copies them
/// to memory.
pub fn lower_fixed_array_param<'a>(
    builder: &mut FunctionBuilder<'a>,
    source: AbiParamSource,
    validator: Option<AbiWordValidator>,
    len: u64,
) -> (r: ValueId)
    requires
        old(builder).wf(),
        EvmMemoryLayout::HEAP_START + (old(builder)@.func.params.len() + len)
            * EvmMemoryLayout::WORD_SIZE <= u64::MAX,
    ensures
        final(builder).wf(),
        (final(builder)@, r) == fixed_array_param(old(builder)@, source, validator, len),
        has_value(final(builder)@.func, r),
        extends(old(builder)@, final(builder)@),
        *final(final(builder).func) == *final(old(builder).func),
{
    proof {
        reveal(elements_declared);
    }
    let array = allocate_memory_object(builder, len * 32, MemoryObjectKind::FixedArray);
    let ghost begin = builder@;
    proof {
        broadcast use group_builder_steps;

        reveal(object_allocated);
    }
    let mut i: u64 = 0;
    while i < len
        invariant
            i <= len,
            builder.wf(),
            has_value(begin.func, array),
            extends(old(builder)@, begin),
            extends(begin, builder@),
            begin.func.params == old(builder)@.func.params,
            builder@.func.params.len() == begin.func.params.len() + i,
            EvmMemoryLayout::HEAP_START + (old(builder)@.func.params.len() + len)
                * EvmMemoryLayout::WORD_SIZE <= u64::MAX,
            builder@ == elements_declared(begin, source, validator, array, len, i as nat),
            *final(builder.func) == *final(old(builder).func),
        decreases len - i,
    {
        proof {
            broadcast use group_builder_steps, lemma_new_param;

            reveal(elements_declared);
            reveal(element_stored);
            lemma_validation_keeps_params(
                with_new_param(builder@, MirType::uint256()),
                source,
                builder@.func.params.len() as u64,
                validator,
            );
        }
        let value = declare_word_param(builder, source, MirType::uint256(), validator);
        store_element(
            builder,
            array,
            MemoryObjectLayout::FixedArray { len, element_words: 1 },
            i,
            value,
        );
        i = i + 1;
    }
    array
}

} // verus!
