//! Sequences that allocate and fill memory.

use crate::lower::emit::{extends, mcopy, memory_copied};
use crate::memory::EvmMemoryLayout;
use crate::mir::builder::{
    blocked, constant, emitted, ended, group_builder_steps, moved, word, BuilderView,
    FunctionBuilder,
};
use crate::mir::function::{has_value, has_values, next_block, next_value};
use crate::mir::inst::{inst, Op, TermView};
use crate::mir::types::{
    AllocationKind, AllocationSemantics, FunctionId, MemoryObjectKind, MemoryObjectLayout, MirType,
    ValueId,
};
use crate::word::{be_value, lemma_word_of, word_modulus, word_of, U256};
use vstd::arithmetic::power2::pow2;
use vstd::prelude::*;

verus! {

/// A pointer to fresh memory of a given size.
#[verifier::opaque]
pub open spec fn raw_allocated(b: BuilderView, size: u64) -> (BuilderView, ValueId) {
    let size_val = next_value(b.func);
    let b = constant(b, word(size));
    let ptr = next_value(b.func);
    let b = emitted(
        b,
        inst(
            Op::Alloc { kind: AllocationKind::Raw, semantics: AllocationSemantics::internal() },
            seq![size_val],
        ),
        Some(MirType::MemPtr),
    );
    (b, ptr)
}

/// Allocates memory for a given size and returns the pointer.
pub fn allocate_memory<'a>(builder: &mut FunctionBuilder<'a>, size: u64) -> (r: ValueId)
    requires
        old(builder).wf(),
    ensures
        final(builder).wf(),
        (final(builder)@, r) == raw_allocated(old(builder)@, size),
        has_value(final(builder)@.func, r),
        extends(old(builder)@, final(builder)@),
        *final(final(builder).func) == *final(old(builder).func),
{
    broadcast use group_builder_steps;

    proof {
        reveal(raw_allocated);
    }
    let size_val = builder.imm_u64(size);
    let ptr = builder.alloc_raw(size_val, AllocationSemantics::internal());
    ptr
}

/// The layout of an object of one-word parts with a given size in bytes.
pub open spec fn sized_layout(kind: MemoryObjectKind, size: u64) -> MemoryObjectLayout {
    match kind {
        MemoryObjectKind::Bytes => MemoryObjectLayout::Bytes,
        MemoryObjectKind::DynamicArray => MemoryObjectLayout::DynamicArray { element_words: 1 },
        MemoryObjectKind::FixedArray => MemoryObjectLayout::FixedArray {
            len: size / 32,
            element_words: 1,
        },
        MemoryObjectKind::Struct => MemoryObjectLayout::Struct { fields: size / 32 },
    }
}

/// A pointer to a fresh object with a constant byte size.
#[verifier::opaque]
pub open spec fn object_allocated(
    b: BuilderView,
    size: u64,
    layout: MemoryObjectLayout,
    semantics: AllocationSemantics,
) -> (BuilderView, ValueId) {
    let size_val = next_value(b.func);
    let b = constant(b, word(size));
    let ptr = next_value(b.func);
    let b = emitted(
        b,
        inst(
            Op::Alloc { kind: AllocationKind::Object(layout), semantics: semantics },
            seq![size_val],
        ),
        Some(MirType::MemoryObject(layout.kind())),
    );
    (b, ptr)
}

/// Allocates an object with a constant byte size.
fn allocate_with_layout<'a>(
    builder: &mut FunctionBuilder<'a>,
    size: u64,
    layout: MemoryObjectLayout,
    semantics: AllocationSemantics,
) -> (r: ValueId)
    requires
        old(builder).wf(),
    ensures
        final(builder).wf(),
        (final(builder)@, r) == object_allocated(old(builder)@, size, layout, semantics),
        has_value(final(builder)@.func, r),
        extends(old(builder)@, final(builder)@),
        *final(final(builder).func) == *final(old(builder).func),
{
    broadcast use group_builder_steps;

    proof {
        reveal(object_allocated);
    }
    let size_val = builder.imm_u64(size);
    let ptr = builder.alloc_object(size_val, layout, semantics);
    ptr
}

/// Allocates a shaped memory object with a constant byte size.
fn allocate_memory_object_with_semantics<'a>(
    builder: &mut FunctionBuilder<'a>,
    size: u64,
    kind: MemoryObjectKind,
    semantics: AllocationSemantics,
) -> (r: ValueId)
    requires
        old(builder).wf(),
    ensures
        final(builder).wf(),
        (final(builder)@, r) == object_allocated(
            old(builder)@,
            size,
            sized_layout(kind, size),
            semantics,
        ),
        has_value(final(builder)@.func, r),
        extends(old(builder)@, final(builder)@),
        *final(final(builder).func) == *final(old(builder).func),
{
    let layout = match kind {
        MemoryObjectKind::Bytes => MemoryObjectLayout::Bytes,
        MemoryObjectKind::DynamicArray => MemoryObjectLayout::DynamicArray { element_words: 1 },
        MemoryObjectKind::FixedArray => MemoryObjectLayout::FixedArray {
            len: size / 32,
            element_words: 1,
        },
        MemoryObjectKind::Struct => MemoryObjectLayout::Struct { fields: size / 32 },
    };
    allocate_with_layout(builder, size, layout, semantics)
}

/// A pointer to a fresh object.
pub open spec fn allocated(b: BuilderView, size: u64, kind: MemoryObjectKind) -> (
    BuilderView,
    ValueId,
) {
    object_allocated(b, size, sized_layout(kind, size), AllocationSemantics::internal())
}

/// Allocates a shaped memory object with a constant byte size.
pub fn allocate_memory_object<'a>(
    builder: &mut FunctionBuilder<'a>,
    size: u64,
    kind: MemoryObjectKind,
) -> (r: ValueId)
    requires
        old(builder).wf(),
    ensures
        final(builder).wf(),
        (final(builder)@, r) == allocated(old(builder)@, size, kind),
        has_value(final(builder)@.func, r),
        extends(old(builder)@, final(builder)@),
        *final(final(builder).func) == *final(old(builder).func),
{
    allocate_memory_object_with_semantics(builder, size, kind, AllocationSemantics::internal())
}

/// A pointer to a fresh zeroed object.
pub open spec fn zero_allocated(b: BuilderView, size: u64, kind: MemoryObjectKind) -> (
    BuilderView,
    ValueId,
) {
    object_allocated(b, size, sized_layout(kind, size), AllocationSemantics::internal_zeroed())
}

/// Allocates a zero-initialized shaped memory object with a constant byte size.
pub fn allocate_zeroed_memory_object<'a>(
    builder: &mut FunctionBuilder<'a>,
    size: u64,
    kind: MemoryObjectKind,
) -> (r: ValueId)
    requires
        old(builder).wf(),
    ensures
        final(builder).wf(),
        (final(builder)@, r) == zero_allocated(old(builder)@, size, kind),
        has_value(final(builder)@.func, r),
        extends(old(builder)@, final(builder)@),
        *final(final(builder).func) == *final(old(builder).func),
{
    allocate_memory_object_with_semantics(
        builder,
        size,
        kind,
        AllocationSemantics::internal_zeroed(),
    )
}

/// The builder after storing a word at an offset from a base.
#[verifier::opaque]
pub open spec fn stored_at(
    b: BuilderView,
    base: ValueId,
    offset: u64,
    value: ValueId,
) -> BuilderView {
    let offset_val = next_value(b.func);
    let b = constant(b, word(offset));
    let addr = next_value(b.func);
    let b = emitted(b, inst(Op::Add, seq![base, offset_val]), Some(MirType::uint256()));
    let b = emitted(b, inst(Op::MStore, seq![addr, value]), None);
    b
}

/// Stores a word at an offset from a base.
pub fn store_at<'a>(builder: &mut FunctionBuilder<'a>, base: ValueId, offset: u64, value: ValueId)
    requires
        old(builder).wf(),
        has_value(old(builder)@.func, base),
        has_value(old(builder)@.func, value),
    ensures
        final(builder).wf(),
        final(builder)@ == stored_at(old(builder)@, base, offset, value),
        extends(old(builder)@, final(builder)@),
        *final(final(builder).func) == *final(old(builder).func),
{
    broadcast use group_builder_steps;

    proof {
        reveal(stored_at);
    }
    let offset_val = builder.imm_u64(offset);
    let addr = builder.add(base, offset_val);
    builder.mstore(addr, value);
}

/// The builder after publishing the base of the multi-return buffer.
#[verifier::opaque]
pub open spec fn buffer_published(b: BuilderView, base: ValueId) -> BuilderView {
    let ptr_slot = next_value(b.func);
    let b = constant(b, word(EvmMemoryLayout::MULTI_RETURN_BUFFER_PTR_SLOT));
    let b = emitted(b, inst(Op::MStore, seq![ptr_slot, base]), None);
    b
}

/// Publishes the base of the multi-return buffer in its scratch word.
fn publish_multi_return_buffer<'a>(builder: &mut FunctionBuilder<'a>, base: ValueId)
    requires
        old(builder).wf(),
        has_value(old(builder)@.func, base),
    ensures
        final(builder).wf(),
        final(builder)@ == buffer_published(old(builder)@, base),
        extends(old(builder)@, final(builder)@),
        *final(final(builder).func) == *final(old(builder).func),
{
    broadcast use group_builder_steps;

    proof {
        reveal(buffer_published);
    }
    let ptr_slot = builder.imm_u64(EvmMemoryLayout::MULTI_RETURN_BUFFER_PTR_SLOT);
    builder.mstore(ptr_slot, base);
}

/// The builder after storing the values with indices from `start` below `end`
/// at their places.
#[verifier::opaque]
pub open spec fn values_stored(
    b: BuilderView,
    base: ValueId,
    values: Seq<ValueId>,
    start: nat,
    end: nat,
) -> BuilderView
    decreases end,
{
    if end <= start || end > values.len() {
        b
    } else {
        stored_at(
            values_stored(b, base, values, start, (end - 1) as nat),
            base,
            ((end - 1) * 32) as u64,
            values[end - 1],
        )
    }
}

/// The builder after staging the values with indices from `start` at the
/// unbumped free-memory pointer and publishing the base.
#[verifier::opaque]
pub open spec fn staged(b: BuilderView, values: Seq<ValueId>, start: nat) -> BuilderView {
    let base = next_value(b.func);
    let b = emitted(b, inst(Op::Fmp, seq![]), Some(MirType::MemPtr));
    buffer_published(values_stored(b, base, values, start, values.len()), base)
}

/// Stages values at the unbumped free-memory pointer and publishes the base.
fn stage_multi_return_values_from<'a>(
    builder: &mut FunctionBuilder<'a>,
    values: &Vec<ValueId>,
    start: usize,
)
    requires
        old(builder).wf(),
        has_values(old(builder)@.func, values@),
        values@.len() * 32 <= u64::MAX,
        start <= values@.len(),
    ensures
        final(builder).wf(),
        final(builder)@ == staged(old(builder)@, values@, start as nat),
        extends(old(builder)@, final(builder)@),
        *final(final(builder).func) == *final(old(builder).func),
{
    broadcast use group_builder_steps;

    proof {
        reveal(staged);
        reveal(values_stored);
    }
    let base = builder.fmp();
    let ghost begin = builder@;
    let mut i: usize = start;
    while i < values.len()
        invariant
            start <= i <= values@.len(),
            values@.len() * 32 <= u64::MAX,
            builder.wf(),
            extends(old(builder)@, begin),
            extends(begin, builder@),
            has_value(begin.func, base),
            has_values(old(builder)@.func, values@),
            builder@ == values_stored(begin, base, values@, start as nat, i as nat),
            *final(builder.func) == *final(old(builder).func),
        decreases values@.len() - i,
    {
        proof {
            reveal(values_stored);
            assert(has_value(old(builder)@.func, values@[i as int]));
        }
        store_at(builder, base, i as u64 * 32, values[i]);
        i = i + 1;
    }
    publish_multi_return_buffer(builder, base);
}

/// The builder after staging all results but the first.
pub open spec fn tail_staged(b: BuilderView, values: Seq<ValueId>) -> BuilderView {
    if values.len() <= 1 {
        b
    } else {
        staged(b, values, 1)
    }
}

/// Stages all results but the first and publishes the buffer base through its
/// scratch word.
pub fn stage_multi_return_tail<'a>(builder: &mut FunctionBuilder<'a>, values: &Vec<ValueId>)
    requires
        old(builder).wf(),
        has_values(old(builder)@.func, values@),
        values@.len() * 32 <= u64::MAX,
    ensures
        final(builder).wf(),
        final(builder)@ == tail_staged(old(builder)@, values@),
        extends(old(builder)@, final(builder)@),
        *final(final(builder).func) == *final(old(builder).func),
{
    if values.len() <= 1 {
        return;
    }
    stage_multi_return_values_from(builder, values, 1);
}

/// Stages every value for a control-flow expression whose first result must
/// also cross a block boundary through the return buffer.
pub fn stage_multi_return_values<'a>(builder: &mut FunctionBuilder<'a>, values: &Vec<ValueId>)
    requires
        old(builder).wf(),
        has_values(old(builder)@.func, values@),
        values@.len() * 32 <= u64::MAX,
    ensures
        final(builder).wf(),
        final(builder)@ == staged(old(builder)@, values@, 0),
        extends(old(builder)@, final(builder)@),
        *final(final(builder).func) == *final(old(builder).func),
{
    stage_multi_return_values_from(builder, values, 0);
}

/// The base published by the latest multi-return producer.
#[verifier::opaque]
pub open spec fn buffer_base(b: BuilderView) -> (BuilderView, ValueId) {
    let ptr_slot = next_value(b.func);
    let b = constant(b, word(EvmMemoryLayout::MULTI_RETURN_BUFFER_PTR_SLOT));
    let base = next_value(b.func);
    let b = emitted(b, inst(Op::MLoad, seq![ptr_slot]), Some(MirType::uint256()));
    (b, base)
}

/// Loads the base published by the latest multi-return producer.
pub fn multi_return_buffer_base<'a>(builder: &mut FunctionBuilder<'a>) -> (r: ValueId)
    requires
        old(builder).wf(),
    ensures
        final(builder).wf(),
        (final(builder)@, r) == buffer_base(old(builder)@),
        has_value(final(builder)@.func, r),
        extends(old(builder)@, final(builder)@),
        *final(final(builder).func) == *final(old(builder).func),
{
    broadcast use group_builder_steps;

    proof {
        reveal(buffer_base);
    }
    let ptr_slot = builder.imm_u64(EvmMemoryLayout::MULTI_RETURN_BUFFER_PTR_SLOT);
    let base = builder.mload(ptr_slot);
    base
}

/// The word at an offset from a base.
#[verifier::opaque]
pub open spec fn loaded_at(b: BuilderView, base: ValueId, offset: u64) -> (BuilderView, ValueId) {
    let offset_val = next_value(b.func);
    let b = constant(b, word(offset));
    let addr = next_value(b.func);
    let b = emitted(b, inst(Op::Add, seq![base, offset_val]), Some(MirType::uint256()));
    let value = next_value(b.func);
    let b = emitted(b, inst(Op::MLoad, seq![addr]), Some(MirType::uint256()));
    (b, value)
}

/// Loads a word at an offset from a base.
pub fn load_offset<'a>(
    builder: &mut FunctionBuilder<'a>,
    base: ValueId,
    offset: u64,
) -> (r: ValueId)
    requires
        old(builder).wf(),
        has_value(old(builder)@.func, base),
    ensures
        final(builder).wf(),
        (final(builder)@, r) == loaded_at(old(builder)@, base, offset),
        has_value(final(builder)@.func, r),
        extends(old(builder)@, final(builder)@),
        *final(final(builder).func) == *final(old(builder).func),
{
    broadcast use group_builder_steps;

    proof {
        reveal(loaded_at);
    }
    let offset_val = builder.imm_u64(offset);
    let addr = builder.add(base, offset_val);
    let value = builder.mload(addr);
    value
}

/// Loads return value `index` from an already-snapshotted buffer base.
pub fn load_multi_return_value<'a>(
    builder: &mut FunctionBuilder<'a>,
    base: ValueId,
    index: usize,
) -> (r: ValueId)
    requires
        old(builder).wf(),
        has_value(old(builder)@.func, base),
        index * 32 <= u64::MAX,
    ensures
        final(builder).wf(),
        (final(builder)@, r) == loaded_at(old(builder)@, base, (index * 32) as u64),
        has_value(final(builder)@.func, r),
        extends(old(builder)@, final(builder)@),
        *final(final(builder).func) == *final(old(builder).func),
{
    load_offset(builder, base, index as u64 * 32)
}

/// The results with indices from `from` below `end`, loaded from a buffer.
#[verifier::opaque]
pub open spec fn results_loaded(b: BuilderView, base: ValueId, from: nat, end: nat) -> (
    BuilderView,
    Seq<ValueId>,
)
    decreases end,
{
    if end <= from {
        (b, Seq::empty())
    } else {
        let (b, front) = results_loaded(b, base, from, (end - 1) as nat);
        let (b, value) = loaded_at(b, base, ((end - 1) * 32) as u64);
        (b, front.push(value))
    }
}

/// All results of a call with several: the first is at hand, the others are in
/// the buffer.
#[verifier::opaque]
pub open spec fn results_gathered(b: BuilderView, first: ValueId, count: nat) -> (
    BuilderView,
    Seq<ValueId>,
) {
    let (b, base) = buffer_base(b);
    let (b, tail) = results_loaded(b, base, 1, count);
    (b, seq![first] + tail)
}

/// Gathers all results of a call with several: the first is at hand, the others
/// are in the multi-return buffer.
pub fn gather_multi_return_values<'a>(
    builder: &mut FunctionBuilder<'a>,
    first: ValueId,
    count: usize,
) -> (r: Vec<ValueId>)
    requires
        old(builder).wf(),
        has_value(old(builder)@.func, first),
        count * 32 <= u64::MAX,
    ensures
        final(builder).wf(),
        (final(builder)@, r@) == results_gathered(old(builder)@, first, count as nat),
        has_values(final(builder)@.func, r@),
        extends(old(builder)@, final(builder)@),
        *final(final(builder).func) == *final(old(builder).func),
{
    proof {
        reveal(results_gathered);
        reveal(results_loaded);
    }
    let base = multi_return_buffer_base(builder);
    let ghost begin = builder@;
    let mut values: Vec<ValueId> = Vec::new();
    values.push(first);
    let mut i: usize = 1;
    let ghost mut tail: Seq<ValueId> = Seq::empty();
    assert(values@ =~= seq![first] + tail);
    while i < count
        invariant
            1 <= i,
            i <= count || i == 1,
            count * 32 <= u64::MAX,
            builder.wf(),
            has_value(begin.func, base),
            extends(old(builder)@, begin),
            extends(begin, builder@),
            (builder@, tail) == results_loaded(begin, base, 1, i as nat),
            values@ == seq![first] + tail,
            has_values(builder@.func, values@),
            *final(builder.func) == *final(old(builder).func),
        decreases count - i,
    {
        proof {
            reveal(results_loaded);
        }
        let value = load_multi_return_value(builder, base, i);
        values.push(value);
        proof {
            tail = tail.push(value);
        }
        assert(values@ =~= seq![first] + tail);
        i = i + 1;
    }
    proof {
        if count < 1 {
            assert(
                results_loaded(begin, base, 1, count as nat) == results_loaded(begin, base, 1, 1)
            );
        }
    }
    values
}

/// A byte string with zeroes up to a whole word.
pub open spec fn padded(bytes: Seq<u8>) -> Seq<u8> {
    Seq::new(
        32,
        |i: int|
            if i < bytes.len() {
                bytes[i]
            } else {
                0
            },
    )
}

/// The word that holds a byte string in its highest bytes.
pub open spec fn left_word(bytes: Seq<u8>) -> U256 {
    word_of(be_value(padded(bytes)))
}

/// Returns the word that holds the bytes from `start` below `end` in its
/// highest bytes.
pub fn pad_to_word(bytes: &Vec<u8>, start: usize, end: usize) -> (r: U256)
    requires
        start <= end <= bytes@.len(),
        end - start <= 32,
    ensures
        r == left_word(bytes@.subrange(start as int, end as int)),
{
    let ghost chunk = bytes@.subrange(start as int, end as int);
    let mut out: Vec<u8> = Vec::new();
    let mut i: usize = start;
    while out.len() < 32
        invariant
            start <= i <= end <= bytes@.len(),
            end - start <= 32,
            chunk == bytes@.subrange(start as int, end as int),
            out@.len() <= 32,
            i == if start + out@.len() < end {
                start + out@.len()
            } else {
                end as int
            },
            forall|k: int| 0 <= k < out@.len() ==> #[trigger] out@[k] == padded(chunk)[k],
        decreases 32 - out@.len(),
    {
        if i < end {
            out.push(bytes[i]);
            i = i + 1;
        } else {
            out.push(0);
        }
    }
    assert(out@ =~= padded(chunk));
    let r = U256::from_be_slice(out.as_slice());
    proof {
        lemma_word_of(r);
    }
    r
}

/// The end of a chunk of a byte string.
pub open spec fn chunk_end(bytes: Seq<u8>, chunk: nat) -> int {
    if (chunk + 1) * 32 <= bytes.len() {
        ((chunk + 1) * 32) as int
    } else {
        bytes.len() as int
    }
}

/// The word that holds a chunk of a byte string.
pub open spec fn chunk_word(bytes: Seq<u8>, chunk: nat) -> U256 {
    left_word(bytes.subrange((chunk * 32) as int, chunk_end(bytes, chunk)))
}

/// How many chunks a byte string has.
pub open spec fn chunk_count(bytes: Seq<u8>) -> nat {
    ((bytes.len() + 31) / 32) as nat
}

/// The builder after storing a constant at an offset from a base.
#[verifier::opaque]
pub open spec fn constant_stored_at(
    b: BuilderView,
    base: ValueId,
    offset: u64,
    constant_word: U256,
) -> BuilderView {
    let value = next_value(b.func);
    let b = constant(b, constant_word);
    let offset_val = next_value(b.func);
    let b = constant(b, word(offset));
    let dest = next_value(b.func);
    let b = emitted(b, inst(Op::Add, seq![base, offset_val]), Some(MirType::uint256()));
    let b = emitted(b, inst(Op::MStore, seq![dest, value]), None);
    b
}

/// Stores a constant at an offset from a base.
fn store_constant_at<'a>(
    builder: &mut FunctionBuilder<'a>,
    base: ValueId,
    offset: u64,
    constant_word: U256,
)
    requires
        old(builder).wf(),
        has_value(old(builder)@.func, base),
    ensures
        final(builder).wf(),
        final(builder)@ == constant_stored_at(old(builder)@, base, offset, constant_word),
        extends(old(builder)@, final(builder)@),
        *final(final(builder).func) == *final(old(builder).func),
{
    broadcast use group_builder_steps;

    proof {
        reveal(constant_stored_at);
    }
    let value = builder.imm_u256(constant_word);
    let offset_val = builder.imm_u64(offset);
    let dest = builder.add(base, offset_val);
    builder.mstore(dest, value);
}

/// The builder after storing the first `count` chunks of a byte string.
#[verifier::opaque]
pub open spec fn chunks_stored(
    b: BuilderView,
    base: ValueId,
    bytes: Seq<u8>,
    count: nat,
) -> BuilderView
    decreases count,
{
    if count == 0 {
        b
    } else {
        constant_stored_at(
            chunks_stored(b, base, bytes, (count - 1) as nat),
            base,
            ((count - 1) * 32) as u64,
            chunk_word(bytes, (count - 1) as nat),
        )
    }
}

/// Stores a constant byte string, word by word; the last word is padded with
/// zeroes.
pub fn store_chunks<'a>(builder: &mut FunctionBuilder<'a>, base: ValueId, bytes: &Vec<u8>)
    requires
        old(builder).wf(),
        has_value(old(builder)@.func, base),
        bytes@.len() + 64 <= usize::MAX,
    ensures
        final(builder).wf(),
        final(builder)@ == chunks_stored(old(builder)@, base, bytes@, chunk_count(bytes@)),
        extends(old(builder)@, final(builder)@),
        *final(final(builder).func) == *final(old(builder).func),
{
    proof {
        reveal(chunks_stored);
    }
    let mut start: usize = 0;
    let ghost mut count: nat = 0;
    while start < bytes.len()
        invariant
            start == count * 32,
            count <= chunk_count(bytes@),
            bytes@.len() + 64 <= usize::MAX,
            builder.wf(),
            has_value(old(builder)@.func, base),
            extends(old(builder)@, builder@),
            builder@ == chunks_stored(old(builder)@, base, bytes@, count),
            *final(builder.func) == *final(old(builder).func),
        decreases bytes@.len() + 32 - start,
    {
        proof {
            reveal(chunks_stored);
        }
        let end: usize = if bytes.len() - start >= 32 {
            start + 32
        } else {
            bytes.len()
        };
        let value = pad_to_word(bytes, start, end);
        store_constant_at(builder, base, start as u64, value);
        start = start + 32;
        proof {
            count = count + 1;
        }
    }
    assert(count == chunk_count(bytes@));
}

/// A fresh bytes object of a known length, and where its data go.
#[verifier::opaque]
pub open spec fn bytes_begun(
    b: BuilderView,
    size: u64,
    len: u64,
) -> (BuilderView, (ValueId, ValueId)) {
    let (b, ptr) = allocated(b, size, MemoryObjectKind::Bytes);
    let len_val = next_value(b.func);
    let b = constant(b, word(len));
    let b = emitted(
        b,
        inst(Op::SetMemoryObjectLen { kind: MemoryObjectKind::Bytes }, seq![ptr, len_val]),
        None,
    );
    let data_start = next_value(b.func);
    let b = emitted(
        b,
        inst(Op::MemoryObjectData { kind: MemoryObjectKind::Bytes }, seq![ptr]),
        Some(MirType::MemPtr),
    );
    (b, (ptr, data_start))
}

/// Allocates a bytes object of a known length; returns it and where its data go.
fn begin_bytes<'a>(
    builder: &mut FunctionBuilder<'a>,
    size: u64,
    len: u64,
) -> (r: (ValueId, ValueId))
    requires
        old(builder).wf(),
    ensures
        final(builder).wf(),
        (final(builder)@, r) == bytes_begun(old(builder)@, size, len),
        has_value(final(builder)@.func, r.0),
        has_value(final(builder)@.func, r.1),
        extends(old(builder)@, final(builder)@),
        *final(final(builder).func) == *final(old(builder).func),
{
    broadcast use group_builder_steps;

    proof {
        reveal(bytes_begun);
    }
    let ptr = allocate_memory_object(builder, size, MemoryObjectKind::Bytes);
    let len_val = builder.imm_u64(len);
    builder.set_memory_object_len(ptr, len_val, MemoryObjectKind::Bytes);
    let data_start = builder.memory_object_data(ptr, MemoryObjectKind::Bytes);
    (ptr, data_start)
}

/// The bytes in memory that an object with so many bytes of data takes.
pub open spec fn bytes_object_size(len: nat) -> nat {
    (32 + (len + 31) / 32 * 32) as nat
}

/// A pointer to a fresh bytes object that holds a constant byte string.
#[verifier::opaque]
pub open spec fn constant_bytes(b: BuilderView, bytes: Seq<u8>) -> (BuilderView, ValueId) {
    let (b, (ptr, data)) = bytes_begun(
        b,
        bytes_object_size(bytes.len()) as u64,
        bytes.len() as u64,
    );
    (chunks_stored(b, data, bytes, chunk_count(bytes)), ptr)
}

/// Builds a bytes object that holds a constant byte string, such as the
/// creation code of a contract: `[length][data...]`.
pub fn lower_constant_bytes<'a>(builder: &mut FunctionBuilder<'a>, bytes: &Vec<u8>) -> (r: ValueId)
    requires
        old(builder).wf(),
        bytes@.len() + 64 <= usize::MAX,
    ensures
        final(builder).wf(),
        (final(builder)@, r) == constant_bytes(old(builder)@, bytes@),
        has_value(final(builder)@.func, r),
        extends(old(builder)@, final(builder)@),
        *final(final(builder).func) == *final(old(builder).func),
{
    broadcast use group_builder_steps;

    proof {
        reveal(constant_bytes);
    }
    let len: usize = bytes.len();
    let aligned: usize = (len + 31) / 32 * 32;
    let parts = begin_bytes(builder, (32 + aligned) as u64, len as u64);
    store_chunks(builder, parts.1, bytes);
    parts.0
}

/// The hash of a staged key and the slot.
#[verifier::opaque]
pub open spec fn literal_key_finished(
    b: BuilderView,
    scratch: ValueId,
    len: u64,
    slot: ValueId,
) -> (BuilderView, ValueId) {
    let len_val = next_value(b.func);
    let b = constant(b, word(len));
    let slot_addr = next_value(b.func);
    let b = emitted(b, inst(Op::Add, seq![scratch, len_val]), Some(MirType::uint256()));
    let b = emitted(b, inst(Op::MStore, seq![slot_addr, slot]), None);
    let word_size = next_value(b.func);
    let b = constant(b, word(32));
    let hash_len = next_value(b.func);
    let b = emitted(b, inst(Op::Add, seq![len_val, word_size]), Some(MirType::uint256()));
    let hash = next_value(b.func);
    let b = emitted(b, inst(Op::Keccak256, seq![scratch, hash_len]), Some(MirType::bytes32()));
    (b, hash)
}

/// Appends the slot to a staged key and hashes both.
fn finish_literal_key<'a>(
    builder: &mut FunctionBuilder<'a>,
    scratch: ValueId,
    len: u64,
    slot: ValueId,
) -> (r: ValueId)
    requires
        old(builder).wf(),
        has_value(old(builder)@.func, scratch),
        has_value(old(builder)@.func, slot),
    ensures
        final(builder).wf(),
        (final(builder)@, r) == literal_key_finished(old(builder)@, scratch, len, slot),
        has_value(final(builder)@.func, r),
        extends(old(builder)@, final(builder)@),
        *final(final(builder).func) == *final(old(builder).func),
{
    broadcast use group_builder_steps;

    proof {
        reveal(literal_key_finished);
    }
    let len_val = builder.imm_u64(len);
    let slot_addr = builder.add(scratch, len_val);
    builder.mstore(slot_addr, slot);
    let word_size = builder.imm_u64(32);
    let hash_len = builder.add(len_val, word_size);
    let hash = builder.keccak256(scratch, hash_len);
    hash
}

/// The slot of a mapping entry whose key is a constant byte string: the hash of
/// exactly its bytes and the slot, staged at the unbumped free-memory pointer.
#[verifier::opaque]
pub open spec fn literal_mapping_slot(b: BuilderView, bytes: Seq<u8>, slot: ValueId) -> (
    BuilderView,
    ValueId,
) {
    let scratch = next_value(b.func);
    let b = emitted(b, inst(Op::Fmp, seq![]), Some(MirType::MemPtr));
    let b = chunks_stored(b, scratch, bytes, chunk_count(bytes));
    literal_key_finished(b, scratch, bytes.len() as u64, slot)
}

/// Hashes a literal mapping key: stages the literal's bytes at the unbumped
/// free-memory pointer, appends the slot, and hashes exactly both. The trailing
/// slot store overwrites any zero padding of the last partial data word.
pub fn compute_literal_mapping_slot<'a>(
    builder: &mut FunctionBuilder<'a>,
    bytes: &Vec<u8>,
    slot: ValueId,
) -> (r: ValueId)
    requires
        old(builder).wf(),
        has_value(old(builder)@.func, slot),
        bytes@.len() + 64 <= usize::MAX,
    ensures
        final(builder).wf(),
        (final(builder)@, r) == literal_mapping_slot(old(builder)@, bytes@, slot),
        has_value(final(builder)@.func, r),
        extends(old(builder)@, final(builder)@),
        *final(final(builder).func) == *final(old(builder).func),
{
    broadcast use group_builder_steps;

    proof {
        reveal(literal_mapping_slot);
    }
    let scratch = builder.fmp();
    store_chunks(builder, scratch, bytes);
    finish_literal_key(builder, scratch, bytes.len() as u64, slot)
}

/// The hash of a copied key and the slot.
#[verifier::opaque]
pub open spec fn key_copied(
    b: BuilderView,
    has_mcopy: bool,
    ptr: ValueId,
    slot: ValueId,
) -> (BuilderView, ValueId) {
    let len = next_value(b.func);
    let b = emitted(
        b,
        inst(Op::MemoryObjectLen { kind: MemoryObjectKind::Bytes }, seq![ptr]),
        Some(MirType::uint256()),
    );
    let word_size = next_value(b.func);
    let b = constant(b, word(32));
    let data_start = next_value(b.func);
    let b = emitted(
        b,
        inst(Op::MemoryObjectData { kind: MemoryObjectKind::Bytes }, seq![ptr]),
        Some(MirType::MemPtr),
    );
    let scratch = next_value(b.func);
    let b = emitted(b, inst(Op::Fmp, seq![]), Some(MirType::MemPtr));
    let b = memory_copied(b, has_mcopy, scratch, data_start, len);
    let slot_addr = next_value(b.func);
    let b = emitted(b, inst(Op::Add, seq![scratch, len]), Some(MirType::uint256()));
    let b = emitted(b, inst(Op::MStore, seq![slot_addr, slot]), None);
    let hash_len = next_value(b.func);
    let b = emitted(b, inst(Op::Add, seq![len, word_size]), Some(MirType::uint256()));
    let hash = next_value(b.func);
    let b = emitted(b, inst(Op::Keccak256, seq![scratch, hash_len]), Some(MirType::bytes32()));
    (b, hash)
}

/// Copies a key to the free-memory pointer, appends the slot, and hashes both.
fn copy_key<'a>(
    builder: &mut FunctionBuilder<'a>,
    has_mcopy: bool,
    ptr: ValueId,
    slot: ValueId,
) -> (r: ValueId)
    requires
        old(builder).wf(),
        has_value(old(builder)@.func, ptr),
        has_value(old(builder)@.func, slot),
    ensures
        final(builder).wf(),
        (final(builder)@, r) == key_copied(old(builder)@, has_mcopy, ptr, slot),
        has_value(final(builder)@.func, r),
        extends(old(builder)@, final(builder)@),
        *final(final(builder).func) == *final(old(builder).func),
{
    broadcast use group_builder_steps;

    proof {
        reveal(key_copied);
    }
    let len = builder.memory_object_len(ptr, MemoryObjectKind::Bytes);
    let word_size = builder.imm_u64(32);
    let data_start = builder.memory_object_data(ptr, MemoryObjectKind::Bytes);
    let scratch = builder.fmp();
    mcopy(builder, has_mcopy, scratch, data_start, len);
    let slot_addr = builder.add(scratch, len);
    builder.mstore(slot_addr, slot);
    let hash_len = builder.add(len, word_size);
    let hash = builder.keccak256(scratch, hash_len);
    hash
}

/// The slot of a mapping entry whose key is a bytes object in memory.
pub open spec fn memory_mapping_slot(
    b: BuilderView,
    has_mcopy: bool,
    ptr: ValueId,
    slot: ValueId,
) -> (BuilderView, ValueId) {
    if has_mcopy {
        (
            emitted(b, inst(Op::MappingSlotMemory, seq![ptr, slot]), Some(MirType::bytes32())),
            next_value(b.func),
        )
    } else {
        key_copied(b, false, ptr, slot)
    }
}

/// Hashes a mapping key that is a bytes object in memory.
pub fn compute_dynamic_memory_mapping_slot<'a>(
    builder: &mut FunctionBuilder<'a>,
    has_mcopy: bool,
    ptr: ValueId,
    slot: ValueId,
) -> (r: ValueId)
    requires
        old(builder).wf(),
        has_value(old(builder)@.func, ptr),
        has_value(old(builder)@.func, slot),
    ensures
        final(builder).wf(),
        (final(builder)@, r) == memory_mapping_slot(old(builder)@, has_mcopy, ptr, slot),
        has_value(final(builder)@.func, r),
        extends(old(builder)@, final(builder)@),
        *final(final(builder).func) == *final(old(builder).func),
{
    broadcast use group_builder_steps;

    if has_mcopy {
        return builder.mapping_slot_memory(ptr, slot);
    }
    copy_key(builder, has_mcopy, ptr, slot)
}

/// The selector of `Error(string)`, in the highest bytes of a word.
pub open spec fn error_selector() -> U256 {
    word_of((0x08c3_79a0 * pow2(224)) % word_modulus())
}

/// Returns the selector of `Error(string)`, in the highest bytes of a word.
pub fn error_selector_word() -> (r: U256)
    ensures
        r == error_selector(),
{
    let r = U256::from_u64(0x08c3_79a0).shl(224);
    proof {
        lemma_word_of(r);
    }
    r
}

/// The word with all but the lowest five bits set.
pub open spec fn padding_mask() -> U256 {
    word_of((word_modulus() - 1 - 31) as nat)
}

/// Returns the word with all but the lowest five bits set.
pub fn padding_mask_word() -> (r: U256)
    ensures
        r == padding_mask(),
{
    let r = U256::max().wrapping_sub(U256::from_u64(31));
    proof {
        crate::word::lemma_limb_powers();
        vstd::arithmetic::div_mod::lemma_small_mod(
            (word_modulus() - 1 - 31) as nat,
            word_modulus(),
        );
        lemma_word_of(r);
    }
    r
}

/// The staged head of an error string: zero, the head offset and the length.
#[verifier::opaque]
pub open spec fn error_head_staged(b: BuilderView, ptr: ValueId) -> (
    BuilderView,
    (ValueId, ValueId, ValueId),
) {
    let zero = next_value(b.func);
    let b = constant(b, word(0));
    let selector = next_value(b.func);
    let b = constant(b, error_selector());
    let b = emitted(b, inst(Op::MStore, seq![zero, selector]), None);
    let selector_size = next_value(b.func);
    let b = constant(b, word(4));
    let head_offset = next_value(b.func);
    let b = constant(b, word(32));
    let b = emitted(b, inst(Op::MStore, seq![selector_size, head_offset]), None);
    let len = next_value(b.func);
    let b = emitted(
        b,
        inst(Op::MemoryObjectLen { kind: MemoryObjectKind::Bytes }, seq![ptr]),
        Some(MirType::uint256()),
    );
    let len_offset = next_value(b.func);
    let b = constant(b, word(36));
    let b = emitted(b, inst(Op::MStore, seq![len_offset, len]), None);
    (b, (zero, head_offset, len))
}

/// Stores the selector, the head offset and the length of an error string; returns
/// zero, the head offset and the length.
fn stage_error_string_head<'a>(
    builder: &mut FunctionBuilder<'a>,
    ptr: ValueId,
) -> (r: (ValueId, ValueId, ValueId))
    requires
        old(builder).wf(),
        has_value(old(builder)@.func, ptr),
    ensures
        final(builder).wf(),
        (final(builder)@, r) == error_head_staged(old(builder)@, ptr),
        has_value(final(builder)@.func, r.0),
        has_value(final(builder)@.func, r.1),
        has_value(final(builder)@.func, r.2),
        extends(old(builder)@, final(builder)@),
        *final(final(builder).func) == *final(old(builder).func),
{
    broadcast use group_builder_steps;

    proof {
        reveal(error_head_staged);
    }
    let zero = builder.imm_u64(0);
    let selector = builder.imm_u256(error_selector_word());
    builder.mstore(zero, selector);
    let selector_size = builder.imm_u64(4);
    let head_offset = builder.imm_u64(32);
    builder.mstore(selector_size, head_offset);
    let len = builder.memory_object_len(ptr, MemoryObjectKind::Bytes);
    let len_offset = builder.imm_u64(36);
    builder.mstore(len_offset, len);
    (zero, head_offset, len)
}

/// A number of bytes rounded up to whole words.
#[verifier::opaque]
pub open spec fn rounded_up(b: BuilderView, len: ValueId) -> (BuilderView, ValueId) {
    let thirty_one = next_value(b.func);
    let b = constant(b, word(31));
    let rounded = next_value(b.func);
    let b = emitted(b, inst(Op::Add, seq![len, thirty_one]), Some(MirType::uint256()));
    let mask = next_value(b.func);
    let b = constant(b, padding_mask());
    let padded_len = next_value(b.func);
    let b = emitted(b, inst(Op::And, seq![rounded, mask]), Some(MirType::uint256()));
    (b, padded_len)
}

/// Rounds a number of bytes up to whole words.
pub fn round_up_to_words<'a>(builder: &mut FunctionBuilder<'a>, len: ValueId) -> (r: ValueId)
    requires
        old(builder).wf(),
        has_value(old(builder)@.func, len),
    ensures
        final(builder).wf(),
        (final(builder)@, r) == rounded_up(old(builder)@, len),
        has_value(final(builder)@.func, r),
        extends(old(builder)@, final(builder)@),
        *final(final(builder).func) == *final(old(builder).func),
{
    broadcast use group_builder_steps;

    proof {
        reveal(rounded_up);
    }
    let thirty_one = builder.imm_u64(31);
    let rounded = builder.add(len, thirty_one);
    let mask = builder.imm_u256(padding_mask_word());
    let padded_len = builder.and(rounded, mask);
    padded_len
}

/// The builder after zeroing the last word of an area that is not empty.
#[verifier::opaque]
pub open spec fn last_word_zeroed(
    b: BuilderView,
    data_offset: ValueId,
    padded_len: ValueId,
    zero: ValueId,
) -> BuilderView {
    let no_data = next_value(b.func);
    let b = emitted(b, inst(Op::IsZero, seq![padded_len]), Some(MirType::Bool));
    let has_data = next_value(b.func);
    let b = emitted(b, inst(Op::IsZero, seq![no_data]), Some(MirType::Bool));
    let zero_final_word = next_block(b.func);
    let b = blocked(b);
    let copy_data = next_block(b.func);
    let b = blocked(b);
    let b = ended(
        b,
        TermView::Branch {
            condition: has_data,
            then_block: zero_final_word,
            else_block: copy_data,
        },
    );
    let b = moved(b, zero_final_word);
    let word_size = next_value(b.func);
    let b = constant(b, word(32));
    let final_word_offset = next_value(b.func);
    let b = emitted(b, inst(Op::Sub, seq![padded_len, word_size]), Some(MirType::uint256()));
    let final_word = next_value(b.func);
    let b = emitted(
        b,
        inst(Op::Add, seq![data_offset, final_word_offset]),
        Some(MirType::uint256()),
    );
    let b = emitted(b, inst(Op::MStore, seq![final_word, zero]), None);
    let b = ended(b, TermView::Jump(copy_data));
    let b = moved(b, copy_data);
    b
}

/// Zeroes the last word of an area that is not empty.
fn zero_last_word<'a>(
    builder: &mut FunctionBuilder<'a>,
    data_offset: ValueId,
    padded_len: ValueId,
    zero: ValueId,
)
    requires
        old(builder).wf(),
        has_value(old(builder)@.func, data_offset),
        has_value(old(builder)@.func, padded_len),
        has_value(old(builder)@.func, zero),
    ensures
        final(builder).wf(),
        final(builder)@ == last_word_zeroed(old(builder)@, data_offset, padded_len, zero),
        extends(old(builder)@, final(builder)@),
        *final(final(builder).func) == *final(old(builder).func),
{
    broadcast use group_builder_steps;

    proof {
        reveal(last_word_zeroed);
    }
    let no_data = builder.iszero(padded_len);
    let has_data = builder.iszero(no_data);
    let zero_final_word = builder.create_block();
    let copy_data = builder.create_block();
    builder.branch(has_data, zero_final_word, copy_data);
    builder.switch_to_block(zero_final_word);
    let word_size = builder.imm_u64(32);
    let final_word_offset = builder.sub(padded_len, word_size);
    let final_word = builder.add(data_offset, final_word_offset);
    builder.mstore(final_word, zero);
    builder.jump(copy_data);
    builder.switch_to_block(copy_data);
}

/// The builder after a revert with a string in memory.
#[verifier::opaque]
pub open spec fn error_string_reverted(
    b: BuilderView,
    has_mcopy: bool,
    ptr: ValueId,
) -> BuilderView {
    let (b, parts) = error_head_staged(b, ptr);
    let (b, padded_len) = rounded_up(b, parts.2);
    let data_offset = next_value(b.func);
    let b = constant(b, word(68));
    let b = last_word_zeroed(b, data_offset, padded_len, parts.0);
    let src = next_value(b.func);
    let b = emitted(b, inst(Op::Add, seq![ptr, parts.1]), Some(MirType::uint256()));
    let b = memory_copied(b, has_mcopy, data_offset, src, parts.2);
    let size = next_value(b.func);
    let b = emitted(b, inst(Op::Add, seq![data_offset, padded_len]), Some(MirType::uint256()));
    let b = ended(b, TermView::Revert { offset: parts.0, size: size });
    b
}

/// Reverts with `Error(string)` of a string in memory: selector, head offset,
/// length and the data, padded with zeroes to a whole word.
pub fn emit_revert_error_string_from_memory<'a>(
    builder: &mut FunctionBuilder<'a>,
    has_mcopy: bool,
    ptr: ValueId,
)
    requires
        old(builder).wf(),
        has_value(old(builder)@.func, ptr),
    ensures
        final(builder).wf(),
        final(builder)@ == error_string_reverted(old(builder)@, has_mcopy, ptr),
        extends(old(builder)@, final(builder)@),
        *final(final(builder).func) == *final(old(builder).func),
{
    broadcast use group_builder_steps;

    proof {
        reveal(error_string_reverted);
    }
    let parts = stage_error_string_head(builder, ptr);
    let padded_len = round_up_to_words(builder, parts.2);
    let data_offset = builder.imm_u64(68);
    zero_last_word(builder, data_offset, padded_len, parts.0);
    let src = builder.add(ptr, parts.1);
    mcopy(builder, has_mcopy, data_offset, src, parts.2);
    let size = builder.add(data_offset, padded_len);
    builder.revert(parts.0, size);
}

/// The builder after a revert with a string of at most one word.
#[verifier::opaque]
pub open spec fn short_string_reverted(b: BuilderView, len: ValueId, data: ValueId) -> BuilderView {
    let selector = next_value(b.func);
    let b = constant(b, error_selector());
    let zero = next_value(b.func);
    let b = constant(b, word(0));
    let b = emitted(b, inst(Op::MStore, seq![zero, selector]), None);
    let selector_size = next_value(b.func);
    let b = constant(b, word(4));
    let head_offset = next_value(b.func);
    let b = constant(b, word(32));
    let b = emitted(b, inst(Op::MStore, seq![selector_size, head_offset]), None);
    let len_offset = next_value(b.func);
    let b = constant(b, word(36));
    let b = emitted(b, inst(Op::MStore, seq![len_offset, len]), None);
    let data_offset = next_value(b.func);
    let b = constant(b, word(68));
    let b = emitted(b, inst(Op::MStore, seq![data_offset, data]), None);
    let size = next_value(b.func);
    let b = constant(b, word(100));
    let b = ended(b, TermView::Revert { offset: zero, size: size });
    b
}

/// Reverts with `Error(string)` of a string of at most one word: selector, head
/// offset, length, one padded data word.
pub fn emit_short_string_revert<'a>(builder: &mut FunctionBuilder<'a>, len: ValueId, data: ValueId)
    requires
        old(builder).wf(),
        has_value(old(builder)@.func, len),
        has_value(old(builder)@.func, data),
    ensures
        final(builder).wf(),
        final(builder)@ == short_string_reverted(old(builder)@, len, data),
        extends(old(builder)@, final(builder)@),
        *final(final(builder).func) == *final(old(builder).func),
{
    broadcast use group_builder_steps;

    proof {
        reveal(short_string_reverted);
    }
    let selector = builder.imm_u256(error_selector_word());
    let zero = builder.imm_u64(0);
    builder.mstore(zero, selector);
    let selector_size = builder.imm_u64(4);
    let head_offset = builder.imm_u64(32);
    builder.mstore(selector_size, head_offset);
    let len_offset = builder.imm_u64(36);
    builder.mstore(len_offset, len);
    let data_offset = builder.imm_u64(68);
    builder.mstore(data_offset, data);
    let size = builder.imm_u64(100);
    builder.revert(zero, size);
}

/// The builder after a revert with a constant string of 1 to 32 bytes through
/// the shared helper.
#[verifier::opaque]
pub open spec fn helper_reverted(
    b: BuilderView,
    helper: FunctionId,
    bytes: Seq<u8>,
) -> BuilderView {
    let len = next_value(b.func);
    let b = constant(b, word(bytes.len() as u64));
    let data = next_value(b.func);
    let b = constant(b, left_word(bytes));
    let b = emitted(
        b,
        inst(Op::InternalCall { function: helper, return_count: 0 }, seq![len, data]),
        None,
    );
    ended(b, TermView::Invalid)
}

/// Reverts with a constant string of 1 to 32 bytes through the shared helper:
/// one call with the length and the left-aligned data. The helper reverts, so
/// what follows is unreachable.
pub fn emit_helper_revert<'a>(
    builder: &mut FunctionBuilder<'a>,
    helper: FunctionId,
    bytes: &Vec<u8>,
)
    requires
        old(builder).wf(),
        1 <= bytes@.len() <= 32,
    ensures
        final(builder).wf(),
        final(builder)@ == helper_reverted(old(builder)@, helper, bytes@),
        extends(old(builder)@, final(builder)@),
        *final(final(builder).func) == *final(old(builder).func),
{
    broadcast use group_builder_steps;

    proof {
        reveal(helper_reverted);
        assert(bytes@.subrange(0, bytes@.len() as int) =~= bytes@);
    }
    let len = builder.imm_u64(bytes.len() as u64);
    let data = builder.imm_u256(pad_to_word(bytes, 0, bytes.len()));
    let args: Vec<ValueId> = vec![len, data];
    assert(args@ =~= seq![len, data]);
    builder.internal_call_void(helper, args, 0);
    builder.invalid();
}

/// A fresh object of length zero.
#[verifier::opaque]
pub open spec fn empty_object(b: BuilderView, kind: MemoryObjectKind) -> (BuilderView, ValueId) {
    let (b, ptr) = allocated(b, 32, kind);
    let zero = next_value(b.func);
    let b = constant(b, word(0));
    let b = emitted(b, inst(Op::SetMemoryObjectLen { kind: kind }, seq![ptr, zero]), None);
    (b, ptr)
}

/// Builds an object of length zero.
pub fn zero_length_object<'a>(
    builder: &mut FunctionBuilder<'a>,
    kind: MemoryObjectKind,
) -> (r: ValueId)
    requires
        old(builder).wf(),
    ensures
        final(builder).wf(),
        (final(builder)@, r) == empty_object(old(builder)@, kind),
        has_value(final(builder)@.func, r),
        extends(old(builder)@, final(builder)@),
        *final(final(builder).func) == *final(old(builder).func),
{
    broadcast use group_builder_steps;

    proof {
        reveal(empty_object);
    }
    let ptr = allocate_memory_object(builder, 32, kind);
    let zero = builder.imm_u256(U256::zero());
    builder.set_memory_object_len(ptr, zero, kind);
    ptr
}

/// The builder after storing a field of a struct in memory.
#[verifier::opaque]
pub open spec fn field_stored(
    b: BuilderView,
    object: ValueId,
    layout: MemoryObjectLayout,
    field: u64,
    value: ValueId,
) -> BuilderView {
    let addr = next_value(b.func);
    let b = emitted(
        b,
        inst(Op::MemoryObjectFieldAddr { layout: layout, field: field }, seq![object]),
        Some(MirType::MemPtr),
    );
    let b = emitted(b, inst(Op::MStore, seq![addr, value]), None);
    b
}

/// Stores a field of a struct in memory.
pub fn store_field<'a>(
    builder: &mut FunctionBuilder<'a>,
    object: ValueId,
    layout: MemoryObjectLayout,
    field: u64,
    value: ValueId,
)
    requires
        old(builder).wf(),
        has_value(old(builder)@.func, object),
        has_value(old(builder)@.func, value),
    ensures
        final(builder).wf(),
        final(builder)@ == field_stored(old(builder)@, object, layout, field, value),
        extends(old(builder)@, final(builder)@),
        *final(final(builder).func) == *final(old(builder).func),
{
    broadcast use group_builder_steps;

    proof {
        reveal(field_stored);
    }
    let addr = builder.memory_object_field_addr(object, layout, field);
    builder.mstore(addr, value);
}

/// A field of a struct in memory.
#[verifier::opaque]
pub open spec fn field_loaded(
    b: BuilderView,
    object: ValueId,
    layout: MemoryObjectLayout,
    field: u64,
) -> (BuilderView, ValueId) {
    let addr = next_value(b.func);
    let b = emitted(
        b,
        inst(Op::MemoryObjectFieldAddr { layout: layout, field: field }, seq![object]),
        Some(MirType::MemPtr),
    );
    let value = next_value(b.func);
    let b = emitted(b, inst(Op::MLoad, seq![addr]), Some(MirType::uint256()));
    (b, value)
}

/// Loads a field of a struct in memory.
pub fn load_field<'a>(
    builder: &mut FunctionBuilder<'a>,
    object: ValueId,
    layout: MemoryObjectLayout,
    field: u64,
) -> (r: ValueId)
    requires
        old(builder).wf(),
        has_value(old(builder)@.func, object),
    ensures
        final(builder).wf(),
        (final(builder)@, r) == field_loaded(old(builder)@, object, layout, field),
        has_value(final(builder)@.func, r),
        extends(old(builder)@, final(builder)@),
        *final(final(builder).func) == *final(old(builder).func),
{
    broadcast use group_builder_steps;

    proof {
        reveal(field_loaded);
    }
    let addr = builder.memory_object_field_addr(object, layout, field);
    let value = builder.mload(addr);
    value
}

/// The builder after storing an element of an array in memory.
#[verifier::opaque]
pub open spec fn element_stored(
    b: BuilderView,
    object: ValueId,
    layout: MemoryObjectLayout,
    index: u64,
    value: ValueId,
) -> BuilderView {
    let index_val = next_value(b.func);
    let b = constant(b, word(index));
    let addr = next_value(b.func);
    let b = emitted(
        b,
        inst(Op::MemoryObjectElementAddr { layout: layout }, seq![object, index_val]),
        Some(MirType::MemPtr),
    );
    let b = emitted(b, inst(Op::MStore, seq![addr, value]), None);
    b
}

/// Stores an element of an array in memory.
pub fn store_element<'a>(
    builder: &mut FunctionBuilder<'a>,
    object: ValueId,
    layout: MemoryObjectLayout,
    index: u64,
    value: ValueId,
)
    requires
        old(builder).wf(),
        has_value(old(builder)@.func, object),
        has_value(old(builder)@.func, value),
    ensures
        final(builder).wf(),
        final(builder)@ == element_stored(old(builder)@, object, layout, index, value),
        extends(old(builder)@, final(builder)@),
        *final(final(builder).func) == *final(old(builder).func),
{
    broadcast use group_builder_steps;

    proof {
        reveal(element_stored);
    }
    let index_val = builder.imm_u64(index);
    let addr = builder.memory_object_element_addr(object, layout, index_val);
    builder.mstore(addr, value);
}

} // verus!
