//! Decoding ABI data in memory.

use crate::hir::ElementaryType;
use crate::lower::emit::{
    decode_revert_if, emit_abi_decode_revert_if, extends, lower_abi_decode_word, mcopy,
    memory_copied, word_decoded,
};
use crate::lower::types::elementary_fits;
use crate::mir::builder::{
    blocked, constant, emitted, ended, group_builder_steps, is_phi, moved, valued, with_phi_edge,
    word, BuilderView, FunctionBuilder,
};
use crate::mir::function::{function_wf, has_block, has_value, next_block, next_value, value_fits};
use crate::mir::inst::{inst, operands_of, KindView, Op, TermView};
use crate::mir::types::{BlockId, MemoryObjectKind, MirType, SliceLocation, ValueId};
use vstd::prelude::*;

verus! {

/// The checks of where a tail is.
#[verifier::opaque]
pub open spec fn tail_checked(
    b: BuilderView,
    head: ValueId,
    head_size: ValueId,
    tuple_len: ValueId,
) -> (BuilderView, (ValueId, ValueId)) {
    let head_before_tail = next_value(b.func);
    let b = emitted(b, inst(Op::Lt, seq![head, head_size]), Some(MirType::Bool));
    let b = decode_revert_if(b, head_before_tail);
    let one_word = next_value(b.func);
    let b = constant(b, word(32));
    let tail_head_end = next_value(b.func);
    let b = emitted(b, inst(Op::Add, seq![head, one_word]), Some(MirType::uint256()));
    let head_overflow = next_value(b.func);
    let b = emitted(b, inst(Op::Lt, seq![tail_head_end, head]), Some(MirType::Bool));
    let b = decode_revert_if(b, head_overflow);
    let head_oob = next_value(b.func);
    let b = emitted(b, inst(Op::Gt, seq![tail_head_end, tuple_len]), Some(MirType::Bool));
    let b = decode_revert_if(b, head_oob);
    (b, (one_word, tail_head_end))
}

/// Checks that a head word points behind the heads and that the length word
/// there is in bounds. Returns the size of a word and where the length ends.
fn check_tail<'a>(
    builder: &mut FunctionBuilder<'a>,
    head: ValueId,
    head_size: ValueId,
    tuple_len: ValueId,
) -> (r: (ValueId, ValueId))
    requires
        old(builder).wf(),
        has_value(old(builder)@.func, head),
        has_value(old(builder)@.func, head_size),
        has_value(old(builder)@.func, tuple_len),
    ensures
        final(builder).wf(),
        (final(builder)@, r) == tail_checked(old(builder)@, head, head_size, tuple_len),
        has_value(final(builder)@.func, r.0),
        has_value(final(builder)@.func, r.1),
        extends(old(builder)@, final(builder)@),
        *final(final(builder).func) == *final(old(builder).func),
{
    broadcast use group_builder_steps;

    proof {
        reveal(tail_checked);
    }
    let head_before_tail = builder.lt(head, head_size);
    emit_abi_decode_revert_if(builder, head_before_tail);
    let one_word = builder.imm_u64(32);
    let tail_head_end = builder.add(head, one_word);
    let head_overflow = builder.lt(tail_head_end, head);
    emit_abi_decode_revert_if(builder, head_overflow);
    let head_oob = builder.gt(tail_head_end, tuple_len);
    emit_abi_decode_revert_if(builder, head_oob);
    (one_word, tail_head_end)
}

/// The checks of the length of a tail.
#[verifier::opaque]
pub open spec fn tail_measured(
    b: BuilderView,
    tuple_base: ValueId,
    tuple_len: ValueId,
    head: ValueId,
    tail_head_end: ValueId,
) -> (BuilderView, (ValueId, ValueId, ValueId)) {
    let tail_len_addr = next_value(b.func);
    let b = emitted(b, inst(Op::Add, seq![tuple_base, head]), Some(MirType::uint256()));
    let tail_len = next_value(b.func);
    let b = emitted(b, inst(Op::MLoad, seq![tail_len_addr]), Some(MirType::uint256()));
    let thirty_one = next_value(b.func);
    let b = constant(b, word(31));
    let rounded = next_value(b.func);
    let b = emitted(b, inst(Op::Add, seq![tail_len, thirty_one]), Some(MirType::uint256()));
    let rounded_overflow = next_value(b.func);
    let b = emitted(b, inst(Op::Lt, seq![rounded, tail_len]), Some(MirType::Bool));
    let b = decode_revert_if(b, rounded_overflow);
    let mask = next_value(b.func);
    let b = emitted(b, inst(Op::Not, seq![thirty_one]), Some(MirType::uint256()));
    let padded = next_value(b.func);
    let b = emitted(b, inst(Op::And, seq![rounded, mask]), Some(MirType::uint256()));
    let tail_end = next_value(b.func);
    let b = emitted(b, inst(Op::Add, seq![tail_head_end, padded]), Some(MirType::uint256()));
    let tail_overflow = next_value(b.func);
    let b = emitted(b, inst(Op::Lt, seq![tail_end, tail_head_end]), Some(MirType::Bool));
    let b = decode_revert_if(b, tail_overflow);
    let tail_oob = next_value(b.func);
    let b = emitted(b, inst(Op::Gt, seq![tail_end, tuple_len]), Some(MirType::Bool));
    let b = decode_revert_if(b, tail_oob);
    (b, (tail_len_addr, tail_len, padded))
}

/// Checks that the bytes of a tail are in bounds. Returns where its length is,
/// its length and the length in whole words.
fn measure_tail<'a>(
    builder: &mut FunctionBuilder<'a>,
    tuple_base: ValueId,
    tuple_len: ValueId,
    head: ValueId,
    tail_head_end: ValueId,
) -> (r: (ValueId, ValueId, ValueId))
    requires
        old(builder).wf(),
        has_value(old(builder)@.func, tuple_base),
        has_value(old(builder)@.func, tuple_len),
        has_value(old(builder)@.func, head),
        has_value(old(builder)@.func, tail_head_end),
    ensures
        final(builder).wf(),
        (final(builder)@, r) == tail_measured(
            old(builder)@,
            tuple_base,
            tuple_len,
            head,
            tail_head_end,
        ),
        has_value(final(builder)@.func, r.0),
        has_value(final(builder)@.func, r.1),
        has_value(final(builder)@.func, r.2),
        extends(old(builder)@, final(builder)@),
        *final(final(builder).func) == *final(old(builder).func),
{
    broadcast use group_builder_steps;

    proof {
        reveal(tail_measured);
    }
    let tail_len_addr = builder.add(tuple_base, head);
    let tail_len = builder.mload(tail_len_addr);
    let thirty_one = builder.imm_u64(31);
    let rounded = builder.add(tail_len, thirty_one);
    let rounded_overflow = builder.lt(rounded, tail_len);
    emit_abi_decode_revert_if(builder, rounded_overflow);
    let mask = builder.not(thirty_one);
    let padded = builder.and(rounded, mask);
    let tail_end = builder.add(tail_head_end, padded);
    let tail_overflow = builder.lt(tail_end, tail_head_end);
    emit_abi_decode_revert_if(builder, tail_overflow);
    let tail_oob = builder.gt(tail_end, tuple_len);
    emit_abi_decode_revert_if(builder, tail_oob);
    (tail_len_addr, tail_len, padded)
}

/// The size of a copy of a tail.
#[verifier::opaque]
pub open spec fn copy_sized(
    b: BuilderView,
    one_word: ValueId,
    padded: ValueId,
) -> (BuilderView, (ValueId, ValueId, ValueId)) {
    let is_empty = next_value(b.func);
    let b = emitted(b, inst(Op::IsZero, seq![padded]), Some(MirType::Bool));
    let data_size = next_value(b.func);
    let b = emitted(
        b,
        inst(Op::Select, seq![is_empty, one_word, padded]),
        Some(MirType::uint256()),
    );
    let total_size = next_value(b.func);
    let b = emitted(b, inst(Op::Add, seq![one_word, data_size]), Some(MirType::uint256()));
    let total_overflow = next_value(b.func);
    let b = emitted(b, inst(Op::Lt, seq![total_size, data_size]), Some(MirType::Bool));
    (b, (data_size, total_size, total_overflow))
}

/// Returns the bytes of the payload of a copy, of the whole copy, and whether
/// they overflow.
fn size_copy<'a>(
    builder: &mut FunctionBuilder<'a>,
    one_word: ValueId,
    padded: ValueId,
) -> (r: (ValueId, ValueId, ValueId))
    requires
        old(builder).wf(),
        has_value(old(builder)@.func, one_word),
        has_value(old(builder)@.func, padded),
    ensures
        final(builder).wf(),
        (final(builder)@, r) == copy_sized(old(builder)@, one_word, padded),
        has_value(final(builder)@.func, r.0),
        has_value(final(builder)@.func, r.1),
        has_value(final(builder)@.func, r.2),
        extends(old(builder)@, final(builder)@),
        *final(final(builder).func) == *final(old(builder).func),
{
    broadcast use group_builder_steps;

    proof {
        reveal(copy_sized);
    }
    let is_empty = builder.iszero(padded);
    let data_size = builder.select(is_empty, one_word, padded);
    let total_size = builder.add(one_word, data_size);
    let total_overflow = builder.lt(total_size, data_size);
    (data_size, total_size, total_overflow)
}

/// The values that decoding bytes passes on.
#[derive(Clone, Copy, Debug, PartialEq, Eq, Structural)]
pub struct Tail {
    /// Where the length is.
    pub len_addr: ValueId,
    /// The length.
    pub len: ValueId,
    /// The size of a word.
    pub one_word: ValueId,
    /// The bytes of the payload of the copy.
    pub data_size: ValueId,
    /// The bytes of the whole copy.
    pub total_size: ValueId,
    /// Whether they overflow.
    pub overflow: ValueId,
}

/// Whether the values of a tail exist.
pub open spec fn has_tail(b: BuilderView, tail: Tail) -> bool {
    &&& has_value(b.func, tail.len_addr)
    &&& has_value(b.func, tail.len)
    &&& has_value(b.func, tail.one_word)
    &&& has_value(b.func, tail.data_size)
    &&& has_value(b.func, tail.total_size)
    &&& has_value(b.func, tail.overflow)
}

/// The start of decoding bytes: everything up to the allocation of the copy.
#[verifier::opaque]
pub open spec fn bytes_decode_begun(
    b: BuilderView,
    tuple_base: ValueId,
    tuple_len: ValueId,
    head_size: ValueId,
    head: ValueId,
) -> (BuilderView, Tail) {
    let (b, (one_word, tail_head_end)) = tail_checked(b, head, head_size, tuple_len);
    let (b, (len_addr, len, padded)) = tail_measured(
        b,
        tuple_base,
        tuple_len,
        head,
        tail_head_end,
    );
    let (b, (data_size, total_size, overflow)) = copy_sized(b, one_word, padded);
    (b, Tail { len_addr, len, one_word, data_size, total_size, overflow })
}

/// Starts decoding bytes: checks the tail and measures the copy. The copy is
/// then allocated, after a check that its size does not overflow.
pub fn begin_decode_bytes<'a>(
    builder: &mut FunctionBuilder<'a>,
    tuple_base: ValueId,
    tuple_len: ValueId,
    head_size: ValueId,
    head: ValueId,
) -> (r: Tail)
    requires
        old(builder).wf(),
        has_value(old(builder)@.func, tuple_base),
        has_value(old(builder)@.func, tuple_len),
        has_value(old(builder)@.func, head_size),
        has_value(old(builder)@.func, head),
    ensures
        final(builder).wf(),
        (final(builder)@, r) == bytes_decode_begun(
            old(builder)@,
            tuple_base,
            tuple_len,
            head_size,
            head,
        ),
        has_tail(final(builder)@, r),
        extends(old(builder)@, final(builder)@),
        *final(final(builder).func) == *final(old(builder).func),
{
    proof {
        reveal(bytes_decode_begun);
    }
    let (one_word, tail_head_end) = check_tail(builder, head, head_size, tuple_len);
    let (len_addr, len, padded) = measure_tail(
        builder,
        tuple_base,
        tuple_len,
        head,
        tail_head_end,
    );
    let (data_size, total_size, overflow) = size_copy(builder, one_word, padded);
    Tail { len_addr, len, one_word, data_size, total_size, overflow }
}

/// The builder after copying bytes to an object.
#[verifier::opaque]
pub open spec fn copy_filled(
    b: BuilderView,
    has_mcopy: bool,
    len_addr: ValueId,
    len: ValueId,
    one_word: ValueId,
    data_size: ValueId,
    ptr: ValueId,
) -> BuilderView {
    let b = emitted(
        b,
        inst(Op::SetMemoryObjectLen { kind: MemoryObjectKind::Bytes }, seq![ptr, len]),
        None,
    );
    let data_ptr = next_value(b.func);
    let b = emitted(
        b,
        inst(Op::MemoryObjectData { kind: MemoryObjectKind::Bytes }, seq![ptr]),
        Some(MirType::MemPtr),
    );
    let zero = next_value(b.func);
    let b = constant(b, word(0));
    let last_word_offset = next_value(b.func);
    let b = emitted(b, inst(Op::Sub, seq![data_size, one_word]), Some(MirType::uint256()));
    let last_word = next_value(b.func);
    let b = emitted(b, inst(Op::Add, seq![data_ptr, last_word_offset]), Some(MirType::uint256()));
    let b = emitted(b, inst(Op::MStore, seq![last_word, zero]), None);
    let src = next_value(b.func);
    let b = emitted(b, inst(Op::Add, seq![len_addr, one_word]), Some(MirType::uint256()));
    let b = memory_copied(b, has_mcopy, data_ptr, src, len);
    b
}

/// Copies bytes to the object allocated for them, with zeros behind them.
fn fill_copy<'a>(
    builder: &mut FunctionBuilder<'a>,
    has_mcopy: bool,
    len_addr: ValueId,
    len: ValueId,
    one_word: ValueId,
    data_size: ValueId,
    ptr: ValueId,
)
    requires
        old(builder).wf(),
        has_value(old(builder)@.func, len_addr),
        has_value(old(builder)@.func, len),
        has_value(old(builder)@.func, one_word),
        has_value(old(builder)@.func, data_size),
        has_value(old(builder)@.func, ptr),
    ensures
        final(builder).wf(),
        final(builder)@ == copy_filled(
            old(builder)@,
            has_mcopy,
            len_addr,
            len,
            one_word,
            data_size,
            ptr,
        ),
        extends(old(builder)@, final(builder)@),
        *final(final(builder).func) == *final(old(builder).func),
{
    broadcast use group_builder_steps;

    proof {
        reveal(copy_filled);
    }
    builder.set_memory_object_len(ptr, len, MemoryObjectKind::Bytes);
    let data_ptr = builder.memory_object_data(ptr, MemoryObjectKind::Bytes);
    let zero = builder.imm_u64(0);
    let last_word_offset = builder.sub(data_size, one_word);
    let last_word = builder.add(data_ptr, last_word_offset);
    builder.mstore(last_word, zero);
    let src = builder.add(len_addr, one_word);
    mcopy(builder, has_mcopy, data_ptr, src, len);
}

/// The end of decoding bytes.
pub open spec fn bytes_decode_ended(
    b: BuilderView,
    has_mcopy: bool,
    tail: Tail,
    ptr: ValueId,
) -> BuilderView {
    copy_filled(b, has_mcopy, tail.len_addr, tail.len, tail.one_word, tail.data_size, ptr)
}

/// Ends decoding bytes: copies them to the object allocated for them.
pub fn finish_decode_bytes<'a>(
    builder: &mut FunctionBuilder<'a>,
    has_mcopy: bool,
    tail: Tail,
    ptr: ValueId,
)
    requires
        old(builder).wf(),
        has_tail(old(builder)@, tail),
        has_value(old(builder)@.func, ptr),
    ensures
        final(builder).wf(),
        final(builder)@ == bytes_decode_ended(old(builder)@, has_mcopy, tail, ptr),
        extends(old(builder)@, final(builder)@),
        *final(final(builder).func) == *final(old(builder).func),
{
    fill_copy(builder, has_mcopy, tail.len_addr, tail.len, tail.one_word, tail.data_size, ptr);
}

/// The checks of the length of an array.
#[verifier::opaque]
pub open spec fn array_measured(
    b: BuilderView,
    tuple_base: ValueId,
    tuple_len: ValueId,
    head: ValueId,
    one_word: ValueId,
    tail_head_end: ValueId,
) -> (BuilderView, (ValueId, ValueId, ValueId, ValueId)) {
    let len_addr = next_value(b.func);
    let b = emitted(b, inst(Op::Add, seq![tuple_base, head]), Some(MirType::uint256()));
    let arr_len = next_value(b.func);
    let b = emitted(b, inst(Op::MLoad, seq![len_addr]), Some(MirType::uint256()));
    let shift = next_value(b.func);
    let b = constant(b, word(250));
    let shifted = next_value(b.func);
    let b = emitted(b, inst(Op::Shr, seq![shift, arr_len]), Some(MirType::uint256()));
    let in_range = next_value(b.func);
    let b = emitted(b, inst(Op::IsZero, seq![shifted]), Some(MirType::Bool));
    let too_big = next_value(b.func);
    let b = emitted(b, inst(Op::IsZero, seq![in_range]), Some(MirType::Bool));
    let b = decode_revert_if(b, too_big);
    let payload_bytes = next_value(b.func);
    let b = emitted(b, inst(Op::Mul, seq![arr_len, one_word]), Some(MirType::uint256()));
    let payload_end = next_value(b.func);
    let b = emitted(b, inst(Op::Add, seq![tail_head_end, payload_bytes]), Some(MirType::uint256()));
    let payload_oob = next_value(b.func);
    let b = emitted(b, inst(Op::Gt, seq![payload_end, tuple_len]), Some(MirType::Bool));
    let b = decode_revert_if(b, payload_oob);
    let total_size = next_value(b.func);
    let b = emitted(b, inst(Op::Add, seq![one_word, payload_bytes]), Some(MirType::uint256()));
    let payload_src = next_value(b.func);
    let b = emitted(b, inst(Op::Add, seq![len_addr, one_word]), Some(MirType::uint256()));
    (b, (arr_len, payload_bytes, payload_src, total_size))
}

/// Checks that the elements of an array are in bounds, with a guard before the
/// number of their bytes can wrap. Returns the length, the bytes of the
/// elements, where they are and the bytes of the whole copy.
fn measure_array<'a>(
    builder: &mut FunctionBuilder<'a>,
    tuple_base: ValueId,
    tuple_len: ValueId,
    head: ValueId,
    one_word: ValueId,
    tail_head_end: ValueId,
) -> (r: (ValueId, ValueId, ValueId, ValueId))
    requires
        old(builder).wf(),
        has_value(old(builder)@.func, tuple_base),
        has_value(old(builder)@.func, tuple_len),
        has_value(old(builder)@.func, head),
        has_value(old(builder)@.func, one_word),
        has_value(old(builder)@.func, tail_head_end),
    ensures
        final(builder).wf(),
        (final(builder)@, r) == array_measured(
            old(builder)@,
            tuple_base,
            tuple_len,
            head,
            one_word,
            tail_head_end,
        ),
        has_value(final(builder)@.func, r.0),
        has_value(final(builder)@.func, r.1),
        has_value(final(builder)@.func, r.2),
        has_value(final(builder)@.func, r.3),
        extends(old(builder)@, final(builder)@),
        *final(final(builder).func) == *final(old(builder).func),
{
    broadcast use group_builder_steps;

    proof {
        reveal(array_measured);
    }
    let len_addr = builder.add(tuple_base, head);
    let arr_len = builder.mload(len_addr);
    let shift = builder.imm_u64(250);
    let shifted = builder.shr(shift, arr_len);
    let in_range = builder.iszero(shifted);
    let too_big = builder.iszero(in_range);
    emit_abi_decode_revert_if(builder, too_big);
    let payload_bytes = builder.mul(arr_len, one_word);
    let payload_end = builder.add(tail_head_end, payload_bytes);
    let payload_oob = builder.gt(payload_end, tuple_len);
    emit_abi_decode_revert_if(builder, payload_oob);
    let total_size = builder.add(one_word, payload_bytes);
    let payload_src = builder.add(len_addr, one_word);
    (arr_len, payload_bytes, payload_src, total_size)
}

/// The values that decoding an array passes on.
#[derive(Clone, Copy, Debug, PartialEq, Eq, Structural)]
pub struct ArrayTail {
    /// The number of elements.
    pub len: ValueId,
    /// The size of a word.
    pub one_word: ValueId,
    /// The bytes of the elements.
    pub payload_bytes: ValueId,
    /// Where the elements are.
    pub payload_src: ValueId,
    /// The bytes of the whole copy.
    pub total_size: ValueId,
    /// Where the length word ends.
    pub tail_head_end: ValueId,
}

/// Whether the values of an array exist.
pub open spec fn has_array_tail(b: BuilderView, tail: ArrayTail) -> bool {
    &&& has_value(b.func, tail.len)
    &&& has_value(b.func, tail.one_word)
    &&& has_value(b.func, tail.payload_bytes)
    &&& has_value(b.func, tail.payload_src)
    &&& has_value(b.func, tail.total_size)
    &&& has_value(b.func, tail.tail_head_end)
}

/// The start of decoding an array: everything up to the allocation of the copy.
#[verifier::opaque]
pub open spec fn array_decode_begun(
    b: BuilderView,
    tuple_base: ValueId,
    tuple_len: ValueId,
    head_size: u64,
    head: ValueId,
) -> (BuilderView, ArrayTail) {
    let head_size_val = next_value(b.func);
    let b = constant(b, word(head_size));
    let (b, (one_word, tail_head_end)) = tail_checked(b, head, head_size_val, tuple_len);
    let (b, (len, payload_bytes, payload_src, total_size)) = array_measured(
        b,
        tuple_base,
        tuple_len,
        head,
        one_word,
        tail_head_end,
    );
    (b, ArrayTail { len, one_word, payload_bytes, payload_src, total_size, tail_head_end })
}

/// Starts decoding an array: checks the tail and measures the copy.
pub fn begin_decode_array<'a>(
    builder: &mut FunctionBuilder<'a>,
    tuple_base: ValueId,
    tuple_len: ValueId,
    head_size: u64,
    head: ValueId,
) -> (r: ArrayTail)
    requires
        old(builder).wf(),
        has_value(old(builder)@.func, tuple_base),
        has_value(old(builder)@.func, tuple_len),
        has_value(old(builder)@.func, head),
    ensures
        final(builder).wf(),
        (final(builder)@, r) == array_decode_begun(
            old(builder)@,
            tuple_base,
            tuple_len,
            head_size,
            head,
        ),
        has_array_tail(final(builder)@, r),
        extends(old(builder)@, final(builder)@),
        *final(final(builder).func) == *final(old(builder).func),
{
    broadcast use group_builder_steps;

    proof {
        reveal(array_decode_begun);
    }
    let head_size_val = builder.imm_u64(head_size);
    let (one_word, tail_head_end) = check_tail(builder, head, head_size_val, tuple_len);
    let (len, payload_bytes, payload_src, total_size) = measure_array(
        builder,
        tuple_base,
        tuple_len,
        head,
        one_word,
        tail_head_end,
    );
    ArrayTail { len, one_word, payload_bytes, payload_src, total_size, tail_head_end }
}

/// The place of the elements of a copied array.
#[verifier::opaque]
pub open spec fn decoded_array_placed(
    b: BuilderView,
    len: ValueId,
    ptr: ValueId,
) -> (BuilderView, ValueId) {
    let b = emitted(
        b,
        inst(Op::SetMemoryObjectLen { kind: MemoryObjectKind::DynamicArray }, seq![ptr, len]),
        None,
    );
    let dst_data = next_value(b.func);
    let b = emitted(
        b,
        inst(Op::MemoryObjectData { kind: MemoryObjectKind::DynamicArray }, seq![ptr]),
        Some(MirType::MemPtr),
    );
    (b, dst_data)
}

/// Records the length of the array allocated for a copy. Returns where its
/// elements go.
pub fn place_decoded_array<'a>(
    builder: &mut FunctionBuilder<'a>,
    len: ValueId,
    ptr: ValueId,
) -> (r: ValueId)
    requires
        old(builder).wf(),
        has_value(old(builder)@.func, len),
        has_value(old(builder)@.func, ptr),
    ensures
        final(builder).wf(),
        (final(builder)@, r) == decoded_array_placed(old(builder)@, len, ptr),
        has_value(final(builder)@.func, r),
        extends(old(builder)@, final(builder)@),
        *final(final(builder).func) == *final(old(builder).func),
{
    broadcast use group_builder_steps;

    proof {
        reveal(decoded_array_placed);
    }
    builder.set_memory_object_len(ptr, len, MemoryObjectKind::DynamicArray);
    let dst_data = builder.memory_object_data(ptr, MemoryObjectKind::DynamicArray);
    dst_data
}

/// The copied elements of an array of words.
#[verifier::opaque]
pub open spec fn words_copied(
    b: BuilderView,
    has_mcopy: bool,
    len: ValueId,
    payload_src: ValueId,
    payload_bytes: ValueId,
    ptr: ValueId,
) -> (BuilderView, ValueId) {
    let (b, dst_data) = decoded_array_placed(b, len, ptr);
    let b = memory_copied(b, has_mcopy, dst_data, payload_src, payload_bytes);
    (b, dst_data)
}

/// Copies the elements of an array of words to the array allocated for them.
/// Returns where they are.
pub fn copy_words<'a>(
    builder: &mut FunctionBuilder<'a>,
    has_mcopy: bool,
    len: ValueId,
    payload_src: ValueId,
    payload_bytes: ValueId,
    ptr: ValueId,
) -> (r: ValueId)
    requires
        old(builder).wf(),
        has_value(old(builder)@.func, len),
        has_value(old(builder)@.func, payload_src),
        has_value(old(builder)@.func, payload_bytes),
        has_value(old(builder)@.func, ptr),
    ensures
        final(builder).wf(),
        (final(builder)@, r) == words_copied(
            old(builder)@,
            has_mcopy,
            len,
            payload_src,
            payload_bytes,
            ptr,
        ),
        has_value(final(builder)@.func, r),
        extends(old(builder)@, final(builder)@),
        *final(final(builder).func) == *final(old(builder).func),
{
    broadcast use group_builder_steps;

    proof {
        reveal(words_copied);
    }
    let dst_data = place_decoded_array(builder, len, ptr);
    mcopy(builder, has_mcopy, dst_data, payload_src, payload_bytes);
    dst_data
}

/// The blocks and the index of a loop over elements.
#[derive(Clone, Copy, Debug, PartialEq, Eq, Structural)]
pub struct ElementsLoop {
    /// Where every turn starts.
    pub header: BlockId,
    /// Where the loop is left to.
    pub exit: BlockId,
    /// The index of the element.
    pub index: ValueId,
}

/// The start of a loop over elements.
#[verifier::opaque]
pub open spec fn elements_begun(b: BuilderView, len: ValueId) -> (BuilderView, ElementsLoop) {
    let preheader = b.block;
    let header = next_block(b.func);
    let b = blocked(b);
    let body_block = next_block(b.func);
    let b = blocked(b);
    let exit = next_block(b.func);
    let b = blocked(b);
    let zero = next_value(b.func);
    let b = constant(b, word(0));
    let b = ended(b, TermView::Jump(header));
    let b = moved(b, header);
    let index = next_value(b.func);
    let b = emitted(b, KindView::Phi(seq![(preheader, zero)]), Some(MirType::uint256()));
    let has_more = next_value(b.func);
    let b = emitted(b, inst(Op::Lt, seq![index, len]), Some(MirType::Bool));
    let b = ended(
        b,
        TermView::Branch { condition: has_more, then_block: body_block, else_block: exit },
    );
    (moved(b, body_block), ElementsLoop { header, exit, index })
}

/// Starts a loop over the elements of an array.
pub fn begin_elements<'a>(builder: &mut FunctionBuilder<'a>, len: ValueId) -> (r: ElementsLoop)
    requires
        old(builder).wf(),
        has_value(old(builder)@.func, len),
    ensures
        final(builder).wf(),
        (final(builder)@, r) == elements_begun(old(builder)@, len),
        has_block(final(builder)@.func, r.header),
        has_block(final(builder)@.func, r.exit),
        has_value(final(builder)@.func, r.index),
        extends(old(builder)@, final(builder)@),
        *final(final(builder).func) == *final(old(builder).func),
{
    broadcast use group_builder_steps;

    proof {
        reveal(elements_begun);
    }
    let preheader = builder.current_block();
    let header = builder.create_block();
    let body_block = builder.create_block();
    let exit = builder.create_block();
    let zero = builder.imm_u64(0);
    builder.jump(header);
    builder.switch_to_block(header);
    let incoming: Vec<(BlockId, ValueId)> = vec![(preheader, zero)];
    assert(incoming@ =~= seq![(preheader, zero)]);
    proof {
        let kind = KindView::Phi(incoming@);
        assert(operands_of(kind).len() == incoming@.len());
        assert forall|i: int| 0 <= i < operands_of(kind).len() implies has_value(
            builder@.func,
            #[trigger] operands_of(kind)[i],
        ) by {
            assert(operands_of(kind)[i] == incoming@[i].1);
        }
    }
    let index = builder.phi(incoming);
    let has_more = builder.lt(index, len);
    builder.branch(has_more, body_block, exit);
    builder.switch_to_block(body_block);
    ElementsLoop { header, exit, index }
}

/// The end of a loop over elements: the index goes round.
#[verifier::opaque]
pub open spec fn elements_ended(b: BuilderView, elements: ElementsLoop) -> BuilderView {
    let one = next_value(b.func);
    let b = constant(b, word(1));
    let index_next = next_value(b.func);
    let b = emitted(b, inst(Op::Add, seq![elements.index, one]), Some(MirType::uint256()));
    let latch = b.block;
    let b = ended(b, TermView::Jump(elements.header));
    let b = BuilderView {
        func: with_phi_edge(
            b.func,
            b.func.values[elements.index.0 as int]->Inst_0,
            latch,
            index_next,
        ),
        block: b.block,
    };
    moved(b, elements.exit)
}

/// Ends a loop over the elements of an array. The index that
/// [`begin_elements`] made is still a phi here.
pub fn end_elements<'a>(builder: &mut FunctionBuilder<'a>, elements: ElementsLoop)
    requires
        old(builder).wf(),
        has_block(old(builder)@.func, elements.header),
        has_block(old(builder)@.func, elements.exit),
        has_value(old(builder)@.func, elements.index),
        is_phi(old(builder)@.func, elements.index),
    ensures
        final(builder).wf(),
        final(builder)@ == elements_ended(old(builder)@, elements),
        extends(old(builder)@, final(builder)@),
        *final(final(builder).func) == *final(old(builder).func),
{
    broadcast use group_builder_steps;

    proof {
        reveal(elements_ended);
    }
    let ghost begin = builder@;
    let one = builder.imm_u64(1);
    let index_next = builder.add(elements.index, one);
    let latch = builder.current_block();
    builder.jump(elements.header);
    proof {
        reveal(function_wf);
        reveal(valued);
        reveal(emitted);
        reveal(ended);
        assert(value_fits(begin.func, begin.func.values[elements.index.0 as int]));
    }
    builder.add_phi_incoming(elements.index, latch, index_next);
    builder.switch_to_block(elements.exit);
}

/// The head word of an element.
#[verifier::opaque]
pub open spec fn element_head_loaded(
    b: BuilderView,
    index: ValueId,
    one_word: ValueId,
    region_base: ValueId,
) -> (BuilderView, (ValueId, ValueId)) {
    let offset = next_value(b.func);
    let b = emitted(b, inst(Op::Mul, seq![index, one_word]), Some(MirType::uint256()));
    let head_addr = next_value(b.func);
    let b = emitted(b, inst(Op::Add, seq![region_base, offset]), Some(MirType::uint256()));
    let elem_head = next_value(b.func);
    let b = emitted(b, inst(Op::MLoad, seq![head_addr]), Some(MirType::uint256()));
    (b, (offset, elem_head))
}

/// Loads the head word of an element. Returns its offset and the word.
pub fn element_head<'a>(
    builder: &mut FunctionBuilder<'a>,
    index: ValueId,
    one_word: ValueId,
    region_base: ValueId,
) -> (r: (ValueId, ValueId))
    requires
        old(builder).wf(),
        has_value(old(builder)@.func, index),
        has_value(old(builder)@.func, one_word),
        has_value(old(builder)@.func, region_base),
    ensures
        final(builder).wf(),
        (final(builder)@, r) == element_head_loaded(old(builder)@, index, one_word, region_base),
        has_value(final(builder)@.func, r.0),
        has_value(final(builder)@.func, r.1),
        extends(old(builder)@, final(builder)@),
        *final(final(builder).func) == *final(old(builder).func),
{
    broadcast use group_builder_steps;

    proof {
        reveal(element_head_loaded);
    }
    let offset = builder.mul(index, one_word);
    let head_addr = builder.add(region_base, offset);
    let elem_head = builder.mload(head_addr);
    (offset, elem_head)
}

/// The builder after storing a decoded element.
#[verifier::opaque]
pub open spec fn element_placed(
    b: BuilderView,
    dst_data: ValueId,
    offset: ValueId,
    value: ValueId,
) -> BuilderView {
    let dst_addr = next_value(b.func);
    let b = emitted(b, inst(Op::Add, seq![dst_data, offset]), Some(MirType::uint256()));
    let b = emitted(b, inst(Op::MStore, seq![dst_addr, value]), None);
    b
}

/// Stores a decoded element.
pub fn store_element_at<'a>(
    builder: &mut FunctionBuilder<'a>,
    dst_data: ValueId,
    offset: ValueId,
    value: ValueId,
)
    requires
        old(builder).wf(),
        has_value(old(builder)@.func, dst_data),
        has_value(old(builder)@.func, offset),
        has_value(old(builder)@.func, value),
    ensures
        final(builder).wf(),
        final(builder)@ == element_placed(old(builder)@, dst_data, offset, value),
        extends(old(builder)@, final(builder)@),
        *final(final(builder).func) == *final(old(builder).func),
{
    broadcast use group_builder_steps;

    proof {
        reveal(element_placed);
    }
    let dst_addr = builder.add(dst_data, offset);
    builder.mstore(dst_addr, value);
}

/// An element of a copied array.
#[verifier::opaque]
pub open spec fn element_word_loaded(
    b: BuilderView,
    index: ValueId,
    one_word: ValueId,
    dst_data: ValueId,
) -> (BuilderView, ValueId) {
    let offset = next_value(b.func);
    let b = emitted(b, inst(Op::Mul, seq![index, one_word]), Some(MirType::uint256()));
    let addr = next_value(b.func);
    let b = emitted(b, inst(Op::Add, seq![dst_data, offset]), Some(MirType::uint256()));
    let value = next_value(b.func);
    let b = emitted(b, inst(Op::MLoad, seq![addr]), Some(MirType::uint256()));
    (b, value)
}

/// Loads an element of a copied array.
fn element_word<'a>(
    builder: &mut FunctionBuilder<'a>,
    index: ValueId,
    one_word: ValueId,
    dst_data: ValueId,
) -> (r: ValueId)
    requires
        old(builder).wf(),
        has_value(old(builder)@.func, index),
        has_value(old(builder)@.func, one_word),
        has_value(old(builder)@.func, dst_data),
    ensures
        final(builder).wf(),
        (final(builder)@, r) == element_word_loaded(old(builder)@, index, one_word, dst_data),
        has_value(final(builder)@.func, r),
        extends(old(builder)@, final(builder)@),
        *final(final(builder).func) == *final(old(builder).func),
{
    broadcast use group_builder_steps;

    proof {
        reveal(element_word_loaded);
    }
    let offset = builder.mul(index, one_word);
    let addr = builder.add(dst_data, offset);
    let value = builder.mload(addr);
    value
}

/// The builder after checking an element of a copied array.
pub open spec fn element_checked(
    b: BuilderView,
    index: ValueId,
    one_word: ValueId,
    dst_data: ValueId,
    elem: ElementaryType,
) -> BuilderView {
    let (b, value) = element_word_loaded(b, index, one_word, dst_data);
    word_decoded(b, elem, value).0
}

/// Checks that an element of a copied array is a value of its type.
pub fn check_element<'a>(
    builder: &mut FunctionBuilder<'a>,
    index: ValueId,
    one_word: ValueId,
    dst_data: ValueId,
    elem: ElementaryType,
)
    requires
        old(builder).wf(),
        has_value(old(builder)@.func, index),
        has_value(old(builder)@.func, one_word),
        has_value(old(builder)@.func, dst_data),
        elementary_fits(elem),
    ensures
        final(builder).wf(),
        final(builder)@ == element_checked(old(builder)@, index, one_word, dst_data, elem),
        extends(old(builder)@, final(builder)@),
        *final(final(builder).func) == *final(old(builder).func),
{
    let value = element_word(builder, index, one_word, dst_data);
    let _ = lower_abi_decode_word(builder, elem, value);
}

/// The check that a region holds the heads of a tuple.
#[verifier::opaque]
pub open spec fn region_checked(
    b: BuilderView,
    len: ValueId,
    head_size: u64,
) -> (BuilderView, ValueId) {
    let required = next_value(b.func);
    let b = constant(b, word(head_size));
    let is_short = next_value(b.func);
    let b = emitted(b, inst(Op::Lt, seq![len, required]), Some(MirType::Bool));
    let b = decode_revert_if(b, is_short);
    let head_size_val = next_value(b.func);
    let b = constant(b, word(head_size));
    (b, head_size_val)
}

/// Reverts when a region is too short for the heads of a tuple. Returns the size
/// of the heads.
pub fn check_region<'a>(
    builder: &mut FunctionBuilder<'a>,
    len: ValueId,
    head_size: u64,
) -> (r: ValueId)
    requires
        old(builder).wf(),
        has_value(old(builder)@.func, len),
    ensures
        final(builder).wf(),
        (final(builder)@, r) == region_checked(old(builder)@, len, head_size),
        has_value(final(builder)@.func, r),
        extends(old(builder)@, final(builder)@),
        *final(final(builder).func) == *final(old(builder).func),
{
    broadcast use group_builder_steps;

    proof {
        reveal(region_checked);
    }
    let required = builder.imm_u64(head_size);
    let is_short = builder.lt(len, required);
    emit_abi_decode_revert_if(builder, is_short);
    let head_size_val = builder.imm_u64(head_size);
    head_size_val
}

/// The length of bytes in memory and where they are.
#[verifier::opaque]
pub open spec fn parts_of_bytes(b: BuilderView, ptr: ValueId) -> (BuilderView, (ValueId, ValueId)) {
    let len = next_value(b.func);
    let b = emitted(
        b,
        inst(Op::MemoryObjectLen { kind: MemoryObjectKind::Bytes }, seq![ptr]),
        Some(MirType::uint256()),
    );
    let data = next_value(b.func);
    let b = emitted(
        b,
        inst(Op::MemoryObjectData { kind: MemoryObjectKind::Bytes }, seq![ptr]),
        Some(MirType::MemPtr),
    );
    (b, (len, data))
}

/// Returns the length of bytes in memory and where they are.
pub fn object_parts<'a>(builder: &mut FunctionBuilder<'a>, ptr: ValueId) -> (r: (ValueId, ValueId))
    requires
        old(builder).wf(),
        has_value(old(builder)@.func, ptr),
    ensures
        final(builder).wf(),
        (final(builder)@, r) == parts_of_bytes(old(builder)@, ptr),
        has_value(final(builder)@.func, r.0),
        has_value(final(builder)@.func, r.1),
        extends(old(builder)@, final(builder)@),
        *final(final(builder).func) == *final(old(builder).func),
{
    broadcast use group_builder_steps;

    proof {
        reveal(parts_of_bytes);
    }
    let len = builder.memory_object_len(ptr, MemoryObjectKind::Bytes);
    let data = builder.memory_object_data(ptr, MemoryObjectKind::Bytes);
    (len, data)
}

/// The slice of a member of a call-data struct.
#[verifier::opaque]
pub open spec fn tail_sliced(
    b: BuilderView,
    struct_base: ValueId,
    head_pos: ValueId,
) -> (BuilderView, ValueId) {
    let tail_offset = next_value(b.func);
    let b = emitted(b, inst(Op::CalldataLoad, seq![head_pos]), Some(MirType::uint256()));
    let len_pos = next_value(b.func);
    let b = emitted(b, inst(Op::Add, seq![struct_base, tail_offset]), Some(MirType::uint256()));
    let len = next_value(b.func);
    let b = emitted(b, inst(Op::CalldataLoad, seq![len_pos]), Some(MirType::uint256()));
    let one_word = next_value(b.func);
    let b = constant(b, word(32));
    let data = next_value(b.func);
    let b = emitted(b, inst(Op::Add, seq![len_pos, one_word]), Some(MirType::uint256()));
    let slice = next_value(b.func);
    let b = emitted(
        b,
        inst(Op::MakeSlice { location: SliceLocation::Calldata }, seq![data, len]),
        Some(MirType::Slice(SliceLocation::Calldata)),
    );
    (b, slice)
}

/// Returns the slice of a member of a call-data struct, from where its head word
/// is. The head word is the offset of the tail from the base of the struct.
pub fn tail_slice<'a>(
    builder: &mut FunctionBuilder<'a>,
    struct_base: ValueId,
    head_pos: ValueId,
) -> (r: ValueId)
    requires
        old(builder).wf(),
        has_value(old(builder)@.func, struct_base),
        has_value(old(builder)@.func, head_pos),
    ensures
        final(builder).wf(),
        (final(builder)@, r) == tail_sliced(old(builder)@, struct_base, head_pos),
        has_value(final(builder)@.func, r),
        extends(old(builder)@, final(builder)@),
        *final(final(builder).func) == *final(old(builder).func),
{
    broadcast use group_builder_steps;

    proof {
        reveal(tail_sliced);
    }
    let tail_offset = builder.calldataload(head_pos);
    let len_pos = builder.add(struct_base, tail_offset);
    let len = builder.calldataload(len_pos);
    let one_word = builder.imm_u64(32);
    let data = builder.add(len_pos, one_word);
    let slice = builder.make_slice(data, len, SliceLocation::Calldata);
    slice
}

} // verus!
