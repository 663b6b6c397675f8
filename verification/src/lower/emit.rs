//! Instruction sequences that lowering is made of.
//!
//! Every sequence is stated as what it does to the function under
//! construction, step by step.

use crate::hir::{ElementaryType, Hir, ItemId, TypeKind};
use crate::lower::types::{high_bits, high_mask, low_bits, low_mask, AbiWordValidator};
use crate::memory::EvmMemoryLayout;
use crate::mir::builder::{
    blocked, constant, emitted, ended, group_builder_steps, moved, word, BuilderView,
    FunctionBuilder,
};
use crate::mir::function::{has_value, next_block, next_value};
use crate::mir::inst::{inst, Op, TermView};
use crate::mir::types::{MirType, SliceLocation, ValueId};
use crate::word::{word_of, U256};
use vstd::prelude::*;

verus! {

/// Whether a builder state has everything that an earlier one had.
pub open spec fn extends(before: BuilderView, after: BuilderView) -> bool {
    &&& before.func.values.len() <= after.func.values.len()
    &&& before.func.blocks.len() <= after.func.blocks.len()
    &&& before.func.insts.len() <= after.func.insts.len()
}

/// The builder after a plain revert for when `cond` is zero.
#[verifier::opaque]
pub open spec fn revert_unless(b: BuilderView, cond: ValueId) -> BuilderView {
    let revert_block = next_block(b.func);
    let b = blocked(b);
    let continue_block = next_block(b.func);
    let b = blocked(b);
    let b = ended(
        b,
        TermView::Branch { condition: cond, then_block: continue_block, else_block: revert_block },
    );
    let b = moved(b, revert_block);
    let zero = next_value(b.func);
    let b = constant(b, word(0));
    let b = ended(b, TermView::Revert { offset: zero, size: zero });
    let b = moved(b, continue_block);
    b
}

/// Branches to a plain `revert(0, 0)` when `cond` is zero, then continues in the
/// fallthrough block.
pub fn emit_revert_unless<'a>(builder: &mut FunctionBuilder<'a>, cond: ValueId)
    requires
        old(builder).wf(),
        has_value(old(builder)@.func, cond),
    ensures
        final(builder).wf(),
        final(builder)@ == revert_unless(old(builder)@, cond),
        extends(old(builder)@, final(builder)@),
        *final(final(builder).func) == *final(old(builder).func),
{
    broadcast use group_builder_steps;

    proof {
        reveal(revert_unless);
    }
    let revert_block = builder.create_block();
    let continue_block = builder.create_block();
    builder.branch(cond, continue_block, revert_block);
    builder.switch_to_block(revert_block);
    let zero = builder.imm_u64(0);
    builder.revert(zero, zero);
    builder.switch_to_block(continue_block);
}

/// The builder after a plain revert for when `cond` is true.
#[verifier::opaque]
pub open spec fn revert_if(b: BuilderView, cond: ValueId) -> BuilderView {
    let revert_block = next_block(b.func);
    let b = blocked(b);
    let continue_block = next_block(b.func);
    let b = blocked(b);
    let b = ended(
        b,
        TermView::Branch { condition: cond, then_block: revert_block, else_block: continue_block },
    );
    let b = moved(b, revert_block);
    let zero = next_value(b.func);
    let b = constant(b, word(0));
    let b = ended(b, TermView::Revert { offset: zero, size: zero });
    let b = moved(b, continue_block);
    b
}

/// Reverts with empty data when `cond` is true, continuing otherwise. Branching
/// directly on the condition avoids an `iszero` polarity flip.
pub fn emit_revert_if<'a>(builder: &mut FunctionBuilder<'a>, cond: ValueId)
    requires
        old(builder).wf(),
        has_value(old(builder)@.func, cond),
    ensures
        final(builder).wf(),
        final(builder)@ == revert_if(old(builder)@, cond),
        extends(old(builder)@, final(builder)@),
        *final(final(builder).func) == *final(old(builder).func),
{
    broadcast use group_builder_steps;

    proof {
        reveal(revert_if);
    }
    let revert_block = builder.create_block();
    let continue_block = builder.create_block();
    builder.branch(cond, revert_block, continue_block);
    builder.switch_to_block(revert_block);
    let zero = builder.imm_u64(0);
    builder.revert(zero, zero);
    builder.switch_to_block(continue_block);
}

/// The builder after a revert for when decoding must fail.
#[verifier::opaque]
pub open spec fn decode_revert_if(b: BuilderView, cond: ValueId) -> BuilderView {
    let revert_block = next_block(b.func);
    let b = blocked(b);
    let continue_block = next_block(b.func);
    let b = blocked(b);
    let b = ended(
        b,
        TermView::Branch { condition: cond, then_block: revert_block, else_block: continue_block },
    );
    let b = moved(b, revert_block);
    let zero_off = next_value(b.func);
    let b = constant(b, word(0));
    let zero_len = next_value(b.func);
    let b = constant(b, word(0));
    let b = ended(b, TermView::Revert { offset: zero_off, size: zero_len });
    let b = moved(b, continue_block);
    b
}

/// Reverts with empty data when decoding must fail.
pub fn emit_abi_decode_revert_if<'a>(builder: &mut FunctionBuilder<'a>, cond: ValueId)
    requires
        old(builder).wf(),
        has_value(old(builder)@.func, cond),
    ensures
        final(builder).wf(),
        final(builder)@ == decode_revert_if(old(builder)@, cond),
        extends(old(builder)@, final(builder)@),
        *final(final(builder).func) == *final(old(builder).func),
{
    broadcast use group_builder_steps;

    proof {
        reveal(decode_revert_if);
    }
    let revert_block = builder.create_block();
    let continue_block = builder.create_block();
    builder.branch(cond, revert_block, continue_block);
    builder.switch_to_block(revert_block);
    let zero_off = builder.imm_u64(0);
    let zero_len = builder.imm_u64(0);
    builder.revert(zero_off, zero_len);
    builder.switch_to_block(continue_block);
}

/// The builder after checking the size of the call data.
#[verifier::opaque]
pub open spec fn head_size_checked(b: BuilderView, head_size: u64) -> BuilderView {
    if head_size == 0 {
        b
    } else {
        head_size_compared(b, head_size)
    }
}

/// The builder after comparing the size of the call data with that of the head.
#[verifier::opaque]
pub open spec fn head_size_compared(b: BuilderView, head_size: u64) -> BuilderView {
    let calldatasize = next_value(b.func);
    let b = emitted(b, inst(Op::CalldataSize, seq![]), Some(MirType::uint256()));
    let selector_size = next_value(b.func);
    let b = constant(b, word(4));
    let payload_size = next_value(b.func);
    let b = emitted(b, inst(Op::Sub, seq![calldatasize, selector_size]), Some(MirType::uint256()));
    let required_size = next_value(b.func);
    let b = constant(b, word(head_size));
    let is_short = next_value(b.func);
    let b = emitted(b, inst(Op::SLt, seq![payload_size, required_size]), Some(MirType::Bool));
    let b = revert_if(b, is_short);
    b
}

/// Reverts when the call data is shorter than a selector and the head.
fn compare_head_size<'a>(builder: &mut FunctionBuilder<'a>, head_size: u64)
    requires
        old(builder).wf(),
    ensures
        final(builder).wf(),
        final(builder)@ == head_size_compared(old(builder)@, head_size),
        extends(old(builder)@, final(builder)@),
        *final(final(builder).func) == *final(old(builder).func),
{
    broadcast use group_builder_steps;

    proof {
        reveal(head_size_compared);
    }
    let calldatasize = builder.calldatasize();
    let selector_size = builder.imm_u64(4);
    let payload_size = builder.sub(calldatasize, selector_size);
    let required_size = builder.imm_u64(head_size);
    let is_short = builder.slt(payload_size, required_size);
    emit_revert_if(builder, is_short);
}

/// Reverts when the call data does not contain the complete ABI head.
///
/// A load from the call data returns zero for missing bytes, so this guard must
/// run before parameter validation or short call data can be accepted as a
/// canonical zero argument.
pub fn emit_external_calldata_head_size_check<'a>(
    builder: &mut FunctionBuilder<'a>,
    head_size: u64,
)
    requires
        old(builder).wf(),
    ensures
        final(builder).wf(),
        final(builder)@ == head_size_checked(old(builder)@, head_size),
        extends(old(builder)@, final(builder)@),
        *final(final(builder).func) == *final(old(builder).func),
{
    proof {
        reveal(head_size_checked);
    }
    if head_size == 0 {
        return;
    }
    compare_head_size(builder, head_size);
}

/// The comparison of a word with itself masked.
#[verifier::opaque]
pub open spec fn mask_compared(
    b: BuilderView,
    value: ValueId,
    mask: U256,
) -> (BuilderView, ValueId) {
    let mask_value = next_value(b.func);
    let b = constant(b, mask);
    let canonical = next_value(b.func);
    let b = emitted(b, inst(Op::And, seq![value, mask_value]), Some(MirType::uint256()));
    let ok = next_value(b.func);
    let b = emitted(b, inst(Op::Eq, seq![value, canonical]), Some(MirType::Bool));
    (b, ok)
}

/// Compares a word with itself masked.
fn masked_word_is_clean<'a>(
    builder: &mut FunctionBuilder<'a>,
    value: ValueId,
    mask: U256,
) -> (r: ValueId)
    requires
        old(builder).wf(),
        has_value(old(builder)@.func, value),
    ensures
        final(builder).wf(),
        (final(builder)@, r) == mask_compared(old(builder)@, value, mask),
        has_value(final(builder)@.func, r),
        extends(old(builder)@, final(builder)@),
        *final(final(builder).func) == *final(old(builder).func),
{
    broadcast use group_builder_steps;

    proof {
        reveal(mask_compared);
    }
    let mask_value = builder.imm_u256(mask);
    let canonical = builder.and(value, mask_value);
    let ok = builder.eq(value, canonical);
    ok
}

/// The comparison of a word with its sign extension.
#[verifier::opaque]
pub open spec fn extension_compared(
    b: BuilderView,
    value: ValueId,
    byte_index: u64,
) -> (BuilderView, ValueId) {
    let byte_value = next_value(b.func);
    let b = constant(b, word(byte_index));
    let canonical = next_value(b.func);
    let b = emitted(b, inst(Op::SignExtend, seq![byte_value, value]), Some(MirType::int256()));
    let ok = next_value(b.func);
    let b = emitted(b, inst(Op::Eq, seq![value, canonical]), Some(MirType::Bool));
    (b, ok)
}

/// Compares a word with its sign extension.
fn extended_word_is_clean<'a>(
    builder: &mut FunctionBuilder<'a>,
    value: ValueId,
    byte_index: u64,
) -> (r: ValueId)
    requires
        old(builder).wf(),
        has_value(old(builder)@.func, value),
    ensures
        final(builder).wf(),
        (final(builder)@, r) == extension_compared(old(builder)@, value, byte_index),
        has_value(final(builder)@.func, r),
        extends(old(builder)@, final(builder)@),
        *final(final(builder).func) == *final(old(builder).func),
{
    broadcast use group_builder_steps;

    proof {
        reveal(extension_compared);
    }
    let byte_value = builder.imm_u64(byte_index);
    let canonical = builder.signextend(byte_value, value);
    let ok = builder.eq(value, canonical);
    ok
}

/// The comparison of a word with its truth value.
#[verifier::opaque]
pub open spec fn truth_compared(b: BuilderView, value: ValueId) -> (BuilderView, ValueId) {
    let is_zero = next_value(b.func);
    let b = emitted(b, inst(Op::IsZero, seq![value]), Some(MirType::Bool));
    let canonical = next_value(b.func);
    let b = emitted(b, inst(Op::IsZero, seq![is_zero]), Some(MirType::Bool));
    let ok = next_value(b.func);
    let b = emitted(b, inst(Op::Eq, seq![value, canonical]), Some(MirType::Bool));
    (b, ok)
}

/// Compares a word with its truth value.
fn bool_word_is_clean<'a>(builder: &mut FunctionBuilder<'a>, value: ValueId) -> (r: ValueId)
    requires
        old(builder).wf(),
        has_value(old(builder)@.func, value),
    ensures
        final(builder).wf(),
        (final(builder)@, r) == truth_compared(old(builder)@, value),
        has_value(final(builder)@.func, r),
        extends(old(builder)@, final(builder)@),
        *final(final(builder).func) == *final(old(builder).func),
{
    broadcast use group_builder_steps;

    proof {
        reveal(truth_compared);
    }
    let is_zero = builder.iszero(value);
    let canonical = builder.iszero(is_zero);
    let ok = builder.eq(value, canonical);
    ok
}

/// The comparison of a word with the number of members.
#[verifier::opaque]
pub open spec fn range_compared(
    b: BuilderView,
    value: ValueId,
    count: u64,
) -> (BuilderView, ValueId) {
    let count_value = next_value(b.func);
    let b = constant(b, word(count));
    let ok = next_value(b.func);
    let b = emitted(b, inst(Op::Lt, seq![value, count_value]), Some(MirType::Bool));
    (b, ok)
}

/// Compares a word with the number of members.
fn enum_word_is_clean<'a>(
    builder: &mut FunctionBuilder<'a>,
    value: ValueId,
    count: u64,
) -> (r: ValueId)
    requires
        old(builder).wf(),
        has_value(old(builder)@.func, value),
    ensures
        final(builder).wf(),
        (final(builder)@, r) == range_compared(old(builder)@, value, count),
        has_value(final(builder)@.func, r),
        extends(old(builder)@, final(builder)@),
        *final(final(builder).func) == *final(old(builder).func),
{
    broadcast use group_builder_steps;

    proof {
        reveal(range_compared);
    }
    let count_value = builder.imm_u64(count);
    let ok = builder.lt(value, count_value);
    ok
}

/// The builder after the check that a validator asks for.
#[verifier::opaque]
pub open spec fn word_checked(
    b: BuilderView,
    value: ValueId,
    validator: AbiWordValidator,
) -> BuilderView {
    let (b, ok) = match validator {
        AbiWordValidator::Mask(mask) => mask_compared(b, value, mask),
        AbiWordValidator::SignExtend(byte_index) => extension_compared(b, value, byte_index),
        AbiWordValidator::Bool => truth_compared(b, value),
        AbiWordValidator::EnumRange(count) => range_compared(b, value, count),
    };
    revert_unless(b, ok)
}

/// Reverts when `value` is not the canonical encoding for `validator`.
pub fn emit_abi_word_clean_check<'a>(
    builder: &mut FunctionBuilder<'a>,
    value: ValueId,
    validator: AbiWordValidator,
)
    requires
        old(builder).wf(),
        has_value(old(builder)@.func, value),
    ensures
        final(builder).wf(),
        final(builder)@ == word_checked(old(builder)@, value, validator),
        extends(old(builder)@, final(builder)@),
        *final(final(builder).func) == *final(old(builder).func),
{
    proof {
        reveal(word_checked);
    }
    let ok = match validator {
        AbiWordValidator::Mask(mask) => masked_word_is_clean(builder, value, mask),
        AbiWordValidator::SignExtend(byte_index) => extended_word_is_clean(
            builder,
            value,
            byte_index,
        ),
        AbiWordValidator::Bool => bool_word_is_clean(builder, value),
        AbiWordValidator::EnumRange(count) => enum_word_is_clean(builder, value, count),
    };
    emit_revert_unless(builder, ok);
}

/// The builder after validating a decoded field.
pub open spec fn field_checked(
    b: BuilderView,
    value: ValueId,
    validator: Option<AbiWordValidator>,
) -> BuilderView {
    match validator {
        Some(validator) => word_checked(b, value, validator),
        None => b,
    }
}

/// Validates a field that was decoded. A value that is not the encoding of one of
/// its type reverts.
pub fn emit_abi_field_clean_check<'a>(
    builder: &mut FunctionBuilder<'a>,
    value: ValueId,
    validator: Option<AbiWordValidator>,
)
    requires
        old(builder).wf(),
        has_value(old(builder)@.func, value),
    ensures
        final(builder).wf(),
        final(builder)@ == field_checked(old(builder)@, value, validator),
        extends(old(builder)@, final(builder)@),
        *final(final(builder).func) == *final(old(builder).func),
{
    if let Some(validator) = validator {
        emit_abi_word_clean_check(builder, value, validator);
    }
}

/// Where the arguments of a function are encoded.
#[derive(Clone, Copy, Debug, PartialEq, Eq, Structural)]
pub enum AbiParamSource {
    /// In the call data, after the selector.
    ExternalCalldata,
    /// In memory, where the arguments of a constructor are copied.
    ConstructorMemory,
}

/// Where the encoded arguments start.
pub open spec fn args_base(source: AbiParamSource) -> u64 {
    match source {
        AbiParamSource::ExternalCalldata => 4,
        AbiParamSource::ConstructorMemory => EvmMemoryLayout::HEAP_START,
    }
}

/// Where the head word of an argument is.
pub open spec fn head_position(source: AbiParamSource, arg_index: u64) -> u64 {
    (args_base(source) + arg_index * EvmMemoryLayout::WORD_SIZE) as u64
}

impl AbiParamSource {
    /// Returns where the encoded arguments start.
    pub fn base(self) -> (r: u64)
        ensures
            r == args_base(self),
    {
        match self {
            AbiParamSource::ExternalCalldata => 4,
            AbiParamSource::ConstructorMemory => EvmMemoryLayout::HEAP_START,
        }
    }
}

/// A load of a word of the call data.
#[verifier::opaque]
pub open spec fn calldata_word(b: BuilderView, position: u64) -> (BuilderView, ValueId) {
    let offset = next_value(b.func);
    let b = constant(b, word(position));
    let value = next_value(b.func);
    let b = emitted(b, inst(Op::CalldataLoad, seq![offset]), Some(MirType::uint256()));
    (b, value)
}

/// Loads a word of the call data.
fn load_calldata_word<'a>(builder: &mut FunctionBuilder<'a>, position: u64) -> (r: ValueId)
    requires
        old(builder).wf(),
    ensures
        final(builder).wf(),
        (final(builder)@, r) == calldata_word(old(builder)@, position),
        has_value(final(builder)@.func, r),
        extends(old(builder)@, final(builder)@),
        *final(final(builder).func) == *final(old(builder).func),
{
    broadcast use group_builder_steps;

    proof {
        reveal(calldata_word);
    }
    let offset = builder.imm_u64(position);
    let value = builder.calldataload(offset);
    value
}

/// A load of a word of memory.
#[verifier::opaque]
pub open spec fn memory_word(b: BuilderView, position: u64) -> (BuilderView, ValueId) {
    let offset = next_value(b.func);
    let b = constant(b, word(position));
    let value = next_value(b.func);
    let b = emitted(b, inst(Op::MLoad, seq![offset]), Some(MirType::uint256()));
    (b, value)
}

/// Loads a word of memory.
fn load_memory_word<'a>(builder: &mut FunctionBuilder<'a>, position: u64) -> (r: ValueId)
    requires
        old(builder).wf(),
    ensures
        final(builder).wf(),
        (final(builder)@, r) == memory_word(old(builder)@, position),
        has_value(final(builder)@.func, r),
        extends(old(builder)@, final(builder)@),
        *final(final(builder).func) == *final(old(builder).func),
{
    broadcast use group_builder_steps;

    proof {
        reveal(memory_word);
    }
    let offset = builder.imm_u64(position);
    let value = builder.mload(offset);
    value
}

/// The load of an argument's head word.
#[verifier::opaque]
pub open spec fn head_loaded(b: BuilderView, source: AbiParamSource, arg_index: u64) -> (
    BuilderView,
    ValueId,
) {
    match source {
        AbiParamSource::ExternalCalldata => calldata_word(b, head_position(source, arg_index)),
        AbiParamSource::ConstructorMemory => memory_word(b, head_position(source, arg_index)),
    }
}

/// The builder after validating an argument's head word.
pub open spec fn param_validated(
    b: BuilderView,
    source: AbiParamSource,
    arg_index: u64,
    validator: Option<AbiWordValidator>,
) -> BuilderView {
    match validator {
        Some(validator) => {
            let (b, value) = head_loaded(b, source, arg_index);
            word_checked(b, value, validator)
        },
        None => b,
    }
}

/// Whether the head word of an argument has a position.
pub open spec fn arg_index_fits(arg_index: u64) -> bool {
    EvmMemoryLayout::HEAP_START + arg_index * EvmMemoryLayout::WORD_SIZE <= u64::MAX
}

/// Validates the ABI encoding of a value-type parameter.
///
/// The check reads the raw word again instead of reusing the argument: passes
/// over the intermediate representation may assume that arguments are
/// canonical, which this validation establishes, and would fold it away.
pub fn emit_abi_param_validation<'a>(
    builder: &mut FunctionBuilder<'a>,
    source: AbiParamSource,
    arg_index: u64,
    validator: Option<AbiWordValidator>,
)
    requires
        old(builder).wf(),
        arg_index_fits(arg_index),
    ensures
        final(builder).wf(),
        final(builder)@ == param_validated(old(builder)@, source, arg_index, validator),
        extends(old(builder)@, final(builder)@),
        *final(final(builder).func) == *final(old(builder).func),
{
    proof {
        reveal(head_loaded);
    }
    if let Some(validator) = validator {
        let position: u64 = source.base() + arg_index * EvmMemoryLayout::WORD_SIZE;
        let value = match source {
            AbiParamSource::ExternalCalldata => load_calldata_word(builder, position),
            AbiParamSource::ConstructorMemory => load_memory_word(builder, position),
        };
        emit_abi_word_clean_check(builder, value, validator);
    }
}

/// The builder after copying memory through the identity precompile.
#[verifier::opaque]
pub open spec fn identity_copied(
    b: BuilderView,
    dest: ValueId,
    src: ValueId,
    len: ValueId,
) -> BuilderView {
    let gas = next_value(b.func);
    let b = emitted(b, inst(Op::Gas, seq![]), Some(MirType::uint256()));
    let identity = next_value(b.func);
    let b = constant(b, word(4));
    let ok = next_value(b.func);
    let b = emitted(
        b,
        inst(Op::StaticCall, seq![gas, identity, src, len, dest, len]),
        Some(MirType::uint256()),
    );
    let failed = next_value(b.func);
    let b = emitted(b, inst(Op::IsZero, seq![ok]), Some(MirType::Bool));
    let b = revert_if(b, failed);
    b
}

/// Copies memory through the identity precompile, which returns its input.
fn copy_through_identity<'a>(
    builder: &mut FunctionBuilder<'a>,
    dest: ValueId,
    src: ValueId,
    len: ValueId,
)
    requires
        old(builder).wf(),
        has_value(old(builder)@.func, dest),
        has_value(old(builder)@.func, src),
        has_value(old(builder)@.func, len),
    ensures
        final(builder).wf(),
        final(builder)@ == identity_copied(old(builder)@, dest, src, len),
        extends(old(builder)@, final(builder)@),
        *final(final(builder).func) == *final(old(builder).func),
{
    broadcast use group_builder_steps;

    proof {
        reveal(identity_copied);
    }
    let gas = builder.gas();
    let identity = builder.imm_u64(4);
    let ok = builder.staticcall(gas, identity, src, len, dest, len);
    let failed = builder.iszero(ok);
    emit_revert_if(builder, failed);
}

/// The builder after copying memory.
#[verifier::opaque]
pub open spec fn memory_copied(
    b: BuilderView,
    has_mcopy: bool,
    dest: ValueId,
    src: ValueId,
    len: ValueId,
) -> BuilderView {
    if has_mcopy {
        emitted(b, inst(Op::MCopy, seq![dest, src, len]), None)
    } else {
        identity_copied(b, dest, src, len)
    }
}

/// Copies `len` bytes of memory. Targets without the instruction copy through
/// the identity precompile, which copies exactly that many bytes, and revert
/// when it fails.
pub fn mcopy<'a>(
    builder: &mut FunctionBuilder<'a>,
    has_mcopy: bool,
    dest: ValueId,
    src: ValueId,
    len: ValueId,
)
    requires
        old(builder).wf(),
        has_value(old(builder)@.func, dest),
        has_value(old(builder)@.func, src),
        has_value(old(builder)@.func, len),
    ensures
        final(builder).wf(),
        final(builder)@ == memory_copied(old(builder)@, has_mcopy, dest, src, len),
        extends(old(builder)@, final(builder)@),
        *final(final(builder).func) == *final(old(builder).func),
{
    broadcast use group_builder_steps;

    proof {
        reveal(memory_copied);
    }
    if has_mcopy {
        builder.mcopy(dest, src, len);
        return;
    }
    copy_through_identity(builder, dest, src, len);
}

/// A masked word.
#[verifier::opaque]
pub open spec fn mask_applied(
    b: BuilderView,
    value: ValueId,
    mask: U256,
) -> (BuilderView, ValueId) {
    let mask_value = next_value(b.func);
    let b = constant(b, mask);
    let r_value = next_value(b.func);
    let b = emitted(b, inst(Op::And, seq![value, mask_value]), Some(MirType::uint256()));
    (b, r_value)
}

/// Masks a word.
fn apply_mask<'a>(builder: &mut FunctionBuilder<'a>, value: ValueId, mask: U256) -> (r: ValueId)
    requires
        old(builder).wf(),
        has_value(old(builder)@.func, value),
    ensures
        final(builder).wf(),
        (final(builder)@, r) == mask_applied(old(builder)@, value, mask),
        has_value(final(builder)@.func, r),
        extends(old(builder)@, final(builder)@),
        *final(final(builder).func) == *final(old(builder).func),
{
    broadcast use group_builder_steps;

    proof {
        reveal(mask_applied);
    }
    let mask_value = builder.imm_u256(mask);
    let r_value = builder.and(value, mask_value);
    r_value
}

/// A word reduced to its lowest bits. Widths that are no restriction leave the
/// word as it is.
#[verifier::opaque]
pub open spec fn masked(b: BuilderView, value: ValueId, bits: u32) -> (BuilderView, ValueId) {
    if bits == 0 || bits >= 256 {
        (b, value)
    } else {
        mask_applied(b, value, word_of(low_mask(bits as nat)))
    }
}

/// Reduces a word to its lowest bits.
pub fn mask_to_bits<'a>(
    builder: &mut FunctionBuilder<'a>,
    value: ValueId,
    bits: u32,
) -> (r: ValueId)
    requires
        old(builder).wf(),
        has_value(old(builder)@.func, value),
    ensures
        final(builder).wf(),
        (final(builder)@, r) == masked(old(builder)@, value, bits),
        has_value(final(builder)@.func, r),
        extends(old(builder)@, final(builder)@),
        *final(final(builder).func) == *final(old(builder).func),
{
    proof {
        reveal(masked);
    }
    if bits == 0 || bits >= 256 {
        return value;
    }
    let mask = low_bits(bits as usize);
    proof {
        crate::word::lemma_word_of(mask);
    }
    apply_mask(builder, value, mask)
}

/// A word shifted up and, keeping its sign, down again.
#[verifier::opaque]
pub open spec fn sign_shifted(b: BuilderView, value: ValueId, bits: u64) -> (BuilderView, ValueId) {
    let shift = next_value(b.func);
    let b = constant(b, word(bits));
    let shifted = next_value(b.func);
    let b = emitted(b, inst(Op::Shl, seq![shift, value]), Some(MirType::uint256()));
    let r_value = next_value(b.func);
    let b = emitted(b, inst(Op::Sar, seq![shift, shifted]), Some(MirType::int256()));
    (b, r_value)
}

/// Shifts a word up and, keeping its sign, down again.
fn extend_sign<'a>(builder: &mut FunctionBuilder<'a>, value: ValueId, bits: u64) -> (r: ValueId)
    requires
        old(builder).wf(),
        has_value(old(builder)@.func, value),
    ensures
        final(builder).wf(),
        (final(builder)@, r) == sign_shifted(old(builder)@, value, bits),
        has_value(final(builder)@.func, r),
        extends(old(builder)@, final(builder)@),
        *final(final(builder).func) == *final(old(builder).func),
{
    broadcast use group_builder_steps;

    proof {
        reveal(sign_shifted);
    }
    let shift = builder.imm_u64(bits);
    let shifted = builder.shl(shift, value);
    let r_value = builder.sar(shift, shifted);
    r_value
}

/// A word sign-extended from its lowest bits. Widths that are no restriction
/// leave the word as it is.
#[verifier::opaque]
pub open spec fn sign_extended(b: BuilderView, value: ValueId, bits: u32) -> (
    BuilderView,
    ValueId,
) {
    if bits == 0 || bits >= 256 {
        (b, value)
    } else {
        sign_shifted(b, value, (256 - bits) as u64)
    }
}

/// Sign-extends a word from its lowest bits.
pub fn sign_extend_to_bits<'a>(
    builder: &mut FunctionBuilder<'a>,
    value: ValueId,
    bits: u32,
) -> (r: ValueId)
    requires
        old(builder).wf(),
        has_value(old(builder)@.func, value),
    ensures
        final(builder).wf(),
        (final(builder)@, r) == sign_extended(old(builder)@, value, bits),
        has_value(final(builder)@.func, r),
        extends(old(builder)@, final(builder)@),
        *final(final(builder).func) == *final(old(builder).func),
{
    proof {
        reveal(sign_extended);
    }
    if bits == 0 || bits >= 256 {
        return value;
    }
    extend_sign(builder, value, (256 - bits) as u64)
}

/// A word reduced to its highest bytes.
#[verifier::opaque]
pub open spec fn bytes_cleaned(b: BuilderView, value: ValueId, bytes: u8) -> (
    BuilderView,
    ValueId,
) {
    if bytes >= 32 {
        (b, value)
    } else {
        mask_applied(b, value, word_of(high_mask((256 - 8 * bytes) as nat)))
    }
}

/// Clears everything below the highest bytes of a word.
pub fn clean_fixed_bytes<'a>(
    builder: &mut FunctionBuilder<'a>,
    value: ValueId,
    bytes: u8,
) -> (r: ValueId)
    requires
        old(builder).wf(),
        has_value(old(builder)@.func, value),
    ensures
        final(builder).wf(),
        (final(builder)@, r) == bytes_cleaned(old(builder)@, value, bytes),
        has_value(final(builder)@.func, r),
        extends(old(builder)@, final(builder)@),
        *final(final(builder).func) == *final(old(builder).func),
{
    proof {
        reveal(bytes_cleaned);
    }
    if bytes >= 32 {
        return value;
    }
    let mask = high_bits((32 - bytes as usize) * 8);
    proof {
        crate::word::lemma_word_of(mask);
    }
    apply_mask(builder, value, mask)
}

/// A word shifted up.
#[verifier::opaque]
pub open spec fn shifted_left(b: BuilderView, value: ValueId, bits: u64) -> (BuilderView, ValueId) {
    let shift = next_value(b.func);
    let b = constant(b, word(bits));
    let r_value = next_value(b.func);
    let b = emitted(b, inst(Op::Shl, seq![shift, value]), Some(MirType::uint256()));
    (b, r_value)
}

/// Shifts a word up.
fn shift_left<'a>(builder: &mut FunctionBuilder<'a>, value: ValueId, bits: u64) -> (r: ValueId)
    requires
        old(builder).wf(),
        has_value(old(builder)@.func, value),
    ensures
        final(builder).wf(),
        (final(builder)@, r) == shifted_left(old(builder)@, value, bits),
        has_value(final(builder)@.func, r),
        extends(old(builder)@, final(builder)@),
        *final(final(builder).func) == *final(old(builder).func),
{
    broadcast use group_builder_steps;

    proof {
        reveal(shifted_left);
    }
    let shift = builder.imm_u64(bits);
    let r_value = builder.shl(shift, value);
    r_value
}

/// A word shifted down.
#[verifier::opaque]
pub open spec fn shifted_right(
    b: BuilderView,
    value: ValueId,
    bits: u64,
) -> (BuilderView, ValueId) {
    let shift = next_value(b.func);
    let b = constant(b, word(bits));
    let r_value = next_value(b.func);
    let b = emitted(b, inst(Op::Shr, seq![shift, value]), Some(MirType::uint256()));
    (b, r_value)
}

/// Shifts a word down.
fn shift_right<'a>(builder: &mut FunctionBuilder<'a>, value: ValueId, bits: u64) -> (r: ValueId)
    requires
        old(builder).wf(),
        has_value(old(builder)@.func, value),
    ensures
        final(builder).wf(),
        (final(builder)@, r) == shifted_right(old(builder)@, value, bits),
        has_value(final(builder)@.func, r),
        extends(old(builder)@, final(builder)@),
        *final(final(builder).func) == *final(old(builder).func),
{
    broadcast use group_builder_steps;

    proof {
        reveal(shifted_right);
    }
    let shift = builder.imm_u64(bits);
    let r_value = builder.shr(shift, value);
    r_value
}

/// A word turned into 0 or 1.
#[verifier::opaque]
pub open spec fn truth(b: BuilderView, value: ValueId) -> (BuilderView, ValueId) {
    let is_zero = next_value(b.func);
    let b = emitted(b, inst(Op::IsZero, seq![value]), Some(MirType::Bool));
    let r_value = next_value(b.func);
    let b = emitted(b, inst(Op::IsZero, seq![is_zero]), Some(MirType::Bool));
    (b, r_value)
}

/// Turns a word into 0 or 1.
pub fn truth_of<'a>(builder: &mut FunctionBuilder<'a>, value: ValueId) -> (r: ValueId)
    requires
        old(builder).wf(),
        has_value(old(builder)@.func, value),
    ensures
        final(builder).wf(),
        (final(builder)@, r) == truth(old(builder)@, value),
        has_value(final(builder)@.func, r),
        extends(old(builder)@, final(builder)@),
        *final(final(builder).func) == *final(old(builder).func),
{
    broadcast use group_builder_steps;

    proof {
        reveal(truth);
    }
    let is_zero = builder.iszero(value);
    let r_value = builder.iszero(is_zero);
    r_value
}

/// A number moved to the highest bytes of a word.
#[verifier::opaque]
pub open spec fn left_aligned(b: BuilderView, value: ValueId, bytes: u8) -> (
    BuilderView,
    ValueId,
) {
    if bytes >= 32 {
        bytes_cleaned(b, value, bytes)
    } else {
        let (b, shifted) = shifted_left(b, value, ((32 - bytes) * 8) as u64);
        bytes_cleaned(b, shifted, bytes)
    }
}

/// Moves a number to the highest bytes of a word.
pub fn shift_numeric_to_fixed_bytes<'a>(
    builder: &mut FunctionBuilder<'a>,
    value: ValueId,
    bytes: u8,
) -> (r: ValueId)
    requires
        old(builder).wf(),
        has_value(old(builder)@.func, value),
        bytes <= 32,
    ensures
        final(builder).wf(),
        (final(builder)@, r) == left_aligned(old(builder)@, value, bytes),
        has_value(final(builder)@.func, r),
        extends(old(builder)@, final(builder)@),
        *final(final(builder).func) == *final(old(builder).func),
{
    proof {
        reveal(left_aligned);
    }
    let shift_bits: u64 = (32 - bytes as u64) * 8;
    let shifted = if shift_bits == 0 {
        value
    } else {
        shift_left(builder, value, shift_bits)
    };
    clean_fixed_bytes(builder, shifted, bytes)
}

/// The first data word of a slice, read from wherever the slice lives.
#[verifier::opaque]
pub open spec fn leading_word(b: BuilderView, value: ValueId, location: SliceLocation) -> (
    BuilderView,
    ValueId,
) {
    let ptr = next_value(b.func);
    let b = emitted(b, inst(Op::SlicePtr, seq![value]), Some(MirType::uint256()));
    let op = if location is Calldata {
        Op::CalldataLoad
    } else {
        Op::MLoad
    };
    (emitted(b, inst(op, seq![ptr]), Some(MirType::uint256())), next_value(b.func))
}

/// Reads the first data word of a slice.
pub fn slice_leading_word<'a>(
    builder: &mut FunctionBuilder<'a>,
    value: ValueId,
    location: SliceLocation,
) -> (r: ValueId)
    requires
        old(builder).wf(),
        has_value(old(builder)@.func, value),
    ensures
        final(builder).wf(),
        (final(builder)@, r) == leading_word(old(builder)@, value, location),
        has_value(final(builder)@.func, r),
        extends(old(builder)@, final(builder)@),
        *final(final(builder).func) == *final(old(builder).func),
{
    broadcast use group_builder_steps;

    proof {
        reveal(leading_word);
    }
    let ptr = builder.slice_ptr(value);
    match location {
        SliceLocation::Calldata => builder.calldataload(ptr),
        _ => builder.mload(ptr),
    }
}

/// What is known of the operand of a conversion.
#[derive(Clone, Copy, Debug, PartialEq, Eq, Structural)]
pub struct ConversionSource {
    /// The width of its fixed-size bytes type.
    pub fixed_bytes: Option<u8>,
    /// Where its bytes are, if its value is a slice.
    pub slice: Option<SliceLocation>,
}

/// Whether values of a type are numbers.
pub open spec fn is_number(elem: ElementaryType) -> bool {
    elem is UInt || elem is Int || elem is Address
}

/// The operand of a conversion to a number: fixed-size bytes are moved down.
pub open spec fn as_number(
    b: BuilderView,
    elem: ElementaryType,
    source: ConversionSource,
    value: ValueId,
) -> (BuilderView, ValueId) {
    match source.fixed_bytes {
        Some(width) if is_number(elem) && width < 32 => shifted_right(
            b,
            value,
            ((32 - width) * 8) as u64,
        ),
        _ => (b, value),
    }
}

/// The result of converting a value to an elementary type.
pub open spec fn converted(
    b: BuilderView,
    elem: ElementaryType,
    source: ConversionSource,
    value: ValueId,
) -> (BuilderView, ValueId) {
    let (b, value) = as_number(b, elem, source, value);
    match elem {
        ElementaryType::Bool => truth(b, value),
        ElementaryType::Address(_) => masked(b, value, 160),
        ElementaryType::UInt(bits) => masked(b, value, bits as u32),
        ElementaryType::Int(bits) => sign_extended(b, value, bits as u32),
        ElementaryType::FixedBytes(bytes) => match source.slice {
            Some(location) => {
                let (b, first) = leading_word(b, value, location);
                bytes_cleaned(b, first, bytes)
            },
            None => if source.fixed_bytes is Some {
                bytes_cleaned(b, value, bytes)
            } else {
                left_aligned(b, value, bytes)
            },
        },
        _ => (b, value),
    }
}

/// Converts a value to an elementary type.
///
/// A fixed-bytes source is left-aligned. When the target is a number, those
/// bytes are reinterpreted as a right-aligned number, so they move down first.
pub fn lower_elementary_type_conversion<'a>(
    builder: &mut FunctionBuilder<'a>,
    elem: ElementaryType,
    source: ConversionSource,
    value: ValueId,
) -> (r: ValueId)
    requires
        old(builder).wf(),
        has_value(old(builder)@.func, value),
        source.fixed_bytes matches Some(width) ==> width <= 32,
        elem matches ElementaryType::FixedBytes(bytes) ==> bytes <= 32,
    ensures
        final(builder).wf(),
        (final(builder)@, r) == converted(old(builder)@, elem, source, value),
        has_value(final(builder)@.func, r),
        extends(old(builder)@, final(builder)@),
        *final(final(builder).func) == *final(old(builder).func),
{
    let number = matches!(
        elem,
        ElementaryType::UInt(_) | ElementaryType::Int(_) | ElementaryType::Address(_)
    );
    let value = match source.fixed_bytes {
        Some(width) => if number && width < 32 {
            shift_right(builder, value, (32 - width as u64) * 8)
        } else {
            value
        },
        None => value,
    };
    match elem {
        ElementaryType::Bool => truth_of(builder, value),
        ElementaryType::Address(_) => mask_to_bits(builder, value, 160),
        ElementaryType::UInt(bits) => mask_to_bits(builder, value, bits as u32),
        ElementaryType::Int(bits) => sign_extend_to_bits(builder, value, bits as u32),
        ElementaryType::FixedBytes(bytes) => match source.slice {
            Some(location) => {
                let first = slice_leading_word(builder, value, location);
                clean_fixed_bytes(builder, first, bytes)
            },
            None => if source.fixed_bytes.is_some() {
                clean_fixed_bytes(builder, value, bytes)
            } else {
                shift_numeric_to_fixed_bytes(builder, value, bytes)
            },
        },
        _ => value,
    }
}

/// What converting a value to a type comes to: the result, and the number of
/// variants that it is still to be checked against where the type is an enum.
pub open spec fn conversion(
    b: BuilderView,
    hir: Hir,
    ty: TypeKind,
    source: ConversionSource,
    value: ValueId,
) -> ((BuilderView, ValueId), Option<usize>) {
    match ty {
        TypeKind::Elementary(elem) => (converted(b, elem, source, value), None),
        TypeKind::Custom(ItemId::Enum(id)) => ((b, value), Some(hir.enums@[id.0 as int])),
        _ => ((b, value), None),
    }
}

/// Converts a value to a type. Returns the result, and the number of variants
/// that it is still to be checked against where the type is an enum.
pub fn lower_type_conversion<'a>(
    builder: &mut FunctionBuilder<'a>,
    hir: &Hir,
    ty: &TypeKind,
    source: ConversionSource,
    value: ValueId,
) -> (r: (ValueId, Option<usize>))
    requires
        old(builder).wf(),
        has_value(old(builder)@.func, value),
        source.fixed_bytes matches Some(width) ==> width <= 32,
        *ty matches TypeKind::Elementary(ElementaryType::FixedBytes(bytes)) ==> bytes <= 32,
        *ty matches TypeKind::Custom(ItemId::Enum(id)) ==> id.0 < hir.enums@.len(),
    ensures
        final(builder).wf(),
        ((final(builder)@, r.0), r.1) == conversion(old(builder)@, *hir, *ty, source, value),
        has_value(final(builder)@.func, r.0),
        extends(old(builder)@, final(builder)@),
        *final(final(builder).func) == *final(old(builder).func),
{
    match ty {
        TypeKind::Elementary(elem) => {
            (lower_elementary_type_conversion(builder, *elem, source, value), None)
        },
        TypeKind::Custom(ItemId::Enum(id)) => (value, Some(hir.enums[id.0])),
        _ => (value, None),
    }
}

/// A word reduced to the values of an elementary type.
pub open spec fn cleaned(b: BuilderView, elem: ElementaryType, value: ValueId) -> (
    BuilderView,
    ValueId,
) {
    match elem {
        ElementaryType::Bool => truth(b, value),
        ElementaryType::Address(_) => masked(b, value, 160),
        ElementaryType::UInt(bits) => masked(b, value, bits as u32),
        ElementaryType::Int(bits) => sign_extended(b, value, bits as u32),
        ElementaryType::FixedBytes(bytes) => bytes_cleaned(b, value, bytes),
        _ => (b, value),
    }
}

/// The builder after a revert for when two words differ.
pub open spec fn difference_reverted(
    b: BuilderView,
    value: ValueId,
    clean: ValueId,
) -> BuilderView {
    let is_clean = next_value(b.func);
    let b = emitted(b, inst(Op::Eq, seq![value, clean]), Some(MirType::Bool));
    let is_dirty = next_value(b.func);
    let b = emitted(b, inst(Op::IsZero, seq![is_clean]), Some(MirType::Bool));
    decode_revert_if(b, is_dirty)
}

/// A decoded word of an elementary type: it reverts unless the word is clean.
#[verifier::opaque]
pub open spec fn word_decoded(b: BuilderView, elem: ElementaryType, value: ValueId) -> (
    BuilderView,
    ValueId,
) {
    let (b, clean) = cleaned(b, elem, value);
    if clean != value {
        (difference_reverted(b, value, clean), clean)
    } else {
        (b, clean)
    }
}

/// Decodes a word of an elementary type, reverting unless it is clean.
pub fn lower_abi_decode_word<'a>(
    builder: &mut FunctionBuilder<'a>,
    elem: ElementaryType,
    value: ValueId,
) -> (r: ValueId)
    requires
        old(builder).wf(),
        has_value(old(builder)@.func, value),
    ensures
        final(builder).wf(),
        (final(builder)@, r) == word_decoded(old(builder)@, elem, value),
        has_value(final(builder)@.func, r),
        extends(old(builder)@, final(builder)@),
        *final(final(builder).func) == *final(old(builder).func),
{
    broadcast use group_builder_steps;

    proof {
        reveal(word_decoded);
    }
    let clean = match elem {
        ElementaryType::Bool => truth_of(builder, value),
        ElementaryType::Address(_) => mask_to_bits(builder, value, 160),
        ElementaryType::UInt(bits) => mask_to_bits(builder, value, bits as u32),
        ElementaryType::Int(bits) => sign_extend_to_bits(builder, value, bits as u32),
        ElementaryType::FixedBytes(bytes) => clean_fixed_bytes(builder, value, bytes),
        _ => value,
    };
    if clean != value {
        let is_clean = builder.eq(value, clean);
        let is_dirty = builder.iszero(is_clean);
        emit_abi_decode_revert_if(builder, is_dirty);
    }
    clean
}

} // verus!
