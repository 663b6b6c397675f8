//! Branches, loops and slices.

use crate::lower::emit::{emit_revert_if, extends, revert_if};
use crate::lower::objects::{
    buffer_base, load_multi_return_value, loaded_at, multi_return_buffer_base,
};
use crate::lower::plan_names::{is_calldata_slice, value_is_calldata_slice};
use crate::mir::builder::{
    blocked, constant, emitted, ended, group_builder_steps, moved, valued, word, BuilderView,
    FunctionBuilder,
};
use crate::mir::function::{has_block, has_value, next_block, next_value};
use crate::mir::inst::{inst, operands_of, KindView, Op, TermView};
use crate::mir::types::{
    BlockId, Immediate, MemoryObjectKind, MirType, SliceLocation, Value, ValueId,
};
use vstd::prelude::*;

verus! {

/// Whether the current block has its way out.
pub open spec fn terminated(b: BuilderView) -> bool {
    b.func.blocks[b.block.0 as int].terminator is Some
}

/// Whether the current block has its way out.
pub fn is_terminated<'a>(builder: &FunctionBuilder<'a>) -> (r: bool)
    requires
        builder.wf(),
    ensures
        r == terminated(builder@),
{
    builder.func.blocks[builder.current_block.0].terminator.is_some()
}

/// The builder after ending a block with a jump, unless it has a way out.
pub open spec fn arm_ended(b: BuilderView, target: BlockId) -> BuilderView {
    if terminated(b) {
        b
    } else {
        ended(b, TermView::Jump(target))
    }
}

/// Ends the current block with a jump, unless it has a way out.
pub fn finish_arm<'a>(builder: &mut FunctionBuilder<'a>, target: BlockId)
    requires
        old(builder).wf(),
        has_block(old(builder)@.func, target),
    ensures
        final(builder).wf(),
        final(builder)@ == arm_ended(old(builder)@, target),
        extends(old(builder)@, final(builder)@),
        *final(final(builder).func) == *final(old(builder).func),
{
    broadcast use group_builder_steps;

    if !is_terminated(builder) {
        builder.jump(target);
    }
}

/// The branch on the left operand of `&&`: where it came from, and where both
/// operands meet.
#[verifier::opaque]
pub open spec fn and_begun(b: BuilderView, lhs: ValueId) -> (BuilderView, (BlockId, BlockId)) {
    let pred_block = b.block;
    let rhs_block = next_block(b.func);
    let b = blocked(b);
    let merge_block = next_block(b.func);
    let b = blocked(b);
    let b = ended(
        b,
        TermView::Branch { condition: lhs, then_block: rhs_block, else_block: merge_block },
    );
    let b = moved(b, rhs_block);
    (b, (pred_block, merge_block))
}

/// Branches so that the right operand of `&&` runs when the left one holds.
fn begin_and<'a>(builder: &mut FunctionBuilder<'a>, lhs: ValueId) -> (r: (BlockId, BlockId))
    requires
        old(builder).wf(),
        has_value(old(builder)@.func, lhs),
    ensures
        final(builder).wf(),
        (final(builder)@, r) == and_begun(old(builder)@, lhs),
        has_block(final(builder)@.func, r.0),
        has_block(final(builder)@.func, r.1),
        extends(old(builder)@, final(builder)@),
        *final(final(builder).func) == *final(old(builder).func),
{
    broadcast use group_builder_steps;

    proof {
        reveal(and_begun);
    }
    let pred_block = builder.current_block();
    let rhs_block = builder.create_block();
    let merge_block = builder.create_block();
    builder.branch(lhs, rhs_block, merge_block);
    builder.switch_to_block(rhs_block);
    (pred_block, merge_block)
}

/// The branch on the left operand of `||`: where it came from, and where both
/// operands meet.
#[verifier::opaque]
pub open spec fn or_begun(b: BuilderView, lhs: ValueId) -> (BuilderView, (BlockId, BlockId)) {
    let pred_block = b.block;
    let rhs_block = next_block(b.func);
    let b = blocked(b);
    let merge_block = next_block(b.func);
    let b = blocked(b);
    let b = ended(
        b,
        TermView::Branch { condition: lhs, then_block: merge_block, else_block: rhs_block },
    );
    let b = moved(b, rhs_block);
    (b, (pred_block, merge_block))
}

/// Branches so that the right operand of `||` runs when the left one does not hold.
fn begin_or<'a>(builder: &mut FunctionBuilder<'a>, lhs: ValueId) -> (r: (BlockId, BlockId))
    requires
        old(builder).wf(),
        has_value(old(builder)@.func, lhs),
    ensures
        final(builder).wf(),
        (final(builder)@, r) == or_begun(old(builder)@, lhs),
        has_block(final(builder)@.func, r.0),
        has_block(final(builder)@.func, r.1),
        extends(old(builder)@, final(builder)@),
        *final(final(builder).func) == *final(old(builder).func),
{
    broadcast use group_builder_steps;

    proof {
        reveal(or_begun);
    }
    let pred_block = builder.current_block();
    let rhs_block = builder.create_block();
    let merge_block = builder.create_block();
    builder.branch(lhs, merge_block, rhs_block);
    builder.switch_to_block(rhs_block);
    (pred_block, merge_block)
}

/// The branch on the left operand of `&&` or `||`.
pub open spec fn short_circuit_begun(b: BuilderView, lhs: ValueId, is_and: bool) -> (
    BuilderView,
    (BlockId, BlockId),
) {
    if is_and {
        and_begun(b, lhs)
    } else {
        or_begun(b, lhs)
    }
}

/// Branches on the left operand of `&&` or `||`, so that the right operand is
/// evaluated only when the left one does not decide. Returns the block that
/// branched and the block where both operands meet.
pub fn begin_short_circuit<'a>(
    builder: &mut FunctionBuilder<'a>,
    lhs: ValueId,
    is_and: bool,
) -> (r: (BlockId, BlockId))
    requires
        old(builder).wf(),
        has_value(old(builder)@.func, lhs),
    ensures
        final(builder).wf(),
        (final(builder)@, r) == short_circuit_begun(old(builder)@, lhs, is_and),
        has_block(final(builder)@.func, r.0),
        has_block(final(builder)@.func, r.1),
        extends(old(builder)@, final(builder)@),
        *final(final(builder).func) == *final(old(builder).func),
{
    if is_and {
        begin_and(builder, lhs)
    } else {
        begin_or(builder, lhs)
    }
}

/// The edges into the block where both operands of `&&` or `||` meet.
pub open spec fn short_circuit_edges(
    pred: BlockId,
    decided: ValueId,
    rhs_end: BlockId,
    rhs: ValueId,
    rhs_terminated: bool,
) -> Seq<(BlockId, ValueId)> {
    if rhs_terminated {
        seq![(pred, decided)]
    } else {
        seq![(pred, decided), (rhs_end, rhs)]
    }
}

/// The value of `&&` or `||`: `a && b` is false when `a` is false, and `a || b`
/// is true when `a` is true.
#[verifier::opaque]
pub open spec fn short_circuit_ended(
    b: BuilderView,
    blocks: (BlockId, BlockId),
    rhs: ValueId,
    is_and: bool,
) -> (BuilderView, ValueId) {
    let rhs_end = b.block;
    let rhs_terminated = terminated(b);
    let b = moved(arm_ended(b, blocks.1), blocks.1);
    let decided = next_value(b.func);
    let b = valued(b, Value::Immediate(Immediate::Bool(!is_and)));
    (
        emitted(
            b,
            KindView::Phi(short_circuit_edges(blocks.0, decided, rhs_end, rhs, rhs_terminated)),
            Some(MirType::uint256()),
        ),
        next_value(b.func),
    )
}

/// Joins the operands of `&&` or `||`.
pub fn end_short_circuit<'a>(
    builder: &mut FunctionBuilder<'a>,
    blocks: (BlockId, BlockId),
    rhs: ValueId,
    is_and: bool,
) -> (r: ValueId)
    requires
        old(builder).wf(),
        has_value(old(builder)@.func, rhs),
        has_block(old(builder)@.func, blocks.0),
        has_block(old(builder)@.func, blocks.1),
    ensures
        final(builder).wf(),
        (final(builder)@, r) == short_circuit_ended(old(builder)@, blocks, rhs, is_and),
        has_value(final(builder)@.func, r),
        extends(old(builder)@, final(builder)@),
        *final(final(builder).func) == *final(old(builder).func),
{
    broadcast use group_builder_steps;

    proof {
        reveal(short_circuit_ended);
    }
    let rhs_end = builder.current_block();
    let rhs_terminated = is_terminated(builder);
    finish_arm(builder, blocks.1);
    builder.switch_to_block(blocks.1);
    let decided = builder.imm_bool(!is_and);
    let mut incoming: Vec<(BlockId, ValueId)> = vec![(blocks.0, decided)];
    if !rhs_terminated {
        incoming.push((rhs_end, rhs));
    }
    assert(incoming@ =~= short_circuit_edges(blocks.0, decided, rhs_end, rhs, rhs_terminated));
    proof {
        let kind = KindView::Phi(incoming@);
        assert(operands_of(kind).len() == incoming@.len());
        assert forall|i: int| 0 <= i < operands_of(kind).len() implies has_value(
            builder@.func,
            #[trigger] operands_of(kind)[i],
        ) by {
            assert(operands_of(kind)[i] == incoming@[i].1);
        }
    }
    builder.phi(incoming)
}

/// A branch to two arms: the other arm, and the block where both meet.
#[verifier::opaque]
pub open spec fn arms_begun(b: BuilderView, cond: ValueId) -> (BuilderView, (BlockId, BlockId)) {
    let then_block = next_block(b.func);
    let b = blocked(b);
    let else_block = next_block(b.func);
    let b = blocked(b);
    let merge_block = next_block(b.func);
    let b = blocked(b);
    let b = ended(
        b,
        TermView::Branch { condition: cond, then_block: then_block, else_block: else_block },
    );
    let b = moved(b, then_block);
    (b, (else_block, merge_block))
}

/// Branches to two arms and moves to the first; returns the other arm and the
/// block where both meet.
pub fn begin_arms<'a>(builder: &mut FunctionBuilder<'a>, cond: ValueId) -> (r: (BlockId, BlockId))
    requires
        old(builder).wf(),
        has_value(old(builder)@.func, cond),
    ensures
        final(builder).wf(),
        (final(builder)@, r) == arms_begun(old(builder)@, cond),
        has_block(final(builder)@.func, r.0),
        has_block(final(builder)@.func, r.1),
        extends(old(builder)@, final(builder)@),
        *final(final(builder).func) == *final(old(builder).func),
{
    broadcast use group_builder_steps;

    proof {
        reveal(arms_begun);
    }
    let then_block = builder.create_block();
    let else_block = builder.create_block();
    let merge_block = builder.create_block();
    builder.branch(cond, then_block, else_block);
    builder.switch_to_block(then_block);
    (else_block, merge_block)
}

/// The builder after an arm of a conditional that yields a word.
#[verifier::opaque]
pub open spec fn word_arm_stored(
    b: BuilderView,
    value: ValueId,
    merge_block: BlockId,
) -> BuilderView {
    let slot = next_value(b.func);
    let b = constant(b, word(0));
    let b = emitted(b, inst(Op::MStore, seq![slot, value]), None);
    let b = ended(b, TermView::Jump(merge_block));
    b
}

/// Ends an arm of a conditional: its word goes through the first scratch word.
pub fn store_word_arm<'a>(builder: &mut FunctionBuilder<'a>, value: ValueId, merge_block: BlockId)
    requires
        old(builder).wf(),
        has_value(old(builder)@.func, value),
        has_block(old(builder)@.func, merge_block),
    ensures
        final(builder).wf(),
        final(builder)@ == word_arm_stored(old(builder)@, value, merge_block),
        extends(old(builder)@, final(builder)@),
        *final(final(builder).func) == *final(old(builder).func),
{
    broadcast use group_builder_steps;

    proof {
        reveal(word_arm_stored);
    }
    let slot = builder.imm_u64(0);
    builder.mstore(slot, value);
    builder.jump(merge_block);
}

/// The builder after an arm of a conditional that yields a slice.
#[verifier::opaque]
pub open spec fn slice_arm_stored(
    b: BuilderView,
    value: ValueId,
    merge_block: BlockId,
) -> BuilderView {
    let ptr = next_value(b.func);
    let b = emitted(b, inst(Op::SlicePtr, seq![value]), Some(MirType::uint256()));
    let len = next_value(b.func);
    let b = emitted(b, inst(Op::SliceLen, seq![value]), Some(MirType::uint256()));
    let ptr_slot = next_value(b.func);
    let b = constant(b, word(0));
    let b = emitted(b, inst(Op::MStore, seq![ptr_slot, ptr]), None);
    let len_slot = next_value(b.func);
    let b = constant(b, word(32));
    let b = emitted(b, inst(Op::MStore, seq![len_slot, len]), None);
    let b = ended(b, TermView::Jump(merge_block));
    b
}

/// Ends an arm of a conditional: its slice goes through both scratch words.
pub fn store_slice_arm<'a>(builder: &mut FunctionBuilder<'a>, value: ValueId, merge_block: BlockId)
    requires
        old(builder).wf(),
        has_value(old(builder)@.func, value),
        has_block(old(builder)@.func, merge_block),
    ensures
        final(builder).wf(),
        final(builder)@ == slice_arm_stored(old(builder)@, value, merge_block),
        extends(old(builder)@, final(builder)@),
        *final(final(builder).func) == *final(old(builder).func),
{
    broadcast use group_builder_steps;

    proof {
        reveal(slice_arm_stored);
    }
    let ptr = builder.slice_ptr(value);
    let len = builder.slice_len(value);
    let ptr_slot = builder.imm_u64(0);
    builder.mstore(ptr_slot, ptr);
    let len_slot = builder.imm_u64(32);
    builder.mstore(len_slot, len);
    builder.jump(merge_block);
}

/// The word that the arms of a conditional left.
#[verifier::opaque]
pub open spec fn word_result(b: BuilderView, merge_block: BlockId) -> (BuilderView, ValueId) {
    let b = moved(b, merge_block);
    let slot = next_value(b.func);
    let b = constant(b, word(0));
    let value = next_value(b.func);
    let b = emitted(b, inst(Op::MLoad, seq![slot]), Some(MirType::uint256()));
    (b, value)
}

/// Takes up the word that the arms of a conditional left.
pub fn load_word_result<'a>(builder: &mut FunctionBuilder<'a>, merge_block: BlockId) -> (r: ValueId)
    requires
        old(builder).wf(),
        has_block(old(builder)@.func, merge_block),
    ensures
        final(builder).wf(),
        (final(builder)@, r) == word_result(old(builder)@, merge_block),
        has_value(final(builder)@.func, r),
        extends(old(builder)@, final(builder)@),
        *final(final(builder).func) == *final(old(builder).func),
{
    broadcast use group_builder_steps;

    proof {
        reveal(word_result);
    }
    builder.switch_to_block(merge_block);
    let slot = builder.imm_u64(0);
    let value = builder.mload(slot);
    value
}

/// The slice that the arms of a conditional left.
#[verifier::opaque]
pub open spec fn slice_result(
    b: BuilderView,
    merge_block: BlockId,
    location: SliceLocation,
) -> (BuilderView, ValueId) {
    let b = moved(b, merge_block);
    let ptr_slot = next_value(b.func);
    let b = constant(b, word(0));
    let ptr = next_value(b.func);
    let b = emitted(b, inst(Op::MLoad, seq![ptr_slot]), Some(MirType::uint256()));
    let len_slot = next_value(b.func);
    let b = constant(b, word(32));
    let len = next_value(b.func);
    let b = emitted(b, inst(Op::MLoad, seq![len_slot]), Some(MirType::uint256()));
    let value = next_value(b.func);
    let b = emitted(
        b,
        inst(Op::MakeSlice { location: location }, seq![ptr, len]),
        Some(MirType::Slice(location)),
    );
    (b, value)
}

/// Takes up the slice that the arms of a conditional left.
pub fn load_slice_result<'a>(
    builder: &mut FunctionBuilder<'a>,
    merge_block: BlockId,
    location: SliceLocation,
) -> (r: ValueId)
    requires
        old(builder).wf(),
        has_block(old(builder)@.func, merge_block),
    ensures
        final(builder).wf(),
        (final(builder)@, r) == slice_result(old(builder)@, merge_block, location),
        has_value(final(builder)@.func, r),
        extends(old(builder)@, final(builder)@),
        *final(final(builder).func) == *final(old(builder).func),
{
    broadcast use group_builder_steps;

    proof {
        reveal(slice_result);
    }
    builder.switch_to_block(merge_block);
    let ptr_slot = builder.imm_u64(0);
    let ptr = builder.mload(ptr_slot);
    let len_slot = builder.imm_u64(32);
    let len = builder.mload(len_slot);
    let value = builder.make_slice(ptr, len, location);
    value
}

/// The first of the values that the arms of a conditional staged.
pub open spec fn tuple_result(b: BuilderView, merge_block: BlockId) -> (BuilderView, ValueId) {
    let (b, base) = buffer_base(moved(b, merge_block));
    loaded_at(b, base, 0)
}

/// Takes up the first of the values that the arms of a conditional staged.
pub fn load_tuple_result<'a>(builder: &mut FunctionBuilder<'a>, merge_block: BlockId) -> (r:
    ValueId)
    requires
        old(builder).wf(),
        has_block(old(builder)@.func, merge_block),
    ensures
        final(builder).wf(),
        (final(builder)@, r) == tuple_result(old(builder)@, merge_block),
        has_value(final(builder)@.func, r),
        extends(old(builder)@, final(builder)@),
        *final(final(builder).func) == *final(old(builder).func),
{
    broadcast use group_builder_steps;

    builder.switch_to_block(merge_block);
    let base = multi_return_buffer_base(builder);
    load_multi_return_value(builder, base, 0)
}

/// The branch of a conditional statement: the block of the other arm, which is
/// the block where the arms meet if there is no other arm.
#[verifier::opaque]
pub open spec fn if_begun(b: BuilderView, cond: ValueId, has_else: bool) -> (
    BuilderView,
    (BlockId, BlockId),
) {
    let then_block = next_block(b.func);
    let b = blocked(b);
    let merge_block = next_block(b.func);
    let b = blocked(b);
    let else_block = if has_else {
        next_block(b.func)
    } else {
        merge_block
    };
    let b = if has_else {
        blocked(b)
    } else {
        b
    };
    let b = ended(b, TermView::Branch { condition: cond, then_block, else_block });
    (moved(b, then_block), (else_block, merge_block))
}

/// Branches on the condition of an `if` and moves to its first arm. Returns the
/// block of the other arm and the block where the arms meet.
pub fn begin_if<'a>(
    builder: &mut FunctionBuilder<'a>,
    cond: ValueId,
    has_else: bool,
) -> (r: (BlockId, BlockId))
    requires
        old(builder).wf(),
        has_value(old(builder)@.func, cond),
    ensures
        final(builder).wf(),
        (final(builder)@, r) == if_begun(old(builder)@, cond, has_else),
        has_block(final(builder)@.func, r.0),
        has_block(final(builder)@.func, r.1),
        extends(old(builder)@, final(builder)@),
        *final(final(builder).func) == *final(old(builder).func),
{
    broadcast use group_builder_steps;

    proof {
        reveal(if_begun);
    }
    let then_block = builder.create_block();
    let merge_block = builder.create_block();
    let else_block = if has_else {
        builder.create_block()
    } else {
        merge_block
    };
    builder.branch(cond, then_block, else_block);
    builder.switch_to_block(then_block);
    (else_block, merge_block)
}

/// The blocks of a loop.
#[derive(Clone, Copy, Debug, PartialEq, Eq, Structural)]
pub struct LoopBlocks {
    /// Where every turn starts.
    pub start: BlockId,
    /// Where the loop is left to.
    pub exit: BlockId,
    /// Where `continue` goes: the update of a `for` loop, or the start.
    pub next: BlockId,
}

/// The entry of a loop.
#[verifier::opaque]
pub open spec fn loop_begun(b: BuilderView, has_update: bool) -> (BuilderView, LoopBlocks) {
    let start = next_block(b.func);
    let b = blocked(b);
    let exit = next_block(b.func);
    let b = blocked(b);
    let next = if has_update {
        next_block(b.func)
    } else {
        start
    };
    let b = if has_update {
        blocked(b)
    } else {
        b
    };
    (moved(ended(b, TermView::Jump(start)), start), LoopBlocks { start, exit, next })
}

/// Enters a loop. A `for` loop with an update has a block of its own for it, so
/// that `continue` runs it.
pub fn begin_loop<'a>(builder: &mut FunctionBuilder<'a>, has_update: bool) -> (r: LoopBlocks)
    requires
        old(builder).wf(),
    ensures
        final(builder).wf(),
        (final(builder)@, r) == loop_begun(old(builder)@, has_update),
        has_block(final(builder)@.func, r.start),
        has_block(final(builder)@.func, r.exit),
        has_block(final(builder)@.func, r.next),
        extends(old(builder)@, final(builder)@),
        *final(final(builder).func) == *final(old(builder).func),
{
    broadcast use group_builder_steps;

    proof {
        reveal(loop_begun);
    }
    let start = builder.create_block();
    let exit = builder.create_block();
    let next = if has_update {
        builder.create_block()
    } else {
        start
    };
    builder.jump(start);
    builder.switch_to_block(start);
    LoopBlocks { start, exit, next }
}

/// The blocks for the turn and the end of a `for` loop.
#[verifier::opaque]
pub open spec fn for_body_begun(b: BuilderView) -> (BuilderView, (BlockId, BlockId)) {
    let then_block = next_block(b.func);
    let b = blocked(b);
    let else_block = next_block(b.func);
    let b = blocked(b);
    (b, (then_block, else_block))
}

/// Creates the blocks for the turn and the end of a `for` loop.
pub fn begin_for_body<'a>(builder: &mut FunctionBuilder<'a>) -> (r: (BlockId, BlockId))
    requires
        old(builder).wf(),
    ensures
        final(builder).wf(),
        (final(builder)@, r) == for_body_begun(old(builder)@),
        has_block(final(builder)@.func, r.0),
        has_block(final(builder)@.func, r.1),
        extends(old(builder)@, final(builder)@),
        *final(final(builder).func) == *final(old(builder).func),
{
    broadcast use group_builder_steps;

    proof {
        reveal(for_body_begun);
    }
    let then_block = builder.create_block();
    let else_block = builder.create_block();
    (then_block, else_block)
}

/// The builder after the condition of a `for` loop.
#[verifier::opaque]
pub open spec fn for_body_branched(
    b: BuilderView,
    cond: ValueId,
    then_block: BlockId,
    else_block: BlockId,
) -> BuilderView {
    let b = ended(
        b,
        TermView::Branch { condition: cond, then_block: then_block, else_block: else_block },
    );
    let b = moved(b, then_block);
    b
}

/// Branches on the condition of a `for` loop and moves to its turn.
pub fn branch_for_body<'a>(
    builder: &mut FunctionBuilder<'a>,
    cond: ValueId,
    then_block: BlockId,
    else_block: BlockId,
)
    requires
        old(builder).wf(),
        has_value(old(builder)@.func, cond),
        has_block(old(builder)@.func, then_block),
        has_block(old(builder)@.func, else_block),
    ensures
        final(builder).wf(),
        final(builder)@ == for_body_branched(old(builder)@, cond, then_block, else_block),
        extends(old(builder)@, final(builder)@),
        *final(final(builder).func) == *final(old(builder).func),
{
    broadcast use group_builder_steps;

    proof {
        reveal(for_body_branched);
    }
    builder.branch(cond, then_block, else_block);
    builder.switch_to_block(then_block);
}

/// The slice of a whole object in memory.
#[verifier::opaque]
pub open spec fn memory_slice(
    b: BuilderView,
    value: ValueId,
    kind: MemoryObjectKind,
) -> (BuilderView, ValueId) {
    let len = next_value(b.func);
    let b = emitted(
        b,
        inst(Op::MemoryObjectLen { kind: kind }, seq![value]),
        Some(MirType::uint256()),
    );
    let data = next_value(b.func);
    let b = emitted(
        b,
        inst(Op::MemoryObjectData { kind: kind }, seq![value]),
        Some(MirType::MemPtr),
    );
    let slice = next_value(b.func);
    let b = emitted(
        b,
        inst(Op::MakeSlice { location: SliceLocation::Memory }, seq![data, len]),
        Some(MirType::Slice(SliceLocation::Memory)),
    );
    (b, slice)
}

/// Builds the slice of a whole object in memory.
fn memory_slice_of<'a>(
    builder: &mut FunctionBuilder<'a>,
    value: ValueId,
    kind: MemoryObjectKind,
) -> (r: ValueId)
    requires
        old(builder).wf(),
        has_value(old(builder)@.func, value),
    ensures
        final(builder).wf(),
        (final(builder)@, r) == memory_slice(old(builder)@, value, kind),
        has_value(final(builder)@.func, r),
        extends(old(builder)@, final(builder)@),
        *final(final(builder).func) == *final(old(builder).func),
{
    broadcast use group_builder_steps;

    proof {
        reveal(memory_slice);
    }
    let len = builder.memory_object_len(value, kind);
    let data = builder.memory_object_data(value, kind);
    let slice = builder.make_slice(data, len, SliceLocation::Memory);
    slice
}

/// The pointer and length of a slice.
#[verifier::opaque]
pub open spec fn parts_taken(b: BuilderView, slice: ValueId) -> (BuilderView, (ValueId, ValueId)) {
    let base_ptr = next_value(b.func);
    let b = emitted(b, inst(Op::SlicePtr, seq![slice]), Some(MirType::uint256()));
    let base_len = next_value(b.func);
    let b = emitted(b, inst(Op::SliceLen, seq![slice]), Some(MirType::uint256()));
    (b, (base_ptr, base_len))
}

/// Takes a slice apart into its pointer and length.
fn slice_parts<'a>(builder: &mut FunctionBuilder<'a>, slice: ValueId) -> (r: (ValueId, ValueId))
    requires
        old(builder).wf(),
        has_value(old(builder)@.func, slice),
    ensures
        final(builder).wf(),
        (final(builder)@, r) == parts_taken(old(builder)@, slice),
        has_value(final(builder)@.func, r.0),
        has_value(final(builder)@.func, r.1),
        extends(old(builder)@, final(builder)@),
        *final(final(builder).func) == *final(old(builder).func),
{
    broadcast use group_builder_steps;

    proof {
        reveal(parts_taken);
    }
    let base_ptr = builder.slice_ptr(slice);
    let base_len = builder.slice_len(slice);
    (base_ptr, base_len)
}

/// What is sliced.
#[derive(Clone, Copy, Debug, PartialEq, Eq, Structural)]
pub struct SliceSource {
    /// Where it starts.
    pub ptr: ValueId,
    /// How long it is.
    pub len: ValueId,
    /// Where it is.
    pub location: SliceLocation,
}

/// Why something cannot be sliced.
#[derive(Clone, Copy, Debug, PartialEq, Eq, Structural)]
pub enum SliceProblem {
    /// It is neither bytes nor an array.
    Other,
    /// It is an array in the call data whose elements vary in size: their
    /// offsets are relative to the start of the array, which a slice of it does
    /// not know.
    DynamicElements,
}

/// The source of a slice: the value itself if it is a slice of the call data,
/// or the whole object that it points to.
pub open spec fn slice_source(
    b: BuilderView,
    value: ValueId,
    is_bytes: bool,
    is_array: bool,
    word_elements: bool,
) -> Result<(BuilderView, SliceSource), SliceProblem> {
    if is_calldata_slice(b.func, value) {
        if !is_bytes && is_array && !word_elements {
            Err(SliceProblem::DynamicElements)
        } else {
            let (b, parts) = parts_taken(b, value);
            Ok((b, SliceSource { ptr: parts.0, len: parts.1, location: SliceLocation::Calldata }))
        }
    } else if is_bytes || is_array {
        let kind = if is_bytes {
            MemoryObjectKind::Bytes
        } else {
            MemoryObjectKind::DynamicArray
        };
        let (b, slice) = memory_slice(b, value, kind);
        let (b, parts) = parts_taken(b, slice);
        Ok((b, SliceSource { ptr: parts.0, len: parts.1, location: SliceLocation::Memory }))
    } else {
        Err(SliceProblem::Other)
    }
}

/// Takes what is sliced apart into its pointer and length.
pub fn open_slice<'a>(
    builder: &mut FunctionBuilder<'a>,
    value: ValueId,
    is_bytes: bool,
    is_array: bool,
    word_elements: bool,
) -> (r: Result<SliceSource, SliceProblem>)
    requires
        old(builder).wf(),
        has_value(old(builder)@.func, value),
    ensures
        final(builder).wf(),
        match slice_source(old(builder)@, value, is_bytes, is_array, word_elements) {
            Ok((b, source)) => final(builder)@ == b && r == Ok::<_, SliceProblem>(source),
            Err(problem) => final(builder)@ == old(builder)@ && r == Err::<SliceSource, _>(problem),
        },
        r matches Ok(source) ==> has_value(final(builder)@.func, source.ptr) && has_value(
            final(builder)@.func,
            source.len,
        ),
        extends(old(builder)@, final(builder)@),
        *final(final(builder).func) == *final(old(builder).func),
{
    if value_is_calldata_slice(builder.func, value) {
        if !is_bytes && is_array && !word_elements {
            return Err(SliceProblem::DynamicElements);
        }
        let parts = slice_parts(builder, value);
        Ok(SliceSource { ptr: parts.0, len: parts.1, location: SliceLocation::Calldata })
    } else if is_bytes || is_array {
        let kind = if is_bytes {
            MemoryObjectKind::Bytes
        } else {
            MemoryObjectKind::DynamicArray
        };
        let slice = memory_slice_of(builder, value, kind);
        let parts = slice_parts(builder, slice);
        Ok(SliceSource { ptr: parts.0, len: parts.1, location: SliceLocation::Memory })
    } else {
        Err(SliceProblem::Other)
    }
}

/// The builder after checking the end of a slice.
#[verifier::opaque]
pub open spec fn slice_end_checked(b: BuilderView, end: ValueId, len: ValueId) -> BuilderView {
    let out_of_bounds = next_value(b.func);
    let b = emitted(b, inst(Op::Gt, seq![end, len]), Some(MirType::Bool));
    let b = revert_if(b, out_of_bounds);
    b
}

/// Reverts when a slice ends after what it is cut from.
fn check_slice_end<'a>(builder: &mut FunctionBuilder<'a>, end: ValueId, len: ValueId)
    requires
        old(builder).wf(),
        has_value(old(builder)@.func, end),
        has_value(old(builder)@.func, len),
    ensures
        final(builder).wf(),
        final(builder)@ == slice_end_checked(old(builder)@, end, len),
        extends(old(builder)@, final(builder)@),
        *final(final(builder).func) == *final(old(builder).func),
{
    broadcast use group_builder_steps;

    proof {
        reveal(slice_end_checked);
    }
    let out_of_bounds = builder.gt(end, len);
    emit_revert_if(builder, out_of_bounds);
}

/// The length of a slice that does not end before it starts.
#[verifier::opaque]
pub open spec fn slice_order_checked(
    b: BuilderView,
    start: ValueId,
    end: ValueId,
) -> (BuilderView, ValueId) {
    let backwards = next_value(b.func);
    let b = emitted(b, inst(Op::Lt, seq![end, start]), Some(MirType::Bool));
    let b = revert_if(b, backwards);
    let len = next_value(b.func);
    let b = emitted(b, inst(Op::Sub, seq![end, start]), Some(MirType::uint256()));
    (b, len)
}

/// Reverts when a slice ends before it starts; returns its length.
fn check_slice_order<'a>(
    builder: &mut FunctionBuilder<'a>,
    start: ValueId,
    end: ValueId,
) -> (r: ValueId)
    requires
        old(builder).wf(),
        has_value(old(builder)@.func, start),
        has_value(old(builder)@.func, end),
    ensures
        final(builder).wf(),
        (final(builder)@, r) == slice_order_checked(old(builder)@, start, end),
        has_value(final(builder)@.func, r),
        extends(old(builder)@, final(builder)@),
        *final(final(builder).func) == *final(old(builder).func),
{
    broadcast use group_builder_steps;

    proof {
        reveal(slice_order_checked);
    }
    let backwards = builder.lt(end, start);
    emit_revert_if(builder, backwards);
    let len = builder.sub(end, start);
    len
}

/// A number of words as a number of bytes.
#[verifier::opaque]
pub open spec fn scaled_by_word(b: BuilderView, value: ValueId) -> (BuilderView, ValueId) {
    let word_size = next_value(b.func);
    let b = constant(b, word(32));
    let r_value = next_value(b.func);
    let b = emitted(b, inst(Op::Mul, seq![value, word_size]), Some(MirType::uint256()));
    (b, r_value)
}

/// Turns a number of words into a number of bytes.
fn scale_by_word<'a>(builder: &mut FunctionBuilder<'a>, value: ValueId) -> (r: ValueId)
    requires
        old(builder).wf(),
        has_value(old(builder)@.func, value),
    ensures
        final(builder).wf(),
        (final(builder)@, r) == scaled_by_word(old(builder)@, value),
        has_value(final(builder)@.func, r),
        extends(old(builder)@, final(builder)@),
        *final(final(builder).func) == *final(old(builder).func),
{
    broadcast use group_builder_steps;

    proof {
        reveal(scaled_by_word);
    }
    let word_size = builder.imm_u64(32);
    let r_value = builder.mul(value, word_size);
    r_value
}

/// A slice cut out of another from `start` to `end`, where both are within it
/// and in order. An end that is the length of the other needs no check.
#[verifier::opaque]
pub open spec fn slice_cut(
    b: BuilderView,
    source: SliceSource,
    start: ValueId,
    end: ValueId,
    is_bytes: bool,
) -> (BuilderView, ValueId) {
    let b = if end != source.len {
        slice_end_checked(b, end, source.len)
    } else {
        b
    };
    let (b, len) = slice_order_checked(b, start, end);
    let (b, offset) = if is_bytes {
        (b, start)
    } else {
        scaled_by_word(b, start)
    };
    let ptr = next_value(b.func);
    let b = emitted(b, inst(Op::Add, seq![source.ptr, offset]), Some(MirType::uint256()));
    (
        emitted(
            b,
            inst(Op::MakeSlice { location: source.location }, seq![ptr, len]),
            Some(MirType::Slice(source.location)),
        ),
        next_value(b.func),
    )
}

/// Cuts a slice out of another, reverting when it does not fit.
pub fn cut_slice<'a>(
    builder: &mut FunctionBuilder<'a>,
    source: SliceSource,
    start: ValueId,
    end: ValueId,
    is_bytes: bool,
) -> (r: ValueId)
    requires
        old(builder).wf(),
        has_value(old(builder)@.func, source.ptr),
        has_value(old(builder)@.func, source.len),
        has_value(old(builder)@.func, start),
        has_value(old(builder)@.func, end),
    ensures
        final(builder).wf(),
        (final(builder)@, r) == slice_cut(old(builder)@, source, start, end, is_bytes),
        has_value(final(builder)@.func, r),
        extends(old(builder)@, final(builder)@),
        *final(final(builder).func) == *final(old(builder).func),
{
    broadcast use group_builder_steps;

    proof {
        reveal(slice_cut);
    }
    if end != source.len {
        check_slice_end(builder, end, source.len);
    }
    let len = check_slice_order(builder, start, end);
    let offset = if is_bytes {
        start
    } else {
        scale_by_word(builder, start)
    };
    let ptr = builder.add(source.ptr, offset);
    builder.make_slice(ptr, len, source.location)
}

/// An address and a selector packed into an external function value.
#[verifier::opaque]
pub open spec fn function_packed(
    b: BuilderView,
    address: ValueId,
    selector: u32,
) -> (BuilderView, ValueId) {
    let address_shift = next_value(b.func);
    let b = constant(b, word(32));
    let shifted = next_value(b.func);
    let b = emitted(b, inst(Op::Shl, seq![address_shift, address]), Some(MirType::uint256()));
    let selector_val = next_value(b.func);
    let b = constant(b, word(selector as u64));
    let r_value = next_value(b.func);
    let b = emitted(b, inst(Op::Or, seq![shifted, selector_val]), Some(MirType::uint256()));
    (b, r_value)
}

/// Packs an address and a selector into an external function value.
pub fn external_function_value<'a>(
    builder: &mut FunctionBuilder<'a>,
    address: ValueId,
    selector: u32,
) -> (r: ValueId)
    requires
        old(builder).wf(),
        has_value(old(builder)@.func, address),
    ensures
        final(builder).wf(),
        (final(builder)@, r) == function_packed(old(builder)@, address, selector),
        has_value(final(builder)@.func, r),
        extends(old(builder)@, final(builder)@),
        *final(final(builder).func) == *final(old(builder).func),
{
    broadcast use group_builder_steps;

    proof {
        reveal(function_packed);
    }
    let address_shift = builder.imm_u64(32);
    let shifted = builder.shl(address_shift, address);
    let selector_val = builder.imm_u64(selector as u64);
    let r_value = builder.or(shifted, selector_val);
    r_value
}

} // verus!
