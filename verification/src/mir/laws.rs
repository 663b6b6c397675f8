//! What the builder and the control-flow utilities keep, establish and undo.

use crate::mir::builder::{blocked, emitted, ended, occurrences, repeated, valued, BuilderView};
use crate::mir::function::{
    block_fits, edges_fit, empty_block, empty_function, function_wf, has_block, has_blocks,
    has_value, metadata_of, next_inst, next_value, placed_once, sizes_fit, FunctionView,
};
use crate::mir::inst::{successors_of, InstView, KindView, TermView};
use crate::mir::parser::layout::interned;
use crate::mir::parser::state::{args_fit, args_kept, bump, kind, state_wf, State};
use crate::mir::parser::token::{Failure, Kind};
use crate::mir::parser::value::{arg_value, implicit_args, value, with_value};
use crate::mir::types::{Arg, BlockId, InstId, MirType, Value, ValueId};
use crate::mir::utils::{
    block_targets, canonical, closed_under_targets, differences, followed, from_one_of, is_edge,
    is_in, is_in_any, is_placed, is_settled, lemma_canonical, lemma_holder, lemma_mentioning,
    lemma_occurrences, lemma_rekeyed_list, lemma_renamed_term, lemma_retargeted, mentioning,
    new_name, rekeyed_edges, rekeyed_list, renamed, renamed_block, renamed_edges, renamed_term,
    reordered, repaired, replaced, retarget, retargeted, selects, settles, split, true_predecessors,
};
use crate::text::{after_prefix, number_of};
use vstd::prelude::*;

verus! {

/// Whether the predecessor lists agree with the terminators: a block is
/// recorded as a predecessor exactly where its terminator mentions the other.
pub open spec fn edges_agree(func: FunctionView) -> bool {
    forall|p: BlockId, b: BlockId|
        #![trigger func.blocks[b.0 as int].predecessors.contains(p)]
        #![trigger block_targets(func, p).contains(b)]
        has_block(func, p) && has_block(func, b) ==> (
        func.blocks[b.0 as int].predecessors.contains(p) <==> block_targets(func, p).contains(b))
}

/// Whether the predecessor lists count the edges: a block is recorded as a
/// predecessor exactly as often as its terminator mentions the other.
pub open spec fn edges_counted(func: FunctionView) -> bool {
    forall|p: BlockId, b: BlockId|
        has_block(func, p) && has_block(func, b) ==> #[trigger] edge_is_counted(func, p, b)
}

/// Whether a block is recorded as a predecessor of another exactly as often as its
/// terminator mentions the other.
pub open spec fn edge_is_counted(func: FunctionView, p: BlockId, b: BlockId) -> bool {
    occurrences(func.blocks[b.0 as int].predecessors, p) == occurrences(block_targets(func, p), b)
}

/// Whether every edge of every phi in a block comes from a predecessor of that
/// block.
pub open spec fn phis_agree(func: FunctionView) -> bool {
    forall|b: int, i: int, incoming: Seq<(BlockId, ValueId)>, k: int|
        #![trigger func.blocks[b].instructions[i], incoming[k]]
        0 <= b < func.blocks.len() && 0 <= i < func.blocks[b].instructions.len()
            && func.insts[func.blocks[b].instructions[i].0 as int].kind == KindView::Phi(incoming)
            && 0 <= k < incoming.len() ==> func.blocks[b].predecessors.contains(incoming[k].0)
}

/// A new function's edges agree.
pub proof fn law_new_function_agrees(name: Seq<char>)
    ensures
        edges_agree(empty_function(name)),
        phis_agree(empty_function(name)),
{
    let func = empty_function(name);
    assert forall|p: BlockId, b: BlockId|
        #![trigger func.blocks[b.0 as int].predecessors.contains(p)]
        #![trigger block_targets(func, p).contains(b)]
        has_block(func, p) && has_block(func, b) implies (
        func.blocks[b.0 as int].predecessors.contains(p) <==> block_targets(func, p).contains(
            b,
        )) by {
        assert(func.blocks[b.0 as int] == empty_block());
        assert(func.blocks[p.0 as int] == empty_block());
    }
}

/// Emitting an instruction keeps every earlier value and instruction, every
/// other block, and the instructions already in the current block; it adds one
/// instruction at the end of the current block, and one value exactly where
/// the instruction has a result.
pub proof fn law_emit_only_adds(builder: BuilderView, kind: KindView, ty: Option<MirType>)
    requires
        has_block(builder.func, builder.block),
    ensures
        ({
            let after = emitted(builder, kind, ty);
            let at = builder.block.0 as int;
            &&& after.func.values.take(builder.func.values.len() as int) == builder.func.values
            &&& after.func.insts.drop_last() == builder.func.insts
            &&& after.func.insts.last() == (InstView {
                kind,
                result_ty: ty,
                metadata: metadata_of(builder.func, kind),
            })
            &&& ty is Some ==> after.func.values.last() == Value::Inst(next_inst(builder.func))
            &&& ty is None ==> after.func.values == builder.func.values
            &&& after.func.blocks[at].instructions == builder.func.blocks[at].instructions.push(
                next_inst(builder.func),
            )
            &&& after.func.blocks[at].terminator == builder.func.blocks[at].terminator
            &&& after.func.blocks[at].predecessors == builder.func.blocks[at].predecessors
            &&& forall|b: int|
                0 <= b < builder.func.blocks.len() && b != at ==> #[trigger] after.func.blocks[b]
                    == builder.func.blocks[b]
        }),
{
    reveal(emitted);
    let after = emitted(builder, kind, ty);
    assert(after.func.values.take(builder.func.values.len() as int) =~= builder.func.values);
    assert(after.func.insts.drop_last() =~= builder.func.insts);
}

/// Emitting an instruction keeps the agreement of edges.
pub proof fn law_emit_keeps_edges(builder: BuilderView, kind: KindView, ty: Option<MirType>)
    requires
        edges_agree(builder.func),
        has_block(builder.func, builder.block),
    ensures
        edges_agree(emitted(builder, kind, ty).func),
{
    law_emit_only_adds(builder, kind, ty);
    reveal(emitted);
    lemma_same_edges(builder.func, emitted(builder, kind, ty).func);
}

/// Adding a value keeps the agreement of edges.
pub proof fn law_value_keeps_edges(builder: BuilderView, value: Value)
    requires
        edges_agree(builder.func),
    ensures
        edges_agree(valued(builder, value).func),
{
    reveal(valued);
    lemma_same_edges(builder.func, valued(builder, value).func);
}

/// Agreement depends on terminators and predecessor lists alone.
proof fn lemma_same_edges(before: FunctionView, after: FunctionView)
    requires
        edges_agree(before),
        before.blocks.len() == after.blocks.len(),
        forall|b: int|
            0 <= b < before.blocks.len() ==> (#[trigger] after.blocks[b]).terminator
                == before.blocks[b].terminator && after.blocks[b].predecessors
                == before.blocks[b].predecessors,
    ensures
        edges_agree(after),
{
    assert forall|p: BlockId, b: BlockId|
        #![trigger after.blocks[b.0 as int].predecessors.contains(p)]
        #![trigger block_targets(after, p).contains(b)]
        has_block(after, p) && has_block(after, b) implies (
        after.blocks[b.0 as int].predecessors.contains(p) <==> block_targets(after, p).contains(
            b,
        )) by {
        assert(after.blocks[p.0 as int].terminator == before.blocks[p.0 as int].terminator);
        assert(block_targets(after, p) == block_targets(before, p));
        assert(after.blocks[b.0 as int].predecessors == before.blocks[b.0 as int].predecessors);
        assert(before.blocks[b.0 as int].predecessors.contains(p) <==> block_targets(
            before,
            p,
        ).contains(b));
    }
}

/// Creating a block keeps the agreement of edges.
pub proof fn law_create_block_keeps_edges(builder: BuilderView)
    requires
        edges_agree(builder.func),
        function_wf(builder.func),
        builder.func.blocks.len() < usize::MAX,
    ensures
        edges_agree(blocked(builder).func),
{
    reveal(blocked);
    reveal(function_wf);
    let before = builder.func;
    let after = blocked(builder).func;
    let last = BlockId(before.blocks.len() as usize);
    assert forall|p: BlockId, b: BlockId|
        #![trigger after.blocks[b.0 as int].predecessors.contains(p)]
        #![trigger block_targets(after, p).contains(b)]
        has_block(after, p) && has_block(after, b) implies (
        after.blocks[b.0 as int].predecessors.contains(p) <==> block_targets(after, p).contains(
            b,
        )) by {
        if p == last {
            assert(block_targets(after, p) =~= Seq::empty());
            if b != last {
                assert(block_fits(before, before.blocks[b.0 as int]));
                let list = before.blocks[b.0 as int].predecessors;
                if list.contains(p) {
                    let k = choose|k: int| 0 <= k < list.len() && list[k] == p;
                    assert(has_block(before, list[k]));
                }
            }
        } else {
            assert(block_targets(after, p) == block_targets(before, p));
            if b == last {
                assert(block_fits(before, before.blocks[p.0 as int]));
                let targets = block_targets(before, p);
                if targets.contains(b) {
                    let k = choose|k: int| 0 <= k < targets.len() && targets[k] == b;
                    assert(has_block(before, targets[k]));
                }
            } else {
                assert(before.blocks[b.0 as int].predecessors.contains(p) <==> block_targets(
                    before,
                    p,
                ).contains(b));
            }
        }
    }
}

/// Ending a block that has no way out yet keeps the agreement of edges.
pub proof fn law_set_terminator_keeps_edges(builder: BuilderView, term: TermView)
    requires
        edges_agree(builder.func),
        has_block(builder.func, builder.block),
        builder.func.blocks.len() <= usize::MAX,
        builder.func.blocks[builder.block.0 as int].terminator is None,
    ensures
        edges_agree(ended(builder, term).func),
{
    reveal(ended);
    let before = builder.func;
    let after = ended(builder, term).func;
    let targets = successors_of(term);
    assert forall|p: BlockId, b: BlockId|
        #![trigger after.blocks[b.0 as int].predecessors.contains(p)]
        #![trigger block_targets(after, p).contains(b)]
        has_block(after, p) && has_block(after, b) implies (
        after.blocks[b.0 as int].predecessors.contains(p) <==> block_targets(after, p).contains(
            b,
        )) by {
        let old_list = before.blocks[b.0 as int].predecessors;
        let added = repeated(builder.block, occurrences(targets, b));
        let list = after.blocks[b.0 as int].predecessors;
        assert(BlockId(b.0 as int as usize) == b);
        assert(list == old_list + added);
        lemma_occurrences(targets, b);
        assert(old_list.contains(p) <==> block_targets(before, p).contains(b));
        if list.contains(p) {
            let k = choose|k: int| 0 <= k < list.len() && list[k] == p;
            if k < old_list.len() {
                assert(old_list[k] == p);
            } else {
                assert(added[k - old_list.len()] == p);
            }
        }
        if old_list.contains(p) {
            let k = choose|k: int| 0 <= k < old_list.len() && old_list[k] == p;
            assert(list[k] == p);
        }
        if p == builder.block {
            assert(block_targets(before, p) =~= Seq::empty());
            assert(block_targets(after, p) == targets);
            if targets.contains(b) {
                assert(list[old_list.len() as int] == p);
            }
        } else {
            assert(block_targets(after, p) == block_targets(before, p));
        }
    }
}

/// Edges that are counted agree.
pub proof fn law_counted_edges_agree(func: FunctionView)
    requires
        edges_counted(func),
    ensures
        edges_agree(func),
{
    assert forall|p: BlockId, b: BlockId|
        #![trigger func.blocks[b.0 as int].predecessors.contains(p)]
        #![trigger block_targets(func, p).contains(b)]
        has_block(func, p) && has_block(func, b) implies (
        func.blocks[b.0 as int].predecessors.contains(p) <==> block_targets(func, p).contains(
            b,
        )) by {
        assert(edge_is_counted(func, p, b));
        lemma_occurrences(func.blocks[b.0 as int].predecessors, p);
        lemma_occurrences(block_targets(func, p), b);
    }
}

/// A new function's edges are counted.
pub proof fn law_new_function_counts_edges(name: Seq<char>)
    ensures
        edges_counted(empty_function(name)),
{
    let func = empty_function(name);
    assert forall|p: BlockId, b: BlockId|
        has_block(func, p) && has_block(func, b) implies #[trigger] edge_is_counted(
        func,
        p,
        b,
    ) by {
        assert(func.blocks[b.0 as int] == empty_block());
        assert(func.blocks[p.0 as int] == empty_block());
    }
}

/// Emitting an instruction and adding a value keep the count of edges.
pub proof fn law_emit_counts_edges(
    builder: BuilderView,
    kind: KindView,
    ty: Option<MirType>,
    value: Value,
)
    requires
        edges_counted(builder.func),
        has_block(builder.func, builder.block),
    ensures
        edges_counted(emitted(builder, kind, ty).func),
        edges_counted(valued(builder, value).func),
{
    law_emit_only_adds(builder, kind, ty);
    reveal(emitted);
    reveal(valued);
    lemma_same_counts(builder.func, emitted(builder, kind, ty).func);
    lemma_same_counts(builder.func, valued(builder, value).func);
}

/// Counts depend on terminators and predecessor lists alone.
proof fn lemma_same_counts(before: FunctionView, after: FunctionView)
    requires
        edges_counted(before),
        before.blocks.len() == after.blocks.len(),
        forall|b: int|
            0 <= b < before.blocks.len() ==> (#[trigger] after.blocks[b]).terminator
                == before.blocks[b].terminator && after.blocks[b].predecessors
                == before.blocks[b].predecessors,
    ensures
        edges_counted(after),
{
    assert forall|p: BlockId, b: BlockId|
        has_block(after, p) && has_block(after, b) implies #[trigger] edge_is_counted(
        after,
        p,
        b,
    ) by {
        assert(after.blocks[p.0 as int].terminator == before.blocks[p.0 as int].terminator);
        assert(block_targets(after, p) == block_targets(before, p));
        assert(after.blocks[b.0 as int].predecessors == before.blocks[b.0 as int].predecessors);
        assert(edge_is_counted(before, p, b));
    }
}

/// Creating a block keeps the count of edges.
pub proof fn law_create_block_counts_edges(builder: BuilderView)
    requires
        edges_counted(builder.func),
        function_wf(builder.func),
        builder.func.blocks.len() < usize::MAX,
    ensures
        edges_counted(blocked(builder).func),
{
    reveal(blocked);
    reveal(function_wf);
    let before = builder.func;
    let after = blocked(builder).func;
    let last = BlockId(before.blocks.len() as usize);
    assert forall|p: BlockId, b: BlockId|
        has_block(after, p) && has_block(after, b) implies #[trigger] edge_is_counted(
        after,
        p,
        b,
    ) by {
        if p == last {
            assert(block_targets(after, p) =~= Seq::empty());
            if b != last {
                assert(block_fits(before, before.blocks[b.0 as int]));
                let list = before.blocks[b.0 as int].predecessors;
                assert(after.blocks[b.0 as int].predecessors == list);
                lemma_occurrences(list, p);
                if list.contains(p) {
                    let k = choose|k: int| 0 <= k < list.len() && list[k] == p;
                    assert(has_block(before, list[k]));
                }
            }
        } else {
            assert(block_targets(after, p) == block_targets(before, p));
            if b == last {
                assert(block_fits(before, before.blocks[p.0 as int]));
                let targets = block_targets(before, p);
                lemma_occurrences(targets, b);
                if targets.contains(b) {
                    let k = choose|k: int| 0 <= k < targets.len() && targets[k] == b;
                    assert(has_block(before, targets[k]));
                }
            } else {
                assert(edge_is_counted(before, p, b));
            }
        }
    }
}

/// Occurrences in a list with copies of a block behind it.
proof fn lemma_repeated_occurrences(
    list: Seq<BlockId>,
    block: BlockId,
    count: nat,
    other: BlockId,
)
    ensures
        occurrences(list + repeated(block, count), other) == occurrences(list, other)
            + if other == block {
            count
        } else {
            0
        },
    decreases count,
{
    let all = list + repeated(block, count);
    if count == 0 {
        assert(all =~= list);
    } else {
        lemma_repeated_occurrences(list, block, (count - 1) as nat, other);
        assert(all.drop_last() =~= list + repeated(block, (count - 1) as nat));
        assert(all.last() == block);
    }
}

/// Ending a block that has no way out yet keeps the count of edges: every mention
/// of a block by the terminator is recorded there once.
pub proof fn law_set_terminator_counts_edges(builder: BuilderView, term: TermView)
    requires
        edges_counted(builder.func),
        has_block(builder.func, builder.block),
        builder.func.blocks.len() <= usize::MAX,
        builder.func.blocks[builder.block.0 as int].terminator is None,
    ensures
        edges_counted(ended(builder, term).func),
{
    reveal(ended);
    let before = builder.func;
    let after = ended(builder, term).func;
    let targets = successors_of(term);
    assert forall|p: BlockId, b: BlockId|
        has_block(after, p) && has_block(after, b) implies #[trigger] edge_is_counted(
        after,
        p,
        b,
    ) by {
        let old_list = before.blocks[b.0 as int].predecessors;
        let count = occurrences(targets, b);
        assert(BlockId(b.0 as int as usize) == b);
        assert(after.blocks[b.0 as int].predecessors == old_list + repeated(builder.block, count));
        lemma_repeated_occurrences(old_list, builder.block, count, p);
        assert(edge_is_counted(before, p, b));
        if p == builder.block {
            assert(block_targets(before, p) =~= Seq::empty());
            assert(block_targets(after, p) == targets);
        } else {
            assert(block_targets(after, p) == block_targets(before, p));
        }
    }
}

/// After an edge is split, control still goes from the one block to the other,
/// through the new block and no longer directly.
pub proof fn law_split_edge_path(func: FunctionView, pred: BlockId, succ: BlockId)
    requires
        is_edge(func, pred, succ),
        func.blocks.len() < usize::MAX,
    ensures
        ({
            let after = split(func, pred, succ);
            let middle = BlockId(func.blocks.len() as usize);
            &&& block_targets(after, pred).contains(middle)
            &&& !block_targets(after, pred).contains(succ)
            &&& block_targets(after, middle) == seq![succ]
            &&& after.blocks[middle.0 as int].instructions.len() == 0
            &&& forall|other: BlockId|
                has_block(func, other) && other != pred ==> #[trigger] block_targets(after, other)
                    == block_targets(func, other)
        }),
{
    let after = split(func, pred, succ);
    let middle = BlockId(func.blocks.len() as usize);
    let term = func.blocks[pred.0 as int].terminator->0;
    lemma_retargeted(term, succ, middle);
    let targets = successors_of(term);
    let aimed = successors_of(retargeted(term, succ, middle));
    assert(block_targets(func, pred) == targets);
    assert(block_targets(after, pred) == aimed);
    let k = choose|k: int| 0 <= k < targets.len() && targets[k] == succ;
    assert(aimed[k] == middle);
    if aimed.contains(succ) {
        let m = choose|m: int| 0 <= m < aimed.len() && aimed[m] == succ;
        assert(aimed[m] == retarget(targets[m], succ, middle));
    }
    assert(block_targets(after, middle) =~= seq![succ]);
}

/// Splitting an edge keeps the agreement of edges.
pub proof fn law_split_edge_keeps_edges(func: FunctionView, pred: BlockId, succ: BlockId)
    requires
        function_wf(func),
        edges_agree(func),
        is_edge(func, pred, succ),
        func.blocks.len() < usize::MAX,
    ensures
        edges_agree(split(func, pred, succ)),
{
    reveal(function_wf);
    let after = split(func, pred, succ);
    let middle = BlockId(func.blocks.len() as usize);
    let term = func.blocks[pred.0 as int].terminator->0;
    law_split_edge_path(func, pred, succ);
    lemma_retargeted(term, succ, middle);
    let targets = successors_of(term);
    let aimed = successors_of(retargeted(term, succ, middle));
    assert(block_targets(after, pred) == aimed);
    assert forall|p: BlockId, b: BlockId|
        #![trigger after.blocks[b.0 as int].predecessors.contains(p)]
        #![trigger block_targets(after, p).contains(b)]
        has_block(after, p) && has_block(after, b) implies (
        after.blocks[b.0 as int].predecessors.contains(p) <==> block_targets(after, p).contains(
            b,
        )) by {
        let list = after.blocks[b.0 as int].predecessors;
        if b == middle {
            assert(list == seq![pred]);
            assert(list[0] == pred);
            if p != pred && p != middle {
                assert(block_targets(after, p) == block_targets(func, p));
                assert(block_fits(func, func.blocks[p.0 as int]));
                let old_targets = block_targets(func, p);
                if old_targets.contains(b) {
                    let k = choose|k: int| 0 <= k < old_targets.len() && old_targets[k] == b;
                    assert(has_block(func, old_targets[k]));
                }
            } else if p == middle {
                assert(block_targets(after, p)[0] == succ);
            }
        } else {
            let old_list = func.blocks[b.0 as int].predecessors;
            assert(p != middle ==> (old_list.contains(p) <==> block_targets(func, p).contains(b)));
            if b == succ {
                assert(list == rekeyed_list(old_list, pred, middle));
                lemma_rekeyed_list(old_list, pred, middle, p);
                assert(block_targets(after, middle)[0] == succ);
            } else {
                assert(list == old_list);
                if p == middle {
                    if list.contains(p) {
                        assert(block_fits(func, func.blocks[b.0 as int]));
                        let k = choose|k: int| 0 <= k < list.len() && list[k] == p;
                        assert(has_block(func, old_list[k]));
                    }
                    assert(block_targets(after, p) == seq![succ]);
                } else if p == pred {
                    if aimed.contains(b) {
                        let k = choose|k: int| 0 <= k < aimed.len() && aimed[k] == b;
                        assert(aimed[k] == retarget(targets[k], succ, middle));
                        assert(targets[k] == b);
                    }
                    if targets.contains(b) {
                        let k = choose|k: int| 0 <= k < targets.len() && targets[k] == b;
                        assert(aimed[k] == b);
                    }
                }
            }
        }
    }
}

/// Splitting an edge keeps phi edges coming from predecessors.
pub proof fn law_split_edge_keeps_phis(func: FunctionView, pred: BlockId, succ: BlockId)
    requires
        function_wf(func),
        phis_agree(func),
        is_edge(func, pred, succ),
        func.blocks.len() < usize::MAX,
    ensures
        phis_agree(split(func, pred, succ)),
{
    reveal(function_wf);
    let after = split(func, pred, succ);
    let middle = BlockId(func.blocks.len() as usize);
    assert forall|b: int, i: int, incoming: Seq<(BlockId, ValueId)>, k: int|
        #![trigger after.blocks[b].instructions[i], incoming[k]]
        0 <= b < after.blocks.len() && 0 <= i < after.blocks[b].instructions.len()
            && after.insts[after.blocks[b].instructions[i].0 as int].kind == KindView::Phi(incoming)
            && 0 <= k < incoming.len() implies after.blocks[b].predecessors.contains(
        incoming[k].0,
    ) by {
        let id = func.blocks[b].instructions[i];
        assert(after.blocks[b].instructions[i] == id);
        assert(block_fits(func, func.blocks[b]));
        assert(InstId(id.0 as int as usize) == id);
        let old_kind = func.insts[id.0 as int].kind;
        let name = BlockId(b as usize);
        assert(is_in(func, name, id));
        if b == succ.0 {
            assert(is_in(func, succ, id));
            let old_incoming = old_kind->Phi_0;
            assert(incoming == rekeyed_edges(old_incoming, pred, middle));
            assert(func.blocks[b].predecessors.contains(old_incoming[k].0));
            lemma_rekeyed_list(func.blocks[b].predecessors, pred, middle, incoming[k].0);
        } else {
            if is_in(func, succ, id) {
                lemma_holder(func, succ, id);
                lemma_holder(func, name, id);
            }
            assert(old_kind == KindView::Phi(incoming));
            assert(func.blocks[b].predecessors.contains(incoming[k].0));
        }
    }
}

/// After a repair the edges agree and phi edges come from predecessors,
/// whatever the function looked like before.
pub proof fn law_repair_establishes_agreement(func: FunctionView)
    requires
        function_wf(func),
        sizes_fit(func),
    ensures
        edges_agree(repaired(func)),
        phis_agree(repaired(func)),
{
    reveal(function_wf);
    let after = repaired(func);
    assert forall|p: BlockId, b: BlockId|
        #![trigger after.blocks[b.0 as int].predecessors.contains(p)]
        #![trigger block_targets(after, p).contains(b)]
        has_block(after, p) && has_block(after, b) implies (
        after.blocks[b.0 as int].predecessors.contains(p) <==> block_targets(after, p).contains(
            b,
        )) by {
        assert(BlockId(b.0 as int as usize) == b);
        assert(block_targets(after, p) == block_targets(func, p));
        lemma_mentioning(func, b, func.blocks.len(), p);
    }
    assert forall|b: int, i: int, incoming: Seq<(BlockId, ValueId)>, k: int|
        #![trigger after.blocks[b].instructions[i], incoming[k]]
        0 <= b < after.blocks.len() && 0 <= i < after.blocks[b].instructions.len()
            && after.insts[after.blocks[b].instructions[i].0 as int].kind == KindView::Phi(incoming)
            && 0 <= k < incoming.len() implies after.blocks[b].predecessors.contains(
        incoming[k].0,
    ) by {
        let id = func.blocks[b].instructions[i];
        let name = BlockId(b as usize);
        assert(after.blocks[b].instructions[i] == id);
        assert(block_fits(func, func.blocks[b]));
        assert(InstId(id.0 as int as usize) == id);
        assert(is_in(func, name, id));
        lemma_holder(func, name, id);
        let list = true_predecessors(func, name);
        let old_incoming = func.insts[id.0 as int].kind->Phi_0;
        assert(incoming == old_incoming.filter(from_one_of(list)));
        old_incoming.lemma_filter_pred(from_one_of(list), k);
    }
}

/// Repairing twice is repairing once: the second repair changes nothing.
pub proof fn law_repair_is_idempotent(func: FunctionView)
    requires
        function_wf(func),
        sizes_fit(func),
    ensures
        repaired(repaired(func)) == repaired(func),
{
    reveal(function_wf);
    let once = repaired(func);
    let twice = repaired(once);
    assert forall|b: int| 0 <= b < func.blocks.len() implies #[trigger] true_predecessors(
        once,
        BlockId(b as usize),
    ) == true_predecessors(func, BlockId(b as usize)) by {
        lemma_mentioning_same(func, once, BlockId(b as usize), func.blocks.len());
    }
    assert forall|b: int| 0 <= b < func.blocks.len() implies #[trigger] twice.blocks[b]
        == once.blocks[b] by {
        assert(true_predecessors(once, BlockId(b as usize)) == true_predecessors(
            func,
            BlockId(b as usize),
        ));
    }
    assert(twice.blocks =~= once.blocks);
    assert forall|j: int| 0 <= j < func.insts.len() implies #[trigger] twice.insts[j]
        == once.insts[j] by {
        let id = InstId(j as usize);
        if is_placed(once, id) {
            let b = choose|b: BlockId| has_block(once, b) && is_in(once, b, id);
            assert(has_block(func, b) && is_in(func, b, id));
            lemma_holder(func, b, id);
            assert(placed_once(once.blocks)) by {
                crate::mir::function::lemma_same_places(func.blocks, once.blocks);
            }
            lemma_holder(once, b, id);
            assert(BlockId(b.0 as int as usize) == b);
            let list = true_predecessors(func, b);
            assert(true_predecessors(once, b) == list);
            if let KindView::Phi(incoming) = func.insts[j].kind {
                lemma_filter_twice(incoming, from_one_of(list));
            }
        }
    }
    assert(twice.insts =~= once.insts);
}

/// Filtering twice is filtering once.
proof fn lemma_filter_twice(list: Seq<(BlockId, ValueId)>, keep: spec_fn(
    (BlockId, ValueId),
) -> bool)
    ensures
        list.filter(keep).filter(keep) == list.filter(keep),
    decreases list.len(),
{
    reveal(Seq::filter);
    if list.len() > 0 {
        let rest = list.drop_last();
        lemma_filter_twice(rest, keep);
        let once = rest.filter(keep);
        if keep(list.last()) {
            assert(once.push(list.last()).drop_last() =~= once);
        }
    }
}

/// Which blocks mention a block depends on the terminators alone.
proof fn lemma_mentioning_same(
    before: FunctionView,
    after: FunctionView,
    block: BlockId,
    count: nat,
)
    requires
        count <= before.blocks.len(),
        before.blocks.len() == after.blocks.len(),
        before.blocks.len() <= usize::MAX,
        forall|b: int|
            0 <= b < before.blocks.len() ==> (#[trigger] after.blocks[b]).terminator
                == before.blocks[b].terminator,
    ensures
        mentioning(after, block, count) == mentioning(before, block, count),
    decreases count,
{
    if count > 0 {
        lemma_mentioning_same(before, after, block, (count - 1) as nat);
        let last = BlockId((count - 1) as usize);
        assert(after.blocks[last.0 as int].terminator == before.blocks[last.0 as int].terminator);
        assert(block_targets(after, last) == block_targets(before, last));
    }
}

/// Dropping and reordering blocks keeps the agreement of edges.
pub proof fn law_reorder_keeps_edges(func: FunctionView, order: Seq<BlockId>)
    requires
        function_wf(func),
        sizes_fit(func),
        edges_agree(func),
        selects(func, order),
        closed_under_targets(func, order),
        order.len() <= usize::MAX,
    ensures
        edges_agree(reordered(func, order)),
{
    let after = reordered(func, order);
    assert forall|p: BlockId, b: BlockId|
        #![trigger after.blocks[b.0 as int].predecessors.contains(p)]
        #![trigger block_targets(after, p).contains(b)]
        has_block(after, p) && has_block(after, b) implies (
        after.blocks[b.0 as int].predecessors.contains(p) <==> block_targets(after, p).contains(
            b,
        )) by {
        let old_p = order[p.0 as int];
        let old_b = order[b.0 as int];
        assert(has_block(func, old_p) && has_block(func, old_b));
        let old_list = func.blocks[old_b.0 as int].predecessors;
        lemma_name_of(order, p.0 as int);
        lemma_name_of(order, b.0 as int);
        lemma_renamed_contains(old_list, order, old_p);
        let old_targets = block_targets(func, old_p);
        let targets = block_targets(after, p);
        assert(old_list.contains(old_p) <==> old_targets.contains(old_b));
        if func.blocks[old_p.0 as int].terminator is Some {
            lemma_renamed_term(func.blocks[old_p.0 as int].terminator->0, order);
            assert(targets == old_targets.map_values(|block: BlockId| new_name(order, block)));
        } else {
            assert(targets =~= Seq::empty());
            assert(old_targets =~= Seq::empty());
        }
        if targets.contains(b) {
            let k = choose|k: int| 0 <= k < targets.len() && targets[k] == b;
            assert(order.contains(old_targets[k])) by {
                assert(old_p == order[p.0 as int]);
                assert(order.contains(block_targets(func, order[p.0 as int])[k]));
            }
            assert(new_name(order, old_targets[k]) == b);
            assert(old_targets[k] == old_b);
        }
        if old_targets.contains(old_b) {
            let k = choose|k: int| 0 <= k < old_targets.len() && old_targets[k] == old_b;
            assert(targets[k] == b);
        }
    }
}

/// The new name of a kept block is its position.
proof fn lemma_name_of(order: Seq<BlockId>, i: int)
    requires
        order.no_duplicates(),
        0 <= i < order.len() <= usize::MAX,
    ensures
        order.contains(order[i]),
        new_name(order, order[i]) == BlockId(i as usize),
{
    assert(order.contains(order[i]));
    let k = order.index_of(order[i]);
    assert(order[k] == order[i]);
}

/// A kept block is in a list exactly where its new name is in the renamed list.
proof fn lemma_renamed_contains(list: Seq<BlockId>, order: Seq<BlockId>, block: BlockId)
    requires
        order.contains(block),
        order.len() <= usize::MAX,
    ensures
        renamed(list, order).contains(new_name(order, block)) <==> list.contains(block),
    decreases list.len(),
{
    let all = renamed(list, order);
    let name = new_name(order, block);
    if list.len() == 0 {
        assert(all =~= Seq::empty());
    } else {
        let rest = list.drop_last();
        let front = renamed(rest, order);
        lemma_renamed_contains(rest, order, block);
        if all.contains(name) {
            let k = choose|k: int| 0 <= k < all.len() && all[k] == name;
            if k < front.len() {
                assert(front[k] == name);
                let m = choose|m: int| 0 <= m < rest.len() && rest[m] == block;
                assert(list[m] == block);
            } else {
                assert(new_name(order, list.last()) == name);
                assert(order[name.0 as int] == list.last());
                assert(order[name.0 as int] == block);
                assert(list[list.len() - 1] == block);
            }
        }
        if list.contains(block) {
            let m = choose|m: int| 0 <= m < list.len() && list[m] == block;
            if m < rest.len() {
                assert(rest[m] == block);
                let k = choose|k: int| 0 <= k < front.len() && front[k] == name;
                assert(all[k] == name);
            } else {
                assert(all[front.len() as int] == name);
            }
        }
    }
}

/// Whether two orders of the same blocks undo each other.
pub open spec fn inverse_orders(order: Seq<BlockId>, back: Seq<BlockId>) -> bool {
    &&& order.len() == back.len()
    &&& forall|i: int| 0 <= i < order.len() ==> (#[trigger] order[i]).0 < order.len()
    &&& forall|i: int| 0 <= i < back.len() ==> (#[trigger] back[i]).0 < back.len()
    &&& forall|i: int| 0 <= i < order.len() ==> #[trigger] back[order[i].0 as int] == BlockId(i as usize)
    &&& forall|i: int| 0 <= i < order.len() ==> #[trigger] order[back[i].0 as int] == BlockId(i as usize)
}

/// Moving the blocks into an order and then into the inverse order gives the
/// function back.
pub proof fn law_reorder_is_undone(func: FunctionView, order: Seq<BlockId>, back: Seq<BlockId>)
    requires
        function_wf(func),
        sizes_fit(func),
        order.len() == func.blocks.len(),
        inverse_orders(order, back),
    ensures
        selects(func, order),
        reordered(reordered(func, order), back) == func,
{
    reveal(function_wf);
    let there = reordered(func, order);
    let again = reordered(there, back);
    lemma_inverse_distinct(order, back);
    lemma_inverse_distinct(back, order);
    assert(has_blocks(func, order));
    assert forall|b: int| 0 <= b < func.blocks.len() implies #[trigger] again.blocks[b]
        == func.blocks[b] by {
        let old = func.blocks[b];
        assert(block_fits(func, old));
        assert(order[back[b].0 as int] == BlockId(b as usize));
        assert(there.blocks[back[b].0 as int] == renamed_block(old, order));
        lemma_renamed_back(old.predecessors, order, back);
        if let Some(term) = old.terminator {
            lemma_term_back(term, order, back);
        }
        assert(again.blocks[b] =~= old);
    }
    assert(again.blocks =~= func.blocks);
    assert forall|j: int| 0 <= j < func.insts.len() implies #[trigger] again.insts[j]
        == func.insts[j] by {
        let id = InstId(j as usize);
        assert(is_in_any(func, order, id) <==> is_in_any(there, back, id)) by {
            if is_in_any(func, order, id) {
                let k = choose|k: int| 0 <= k < order.len() && is_in(func, #[trigger] order[k], id);
                assert(there.blocks[k].instructions == func.blocks[order[k].0 as int].instructions);
                assert(back[order[k].0 as int] == BlockId(k as usize));
                assert(is_in(there, back[order[k].0 as int], id));
            }
            if is_in_any(there, back, id) {
                let k = choose|k: int| 0 <= k < back.len() && is_in(there, #[trigger] back[k], id);
                let m = back[k].0 as int;
                assert(there.blocks[m].instructions == func.blocks[order[m].0 as int].instructions);
                assert(is_in(func, order[m], id));
            }
        }
        if is_in_any(func, order, id) {
            let k = choose|k: int| 0 <= k < order.len() && is_in(func, #[trigger] order[k], id);
            let list = func.blocks[order[k].0 as int].instructions;
            let i = choose|i: int| 0 <= i < list.len() && list[i] == id;
            assert(func.blocks[order[k].0 as int].instructions[i] == id);
            assert(edges_fit(func, func.insts[j].kind));
            if let KindView::Phi(incoming) = func.insts[j].kind {
                lemma_edges_back(incoming, order, back);
            }
        }
    }
    assert(again.insts =~= func.insts);
    assert(again =~= func);
}

/// An order with an inverse names every block once.
proof fn lemma_inverse_distinct(order: Seq<BlockId>, back: Seq<BlockId>)
    requires
        inverse_orders(order, back),
        order.len() <= usize::MAX,
    ensures
        order.no_duplicates(),
        inverse_orders(back, order),
        forall|block: BlockId|
            block.0 < order.len() ==> #[trigger] order.contains(block) && new_name(order, block)
                == back[block.0 as int],
{
    assert forall|i: int, j: int|
        0 <= i < order.len() && 0 <= j < order.len() && i != j implies order[i] != order[j] by {
        assert(back[order[i].0 as int] == BlockId(i as usize));
        assert(back[order[j].0 as int] == BlockId(j as usize));
    }
    assert forall|block: BlockId| block.0 < order.len() implies #[trigger] order.contains(block)
        && new_name(order, block) == back[block.0 as int] by {
        let at = back[block.0 as int].0 as int;
        assert(order[back[block.0 as int].0 as int] == BlockId(block.0 as int as usize));
        assert(order[at] == block);
        lemma_name_of(order, at);
    }
}

/// Renaming a list there and back gives the list.
proof fn lemma_renamed_back(list: Seq<BlockId>, order: Seq<BlockId>, back: Seq<BlockId>)
    requires
        inverse_orders(order, back),
        order.len() <= usize::MAX,
        forall|i: int| 0 <= i < list.len() ==> (#[trigger] list[i]).0 < order.len(),
    ensures
        renamed(renamed(list, order), back) == list,
    decreases list.len(),
{
    lemma_inverse_distinct(order, back);
    lemma_inverse_distinct(back, order);
    if list.len() > 0 {
        let rest = list.drop_last();
        lemma_renamed_back(rest, order, back);
        let block = list[list.len() - 1];
        assert(order.contains(block));
        let name = new_name(order, block);
        assert(back.contains(name));
        let front = renamed(rest, order);
        assert(renamed(list, order) == front.push(name));
        assert(front.push(name).drop_last() =~= front);
        assert(order[back[block.0 as int].0 as int] == BlockId(block.0 as int as usize));
        assert(rest.push(block) =~= list);
    } else {
        assert(renamed(renamed(list, order), back) =~= list);
    }
}

/// Renaming phi edges there and back gives the edges.
proof fn lemma_edges_back(
    incoming: Seq<(BlockId, ValueId)>,
    order: Seq<BlockId>,
    back: Seq<BlockId>,
)
    requires
        inverse_orders(order, back),
        order.len() <= usize::MAX,
        forall|i: int| 0 <= i < incoming.len() ==> (#[trigger] incoming[i]).0.0 < order.len(),
    ensures
        renamed_edges(renamed_edges(incoming, order), back) == incoming,
    decreases incoming.len(),
{
    lemma_inverse_distinct(order, back);
    lemma_inverse_distinct(back, order);
    if incoming.len() > 0 {
        let rest = incoming.drop_last();
        lemma_edges_back(rest, order, back);
        let edge = incoming[incoming.len() - 1];
        assert(order.contains(edge.0));
        let name = new_name(order, edge.0);
        assert(back.contains(name));
        let front = renamed_edges(rest, order);
        assert(renamed_edges(incoming, order) == front.push((name, edge.1)));
        assert(front.push((name, edge.1)).drop_last() =~= front);
        assert(order[back[edge.0.0 as int].0 as int] == BlockId(edge.0.0 as int as usize));
        assert(rest.push(edge) =~= incoming);
    } else {
        assert(renamed_edges(renamed_edges(incoming, order), back) =~= incoming);
    }
}

/// Renaming the targets of a terminator there and back gives the terminator.
proof fn lemma_term_back(term: TermView, order: Seq<BlockId>, back: Seq<BlockId>)
    requires
        inverse_orders(order, back),
        order.len() <= usize::MAX,
        forall|i: int|
            0 <= i < successors_of(term).len() ==> (#[trigger] successors_of(term)[i]).0
                < order.len(),
    ensures
        renamed_term(renamed_term(term, order), back) == term,
{
    lemma_inverse_distinct(order, back);
    lemma_inverse_distinct(back, order);
    assert forall|block: BlockId| block.0 < order.len() implies #[trigger] new_name(
        back,
        new_name(order, block),
    ) == block by {
        assert(order.contains(block));
        assert(back.contains(new_name(order, block)));
        assert(order[back[block.0 as int].0 as int] == BlockId(block.0 as int as usize));
    }
    let targets = successors_of(term);
    match term {
        TermView::Jump(target) => {
            assert(targets[0] == target);
        },
        TermView::Branch { condition, then_block, else_block } => {
            assert(targets[0] == then_block && targets[1] == else_block);
        },
        TermView::Switch { value, default, cases } => {
            assert(targets[0] == default);
            let again = renamed_term(renamed_term(term, order), back);
            assert forall|i: int| 0 <= i < cases.len() implies again->cases[i] == cases[i] by {
                assert(targets[i + 1] == cases[i].1);
            }
            assert(again->cases =~= cases);
        },
        _ => {},
    }
}

/// A canonical value is its own canonical value.
pub proof fn law_canonical_is_idempotent(replacements: Map<usize, ValueId>, value: ValueId)
    requires
        settles(replacements, value),
    ensures
        canonical(replacements, canonical(replacements, value)) == canonical(replacements, value),
{
    let steps = choose|steps: nat|
        is_settled(replacements, #[trigger] followed(replacements, value, steps));
    lemma_canonical(replacements, value, steps);
    let end = canonical(replacements, value);
    assert(followed(replacements, end, 0) == end);
    lemma_canonical(replacements, end, 0);
}

/// Replacing a value first by its one-step replacement does not change where
/// it ends.
pub proof fn law_canonical_of_replacement(replacements: Map<usize, ValueId>, value: ValueId)
    requires
        settles(replacements, value),
    ensures
        settles(replacements, replaced(replacements, value)),
        canonical(replacements, replaced(replacements, value)) == canonical(replacements, value),
{
    let steps = choose|steps: nat|
        is_settled(replacements, #[trigger] followed(replacements, value, steps));
    lemma_canonical(replacements, value, steps);
    let next = replaced(replacements, value);
    lemma_followed_shift(replacements, value, steps);
    assert(followed(replacements, value, steps + 1) == followed(replacements, next, steps));
    assert(followed(replacements, value, steps + 1) == replaced(
        replacements,
        followed(replacements, value, steps),
    ));
    lemma_canonical(replacements, next, steps);
}

/// Following one more step is following from the replacement.
proof fn lemma_followed_shift(replacements: Map<usize, ValueId>, value: ValueId, steps: nat)
    ensures
        followed(replacements, value, steps + 1) == followed(
            replacements,
            replaced(replacements, value),
            steps,
        ),
    decreases steps,
{
    if steps > 0 {
        lemma_followed_shift(replacements, value, (steps - 1) as nat);
        assert(followed(replacements, value, steps + 1) == replaced(
            replacements,
            followed(replacements, value, steps),
        ));
    } else {
        reveal_with_fuel(followed, 2);
    }
}

/// Where every replacement is an earlier value, following replacements always
/// comes to an end.
pub proof fn law_decreasing_replacements_settle(
    replacements: Map<usize, ValueId>,
    value: ValueId,
)
    requires
        forall|v: ValueId| #[trigger]
            replacements.contains_key(v.0) ==> replacements[v.0] == v || replacements[v.0].0 < v.0,
    ensures
        settles(replacements, value),
    decreases value.0,
{
    let next = replaced(replacements, value);
    if next == value {
        assert(followed(replacements, value, 0) == value);
    } else {
        law_decreasing_replacements_settle(replacements, next);
        let steps = choose|steps: nat|
            is_settled(replacements, #[trigger] followed(replacements, next, steps));
        lemma_followed_shift(replacements, value, steps);
        assert(is_settled(replacements, followed(replacements, value, steps + 1)));
    }
}

/// No use changes exactly where the lists of uses are the same.
pub proof fn law_no_differences(before: Seq<ValueId>, after: Seq<ValueId>)
    requires
        before.len() == after.len(),
    ensures
        differences(before, after) == 0 <==> before == after,
    decreases before.len(),
{
    if before.len() > 0 {
        law_no_differences(before.drop_last(), after.drop_last());
        if before.drop_last() == after.drop_last() && before.last() == after.last() {
            assert(before =~= before.drop_last().push(before.last()));
            assert(after =~= after.drop_last().push(after.last()));
        }
    } else {
        assert(before =~= after);
    }
}

/// Recording a layout keeps every layout recorded once: one that is there already
/// is not recorded again, what was recorded stays where it was, and the layout is
/// there afterwards.
pub proof fn law_interned_layouts_are_distinct<A>(layouts: Seq<A>, layout: A)
    requires
        layouts.no_duplicates(),
    ensures
        interned(layouts, layout).no_duplicates(),
        interned(layouts, layout).contains(layout),
        layouts.is_prefix_of(interned(layouts, layout)),
        interned(interned(layouts, layout), layout) == interned(layouts, layout),
{
    let after = interned(layouts, layout);
    if !layouts.contains(layout) {
        assert(after[layouts.len() as int] == layout);
        assert forall|i: int, j: int|
            0 <= i < after.len() && 0 <= j < after.len() && i != j implies after[i] != after[j] by {
            if i < layouts.len() {
                assert(layouts.contains(layouts[i]));
            }
            if j < layouts.len() {
                assert(layouts.contains(layouts[j]));
            }
        }
    }
    assert(after.subrange(0, layouts.len() as int) =~= layouts);
}

/// Whether the next token is the mention of an argument, `arg` and its index.
pub open spec fn mentions_arg(s: State, name: Seq<char>, index: nat) -> bool {
    &&& kind(s) == Kind::Ident(name)
    &&& after_prefix(name, "arg"@) matches Some(digits) && number_of(digits, usize::MAX as nat)
        == Some(index)
}

/// Whether a value is the argument with an index and a type.
pub open spec fn is_argument(func: FunctionView, value: ValueId, index: nat, ty: MirType) -> bool {
    has_value(func, value) && func.values[value.0 as int] == Value::Arg(
        Arg { index: index as usize, ty },
    )
}

/// A mention of an argument is read as one.
proof fn lemma_arg_mention(s: State, name: Seq<char>, index: nat)
    requires
        mentions_arg(s, name, index),
    ensures
        value(s) == arg_value(bump(s), index),
{
    reveal(value);
    reveal_strlit("true");
    reveal_strlit("false");
    reveal_strlit("err");
    reveal_strlit("arg");
    assert(name.take(3)[0] == 'a');
}

/// Implicit arguments are added up to the one that is mentioned, and the others
/// stay.
proof fn lemma_implicit_args(s: State, index: nat)
    requires
        s.b.func.params.len() == 0,
        args_fit(s),
        index <= usize::MAX,
        s.b.func.values.len() + index - s.args.len() < usize::MAX,
    ensures
        ({
            let after = implicit_args(s, index);
            &&& args_fit(after)
            &&& after.b.func.params.len() == 0
            &&& after.args.len() == if s.args.len() > index {
                s.args.len()
            } else {
                index + 1
            }
            &&& after.b.func.values.len() == s.b.func.values.len() + after.args.len()
                - s.args.len()
            &&& args_kept(after.args, s.args)
        }),
    decreases index + 1 - s.args.len(),
{
    reveal(args_kept);
    if s.args.len() <= index {
        let arg = Value::Arg(Arg { index: s.args.len() as usize, ty: MirType::uint256() });
        let next = State { args: s.args.push(next_value(s.b.func)), ..with_value(s, arg) };
        reveal(valued);
        assert forall|i: int| 0 <= i < next.args.len() implies has_value(
            next.b.func,
            #[trigger] next.args[i],
        ) && next.b.func.values[next.args[i].0 as int] == Value::Arg(
            Arg { index: i as usize, ty: MirType::uint256() },
        ) by {
            if i < s.args.len() {
                assert(has_value(s.b.func, s.args[i]));
            }
        }
        lemma_implicit_args(next, index);
        assert forall|i: int| 0 <= i < s.args.len() implies #[trigger] implicit_args(
            next,
            index,
        ).args[i] == s.args[i] by {
            assert(implicit_args(next, index).args[i] == next.args[i]);
        }
    }
}

/// A mention `argN` means the parameter with the index N where the function
/// declares parameters, and is rejected if there is none. Where it declares none,
/// it means an implicit argument of one word, which is added, with all that are
/// missing before it, if it is not there yet.
pub proof fn law_arg_mentions_mean_parameters(s: State, name: Seq<char>, index: nat)
    requires
        state_wf(s),
        mentions_arg(s, name, index),
        s.b.func.values.len() + index < usize::MAX,
    ensures
        s.b.func.params.len() > 0 ==> {
            &&& value(s) is Ok <==> index < s.b.func.params.len()
            &&& value(s) matches Ok((found, after)) ==> after == bump(s) && is_argument(
                after.b.func,
                found,
                index,
                s.b.func.params[index as int],
            )
        },
        s.b.func.params.len() == 0 ==> {
            &&& value(s) matches Ok((found, after))
            &&& is_argument(after.b.func, found, index, MirType::uint256())
            &&& after.args.len() == if s.args.len() > index {
                s.args.len()
            } else {
                index + 1
            }
            &&& after.b.func.values.len() == s.b.func.values.len() + after.args.len()
                - s.args.len()
            &&& args_kept(after.args, s.args)
        },
{
    lemma_arg_mention(s, name, index);
    reveal(state_wf);
    if s.b.func.params.len() == 0 {
        lemma_implicit_args(bump(s), index);
        reveal(args_kept);
    }
    if value(s) is Ok {
        let (found, after) = value(s)->Ok_0;
        assert(has_value(after.b.func, after.args[index as int]));
    }
}

/// Every later mention of an argument in the same function means the same value.
pub proof fn law_arg_mentions_agree(
    s: State,
    later: State,
    name: Seq<char>,
    again: Seq<char>,
    index: nat,
)
    requires
        mentions_arg(s, name, index),
        mentions_arg(later, again, index),
        value(s) is Ok,
        args_kept(later.args, (value(s)->Ok_0).1.args),
    ensures
        value(later) == Ok::<(ValueId, State), Failure>(((value(s)->Ok_0).0, bump(later))),
{
    lemma_arg_mention(s, name, index);
    lemma_arg_mention(later, again, index);
    reveal(args_kept);
    let (found, after) = value(s)->Ok_0;
    assert(after.args[index as int] == found);
    assert(later.args[index as int] == found);
}

} // verus!
