//! Shared MIR utility helpers.

use crate::mir::builder::{occurrences, repeated};
use crate::mir::function::{
    block_fits, block_views, edges_fit, function_wf, has_block, has_blocks, has_value, has_values,
    lemma_blocks_fit_frame, placed_once, sizes_fit, term_fits, term_operands, BasicBlock, BlockView,
    Function, FunctionView,
};
use crate::mir::inst::{
    inst, operands_of, successors_of, with_operands_of, InstKind, InstView, KindView, TermView,
    Terminator,
};
use crate::mir::list::{value_list, BlockList, ValueList};
use crate::mir::types::{BlockId, InstId, ValueId};
use crate::word::U256;
use std::collections::HashMap;
use vstd::prelude::*;

verus! {

// ---------------------------------------------------------------------------
// Reordering and dropping blocks
// ---------------------------------------------------------------------------

/// The blocks of a list that are kept, under their new names: a block's new
/// name is its position in `order`.
pub open spec fn renamed(list: Seq<BlockId>, order: Seq<BlockId>) -> Seq<BlockId>
    decreases list.len(),
{
    if list.len() == 0 {
        Seq::empty()
    } else {
        let rest = renamed(list.drop_last(), order);
        if order.contains(list.last()) {
            rest.push(new_name(order, list.last()))
        } else {
            rest
        }
    }
}

/// The new name of a kept block.
pub open spec fn new_name(order: Seq<BlockId>, block: BlockId) -> BlockId {
    BlockId(order.index_of(block) as usize)
}

/// A terminator with its targets under their new names.
pub open spec fn renamed_term(term: TermView, order: Seq<BlockId>) -> TermView {
    match term {
        TermView::Jump(target) => TermView::Jump(new_name(order, target)),
        TermView::Branch { condition, then_block, else_block } => TermView::Branch {
            condition,
            then_block: new_name(order, then_block),
            else_block: new_name(order, else_block),
        },
        TermView::Switch { value, default, cases } => TermView::Switch {
            value,
            default: new_name(order, default),
            cases: cases.map_values(
                |case: (ValueId, BlockId)| (case.0, new_name(order, case.1)),
            ),
        },
        other => other,
    }
}

/// The incoming edges of a phi from kept blocks, under their new names.
pub open spec fn renamed_edges(
    incoming: Seq<(BlockId, ValueId)>,
    order: Seq<BlockId>,
) -> Seq<(BlockId, ValueId)>
    decreases incoming.len(),
{
    if incoming.len() == 0 {
        Seq::empty()
    } else {
        let rest = renamed_edges(incoming.drop_last(), order);
        let edge = incoming.last();
        if order.contains(edge.0) {
            rest.push((new_name(order, edge.0), edge.1))
        } else {
            rest
        }
    }
}

/// An instruction of a kept block: a phi loses the edges from dropped blocks.
pub open spec fn renamed_inst(inst: InstView, order: Seq<BlockId>) -> InstView {
    match inst.kind {
        KindView::Phi(incoming) => InstView {
            kind: KindView::Phi(renamed_edges(incoming, order)),
            ..inst
        },
        _ => inst,
    }
}

/// A kept block with every mention of a block under its new name.
pub open spec fn renamed_block(block: BlockView, order: Seq<BlockId>) -> BlockView {
    BlockView {
        instructions: block.instructions,
        terminator: match block.terminator {
            Some(term) => Some(renamed_term(term, order)),
            None => None,
        },
        predecessors: renamed(block.predecessors, order),
    }
}

/// Whether an instruction is in the block of the given name.
pub open spec fn is_in(func: FunctionView, block: BlockId, inst: InstId) -> bool {
    func.blocks[block.0 as int].instructions.contains(inst)
}

/// Whether an instruction is in one of the blocks of a list.
pub open spec fn is_in_any(func: FunctionView, blocks: Seq<BlockId>, inst: InstId) -> bool {
    exists|k: int| 0 <= k < blocks.len() && is_in(func, #[trigger] blocks[k], inst)
}

/// The function with exactly the blocks of `order`, in that order.
pub open spec fn reordered(func: FunctionView, order: Seq<BlockId>) -> FunctionView {
    FunctionView {
        blocks: Seq::new(
            order.len(),
            |i: int| renamed_block(func.blocks[order[i].0 as int], order),
        ),
        insts: Seq::new(
            func.insts.len(),
            |j: int|
                if is_in_any(func, order, InstId(j as usize)) {
                    renamed_inst(func.insts[j], order)
                } else {
                    func.insts[j]
                },
        ),
        ..func
    }
}

/// Whether `order` names blocks of the function, none of them twice.
pub open spec fn selects(func: FunctionView, order: Seq<BlockId>) -> bool {
    has_blocks(func, order) && order.no_duplicates()
}

/// Whether every target of a kept block is kept.
pub open spec fn closed_under_targets(func: FunctionView, order: Seq<BlockId>) -> bool {
    forall|i: int, j: int|
        #![trigger order[i], block_targets(func, order[i])[j]]
        0 <= i < order.len() && 0 <= j < block_targets(func, order[i]).len() ==> order.contains(
            block_targets(func, order[i])[j],
        )
}

/// The targets of a block.
pub open spec fn block_targets(func: FunctionView, block: BlockId) -> Seq<BlockId> {
    match func.blocks[block.0 as int].terminator {
        Some(term) => successors_of(term),
        None => Seq::empty(),
    }
}

/// Whether `table` maps every kept block to its new name and every other to
/// the largest identifier.
pub open spec fn is_rename_table(
    table: Seq<BlockId>,
    count: nat,
    order: Seq<BlockId>,
) -> bool {
    &&& table.len() == count
    &&& forall|b: int|
        0 <= b < count ==> #[trigger] table[b] == if order.contains(BlockId(b as usize)) {
            new_name(order, BlockId(b as usize))
        } else {
            BlockId(usize::MAX)
        }
}

/// Moves the blocks into the given order, which names each of them once.
/// Returns the new name of every block.
pub fn remap_block_order(func: &mut Function, order: &Vec<BlockId>) -> (r: Vec<BlockId>)
    requires
        function_wf(old(func)@),
        selects(old(func)@, order@),
        order@.len() == old(func)@.blocks.len(),
    ensures
        final(func)@ == reordered(old(func)@, order@),
        function_wf(final(func)@),
        is_rename_table(r@, old(func)@.blocks.len(), order@),
        forall|b: int| 0 <= b < r@.len() ==> (#[trigger] r@[b]).0 < order@.len(),
{
    proof {
        assert(order.len() <= usize::MAX);
        reveal(function_wf);
        assert forall|block: BlockId| block.0 < order@.len() implies #[trigger] order@.contains(
            block,
        ) by {
            lemma_full_order_contains(old(func)@, order@, block);
        }
        assert(closed_under_targets(old(func)@, order@)) by {
            assert forall|i: int, j: int|
                #![trigger order@[i], block_targets(old(func)@, order@[i])[j]]
                0 <= i < order@.len() && 0 <= j < block_targets(
                    old(func)@,
                    order@[i],
                ).len() implies order@.contains(block_targets(old(func)@, order@[i])[j]) by {
                let target = block_targets(old(func)@, order@[i])[j];
                assert(block_fits(old(func)@, old(func)@.blocks[order@[i].0 as int]));
                assert(has_block(old(func)@, target));
            }
        }
    }
    let table = remap_blocks(func, order);
    assert forall|b: int| 0 <= b < table@.len() implies (#[trigger] table@[b]).0
        < order@.len() by {
        assert(order@.contains(BlockId(b as usize)));
    }
    table
}

/// Keeps exactly the blocks of `order`, in that order.
pub fn retain_blocks(func: &mut Function, order: &Vec<BlockId>)
    requires
        function_wf(old(func)@),
        selects(old(func)@, order@),
        closed_under_targets(old(func)@, order@),
    ensures
        final(func)@ == reordered(old(func)@, order@),
        order@.len() > 0 ==> function_wf(final(func)@),
{
    remap_blocks(func, order);
}

/// An order without duplicates that is as long as the function has blocks
/// names every block.
pub proof fn lemma_full_order_contains(func: FunctionView, order: Seq<BlockId>, block: BlockId)
    requires
        selects(func, order),
        order.len() == func.blocks.len(),
        has_block(func, block),
    ensures
        order.contains(block),
{
    let names = order.map_values(|block: BlockId| block.0 as int);
    assert(names.no_duplicates()) by {
        assert forall|i: int, j: int|
            0 <= i < names.len() && 0 <= j < names.len() && i != j implies names[i] != names[j] by {
            assert(order[i] != order[j]);
        }
    }
    names.unique_seq_to_set();
    let all = vstd::set_lib::set_int_range(0, order.len() as int);
    vstd::set_lib::lemma_int_range(0, order.len() as int);
    assert(names.to_set().subset_of(all)) by {
        assert forall|n: int| names.to_set().contains(n) implies all.contains(n) by {
            let k = choose|k: int| 0 <= k < names.len() && names[k] == n;
            assert(has_block(func, order[k]));
        }
    }
    vstd::set_lib::lemma_subset_equality(names.to_set(), all);
    assert(all.contains(block.0 as int));
    assert(names.to_set().contains(block.0 as int));
    let k = choose|k: int| 0 <= k < names.len() && names[k] == block.0 as int;
    assert(order[k] == block);
}

/// What one more element adds to a prefix.
pub proof fn lemma_take_contains<A>(list: Seq<A>, i: int, item: A)
    requires
        0 <= i < list.len(),
    ensures
        list.take(i + 1).contains(item) <==> list.take(i).contains(item) || list[i] == item,
{
    let longer = list.take(i + 1);
    let shorter = list.take(i);
    assert(longer.drop_last() =~= shorter);
    if longer.contains(item) {
        let k = choose|k: int| 0 <= k < longer.len() && longer[k] == item;
        if k < i {
            assert(shorter[k] == item);
        }
    }
    if shorter.contains(item) {
        let k = choose|k: int| 0 <= k < shorter.len() && shorter[k] == item;
        assert(longer[k] == item);
    }
    assert(longer[i] == list[i]);
}

/// In a list without duplicates no element occurs before its position.
pub proof fn lemma_take_excludes<A>(list: Seq<A>, i: int)
    requires
        0 <= i < list.len(),
        list.no_duplicates(),
    ensures
        !list.take(i).contains(list[i]),
{
    let shorter = list.take(i);
    if shorter.contains(list[i]) {
        let k = choose|k: int| 0 <= k < shorter.len() && shorter[k] == list[i];
        assert(list[k] == list[i]);
    }
}

/// The new name of a kept block is its position in the order.
proof fn lemma_new_name(order: Seq<BlockId>, i: int)
    requires
        order.no_duplicates(),
        0 <= i < order.len() <= usize::MAX,
    ensures
        order.contains(order[i]),
        new_name(order, order[i]) == BlockId(i as usize),
{
    assert(order.contains(order[i]));
    let k = order.index_of(order[i]);
    assert(order[k] == order[i]);
}

/// The new name of a kept block is a block of the reordered function.
proof fn lemma_new_name_bound(order: Seq<BlockId>, block: BlockId)
    requires
        order.contains(block),
        order.len() <= usize::MAX,
    ensures
        new_name(order, block).0 < order.len(),
        order[new_name(order, block).0 as int] == block,
{
}

/// The names that a list of blocks is renamed to are in range.
proof fn lemma_renamed_bound(list: Seq<BlockId>, order: Seq<BlockId>)
    requires
        order.len() <= usize::MAX,
    ensures
        forall|i: int|
            0 <= i < renamed(list, order).len() ==> (#[trigger] renamed(list, order)[i]).0
                < order.len(),
    decreases list.len(),
{
    if list.len() > 0 {
        let rest = renamed(list.drop_last(), order);
        lemma_renamed_bound(list.drop_last(), order);
        if order.contains(list.last()) {
            lemma_new_name_bound(order, list.last());
        }
        assert forall|i: int| 0 <= i < renamed(list, order).len() implies (#[trigger] renamed(
            list,
            order,
        )[i]).0 < order.len() by {
            if i < rest.len() {
                assert(renamed(list, order)[i] == rest[i]);
            }
        }
    }
}

/// A renamed edge comes from a kept block, and its value was there before.
proof fn lemma_renamed_edges(incoming: Seq<(BlockId, ValueId)>, order: Seq<BlockId>)
    requires
        order.len() <= usize::MAX,
    ensures
        forall|i: int|
            0 <= i < renamed_edges(incoming, order).len() ==> (#[trigger] renamed_edges(
                incoming,
                order,
            )[i]).0.0 < order.len() && exists|k: int|
                0 <= k < incoming.len() && renamed_edges(incoming, order)[i] == (
                    new_name(order, (#[trigger] incoming[k]).0),
                    incoming[k].1,
                ),
    decreases incoming.len(),
{
    if incoming.len() > 0 {
        let rest = incoming.drop_last();
        lemma_renamed_edges(rest, order);
        let all = renamed_edges(incoming, order);
        let before = renamed_edges(rest, order);
        if order.contains(incoming.last().0) {
            lemma_new_name_bound(order, incoming.last().0);
        }
        assert forall|i: int| 0 <= i < all.len() implies (#[trigger] all[i]).0.0 < order.len()
            && exists|k: int|
            0 <= k < incoming.len() && all[i] == (
                new_name(order, (#[trigger] incoming[k]).0),
                incoming[k].1,
            ) by {
            if i < before.len() {
                assert(all[i] == before[i]);
                let k = choose|k: int|
                    0 <= k < rest.len() && before[i] == (
                        new_name(order, (#[trigger] rest[k]).0),
                        rest[k].1,
                    );
                assert(incoming[k] == rest[k]);
            } else {
                assert(all[i] == (
                    new_name(order, incoming[incoming.len() - 1].0),
                    incoming[incoming.len() - 1].1,
                ));
            }
        }
    }
}

/// Renaming the targets of a terminator changes its targets and nothing else.
pub proof fn lemma_renamed_term(term: TermView, order: Seq<BlockId>)
    ensures
        term_operands(renamed_term(term, order)) == term_operands(term),
        successors_of(renamed_term(term, order)) == successors_of(term).map_values(
            |block: BlockId| new_name(order, block),
        ),
{
    let after = renamed_term(term, order);
    assert(term_operands(after) =~= term_operands(term));
    assert(successors_of(after) =~= successors_of(term).map_values(
        |block: BlockId| new_name(order, block),
    ));
}

/// Dropping and reordering blocks keeps a function well-formed.
proof fn lemma_reordered_wf(func: FunctionView, order: Seq<BlockId>)
    requires
        function_wf(func),
        sizes_fit(func),
        selects(func, order),
        closed_under_targets(func, order),
        0 < order.len() <= usize::MAX,
    ensures
        function_wf(reordered(func, order)),
{
    reveal(function_wf);
    let after = reordered(func, order);
    assert forall|j: int| 0 <= j < after.insts.len() implies has_values(
        after,
        operands_of((#[trigger] after.insts[j]).kind),
    ) by {
        let kind = func.insts[j].kind;
        assert(has_values(func, operands_of(kind)));
        if after.insts[j] != func.insts[j] {
            let incoming = kind->Phi_0;
            lemma_renamed_edges(incoming, order);
            let edges = renamed_edges(incoming, order);
            assert(after.insts[j].kind == KindView::Phi(edges));
            assert forall|i: int| 0 <= i < edges.len() implies has_value(
                after,
                #[trigger] operands_of(after.insts[j].kind)[i],
            ) by {
                let edge = edges[i];
                let k = choose|k: int|
                    0 <= k < incoming.len() && edges[i] == (
                        new_name(order, (#[trigger] incoming[k]).0),
                        incoming[k].1,
                    );
                assert(has_value(func, operands_of(kind)[k]));
            }
        }
    }
    assert forall|i: int| 0 <= i < after.blocks.len() implies block_fits(
        after,
        #[trigger] after.blocks[i],
    ) by {
        let old_block = func.blocks[order[i].0 as int];
        assert(has_block(func, order[i]));
        assert(block_fits(func, old_block));
        lemma_renamed_bound(old_block.predecessors, order);
        if let Some(term) = old_block.terminator {
            lemma_renamed_term(term, order);
            let targets = successors_of(renamed_term(term, order));
            assert forall|j: int| 0 <= j < targets.len() implies has_block(
                after,
                #[trigger] targets[j],
            ) by {
                assert(order.contains(block_targets(func, order[i])[j]));
                lemma_new_name_bound(order, successors_of(term)[j]);
            }
        }
    }
    assert forall|b: int, i: int|
        #![trigger after.blocks[b].instructions[i]]
        0 <= b < after.blocks.len() && 0 <= i < after.blocks[b].instructions.len() implies edges_fit(
        after,
        after.insts[after.blocks[b].instructions[i].0 as int].kind,
    ) by {
        let id = after.blocks[b].instructions[i];
        assert(has_block(func, order[b]));
        assert(block_fits(func, func.blocks[order[b].0 as int]));
        assert(id == func.blocks[order[b].0 as int].instructions[i]);
        assert(is_in(func, order[b], id));
        assert(is_in_any(func, order, id));
        assert(InstId(id.0 as int as usize) == id);
        if let KindView::Phi(incoming) = func.insts[id.0 as int].kind {
            lemma_renamed_edges(incoming, order);
        }
    }
    assert forall|b: int, i: int, c: int, j: int|
        #![trigger after.blocks[b].instructions[i], after.blocks[c].instructions[j]]
        0 <= b < after.blocks.len() && 0 <= i < after.blocks[b].instructions.len() && 0 <= c
            < after.blocks.len() && 0 <= j < after.blocks[c].instructions.len()
                && after.blocks[
                b
            ].instructions[i] == after.blocks[c].instructions[j] implies b == c && i
        == j by {
        assert(has_block(func, order[b]) && has_block(func, order[c]));
        assert(after.blocks[b].instructions[i] == func.blocks[order[b].0 as int].instructions[i]);
        assert(after.blocks[c].instructions[j] == func.blocks[order[c].0 as int].instructions[j]);
        assert(order[b] == order[c]);
    }
}

/// The table of new names.
fn rename_table(count: usize, order: &Vec<BlockId>) -> (r: Vec<BlockId>)
    requires
        order@.no_duplicates(),
        forall|i: int| 0 <= i < order@.len() ==> (#[trigger] order@[i]).0 < count,
    ensures
        is_rename_table(r@, count as nat, order@),
{
    let mut table: Vec<BlockId> = Vec::new();
    let mut filled: usize = 0;
    while filled < count
        invariant
            filled <= count,
            table@.len() == filled,
            forall|b: int| 0 <= b < filled ==> #[trigger] table@[b] == BlockId(usize::MAX),
        decreases count - filled,
    {
        table.push(BlockId(usize::MAX));
        filled = filled + 1;
    }
    let mut i: usize = 0;
    while i < order.len()
        invariant
            i <= order@.len(),
            table@.len() == count,
            order@.no_duplicates(),
            forall|k: int| 0 <= k < order@.len() ==> (#[trigger] order@[k]).0 < count,
            forall|b: int|
                0 <= b < count ==> #[trigger] table@[b] == if order@.take(i as int).contains(
                    BlockId(b as usize),
                ) {
                    new_name(order@, BlockId(b as usize))
                } else {
                    BlockId(usize::MAX)
                },
        decreases order@.len() - i,
    {
        let ghost before = table@;
        table.set(order[i].0, BlockId(i));
        proof {
            lemma_new_name(order@, i as int);
            assert forall|b: int| 0 <= b < count implies #[trigger] table@[b] == (if order@.take(
                i + 1,
            ).contains(BlockId(b as usize)) {
                new_name(order@, BlockId(b as usize))
            } else {
                BlockId(usize::MAX)
            }) by {
                lemma_take_contains(order@, i as int, BlockId(b as usize));
                assert(before[b] == before[b]);
            }
        }
        i = i + 1;
    }
    assert(order@.take(i as int) =~= order@);
    table
}

/// The predecessors that are kept, under their new names.
fn rename_list(list: &BlockList, table: &Vec<BlockId>, order: &Vec<BlockId>) -> (r: BlockList)
    requires
        is_rename_table(table@, table@.len(), order@),
        forall|i: int| 0 <= i < list@.len() ==> (#[trigger] list@[i]).0 < table@.len(),
    ensures
        r@ == renamed(list@, order@),
{
    let mut kept = BlockList::new();
    let count: usize = list.len();
    let mut i: usize = 0;
    assert(kept@ =~= renamed(list@.take(0), order@));
    while i < count
        invariant
            i <= count,
            count == list@.len(),
            is_rename_table(table@, table@.len(), order@),
            forall|k: int| 0 <= k < list@.len() ==> (#[trigger] list@[k]).0 < table@.len(),
            kept@ == renamed(list@.take(i as int), order@),
        decreases count - i,
    {
        let block = list.get(i);
        let name = table[block.0];
        proof {
            assert(list@.take(i + 1).drop_last() =~= list@.take(i as int));
            assert(list@.take(i + 1).last() == block);
            assert(BlockId(block.0 as int as usize) == block);
            if order@.contains(block) {
                assert(order.len() <= usize::MAX);
                lemma_new_name_bound(order@, block);
            }
        }
        if name.0 != usize::MAX {
            kept.push(name);
        }
        i = i + 1;
    }
    assert(list@.take(i as int) =~= list@);
    kept
}

/// A kept terminator with its targets under their new names.
fn remap_terminator_blocks(
    terminator: Terminator,
    table: &Vec<BlockId>,
    order: &Vec<BlockId>,
) -> (r: Terminator)
    requires
        is_rename_table(table@, table@.len(), order@),
        forall|i: int|
            0 <= i < successors_of(terminator@).len() ==> (#[trigger] successors_of(
                terminator@,
            )[i]).0 < table@.len() && order@.contains(successors_of(terminator@)[i]),
    ensures
        r@ == renamed_term(terminator@, order@),
{
    let ghost targets = successors_of(terminator@);
    match terminator {
        Terminator::Jump(target) => {
            assert(targets[0] == target);
            Terminator::Jump(table[target.0])
        },
        Terminator::Branch { condition, then_block, else_block } => {
            assert(targets[0] == then_block && targets[1] == else_block);
            Terminator::Branch {
                condition,
                then_block: table[then_block.0],
                else_block: table[else_block.0],
            }
        },
        Terminator::Switch { value, default, cases } => {
            assert(targets[0] == default);
            let mut renamed_cases: Vec<(ValueId, BlockId)> = Vec::new();
            let mut i: usize = 0;
            while i < cases.len()
                invariant
                    i <= cases@.len(),
                    targets == seq![default] + cases@.map_values(
                        |case: (ValueId, BlockId)| case.1,
                    ),
                    is_rename_table(table@, table@.len(), order@),
                    forall|k: int|
                        0 <= k < targets.len() ==> (#[trigger] targets[k]).0 < table@.len()
                            && order@.contains(targets[k]),
                    renamed_cases@.len() == i,
                    forall|k: int|
                        0 <= k < i ==> #[trigger] renamed_cases@[k] == (
                            cases@[k].0,
                            new_name(order@, cases@[k].1),
                        ),
                decreases cases@.len() - i,
            {
                let (case_value, target) = cases[i];
                assert(targets[i + 1] == target);
                renamed_cases.push((case_value, table[target.0]));
                i = i + 1;
            }
            assert(renamed_cases@ =~= cases@.map_values(
                |case: (ValueId, BlockId)| (case.0, new_name(order@, case.1)),
            ));
            Terminator::Switch { value, default: table[default.0], cases: renamed_cases }
        },
        other => other,
    }
}

/// The incoming edges that are kept, under their new names.
fn rename_edges(
    incoming: &Vec<(BlockId, ValueId)>,
    table: &Vec<BlockId>,
    order: &Vec<BlockId>,
) -> (r: Vec<(BlockId, ValueId)>)
    requires
        is_rename_table(table@, table@.len(), order@),
        forall|i: int| 0 <= i < incoming@.len() ==> (#[trigger] incoming@[i]).0.0 < table@.len(),
    ensures
        r@ == renamed_edges(incoming@, order@),
{
    let mut kept: Vec<(BlockId, ValueId)> = Vec::new();
    let mut i: usize = 0;
    assert(kept@ =~= renamed_edges(incoming@.take(0), order@));
    while i < incoming.len()
        invariant
            i <= incoming@.len(),
            is_rename_table(table@, table@.len(), order@),
            forall|k: int|
                0 <= k < incoming@.len() ==> (#[trigger] incoming@[k]).0.0 < table@.len(),
            kept@ == renamed_edges(incoming@.take(i as int), order@),
        decreases incoming@.len() - i,
    {
        let (block, value) = incoming[i];
        let name = table[block.0];
        proof {
            assert(incoming@.take(i + 1).drop_last() =~= incoming@.take(i as int));
            assert(incoming@.take(i + 1).last() == (block, value));
            assert(BlockId(block.0 as int as usize) == block);
            if order@.contains(block) {
                assert(order.len() <= usize::MAX);
                lemma_new_name_bound(order@, block);
            }
        }
        if name.0 != usize::MAX {
            kept.push((name, value));
        }
        i = i + 1;
    }
    assert(incoming@.take(i as int) =~= incoming@);
    kept
}

/// The blocks, each ready to be taken out.
fn takeable(blocks: Vec<BasicBlock>) -> (r: Vec<Option<BasicBlock>>)
    ensures
        r@.len() == blocks@.len(),
        forall|k: int| 0 <= k < r@.len() ==> #[trigger] r@[k] == Some(blocks@[k]),
{
    let ghost all = blocks@;
    let mut out: Vec<Option<BasicBlock>> = Vec::new();
    for block in iter: blocks
        invariant
            iter.seq() == all,
            out@.len() == iter.index(),
            forall|k: int| 0 <= k < out@.len() ==> #[trigger] out@[k] == Some(all[k]),
    {
        out.push(Some(block));
    }
    out
}

/// The instructions of the listed blocks, in order.
pub open spec fn placed_in(func: FunctionView, blocks: Seq<BlockId>) -> Seq<InstId>
    decreases blocks.len(),
{
    if blocks.len() == 0 {
        Seq::empty()
    } else {
        placed_in(func, blocks.drop_last()) + func.blocks[blocks.last().0 as int].instructions
    }
}

/// The instructions of the listed blocks are those that are in one of them.
proof fn lemma_placed_in_contains(func: FunctionView, blocks: Seq<BlockId>, id: InstId)
    ensures
        placed_in(func, blocks).contains(id) <==> is_in_any(func, blocks, id),
    decreases blocks.len(),
{
    if blocks.len() > 0 {
        let rest = blocks.drop_last();
        let last = func.blocks[blocks.last().0 as int].instructions;
        lemma_placed_in_contains(func, rest, id);
        let front = placed_in(func, rest);
        let all = placed_in(func, blocks);
        if all.contains(id) {
            let k = choose|k: int| 0 <= k < all.len() && all[k] == id;
            if k < front.len() {
                assert(front[k] == id);
                let m = choose|m: int| 0 <= m < rest.len() && is_in(func, #[trigger] rest[m], id);
                assert(blocks[m] == rest[m]);
            } else {
                assert(last[k - front.len()] == id);
                assert(is_in(func, blocks[blocks.len() - 1], id));
            }
        }
        if is_in_any(func, blocks, id) {
            let m = choose|m: int| 0 <= m < blocks.len() && is_in(func, #[trigger] blocks[m], id);
            if m < rest.len() {
                assert(is_in(func, rest[m], id));
                let k = choose|k: int| 0 <= k < front.len() && front[k] == id;
                assert(all[k] == id);
            } else {
                let k = choose|k: int| 0 <= k < last.len() && last[k] == id;
                assert(all[front.len() + k] == id);
            }
        }
    }
}

/// Distinct blocks hold distinct instructions.
proof fn lemma_placed_in_distinct(func: FunctionView, blocks: Seq<BlockId>)
    requires
        placed_once(func.blocks),
        selects(func, blocks),
    ensures
        placed_in(func, blocks).no_duplicates(),
    decreases blocks.len(),
{
    if blocks.len() > 0 {
        let rest = blocks.drop_last();
        let at = blocks.last().0 as int;
        assert(has_block(func, blocks[blocks.len() - 1]));
        let last = func.blocks[at].instructions;
        assert(selects(func, rest)) by {
            assert forall|i: int| 0 <= i < rest.len() implies has_block(
                func,
                #[trigger] rest[i],
            ) by {
                assert(has_block(func, blocks[i]));
            }
        }
        lemma_placed_in_distinct(func, rest);
        let front = placed_in(func, rest);
        let all = placed_in(func, blocks);
        assert forall|x: int, y: int|
            0 <= x < y < all.len() implies all[x] != all[y] by {
            if y >= front.len() {
                assert(all[y] == func.blocks[at].instructions[y - front.len()]);
                if x >= front.len() {
                    assert(all[x] == func.blocks[at].instructions[x - front.len()]);
                } else {
                    let id = all[x];
                    assert(front[x] == id);
                    lemma_placed_in_contains(func, rest, id);
                    let m = choose|m: int|
                        0 <= m < rest.len() && is_in(func, #[trigger] rest[m], id);
                    assert(has_block(func, blocks[m]));
                    let k = choose|k: int|
                        0 <= k < func.blocks[rest[m].0 as int].instructions.len()
                            && func.blocks[rest[m].0 as int].instructions[k] == id;
                    assert(blocks[m] != blocks[blocks.len() - 1]);
                    assert(func.blocks[rest[m].0 as int].instructions[k] == id);
                }
            } else {
                assert(front[x] == all[x] && front[y] == all[y]);
            }
        }
    }
}

/// Renames the phi edges of the instructions of a list.
fn rename_phis(
    func: &mut Function,
    retained: &Vec<InstId>,
    table: &Vec<BlockId>,
    order: &Vec<BlockId>,
)
    requires
        retained@.no_duplicates(),
        is_rename_table(table@, table@.len(), order@),
        forall|i: int|
            0 <= i < retained@.len() ==> (#[trigger] retained@[i]).0 < old(func)@.insts.len(),
        forall|i: int, incoming: Seq<(BlockId, ValueId)>, k: int|
            #![trigger retained@[i], incoming[k]]
            0 <= i < retained@.len() && old(func)@.insts[retained@[i].0 as int].kind
                == KindView::Phi(incoming) && 0 <= k < incoming.len() ==> incoming[k].0.0
                < table@.len(),
    ensures
        final(func)@ == (FunctionView {
            insts: Seq::new(
                old(func)@.insts.len(),
                |j: int|
                    if retained@.contains(InstId(j as usize)) {
                        renamed_inst(old(func)@.insts[j], order@)
                    } else {
                        old(func)@.insts[j]
                    },
            ),
            ..old(func)@
        }),
{
    let ghost before = func@;
    let count: usize = func.insts.len();
    let mut i: usize = 0;
    while i < retained.len()
        invariant
            i <= retained@.len(),
            retained@.no_duplicates(),
            count == before.insts.len(),
            func.insts@.len() == count,
            before == old(func)@,
            is_rename_table(table@, table@.len(), order@),
            forall|k: int|
                0 <= k < retained@.len() ==> (#[trigger] retained@[k]).0 < before.insts.len(),
            forall|m: int, incoming: Seq<(BlockId, ValueId)>, k: int|
                #![trigger retained@[m], incoming[k]]
                0 <= m < retained@.len() && before.insts[retained@[m].0 as int].kind
                    == KindView::Phi(incoming) && 0 <= k < incoming.len() ==> incoming[k].0.0
                    < table@.len(),
            func@ == (FunctionView { insts: func@.insts, ..before }),
            forall|j: int|
                0 <= j < count ==> #[trigger] func@.insts[j] == if retained@.take(
                    i as int,
                ).contains(InstId(j as usize)) {
                    renamed_inst(before.insts[j], order@)
                } else {
                    before.insts[j]
                },
        decreases retained@.len() - i,
    {
        let id = retained[i];
        let ghost mid = func@;
        proof {
            assert(id == retained@[i as int]);
            lemma_take_excludes(retained@, i as int);
            assert(InstId(id.0 as int as usize) == id);
            assert(func@.insts[id.0 as int] == before.insts[id.0 as int]);
        }
        if let InstKind::Phi(incoming) = &func.insts[id.0].kind {
            proof {
                assert(before.insts[id.0 as int].kind == KindView::Phi(incoming@));
                assert forall|k: int| 0 <= k < incoming@.len() implies (#[trigger] incoming@[k]).0.0
                    < table@.len() by {
                    assert(retained@[i as int] == id);
                }
            }
            let edges = rename_edges(incoming, table, order);
            func.insts[id.0].kind = InstKind::Phi(edges);
        }
        proof {
            assert(func@.insts[id.0 as int] =~= renamed_inst(before.insts[id.0 as int], order@));
            assert forall|j: int| 0 <= j < count implies #[trigger] func@.insts[j] == (
            if retained@.take(i + 1).contains(InstId(j as usize)) {
                renamed_inst(before.insts[j], order@)
            } else {
                before.insts[j]
            }) by {
                lemma_take_contains(retained@, i as int, InstId(j as usize));
                assert(mid.insts[j] == mid.insts[j]);
            }
            assert(func@ =~= (FunctionView { insts: func@.insts, ..before }));
        }
        i = i + 1;
    }
    assert(retained@.take(i as int) =~= retained@);
    assert(func@.insts =~= Seq::new(
        before.insts.len(),
        |j: int|
            if retained@.contains(InstId(j as usize)) {
                renamed_inst(before.insts[j], order@)
            } else {
                before.insts[j]
            },
    ));
}

fn remap_blocks(func: &mut Function, order: &Vec<BlockId>) -> (r: Vec<BlockId>)
    requires
        function_wf(old(func)@),
        selects(old(func)@, order@),
        closed_under_targets(old(func)@, order@),
    ensures
        final(func)@ == reordered(old(func)@, order@),
        order@.len() > 0 ==> function_wf(final(func)@),
        is_rename_table(r@, old(func)@.blocks.len(), order@),
{
    let ghost before = func@;
    proof {
        func.lemma_sizes();
        assert(order.len() <= usize::MAX);
        if order@.len() > 0 {
            lemma_reordered_wf(before, order@);
        }
        reveal(function_wf);
        assert forall|i: int| 0 <= i < order@.len() implies (#[trigger] order@[i]).0
            < before.blocks.len() by {
            assert(has_block(before, order@[i]));
        }
    }
    let count: usize = func.blocks.len();
    let table = rename_table(count, order);
    let mut all_blocks: Vec<BasicBlock> = Vec::new();
    core::mem::swap(&mut all_blocks, &mut func.blocks);
    let ghost all = all_blocks@;
    assert(before.blocks =~= block_views(all));
    let mut old_blocks = takeable(all_blocks);
    let mut blocks: Vec<BasicBlock> = Vec::new();
    let mut retained: Vec<InstId> = Vec::new();
    let mut i: usize = 0;
    while i < order.len()
        invariant
            i <= order@.len(),
            blocks@.len() == i,
            count == before.blocks.len(),
            count == table@.len(),
            old_blocks@.len() == count,
            all.len() == count,
            function_wf(before),
            before.blocks == block_views(all),
            selects(before, order@),
            closed_under_targets(before, order@),
            is_rename_table(table@, count as nat, order@),
            retained@ == placed_in(before, order@.take(i as int)),
            forall|b: int|
                0 <= b < count && !order@.take(i as int).contains(BlockId(b as usize))
                    ==> #[trigger] old_blocks@[b] == Some(all[b]),
            forall|k: int|
                0 <= k < i ==> (#[trigger] blocks@[k])@ == renamed_block(
                    before.blocks[order@[k].0 as int],
                    order@,
                ),
        decreases order@.len() - i,
    {
        let old_block = order[i];
        let ghost slots = old_blocks@;
        proof {
            reveal(function_wf);
            assert(has_block(before, order@[i as int]));
            lemma_take_excludes(order@, i as int);
            assert(BlockId(old_block.0 as int as usize) == old_block);
            assert(old_blocks@[old_block.0 as int] == Some(all[old_block.0 as int]));
            assert(block_fits(before, before.blocks[old_block.0 as int]));
        }
        let block = old_blocks[old_block.0].take().unwrap();
        let ghost view = block@;
        assert(view == before.blocks[old_block.0 as int]);
        let BasicBlock { instructions, terminator, predecessors } = block;
        proof {
            assert forall|k: int| 0 <= k < predecessors@.len() implies (#[trigger] predecessors@[k]).0
                < table@.len() by {
                assert(has_block(before, view.predecessors[k]));
            }
        }
        let predecessors = rename_list(&predecessors, &table, order);
        let terminator = match terminator {
            Some(term) => {
                proof {
                    let targets = successors_of(term@);
                    assert(block_targets(before, order@[i as int]) == targets);
                    assert forall|k: int| 0 <= k < targets.len() implies (#[trigger] targets[k]).0
                        < table@.len() && order@.contains(targets[k]) by {
                        assert(has_block(before, targets[k]));
                        assert(order@.contains(block_targets(before, order@[i as int])[k]));
                    }
                }
                Some(remap_terminator_blocks(term, &table, order))
            },
            None => None,
        };
        let ghost done = retained@;
        push_insts(&mut retained, &instructions);
        proof {
            assert(order@.take(i + 1).drop_last() =~= order@.take(i as int));
            assert(order@.take(i + 1).last() == old_block);
        }
        let kept = BasicBlock { instructions, terminator, predecessors };
        assert(kept@ =~= renamed_block(before.blocks[old_block.0 as int], order@));
        blocks.push(kept);
        proof {
            assert forall|b: int|
                0 <= b < count && !order@.take(i + 1).contains(
                    BlockId(b as usize),
                ) implies #[trigger] old_blocks@[b] == Some(all[b]) by {
                lemma_take_contains(order@, i as int, BlockId(b as usize));
                assert(slots[b] == slots[b]);
            }
        }
        i = i + 1;
    }
    func.blocks = blocks;
    proof {
        assert(order@.take(i as int) =~= order@);
        assert(func@.blocks =~= reordered(before, order@).blocks);
        reveal(function_wf);
        lemma_placed_in_distinct(before, order@);
        assert forall|m: int| 0 <= m < retained@.len() implies (#[trigger] retained@[m]).0
            < before.insts.len() by {
            lemma_placed_inst(before, order@, m);
        }
        assert forall|m: int, incoming: Seq<(BlockId, ValueId)>, k: int|
            #![trigger retained@[m], incoming[k]]
            0 <= m < retained@.len() && before.insts[retained@[m].0 as int].kind == KindView::Phi(
                incoming,
            ) && 0 <= k < incoming.len() implies incoming[k].0.0 < table@.len() by {
            lemma_placed_inst(before, order@, m);
            assert(has_block(before, incoming[k].0));
        }
    }
    rename_phis(func, &retained, &table, order);
    proof {
        let after = reordered(before, order@);
        assert forall|j: int| 0 <= j < before.insts.len() implies #[trigger] func@.insts[j]
            == after.insts[j] by {
            lemma_placed_in_contains(before, order@, InstId(j as usize));
        }
        assert(func@.insts =~= after.insts);
        assert(func@ =~= after);
    }
    table
}

/// An instruction of the listed blocks belongs to the function, and its phi
/// edges fit.
proof fn lemma_placed_inst(func: FunctionView, blocks: Seq<BlockId>, m: int)
    requires
        function_wf(func),
        has_blocks(func, blocks),
        0 <= m < placed_in(func, blocks).len(),
    ensures
        placed_in(func, blocks)[m].0 < func.insts.len(),
        edges_fit(func, func.insts[placed_in(func, blocks)[m].0 as int].kind),
{
    reveal(function_wf);
    let id = placed_in(func, blocks)[m];
    assert(placed_in(func, blocks).contains(id));
    lemma_placed_in_contains(func, blocks, id);
    let b = choose|b: int| 0 <= b < blocks.len() && is_in(func, #[trigger] blocks[b], id);
    assert(has_block(func, blocks[b]));
    let at = blocks[b].0 as int;
    assert(block_fits(func, func.blocks[at]));
    let k = choose|k: int|
        0 <= k < func.blocks[at].instructions.len() && func.blocks[at].instructions[k] == id;
    assert(func.blocks[at].instructions[k] == id);
}

/// Appends instructions to a list.
fn push_insts(to: &mut Vec<InstId>, from: &Vec<InstId>)
    ensures
        final(to)@ == old(to)@ + from@,
{
    let mut i: usize = 0;
    while i < from.len()
        invariant
            i <= from@.len(),
            to@ == old(to)@ + from@.take(i as int),
        decreases from@.len() - i,
    {
        to.push(from[i]);
        i = i + 1;
    }
    assert(from@.take(i as int) =~= from@);
}

// ---------------------------------------------------------------------------
// Splitting an edge
// ---------------------------------------------------------------------------

/// A block name with `from` replaced by `to`.
pub open spec fn retarget(block: BlockId, from: BlockId, to: BlockId) -> BlockId {
    if block == from {
        to
    } else {
        block
    }
}

/// A terminator with every mention of `from` as a target replaced by `to`.
pub open spec fn retargeted(term: TermView, from: BlockId, to: BlockId) -> TermView {
    match term {
        TermView::Jump(target) => TermView::Jump(retarget(target, from, to)),
        TermView::Branch { condition, then_block, else_block } => TermView::Branch {
            condition,
            then_block: retarget(then_block, from, to),
            else_block: retarget(else_block, from, to),
        },
        TermView::Switch { value, default, cases } => TermView::Switch {
            value,
            default: retarget(default, from, to),
            cases: cases.map_values(
                |case: (ValueId, BlockId)| (case.0, retarget(case.1, from, to)),
            ),
        },
        other => other,
    }
}

/// Where a block first occurs in a list.
pub open spec fn first_position(list: Seq<BlockId>, block: BlockId) -> int {
    choose|k: int|
        0 <= k < list.len() && list[k] == block && forall|j: int| 0 <= j < k ==> list[j] != block
}

/// A predecessor list with the first `from` replaced by `to` and the other
/// occurrences of `from` dropped.
pub open spec fn rekeyed_list(list: Seq<BlockId>, from: BlockId, to: BlockId) -> Seq<BlockId> {
    list.update(first_position(list, from), to).filter(other_than(from))
}

/// Every block but one.
pub open spec fn other_than(block: BlockId) -> spec_fn(BlockId) -> bool {
    |other: BlockId| other != block
}

/// Phi edges with the predecessor `from` replaced by `to`.
pub open spec fn rekeyed_edges(
    incoming: Seq<(BlockId, ValueId)>,
    from: BlockId,
    to: BlockId,
) -> Seq<(BlockId, ValueId)> {
    incoming.map_values(|edge: (BlockId, ValueId)| (retarget(edge.0, from, to), edge.1))
}

/// An instruction whose phi edges, if it has any, have the predecessor `from`
/// replaced by `to`.
pub open spec fn rekeyed_inst(inst: InstView, from: BlockId, to: BlockId) -> InstView {
    match inst.kind {
        KindView::Phi(incoming) => InstView {
            kind: KindView::Phi(rekeyed_edges(incoming, from, to)),
            ..inst
        },
        _ => inst,
    }
}

/// A block with its terminator replaced.
pub open spec fn with_terminator(block: BlockView, term: TermView) -> BlockView {
    BlockView { terminator: Some(term), ..block }
}

/// A block with its predecessors replaced.
pub open spec fn with_predecessors(block: BlockView, predecessors: Seq<BlockId>) -> BlockView {
    BlockView { predecessors, ..block }
}

/// The function with a new last block on the edge from `pred` to `succ`.
pub open spec fn split(func: FunctionView, pred: BlockId, succ: BlockId) -> FunctionView {
    let middle = BlockId(func.blocks.len() as usize);
    let p = pred.0 as int;
    let s = succ.0 as int;
    let grown = func.blocks.push(
        BlockView {
            instructions: Seq::empty(),
            terminator: Some(TermView::Jump(succ)),
            predecessors: seq![pred],
        },
    );
    let aimed = grown.update(
        p,
        with_terminator(grown[p], retargeted(func.blocks[p].terminator->0, succ, middle)),
    );
    FunctionView {
        blocks: aimed.update(
            s,
            with_predecessors(
                aimed[s],
                rekeyed_list(func.blocks[s].predecessors, pred, middle),
            ),
        ),
        insts: Seq::new(
            func.insts.len(),
            |j: int|
                if is_in(func, succ, InstId(j as usize)) {
                    rekeyed_inst(func.insts[j], pred, middle)
                } else {
                    func.insts[j]
                },
        ),
        ..func
    }
}

/// Whether the terminator of `pred` mentions `succ`, and `succ` records `pred`
/// as a predecessor.
pub open spec fn is_edge(func: FunctionView, pred: BlockId, succ: BlockId) -> bool {
    &&& has_block(func, pred)
    &&& has_block(func, succ)
    &&& block_targets(func, pred).contains(succ)
    &&& func.blocks[succ.0 as int].predecessors.contains(pred)
}

/// Retargeting a terminator changes its targets and nothing else.
pub proof fn lemma_retargeted(term: TermView, from: BlockId, to: BlockId)
    ensures
        term_operands(retargeted(term, from, to)) == term_operands(term),
        successors_of(retargeted(term, from, to)) == successors_of(term).map_values(
            |block: BlockId| retarget(block, from, to),
        ),
{
    let after = retargeted(term, from, to);
    assert(term_operands(after) =~= term_operands(term));
    assert(successors_of(after) =~= successors_of(term).map_values(
        |block: BlockId| retarget(block, from, to),
    ));
}

/// There is a first position of a block that occurs.
pub proof fn lemma_first_position(list: Seq<BlockId>, block: BlockId)
    requires
        list.contains(block),
    ensures
        0 <= first_position(list, block) < list.len(),
        list[first_position(list, block)] == block,
        forall|j: int| 0 <= j < first_position(list, block) ==> list[j] != block,
{
    list.index_of_first_ensures(block);
    let k = list.index_of_first(block)->0;
    assert(0 <= k < list.len() && list[k] == block && forall|j: int|
        0 <= j < k ==> list[j] != block);
}

/// What a rekeyed predecessor list holds.
pub proof fn lemma_rekeyed_list(list: Seq<BlockId>, from: BlockId, to: BlockId, block: BlockId)
    requires
        list.contains(from),
        from != to,
    ensures
        rekeyed_list(list, from, to).contains(block) <==> block == to || (block != from
            && list.contains(block)),
{
    broadcast use vstd::seq_lib::group_filter_ensures;

    lemma_first_position(list, from);
    let k = first_position(list, from);
    let keep = other_than(from);
    let updated = list.update(k, to);
    let after = updated.filter(keep);
    if after.contains(block) {
        let i = choose|i: int| 0 <= i < after.len() && after[i] == block;
        assert(keep(after[i]));
        updated.lemma_filter_contains_rev(keep, block);
        let m = choose|m: int| 0 <= m < updated.len() && updated[m] == block;
        if m != k {
            assert(list[m] == block);
        }
    }
    if block == to {
        assert(updated[k] == to);
        assert(after.contains(updated[k]));
    } else if block != from && list.contains(block) {
        let m = choose|m: int| 0 <= m < list.len() && list[m] == block;
        assert(updated[m] == block);
        assert(after.contains(updated[m]));
    }
}

/// Splitting an edge keeps a function well-formed.
proof fn lemma_split_wf(func: FunctionView, pred: BlockId, succ: BlockId)
    requires
        function_wf(func),
        func.blocks.len() < usize::MAX,
        is_edge(func, pred, succ),
    ensures
        function_wf(split(func, pred, succ)),
{
    reveal(function_wf);
    let after = split(func, pred, succ);
    let middle = BlockId(func.blocks.len() as usize);
    lemma_blocks_fit_frame(func, after);
    let term = func.blocks[pred.0 as int].terminator->0;
    assert(block_fits(func, func.blocks[pred.0 as int]));
    assert(block_fits(func, func.blocks[succ.0 as int]));
    lemma_retargeted(term, succ, middle);
    let new_term = retargeted(term, succ, middle);
    assert(term_fits(after, new_term)) by {
        let targets = successors_of(new_term);
        assert forall|i: int| 0 <= i < targets.len() implies has_block(
            after,
            #[trigger] targets[i],
        ) by {
            assert(has_block(func, successors_of(term)[i]));
        }
    }
    let old_preds = func.blocks[succ.0 as int].predecessors;
    let new_preds = rekeyed_list(old_preds, pred, middle);
    assert(has_blocks(after, new_preds)) by {
        assert forall|i: int| 0 <= i < new_preds.len() implies has_block(
            after,
            #[trigger] new_preds[i],
        ) by {
            assert(new_preds.contains(new_preds[i]));
            lemma_rekeyed_list(old_preds, pred, middle, new_preds[i]);
            if new_preds[i] != middle {
                let m = choose|m: int| 0 <= m < old_preds.len() && old_preds[m] == new_preds[i];
                assert(has_block(func, old_preds[m]));
            }
        }
    }
    assert(term_fits(after, TermView::Jump(succ)));
    assert forall|b: int| 0 <= b < after.blocks.len() implies block_fits(
        after,
        #[trigger] after.blocks[b],
    ) by {
        if b < func.blocks.len() {
            assert(block_fits(func, func.blocks[b]));
        }
    }
    assert forall|j: int| 0 <= j < after.insts.len() implies has_values(
        after,
        operands_of((#[trigger] after.insts[j]).kind),
    ) by {
        assert(has_values(func, operands_of(func.insts[j].kind)));
        assert(operands_of(after.insts[j].kind) =~= operands_of(func.insts[j].kind));
    }
    assert forall|b: int, i: int|
        #![trigger after.blocks[b].instructions[i]]
        0 <= b < after.blocks.len() && 0 <= i < after.blocks[b].instructions.len() implies edges_fit(
        after,
        after.insts[after.blocks[b].instructions[i].0 as int].kind,
    ) by {
        let id = func.blocks[b].instructions[i];
        assert(block_fits(func, func.blocks[b]));
        assert(after.blocks[b].instructions[i] == id);
        assert(edges_fit(func, func.insts[id.0 as int].kind));
    }
    assert forall|b: int, i: int, c: int, j: int|
        #![trigger after.blocks[b].instructions[i], after.blocks[c].instructions[j]]
        0 <= b < after.blocks.len() && 0 <= i < after.blocks[b].instructions.len() && 0 <= c
            < after.blocks.len() && 0 <= j < after.blocks[c].instructions.len()
                && after.blocks[
                b
            ].instructions[i] == after.blocks[c].instructions[j] implies b == c && i
        == j by {
        assert(after.blocks[b].instructions[i] == func.blocks[b].instructions[i]);
        assert(after.blocks[c].instructions[j] == func.blocks[c].instructions[j]);
    }
}

/// A terminator with every mention of `from` as a target replaced by `to`.
fn retarget_terminator(term: Terminator, from: BlockId, to: BlockId) -> (r: Terminator)
    ensures
        r@ == retargeted(term@, from, to),
{
    match term {
        Terminator::Jump(target) => Terminator::Jump(if target == from { to } else { target }),
        Terminator::Branch { condition, then_block, else_block } => Terminator::Branch {
            condition,
            then_block: if then_block == from { to } else { then_block },
            else_block: if else_block == from { to } else { else_block },
        },
        Terminator::Switch { value, default, cases } => {
            let mut aimed: Vec<(ValueId, BlockId)> = Vec::new();
            let mut i: usize = 0;
            while i < cases.len()
                invariant
                    i <= cases@.len(),
                    aimed@.len() == i,
                    forall|k: int|
                        0 <= k < i ==> #[trigger] aimed@[k] == (
                            cases@[k].0,
                            retarget(cases@[k].1, from, to),
                        ),
                decreases cases@.len() - i,
            {
                let (case_value, target) = cases[i];
                aimed.push((case_value, if target == from { to } else { target }));
                i = i + 1;
            }
            assert(aimed@ =~= cases@.map_values(
                |case: (ValueId, BlockId)| (case.0, retarget(case.1, from, to)),
            ));
            Terminator::Switch {
                value,
                default: if default == from { to } else { default },
                cases: aimed,
            }
        },
        other => other,
    }
}

/// A predecessor list with the first `from` replaced by `to` and the other
/// occurrences of `from` dropped.
fn rekey_list(list: &BlockList, from: BlockId, to: BlockId) -> (r: BlockList)
    requires
        list@.contains(from),
        from != to,
    ensures
        r@ == rekeyed_list(list@, from, to),
{
    proof {
        lemma_first_position(list@, from);
        reveal(Seq::filter);
    }
    let ghost k = first_position(list@, from);
    let ghost updated = list@.update(k, to);
    let ghost keep = other_than(from);
    let mut kept = BlockList::new();
    let mut seen = false;
    let count: usize = list.len();
    let mut i: usize = 0;
    assert(updated.take(0).filter(keep) =~= Seq::<BlockId>::empty());
    while i < count
        invariant
            i <= count,
            count == list@.len(),
            from != to,
            0 <= k < list@.len(),
            list@[k] == from,
            forall|j: int| 0 <= j < k ==> list@[j] != from,
            updated == list@.update(k, to),
            keep == other_than(from),
            seen == (i > k),
            kept@ == updated.take(i as int).filter(keep),
        decreases count - i,
    {
        let block = list.get(i);
        proof {
            reveal(Seq::filter);
            assert(updated.take(i + 1).drop_last() =~= updated.take(i as int));
            assert(updated.take(i + 1).last() == updated[i as int]);
            if i == k {
                assert(updated[i as int] == to);
                assert(keep(to));
            } else {
                assert(updated[i as int] == block);
                assert(keep(block) == (block != from));
            }
        }
        if block != from {
            kept.push(block);
        } else if !seen {
            kept.push(to);
            seen = true;
        }
        i = i + 1;
    }
    assert(updated.take(i as int) =~= updated);
    kept
}

/// Replaces a predecessor in the phi edges of one block's instructions.
fn rekey_phis(func: &mut Function, ids: &Vec<InstId>, from: BlockId, to: BlockId)
    requires
        from != to,
        forall|i: int| 0 <= i < ids@.len() ==> (#[trigger] ids@[i]).0 < old(func)@.insts.len(),
    ensures
        final(func)@ == (FunctionView {
            insts: Seq::new(
                old(func)@.insts.len(),
                |j: int|
                    if ids@.contains(InstId(j as usize)) {
                        rekeyed_inst(old(func)@.insts[j], from, to)
                    } else {
                        old(func)@.insts[j]
                    },
            ),
            ..old(func)@
        }),
{
    let ghost before = func@;
    let count: usize = func.insts.len();
    let mut i: usize = 0;
    while i < ids.len()
        invariant
            i <= ids@.len(),
            from != to,
            count == before.insts.len(),
            func.insts@.len() == count,
            before == old(func)@,
            forall|k: int| 0 <= k < ids@.len() ==> (#[trigger] ids@[k]).0 < before.insts.len(),
            func@ == (FunctionView { insts: func@.insts, ..before }),
            forall|j: int|
                0 <= j < count ==> #[trigger] func@.insts[j] == if ids@.take(i as int).contains(
                    InstId(j as usize),
                ) {
                    rekeyed_inst(before.insts[j], from, to)
                } else {
                    before.insts[j]
                },
        decreases ids@.len() - i,
    {
        let id = ids[i];
        let ghost mid = func@;
        assert(id == ids@[i as int]);
        if let InstKind::Phi(incoming) = &func.insts[id.0].kind {
            let edges = rekey_edges(incoming, from, to);
            func.insts[id.0].kind = InstKind::Phi(edges);
        }
        proof {
            assert(InstId(id.0 as int as usize) == id);
            assert(mid.insts[id.0 as int] == mid.insts[id.0 as int]);
            if let KindView::Phi(incoming) = before.insts[id.0 as int].kind {
                assert(rekeyed_edges(rekeyed_edges(incoming, from, to), from, to)
                    =~= rekeyed_edges(incoming, from, to));
            }
            assert(func@.insts[id.0 as int] =~= rekeyed_inst(
                before.insts[id.0 as int],
                from,
                to,
            ));
            assert forall|j: int| 0 <= j < count implies #[trigger] func@.insts[j] == (
            if ids@.take(i + 1).contains(InstId(j as usize)) {
                rekeyed_inst(before.insts[j], from, to)
            } else {
                before.insts[j]
            }) by {
                lemma_take_contains(ids@, i as int, InstId(j as usize));
                assert(mid.insts[j] == mid.insts[j]);
            }
            assert(func@ =~= (FunctionView { insts: func@.insts, ..before }));
        }
        i = i + 1;
    }
    assert(ids@.take(i as int) =~= ids@);
    assert(func@.insts =~= Seq::new(
        before.insts.len(),
        |j: int|
            if ids@.contains(InstId(j as usize)) {
                rekeyed_inst(before.insts[j], from, to)
            } else {
                before.insts[j]
            },
    ));
}

/// Phi edges with the predecessor `from` replaced by `to`.
fn rekey_edges(
    incoming: &Vec<(BlockId, ValueId)>,
    from: BlockId,
    to: BlockId,
) -> (r: Vec<(BlockId, ValueId)>)
    ensures
        r@ == rekeyed_edges(incoming@, from, to),
{
    let mut edges: Vec<(BlockId, ValueId)> = Vec::new();
    let mut i: usize = 0;
    while i < incoming.len()
        invariant
            i <= incoming@.len(),
            edges@.len() == i,
            forall|k: int|
                0 <= k < i ==> #[trigger] edges@[k] == (
                    retarget(incoming@[k].0, from, to),
                    incoming@[k].1,
                ),
        decreases incoming@.len() - i,
    {
        let (block, value) = incoming[i];
        edges.push((if block == from { to } else { block }, value));
        i = i + 1;
    }
    assert(edges@ =~= rekeyed_edges(incoming@, from, to));
    edges
}

/// Copies a list of instructions.
fn copy_insts(from: &Vec<InstId>) -> (r: Vec<InstId>)
    ensures
        r@ == from@,
{
    let mut copy: Vec<InstId> = Vec::new();
    push_insts(&mut copy, from);
    assert(copy@ =~= from@);
    copy
}

/// Splits the CFG edge from `pred` to `succ` by inserting a fresh block that
/// contains no instructions and jumps straight to `succ`. Returns the new
/// block.
///
/// A terminator that targets `succ` several times, a branch with both arms to
/// `succ` or a switch with several cases plus the default, is one logical
/// edge: every occurrence is retargeted to the same new block. Phi incoming
/// lists are keyed per predecessor block, so two distinct split blocks for one
/// predecessor would force conflicting phi entries.
///
/// Self-loops (`pred == succ`) are supported: the new block takes over the
/// backedge and `succ`'s phis are rekeyed from `pred` to the new block.
pub fn split_edge(func: &mut Function, pred: BlockId, succ: BlockId) -> (r: BlockId)
    requires
        function_wf(old(func)@),
        old(func)@.blocks.len() < usize::MAX,
        is_edge(old(func)@, pred, succ),
    ensures
        final(func)@ == split(old(func)@, pred, succ),
        r == BlockId(old(func)@.blocks.len() as usize),
        function_wf(final(func)@),
{
    let ghost before = func@;
    proof {
        lemma_split_wf(before, pred, succ);
        reveal(function_wf);
        assert(block_fits(before, before.blocks[succ.0 as int]));
    }
    let new_block = BlockId(func.blocks.len());
    let mut predecessors = BlockList::new();
    predecessors.push(pred);
    assert(predecessors@ =~= seq![pred]);
    func.blocks.push(
        BasicBlock {
            instructions: Vec::new(),
            terminator: Some(Terminator::Jump(succ)),
            predecessors,
        },
    );
    let ghost grown = func@;
    assert(grown.blocks[pred.0 as int] == before.blocks[pred.0 as int]);
    let term = func.blocks[pred.0].terminator.take().unwrap();
    assert(term@ == before.blocks[pred.0 as int].terminator->0);
    let aimed = retarget_terminator(term, succ, new_block);
    func.blocks[pred.0].terminator = Some(aimed);
    assert(func.blocks@[succ.0 as int].predecessors@
        == before.blocks[succ.0 as int].predecessors);
    let rekeyed = rekey_list(&func.blocks[succ.0].predecessors, pred, new_block);
    func.blocks[succ.0].predecessors = rekeyed;
    let ids = copy_insts(&func.blocks[succ.0].instructions);
    let ghost after = split(before, pred, succ);
    assert(ids@ == before.blocks[succ.0 as int].instructions);
    assert(func@.blocks =~= after.blocks);
    rekey_phis(func, &ids, pred, new_block);
    proof {
        assert(func@.insts =~= after.insts) by {
            assert forall|j: int| 0 <= j < after.insts.len() implies func@.insts[j]
                == after.insts[j] by {
                assert(is_in(before, succ, InstId(j as usize)) == ids@.contains(
                    InstId(j as usize),
                ));
            }
        }
        assert(func@ =~= after);
    }
    new_block
}

// ---------------------------------------------------------------------------
// Repairing edge lists and phis
// ---------------------------------------------------------------------------

/// The first `count` blocks whose terminators mention `block`, in order, once
/// per mention.
pub open spec fn mentioning(func: FunctionView, block: BlockId, count: nat) -> Seq<BlockId>
    decreases count,
{
    if count == 0 {
        Seq::empty()
    } else {
        let last = BlockId((count - 1) as usize);
        mentioning(func, block, (count - 1) as nat) + repeated(
            last,
            occurrences(block_targets(func, last), block),
        )
    }
}

/// The blocks whose terminators mention `block`, in order, once per mention.
pub open spec fn true_predecessors(func: FunctionView, block: BlockId) -> Seq<BlockId> {
    mentioning(func, block, func.blocks.len())
}

/// Edges that come from a block of a list.
pub open spec fn from_one_of(blocks: Seq<BlockId>) -> spec_fn((BlockId, ValueId)) -> bool {
    |edge: (BlockId, ValueId)| blocks.contains(edge.0)
}

/// An instruction whose phi edges, if it has any, are those from a block of a
/// list.
pub open spec fn with_edges_from(inst: InstView, blocks: Seq<BlockId>) -> InstView {
    match inst.kind {
        KindView::Phi(incoming) => InstView {
            kind: KindView::Phi(incoming.filter(from_one_of(blocks))),
            ..inst
        },
        _ => inst,
    }
}

/// The block that an instruction is in.
pub open spec fn holder(func: FunctionView, id: InstId) -> BlockId {
    choose|block: BlockId| has_block(func, block) && is_in(func, block, id)
}

/// Whether an instruction is in a block.
pub open spec fn is_placed(func: FunctionView, id: InstId) -> bool {
    exists|block: BlockId| has_block(func, block) && is_in(func, block, id)
}

/// The function with predecessor lists that agree with the terminators, and
/// phis without edges from blocks that are no predecessors.
pub open spec fn repaired(func: FunctionView) -> FunctionView {
    FunctionView {
        blocks: Seq::new(
            func.blocks.len(),
            |b: int|
                with_predecessors(
                    func.blocks[b],
                    true_predecessors(func, BlockId(b as usize)),
                ),
        ),
        insts: Seq::new(
            func.insts.len(),
            |j: int|
                if is_placed(func, InstId(j as usize)) {
                    with_edges_from(
                        func.insts[j],
                        true_predecessors(func, holder(func, InstId(j as usize))),
                    )
                } else {
                    func.insts[j]
                },
        ),
        ..func
    }
}

/// A block that holds an instruction is its only holder.
pub proof fn lemma_holder(func: FunctionView, block: BlockId, id: InstId)
    requires
        placed_once(func.blocks),
        has_block(func, block),
        is_in(func, block, id),
    ensures
        is_placed(func, id),
        holder(func, id) == block,
{
    let other = holder(func, id);
    let mine = func.blocks[block.0 as int].instructions;
    let theirs = func.blocks[other.0 as int].instructions;
    let i = choose|i: int| 0 <= i < mine.len() && mine[i] == id;
    let j = choose|j: int| 0 <= j < theirs.len() && theirs[j] == id;
    assert(func.blocks[block.0 as int].instructions[i] == id);
    assert(func.blocks[other.0 as int].instructions[j] == id);
}

/// The blocks that mention `block` are blocks of the function whose
/// terminators do.
pub proof fn lemma_mentioning(func: FunctionView, block: BlockId, count: nat, other: BlockId)
    requires
        count <= func.blocks.len(),
        func.blocks.len() <= usize::MAX,
    ensures
        mentioning(func, block, count).contains(other) <==> other.0 < count && block_targets(
            func,
            other,
        ).contains(block),
    decreases count,
{
    if count > 0 {
        let last = BlockId((count - 1) as usize);
        let targets = block_targets(func, last);
        let front = mentioning(func, block, (count - 1) as nat);
        let back = repeated(last, occurrences(targets, block));
        let all = mentioning(func, block, count);
        lemma_mentioning(func, block, (count - 1) as nat, other);
        lemma_occurrences(targets, block);
        if all.contains(other) {
            let k = choose|k: int| 0 <= k < all.len() && all[k] == other;
            if k < front.len() {
                assert(front[k] == other);
            } else {
                assert(back[k - front.len()] == other);
            }
        }
        if other.0 < count && block_targets(func, other).contains(block) {
            if other == last {
                assert(all[front.len() as int] == other);
            } else {
                let k = choose|k: int| 0 <= k < front.len() && front[k] == other;
                assert(all[k] == other);
            }
        }
    }
}

/// A block occurs a positive number of times exactly where it occurs.
pub proof fn lemma_occurrences(list: Seq<BlockId>, block: BlockId)
    ensures
        occurrences(list, block) > 0 <==> list.contains(block),
    decreases list.len(),
{
    if list.len() > 0 {
        let rest = list.drop_last();
        lemma_occurrences(rest, block);
        if list.contains(block) {
            let k = choose|k: int| 0 <= k < list.len() && list[k] == block;
            if k < rest.len() {
                assert(rest[k] == block);
            }
        }
        if rest.contains(block) {
            let k = choose|k: int| 0 <= k < rest.len() && rest[k] == block;
            assert(list[k] == block);
        }
        assert(list[list.len() - 1] == list.last());
    }
}

/// Repairing keeps a function well-formed.
proof fn lemma_repaired_wf(func: FunctionView)
    requires
        function_wf(func),
        sizes_fit(func),
    ensures
        function_wf(repaired(func)),
{
    broadcast use vstd::seq_lib::group_filter_ensures;

    reveal(function_wf);
    let after = repaired(func);
    lemma_blocks_fit_frame(func, after);
    assert forall|b: int| 0 <= b < after.blocks.len() implies block_fits(
        after,
        #[trigger] after.blocks[b],
    ) by {
        assert(block_fits(func, func.blocks[b]));
        let list = after.blocks[b].predecessors;
        assert forall|i: int| 0 <= i < list.len() implies has_block(after, #[trigger] list[i]) by {
            assert(list.contains(list[i]));
            lemma_mentioning(func, BlockId(b as usize), func.blocks.len(), list[i]);
        }
    }
    assert forall|j: int| 0 <= j < after.insts.len() implies has_values(
        after,
        operands_of((#[trigger] after.insts[j]).kind),
    ) by {
        assert(has_values(func, operands_of(func.insts[j].kind)));
        lemma_kept_edges(func, after, func.insts[j], true_predecessors(
            func,
            holder(func, InstId(j as usize)),
        ));
    }
    assert forall|b: int, i: int|
        #![trigger after.blocks[b].instructions[i]]
        0 <= b < after.blocks.len() && 0 <= i < after.blocks[b].instructions.len() implies edges_fit(
        after,
        after.insts[after.blocks[b].instructions[i].0 as int].kind,
    ) by {
        let id = func.blocks[b].instructions[i];
        assert(block_fits(func, func.blocks[b]));
        assert(after.blocks[b].instructions[i] == id);
        assert(edges_fit(func, func.insts[id.0 as int].kind));
        lemma_kept_edges(func, after, func.insts[id.0 as int], true_predecessors(
            func,
            holder(func, id),
        ));
        assert(InstId(id.0 as int as usize) == id);
    }
    assert forall|b: int, i: int, c: int, j: int|
        #![trigger after.blocks[b].instructions[i], after.blocks[c].instructions[j]]
        0 <= b < after.blocks.len() && 0 <= i < after.blocks[b].instructions.len() && 0 <= c
            < after.blocks.len() && 0 <= j < after.blocks[c].instructions.len()
                && after.blocks[
                b
            ].instructions[i] == after.blocks[c].instructions[j] implies b == c && i
        == j by {
        assert(after.blocks[b].instructions[i] == func.blocks[b].instructions[i]);
        assert(after.blocks[c].instructions[j] == func.blocks[c].instructions[j]);
    }
}

/// Dropping phi edges keeps operands and edges fitting.
proof fn lemma_kept_edges(
    func: FunctionView,
    after: FunctionView,
    inst: InstView,
    blocks: Seq<BlockId>,
)
    requires
        func.values.len() <= after.values.len(),
        func.blocks.len() <= after.blocks.len(),
    ensures
        has_values(func, operands_of(inst.kind)) ==> has_values(
            after,
            operands_of(with_edges_from(inst, blocks).kind),
        ),
        edges_fit(func, inst.kind) ==> edges_fit(after, with_edges_from(inst, blocks).kind),
{
    if let KindView::Phi(incoming) = inst.kind {
        let keep = from_one_of(blocks);
        let kept = incoming.filter(keep);
        assert forall|i: int| 0 <= i < kept.len() implies incoming.contains(#[trigger] kept[i]) by {
            assert(kept.contains(kept[i]));
            incoming.lemma_filter_contains_rev(keep, kept[i]);
        }
        if has_values(func, operands_of(inst.kind)) {
            assert forall|i: int| 0 <= i < kept.len() implies has_value(
                after,
                #[trigger] operands_of(KindView::Phi(kept))[i],
            ) by {
                assert(incoming.contains(kept[i]));
                let k = choose|k: int| 0 <= k < incoming.len() && #[trigger] incoming[k] == kept[i];
                assert(has_value(func, operands_of(inst.kind)[k]));
            }
        }
        if edges_fit(func, inst.kind) {
            assert forall|i: int| 0 <= i < kept.len() implies has_block(
                after,
                (#[trigger] kept[i]).0,
            ) by {
                assert(incoming.contains(kept[i]));
                let k = choose|k: int| 0 <= k < incoming.len() && #[trigger] incoming[k] == kept[i];
                assert(has_block(func, incoming[k].0));
            }
        }
    }
}

/// Whether two lists hold the same blocks in the same order.
fn same_list(a: &BlockList, b: &BlockList) -> (r: bool)
    ensures
        r == (a@ == b@),
{
    let count: usize = a.len();
    if count != b.len() {
        return false;
    }
    let mut i: usize = 0;
    while i < count
        invariant
            i <= count,
            count == a@.len(),
            count == b@.len(),
            forall|k: int| 0 <= k < i ==> a@[k] == b@[k],
        decreases count - i,
    {
        if a.get(i) != b.get(i) {
            return false;
        }
        i = i + 1;
    }
    assert(a@ =~= b@);
    true
}

/// Whether a list holds a block.
fn list_contains(list: &BlockList, block: BlockId) -> (r: bool)
    ensures
        r == list@.contains(block),
{
    let count: usize = list.len();
    let mut i: usize = 0;
    while i < count
        invariant
            i <= count,
            count == list@.len(),
            forall|k: int| 0 <= k < i ==> list@[k] != block,
        decreases count - i,
    {
        if list.get(i) == block {
            assert(list@[i as int] == block);
            return true;
        }
        i = i + 1;
    }
    false
}

/// The edges that come from a block of a list.
fn edges_from(
    incoming: &Vec<(BlockId, ValueId)>,
    blocks: &BlockList,
) -> (r: Vec<(BlockId, ValueId)>)
    ensures
        r@ == incoming@.filter(from_one_of(blocks@)),
        r@.len() <= incoming@.len(),
        r@.len() == incoming@.len() ==> r@ == incoming@,
{
    let ghost keep = from_one_of(blocks@);
    let mut kept: Vec<(BlockId, ValueId)> = Vec::new();
    let mut i: usize = 0;
    proof {
        reveal(Seq::filter);
        assert(incoming@.take(0).filter(keep) =~= Seq::empty());
    }
    while i < incoming.len()
        invariant
            i <= incoming@.len(),
            keep == from_one_of(blocks@),
            kept@ == incoming@.take(i as int).filter(keep),
            kept@.len() <= i,
            kept@.len() == i ==> kept@ == incoming@.take(i as int),
        decreases incoming@.len() - i,
    {
        let (block, value) = incoming[i];
        proof {
            reveal(Seq::filter);
            assert(incoming@.take(i + 1).drop_last() =~= incoming@.take(i as int));
            assert(incoming@.take(i + 1).last() == (block, value));
            assert(keep((block, value)) == blocks@.contains(block));
        }
        if list_contains(blocks, block) {
            kept.push((block, value));
        }
        i = i + 1;
    }
    assert(incoming@.take(i as int) =~= incoming@);
    kept
}

/// Drops the phi edges of the listed instructions that come from no block of
/// `blocks`. Returns whether any was dropped.
fn retain_edges(func: &mut Function, ids: &Vec<InstId>, blocks: &BlockList) -> (r: bool)
    requires
        ids@.no_duplicates(),
        forall|i: int| 0 <= i < ids@.len() ==> (#[trigger] ids@[i]).0 < old(func)@.insts.len(),
    ensures
        final(func)@ == (FunctionView {
            insts: Seq::new(
                old(func)@.insts.len(),
                |j: int|
                    if ids@.contains(InstId(j as usize)) {
                        with_edges_from(old(func)@.insts[j], blocks@)
                    } else {
                        old(func)@.insts[j]
                    },
            ),
            ..old(func)@
        }),
        r == (final(func)@.insts != old(func)@.insts),
{
    let ghost before = func@;
    let count: usize = func.insts.len();
    let mut changed = false;
    let mut i: usize = 0;
    while i < ids.len()
        invariant
            i <= ids@.len(),
            ids@.no_duplicates(),
            count == before.insts.len(),
            func.insts@.len() == count,
            before == old(func)@,
            forall|k: int| 0 <= k < ids@.len() ==> (#[trigger] ids@[k]).0 < before.insts.len(),
            func@ == (FunctionView { insts: func@.insts, ..before }),
            changed == (func@.insts != before.insts),
            forall|j: int|
                0 <= j < count ==> #[trigger] func@.insts[j] == if ids@.take(i as int).contains(
                    InstId(j as usize),
                ) {
                    with_edges_from(before.insts[j], blocks@)
                } else {
                    before.insts[j]
                },
        decreases ids@.len() - i,
    {
        let id = ids[i];
        let ghost mid = func@;
        let ghost was_changed = changed;
        proof {
            assert(id == ids@[i as int]);
            lemma_take_excludes(ids@, i as int);
            assert(InstId(id.0 as int as usize) == id);
            assert(mid.insts[id.0 as int] == before.insts[id.0 as int]);
        }
        if let InstKind::Phi(incoming) = &func.insts[id.0].kind {
            let kept = edges_from(incoming, blocks);
            if kept.len() != incoming.len() {
                changed = true;
            }
            func.insts[id.0].kind = InstKind::Phi(kept);
        }
        proof {
            assert(func@.insts[id.0 as int] =~= with_edges_from(
                before.insts[id.0 as int],
                blocks@,
            ));
            assert forall|j: int| 0 <= j < count implies #[trigger] func@.insts[j] == (
            if ids@.take(i + 1).contains(InstId(j as usize)) {
                with_edges_from(before.insts[j], blocks@)
            } else {
                before.insts[j]
            }) by {
                lemma_take_contains(ids@, i as int, InstId(j as usize));
                assert(mid.insts[j] == mid.insts[j]);
            }
            assert(func@ =~= (FunctionView { insts: func@.insts, ..before }));
            if was_changed {
                lemma_differ(mid.insts, before.insts);
                let j = choose|j: int|
                    0 <= j < count && #[trigger] mid.insts[j] != before.insts[j];
                assert(func@.insts[j] == mid.insts[j]);
            } else {
                if changed {
                    assert(func@.insts[id.0 as int] != before.insts[id.0 as int]);
                } else {
                    assert(func@.insts =~= before.insts);
                }
            }
        }
        i = i + 1;
    }
    assert(ids@.take(i as int) =~= ids@);
    assert(func@.insts =~= Seq::new(
        before.insts.len(),
        |j: int|
            if ids@.contains(InstId(j as usize)) {
                with_edges_from(before.insts[j], blocks@)
            } else {
                before.insts[j]
            },
    ));
    changed
}

/// Two different sequences of one length differ somewhere.
proof fn lemma_differ<A>(a: Seq<A>, b: Seq<A>)
    requires
        a.len() == b.len(),
        a != b,
    ensures
        exists|i: int| 0 <= i < a.len() && #[trigger] a[i] != b[i],
{
    if forall|i: int| 0 <= i < a.len() ==> #[trigger] a[i] == b[i] {
        assert(a =~= b);
    }
}

/// The blocks whose terminators mention each block.
fn find_predecessors(func: &Function) -> (r: Vec<BlockList>)
    requires
        function_wf(func@),
    ensures
        r@.len() == func@.blocks.len(),
        forall|b: int|
            0 <= b < r@.len() ==> (#[trigger] r@[b])@ == true_predecessors(
                func@,
                BlockId(b as usize),
            ),
{
    let count: usize = func.blocks.len();
    let mut lists: Vec<BlockList> = Vec::new();
    let mut filled: usize = 0;
    while filled < count
        invariant
            filled <= count,
            lists@.len() == filled,
            forall|b: int| 0 <= b < filled ==> (#[trigger] lists@[b])@ == Seq::<BlockId>::empty(),
        decreases count - filled,
    {
        lists.push(BlockList::new());
        filled = filled + 1;
    }
    let mut p: usize = 0;
    while p < count
        invariant
            p <= count,
            count == func.blocks@.len(),
            lists@.len() == count,
            function_wf(func@),
            forall|b: int|
                0 <= b < count ==> (#[trigger] lists@[b])@ == mentioning(
                    func@,
                    BlockId(b as usize),
                    p as nat,
                ),
        decreases count - p,
    {
        let block = BlockId(p);
        let targets: Vec<BlockId> = match &func.blocks[p].terminator {
            Some(term) => term.successors(),
            None => Vec::new(),
        };
        proof {
            reveal(function_wf);
            assert(block_fits(func@, func@.blocks[p as int]));
            assert(targets@ =~= block_targets(func@, block));
            assert forall|b: int| 0 <= b < count implies (#[trigger] lists@[b])@ == mentioning(
                func@,
                BlockId(b as usize),
                p as nat,
            ) + repeated(block, occurrences(targets@.take(0), BlockId(b as usize))) by {
                assert(mentioning(func@, BlockId(b as usize), p as nat) + repeated(block, 0)
                    =~= mentioning(func@, BlockId(b as usize), p as nat));
            }
        }
        let mut i: usize = 0;
        while i < targets.len()
            invariant
                i <= targets@.len(),
                lists@.len() == count,
                count == func.blocks@.len(),
                has_blocks(func@, targets@),
                forall|b: int|
                    0 <= b < count ==> (#[trigger] lists@[b])@ == mentioning(
                        func@,
                        BlockId(b as usize),
                        p as nat,
                    ) + repeated(
                        block,
                        occurrences(targets@.take(i as int), BlockId(b as usize)),
                    ),
            decreases targets@.len() - i,
        {
            let target = targets[i];
            assert(has_block(func@, targets@[i as int]));
            let ghost mid = lists@;
            lists[target.0].push(block);
            proof {
                let done = targets@.take(i as int);
                let next = targets@.take(i + 1);
                assert(next.drop_last() =~= done);
                assert(next.last() == target);
                assert forall|b: int| 0 <= b < count implies (#[trigger] lists@[b])@ == mentioning(
                    func@,
                    BlockId(b as usize),
                    p as nat,
                ) + repeated(block, occurrences(next, BlockId(b as usize))) by {
                    let name = BlockId(b as usize);
                    assert(mid[b]@ == mentioning(func@, name, p as nat) + repeated(
                        block,
                        occurrences(done, name),
                    ));
                    assert(lists@[b]@ =~= mentioning(func@, name, p as nat) + repeated(
                        block,
                        occurrences(next, name),
                    ));
                }
            }
            i = i + 1;
        }
        assert(targets@.take(i as int) =~= targets@);
        p = p + 1;
    }
    lists
}

/// Rebuilds CFG edge lists from terminators and drops phi inputs from blocks
/// that are no longer predecessors. Returns true if either changed.
#[must_use]
pub fn repair_reachability_phis(func: &mut Function) -> (r: bool)
    requires
        function_wf(old(func)@),
    ensures
        final(func)@ == repaired(old(func)@),
        function_wf(final(func)@),
        r == (final(func)@ != old(func)@),
{
    let ghost before = func@;
    proof {
        func.lemma_sizes();
        lemma_repaired_wf(before);
    }
    let count: usize = func.blocks.len();
    let mut lists = find_predecessors(func);
    let mut changed = false;
    let mut rest: usize = count;
    while rest > 0
        invariant
            rest <= count,
            count == before.blocks.len(),
            lists@.len() == rest,
            before == old(func)@,
            function_wf(before),
            sizes_fit(before),
            forall|b: int|
                0 <= b < rest ==> (#[trigger] lists@[b])@ == true_predecessors(
                    before,
                    BlockId(b as usize),
                ),
            func@ == (FunctionView { blocks: func@.blocks, insts: func@.insts, ..before }),
            func@.blocks.len() == count,
            func.blocks@.len() == count,
            func@.insts.len() == before.insts.len(),
            forall|b: int|
                0 <= b < count ==> #[trigger] func@.blocks[b] == if b >= rest {
                    repaired(before).blocks[b]
                } else {
                    before.blocks[b]
                },
            forall|j: int|
                0 <= j < before.insts.len() ==> #[trigger] func@.insts[j] == if placed_from(
                    before,
                    rest as int,
                    InstId(j as usize),
                ) {
                    repaired(before).insts[j]
                } else {
                    before.insts[j]
                },
            changed == (func@ != before),
        decreases rest,
    {
        let at: usize = rest - 1;
        let list = lists.pop().unwrap();
        let ghost mid = func@;
        let ghost was_changed = changed;
        let ghost name = BlockId(at);
        proof {
            reveal(function_wf);
            assert(list@ == true_predecessors(before, BlockId(at as int as usize)));
            assert(mid.blocks[at as int] == before.blocks[at as int]);
            assert(block_fits(before, before.blocks[at as int]));
        }
        let same = same_list(&func.blocks[at].predecessors, &list);
        let ids = copy_insts(&func.blocks[at].instructions);
        proof {
            assert(ids@ == before.blocks[at as int].instructions);
            assert(ids@.no_duplicates()) by {
                assert forall|x: int, y: int|
                    0 <= x < ids@.len() && 0 <= y < ids@.len() && x != y implies ids@[x]
                    != ids@[y] by {
                    assert(before.blocks[at as int].instructions[x] == ids@[x]);
                    assert(before.blocks[at as int].instructions[y] == ids@[y]);
                }
            }
        }
        let dropped = retain_edges(func, &ids, &list);
        let ghost phis = func@;
        func.blocks[at].predecessors = list;
        if !same || dropped {
            changed = true;
        }
        proof {
            let goal = repaired(before);
            assert(func@.insts == phis.insts);
            assert(func@.blocks[at as int] =~= goal.blocks[at as int]);
            assert forall|b: int| 0 <= b < count implies #[trigger] func@.blocks[b] == (if b >= at {
                goal.blocks[b]
            } else {
                before.blocks[b]
            }) by {
                assert(mid.blocks[b] == mid.blocks[b]);
                if b != at {
                    assert(func@.blocks[b] == mid.blocks[b]);
                }
            }
            assert forall|j: int| 0 <= j < before.insts.len() implies #[trigger] func@.insts[j] == (
            if placed_from(before, at as int, InstId(j as usize)) {
                goal.insts[j]
            } else {
                before.insts[j]
            }) by {
                let id = InstId(j as usize);
                assert(mid.insts[j] == mid.insts[j]);
                lemma_placed_from(before, at as int, id);
                assert(is_in(before, name, id) == ids@.contains(id));
                if ids@.contains(id) {
                    lemma_holder(before, name, id);
                    if placed_from(before, rest as int, id) {
                        let b = choose|b: BlockId|
                            rest <= b.0 < before.blocks.len() && is_in(before, b, id);
                        lemma_holder(before, b, id);
                    }
                }
            }
            assert(func@ =~= (FunctionView {
                blocks: func@.blocks,
                insts: func@.insts,
                ..before
            }));
            if was_changed {
                if mid.blocks != before.blocks {
                    lemma_differ(mid.blocks, before.blocks);
                    let b = choose|b: int|
                        0 <= b < count && #[trigger] mid.blocks[b] != before.blocks[b];
                    assert(func@.blocks[b] == mid.blocks[b]);
                } else {
                    assert(mid.insts != before.insts) by {
                        if mid.insts == before.insts {
                            assert(mid =~= before);
                        }
                    }
                    lemma_differ(mid.insts, before.insts);
                    let j = choose|j: int|
                        0 <= j < before.insts.len() && #[trigger] mid.insts[j] != before.insts[j];
                    let id = InstId(j as usize);
                    assert(placed_from(before, rest as int, id));
                    lemma_placed_from(before, at as int, id);
                    assert(func@.insts[j] == mid.insts[j]);
                }
            } else {
                assert(mid == before);
                if !same {
                    assert(func@.blocks[at as int].predecessors
                        != before.blocks[at as int].predecessors);
                } else {
                    assert(func@.blocks =~= before.blocks) by {
                        assert(func@.blocks[at as int] =~= before.blocks[at as int]);
                    }
                    if !dropped {
                        assert(func@ =~= before);
                    }
                }
            }
        }
        rest = at;
    }
    proof {
        let goal = repaired(before);
        assert(func@.blocks =~= goal.blocks);
        assert forall|j: int| 0 <= j < before.insts.len() implies #[trigger] func@.insts[j]
            == goal.insts[j] by {
            let id = InstId(j as usize);
            if is_placed(before, id) {
                let b = holder(before, id);
                assert(0 <= b.0 < before.blocks.len() && is_in(before, b, id));
            } else if placed_from(before, 0, id) {
                let b = choose|b: BlockId| 0 <= b.0 < before.blocks.len() && is_in(before, b, id);
                assert(has_block(before, b) && is_in(before, b, id));
            }
        }
        assert(func@.insts =~= goal.insts);
        assert(func@ =~= goal);
    }
    changed
}

/// Whether an instruction is in a block at position `start` or later.
spec fn placed_from(func: FunctionView, start: int, id: InstId) -> bool {
    exists|b: BlockId| start <= b.0 < func.blocks.len() && is_in(func, b, id)
}

/// What one more block adds.
proof fn lemma_placed_from(func: FunctionView, start: int, id: InstId)
    requires
        0 <= start < func.blocks.len() <= usize::MAX,
    ensures
        placed_from(func, start, id) <==> placed_from(func, start + 1, id) || is_in(
            func,
            BlockId(start as usize),
            id,
        ),
{
    if placed_from(func, start, id) {
        let b = choose|b: BlockId| start <= b.0 < func.blocks.len() && is_in(func, b, id);
        if b.0 > start {
            assert(start + 1 <= b.0 < func.blocks.len() && is_in(func, b, id));
        } else {
            assert(b == BlockId(start as usize));
        }
    }
    if placed_from(func, start + 1, id) {
        let b = choose|b: BlockId| start + 1 <= b.0 < func.blocks.len() && is_in(func, b, id);
        assert(start <= b.0 < func.blocks.len() && is_in(func, b, id));
    }
    let here = BlockId(start as usize);
    if is_in(func, here, id) {
        assert(start <= here.0 < func.blocks.len() && is_in(func, here, id));
    }
}

// ---------------------------------------------------------------------------
// Replacing uses of values
// ---------------------------------------------------------------------------

/// What a value is replaced by, in one step.
pub open spec fn replaced(replacements: Map<usize, ValueId>, value: ValueId) -> ValueId {
    if replacements.contains_key(value.0) {
        replacements[value.0]
    } else {
        value
    }
}

/// Whether a value is replaced by nothing else.
pub open spec fn is_settled(replacements: Map<usize, ValueId>, value: ValueId) -> bool {
    replaced(replacements, value) == value
}

/// What a value is replaced by, in so many steps.
pub open spec fn followed(
    replacements: Map<usize, ValueId>,
    value: ValueId,
    steps: nat,
) -> ValueId
    decreases steps,
{
    if steps == 0 {
        value
    } else {
        replaced(replacements, followed(replacements, value, (steps - 1) as nat))
    }
}

/// Whether following the replacements of a value comes to an end.
pub open spec fn settles(replacements: Map<usize, ValueId>, value: ValueId) -> bool {
    exists|steps: nat| is_settled(replacements, #[trigger] followed(replacements, value, steps))
}

/// The value at the end of the replacements of a value.
pub open spec fn canonical(replacements: Map<usize, ValueId>, value: ValueId) -> ValueId {
    followed(
        replacements,
        value,
        choose|steps: nat|
            is_settled(replacements, #[trigger] followed(replacements, value, steps)),
    )
}

/// A settled value stays what it is.
proof fn lemma_settled(replacements: Map<usize, ValueId>, value: ValueId, i: nat, j: nat)
    requires
        i <= j,
        is_settled(replacements, followed(replacements, value, i)),
    ensures
        followed(replacements, value, j) == followed(replacements, value, i),
    decreases j - i,
{
    if i < j {
        lemma_settled(replacements, value, i, (j - 1) as nat);
    }
}

/// Wherever following the replacements ends, it ends at the canonical value.
pub proof fn lemma_canonical(replacements: Map<usize, ValueId>, value: ValueId, steps: nat)
    requires
        is_settled(replacements, followed(replacements, value, steps)),
    ensures
        settles(replacements, value),
        canonical(replacements, value) == followed(replacements, value, steps),
        is_settled(replacements, canonical(replacements, value)),
{
    let other = choose|other: nat|
        is_settled(replacements, #[trigger] followed(replacements, value, other));
    if other <= steps {
        lemma_settled(replacements, value, other, steps);
    } else {
        lemma_settled(replacements, value, steps, other);
    }
}

/// What a use of a value becomes.
pub open spec fn replacement(
    replacements: Map<usize, ValueId>,
    value: ValueId,
    transitive: bool,
) -> ValueId {
    if transitive {
        canonical(replacements, value)
    } else {
        replaced(replacements, value)
    }
}

/// What a list of uses becomes.
pub open spec fn replacement_all(
    replacements: Map<usize, ValueId>,
    values: Seq<ValueId>,
    transitive: bool,
) -> Seq<ValueId> {
    Seq::new(values.len(), |i: int| replacement(replacements, values[i], transitive))
}

/// At how many positions two lists differ.
pub open spec fn differences(before: Seq<ValueId>, after: Seq<ValueId>) -> nat
    decreases before.len(),
{
    if before.len() == 0 || before.len() != after.len() {
        0
    } else {
        differences(before.drop_last(), after.drop_last()) + if before.last() != after.last() {
            1nat
        } else {
            0nat
        }
    }
}

/// Whether following the replacements of every value of a list comes to an end.
pub open spec fn settle(replacements: Map<usize, ValueId>, values: Seq<ValueId>) -> bool {
    forall|i: int| 0 <= i < values.len() ==> settles(replacements, #[trigger] values[i])
}

/// Resolves a value through a replacement map until it reaches its canonical value.
pub fn resolve_replacement(value: ValueId, replacements: &HashMap<usize, ValueId>) -> (r: ValueId)
    requires
        settles(replacements@, value),
    ensures
        r == canonical(replacements@, value),
        is_settled(replacements@, r),
{
    broadcast use vstd::std_specs::hash::group_hash_axioms;

    let ghost end = choose|steps: nat|
        is_settled(replacements@, #[trigger] followed(replacements@, value, steps));
    let ghost mut steps: nat = 0;
    let mut current = value;
    loop
        invariant
            steps <= end,
            is_settled(replacements@, followed(replacements@, value, end)),
            current == followed(replacements@, value, steps),
        ensures
            is_settled(replacements@, current),
        decreases end - steps,
    {
        match replacements.get(&current.0) {
            Some(next) => {
                if *next == current {
                    break;
                }
                proof {
                    assert(steps != end);
                    steps = steps + 1;
                }
                current = *next;
            },
            None => {
                break;
            },
        }
    }
    proof {
        lemma_canonical(replacements@, value, steps);
    }
    current
}

/// What one use becomes.
fn replace_value(
    value: ValueId,
    replacements: &HashMap<usize, ValueId>,
    transitive: bool,
) -> (r: ValueId)
    requires
        transitive ==> settles(replacements@, value),
    ensures
        r == replacement(replacements@, value, transitive),
{
    broadcast use vstd::std_specs::hash::group_hash_axioms;

    if transitive {
        resolve_replacement(value, replacements)
    } else {
        match replacements.get(&value.0) {
            Some(next) => *next,
            None => value,
        }
    }
}

/// What a list of uses becomes, and how many of them change.
fn replace_values(
    values: &Vec<ValueId>,
    replacements: &HashMap<usize, ValueId>,
    transitive: bool,
) -> (r: (Vec<ValueId>, usize))
    requires
        transitive ==> settle(replacements@, values@),
    ensures
        r.0@ == replacement_all(replacements@, values@, transitive),
        r.1 == differences(values@, r.0@),
{
    let mut out: Vec<ValueId> = Vec::new();
    let mut count: usize = 0;
    let mut i: usize = 0;
    while i < values.len()
        invariant
            i <= values@.len(),
            transitive ==> settle(replacements@, values@),
            out@ == replacement_all(replacements@, values@.take(i as int), transitive),
            count == differences(values@.take(i as int), out@),
            count <= i,
        decreases values@.len() - i,
    {
        let ghost done = out@;
        let value = values[i];
        let new_value = replace_value(value, replacements, transitive);
        out.push(new_value);
        proof {
            assert(values@.take(i + 1).drop_last() =~= values@.take(i as int));
            assert(out@.drop_last() =~= done);
            assert(out@ =~= replacement_all(replacements@, values@.take(i + 1), transitive));
        }
        if new_value != value {
            count = count + 1;
        }
        i = i + 1;
    }
    assert(values@.take(i as int) =~= values@);
    (out, count)
}

/// Replaces instruction operands according to a one-step replacement map.
/// Returns how many changed.
pub fn replace_inst_uses(kind: &mut InstKind, replacements: &HashMap<usize, ValueId>) -> (r: usize)
    ensures
        final(kind)@ == with_operands_of(
            old(kind)@,
            replacement_all(replacements@, operands_of(old(kind)@), false),
        ),
        r == differences(operands_of(old(kind)@), operands_of(final(kind)@)),
{
    replace_inst_operands(kind, replacements, false)
}

/// Replaces instruction operands according to a canonicalized replacement map.
/// Returns how many changed.
pub fn replace_inst_uses_canonicalized(
    kind: &mut InstKind,
    replacements: &HashMap<usize, ValueId>,
) -> (r: usize)
    requires
        settle(replacements@, operands_of(old(kind)@)),
    ensures
        final(kind)@ == with_operands_of(
            old(kind)@,
            replacement_all(replacements@, operands_of(old(kind)@), true),
        ),
        r == differences(operands_of(old(kind)@), operands_of(final(kind)@)),
{
    replace_inst_operands(kind, replacements, true)
}

/// Replaces terminator operands according to a one-step replacement map.
/// Returns how many changed.
pub fn replace_terminator_uses(
    term: &mut Terminator,
    replacements: &HashMap<usize, ValueId>,
) -> (r: usize)
    ensures
        final(term)@ == with_term_operands(
            old(term)@,
            replacement_all(replacements@, term_operands(old(term)@), false),
        ),
        r == differences(term_operands(old(term)@), term_operands(final(term)@)),
{
    replace_terminator_operands(term, replacements, false)
}

/// Replaces terminator operands according to a canonicalized replacement map.
/// Returns how many changed.
pub fn replace_terminator_uses_canonicalized(
    term: &mut Terminator,
    replacements: &HashMap<usize, ValueId>,
) -> (r: usize)
    requires
        settle(replacements@, term_operands(old(term)@)),
    ensures
        final(term)@ == with_term_operands(
            old(term)@,
            replacement_all(replacements@, term_operands(old(term)@), true),
        ),
        r == differences(term_operands(old(term)@), term_operands(final(term)@)),
{
    replace_terminator_operands(term, replacements, true)
}

/// An instruction on other operands has those operands.
pub proof fn lemma_with_operands(kind: KindView, operands: Seq<ValueId>)
    requires
        operands.len() == operands_of(kind).len(),
    ensures
        operands_of(with_operands_of(kind, operands)) == operands,
{
    assert(operands_of(with_operands_of(kind, operands)) =~= operands);
}

fn replace_inst_operands(
    kind: &mut InstKind,
    replacements: &HashMap<usize, ValueId>,
    transitive: bool,
) -> (r: usize)
    requires
        transitive ==> settle(replacements@, operands_of(old(kind)@)),
    ensures
        final(kind)@ == with_operands_of(
            old(kind)@,
            replacement_all(replacements@, operands_of(old(kind)@), transitive),
        ),
        r == differences(operands_of(old(kind)@), operands_of(final(kind)@)),
{
    let operands = kind.operands();
    let (new_operands, count) = replace_values(&operands, replacements, transitive);
    let mut taken = InstKind::MSize;
    core::mem::swap(&mut taken, kind);
    *kind = taken.with_operands(&new_operands);
    proof {
        lemma_with_operands(old(kind)@, new_operands@);
    }
    count
}

/// The same terminator on other operands.
pub open spec fn with_term_operands(term: TermView, operands: Seq<ValueId>) -> TermView {
    match term {
        TermView::Jump(_) | TermView::Stop | TermView::Invalid => term,
        TermView::Branch { condition, then_block, else_block } => TermView::Branch {
            condition: operands[0],
            then_block,
            else_block,
        },
        TermView::Switch { value, default, cases } => TermView::Switch {
            value: operands[0],
            default,
            cases: Seq::new(cases.len(), |i: int| (operands[i + 1], cases[i].1)),
        },
        TermView::Return(_) => TermView::Return(operands),
        TermView::TailCall { function, args } => TermView::TailCall { function, args: operands },
        TermView::Revert { offset, size } => TermView::Revert {
            offset: operands[0],
            size: operands[1],
        },
        TermView::ReturnData { offset, size } => TermView::ReturnData {
            offset: operands[0],
            size: operands[1],
        },
        TermView::SelfDestruct { recipient } => TermView::SelfDestruct { recipient: operands[0] },
    }
}

/// A terminator on other operands has those operands.
pub proof fn lemma_with_term_operands(term: TermView, operands: Seq<ValueId>)
    requires
        operands.len() == term_operands(term).len(),
    ensures
        term_operands(with_term_operands(term, operands)) == operands,
        successors_of(with_term_operands(term, operands)) == successors_of(term),
{
    let after = with_term_operands(term, operands);
    assert(term_operands(after) =~= operands) by {
        if let TermView::Switch { value, default, cases } = term {
            assert forall|i: int| 0 <= i < operands.len() implies term_operands(after)[i]
                == operands[i] by {
                if i > 0 {
                    assert(term_operands(after)[i] == operands[(i - 1) + 1]);
                }
            }
        }
    }
    assert(successors_of(after) =~= successors_of(term));
}

/// The operands of a terminator, in order.
fn terminator_operands(term: &Terminator) -> (r: Vec<ValueId>)
    ensures
        r@ == term_operands(term@),
{
    match term {
        Terminator::Jump(_) | Terminator::Stop | Terminator::Invalid => Vec::new(),
        Terminator::Branch { condition, .. } => vec![*condition],
        Terminator::Switch { value, cases, .. } => {
            let mut operands: Vec<ValueId> = vec![*value];
            let mut i: usize = 0;
            while i < cases.len()
                invariant
                    i <= cases@.len(),
                    operands@ =~= seq![*value] + cases@.take(i as int).map_values(
                        |case: (ValueId, BlockId)| case.0,
                    ),
                decreases cases@.len() - i,
            {
                operands.push(cases[i].0);
                i = i + 1;
            }
            assert(cases@.take(i as int) =~= cases@);
            operands
        },
        Terminator::Return { values } => list_values(values),
        Terminator::TailCall { args, .. } => list_values(args),
        Terminator::Revert { offset, size } => vec![*offset, *size],
        Terminator::ReturnData { offset, size } => vec![*offset, *size],
        Terminator::SelfDestruct { recipient } => vec![*recipient],
    }
}

/// The values of a short list.
fn list_values(list: &ValueList) -> (r: Vec<ValueId>)
    ensures
        r@ == list@,
{
    let count: usize = list.len();
    let mut values: Vec<ValueId> = Vec::new();
    let mut i: usize = 0;
    while i < count
        invariant
            i <= count,
            count == list@.len(),
            values@ == list@.take(i as int),
        decreases count - i,
    {
        values.push(list.get(i));
        i = i + 1;
    }
    assert(list@.take(i as int) =~= list@);
    values
}

/// The same terminator on other operands.
fn terminator_with(term: Terminator, operands: &Vec<ValueId>) -> (r: Terminator)
    requires
        operands@.len() == term_operands(term@).len(),
    ensures
        r@ == with_term_operands(term@, operands@),
{
    match term {
        Terminator::Branch { then_block, else_block, .. } => Terminator::Branch {
            condition: operands[0],
            then_block,
            else_block,
        },
        Terminator::Switch { default, cases, .. } => {
            let mut new_cases: Vec<(ValueId, BlockId)> = Vec::new();
            let mut i: usize = 0;
            while i < cases.len()
                invariant
                    i <= cases@.len(),
                    operands@.len() == cases@.len() + 1,
                    new_cases@.len() == i,
                    forall|k: int|
                        0 <= k < i ==> #[trigger] new_cases@[k] == (operands@[k + 1], cases@[k].1),
                decreases cases@.len() - i,
            {
                new_cases.push((operands[i + 1], cases[i].1));
                i = i + 1;
            }
            assert(new_cases@ =~= Seq::new(cases@.len(), |i: int| (operands@[i + 1], cases@[i].1)));
            Terminator::Switch { value: operands[0], default, cases: new_cases }
        },
        Terminator::Return { .. } => Terminator::Return { values: value_list(operands) },
        Terminator::TailCall { function, .. } => Terminator::TailCall {
            function,
            args: value_list(operands),
        },
        Terminator::Revert { .. } => Terminator::Revert { offset: operands[0], size: operands[1] },
        Terminator::ReturnData { .. } => Terminator::ReturnData {
            offset: operands[0],
            size: operands[1],
        },
        Terminator::SelfDestruct { .. } => Terminator::SelfDestruct { recipient: operands[0] },
        other => other,
    }
}

fn replace_terminator_operands(
    term: &mut Terminator,
    replacements: &HashMap<usize, ValueId>,
    transitive: bool,
) -> (r: usize)
    requires
        transitive ==> settle(replacements@, term_operands(old(term)@)),
    ensures
        final(term)@ == with_term_operands(
            old(term)@,
            replacement_all(replacements@, term_operands(old(term)@), transitive),
        ),
        r == differences(term_operands(old(term)@), term_operands(final(term)@)),
{
    let operands = terminator_operands(term);
    let (new_operands, count) = replace_values(&operands, replacements, transitive);
    let mut taken = Terminator::Stop;
    core::mem::swap(&mut taken, term);
    *term = terminator_with(taken, &new_operands);
    proof {
        lemma_with_term_operands(old(term)@, new_operands@);
    }
    count
}

// ---------------------------------------------------------------------------
// Classification
// ---------------------------------------------------------------------------

/// Which state-access instructions should receive storage-alias metadata.
#[derive(Clone, Copy, Debug, PartialEq, Eq, Structural)]
pub enum StorageAliasScope {
    /// Annotate persistent storage accesses only.
    Storage,
    /// Annotate persistent and transient storage accesses.
    StorageAndTransient,
}

/// Converts a U256 to a u64 when lossless.
pub fn u256_to_u64(value: U256) -> (r: Option<u64>)
    ensures
        r is Some <==> value@ <= u64::MAX,
        r matches Some(small) ==> small == value@,
{
    value.to_u64()
}

/// Whether an instruction's operands derive memory metadata.
pub open spec fn derives_memory_metadata(kind: KindView) -> bool {
    kind matches KindView::Inst { op, args } && (op is MLoad || op is MStore || op is MStore8
        || op is MemoryZero || op is MCopy || op is CalldataCopy || op is CodeCopy
        || op is ReturnDataCopy || op is ExtCodeCopy || op is Keccak256 || op is MappingSlotMemory)
}

/// Returns true for instructions whose operands derive memory metadata.
pub fn is_memory_inst(kind: &InstKind) -> (r: bool)
    ensures
        r == derives_memory_metadata(kind@),
{
    match kind {
        InstKind::MLoad(_)
        | InstKind::MStore(_, _)
        | InstKind::MStore8(_, _)
        | InstKind::MemoryZero(_, _)
        | InstKind::MCopy(_, _, _)
        | InstKind::CalldataCopy(_, _, _)
        | InstKind::CodeCopy(_, _, _)
        | InstKind::ReturnDataCopy(_, _, _)
        | InstKind::ExtCodeCopy(_, _, _, _)
        | InstKind::Keccak256(_, _)
        | InstKind::MappingSlotMemory(_, _) => true,
        _ => false,
    }
}

} // verus!
