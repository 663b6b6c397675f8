//! Words that are written one behind the other, and what goes out of a call.

use crate::hir::Builtin;
use crate::lower::emit::memory_copied;
use crate::lower::handlers::{arguments_written, event_words_stored, logged};
use crate::lower::names::builtin_value;
use crate::lower::objects::{loaded_at, results_loaded};
use crate::lower::place_laws::law_loaded_at;
use crate::lower::slots::{offsets_added, slot_added};
use crate::mir::bits::{lemma_other_word, lemma_stored_word};
use crate::mir::builder::{constant, emitted, group_builder_steps, word, BuilderView};
use crate::mir::function::{next_inst, next_value, FunctionView};
use crate::mir::inst::{effect_of, inst, KindView, Op};
use crate::mir::meaning::{
    leads, performed, with_range, word_at, word_in, words_in, Frame, Outcome,
};
use crate::mir::mnemonics::{mnemonic, operand_count};
use crate::mir::runs::{
    ends_at, group_growth, group_spots, grows, is_open, known_by, lemma_held_kept,
    lemma_held_stored, lemma_leads_here, lemma_leads_next, lemma_leads_on, lemma_leads_stored,
    lemma_runs_computed, lemma_runs_nothing, runs, storing, undisturbed,
};
use crate::mir::types::{BlockId, MirType, ValueId};
use crate::word::word_modulus;
use vstd::arithmetic::div_mod::lemma_small_mod;
use vstd::prelude::*;

verus! {

/// Whether words are written one behind the other, and nothing but memory changed.
pub open spec fn written(
    f: FunctionView,
    frame: Frame,
    values: Seq<ValueId>,
    count: nat,
    start: nat,
    to: Frame,
) -> bool {
    &&& to == (Frame { memory: to.memory, ..frame })
    &&& forall|i: int|
        0 <= i < count ==> #[trigger] word_at(to.memory, (start + 32 * i) as nat) == word_in(
            f,
            frame,
            values[i],
        )
}

/// One word more is written.
proof fn lemma_written_further(
    f: FunctionView,
    frame: Frame,
    values: Seq<ValueId>,
    count: nat,
    start: nat,
    to: Frame,
)
    requires
        written(f, frame, values, count, start, to),
        word_in(f, frame, values[count as int]) < word_modulus(),
    ensures
        written(
            f,
            frame,
            values,
            count + 1,
            start,
            storing(to, start + 32 * count, word_in(f, frame, values[count as int])),
        ),
{
    let number = word_in(f, frame, values[count as int]);
    let further = storing(to, start + 32 * count, number);
    lemma_stored_word(to.memory, start + 32 * count, number);
    assert forall|i: int| 0 <= i < count + 1 implies #[trigger] word_at(
        further.memory,
        (start + 32 * i) as nat,
    ) == word_in(f, frame, values[i]) by {
        if i < count {
            lemma_other_word(to.memory, start + 32 * count, number, (start + 32 * i) as nat);
            assert(word_at(to.memory, (start + 32 * i) as nat) == word_in(f, frame, values[i]));
        }
    }
}

/// Writing arguments leaves the block open.
proof fn lemma_arguments_open(b: BuilderView, args: Seq<ValueId>, count: nat)
    requires
        is_open(b.func, b.block),
    ensures
        is_open(arguments_written(b, args, count).func, arguments_written(b, args, count).block),
    decreases count,
{
    broadcast use {group_growth, group_builder_steps};

    reveal(arguments_written);
    if count > 0 {
        lemma_arguments_open(b, args, (count - 1) as nat);
    }
}

/// The arguments of a call are written behind the four bytes of the selector, each in a
/// word, in their order.
pub proof fn law_arguments_written(
    b: BuilderView,
    args: Seq<ValueId>,
    count: nat,
    f: FunctionView,
    came: BlockId,
    frame: Frame,
) -> (to: Frame)
    requires
        is_open(b.func, b.block),
        grows(arguments_written(b, args, count).func, f),
        count <= args.len(),
        4 + 32 * count <= u64::MAX,
        forall|i: int| 0 <= i < count ==> word_in(f, frame, #[trigger] args[i]) < word_modulus(),
    ensures
        leads(
            f,
            ends_at(b, came, frame),
            Outcome::At(ends_at(arguments_written(b, args, count), came, to)),
        ),
        written(f, frame, args, count, 4, to),
        grows(b.func, f),
    decreases count,
{
    broadcast use {group_growth, group_builder_steps, group_spots, lemma_held_stored};

    reveal(arguments_written);
    if count == 0 {
        lemma_leads_here(f, ends_at(b, came, frame));
        frame
    } else {
        let fewer = (count - 1) as nat;
        lemma_arguments_open(b, args, fewer);
        let b1 = arguments_written(b, args, fewer);
        let offset = next_value(b1.func);
        let b2 = constant(b1, word((4 + (count - 1) * 32) as u64));
        let before = law_arguments_written(b, args, fewer, f, came, frame);
        lemma_leads_stored(f, b2, offset, args[count - 1], came, before);
        assert(word_in(f, before, offset) == 4 + 32 * fewer);
        assert(word_in(f, before, args[count - 1]) == word_in(f, frame, args[count - 1]));
        lemma_written_further(f, frame, args, fewer, 4, before);
        let to = storing(before, 4 + 32 * fewer, word_in(f, frame, args[count - 1]));
        lemma_leads_on(
            f,
            ends_at(b, came, frame),
            ends_at(b1, came, before),
            Outcome::At(ends_at(arguments_written(b, args, count), came, to)),
        );
        to
    }
}

/// Storing the data of an event leaves the block open.
proof fn lemma_event_open(b: BuilderView, data: Seq<ValueId>, count: nat)
    requires
        is_open(b.func, b.block),
    ensures
        is_open(event_words_stored(b, data, count).func, event_words_stored(b, data, count).block),
    decreases count,
{
    broadcast use {group_growth, group_builder_steps};

    reveal(event_words_stored);
    if count > 0 {
        lemma_event_open(b, data, (count - 1) as nat);
    }
}

/// The data of an event is stored from the start of the memory on, each value in a word,
/// in their order.
pub proof fn law_event_words_stored(
    b: BuilderView,
    data: Seq<ValueId>,
    count: nat,
    f: FunctionView,
    came: BlockId,
    frame: Frame,
) -> (to: Frame)
    requires
        is_open(b.func, b.block),
        grows(event_words_stored(b, data, count).func, f),
        count <= data.len(),
        32 * count <= u64::MAX,
        forall|i: int| 0 <= i < count ==> word_in(f, frame, #[trigger] data[i]) < word_modulus(),
    ensures
        leads(
            f,
            ends_at(b, came, frame),
            Outcome::At(ends_at(event_words_stored(b, data, count), came, to)),
        ),
        written(f, frame, data, count, 0, to),
        grows(b.func, f),
    decreases count,
{
    broadcast use {group_growth, group_builder_steps, group_spots, lemma_held_stored};

    reveal(event_words_stored);
    if count == 0 {
        lemma_leads_here(f, ends_at(b, came, frame));
        frame
    } else {
        let fewer = (count - 1) as nat;
        lemma_event_open(b, data, fewer);
        let b1 = event_words_stored(b, data, fewer);
        let offset = next_value(b1.func);
        let b2 = constant(b1, word(((count - 1) * 32) as u64));
        let before = law_event_words_stored(b, data, fewer, f, came, frame);
        lemma_leads_stored(f, b2, offset, data[count - 1], came, before);
        assert(word_in(f, before, offset) == 32 * fewer);
        assert(word_in(f, before, data[count - 1]) == word_in(f, frame, data[count - 1]));
        lemma_written_further(f, frame, data, fewer, 0, before);
        let to = storing(before, 32 * fewer, word_in(f, frame, data[count - 1]));
        lemma_leads_on(
            f,
            ends_at(b, came, frame),
            ends_at(b1, came, before),
            Outcome::At(ends_at(event_words_stored(b, data, count), came, to)),
        );
        to
    }
}

/// An event is logged by the operation that takes as many topics as the event has, with
/// its data first and the topics in their order.
pub proof fn law_logged(
    b: BuilderView,
    offset: ValueId,
    size: ValueId,
    topics: Seq<ValueId>,
    f: FunctionView,
)
    requires
        is_open(b.func, b.block),
        topics.len() <= 4,
        grows(logged(b, offset, size, topics).func, f),
    ensures
        ({
            let kind = f.insts[b.func.insts.len() as int].kind;
            &&& effect_of(kind) is Log
            &&& kind matches KindView::Inst { op, args } && operand_count(op) == Some(args.len())
                && args == seq![offset, size] + topics
        }),
{
    broadcast use {group_growth, group_builder_steps};

}

/// Where memory can be copied, a copy moves every byte to its place and leaves the other
/// bytes alone.
pub proof fn law_memory_copied(
    b: BuilderView,
    dest: ValueId,
    src: ValueId,
    len: ValueId,
    f: FunctionView,
    came: BlockId,
    frame: Frame,
) -> (to: Frame)
    requires
        is_open(b.func, b.block),
        grows(memory_copied(b, true, dest, src, len).func, f),
    ensures
        leads(
            f,
            ends_at(b, came, frame),
            Outcome::At(ends_at(memory_copied(b, true, dest, src, len), came, to)),
        ),
        to == (Frame { memory: to.memory, ..frame }),
        ({
            let (d, s, n) = (
                word_in(f, frame, dest),
                word_in(f, frame, src),
                word_in(f, frame, len),
            );
            forall|i: int|
                #[trigger] (to.memory)(i) == if d <= i < d + n {
                    (frame.memory)(s + (i - d))
                } else {
                    (frame.memory)(i)
                }
        }),
{
    broadcast use {group_growth, group_builder_steps, group_spots};

    reveal(memory_copied);
    let kind = inst(Op::MCopy, seq![dest, src, len]);
    let a = words_in(f, frame, seq![dest, src, len]);
    assert(a[0] == word_in(f, frame, dest) && a[1] == word_in(f, frame, src) && a[2] == word_in(
        f,
        frame,
        len,
    ));
    let to = Frame { memory: with_range(frame.memory, a[0], frame.memory, a[1], a[2]), ..frame };
    assert(performed(f, frame, came, next_inst(b.func), kind) == Some(to));
    lemma_leads_next(
        f,
        ends_at(b, came, frame),
        Outcome::At(ends_at(emitted(b, kind, None), came, to)),
    );
    to
}

/// The sum of the first offsets.
pub open spec fn offset_sum(offsets: Seq<u64>, count: nat) -> nat
    decreases count,
{
    if count == 0 {
        0
    } else {
        offset_sum(offsets, (count - 1) as nat) + offsets[count - 1] as nat
    }
}

/// A sum of offsets leaves the block open.
proof fn lemma_offsets_open(b: BuilderView, slot: ValueId, offsets: Seq<u64>, count: nat)
    requires
        is_open(b.func, b.block),
    ensures
        is_open(
            offsets_added(b, slot, offsets, count).0.func,
            offsets_added(b, slot, offsets, count).0.block,
        ),
        offsets_added(b, slot, offsets, count).0.func.insts.len() == b.func.insts.len() + count,
    decreases count,
{
    broadcast use {group_growth, group_builder_steps};

    reveal(offsets_added);
    if count > 0 {
        lemma_offsets_open(b, slot, offsets, (count - 1) as nat);
    }
}

/// A member of a member is behind the slot by the sum of their offsets.
pub proof fn law_offsets_added(
    b: BuilderView,
    slot: ValueId,
    offsets: Seq<u64>,
    count: nat,
    f: FunctionView,
    came: BlockId,
    frame: Frame,
) -> (to: Frame)
    requires
        is_open(b.func, b.block),
        grows(offsets_added(b, slot, offsets, count).0.func, f),
        count <= offsets.len(),
        known_by(f, slot, b.func.insts.len()),
        word_in(f, frame, slot) + offset_sum(offsets, count) < word_modulus(),
    ensures
        grows(b.func, f),
        runs(f, b, offsets_added(b, slot, offsets, count).0, came, frame, to),
        known_by(
            f,
            offsets_added(b, slot, offsets, count).1,
            offsets_added(b, slot, offsets, count).0.func.insts.len(),
        ),
        word_in(f, to, offsets_added(b, slot, offsets, count).1) == word_in(f, frame, slot)
            + offset_sum(offsets, count),
    decreases count,
{
    broadcast use {group_growth, group_builder_steps, group_spots, lemma_held_kept};

    reveal(offsets_added);
    if count == 0 {
        lemma_runs_nothing(f, b, came, frame);
        frame
    } else {
        let fewer = (count - 1) as nat;
        lemma_offsets_open(b, slot, offsets, fewer);
        let (b1, front) = offsets_added(b, slot, offsets, fewer);
        let off = next_value(b1.func);
        let b2 = constant(b1, word(offsets[count - 1]));
        assert(offsets_added(b, slot, offsets, count) == slot_added(b1, front, offsets[count - 1]));
        let before = law_offsets_added(b, slot, offsets, fewer, f, came, frame);
        let sum = word_in(f, frame, slot) + offset_sum(offsets, count);
        lemma_small_mod(sum, word_modulus());
        assert(words_in(f, before, seq![front, off])[0] == word_in(f, frame, slot) + offset_sum(
            offsets,
            fewer,
        ));
        assert(words_in(f, before, seq![front, off])[1] == offsets[count - 1]);
        lemma_runs_computed(
            f,
            b,
            b2,
            Op::Add,
            seq![front, off],
            Some(MirType::uint256()),
            came,
            frame,
            before,
        )
    }
}

/// What the machine calls a value of the call, the block or the transaction.
pub open spec fn machine_name(builtin: Builtin) -> Option<Seq<char>> {
    match builtin {
        Builtin::MsgSender => Some("caller"@),
        Builtin::MsgValue => Some("callvalue"@),
        Builtin::BlockCoinbase => Some("coinbase"@),
        Builtin::BlockTimestamp => Some("timestamp"@),
        Builtin::BlockDifficulty | Builtin::BlockPrevrandao => Some("prevrandao"@),
        Builtin::BlockNumber => Some("number"@),
        Builtin::BlockGaslimit => Some("gaslimit"@),
        Builtin::BlockChainid => Some("chainid"@),
        Builtin::BlockBasefee => Some("basefee"@),
        Builtin::BlockBlobbasefee => Some("blobbasefee"@),
        Builtin::TxOrigin => Some("origin"@),
        Builtin::TxGasPrice => Some("gasprice"@),
        Builtin::Gasleft | Builtin::MsgGas => Some("gas"@),
        Builtin::This => Some("address"@),
        _ => None,
    }
}

/// A value of the call, the block or the transaction is read by the operation that has
/// the machine's name for it.
pub proof fn law_builtin_names(b: BuilderView, builtin: Builtin, f: FunctionView)
    requires
        is_open(b.func, b.block),
        machine_name(builtin) is Some,
        builtin_value(b, builtin) matches Ok((built, _)) ==> grows(built.func, f),
    ensures
        builtin_value(b, builtin) matches Ok((built, value)) && value == next_value(b.func),
        f.insts[b.func.insts.len() as int].kind matches KindView::Inst { op, args } && mnemonic(op)
            == machine_name(builtin)->0 && args.len() == 0,
{
    broadcast use {group_growth, group_builder_steps};

}

/// Loading results leaves the block open.
proof fn lemma_results_open(b: BuilderView, base: ValueId, from: nat, end: nat)
    requires
        is_open(b.func, b.block),
    ensures
        is_open(
            results_loaded(b, base, from, end).0.func,
            results_loaded(b, base, from, end).0.block,
        ),
        results_loaded(b, base, from, end).0.func.insts.len() >= b.func.insts.len(),
        from <= end ==> results_loaded(b, base, from, end).1.len() == end - from,
    decreases end,
{
    broadcast use {group_growth, group_builder_steps};

    reveal(results_loaded);
    reveal(loaded_at);
    if end > from {
        lemma_results_open(b, base, from, (end - 1) as nat);
    }
}

/// The results of a call are loaded from a buffer, each from its own word, in their order.
pub proof fn law_results_loaded(
    b: BuilderView,
    base: ValueId,
    from: nat,
    end: nat,
    f: FunctionView,
    came: BlockId,
    frame: Frame,
) -> (to: Frame)
    requires
        is_open(b.func, b.block),
        grows(results_loaded(b, base, from, end).0.func, f),
        known_by(f, base, b.func.insts.len()),
        from <= end,
        32 * end <= u64::MAX,
        word_in(f, frame, base) + 32 * end < word_modulus(),
    ensures
        grows(b.func, f),
        runs(f, b, results_loaded(b, base, from, end).0, came, frame, to),
        results_loaded(b, base, from, end).1.len() == end - from,
        forall|i: int|
            0 <= i < end - from ==> {
                let value = #[trigger] results_loaded(b, base, from, end).1[i];
                &&& known_by(f, value, results_loaded(b, base, from, end).0.func.insts.len())
                &&& word_in(f, to, value) == word_at(
                    frame.memory,
                    (word_in(f, frame, base) + 32 * (from + i)) as nat,
                )
            },
    decreases end,
{
    broadcast use {group_growth, group_builder_steps, group_spots, lemma_held_kept};

    reveal(results_loaded);
    if end <= from {
        lemma_runs_nothing(f, b, came, frame);
        frame
    } else {
        let fewer = (end - 1) as nat;
        lemma_results_open(b, base, from, fewer);
        let (b1, front) = results_loaded(b, base, from, fewer);
        let (b2, value) = loaded_at(b1, base, ((end - 1) * 32) as u64);
        assert(results_loaded(b, base, from, end) == (b2, front.push(value)));
        assert(grows(b1.func, f) && b2.func.insts.len() >= b1.func.insts.len()) by {
            reveal(loaded_at);
        }
        let before = law_results_loaded(b, base, from, fewer, f, came, frame);
        let to = law_loaded_at(b1, base, ((end - 1) * 32) as u64, f, came, before);
        lemma_leads_on(
            f,
            ends_at(b, came, frame),
            ends_at(b1, came, before),
            Outcome::At(ends_at(b2, came, to)),
        );
        assert(undisturbed(b.func.insts.len(), frame, to) && before.memory == frame.memory) by {
            reveal(undisturbed);
        }
        assert forall|i: int| 0 <= i < end - from implies {
            let value = #[trigger] front.push(value)[i];
            &&& known_by(f, value, b2.func.insts.len())
            &&& word_in(f, to, value) == word_at(
                frame.memory,
                (word_in(f, frame, base) + 32 * (from + i)) as nat,
            )
        } by {
            if i < fewer - from {
                assert(front.push(value)[i] == front[i]);
                assert(word_in(f, to, front[i]) == word_in(f, before, front[i]));
            }
        }
        to
    }
}

} // verus!
