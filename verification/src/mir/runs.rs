//! Runs of functions that are being built.
//!
//! Code that is built runs in every function that grows out of the one it was
//! built in.

use crate::mir::builder::{
    blocked, builder_wf, constant, emitted, ended, group_builder_steps, valued, BuilderView,
};
use crate::mir::function::{
    function_wf, has_block, has_value, next_inst, next_value, sizes_fit, value_fits, FunctionView,
};
use crate::mir::inst::{inst, KindView, Op, TermView};
use crate::mir::meaning::{
    after, computed, gone, held, leads, next, performed, with_result, with_word, word_in, words_in,
    Datum, Frame, Outcome, Spot,
};
use crate::mir::types::{BlockId, MirType, Value, ValueId};
use vstd::prelude::*;

verus! {

/// Whether a block has no way out yet.
#[verifier::opaque]
pub open spec fn is_open(func: FunctionView, block: BlockId) -> bool {
    has_block(func, block) && func.blocks[block.0 as int].terminator is None
}

/// How many instructions a block has.
#[verifier::opaque]
pub open spec fn length(func: FunctionView, block: BlockId) -> nat {
    func.blocks[block.0 as int].instructions.len()
}

/// Whether a function has all that another one has, at the same places, and has
/// added nothing to its complete blocks.
#[verifier::opaque]
pub open spec fn grows(func: FunctionView, f: FunctionView) -> bool {
    &&& sizes_fit(f)
    &&& func.values.len() <= f.values.len()
    &&& func.insts.len() <= f.insts.len()
    &&& func.blocks.len() <= f.blocks.len()
    &&& forall|i: int| 0 <= i < func.values.len() ==> #[trigger] f.values[i] == func.values[i]
    &&& forall|i: int|
        0 <= i < func.insts.len() ==> (#[trigger] f.insts[i]).kind == func.insts[i].kind
    &&& forall|i: int|
        #![trigger f.blocks[i]]
        #![trigger func.blocks[i]]
        0 <= i < func.blocks.len() ==> {
            &&& func.blocks[i].instructions.len() <= f.blocks[i].instructions.len()
            &&& forall|k: int|
                0 <= k < func.blocks[i].instructions.len()
                    ==> #[trigger] f.blocks[i].instructions[k] == func.blocks[i].instructions[k]
            &&& func.blocks[i].terminator is Some ==> f.blocks[i].terminator
                == func.blocks[i].terminator && f.blocks[i].instructions.len()
                == func.blocks[i].instructions.len()
        }
}

/// What grows out of a function that grew grows out of the first.
pub proof fn lemma_grows_further(first: FunctionView, second: FunctionView, third: FunctionView)
    requires
        grows(first, second),
        grows(second, third),
    ensures
        grows(first, third),
{
    reveal(grows);
    assert forall|i: int| 0 <= i < first.blocks.len() implies {
        &&& first.blocks[i].instructions.len() <= (#[trigger] third.blocks[i]).instructions.len()
        &&& forall|k: int|
            0 <= k < first.blocks[i].instructions.len()
                ==> #[trigger] third.blocks[i].instructions[k] == first.blocks[i].instructions[k]
        &&& first.blocks[i].terminator is Some ==> third.blocks[i].terminator
            == first.blocks[i].terminator && third.blocks[i].instructions.len()
            == first.blocks[i].instructions.len()
    } by {
        assert(second.blocks[i].instructions.len() >= first.blocks[i].instructions.len());
        assert forall|k: int| 0 <= k < first.blocks[i].instructions.len() implies
            #[trigger] third.blocks[i].instructions[k] == first.blocks[i].instructions[k] by {
            assert(second.blocks[i].instructions[k] == first.blocks[i].instructions[k]);
        }
    }
}

/// What grows out of a function has at least as much, and all of it can be named.
pub broadcast proof fn lemma_grows_sizes(func: FunctionView, f: FunctionView)
    requires
        #[trigger] grows(func, f),
    ensures
        func.values.len() <= f.values.len() <= usize::MAX,
        func.insts.len() <= f.insts.len() <= usize::MAX,
        func.blocks.len() <= f.blocks.len() <= usize::MAX,
{
    reveal(grows);
}

/// Where an emitted instruction is, in what grows out of it.
pub broadcast proof fn lemma_grown_emitted(
    b: BuilderView,
    kind: KindView,
    ty: Option<MirType>,
    f: FunctionView,
)
    requires
        #[trigger] grows(emitted(b, kind, ty).func, f),
        is_open(b.func, b.block),
    ensures
        grows(b.func, f),
        f.insts[b.func.insts.len() as int].kind == kind,
        b.func.insts.len() < f.insts.len() <= usize::MAX,
        f.blocks[b.block.0 as int].instructions[length(b.func, b.block) as int] == next_inst(
            b.func,
        ),
        length(b.func, b.block) < f.blocks[b.block.0 as int].instructions.len(),
        b.func.values.len() <= f.values.len() <= usize::MAX,
        ty is Some ==> b.func.values.len() < f.values.len()
            && f.values[b.func.values.len() as int] == Value::Inst(next_inst(b.func)),
{
    reveal(grows);
    reveal(is_open);
    reveal(length);
    reveal(emitted);
    let later = emitted(b, kind, ty).func;
    let at = b.block.0 as int;
    assert(later.blocks[at].instructions[length(b.func, b.block) as int] == next_inst(b.func));
    assert(later.insts[b.func.insts.len() as int].kind == kind);
    if ty is Some {
        assert(later.values[b.func.values.len() as int] == Value::Inst(next_inst(b.func)));
    }
    assert forall|i: int| 0 <= i < b.func.values.len() implies #[trigger] f.values[i]
        == b.func.values[i] by {
        assert(later.values[i] == b.func.values[i]);
    }
    assert forall|i: int| 0 <= i < b.func.insts.len() implies (#[trigger] f.insts[i]).kind
        == b.func.insts[i].kind by {
        assert(later.insts[i] == b.func.insts[i]);
    }
    assert forall|i: int| 0 <= i < b.func.blocks.len() implies {
        &&& b.func.blocks[i].instructions.len() <= (#[trigger] f.blocks[i]).instructions.len()
        &&& forall|k: int|
            0 <= k < b.func.blocks[i].instructions.len()
                ==> #[trigger] f.blocks[i].instructions[k] == b.func.blocks[i].instructions[k]
        &&& b.func.blocks[i].terminator is Some ==> f.blocks[i].terminator
            == b.func.blocks[i].terminator && f.blocks[i].instructions.len()
            == b.func.blocks[i].instructions.len()
    } by {
        assert(later.blocks[i].terminator == b.func.blocks[i].terminator);
        assert forall|k: int| 0 <= k < b.func.blocks[i].instructions.len() implies
            #[trigger] f.blocks[i].instructions[k] == b.func.blocks[i].instructions[k] by {
            assert(later.blocks[i].instructions[k] == b.func.blocks[i].instructions[k]);
        }
    }
}

/// What an added value is, in what grows out of it.
pub broadcast proof fn lemma_grown_valued(b: BuilderView, value: Value, f: FunctionView)
    requires
        #[trigger] grows(valued(b, value).func, f),
    ensures
        grows(b.func, f),
        b.func.values.len() < f.values.len() <= usize::MAX,
        f.values[b.func.values.len() as int] == value,
{
    reveal(grows);
    reveal(valued);
    let later = valued(b, value).func;
    assert(later.values[b.func.values.len() as int] == value);
    assert forall|i: int| 0 <= i < b.func.values.len() implies #[trigger] f.values[i]
        == b.func.values[i] by {
        assert(later.values[i] == b.func.values[i]);
    }
}

/// What grows out of a function with one more block grows out of it.
pub broadcast proof fn lemma_grown_blocked(b: BuilderView, f: FunctionView)
    requires
        #[trigger] grows(blocked(b).func, f),
    ensures
        grows(b.func, f),
        b.func.blocks.len() < f.blocks.len() <= usize::MAX,
{
    reveal(grows);
    reveal(blocked);
    let later = blocked(b).func;
    assert forall|i: int| 0 <= i < b.func.blocks.len() implies {
        &&& b.func.blocks[i].instructions.len() <= (#[trigger] f.blocks[i]).instructions.len()
        &&& forall|k: int|
            0 <= k < b.func.blocks[i].instructions.len()
                ==> #[trigger] f.blocks[i].instructions[k] == b.func.blocks[i].instructions[k]
        &&& b.func.blocks[i].terminator is Some ==> f.blocks[i].terminator
            == b.func.blocks[i].terminator && f.blocks[i].instructions.len()
            == b.func.blocks[i].instructions.len()
    } by {
        assert(later.blocks[i] == b.func.blocks[i]);
    }
}

/// What the way out of a block is, in what grows out of it.
pub broadcast proof fn lemma_grown_ended(b: BuilderView, term: TermView, f: FunctionView)
    requires
        #[trigger] grows(ended(b, term).func, f),
        is_open(b.func, b.block),
    ensures
        grows(b.func, f),
        f.blocks[b.block.0 as int].terminator == Some(term),
        f.blocks[b.block.0 as int].instructions.len() == length(b.func, b.block),
{
    reveal(grows);
    reveal(is_open);
    reveal(length);
    reveal(ended);
    let later = ended(b, term).func;
    assert(later.blocks[b.block.0 as int].terminator == Some(term));
    assert forall|i: int| 0 <= i < b.func.blocks.len() implies {
        &&& b.func.blocks[i].instructions.len() <= (#[trigger] f.blocks[i]).instructions.len()
        &&& forall|k: int|
            0 <= k < b.func.blocks[i].instructions.len()
                ==> #[trigger] f.blocks[i].instructions[k] == b.func.blocks[i].instructions[k]
        &&& b.func.blocks[i].terminator is Some ==> f.blocks[i].terminator
            == b.func.blocks[i].terminator && f.blocks[i].instructions.len()
            == b.func.blocks[i].instructions.len()
    } by {
        assert(later.blocks[i].instructions == b.func.blocks[i].instructions);
        assert(i != b.block.0 ==> later.blocks[i].terminator == b.func.blocks[i].terminator);
    }
}

/// Emitting opens and completes no block, and one block gets longer.
pub broadcast proof fn lemma_open_emitted(
    b: BuilderView,
    kind: KindView,
    ty: Option<MirType>,
    block: BlockId,
)
    requires
        has_block(b.func, b.block),
    ensures
        #![trigger is_open(emitted(b, kind, ty).func, block)]
        #![trigger length(emitted(b, kind, ty).func, block)]
        is_open(emitted(b, kind, ty).func, block) == is_open(b.func, block),
        has_block(b.func, block) ==> length(emitted(b, kind, ty).func, block) == length(
            b.func,
            block,
        ) + if block == b.block {
            1int
        } else {
            0int
        },
{
    reveal(is_open);
    reveal(length);
    reveal(emitted);
}

/// Adding a value changes no block.
pub broadcast proof fn lemma_open_valued(b: BuilderView, value: Value, block: BlockId)
    ensures
        #![trigger is_open(valued(b, value).func, block)]
        #![trigger length(valued(b, value).func, block)]
        is_open(valued(b, value).func, block) == is_open(b.func, block),
        length(valued(b, value).func, block) == length(b.func, block),
{
    reveal(is_open);
    reveal(length);
    reveal(valued);
}

/// A new block is open and empty.
pub broadcast proof fn lemma_open_blocked(b: BuilderView, block: BlockId)
    ensures
        #![trigger is_open(blocked(b).func, block)]
        #![trigger length(blocked(b).func, block)]
        has_block(b.func, block) ==> is_open(blocked(b).func, block) == is_open(b.func, block),
        has_block(b.func, block) ==> length(blocked(b).func, block) == length(b.func, block),
        block.0 == b.func.blocks.len() ==> is_open(blocked(b).func, block) && length(
            blocked(b).func,
            block,
        ) == 0,
{
    reveal(is_open);
    reveal(length);
    reveal(blocked);
}

/// Ending a block completes it and no other.
pub broadcast proof fn lemma_open_ended(b: BuilderView, term: TermView, block: BlockId)
    requires
        has_block(b.func, b.block),
    ensures
        #![trigger is_open(ended(b, term).func, block)]
        #![trigger length(ended(b, term).func, block)]
        is_open(ended(b, term).func, block) == (block != b.block && is_open(b.func, block)),
        has_block(b.func, block) ==> length(ended(b, term).func, block) == length(b.func, block),
{
    reveal(is_open);
    reveal(length);
    reveal(ended);
}

/// An open block is one of the function.
pub broadcast proof fn lemma_open_exists(func: FunctionView, block: BlockId)
    requires
        #[trigger] is_open(func, block),
    ensures
        has_block(func, block),
{
    reveal(is_open);
}

/// The steps of a builder, in what grows out of them.
pub broadcast group group_growth {
    lemma_grows_sizes,
    lemma_grown_emitted,
    lemma_grown_valued,
    lemma_grown_blocked,
    lemma_grown_ended,
    lemma_open_emitted,
    lemma_open_valued,
    lemma_open_blocked,
    lemma_open_ended,
    lemma_open_exists,
}

/// The spot at the end of what is built.
pub open spec fn ends_at(b: BuilderView, came: BlockId, frame: Frame) -> Spot {
    Spot { block: b.block, index: length(b.func, b.block), came, frame }
}

/// Whether a frame differs from another at most in the results of instructions
/// from a number on.
#[verifier::opaque]
pub open spec fn undisturbed(count: nat, frame: Frame, to: Frame) -> bool {
    &&& to == (Frame { results: to.results, ..frame })
    &&& forall|id: int| 0 <= id < count ==> #[trigger] to.results[id] == frame.results[id]
}

/// Whether a value is one of the function and needs no instruction from a number
/// on.
pub open spec fn known_by(f: FunctionView, value: ValueId, count: nat) -> bool {
    value.0 < f.values.len() && (f.values[value.0 as int] matches Value::Inst(id) ==> id.0 < count)
}

/// Values that were known hold what they held.
pub broadcast proof fn lemma_held_kept(
    f: FunctionView,
    value: ValueId,
    count: nat,
    frame: Frame,
    to: Frame,
)
    requires
        #[trigger] undisturbed(count, frame, to),
        known_by(f, value, count),
    ensures
        #[trigger] held(f, to, value) == held(f, frame, value),
{
    reveal(undisturbed);
}

/// Whether the code between two states of a builder runs through, from one frame
/// to another that differs only in its own results.
pub open spec fn runs(
    f: FunctionView,
    b: BuilderView,
    built: BuilderView,
    came: BlockId,
    frame: Frame,
    to: Frame,
) -> bool {
    &&& leads(f, ends_at(b, came, frame), Outcome::At(ends_at(built, came, to)))
    &&& undisturbed(b.func.insts.len(), frame, to)
}

/// A run gets to where it is.
pub proof fn lemma_leads_here(f: FunctionView, s: Spot)
    ensures
        leads(f, s, Outcome::At(s)),
{
    reveal(leads);
    assert(after(f, s, 0) == Some(Outcome::At(s)));
}

/// A run gets to what comes next.
pub proof fn lemma_leads_next(f: FunctionView, s: Spot, to: Outcome)
    requires
        next(f, s) == Some(to),
    ensures
        leads(f, s, to),
{
    reveal(leads);
    reveal_with_fuel(after, 2);
    assert(after(f, s, 1) == Some(to));
}

/// Runs add up.
proof fn lemma_after_sum(f: FunctionView, s: Spot, first: nat, mid: Spot, second: nat, to: Outcome)
    requires
        after(f, s, first) == Some(Outcome::At(mid)),
        after(f, mid, second) == Some(to),
    ensures
        after(f, s, first + second) == Some(to),
    decreases first,
{
    if first > 0 {
        if let Some(Outcome::At(there)) = next(f, s) {
            lemma_after_sum(f, there, (first - 1) as nat, mid, second, to);
        }
    }
}

/// A run goes on from where it got to.
pub proof fn lemma_leads_on(f: FunctionView, s: Spot, mid: Spot, to: Outcome)
    requires
        leads(f, s, Outcome::At(mid)),
        leads(f, mid, to),
    ensures
        leads(f, s, to),
{
    reveal(leads);
    let first = choose|steps: nat| #[trigger] after(f, s, steps) == Some(Outcome::At(mid));
    let second = choose|steps: nat| #[trigger] after(f, mid, steps) == Some(to);
    lemma_after_sum(f, s, first, mid, second, to);
    assert(after(f, s, first + second) == Some(to));
}

/// No code runs through at once.
pub proof fn lemma_runs_nothing(f: FunctionView, b: BuilderView, came: BlockId, frame: Frame)
    ensures
        runs(f, b, b, came, frame, frame),
{
    reveal(undisturbed);
    lemma_leads_here(f, ends_at(b, came, frame));
}

/// Code runs through one instruction more.
pub proof fn lemma_runs_emitted(
    f: FunctionView,
    start: BuilderView,
    b: BuilderView,
    kind: KindView,
    ty: Option<MirType>,
    came: BlockId,
    first: Frame,
    frame: Frame,
    to: Frame,
)
    requires
        grows(emitted(b, kind, ty).func, f),
        is_open(b.func, b.block),
        runs(f, start, b, came, first, frame),
        performed(f, frame, came, next_inst(b.func), kind) == Some(to),
        undisturbed(start.func.insts.len(), frame, to),
    ensures
        runs(f, start, emitted(b, kind, ty), came, first, to),
{
    broadcast use {group_growth, group_builder_steps};

    let s = ends_at(b, came, frame);
    let e = ends_at(emitted(b, kind, ty), came, to);
    assert(next(f, s) == Some(Outcome::At(e)));
    lemma_leads_next(f, s, Outcome::At(e));
    lemma_leads_on(f, ends_at(start, came, first), s, Outcome::At(e));
    reveal(undisturbed);
}

/// Code runs through one instruction with a result more.
pub proof fn lemma_runs_result(
    f: FunctionView,
    start: BuilderView,
    b: BuilderView,
    kind: KindView,
    ty: Option<MirType>,
    came: BlockId,
    first: Frame,
    frame: Frame,
    datum: Datum,
) -> (to: Frame)
    requires
        grows(emitted(b, kind, ty).func, f),
        is_open(b.func, b.block),
        runs(f, start, b, came, first, frame),
        start.func.insts.len() <= b.func.insts.len(),
        ty is Some,
        performed(f, frame, came, next_inst(b.func), kind) == Some(
            with_result(frame, next_inst(b.func), datum),
        ),
    ensures
        runs(f, start, emitted(b, kind, ty), came, first, to),
        undisturbed(b.func.insts.len(), frame, to),
        held(f, to, next_value(b.func)) == datum,
        known_by(f, next_value(b.func), b.func.insts.len() + 1),
{
    broadcast use {group_growth, group_builder_steps};

    let to = with_result(frame, next_inst(b.func), datum);
    assert(undisturbed(start.func.insts.len(), frame, to) && undisturbed(
        b.func.insts.len(),
        frame,
        to,
    )) by {
        reveal(undisturbed);
    }
    lemma_runs_emitted(f, start, b, kind, ty, came, first, frame, to);
    to
}

/// Code runs through one computation more.
pub proof fn lemma_runs_computed(
    f: FunctionView,
    start: BuilderView,
    b: BuilderView,
    op: Op,
    args: Seq<ValueId>,
    ty: Option<MirType>,
    came: BlockId,
    first: Frame,
    frame: Frame,
) -> (to: Frame)
    requires
        grows(emitted(b, inst(op, args), ty).func, f),
        is_open(b.func, b.block),
        runs(f, start, b, came, first, frame),
        start.func.insts.len() <= b.func.insts.len(),
        ty is Some,
        computed(op, words_in(f, frame, args)) is Some,
    ensures
        runs(f, start, emitted(b, inst(op, args), ty), came, first, to),
        undisturbed(b.func.insts.len(), frame, to),
        held(f, to, next_value(b.func)) == Datum::Word(
            computed(op, words_in(f, frame, args))->0,
        ),
        known_by(f, next_value(b.func), b.func.insts.len() + 1),
{
    lemma_runs_result(
        f,
        start,
        b,
        inst(op, args),
        ty,
        came,
        first,
        frame,
        Datum::Word(computed(op, words_in(f, frame, args))->0),
    )
}

/// A constant holds itself and costs no step.
pub broadcast proof fn lemma_ends_valued(
    b: BuilderView,
    value: Value,
    came: BlockId,
    frame: Frame,
)
    ensures
        #[trigger] ends_at(valued(b, value), came, frame) == ends_at(b, came, frame),
{
    broadcast use {group_growth, group_builder_steps};

}

/// A new block costs no step.
pub broadcast proof fn lemma_ends_blocked(b: BuilderView, came: BlockId, frame: Frame)
    requires
        has_block(b.func, b.block),
    ensures
        #[trigger] ends_at(blocked(b), came, frame) == ends_at(b, came, frame),
{
    broadcast use {group_growth, group_builder_steps};

}

/// A run goes from the end of a block to where its terminator says.
pub proof fn lemma_leads_ended(
    f: FunctionView,
    b: BuilderView,
    term: TermView,
    came: BlockId,
    frame: Frame,
    to: Outcome,
)
    requires
        grows(ended(b, term).func, f),
        is_open(b.func, b.block),
        gone(f, ends_at(b, came, frame), term) == Some(to),
    ensures
        leads(f, ends_at(b, came, frame), to),
{
    broadcast use group_growth;

    lemma_leads_next(f, ends_at(b, came, frame), to);
}

/// Spots without code between them.
pub broadcast group group_spots {
    lemma_ends_valued,
    lemma_ends_blocked,
}

/// The frame with a word stored.
pub open spec fn storing(frame: Frame, addr: nat, number: nat) -> Frame {
    Frame { memory: with_word(frame.memory, addr, number), ..frame }
}

/// A store of a word goes through.
pub proof fn lemma_leads_stored(
    f: FunctionView,
    b: BuilderView,
    addr: ValueId,
    value: ValueId,
    came: BlockId,
    frame: Frame,
)
    requires
        grows(emitted(b, inst(Op::MStore, seq![addr, value]), None).func, f),
        is_open(b.func, b.block),
    ensures
        leads(
            f,
            ends_at(b, came, frame),
            Outcome::At(
                ends_at(
                    emitted(b, inst(Op::MStore, seq![addr, value]), None),
                    came,
                    storing(frame, word_in(f, frame, addr), word_in(f, frame, value)),
                ),
            ),
        ),
{
    broadcast use {group_growth, group_builder_steps};

    let kind = inst(Op::MStore, seq![addr, value]);
    let to = storing(frame, word_in(f, frame, addr), word_in(f, frame, value));
    assert(words_in(f, frame, seq![addr, value])[0] == word_in(f, frame, addr));
    assert(words_in(f, frame, seq![addr, value])[1] == word_in(f, frame, value));
    assert(performed(f, frame, came, next_inst(b.func), kind) == Some(to));
    lemma_leads_next(
        f,
        ends_at(b, came, frame),
        Outcome::At(ends_at(emitted(b, kind, None), came, to)),
    );
}

/// Values hold what they held where only memory changed.
pub broadcast proof fn lemma_held_stored(
    f: FunctionView,
    value: ValueId,
    frame: Frame,
    addr: nat,
    number: nat,
)
    ensures
        #[trigger] held(f, storing(frame, addr, number), value) == held(f, frame, value),
{
}

} // verus!
