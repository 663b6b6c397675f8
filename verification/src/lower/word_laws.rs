//! What the code that checks and converts words does when it runs.

use crate::hir::{Hir, Ty};
use crate::lower::emit::{
    arg_index_fits, calldata_word, decode_revert_if, extension_compared, head_loaded, head_position,
    head_size_checked, head_size_compared, mask_compared, memory_word, param_validated,
    range_compared, revert_if, revert_unless, truth_compared, word_checked, AbiParamSource,
};
use crate::lower::laws::{
    bit, extended, is_canonical, is_masked, law_validator_accepts_canonical_words, passes,
};
use crate::lower::types::{lemma_pow2_split, ty_fits, underlying, validator_of, AbiWordValidator};
use crate::mir::bits::{lemma_bytes_bound, lemma_some_bits, lemma_word_bits};
use crate::mir::builder::{
    blocked, constant, emitted, ended, group_builder_steps, moved, word, BuilderView,
};
use crate::mir::function::{next_block, next_value, FunctionView};
use crate::mir::inst::{inst, Op, TermView};
use crate::mir::meaning::{
    call_bytes, computed, has_bit, held, leads, of_bits, range, signed_value, truth_word, word_at,
    word_in, words_in, wrapped, Datum, Frame, Outcome,
};
use crate::mir::runs::{
    ends_at, group_growth, group_spots, grows, is_open, known_by, lemma_held_kept,
    lemma_leads_ended, lemma_leads_here, lemma_leads_on, lemma_runs_computed, lemma_runs_nothing,
    lemma_runs_result, runs, undisturbed,
};
use crate::mir::types::{BlockId, MirType, ValueId};
use crate::word::{lemma_limb_powers, word_modulus, U256};
use vstd::arithmetic::div_mod::lemma_small_mod;
use vstd::arithmetic::power2::{lemma2_to64, lemma_pow2_adds, lemma_pow2_pos, pow2};
use vstd::prelude::*;

verus! {

/// Where a run goes that is undone unless something holds.
pub open spec fn passed_or_undone(holds: bool, built: BuilderView, came: BlockId, frame: Frame) ->
    Outcome {
    if holds {
        Outcome::At(ends_at(built, came, frame))
    } else {
        Outcome::Reverted(Seq::empty())
    }
}

/// A check of a condition undoes the call with no data where the condition is
/// zero, and lets it pass where it is not.
pub proof fn law_revert_unless(
    b: BuilderView,
    cond: ValueId,
    f: FunctionView,
    came: BlockId,
    frame: Frame,
)
    requires
        is_open(b.func, b.block),
        grows(revert_unless(b, cond).func, f),
    ensures
        leads(
            f,
            ends_at(b, came, frame),
            passed_or_undone(
                word_in(f, frame, cond) != 0,
                revert_unless(b, cond),
                b.block,
                frame,
            ),
        ),
{
    broadcast use {group_growth, group_builder_steps, group_spots};

    reveal(revert_unless);
    let no = next_block(b.func);
    let b1 = blocked(b);
    let yes = next_block(b1.func);
    let b2 = blocked(b1);
    let branch = TermView::Branch { condition: cond, then_block: yes, else_block: no };
    let b3 = ended(b2, branch);
    let b4 = moved(b3, no);
    let zero = next_value(b4.func);
    let b5 = constant(b4, word(0));
    let revert = TermView::Revert { offset: zero, size: zero };
    let b6 = ended(b5, revert);
    let b7 = moved(b6, yes);
    assert(b7 == revert_unless(b, cond));
    let s = ends_at(b, came, frame);
    if word_in(f, frame, cond) != 0 {
        lemma_leads_ended(f, b2, branch, came, frame, Outcome::At(ends_at(b7, b.block, frame)));
    } else {
        let mid = ends_at(b5, b.block, frame);
        lemma_leads_ended(f, b2, branch, came, frame, Outcome::At(mid));
        assert(word_in(f, frame, zero) == 0);
        assert(range(frame.memory, 0, 0) =~= Seq::<nat>::empty());
        lemma_leads_ended(
            f,
            b5,
            revert,
            b.block,
            frame,
            Outcome::Reverted(Seq::empty()),
        );
        lemma_leads_on(f, s, mid, Outcome::Reverted(Seq::empty()));
    }
}

/// The comparison of a word with itself masked holds if and only if every bit of
/// the word is one of the mask.
pub proof fn law_mask_compared(
    b: BuilderView,
    value: ValueId,
    mask: U256,
    f: FunctionView,
    came: BlockId,
    frame: Frame,
) -> (to: Frame)
    requires
        is_open(b.func, b.block),
        grows(mask_compared(b, value, mask).0.func, f),
        known_by(f, value, b.func.insts.len()),
        word_in(f, frame, value) < word_modulus(),
    ensures
        runs(f, b, mask_compared(b, value, mask).0, came, frame, to),
        word_in(f, to, mask_compared(b, value, mask).1) != 0 <==> is_masked(
            word_in(f, frame, value),
            mask@,
        ),
{
    broadcast use {group_growth, group_builder_steps, group_spots, lemma_held_kept};

    reveal(mask_compared);
    let b1 = constant(b, mask);
    let mask_value = next_value(b.func);
    let b2 = emitted(b1, inst(Op::And, seq![value, mask_value]), Some(MirType::uint256()));
    let canonical = next_value(b1.func);
    lemma_runs_nothing(f, b, came, frame);
    let to1 = lemma_runs_computed(
        f,
        b,
        b1,
        Op::And,
        seq![value, mask_value],
        Some(MirType::uint256()),
        came,
        frame,
        frame,
    );
    let to2 = lemma_runs_computed(
        f,
        b,
        b2,
        Op::Eq,
        seq![value, canonical],
        Some(MirType::Bool),
        came,
        frame,
        to1,
    );
    let w = word_in(f, frame, value);
    let a = words_in(f, frame, seq![value, mask_value]);
    assert(a[0] == w && a[1] == mask@);
    let both = |i: nat| has_bit(a[0], i) && has_bit(a[1], i);
    let own = |i: nat| has_bit(w, i);
    lemma_word_bits(w);
    lemma_some_bits(both, own, 256);
    assert(words_in(f, to1, seq![value, canonical])[0] == w);
    assert(words_in(f, to1, seq![value, canonical])[1] == of_bits(both, 256));
    assert((of_bits(both, 256) == w) <==> is_masked(w, mask@)) by {
        if of_bits(both, 256) == w {
            assert forall|i: nat| i < 256 && #[trigger] bit(w, i) implies bit(mask@, i) by {
                assert(own(i));
                assert(both(i) == own(i));
            }
        }
        if is_masked(w, mask@) {
            assert forall|i: nat| #![trigger both(i)] #![trigger own(i)] i < 256 implies both(i)
                == own(i) by {
                assert(bit(w, i) ==> bit(mask@, i));
            }
        }
    }
    to2
}

/// A check of a problem undoes the call with no data where there is one, and lets
/// it pass where there is none.
pub proof fn law_revert_if(
    b: BuilderView,
    cond: ValueId,
    f: FunctionView,
    came: BlockId,
    frame: Frame,
)
    requires
        is_open(b.func, b.block),
        grows(revert_if(b, cond).func, f),
    ensures
        leads(
            f,
            ends_at(b, came, frame),
            passed_or_undone(word_in(f, frame, cond) == 0, revert_if(b, cond), b.block, frame),
        ),
{
    broadcast use {group_growth, group_builder_steps, group_spots};

    reveal(revert_if);
    let yes = next_block(b.func);
    let b1 = blocked(b);
    let no = next_block(b1.func);
    let b2 = blocked(b1);
    let branch = TermView::Branch { condition: cond, then_block: yes, else_block: no };
    let b3 = ended(b2, branch);
    let b4 = moved(b3, yes);
    let b5 = constant(b4, word(0));
    let zero = next_value(b4.func);
    let size = zero;
    let revert = TermView::Revert { offset: zero, size };
    let b6 = ended(b5, revert);
    let b7 = moved(b6, no);
    assert(b7 == revert_if(b, cond));
    if word_in(f, frame, cond) == 0 {
        lemma_leads_ended(f, b2, branch, came, frame, Outcome::At(ends_at(b7, b.block, frame)));
    } else {
        let mid = ends_at(b5, b.block, frame);
        lemma_leads_ended(f, b2, branch, came, frame, Outcome::At(mid));
        assert(word_in(f, frame, zero) == 0 && word_in(f, frame, size) == 0);
        assert(range(frame.memory, 0, 0) =~= Seq::<nat>::empty());
        let undone = Outcome::Reverted(Seq::empty());
        lemma_leads_ended(f, b5, revert, b.block, frame, undone);
        lemma_leads_on(f, ends_at(b, came, frame), mid, undone);
    }
}

/// A check of decoded data undoes the call with no data where there is a problem,
/// and lets it pass where there is none.
pub proof fn law_decode_revert_if(
    b: BuilderView,
    cond: ValueId,
    f: FunctionView,
    came: BlockId,
    frame: Frame,
)
    requires
        is_open(b.func, b.block),
        grows(decode_revert_if(b, cond).func, f),
    ensures
        leads(
            f,
            ends_at(b, came, frame),
            passed_or_undone(
                word_in(f, frame, cond) == 0,
                decode_revert_if(b, cond),
                b.block,
                frame,
            ),
        ),
{
    broadcast use {group_growth, group_builder_steps, group_spots};

    reveal(decode_revert_if);
    let yes = next_block(b.func);
    let b1 = blocked(b);
    let no = next_block(b1.func);
    let b2 = blocked(b1);
    let branch = TermView::Branch { condition: cond, then_block: yes, else_block: no };
    let b3 = ended(b2, branch);
    let b4 = moved(b3, yes);
    let b45 = constant(b4, word(0));
    let zero = next_value(b4.func);
    let b5 = constant(b45, word(0));
    let size = next_value(b45.func);
    let revert = TermView::Revert { offset: zero, size };
    let b6 = ended(b5, revert);
    let b7 = moved(b6, no);
    assert(b7 == decode_revert_if(b, cond));
    if word_in(f, frame, cond) == 0 {
        lemma_leads_ended(f, b2, branch, came, frame, Outcome::At(ends_at(b7, b.block, frame)));
    } else {
        let mid = ends_at(b5, b.block, frame);
        lemma_leads_ended(f, b2, branch, came, frame, Outcome::At(mid));
        assert(word_in(f, frame, zero) == 0 && word_in(f, frame, size) == 0);
        assert(range(frame.memory, 0, 0) =~= Seq::<nat>::empty());
        let undone = Outcome::Reverted(Seq::empty());
        lemma_leads_ended(f, b5, revert, b.block, frame, undone);
        lemma_leads_on(f, ends_at(b, came, frame), mid, undone);
    }
}

/// Sign extension as it is computed.
proof fn lemma_extension(number: nat, byte: nat)
    requires
        number < word_modulus(),
        byte <= 31,
    ensures
        computed(Op::SignExtend, seq![byte, number]) == Some(extended(number, byte)),
{
    let width = 8 * (byte + 1);
    lemma_pow2_split(width);
    lemma_pow2_pos(width);
    let low = number % pow2(width);
    vstd::arithmetic::div_mod::lemma_mod_bound(number as int, pow2(width) as int);
    if byte < 31 {
        lemma_pow2_adds((width - 1) as nat, 1);
        lemma2_to64();
        if low < pow2((width - 1) as nat) {
            lemma_small_mod(low, word_modulus());
        } else {
            let m = word_modulus() as int;
            vstd::arithmetic::div_mod::lemma_mod_add_multiples_vanish(low - pow2(width), m);
            lemma_small_mod((low - pow2(width) + m) as nat, word_modulus());
        }
    } else {
        lemma_small_mod(number, word_modulus());
    }
}

/// The comparison of a word with its sign extension holds if and only if they are
/// the same.
pub proof fn law_extension_compared(
    b: BuilderView,
    value: ValueId,
    byte: u64,
    f: FunctionView,
    came: BlockId,
    frame: Frame,
) -> (to: Frame)
    requires
        is_open(b.func, b.block),
        grows(extension_compared(b, value, byte).0.func, f),
        known_by(f, value, b.func.insts.len()),
        word_in(f, frame, value) < word_modulus(),
        byte <= 31,
    ensures
        runs(f, b, extension_compared(b, value, byte).0, came, frame, to),
        word_in(f, to, extension_compared(b, value, byte).1) != 0 <==> word_in(f, frame, value)
            == extended(word_in(f, frame, value), byte as nat),
{
    broadcast use {group_growth, group_builder_steps, group_spots, lemma_held_kept};

    reveal(extension_compared);
    let b1 = constant(b, word(byte));
    let byte_value = next_value(b.func);
    let args = seq![byte_value, value];
    let b2 = emitted(b1, inst(Op::SignExtend, args), Some(MirType::int256()));
    let canonical = next_value(b1.func);
    let w = word_in(f, frame, value);
    lemma_runs_nothing(f, b, came, frame);
    lemma_extension(w, byte as nat);
    assert(words_in(f, frame, args) =~= seq![byte as nat, w]);
    let to1 = lemma_runs_computed(
        f,
        b,
        b1,
        Op::SignExtend,
        args,
        Some(MirType::int256()),
        came,
        frame,
        frame,
    );
    let to2 = lemma_runs_computed(
        f,
        b,
        b2,
        Op::Eq,
        seq![value, canonical],
        Some(MirType::Bool),
        came,
        frame,
        to1,
    );
    assert(words_in(f, to1, seq![value, canonical])[0] == w);
    assert(words_in(f, to1, seq![value, canonical])[1] == extended(w, byte as nat));
    to2
}

/// The comparison of a word with its truth value holds if and only if the word is
/// zero or one.
pub proof fn law_truth_compared(
    b: BuilderView,
    value: ValueId,
    f: FunctionView,
    came: BlockId,
    frame: Frame,
) -> (to: Frame)
    requires
        is_open(b.func, b.block),
        grows(truth_compared(b, value).0.func, f),
        known_by(f, value, b.func.insts.len()),
    ensures
        runs(f, b, truth_compared(b, value).0, came, frame, to),
        word_in(f, to, truth_compared(b, value).1) != 0 <==> word_in(f, frame, value) == 0
            || word_in(f, frame, value) == 1,
{
    broadcast use {group_growth, group_builder_steps, group_spots, lemma_held_kept};

    reveal(truth_compared);
    let is_zero = next_value(b.func);
    let b1 = emitted(b, inst(Op::IsZero, seq![value]), Some(MirType::Bool));
    let canonical = next_value(b1.func);
    let b2 = emitted(b1, inst(Op::IsZero, seq![is_zero]), Some(MirType::Bool));
    let w = word_in(f, frame, value);
    lemma_runs_nothing(f, b, came, frame);
    let bool_ty = Some(MirType::Bool);
    let to1 = lemma_runs_computed(
        f,
        b,
        b,
        Op::IsZero,
        seq![value],
        bool_ty,
        came,
        frame,
        frame,
    );
    assert(words_in(f, frame, seq![value])[0] == w);
    let to2 = lemma_runs_computed(
        f,
        b,
        b1,
        Op::IsZero,
        seq![is_zero],
        bool_ty,
        came,
        frame,
        to1,
    );
    assert(words_in(f, to1, seq![is_zero])[0] == truth_word(w == 0));
    let to3 = lemma_runs_computed(
        f,
        b,
        b2,
        Op::Eq,
        seq![value, canonical],
        bool_ty,
        came,
        frame,
        to2,
    );
    assert(words_in(f, to2, seq![value, canonical])[0] == w);
    assert(words_in(f, to2, seq![value, canonical])[1] == truth_word(w != 0));
    to3
}

/// The comparison of a word with a count holds if and only if the word is less.
pub proof fn law_range_compared(
    b: BuilderView,
    value: ValueId,
    count: u64,
    f: FunctionView,
    came: BlockId,
    frame: Frame,
) -> (to: Frame)
    requires
        is_open(b.func, b.block),
        grows(range_compared(b, value, count).0.func, f),
        known_by(f, value, b.func.insts.len()),
    ensures
        runs(f, b, range_compared(b, value, count).0, came, frame, to),
        word_in(f, to, range_compared(b, value, count).1) != 0 <==> word_in(f, frame, value)
            < count,
{
    broadcast use {group_growth, group_builder_steps, group_spots, lemma_held_kept};

    reveal(range_compared);
    let b1 = constant(b, word(count));
    let args = seq![value, next_value(b.func)];
    lemma_runs_nothing(f, b, came, frame);
    let to = lemma_runs_computed(
        f,
        b,
        b1,
        Op::Lt,
        args,
        Some(MirType::Bool),
        came,
        frame,
        frame,
    );
    assert(words_in(f, frame, args)[0] == word_in(f, frame, value));
    assert(words_in(f, frame, args)[1] == count);
    to
}

/// A validated word undoes the call with no data unless it passes its validator.
pub proof fn law_word_checked(
    b: BuilderView,
    value: ValueId,
    validator: AbiWordValidator,
    f: FunctionView,
    came: BlockId,
    frame: Frame,
) -> (to: Frame)
    requires
        is_open(b.func, b.block),
        grows(word_checked(b, value, validator).func, f),
        known_by(f, value, b.func.insts.len()),
        word_in(f, frame, value) < word_modulus(),
        validator matches AbiWordValidator::SignExtend(byte) ==> byte <= 31,
    ensures
        undisturbed(b.func.insts.len(), frame, to),
        leads(
            f,
            ends_at(b, came, frame),
            passed_or_undone(
                passes(validator@, word_in(f, frame, value)),
                word_checked(b, value, validator),
                b.block,
                to,
            ),
        ),
{
    broadcast use {group_growth, group_builder_steps, group_spots};

    reveal(word_checked);
    reveal(mask_compared);
    reveal(extension_compared);
    reveal(truth_compared);
    reveal(range_compared);
    let (b1, ok) = match validator {
        AbiWordValidator::Mask(mask) => mask_compared(b, value, mask),
        AbiWordValidator::SignExtend(byte_index) => extension_compared(b, value, byte_index),
        AbiWordValidator::Bool => truth_compared(b, value),
        AbiWordValidator::EnumRange(count) => range_compared(b, value, count),
    };
    assert(is_open(b1.func, b1.block) && b1.block == b.block);
    lemma_revert_grows(b1, ok, f);
    let to = match validator {
        AbiWordValidator::Mask(mask) => law_mask_compared(b, value, mask, f, came, frame),
        AbiWordValidator::SignExtend(byte_index) => law_extension_compared(
            b,
            value,
            byte_index,
            f,
            came,
            frame,
        ),
        AbiWordValidator::Bool => law_truth_compared(b, value, f, came, frame),
        AbiWordValidator::EnumRange(count) => law_range_compared(b, value, count, f, came, frame),
    };
    law_revert_unless(b1, ok, f, came, to);
    lemma_leads_on(
        f,
        ends_at(b, came, frame),
        ends_at(b1, came, to),
        passed_or_undone(
            passes(validator@, word_in(f, frame, value)),
            word_checked(b, value, validator),
            b.block,
            to,
        ),
    );
    to
}

/// What grows out of a checked condition grows out of what was there before.
pub proof fn lemma_revert_grows(b: BuilderView, cond: ValueId, f: FunctionView)
    requires
        is_open(b.func, b.block),
    ensures
        grows(revert_unless(b, cond).func, f) ==> grows(b.func, f),
        grows(revert_if(b, cond).func, f) ==> grows(b.func, f),
        grows(decode_revert_if(b, cond).func, f) ==> grows(b.func, f),
{
    broadcast use {group_growth, group_builder_steps};

    reveal(revert_unless);
    reveal(revert_if);
    reveal(decode_revert_if);
}

/// Whether the memory and the call data hold bytes.
pub open spec fn holds_bytes(frame: Frame) -> bool {
    &&& forall|i: int| #[trigger] (frame.memory)(i) < 256
    &&& forall|i: int| #[trigger] call_bytes(frame)(i) < 256
}

/// The bytes that the arguments of a function are in.
pub open spec fn argument_bytes(source: AbiParamSource, frame: Frame) -> spec_fn(int) -> nat {
    match source {
        AbiParamSource::ExternalCalldata => call_bytes(frame),
        AbiParamSource::ConstructorMemory => frame.memory,
    }
}

/// Where the word of an argument is: in the call data after the four bytes of the
/// selector, and in memory from the start of the heap on.
pub open spec fn argument_start(source: AbiParamSource, index: nat) -> nat {
    match source {
        AbiParamSource::ExternalCalldata => 4 + 32 * index,
        AbiParamSource::ConstructorMemory => 0x80 + 32 * index,
    }
}

/// The word of an argument is read from where it is.
pub proof fn law_argument_loaded(
    b: BuilderView,
    source: AbiParamSource,
    index: u64,
    f: FunctionView,
    came: BlockId,
    frame: Frame,
) -> (to: Frame)
    requires
        is_open(b.func, b.block),
        grows(head_loaded(b, source, index).0.func, f),
        arg_index_fits(index),
    ensures
        runs(f, b, head_loaded(b, source, index).0, came, frame, to),
        held(f, to, head_loaded(b, source, index).1) == Datum::Word(
            word_at(argument_bytes(source, frame), argument_start(source, index as nat)),
        ),
        known_by(
            f,
            head_loaded(b, source, index).1,
            head_loaded(b, source, index).0.func.insts.len(),
        ),
{
    broadcast use {group_growth, group_builder_steps, group_spots, lemma_held_kept};

    reveal(head_loaded);
    reveal(calldata_word);
    reveal(memory_word);
    let position = head_position(source, index);
    let b1 = constant(b, word(position));
    let offset = next_value(b.func);
    let op = match source {
        AbiParamSource::ExternalCalldata => Op::CalldataLoad,
        AbiParamSource::ConstructorMemory => Op::MLoad,
    };
    lemma_runs_nothing(f, b, came, frame);
    assert(words_in(f, frame, seq![offset])[0] == position);
    lemma_runs_result(
        f,
        b,
        b1,
        inst(op, seq![offset]),
        Some(MirType::uint256()),
        came,
        frame,
        frame,
        Datum::Word(word_at(argument_bytes(source, frame), argument_start(source, index as nat))),
    )
}

/// An argument undoes the call with no data unless its word is the encoding of a
/// value of its type.
pub proof fn law_argument_validated(
    b: BuilderView,
    source: AbiParamSource,
    index: u64,
    validator: Option<AbiWordValidator>,
    hir: Hir,
    ty: Ty,
    f: FunctionView,
    came: BlockId,
    frame: Frame,
) -> (to: Frame)
    requires
        is_open(b.func, b.block),
        grows(param_validated(b, source, index, validator).func, f),
        arg_index_fits(index),
        holds_bytes(frame),
        ty_fits(hir, underlying(ty)),
        (match validator {
            Some(validator) => Some(validator@),
            None => None,
        }) == validator_of(hir, ty),
    ensures
        undisturbed(b.func.insts.len(), frame, to),
        leads(
            f,
            ends_at(b, came, frame),
            passed_or_undone(
                is_canonical(
                    hir,
                    ty,
                    word_at(argument_bytes(source, frame), argument_start(source, index as nat)),
                ),
                param_validated(b, source, index, validator),
                if validator is Some {
                    b.block
                } else {
                    came
                },
                to,
            ),
        ),
{
    broadcast use {group_growth, group_builder_steps, group_spots};

    let number = word_at(argument_bytes(source, frame), argument_start(source, index as nat));
    lemma_bytes_bound(
        argument_bytes(source, frame),
        argument_start(source, index as nat) as int,
        32,
    );
    law_validator_accepts_canonical_words(hir, ty, number);
    match validator {
        Some(validator) => {
            let (b1, value) = head_loaded(b, source, index);
            assert(grows(b1.func, f) && is_open(b1.func, b1.block) && b1.block == b.block
                && b.func.insts.len() <= b1.func.insts.len()) by {
                reveal(head_loaded);
                reveal(calldata_word);
                reveal(memory_word);
                lemma_check_grows(b1, value, validator, f);
            }
            let to1 = law_argument_loaded(b, source, index, f, came, frame);
            let to = law_word_checked(b1, value, validator, f, came, to1);
            lemma_leads_on(
                f,
                ends_at(b, came, frame),
                ends_at(b1, came, to1),
                passed_or_undone(
                    is_canonical(hir, ty, number),
                    word_checked(b1, value, validator),
                    b.block,
                    to,
                ),
            );
            reveal(undisturbed);
            to
        },
        None => {
            lemma_leads_here(f, ends_at(b, came, frame));
            reveal(undisturbed);
            frame
        },
    }
}

/// What grows out of a checked word grows out of what was there before.
proof fn lemma_check_grows(
    b: BuilderView,
    value: ValueId,
    validator: AbiWordValidator,
    f: FunctionView,
)
    requires
        is_open(b.func, b.block),
    ensures
        grows(word_checked(b, value, validator).func, f) ==> grows(b.func, f),
{
    broadcast use {group_growth, group_builder_steps};

    reveal(word_checked);
    reveal(mask_compared);
    reveal(extension_compared);
    reveal(truth_compared);
    reveal(range_compared);
    let (b1, ok) = match validator {
        AbiWordValidator::Mask(mask) => mask_compared(b, value, mask),
        AbiWordValidator::SignExtend(byte_index) => extension_compared(b, value, byte_index),
        AbiWordValidator::Bool => truth_compared(b, value),
        AbiWordValidator::EnumRange(count) => range_compared(b, value, count),
    };
    lemma_revert_grows(b1, ok, f);
}

/// Call data that is shorter than the selector and the head undoes the call with
/// no data; other call data passes.
pub proof fn law_head_size_checked(
    b: BuilderView,
    head_size: u64,
    f: FunctionView,
    came: BlockId,
    frame: Frame,
) -> (to: Frame)
    requires
        is_open(b.func, b.block),
        grows(head_size_checked(b, head_size).func, f),
        frame.calldata.len() < pow2(255),
    ensures
        undisturbed(b.func.insts.len(), frame, to),
        leads(
            f,
            ends_at(b, came, frame),
            passed_or_undone(
                head_size == 0 || frame.calldata.len() >= 4 + head_size,
                head_size_checked(b, head_size),
                if head_size == 0 {
                    came
                } else {
                    b.block
                },
                to,
            ),
        ),
{
    broadcast use {group_growth, group_builder_steps, group_spots, lemma_held_kept};

    reveal(head_size_checked);
    if head_size == 0 {
        lemma_leads_here(f, ends_at(b, came, frame));
        reveal(undisturbed);
        frame
    } else {
        reveal(head_size_compared);
        let word_ty = Some(MirType::uint256());
        let size = next_value(b.func);
        let b1 = emitted(b, inst(Op::CalldataSize, seq![]), word_ty);
        let four = next_value(b1.func);
        let b2 = constant(b1, word(4));
        let payload = next_value(b2.func);
        let b3 = emitted(b2, inst(Op::Sub, seq![size, four]), word_ty);
        let required = next_value(b3.func);
        let b4 = constant(b3, word(head_size));
        let is_short = next_value(b4.func);
        let b5 = emitted(b4, inst(Op::SLt, seq![payload, required]), Some(MirType::Bool));
        lemma_revert_grows(b5, is_short, f);
        let n = frame.calldata.len();
        lemma_runs_nothing(f, b, came, frame);
        let to1 = lemma_runs_result(
            f,
            b,
            b,
            inst(Op::CalldataSize, seq![]),
            word_ty,
            came,
            frame,
            frame,
            Datum::Word(n),
        );
        let to2 = lemma_runs_computed(
            f,
            b,
            b2,
            Op::Sub,
            seq![size, four],
            word_ty,
            came,
            frame,
            to1,
        );
        assert(words_in(f, to1, seq![size, four])[0] == n);
        assert(words_in(f, to1, seq![size, four])[1] == 4);
        let to3 = lemma_runs_computed(
            f,
            b,
            b4,
            Op::SLt,
            seq![payload, required],
            Some(MirType::Bool),
            came,
            frame,
            to2,
        );
        assert(words_in(f, to2, seq![payload, required])[0] == wrapped(n - 4));
        assert(words_in(f, to2, seq![payload, required])[1] == head_size);
        assert(signed_value(wrapped(n - 4)) == n - 4 && signed_value(head_size as nat)
            == head_size) by {
            lemma2_to64();
            lemma_limb_powers();
            lemma_pow2_adds(255, 1);
            let m = word_modulus() as int;
            if n >= 4 {
                lemma_small_mod((n - 4) as nat, word_modulus());
            } else {
                vstd::arithmetic::div_mod::lemma_mod_add_multiples_vanish(n - 4, m);
                lemma_small_mod((n - 4 + m) as nat, word_modulus());
            }
        }
        law_revert_if(b5, is_short, f, came, to3);
        lemma_leads_on(
            f,
            ends_at(b, came, frame),
            ends_at(b5, came, to3),
            passed_or_undone(
                frame.calldata.len() >= 4 + head_size,
                head_size_checked(b, head_size),
                b.block,
                to3,
            ),
        );
        to3
    }
}

} // verus!
