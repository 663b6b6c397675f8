//! Which encoded data is decoded and which undoes the call, and where its parts are.

use crate::hir::{ElementaryType, Hir, TypeKind};
use crate::lower::conversion_laws::{lemma_and_high, lemma_and_low};
use crate::lower::decode::{
    array_measured, copy_sized, element_head_loaded, element_placed, element_word_loaded,
    region_checked, tail_checked, tail_measured, tail_sliced,
};
use crate::lower::emit::decode_revert_if;
use crate::lower::handlers::{
    error_handler_begun, handler_entered, panic_matched, try_branched, ERROR_SELECTOR,
    PANIC_SELECTOR,
};
use crate::lower::objects::{padding_mask, rounded_up};
use crate::lower::types::{high_mask, lemma_pow2_split, type_bound};
use crate::lower::word_laws::{law_decode_revert_if, lemma_revert_grows, passed_or_undone};
use crate::mir::bits::{lemma_same_bits, lemma_upper_bits, lemma_word_exists};
use crate::mir::builder::{
    blocked, constant, emitted, ended, group_builder_steps, moved, word, BuilderView,
};
use crate::mir::function::{has_block, next_block, next_value, FunctionView};
use crate::mir::inst::{inst, Op, TermView};
use crate::mir::meaning::{
    call_bytes, computed, has_bit, held, leads, of_bits, signed_value, truth_word, word_at, word_in,
    words_in, Datum, Frame, Outcome, Spot,
};
use crate::mir::runs::{
    ends_at, group_growth, group_spots, grows, is_open, known_by, lemma_held_kept,
    lemma_leads_ended, lemma_leads_on, lemma_leads_stored, lemma_runs_computed, lemma_runs_nothing,
    lemma_runs_result, runs, storing, undisturbed,
};
use crate::mir::types::{BlockId, MirType, SliceLocation, ValueId};
use crate::word::word_modulus;
use vstd::arithmetic::div_mod::{lemma_fundamental_div_mod, lemma_mod_bound, lemma_small_mod};
use vstd::arithmetic::power2::{lemma2_to64, lemma_pow2_pos, lemma_pow2_strictly_increases, pow2};
use vstd::prelude::*;

verus! {

/// An operation on two words runs through and gives what is computed.
proof fn lemma_pair(
    f: FunctionView,
    start: BuilderView,
    b: BuilderView,
    op: Op,
    x: ValueId,
    y: ValueId,
    ty: MirType,
    came: BlockId,
    first: Frame,
    frame: Frame,
) -> (to: Frame)
    requires
        grows(emitted(b, inst(op, seq![x, y]), Some(ty)).func, f),
        is_open(b.func, b.block),
        runs(f, start, b, came, first, frame),
        start.func.insts.len() <= b.func.insts.len(),
        computed(op, seq![word_in(f, frame, x), word_in(f, frame, y)]) is Some,
    ensures
        runs(f, start, emitted(b, inst(op, seq![x, y]), Some(ty)), came, first, to),
        undisturbed(b.func.insts.len(), frame, to),
        held(f, to, next_value(b.func)) == Datum::Word(
            computed(op, seq![word_in(f, frame, x), word_in(f, frame, y)])->0,
        ),
        known_by(f, next_value(b.func), b.func.insts.len() + 1),
{
    assert(words_in(f, frame, seq![x, y]) =~= seq![word_in(f, frame, x), word_in(f, frame, y)]);
    lemma_runs_computed(f, start, b, op, seq![x, y], Some(ty), came, first, frame)
}

/// An operation on one word runs through and gives what is computed.
proof fn lemma_single(
    f: FunctionView,
    start: BuilderView,
    b: BuilderView,
    op: Op,
    x: ValueId,
    ty: MirType,
    came: BlockId,
    first: Frame,
    frame: Frame,
) -> (to: Frame)
    requires
        grows(emitted(b, inst(op, seq![x]), Some(ty)).func, f),
        is_open(b.func, b.block),
        runs(f, start, b, came, first, frame),
        start.func.insts.len() <= b.func.insts.len(),
        computed(op, seq![word_in(f, frame, x)]) is Some,
    ensures
        runs(f, start, emitted(b, inst(op, seq![x]), Some(ty)), came, first, to),
        undisturbed(b.func.insts.len(), frame, to),
        held(f, to, next_value(b.func)) == Datum::Word(
            computed(op, seq![word_in(f, frame, x)])->0,
        ),
        known_by(f, next_value(b.func), b.func.insts.len() + 1),
{
    assert(words_in(f, frame, seq![x]) =~= seq![word_in(f, frame, x)]);
    lemma_runs_computed(f, start, b, op, seq![x], Some(ty), came, first, frame)
}

/// A load of a word of the memory runs through and gives the word.
proof fn lemma_load(
    f: FunctionView,
    start: BuilderView,
    b: BuilderView,
    addr: ValueId,
    came: BlockId,
    first: Frame,
    frame: Frame,
) -> (to: Frame)
    requires
        grows(emitted(b, inst(Op::MLoad, seq![addr]), Some(MirType::uint256())).func, f),
        is_open(b.func, b.block),
        runs(f, start, b, came, first, frame),
        start.func.insts.len() <= b.func.insts.len(),
    ensures
        runs(
            f,
            start,
            emitted(b, inst(Op::MLoad, seq![addr]), Some(MirType::uint256())),
            came,
            first,
            to,
        ),
        undisturbed(b.func.insts.len(), frame, to),
        held(f, to, next_value(b.func)) == Datum::Word(
            word_at(first.memory, word_in(f, frame, addr)),
        ),
        known_by(f, next_value(b.func), b.func.insts.len() + 1),
{
    assert(words_in(f, frame, seq![addr])[0] == word_in(f, frame, addr));
    assert(frame.memory == first.memory) by {
        reveal(undisturbed);
    }
    lemma_runs_result(
        f,
        start,
        b,
        inst(Op::MLoad, seq![addr]),
        Some(MirType::uint256()),
        came,
        first,
        frame,
        Datum::Word(word_at(first.memory, word_in(f, frame, addr))),
    )
}

/// A run that gets to a check passes it or is undone.
proof fn lemma_check(
    f: FunctionView,
    from: Spot,
    b: BuilderView,
    cond: ValueId,
    came: BlockId,
    frame: Frame,
)
    requires
        leads(f, from, Outcome::At(ends_at(b, came, frame))),
        is_open(b.func, b.block),
        grows(decode_revert_if(b, cond).func, f),
    ensures
        leads(
            f,
            from,
            passed_or_undone(
                word_in(f, frame, cond) == 0,
                decode_revert_if(b, cond),
                b.block,
                frame,
            ),
        ),
{
    law_decode_revert_if(b, cond, f, came, frame);
    lemma_leads_on(
        f,
        from,
        ends_at(b, came, frame),
        passed_or_undone(word_in(f, frame, cond) == 0, decode_revert_if(b, cond), b.block, frame),
    );
}

/// What is built before a check is there after it, and building goes on after it.
proof fn lemma_check_grows(f: FunctionView, b: BuilderView, cond: ValueId)
    requires
        has_block(b.func, b.block),
    ensures
        has_block(decode_revert_if(b, cond).func, decode_revert_if(b, cond).block),
        decode_revert_if(b, cond).func.insts.len() == b.func.insts.len(),
        decode_revert_if(b, cond).func.blocks.len() == b.func.blocks.len() + 2,
        is_open(b.func, b.block) && b.func.blocks.len() + 2 <= usize::MAX ==> {
            &&& is_open(decode_revert_if(b, cond).func, decode_revert_if(b, cond).block)
            &&& grows(decode_revert_if(b, cond).func, f) ==> grows(b.func, f)
        },
{
    broadcast use {group_growth, group_builder_steps};

    reveal(decode_revert_if);
    let b1 = blocked(b);
    let b2 = blocked(b1);
    let yes = next_block(b.func);
    let no = next_block(b1.func);
    let branch = TermView::Branch { condition: cond, then_block: yes, else_block: no };
    let b3 = moved(ended(b2, branch), yes);
    assert(has_block(b2.func, b2.block) && has_block(b3.func, yes) && has_block(b3.func, no));
    if is_open(b.func, b.block) {
        lemma_revert_grows(b, cond, f);
    }
}

/// The least multiple of the size of a word that a length fits in.
pub open spec fn whole_words(len: nat) -> nat {
    (len + 31) as nat / 32 * 32
}

/// Clearing the lowest five bits of a number rounds it down to a multiple of the size
/// of a word.
proof fn lemma_rounded(number: nat, mask: nat)
    requires
        number < word_modulus(),
        mask == high_mask(5),
    ensures
        of_bits(|i: nat| has_bit(number, i) && has_bit(mask, i), 256) == number / 32 * 32,
        computed(Op::And, seq![number, mask]) == Some(number / 32 * 32),
{
    lemma2_to64();
    lemma_and_high(number, 5, |i: nat| has_bit(number, i) && has_bit(mask, i));
    let a = seq![number, mask];
    lemma_same_bits(
        |i: nat| has_bit(a[0], i) && has_bit(a[1], i),
        |i: nat| has_bit(number, i) && has_bit(mask, i),
        256,
    );
    assert(computed(Op::And, a) == Some(
        of_bits(|i: nat| has_bit(a[0], i) && has_bit(a[1], i), 256),
    ));
}

/// A length that is rounded up is the least multiple of the size of a word that is not
/// below it.
pub proof fn law_rounded_up(
    b: BuilderView,
    len: ValueId,
    f: FunctionView,
    came: BlockId,
    frame: Frame,
) -> (to: Frame)
    requires
        is_open(b.func, b.block),
        grows(rounded_up(b, len).0.func, f),
        known_by(f, len, b.func.insts.len()),
        word_in(f, frame, len) + 31 < word_modulus(),
    ensures
        runs(f, b, rounded_up(b, len).0, came, frame, to),
        word_in(f, to, rounded_up(b, len).1) % 32 == 0,
        word_in(f, frame, len) <= word_in(f, to, rounded_up(b, len).1) < word_in(f, frame, len)
            + 32,
{
    broadcast use {group_growth, group_builder_steps, group_spots, lemma_held_kept};

    reveal(rounded_up);
    let n = word_in(f, frame, len);
    let ty = MirType::uint256();
    let b1 = constant(b, word(31));
    let rounded = next_value(b1.func);
    let b2 = emitted(b1, inst(Op::Add, seq![len, next_value(b.func)]), Some(ty));
    let mask = next_value(b2.func);
    let b3 = constant(b2, padding_mask());
    lemma_runs_nothing(f, b, came, frame);
    lemma_small_mod(n + 31, word_modulus());
    let f1 = lemma_pair(f, b, b1, Op::Add, len, next_value(b.func), ty, came, frame, frame);
    lemma2_to64();
    lemma_pow2_strictly_increases(5, 256);
    lemma_word_exists(high_mask(5));
    assert(word_in(f, f1, mask) == high_mask(5));
    assert(word_in(f, f1, rounded) == n + 31);
    lemma_rounded(n + 31, high_mask(5));
    lemma_pair(f, b, b3, Op::And, rounded, mask, ty, came, frame, f1)
}

/// Data that is shorter than what it must start with undoes the call with no data.
pub proof fn law_region_checked(
    b: BuilderView,
    len: ValueId,
    head_size: u64,
    f: FunctionView,
    came: BlockId,
    frame: Frame,
) -> (to: Frame)
    requires
        is_open(b.func, b.block),
        grows(region_checked(b, len, head_size).0.func, f),
        known_by(f, len, b.func.insts.len()),
    ensures
        leads(
            f,
            ends_at(b, came, frame),
            passed_or_undone(
                word_in(f, frame, len) >= head_size,
                region_checked(b, len, head_size).0,
                b.block,
                to,
            ),
        ),
        word_in(f, to, region_checked(b, len, head_size).1) == head_size,
{
    broadcast use {group_growth, group_builder_steps, group_spots, lemma_held_kept};

    reveal(region_checked);
    let required = next_value(b.func);
    let b1 = constant(b, word(head_size));
    let is_short = next_value(b1.func);
    let b2 = emitted(b1, inst(Op::Lt, seq![len, required]), Some(MirType::Bool));
    let b3 = decode_revert_if(b2, is_short);
    lemma_check_grows(f, b2, is_short);
    lemma_runs_nothing(f, b, came, frame);
    let to = lemma_pair(f, b, b1, Op::Lt, len, required, MirType::Bool, came, frame, frame);
    lemma_check(f, ends_at(b, came, frame), b2, is_short, came, to);
    assert(ends_at(b3, b.block, to) == ends_at(constant(b3, word(head_size)), b.block, to));
    to
}

/// The head of dynamic data must point behind the heads, and the word that it points
/// at must be inside the data; else the call is undone with no data.
pub proof fn law_tail_checked(
    b: BuilderView,
    head: ValueId,
    head_size: ValueId,
    tuple_len: ValueId,
    f: FunctionView,
    came: BlockId,
    frame: Frame,
) -> (r: (BlockId, Frame))
    requires
        is_open(b.func, b.block),
        grows(tail_checked(b, head, head_size, tuple_len).0.func, f),
        known_by(f, head, b.func.insts.len()),
        known_by(f, head_size, b.func.insts.len()),
        known_by(f, tuple_len, b.func.insts.len()),
        word_in(f, frame, head) < word_modulus(),
        word_in(f, frame, tuple_len) < word_modulus(),
    ensures
        ({
            let at = word_in(f, frame, head);
            let passes = word_in(f, frame, head_size) <= at && at + 32 <= word_in(
                f,
                frame,
                tuple_len,
            );
            let (built, (one_word, tail_head_end)) = tail_checked(b, head, head_size, tuple_len);
            &&& leads(f, ends_at(b, came, frame), passed_or_undone(passes, built, r.0, r.1))
            &&& undisturbed(b.func.insts.len(), frame, r.1)
            &&& passes ==> word_in(f, r.1, one_word) == 32 && word_in(f, r.1, tail_head_end) == at
                + 32
        }),
{
    broadcast use {group_growth, group_builder_steps, group_spots, lemma_held_kept};

    reveal(tail_checked);
    let from = ends_at(b, came, frame);
    let (h, s, t) = (
        word_in(f, frame, head),
        word_in(f, frame, head_size),
        word_in(f, frame, tuple_len),
    );
    let before = next_value(b.func);
    let b1 = emitted(b, inst(Op::Lt, seq![head, head_size]), Some(MirType::Bool));
    let b2 = decode_revert_if(b1, before);
    let one_word = next_value(b2.func);
    let b3 = constant(b2, word(32));
    let end = next_value(b3.func);
    let b4 = emitted(b3, inst(Op::Add, seq![head, one_word]), Some(MirType::uint256()));
    let overflow = next_value(b4.func);
    let b5 = emitted(b4, inst(Op::Lt, seq![end, head]), Some(MirType::Bool));
    let b6 = decode_revert_if(b5, overflow);
    let oob = next_value(b6.func);
    let b7 = emitted(b6, inst(Op::Gt, seq![end, tuple_len]), Some(MirType::Bool));
    lemma_check_grows(f, b1, before);
    lemma_check_grows(f, b5, overflow);
    lemma_check_grows(f, b7, oob);
    lemma_runs_nothing(f, b, came, frame);
    let f1 = lemma_pair(f, b, b, Op::Lt, head, head_size, MirType::Bool, came, frame, frame);
    lemma_check(f, from, b1, before, came, f1);
    if h < s {
        (b.block, f1)
    } else {
        lemma_runs_nothing(f, b2, b1.block, f1);
        let f2 = lemma_pair(
            f,
            b2,
            b3,
            Op::Add,
            head,
            one_word,
            MirType::uint256(),
            b1.block,
            f1,
            f1,
        );
        let f3 = lemma_pair(f, b2, b4, Op::Lt, end, head, MirType::Bool, b1.block, f1, f2);
        lemma_leads_on(
            f,
            from,
            ends_at(b2, b1.block, f1),
            Outcome::At(ends_at(b5, b1.block, f3)),
        );
        lemma_check(f, from, b5, overflow, b1.block, f3);
        assert(undisturbed(b.func.insts.len(), frame, f3)) by {
            reveal(undisturbed);
        }
        lemma2_to64();
        lemma_pow2_strictly_increases(6, 256);
        lemma_wrapped_sum(h, 32);
        if h + 32 >= word_modulus() {
            (b5.block, f3)
        } else {
            lemma_runs_nothing(f, b6, b5.block, f3);
            let f4 = lemma_pair(
                f,
                b6,
                b6,
                Op::Gt,
                end,
                tuple_len,
                MirType::Bool,
                b5.block,
                f3,
                f3,
            );
            lemma_leads_on(
                f,
                from,
                ends_at(b6, b5.block, f3),
                Outcome::At(ends_at(b7, b5.block, f4)),
            );
            lemma_check(f, from, b7, oob, b5.block, f4);
            assert(undisturbed(b.func.insts.len(), frame, f4)) by {
                reveal(undisturbed);
            }
            (b7.block, f4)
        }
    }
}

/// A sum of two words is too large where it is below them.
proof fn lemma_wrapped_sum(x: nat, y: nat)
    requires
        x < word_modulus(),
        y < word_modulus(),
    ensures
        x + y < word_modulus() ==> (x + y) % word_modulus() == x + y,
        x + y >= word_modulus() ==> (x + y) % word_modulus() == x + y - word_modulus(),
{
    if x + y < word_modulus() {
        lemma_small_mod(x + y, word_modulus());
    } else {
        vstd::arithmetic::div_mod::lemma_fundamental_div_mod_converse(
            (x + y) as int,
            word_modulus() as int,
            1,
            x + y - word_modulus(),
        );
    }
}

/// The parts of an array in encoded data: its length is where its head points, its
/// elements follow, and they must all be inside the data; else the call is undone with
/// no data.
pub proof fn law_array_measured(
    b: BuilderView,
    tuple_base: ValueId,
    tuple_len: ValueId,
    head: ValueId,
    one_word: ValueId,
    tail_head_end: ValueId,
    f: FunctionView,
    came: BlockId,
    frame: Frame,
) -> (r: (BlockId, Frame))
    requires
        is_open(b.func, b.block),
        grows(
            array_measured(b, tuple_base, tuple_len, head, one_word, tail_head_end).0.func,
            f,
        ),
        known_by(f, tuple_base, b.func.insts.len()),
        known_by(f, tuple_len, b.func.insts.len()),
        known_by(f, head, b.func.insts.len()),
        known_by(f, one_word, b.func.insts.len()),
        known_by(f, tail_head_end, b.func.insts.len()),
        word_in(f, frame, one_word) == 32,
        word_in(f, frame, tuple_base) + word_in(f, frame, head) + 32 < word_modulus(),
        word_in(f, frame, tail_head_end) < pow2(254),
    ensures
        ({
            let base = word_in(f, frame, tuple_base) + word_in(f, frame, head);
            let count = word_at(frame.memory, base);
            let passes = count < pow2(250) && word_in(f, frame, tail_head_end) + 32 * count
                <= word_in(f, frame, tuple_len);
            let (built, (arr_len, payload_bytes, payload_src, total_size)) = array_measured(
                b,
                tuple_base,
                tuple_len,
                head,
                one_word,
                tail_head_end,
            );
            &&& leads(f, ends_at(b, came, frame), passed_or_undone(passes, built, r.0, r.1))
            &&& passes ==> {
                &&& word_in(f, r.1, arr_len) == count
                &&& word_in(f, r.1, payload_bytes) == 32 * count
                &&& word_in(f, r.1, payload_src) == base + 32
                &&& word_in(f, r.1, total_size) == 32 + 32 * count
            }
        }),
{
    broadcast use {group_growth, group_builder_steps, group_spots, lemma_held_kept};

    reveal(array_measured);
    let ty = MirType::uint256();
    let from = ends_at(b, came, frame);
    let at = word_in(f, frame, tuple_base) + word_in(f, frame, head);
    let n = word_at(frame.memory, at);
    let t = word_in(f, frame, tail_head_end);
    let len_addr = next_value(b.func);
    let b1 = emitted(b, inst(Op::Add, seq![tuple_base, head]), Some(ty));
    let arr_len = next_value(b1.func);
    let b2 = emitted(b1, inst(Op::MLoad, seq![len_addr]), Some(ty));
    let shift = next_value(b2.func);
    let b3 = constant(b2, word(250));
    let shifted = next_value(b3.func);
    let b4 = emitted(b3, inst(Op::Shr, seq![shift, arr_len]), Some(ty));
    let in_range = next_value(b4.func);
    let b5 = emitted(b4, inst(Op::IsZero, seq![shifted]), Some(MirType::Bool));
    let too_big = next_value(b5.func);
    let b6 = emitted(b5, inst(Op::IsZero, seq![in_range]), Some(MirType::Bool));
    let b7 = decode_revert_if(b6, too_big);
    let payload_bytes = next_value(b7.func);
    let b8 = emitted(b7, inst(Op::Mul, seq![arr_len, one_word]), Some(ty));
    let payload_end = next_value(b8.func);
    let b9 = emitted(b8, inst(Op::Add, seq![tail_head_end, payload_bytes]), Some(ty));
    let oob = next_value(b9.func);
    let b10 = emitted(b9, inst(Op::Gt, seq![payload_end, tuple_len]), Some(MirType::Bool));
    let b11 = decode_revert_if(b10, oob);
    let total = next_value(b11.func);
    let b12 = emitted(b11, inst(Op::Add, seq![one_word, payload_bytes]), Some(ty));
    lemma_check_grows(f, b6, too_big);
    lemma_check_grows(f, b10, oob);
    lemma_runs_nothing(f, b, came, frame);
    lemma_small_mod(at, word_modulus());
    let f1 = lemma_pair(f, b, b, Op::Add, tuple_base, head, ty, came, frame, frame);
    let f2 = lemma_load(f, b, b1, len_addr, came, frame, f1);
    let f3 = lemma_pair(f, b, b3, Op::Shr, shift, arr_len, ty, came, frame, f2);
    let f4 = lemma_single(f, b, b4, Op::IsZero, shifted, MirType::Bool, came, frame, f3);
    let f5 = lemma_single(f, b, b5, Op::IsZero, in_range, MirType::Bool, came, frame, f4);
    lemma_check(f, from, b6, too_big, came, f5);
    lemma_pow2_pos(250);
    assert((n / pow2(250) == 0) == (n < pow2(250))) by {
        lemma_fundamental_div_mod(n as int, pow2(250) as int);
        lemma_mod_bound(n as int, pow2(250) as int);
        if n < pow2(250) {
            vstd::arithmetic::div_mod::lemma_basic_div(n as int, pow2(250) as int);
        }
    }
    if n >= pow2(250) {
        (b.block, f5)
    } else {
        lemma_sizes(n, t);
        lemma_runs_nothing(f, b7, b6.block, f5);
        let f6 = lemma_pair(f, b7, b7, Op::Mul, arr_len, one_word, ty, b6.block, f5, f5);
        let f7 = lemma_pair(f, b7, b8, Op::Add, tail_head_end, payload_bytes, ty, b6.block, f5, f6);
        let f8 = lemma_pair(
            f,
            b7,
            b9,
            Op::Gt,
            payload_end,
            tuple_len,
            MirType::Bool,
            b6.block,
            f5,
            f7,
        );
        lemma_leads_on(
            f,
            from,
            ends_at(b7, b6.block, f5),
            Outcome::At(ends_at(b10, b6.block, f8)),
        );
        lemma_check(f, from, b10, oob, b6.block, f8);
        if t + 32 * n > word_in(f, frame, tuple_len) {
            (b6.block, f8)
        } else {
            lemma_small_mod(at + 32, word_modulus());
            lemma_runs_nothing(f, b11, b10.block, f8);
            let f9 = lemma_pair(
                f,
                b11,
                b11,
                Op::Add,
                one_word,
                payload_bytes,
                ty,
                b10.block,
                f8,
                f8,
            );
            let to = lemma_pair(f, b11, b12, Op::Add, len_addr, one_word, ty, b10.block, f8, f9);
            lemma_leads_on(
                f,
                from,
                ends_at(b11, b10.block, f8),
                Outcome::At(
                    ends_at(
                        array_measured(b, tuple_base, tuple_len, head, one_word, tail_head_end).0,
                        b10.block,
                        to,
                    ),
                ),
            );
            (b10.block, to)
        }
    }
}

/// The sizes of an array whose length passed fit in a word.
proof fn lemma_sizes(count: nat, end: nat)
    requires
        count < pow2(250),
        end < pow2(254),
    ensures
        (count * 32) % word_modulus() == 32 * count,
        (end + 32 * count) % word_modulus() == end + 32 * count,
        (32 + 32 * count) % word_modulus() == 32 + 32 * count,
{
    vstd::arithmetic::power2::lemma_pow2_adds(250, 5);
    vstd::arithmetic::power2::lemma_pow2_adds(254, 1);
    vstd::arithmetic::power2::lemma_pow2_adds(255, 1);
    lemma2_to64();
    lemma_pow2_strictly_increases(5, 250);
    lemma_small_mod(count * 32, word_modulus());
    lemma_small_mod(end + 32 * count, word_modulus());
    lemma_small_mod(32 + 32 * count, word_modulus());
}

/// A copy of bytes takes a word for the length and as many bytes as there are, but a
/// word at least.
pub proof fn law_copy_sized(
    b: BuilderView,
    one_word: ValueId,
    padded: ValueId,
    f: FunctionView,
    came: BlockId,
    frame: Frame,
) -> (to: Frame)
    requires
        is_open(b.func, b.block),
        grows(copy_sized(b, one_word, padded).0.func, f),
        known_by(f, one_word, b.func.insts.len()),
        known_by(f, padded, b.func.insts.len()),
        word_in(f, frame, one_word) == 32,
        word_in(f, frame, padded) < word_modulus(),
    ensures
        runs(f, b, copy_sized(b, one_word, padded).0, came, frame, to),
        ({
            let len = word_in(f, frame, padded);
            let data = if len == 0 {
                32
            } else {
                len
            };
            let (data_size, total_size, overflow) = copy_sized(b, one_word, padded).1;
            &&& word_in(f, to, data_size) == data
            &&& word_in(f, to, total_size) == (32 + data) % word_modulus()
            &&& word_in(f, to, overflow) != 0 <==> 32 + data >= word_modulus()
        }),
{
    broadcast use {group_growth, group_builder_steps, group_spots, lemma_held_kept};

    reveal(copy_sized);
    let ty = MirType::uint256();
    let n = word_in(f, frame, padded);
    let is_empty = next_value(b.func);
    let b1 = emitted(b, inst(Op::IsZero, seq![padded]), Some(MirType::Bool));
    let data_size = next_value(b1.func);
    let args = seq![is_empty, one_word, padded];
    let b2 = emitted(b1, inst(Op::Select, args), Some(ty));
    let total = next_value(b2.func);
    let b3 = emitted(b2, inst(Op::Add, seq![one_word, data_size]), Some(ty));
    lemma_runs_nothing(f, b, came, frame);
    let f1 = lemma_single(f, b, b, Op::IsZero, padded, MirType::Bool, came, frame, frame);
    let a = words_in(f, f1, args);
    assert(a[0] == truth_word(n == 0) && a[1] == 32 && a[2] == n);
    let f2 = lemma_runs_computed(f, b, b1, Op::Select, args, Some(ty), came, frame, f1);
    let f3 = lemma_pair(f, b, b2, Op::Add, one_word, data_size, ty, came, frame, f2);
    lemma2_to64();
    lemma_pow2_strictly_increases(6, 256);
    lemma_wrapped_sum(
        32,
        if n == 0 {
            32
        } else {
            n
        },
    );
    lemma_pair(f, b, b3, Op::Lt, total, data_size, MirType::Bool, came, frame, f3)
}

/// The word of an element is so many words behind the first.
pub proof fn law_element_word(
    b: BuilderView,
    index: ValueId,
    one_word: ValueId,
    data: ValueId,
    f: FunctionView,
    came: BlockId,
    frame: Frame,
) -> (to: Frame)
    requires
        is_open(b.func, b.block),
        known_by(f, index, b.func.insts.len()),
        known_by(f, one_word, b.func.insts.len()),
        known_by(f, data, b.func.insts.len()),
        word_in(f, frame, one_word) == 32,
        word_in(f, frame, data) + 32 * word_in(f, frame, index) < word_modulus(),
        grows(element_word_loaded(b, index, one_word, data).0.func, f) || grows(
            element_head_loaded(b, index, one_word, data).0.func,
            f,
        ),
    ensures
        ({
            let at = word_in(f, frame, data) + 32 * word_in(f, frame, index);
            &&& grows(element_word_loaded(b, index, one_word, data).0.func, f) ==> {
                &&& runs(f, b, element_word_loaded(b, index, one_word, data).0, came, frame, to)
                &&& word_in(f, to, element_word_loaded(b, index, one_word, data).1) == word_at(
                    frame.memory,
                    at,
                )
            }
            &&& grows(element_head_loaded(b, index, one_word, data).0.func, f) ==> {
                let (built, (offset, head)) = element_head_loaded(b, index, one_word, data);
                &&& runs(f, b, built, came, frame, to)
                &&& word_in(f, to, offset) == 32 * word_in(f, frame, index)
                &&& word_in(f, to, head) == word_at(frame.memory, at)
            }
        }),
{
    broadcast use {group_growth, group_builder_steps, group_spots, lemma_held_kept};

    reveal(element_word_loaded);
    reveal(element_head_loaded);
    let ty = MirType::uint256();
    let (i, d) = (word_in(f, frame, index), word_in(f, frame, data));
    let offset = next_value(b.func);
    let b1 = emitted(b, inst(Op::Mul, seq![index, one_word]), Some(ty));
    let addr = next_value(b1.func);
    let b2 = emitted(b1, inst(Op::Add, seq![data, offset]), Some(ty));
    lemma_runs_nothing(f, b, came, frame);
    lemma_small_mod(i * 32, word_modulus());
    lemma_small_mod(d + 32 * i, word_modulus());
    let f1 = lemma_pair(f, b, b, Op::Mul, index, one_word, ty, came, frame, frame);
    let f2 = lemma_pair(f, b, b1, Op::Add, data, offset, ty, came, frame, f1);
    lemma_load(f, b, b2, addr, came, frame, f2)
}

/// A value that is placed is stored so far behind the start of the data.
pub proof fn law_element_placed(
    b: BuilderView,
    data: ValueId,
    offset: ValueId,
    value: ValueId,
    f: FunctionView,
    came: BlockId,
    frame: Frame,
) -> (to: Frame)
    requires
        is_open(b.func, b.block),
        grows(element_placed(b, data, offset, value).func, f),
        known_by(f, data, b.func.insts.len()),
        known_by(f, offset, b.func.insts.len()),
        known_by(f, value, b.func.insts.len()),
        word_in(f, frame, data) + word_in(f, frame, offset) < word_modulus(),
    ensures
        leads(
            f,
            ends_at(b, came, frame),
            Outcome::At(ends_at(element_placed(b, data, offset, value), came, to)),
        ),
        undisturbed(
            b.func.insts.len(),
            storing(
                frame,
                word_in(f, frame, data) + word_in(f, frame, offset),
                word_in(f, frame, value),
            ),
            to,
        ),
{
    broadcast use {group_growth, group_builder_steps, group_spots, lemma_held_kept};

    reveal(element_placed);
    let at = word_in(f, frame, data) + word_in(f, frame, offset);
    let addr = next_value(b.func);
    let b1 = emitted(b, inst(Op::Add, seq![data, offset]), Some(MirType::uint256()));
    lemma_runs_nothing(f, b, came, frame);
    lemma_small_mod(at, word_modulus());
    let mid = lemma_pair(f, b, b, Op::Add, data, offset, MirType::uint256(), came, frame, frame);
    lemma_leads_stored(f, b1, addr, value, came, mid);
    let to = storing(mid, at, word_in(f, frame, value));
    lemma_leads_on(
        f,
        ends_at(b, came, frame),
        ends_at(b1, came, mid),
        Outcome::At(ends_at(element_placed(b, data, offset, value), came, to)),
    );
    reveal(undisturbed);
    to
}

/// A run goes on with the body of a `try` where the call succeeded, and with the
/// handlers where it did not.
pub proof fn law_try_branched(
    b: BuilderView,
    success: ValueId,
    success_block: BlockId,
    catch_block: BlockId,
    f: FunctionView,
    came: BlockId,
    frame: Frame,
)
    requires
        is_open(b.func, b.block),
        grows(try_branched(b, success, success_block, catch_block).func, f),
    ensures
        try_branched(b, success, success_block, catch_block).block == success_block,
        leads(
            f,
            ends_at(b, came, frame),
            Outcome::At(
                (Spot {
                    block: if word_in(f, frame, success) != 0 {
                        success_block
                    } else {
                        catch_block
                    },
                    index: 0,
                    came: b.block,
                    frame,
                }),
            ),
        ),
{
    broadcast use {group_growth, group_builder_steps, group_spots};

    reveal(try_branched);
    lemma_leads_ended(
        f,
        b,
        TermView::Branch { condition: success, then_block: success_block, else_block: catch_block },
        came,
        frame,
        Outcome::At(
            Spot {
                block: if word_in(f, frame, success) != 0 {
                    success_block
                } else {
                    catch_block
                },
                index: 0,
                came: b.block,
                frame,
            },
        ),
    );
}

/// The bits that two truth values have in common are the truth value of both.
proof fn lemma_both(x: bool, y: bool)
    ensures
        computed(Op::And, seq![truth_word(x), truth_word(y)]) == Some(truth_word(x && y)),
{
    lemma2_to64();
    let a = seq![truth_word(x), truth_word(y)];
    let common = |i: nat| has_bit(a[0], i) && has_bit(a[1], i);
    assert(computed(Op::And, a) == Some(of_bits(common, 256)));
    if y {
        lemma_pow2_strictly_increases(1, 256);
        lemma_and_low(truth_word(x), 1, |i: nat| has_bit(truth_word(x), i) && has_bit(1, i));
        lemma_same_bits(
            common,
            |i: nat| has_bit(truth_word(x), i) && has_bit(1, i),
            256,
        );
    } else {
        assert forall|i: nat| i < 256 implies !#[trigger] common(i) by {
            lemma_pow2_pos(i);
            vstd::arithmetic::div_mod::lemma_basic_div(0, pow2(i) as int);
        }
        lemma_upper_bits(common, 0, 256);
    }
}

/// A panic is caught where the data starts with the selector of a panic and is long
/// enough to hold its code.
pub proof fn law_panic_matched(
    b: BuilderView,
    size: ValueId,
    has_selector: ValueId,
    selector: ValueId,
    starts: bool,
    f: FunctionView,
    came: BlockId,
    frame: Frame,
) -> (to: Frame)
    requires
        is_open(b.func, b.block),
        grows(panic_matched(b, size, has_selector, selector).0.func, f),
        known_by(f, size, b.func.insts.len()),
        known_by(f, has_selector, b.func.insts.len()),
        known_by(f, selector, b.func.insts.len()),
        word_in(f, frame, has_selector) == truth_word(starts),
    ensures
        runs(f, b, panic_matched(b, size, has_selector, selector).0, came, frame, to),
        word_in(f, to, panic_matched(b, size, has_selector, selector).1) == truth_word(
            starts && word_in(f, frame, selector) == 0x4e487b71 && word_in(f, frame, size) >= 36,
        ),
{
    broadcast use {group_growth, group_builder_steps, group_spots, lemma_held_kept};

    reveal(panic_matched);
    let ty = MirType::uint256();
    let (n, s) = (word_in(f, frame, size), word_in(f, frame, selector));
    let panic_selector = next_value(b.func);
    let b1 = constant(b, word(PANIC_SELECTOR));
    let is_panic = next_value(b1.func);
    let b2 = emitted(b1, inst(Op::Eq, seq![selector, panic_selector]), Some(MirType::Bool));
    let matched = next_value(b2.func);
    let b3 = emitted(b2, inst(Op::And, seq![is_panic, has_selector]), Some(ty));
    let thirty_six = next_value(b3.func);
    let b4 = constant(b3, word(36));
    let short = next_value(b4.func);
    let b5 = emitted(b4, inst(Op::Lt, seq![size, thirty_six]), Some(MirType::Bool));
    let long_enough = next_value(b5.func);
    let b6 = emitted(b5, inst(Op::IsZero, seq![short]), Some(MirType::Bool));
    let is_it = s == 0x4e487b71;
    lemma_runs_nothing(f, b, came, frame);
    let f1 = lemma_pair(
        f,
        b,
        b1,
        Op::Eq,
        selector,
        panic_selector,
        MirType::Bool,
        came,
        frame,
        frame,
    );
    assert(word_in(f, f1, is_panic) == truth_word(is_it));
    lemma_both(is_it, starts);
    let f2 = lemma_pair(f, b, b2, Op::And, is_panic, has_selector, ty, came, frame, f1);
    let f3 = lemma_pair(f, b, b4, Op::Lt, size, thirty_six, MirType::Bool, came, frame, f2);
    let f4 = lemma_single(f, b, b5, Op::IsZero, short, MirType::Bool, came, frame, f3);
    assert(word_in(f, f4, long_enough) == truth_word(n >= 36));
    lemma_both(is_it && starts, n >= 36);
    assert(word_in(f, f4, matched) == truth_word(is_it && starts));
    lemma_pair(f, b, b6, Op::And, matched, long_enough, ty, came, frame, f4)
}

/// The bounds of an integer type are the least and the largest number of its width.
pub proof fn law_type_bounds(hir: Hir, bits: u16)
    requires
        0 < bits <= 256,
    ensures
        type_bound(hir, TypeKind::Elementary(ElementaryType::UInt(bits)), true) == Some(
            (pow2(bits as nat) - 1) as nat,
        ),
        type_bound(hir, TypeKind::Elementary(ElementaryType::UInt(bits)), false) == Some(0nat),
        ({
            let half = pow2((bits - 1) as nat);
            let ty = TypeKind::Elementary(ElementaryType::Int(bits));
            &&& type_bound(hir, ty, true) matches Some(max) && signed_value(max) == half - 1
            &&& type_bound(hir, ty, false) matches Some(min) && signed_value(min) == -half
        }),
{
    let below = (bits - 1) as nat;
    lemma_pow2_split(below);
    lemma_pow2_pos(below);
    lemma2_to64();
    vstd::arithmetic::power2::lemma_pow2_adds(255, 1);
    if below < 255 {
        lemma_pow2_strictly_increases(below, 255);
    }
}

/// An error with a text is handled where the data starts with the selector of one; else
/// the next handler is tried.
pub proof fn law_error_handler(
    b: BuilderView,
    selector: ValueId,
    has_selector: ValueId,
    starts: bool,
    f: FunctionView,
    came: BlockId,
    frame: Frame,
) -> (to: Frame)
    requires
        is_open(b.func, b.block),
        grows(error_handler_begun(b, selector, has_selector).0.func, f),
        known_by(f, selector, b.func.insts.len()),
        known_by(f, has_selector, b.func.insts.len()),
        word_in(f, frame, has_selector) == truth_word(starts),
    ensures
        undisturbed(b.func.insts.len(), frame, to),
        leads(
            f,
            ends_at(b, came, frame),
            Outcome::At(
                (Spot {
                    block: if starts && word_in(f, frame, selector) == 0x08c379a0 {
                        error_handler_begun(b, selector, has_selector).0.block
                    } else {
                        error_handler_begun(b, selector, has_selector).1
                    },
                    index: 0,
                    came: b.block,
                    frame: to,
                }),
            ),
        ),
{
    broadcast use {group_growth, group_builder_steps, group_spots, lemma_held_kept};

    reveal(error_handler_begun);
    reveal(handler_entered);
    let error_selector = next_value(b.func);
    let b1 = constant(b, word(ERROR_SELECTOR));
    let is_error = next_value(b1.func);
    let b2 = emitted(b1, inst(Op::Eq, seq![selector, error_selector]), Some(MirType::Bool));
    let matched = next_value(b2.func);
    let b3 = emitted(b2, inst(Op::And, seq![is_error, has_selector]), Some(MirType::uint256()));
    let body = next_block(b3.func);
    let b4 = blocked(b3);
    let next = next_block(b4.func);
    let b5 = blocked(b4);
    let branch = TermView::Branch { condition: matched, then_block: body, else_block: next };
    let is_it = word_in(f, frame, selector) == 0x08c379a0;
    lemma_runs_nothing(f, b, came, frame);
    let f1 = lemma_pair(
        f,
        b,
        b1,
        Op::Eq,
        selector,
        error_selector,
        MirType::Bool,
        came,
        frame,
        frame,
    );
    assert(word_in(f, f1, is_error) == truth_word(is_it));
    lemma_both(is_it, starts);
    let to = lemma_pair(
        f,
        b,
        b2,
        Op::And,
        is_error,
        has_selector,
        MirType::uint256(),
        came,
        frame,
        f1,
    );
    let there = Outcome::At(
        Spot {
            block: if starts && is_it {
                body
            } else {
                next
            },
            index: 0,
            came: b.block,
            frame: to,
        },
    );
    lemma_leads_ended(f, b5, branch, came, to, there);
    lemma_leads_on(f, ends_at(b, came, frame), ends_at(b3, came, to), there);
    to
}

/// The bytes that a head in the call data points at: their length is where it points,
/// counted from the start of the data, and the bytes follow.
pub proof fn law_tail_sliced(
    b: BuilderView,
    struct_base: ValueId,
    head_pos: ValueId,
    f: FunctionView,
    came: BlockId,
    frame: Frame,
) -> (to: Frame)
    requires
        is_open(b.func, b.block),
        grows(tail_sliced(b, struct_base, head_pos).0.func, f),
        known_by(f, struct_base, b.func.insts.len()),
        known_by(f, head_pos, b.func.insts.len()),
        word_in(f, frame, struct_base) + word_at(
            call_bytes(frame),
            word_in(f, frame, head_pos),
        ) + 32 < word_modulus(),
    ensures
        runs(f, b, tail_sliced(b, struct_base, head_pos).0, came, frame, to),
        ({
            let at = word_in(f, frame, struct_base) + word_at(
                call_bytes(frame),
                word_in(f, frame, head_pos),
            );
            held(f, to, tail_sliced(b, struct_base, head_pos).1) == Datum::Slice(
                at + 32,
                word_at(call_bytes(frame), at),
            )
        }),
{
    broadcast use {group_growth, group_builder_steps, group_spots, lemma_held_kept};

    reveal(tail_sliced);
    let ty = MirType::uint256();
    let offset_at = word_in(f, frame, head_pos);
    let offset = word_at(call_bytes(frame), offset_at);
    let at = word_in(f, frame, struct_base) + offset;
    let tail_offset = next_value(b.func);
    let b1 = emitted(b, inst(Op::CalldataLoad, seq![head_pos]), Some(ty));
    let len_pos = next_value(b1.func);
    let b2 = emitted(b1, inst(Op::Add, seq![struct_base, tail_offset]), Some(ty));
    let len = next_value(b2.func);
    let b3 = emitted(b2, inst(Op::CalldataLoad, seq![len_pos]), Some(ty));
    let one_word = next_value(b3.func);
    let b4 = constant(b3, word(32));
    let data = next_value(b4.func);
    let b5 = emitted(b4, inst(Op::Add, seq![len_pos, one_word]), Some(ty));
    lemma_runs_nothing(f, b, came, frame);
    assert(words_in(f, frame, seq![head_pos])[0] == offset_at);
    let f1 = lemma_runs_result(
        f,
        b,
        b,
        inst(Op::CalldataLoad, seq![head_pos]),
        Some(ty),
        came,
        frame,
        frame,
        Datum::Word(offset),
    );
    lemma_small_mod(at, word_modulus());
    lemma_small_mod(at + 32, word_modulus());
    let f2 = lemma_pair(f, b, b1, Op::Add, struct_base, tail_offset, ty, came, frame, f1);
    assert(words_in(f, f2, seq![len_pos])[0] == at);
    assert(call_bytes(f2) == call_bytes(frame)) by {
        reveal(undisturbed);
    }
    let f3 = lemma_runs_result(
        f,
        b,
        b2,
        inst(Op::CalldataLoad, seq![len_pos]),
        Some(ty),
        came,
        frame,
        f2,
        Datum::Word(word_at(call_bytes(frame), at)),
    );
    let f4 = lemma_pair(f, b, b4, Op::Add, len_pos, one_word, ty, came, frame, f3);
    assert(words_in(f, f4, seq![data, len])[0] == at + 32);
    assert(words_in(f, f4, seq![data, len])[1] == word_at(call_bytes(frame), at));
    lemma_runs_result(
        f,
        b,
        b5,
        inst(Op::MakeSlice { location: SliceLocation::Calldata }, seq![data, len]),
        Some(MirType::Slice(SliceLocation::Calldata)),
        came,
        frame,
        f4,
        Datum::Slice(at + 32, word_at(call_bytes(frame), at)),
    )
}

/// The parts of bytes in encoded data: their length is where their head points, they
/// follow it, and with the zeros that fill the last word they must be inside the data;
/// else the call is undone with no data.
pub proof fn law_tail_measured(
    b: BuilderView,
    tuple_base: ValueId,
    tuple_len: ValueId,
    head: ValueId,
    tail_head_end: ValueId,
    f: FunctionView,
    came: BlockId,
    frame: Frame,
) -> (r: (BlockId, Frame))
    requires
        is_open(b.func, b.block),
        grows(tail_measured(b, tuple_base, tuple_len, head, tail_head_end).0.func, f),
        known_by(f, tuple_base, b.func.insts.len()),
        known_by(f, tuple_len, b.func.insts.len()),
        known_by(f, head, b.func.insts.len()),
        known_by(f, tail_head_end, b.func.insts.len()),
        word_in(f, frame, tuple_base) + word_in(f, frame, head) < word_modulus(),
        word_in(f, frame, tail_head_end) < word_modulus(),
        word_in(f, frame, tuple_len) < word_modulus(),
        word_at(
            frame.memory,
            word_in(f, frame, tuple_base) + word_in(f, frame, head),
        ) < word_modulus(),
    ensures
        ({
            let at = word_in(f, frame, tuple_base) + word_in(f, frame, head);
            let len = word_at(frame.memory, at);
            let passes = len + 31 < word_modulus() && word_in(f, frame, tail_head_end)
                + whole_words(len) <= word_in(f, frame, tuple_len);
            let (built, (len_addr, tail_len, padded)) = tail_measured(
                b,
                tuple_base,
                tuple_len,
                head,
                tail_head_end,
            );
            &&& leads(f, ends_at(b, came, frame), passed_or_undone(passes, built, r.0, r.1))
            &&& passes ==> {
                &&& word_in(f, r.1, len_addr) == at
                &&& word_in(f, r.1, tail_len) == len
                &&& word_in(f, r.1, padded) == whole_words(len)
            }
        }),
{
    broadcast use {group_growth, group_builder_steps, group_spots, lemma_held_kept};

    reveal(tail_measured);
    let ty = MirType::uint256();
    let from = ends_at(b, came, frame);
    let at = word_in(f, frame, tuple_base) + word_in(f, frame, head);
    let n = word_at(frame.memory, at);
    let t = word_in(f, frame, tail_head_end);
    let len_addr = next_value(b.func);
    let b1 = emitted(b, inst(Op::Add, seq![tuple_base, head]), Some(ty));
    let tail_len = next_value(b1.func);
    let b2 = emitted(b1, inst(Op::MLoad, seq![len_addr]), Some(ty));
    let thirty_one = next_value(b2.func);
    let b3 = constant(b2, word(31));
    let rounded = next_value(b3.func);
    let b4 = emitted(b3, inst(Op::Add, seq![tail_len, thirty_one]), Some(ty));
    let over = next_value(b4.func);
    let b5 = emitted(b4, inst(Op::Lt, seq![rounded, tail_len]), Some(MirType::Bool));
    let b6 = decode_revert_if(b5, over);
    let mask = next_value(b6.func);
    let b7 = emitted(b6, inst(Op::Not, seq![thirty_one]), Some(ty));
    let padded = next_value(b7.func);
    let b8 = emitted(b7, inst(Op::And, seq![rounded, mask]), Some(ty));
    let tail_end = next_value(b8.func);
    let b9 = emitted(b8, inst(Op::Add, seq![tail_head_end, padded]), Some(ty));
    let tail_over = next_value(b9.func);
    let b10 = emitted(b9, inst(Op::Lt, seq![tail_end, tail_head_end]), Some(MirType::Bool));
    let b11 = decode_revert_if(b10, tail_over);
    let oob = next_value(b11.func);
    let b12 = emitted(b11, inst(Op::Gt, seq![tail_end, tuple_len]), Some(MirType::Bool));
    lemma_check_grows(f, b5, over);
    lemma_check_grows(f, b10, tail_over);
    lemma_check_grows(f, b12, oob);
    lemma2_to64();
    lemma_pow2_strictly_increases(5, 256);
    lemma_runs_nothing(f, b, came, frame);
    lemma_small_mod(at, word_modulus());
    let f1 = lemma_pair(f, b, b, Op::Add, tuple_base, head, ty, came, frame, frame);
    let f2 = lemma_load(f, b, b1, len_addr, came, frame, f1);
    let f3 = lemma_pair(f, b, b3, Op::Add, tail_len, thirty_one, ty, came, frame, f2);
    let f4 = lemma_pair(f, b, b4, Op::Lt, rounded, tail_len, MirType::Bool, came, frame, f3);
    lemma_check(f, from, b5, over, came, f4);
    lemma_wrapped_sum(n, 31);
    if n + 31 >= word_modulus() {
        (b.block, f4)
    } else {
        lemma_rounded(n + 31, high_mask(5));
        let p = whole_words(n);
        lemma_runs_nothing(f, b6, b5.block, f4);
        let f5 = lemma_single(f, b6, b6, Op::Not, thirty_one, ty, b5.block, f4, f4);
        assert(word_in(f, f5, mask) == high_mask(5));
        assert(word_in(f, f5, rounded) == n + 31);
        let f6 = lemma_pair(f, b6, b7, Op::And, rounded, mask, ty, b5.block, f4, f5);
        assert(word_in(f, f6, padded) == p);
        assert(p < word_modulus());
        let f7 = lemma_pair(f, b6, b8, Op::Add, tail_head_end, padded, ty, b5.block, f4, f6);
        let f8 = lemma_pair(
            f,
            b6,
            b9,
            Op::Lt,
            tail_end,
            tail_head_end,
            MirType::Bool,
            b5.block,
            f4,
            f7,
        );
        lemma_leads_on(
            f,
            from,
            ends_at(b6, b5.block, f4),
            Outcome::At(ends_at(b10, b5.block, f8)),
        );
        lemma_check(f, from, b10, tail_over, b5.block, f8);
        lemma_wrapped_sum(t, p);
        if t + p >= word_modulus() {
            (b5.block, f8)
        } else {
            lemma_runs_nothing(f, b11, b10.block, f8);
            let f9 = lemma_pair(
                f,
                b11,
                b11,
                Op::Gt,
                tail_end,
                tuple_len,
                MirType::Bool,
                b10.block,
                f8,
                f8,
            );
            lemma_leads_on(
                f,
                from,
                ends_at(b11, b10.block, f8),
                Outcome::At(ends_at(b12, b10.block, f9)),
            );
            lemma_check(f, from, b12, oob, b10.block, f9);
            (b12.block, f9)
        }
    }
}

} // verus!
