//! What a call that is undone answers.

use crate::lower::names::selector_word;
use crate::lower::objects::{error_selector, short_string_reverted};
use crate::mir::bits::lemma_word_exists;
use crate::mir::builder::{constant, emitted, group_builder_steps, word, BuilderView};
use crate::mir::function::{next_value, FunctionView};
use crate::mir::inst::{inst, Op, TermView};
use crate::mir::meaning::{leads, range, word_bytes, word_in, Frame, Outcome};
use crate::mir::runs::{
    ends_at, group_growth, group_spots, grows, is_open, known_by, lemma_held_stored,
    lemma_leads_ended, lemma_leads_on, lemma_leads_stored, storing,
};
use crate::mir::types::{BlockId, ValueId};
use crate::word::word_modulus;
use vstd::arithmetic::div_mod::{lemma_fundamental_div_mod_converse, lemma_small_mod};
use vstd::arithmetic::power2::{lemma2_to64, lemma_pow2_adds, lemma_pow2_pos, pow2};
use vstd::prelude::*;

verus! {

/// A selector in the highest bytes of a word is a word.
proof fn lemma_leading_selector(selector: nat)
    requires
        selector < pow2(32),
    ensures
        selector * pow2(224) < word_modulus(),
        (selector * pow2(224)) % word_modulus() == selector * pow2(224),
{
    lemma_pow2_adds(32, 224);
    lemma_pow2_pos(224);
    assert(selector * pow2(224) < pow2(32) * pow2(224)) by (nonlinear_arith)
        requires
            selector < pow2(32),
            pow2(224) > 0,
    ;
    lemma_small_mod(selector * pow2(224), word_modulus());
}

/// A selector as a word has its four bytes first and zeros behind them.
pub proof fn law_selector_word(selector: u32)
    ensures
        selector_word(selector)@ / pow2(224) == selector,
        selector_word(selector)@ % pow2(224) == 0,
{
    lemma2_to64();
    lemma_pow2_pos(224);
    lemma_leading_selector(selector as nat);
    lemma_word_exists(selector as nat * pow2(224));
    lemma_fundamental_div_mod_converse(
        (selector as nat * pow2(224)) as int,
        pow2(224) as int,
        selector as int,
        0,
    );
}

/// A call that is undone with a short text answers with the selector of `Error(string)`
/// and the encoding of the text: where it starts, its length and its bytes.
pub proof fn law_short_string_reverted(
    b: BuilderView,
    len: ValueId,
    data: ValueId,
    f: FunctionView,
    came: BlockId,
    frame: Frame,
)
    requires
        is_open(b.func, b.block),
        grows(short_string_reverted(b, len, data).func, f),
        known_by(f, len, b.func.insts.len()),
        known_by(f, data, b.func.insts.len()),
    ensures
        leads(
            f,
            ends_at(b, came, frame),
            Outcome::Reverted(
                word_bytes(0x08c379a0 * pow2(224)).take(4) + word_bytes(32) + word_bytes(
                    word_in(f, frame, len),
                ) + word_bytes(word_in(f, frame, data)),
            ),
        ),
{
    broadcast use {group_growth, group_builder_steps, group_spots, lemma_held_stored};

    reveal(short_string_reverted);
    let from = ends_at(b, came, frame);
    let (n, d) = (word_in(f, frame, len), word_in(f, frame, data));
    let s: nat = 0x08c379a0 * pow2(224);
    lemma2_to64();
    lemma_leading_selector(0x08c379a0);
    lemma_word_exists(s);
    let selector = next_value(b.func);
    let b1 = constant(b, error_selector());
    let zero = next_value(b1.func);
    let b2 = constant(b1, word(0));
    let b3 = emitted(b2, inst(Op::MStore, seq![zero, selector]), None);
    let four = next_value(b3.func);
    let b4 = constant(b3, word(4));
    let offset = next_value(b4.func);
    let b5 = constant(b4, word(32));
    let b6 = emitted(b5, inst(Op::MStore, seq![four, offset]), None);
    let len_at = next_value(b6.func);
    let b7 = constant(b6, word(36));
    let b8 = emitted(b7, inst(Op::MStore, seq![len_at, len]), None);
    let data_at = next_value(b8.func);
    let b9 = constant(b8, word(68));
    let b10 = emitted(b9, inst(Op::MStore, seq![data_at, data]), None);
    let size = next_value(b10.func);
    let b11 = constant(b10, word(100));
    let f1 = storing(frame, 0, s);
    let f2 = storing(f1, 4, 32);
    let f3 = storing(f2, 36, n);
    let f4 = storing(f3, 68, d);
    assert(word_in(f, frame, zero) == 0 && word_in(f, frame, selector) == s);
    lemma_leads_stored(f, b2, zero, selector, came, frame);
    assert(word_in(f, f1, four) == 4 && word_in(f, f1, offset) == 32);
    lemma_leads_stored(f, b5, four, offset, came, f1);
    assert(word_in(f, f2, len_at) == 36 && word_in(f, f2, len) == n);
    lemma_leads_stored(f, b7, len_at, len, came, f2);
    assert(word_in(f, f3, data_at) == 68 && word_in(f, f3, data) == d);
    lemma_leads_stored(f, b9, data_at, data, came, f3);
    assert(word_in(f, f4, zero) == 0 && word_in(f, f4, size) == 100);
    let answer = word_bytes(s).take(4) + word_bytes(32) + word_bytes(n) + word_bytes(d);
    assert(range(f4.memory, 0, 100) =~= answer);
    lemma_leads_ended(
        f,
        b11,
        TermView::Revert { offset: zero, size },
        came,
        f4,
        Outcome::Reverted(answer),
    );
    lemma_leads_on(f, from, ends_at(b3, came, f1), Outcome::At(ends_at(b6, came, f2)));
    lemma_leads_on(f, from, ends_at(b6, came, f2), Outcome::At(ends_at(b8, came, f3)));
    lemma_leads_on(f, from, ends_at(b8, came, f3), Outcome::At(ends_at(b10, came, f4)));
    lemma_leads_on(f, from, ends_at(b10, came, f4), Outcome::Reverted(answer));
}

} // verus!
