//! What conversions of words give.

use crate::hir::ElementaryType;
use crate::lower::emit::{
    as_number, bytes_cleaned, cleaned, converted, decode_revert_if, is_number, leading_word,
    left_aligned, mask_applied, masked, shifted_left, shifted_right, sign_extended, sign_shifted,
    truth, word_decoded, ConversionSource,
};
use crate::lower::laws::{bit, lemma_high_mask_bits, lemma_low_mask_bits};
use crate::lower::types::{high_mask, lemma_pow2_split, low_mask};
use crate::lower::word_laws::{holds_bytes, law_decode_revert_if, passed_or_undone};
use crate::mir::bits::{
    lemma_bytes_bound, lemma_divided_bits, lemma_low_bits, lemma_same_bits, lemma_upper_bits,
    lemma_word_bits, lemma_word_exists,
};
use crate::mir::builder::{constant, emitted, group_builder_steps, word, BuilderView};
use crate::mir::function::{next_value, FunctionView};
use crate::mir::inst::{inst, Op};
use crate::mir::meaning::{
    call_bytes, has_bit, held, leads, of_bits, signed_part, signed_value, truth_word, word_at,
    word_in, words_in, wrapped, Datum, Frame, Outcome,
};
use crate::mir::runs::{
    ends_at, group_growth, group_spots, grows, is_open, known_by, lemma_held_kept, lemma_leads_on,
    lemma_runs_computed, lemma_runs_nothing, lemma_runs_result, runs, undisturbed,
};
use crate::mir::types::{BlockId, MirType, SliceLocation, ValueId};
use crate::word::{word_modulus, word_of, U256};
use vstd::arithmetic::div_mod::{
    lemma_fundamental_div_mod, lemma_fundamental_div_mod_converse, lemma_mod_bound, lemma_small_mod,
};
use vstd::arithmetic::power2::{lemma2_to64, lemma_pow2_adds, lemma_pow2_pos, pow2};
use vstd::prelude::*;

verus! {

/// What is left of a word under a low mask.
pub proof fn lemma_and_low(number: nat, count: nat, f: spec_fn(nat) -> bool)
    requires
        count <= 256,
        number < word_modulus(),
        forall|i: nat|
            #[trigger] f(i) == (has_bit(number, i) && has_bit(low_mask(count), i)),
    ensures
        of_bits(f, 256) == number % pow2(count),
{
    assert forall|i: nat| count <= i < 256 implies !#[trigger] f(i) by {
        lemma_low_mask_bits(count, i);
        assert(!bit(low_mask(count), i));
    }
    lemma_upper_bits(f, count, 256);
    lemma_low_bits(number, count);
    let own = |i: nat| has_bit(number, i);
    assert forall|i: nat| i < count implies #[trigger] f(i) == own(i) by {
        lemma_low_mask_bits(count, i);
        assert(bit(low_mask(count), i));
    }
    lemma_same_bits(f, own, count);
}

/// What is left of a word under a high mask.
pub proof fn lemma_and_high(number: nat, count: nat, f: spec_fn(nat) -> bool)
    requires
        count <= 256,
        number < word_modulus(),
        forall|i: nat|
            #[trigger] f(i) == (has_bit(number, i) && has_bit(high_mask(count), i)),
    ensures
        of_bits(f, 256) == number - number % pow2(count),
{
    let own = |i: nat| has_bit(number, i);
    let low = |i: nat| i < count && has_bit(number, i);
    assert forall|i: nat| i < 256 implies #[trigger] own(i) == (f(i) || low(i)) && !(f(i) && low(
        i,
    )) by {
        lemma_high_mask_bits(count, i);
        assert(bit(high_mask(count), i) == (i >= count));
    }
    lemma_divided_bits(f, low, own, 256);
    lemma_upper_bits(low, count, 256);
    lemma_same_bits(low, own, count);
    lemma_low_bits(number, count);
    lemma_word_bits(number);
}

/// A word is masked bit by bit.
proof fn lemma_masked(
    b: BuilderView,
    value: ValueId,
    mask: U256,
    f: FunctionView,
    came: BlockId,
    frame: Frame,
) -> (to: Frame)
    requires
        is_open(b.func, b.block),
        grows(mask_applied(b, value, mask).0.func, f),
        known_by(f, value, b.func.insts.len()),
    ensures
        runs(f, b, mask_applied(b, value, mask).0, came, frame, to),
        known_by(
            f,
            mask_applied(b, value, mask).1,
            mask_applied(b, value, mask).0.func.insts.len(),
        ),
        word_in(f, to, mask_applied(b, value, mask).1) == of_bits(
            |i: nat| has_bit(word_in(f, frame, value), i) && has_bit(mask@, i),
            256,
        ),
{
    broadcast use {group_growth, group_builder_steps, group_spots, lemma_held_kept};

    reveal(mask_applied);
    let b1 = constant(b, mask);
    let args = seq![value, next_value(b.func)];
    lemma_runs_nothing(f, b, came, frame);
    let to = lemma_runs_computed(
        f,
        b,
        b1,
        Op::And,
        args,
        Some(MirType::uint256()),
        came,
        frame,
        frame,
    );
    let a = words_in(f, frame, args);
    assert(a[0] == word_in(f, frame, value) && a[1] == mask@);
    lemma_same_bits(
        |i: nat| has_bit(a[0], i) && has_bit(a[1], i),
        |i: nat| has_bit(word_in(f, frame, value), i) && has_bit(mask@, i),
        256,
    );
    to
}

/// Masking to a number of bits keeps the rest by a power of two.
pub proof fn law_masked(
    b: BuilderView,
    value: ValueId,
    bits: u32,
    f: FunctionView,
    came: BlockId,
    frame: Frame,
) -> (to: Frame)
    requires
        is_open(b.func, b.block),
        grows(masked(b, value, bits).0.func, f),
        known_by(f, value, b.func.insts.len()),
        word_in(f, frame, value) < word_modulus(),
        0 < bits <= 256,
    ensures
        runs(f, b, masked(b, value, bits).0, came, frame, to),
        known_by(f, masked(b, value, bits).1, masked(b, value, bits).0.func.insts.len()),
        word_in(f, to, masked(b, value, bits).1) == word_in(f, frame, value) % pow2(bits as nat),
{
    reveal(masked);
    let w = word_in(f, frame, value);
    if bits == 256 {
        lemma_runs_nothing(f, b, came, frame);
        lemma_small_mod(w, pow2(256));
        frame
    } else {
        lemma_pow2_split(bits as nat);
        lemma_pow2_pos(bits as nat);
        vstd::arithmetic::power2::lemma_pow2_strictly_increases(bits as nat, 256);
        lemma_word_exists(low_mask(bits as nat));
        let mask = word_of(low_mask(bits as nat));
        let to = lemma_masked(b, value, mask, f, came, frame);
        lemma_and_low(w, bits as nat, |i: nat| has_bit(w, i) && has_bit(mask@, i));
        to
    }
}

/// Cleaning a fixed-size bytes value keeps its leading bytes and zeroes the rest.
pub proof fn law_bytes_cleaned(
    b: BuilderView,
    value: ValueId,
    bytes: u8,
    f: FunctionView,
    came: BlockId,
    frame: Frame,
) -> (to: Frame)
    requires
        is_open(b.func, b.block),
        grows(bytes_cleaned(b, value, bytes).0.func, f),
        known_by(f, value, b.func.insts.len()),
        word_in(f, frame, value) < word_modulus(),
        0 < bytes <= 32,
    ensures
        runs(f, b, bytes_cleaned(b, value, bytes).0, came, frame, to),
        known_by(
            f,
            bytes_cleaned(b, value, bytes).1,
            bytes_cleaned(b, value, bytes).0.func.insts.len(),
        ),
        word_in(f, to, bytes_cleaned(b, value, bytes).1) == word_in(f, frame, value) - word_in(
            f,
            frame,
            value,
        ) % pow2((256 - 8 * bytes) as nat),
{
    reveal(bytes_cleaned);
    let w = word_in(f, frame, value);
    if bytes == 32 {
        lemma_runs_nothing(f, b, came, frame);
        lemma2_to64();
        assert(w % 1 == 0);
        frame
    } else {
        let count = (256 - 8 * bytes) as nat;
        lemma_pow2_split(count);
        lemma_pow2_pos(count);
        vstd::arithmetic::power2::lemma_pow2_strictly_increases(count, 256);
        lemma_word_exists(high_mask(count));
        let mask = word_of(high_mask(count));
        let to = lemma_masked(b, value, mask, f, came, frame);
        lemma_and_high(w, count, |i: nat| has_bit(w, i) && has_bit(mask@, i));
        to
    }
}

/// A shift by a constant multiplies or divides by a power of two.
pub proof fn law_shifted(
    b: BuilderView,
    value: ValueId,
    bits: u64,
    f: FunctionView,
    came: BlockId,
    frame: Frame,
) -> (to: Frame)
    requires
        is_open(b.func, b.block),
        grows(shifted_left(b, value, bits).0.func, f) || grows(
            shifted_right(b, value, bits).0.func,
            f,
        ),
        known_by(f, value, b.func.insts.len()),
        bits < 256,
    ensures
        grows(shifted_left(b, value, bits).0.func, f) ==> {
            &&& runs(f, b, shifted_left(b, value, bits).0, came, frame, to)
            &&& word_in(f, to, shifted_left(b, value, bits).1) == (word_in(f, frame, value) * pow2(
                bits as nat,
            )) % word_modulus()
        },
        grows(shifted_right(b, value, bits).0.func, f) ==> {
            &&& runs(f, b, shifted_right(b, value, bits).0, came, frame, to)
            &&& word_in(f, to, shifted_right(b, value, bits).1) == word_in(f, frame, value) / pow2(
                bits as nat,
            )
        },
{
    broadcast use {group_growth, group_builder_steps, group_spots, lemma_held_kept};

    reveal(shifted_left);
    reveal(shifted_right);
    let b1 = constant(b, word(bits));
    let args = seq![next_value(b.func), value];
    let ty = Some(MirType::uint256());
    lemma_runs_nothing(f, b, came, frame);
    if grows(shifted_left(b, value, bits).0.func, f) {
        assert(f.values[b.func.values.len() as int] == crate::mir::types::Value::Immediate(
            crate::mir::types::Immediate::UInt256(word(bits)),
        ));
        assert(words_in(f, frame, args)[0] == bits);
        assert(words_in(f, frame, args)[1] == word_in(f, frame, value));
        let to = lemma_runs_computed(f, b, b1, Op::Shl, args, ty, came, frame, frame);
        if grows(shifted_right(b, value, bits).0.func, f) {
            assert(inst(Op::Shl, args) == inst(Op::Shr, args));
        }
        to
    } else {
        assert(words_in(f, frame, args)[0] == bits);
        assert(words_in(f, frame, args)[1] == word_in(f, frame, value));
        lemma_runs_computed(f, b, b1, Op::Shr, args, ty, came, frame, frame)
    }
}

/// The truth of a word is one unless the word is zero.
pub proof fn law_truth(
    b: BuilderView,
    value: ValueId,
    f: FunctionView,
    came: BlockId,
    frame: Frame,
) -> (to: Frame)
    requires
        is_open(b.func, b.block),
        grows(truth(b, value).0.func, f),
        known_by(f, value, b.func.insts.len()),
    ensures
        runs(f, b, truth(b, value).0, came, frame, to),
        word_in(f, to, truth(b, value).1) == truth_word(word_in(f, frame, value) != 0),
{
    broadcast use {group_growth, group_builder_steps, group_spots, lemma_held_kept};

    reveal(truth);
    let ty = Some(MirType::Bool);
    let b1 = emitted(b, inst(Op::IsZero, seq![value]), ty);
    let is_zero = next_value(b.func);
    lemma_runs_nothing(f, b, came, frame);
    let to1 = lemma_runs_computed(f, b, b, Op::IsZero, seq![value], ty, came, frame, frame);
    assert(words_in(f, frame, seq![value])[0] == word_in(f, frame, value));
    let to2 = lemma_runs_computed(f, b, b1, Op::IsZero, seq![is_zero], ty, came, frame, to1);
    assert(words_in(f, to1, seq![is_zero])[0] == truth_word(word_in(f, frame, value) == 0));
    to2
}

/// Shifting to the left and back extends the sign.
proof fn lemma_sign_shift(number: nat, bits: nat)
    requires
        0 < bits < 256,
    ensures
        wrapped(
            signed_value((number * pow2((256 - bits) as nat)) % word_modulus()) / (pow2(
                (256 - bits) as nat,
            ) as int),
        ) == wrapped(signed_part(number, bits)),
{
    let k = (256 - bits) as nat;
    lemma_pow2_adds(bits, k);
    lemma_pow2_adds((bits - 1) as nat, k);
    lemma_pow2_adds((bits - 1) as nat, 1);
    lemma2_to64();
    lemma_pow2_pos(k);
    lemma_pow2_pos(bits);
    let p = pow2(bits) as int;
    let q = pow2(k) as int;
    let h = pow2((bits - 1) as nat) as int;
    let m = word_modulus() as int;
    let n = number as int;
    let low = n % p;
    lemma_fundamental_div_mod(n, p);
    lemma_mod_bound(n, p);
    assert(n * q == (n / p) * m + low * q) by (nonlinear_arith)
        requires
            n == p * (n / p) + low,
            m == p * q,
    ;
    assert(0 <= low * q < m) by (nonlinear_arith)
        requires
            0 <= low < p,
            m == p * q,
            q > 0,
    ;
    lemma_fundamental_div_mod_converse(n * q, m, n / p, low * q);
    assert((number * pow2(k)) as int == n * q);
    assert(pow2(255) == h * q);
    let shifted = ((number * pow2(k)) % word_modulus()) as int;
    assert(shifted == low * q);
    if low < h {
        assert(low * q < h * q) by (nonlinear_arith)
            requires
                low < h,
                q > 0,
        ;
        lemma_fundamental_div_mod_converse(low * q, q, low, 0);
    } else {
        assert(low * q >= h * q) by (nonlinear_arith)
            requires
                low >= h,
                q > 0,
        ;
        assert(low * q - m == (low - p) * q) by (nonlinear_arith)
            requires
                m == p * q,
        ;
        lemma_fundamental_div_mod_converse(low * q - m, q, low - p, 0);
    }
}

/// Sign extension gives the word of the number that the lowest bits stand for.
pub proof fn law_sign_extended(
    b: BuilderView,
    value: ValueId,
    bits: u32,
    f: FunctionView,
    came: BlockId,
    frame: Frame,
) -> (to: Frame)
    requires
        is_open(b.func, b.block),
        grows(sign_extended(b, value, bits).0.func, f),
        known_by(f, value, b.func.insts.len()),
        word_in(f, frame, value) < word_modulus(),
        0 < bits <= 256,
    ensures
        runs(f, b, sign_extended(b, value, bits).0, came, frame, to),
        word_in(f, to, sign_extended(b, value, bits).1) == wrapped(
            signed_part(word_in(f, frame, value), bits as nat),
        ),
{
    broadcast use {group_growth, group_builder_steps, group_spots, lemma_held_kept};

    reveal(sign_extended);
    let w = word_in(f, frame, value);
    lemma_runs_nothing(f, b, came, frame);
    if bits == 256 {
        let m = word_modulus() as int;
        lemma_small_mod(w, word_modulus());
        if w >= pow2(255) {
            vstd::arithmetic::div_mod::lemma_mod_add_multiples_vanish(w - m, m);
        }
        frame
    } else {
        reveal(sign_shifted);
        let by = (256 - bits) as u64;
        let shift = next_value(b.func);
        let b1 = constant(b, word(by));
        let shifted = next_value(b1.func);
        let b2 = emitted(b1, inst(Op::Shl, seq![shift, value]), Some(MirType::uint256()));
        let to1 = lemma_runs_computed(
            f,
            b,
            b1,
            Op::Shl,
            seq![shift, value],
            Some(MirType::uint256()),
            came,
            frame,
            frame,
        );
        assert(words_in(f, frame, seq![shift, value])[0] == by);
        assert(words_in(f, frame, seq![shift, value])[1] == w);
        let to2 = lemma_runs_computed(
            f,
            b,
            b2,
            Op::Sar,
            seq![shift, shifted],
            Some(MirType::int256()),
            came,
            frame,
            to1,
        );
        assert(words_in(f, to1, seq![shift, shifted])[0] == by);
        assert(words_in(f, to1, seq![shift, shifted])[1] == (w * pow2(by as nat))
            % word_modulus());
        lemma_sign_shift(w, bits as nat);
        to2
    }
}

/// A number becomes a fixed-size bytes value: its lowest bytes lead.
pub proof fn law_left_aligned(
    b: BuilderView,
    value: ValueId,
    bytes: u8,
    f: FunctionView,
    came: BlockId,
    frame: Frame,
) -> (to: Frame)
    requires
        is_open(b.func, b.block),
        grows(left_aligned(b, value, bytes).0.func, f),
        known_by(f, value, b.func.insts.len()),
        word_in(f, frame, value) < word_modulus(),
        0 < bytes <= 32,
    ensures
        runs(f, b, left_aligned(b, value, bytes).0, came, frame, to),
        word_in(f, to, left_aligned(b, value, bytes).1) == (word_in(f, frame, value) % pow2(
            8 * bytes as nat,
        )) * pow2((256 - 8 * bytes) as nat),
{
    broadcast use {group_growth, group_builder_steps, group_spots};

    reveal(left_aligned);
    let w = word_in(f, frame, value);
    lemma2_to64();
    if bytes == 32 {
        let to = law_bytes_cleaned(b, value, bytes, f, came, frame);
        lemma_small_mod(w, pow2(256));
        assert(w % 1 == 0);
        to
    } else {
        let k = (256 - 8 * bytes) as nat;
        let by = ((32 - bytes) * 8) as u64;
        let (b1, shifted) = shifted_left(b, value, by);
        assert(grows(b1.func, f) && is_open(b1.func, b1.block) && known_by(
            f,
            shifted,
            b1.func.insts.len(),
        ) && b1.func.insts.len() == b.func.insts.len() + 1) by {
            reveal(shifted_left);
            reveal(bytes_cleaned);
            reveal(mask_applied);
        }
        let to1 = law_shifted(b, value, by, f, came, frame);
        let high = (w * pow2(k)) % word_modulus();
        lemma_pow2_pos(256);
        lemma_mod_bound((w * pow2(k)) as int, word_modulus() as int);
        let to = law_bytes_cleaned(b1, shifted, bytes, f, came, to1);
        lemma_leads_on(
            f,
            ends_at(b, came, frame),
            ends_at(b1, came, to1),
            Outcome::At(ends_at(left_aligned(b, value, bytes).0, came, to)),
        );
        reveal(undisturbed);
        // The shifted number is a multiple of the power that the cleaning cuts at.
        lemma_pow2_adds(8 * bytes as nat, k);
        lemma_pow2_pos(k);
        lemma_pow2_pos(8 * bytes as nat);
        let p = pow2(8 * bytes as nat) as int;
        let q = pow2(k) as int;
        let m = word_modulus() as int;
        let n = w as int;
        let low = n % p;
        lemma_fundamental_div_mod(n, p);
        lemma_mod_bound(n, p);
        assert(n * q == (n / p) * m + low * q) by (nonlinear_arith)
            requires
                n == p * (n / p) + low,
                m == p * q,
        ;
        assert(0 <= low * q < m) by (nonlinear_arith)
            requires
                0 <= low < p,
                m == p * q,
                q > 0,
        ;
        lemma_fundamental_div_mod_converse(n * q, m, n / p, low * q);
        lemma_fundamental_div_mod_converse(low * q, q, low, 0);
        assert((w * pow2(k)) as int == n * q);
        to
    }
}

/// The leading word of a slice is the word at its start, in the call data or in
/// memory.
pub proof fn law_leading_word(
    b: BuilderView,
    value: ValueId,
    location: SliceLocation,
    f: FunctionView,
    came: BlockId,
    frame: Frame,
) -> (to: Frame)
    requires
        is_open(b.func, b.block),
        grows(leading_word(b, value, location).0.func, f),
        known_by(f, value, b.func.insts.len()),
        held(f, frame, value) is Slice,
    ensures
        runs(f, b, leading_word(b, value, location).0, came, frame, to),
        known_by(
            f,
            leading_word(b, value, location).1,
            leading_word(b, value, location).0.func.insts.len(),
        ),
        word_in(f, to, leading_word(b, value, location).1) == word_at(
            if location is Calldata {
                call_bytes(frame)
            } else {
                frame.memory
            },
            held(f, frame, value)->Slice_0,
        ),
{
    broadcast use {group_growth, group_builder_steps, group_spots, lemma_held_kept};

    reveal(leading_word);
    let ty = Some(MirType::uint256());
    let ptr = next_value(b.func);
    let b1 = emitted(b, inst(Op::SlicePtr, seq![value]), ty);
    let op = if location is Calldata {
        Op::CalldataLoad
    } else {
        Op::MLoad
    };
    let at = held(f, frame, value)->Slice_0;
    lemma_runs_nothing(f, b, came, frame);
    let to1 = lemma_runs_result(
        f,
        b,
        b,
        inst(Op::SlicePtr, seq![value]),
        ty,
        came,
        frame,
        frame,
        Datum::Word(at),
    );
    assert(words_in(f, to1, seq![ptr])[0] == at);
    assert(to1.memory == frame.memory && call_bytes(to1) == call_bytes(frame)) by {
        reveal(undisturbed);
    }
    lemma_runs_result(
        f,
        b,
        b1,
        inst(op, seq![ptr]),
        ty,
        came,
        frame,
        to1,
        Datum::Word(
            word_at(
                if location is Calldata {
                    call_bytes(frame)
                } else {
                    frame.memory
                },
                at,
            ),
        ),
    )
}

/// The number in a word that holds a number, or in the leading bytes of one that
/// holds fixed-size bytes.
pub open spec fn number_in(source: ConversionSource, number: nat) -> nat {
    match source.fixed_bytes {
        Some(width) => number / pow2((256 - 8 * width) as nat),
        None => number,
    }
}

/// The word that a conversion of a word to a type is to give. Numbers are taken
/// modulo the width of the type; fixed-size bytes keep the leading bytes of such
/// values and get the lowest bytes of numbers.
pub open spec fn conversion_result(
    elem: ElementaryType,
    source: ConversionSource,
    number: nat,
) -> nat {
    match elem {
        ElementaryType::Bool => truth_word(number != 0),
        ElementaryType::Address(_) => number_in(source, number) % pow2(160),
        ElementaryType::UInt(bits) => number_in(source, number) % pow2(bits as nat),
        ElementaryType::Int(bits) => wrapped(signed_part(number_in(source, number), bits as nat)),
        ElementaryType::FixedBytes(bytes) => if source.fixed_bytes is Some {
            (number - number % pow2((256 - 8 * bytes) as nat)) as nat
        } else {
            (number % pow2(8 * bytes as nat)) * pow2((256 - 8 * bytes) as nat)
        },
        _ => number,
    }
}

/// Whether the widths of a type and of a source are possible ones.
pub open spec fn widths_fit(elem: ElementaryType, source: ConversionSource) -> bool {
    &&& elem matches ElementaryType::UInt(bits) ==> 0 < bits <= 256
    &&& elem matches ElementaryType::Int(bits) ==> 0 < bits <= 256
    &&& elem matches ElementaryType::FixedBytes(bytes) ==> 0 < bytes <= 32
    &&& source.fixed_bytes matches Some(width) ==> 0 < width <= 32
}

/// A conversion of a word that is not a slice gives what it is to give.
pub proof fn law_converted(
    b: BuilderView,
    elem: ElementaryType,
    source: ConversionSource,
    value: ValueId,
    f: FunctionView,
    came: BlockId,
    frame: Frame,
) -> (to: Frame)
    requires
        is_open(b.func, b.block),
        grows(converted(b, elem, source, value).0.func, f),
        known_by(f, value, b.func.insts.len()),
        word_in(f, frame, value) < word_modulus(),
        widths_fit(elem, source),
        source.slice is None,
    ensures
        runs(f, b, converted(b, elem, source, value).0, came, frame, to),
        word_in(f, to, converted(b, elem, source, value).1) == conversion_result(
            elem,
            source,
            word_in(f, frame, value),
        ),
{
    broadcast use {group_growth, group_builder_steps, group_spots};

    let w = word_in(f, frame, value);
    let (b1, plain) = as_number(b, elem, source, value);
    let shifts = source.fixed_bytes matches Some(width) && is_number(elem) && width < 32;
    assert(grows(b1.func, f) && is_open(b1.func, b1.block) && known_by(
        f,
        plain,
        b1.func.insts.len(),
    ) && b.func.insts.len() <= b1.func.insts.len()) by {
        reveal(shifted_right);
        lemma_conversion_grows(b1, plain, f);
    }
    lemma2_to64();
    let to1 = if shifts {
        law_shifted(b, value, ((32 - source.fixed_bytes->0) * 8) as u64, f, came, frame)
    } else {
        lemma_runs_nothing(f, b, came, frame);
        frame
    };
    let n = word_in(f, to1, plain);
    assert(n < word_modulus() && (is_number(elem) ==> n == number_in(source, w))) by {
        if shifts {
            let q = pow2((256 - 8 * source.fixed_bytes->0) as nat);
            lemma_pow2_pos((256 - 8 * source.fixed_bytes->0) as nat);
            assert(w / q <= w) by (nonlinear_arith)
                requires
                    q > 0,
                    w >= 0,
            ;
        } else {
            assert(w / 1 == w);
        }
    }
    let to = match elem {
        ElementaryType::Bool => law_truth(b1, plain, f, came, to1),
        ElementaryType::Address(_) => law_masked(b1, plain, 160, f, came, to1),
        ElementaryType::UInt(bits) => law_masked(b1, plain, bits as u32, f, came, to1),
        ElementaryType::Int(bits) => law_sign_extended(b1, plain, bits as u32, f, came, to1),
        ElementaryType::FixedBytes(bytes) => if source.fixed_bytes is Some {
            law_bytes_cleaned(b1, plain, bytes, f, came, to1)
        } else {
            law_left_aligned(b1, plain, bytes, f, came, to1)
        },
        _ => {
            lemma_runs_nothing(f, b1, came, to1);
            to1
        },
    };
    lemma_leads_on(
        f,
        ends_at(b, came, frame),
        ends_at(b1, came, to1),
        Outcome::At(ends_at(converted(b, elem, source, value).0, came, to)),
    );
    reveal(undisturbed);
    to
}

/// What grows out of a converted word grows out of what was there before.
proof fn lemma_conversion_grows(b: BuilderView, value: ValueId, f: FunctionView)
    requires
        is_open(b.func, b.block),
    ensures
        grows(truth(b, value).0.func, f) ==> grows(b.func, f),
        forall|bits: u32| #[trigger] grows(masked(b, value, bits).0.func, f) ==> grows(b.func, f),
        forall|bits: u32| #[trigger]
            grows(sign_extended(b, value, bits).0.func, f) ==> grows(b.func, f),
        forall|bytes: u8| #[trigger]
            grows(bytes_cleaned(b, value, bytes).0.func, f) ==> grows(b.func, f),
        forall|bytes: u8| #[trigger]
            grows(left_aligned(b, value, bytes).0.func, f) ==> grows(b.func, f),
{
    broadcast use {group_growth, group_builder_steps};

    reveal(truth);
    reveal(masked);
    reveal(sign_extended);
    reveal(sign_shifted);
    reveal(bytes_cleaned);
    reveal(left_aligned);
    reveal(shifted_left);
    reveal(mask_applied);
}

/// Bytes from a slice become a fixed-size bytes value: those that it leads with.
pub proof fn law_slice_converted(
    b: BuilderView,
    bytes: u8,
    location: SliceLocation,
    source: ConversionSource,
    value: ValueId,
    f: FunctionView,
    came: BlockId,
    frame: Frame,
) -> (to: Frame)
    requires
        is_open(b.func, b.block),
        source.slice == Some(location),
        grows(converted(b, ElementaryType::FixedBytes(bytes), source, value).0.func, f),
        known_by(f, value, b.func.insts.len()),
        held(f, frame, value) is Slice,
        holds_bytes(frame),
        0 < bytes <= 32,
    ensures
        runs(
            f,
            b,
            converted(b, ElementaryType::FixedBytes(bytes), source, value).0,
            came,
            frame,
            to,
        ),
        ({
            let first = word_at(
                if location is Calldata {
                    call_bytes(frame)
                } else {
                    frame.memory
                },
                held(f, frame, value)->Slice_0,
            );
            word_in(f, to, converted(b, ElementaryType::FixedBytes(bytes), source, value).1)
                == first - first % pow2((256 - 8 * bytes) as nat)
        }),
{
    broadcast use {group_growth, group_builder_steps, group_spots};

    let (b1, first) = leading_word(b, value, location);
    assert(grows(b1.func, f) && is_open(b1.func, b1.block) && b.func.insts.len()
        <= b1.func.insts.len()) by {
        reveal(leading_word);
        lemma_conversion_grows(b1, first, f);
    }
    lemma_bytes_bound(
        if location is Calldata {
            call_bytes(frame)
        } else {
            frame.memory
        },
        held(f, frame, value)->Slice_0 as int,
        32,
    );
    let to1 = law_leading_word(b, value, location, f, came, frame);
    let to = law_bytes_cleaned(b1, first, bytes, f, came, to1);
    lemma_leads_on(
        f,
        ends_at(b, came, frame),
        ends_at(b1, came, to1),
        Outcome::At(ends_at(bytes_cleaned(b1, first, bytes).0, came, to)),
    );
    reveal(undisturbed);
    to
}

/// A decoded word undoes the call with no data unless it is the encoding of a
/// value of its type, and is that word where it passes.
pub proof fn law_word_decoded(
    b: BuilderView,
    elem: ElementaryType,
    value: ValueId,
    f: FunctionView,
    came: BlockId,
    frame: Frame,
) -> (to: Frame)
    requires
        is_open(b.func, b.block),
        grows(word_decoded(b, elem, value).0.func, f),
        known_by(f, value, b.func.insts.len()),
        word_in(f, frame, value) < word_modulus(),
        widths_fit(elem, ConversionSource { fixed_bytes: None, slice: None }),
    ensures
        undisturbed(b.func.insts.len(), frame, to),
        ({
            let clean = match elem {
                ElementaryType::Bool => word_in(f, frame, value) < 2,
                ElementaryType::Address(_) => word_in(f, frame, value) < pow2(160),
                ElementaryType::UInt(bits) => word_in(f, frame, value) < pow2(bits as nat),
                ElementaryType::Int(bits) => word_in(f, frame, value) == wrapped(
                    signed_part(word_in(f, frame, value), bits as nat),
                ),
                ElementaryType::FixedBytes(bytes) => word_in(f, frame, value) % pow2(
                    (256 - 8 * bytes) as nat,
                ) == 0,
                _ => true,
            };
            let last = if word_decoded(b, elem, value).1 == value {
                came
            } else {
                b.block
            };
            &&& leads(
                f,
                ends_at(b, came, frame),
                passed_or_undone(clean, word_decoded(b, elem, value).0, last, to),
            )
            &&& clean ==> word_in(f, to, word_decoded(b, elem, value).1) == word_in(
                f,
                frame,
                value,
            )
        }),
{
    broadcast use {group_growth, group_builder_steps, group_spots, lemma_held_kept};

    reveal(word_decoded);
    let w = word_in(f, frame, value);
    let (b1, clean) = cleaned(b, elem, value);
    assert(is_open(b1.func, b1.block) && b1.block == b.block && b.func.insts.len()
        <= b1.func.insts.len()) by {
        reveal(truth);
        reveal(masked);
        reveal(sign_extended);
        reveal(sign_shifted);
        reveal(bytes_cleaned);
        reveal(mask_applied);
    }
    let ty = Some(MirType::Bool);
    let is_clean = next_value(b1.func);
    let b2 = emitted(b1, inst(Op::Eq, seq![value, clean]), ty);
    let is_dirty = next_value(b2.func);
    let b3 = emitted(b2, inst(Op::IsZero, seq![is_clean]), ty);
    if clean != value {
        assert(grows(b3.func, f)) by {
            reveal(decode_revert_if);
        }
    }
    assert(grows(b1.func, f) && known_by(f, clean, b1.func.insts.len())) by {
        lemma_conversion_grows(b, value, f);
        reveal(truth);
        reveal(masked);
        reveal(sign_extended);
        reveal(sign_shifted);
        reveal(bytes_cleaned);
        reveal(mask_applied);
    }
    let to1 = match elem {
        ElementaryType::Bool => law_truth(b, value, f, came, frame),
        ElementaryType::Address(_) => law_masked(b, value, 160, f, came, frame),
        ElementaryType::UInt(bits) => law_masked(b, value, bits as u32, f, came, frame),
        ElementaryType::Int(bits) => law_sign_extended(b, value, bits as u32, f, came, frame),
        ElementaryType::FixedBytes(bytes) => law_bytes_cleaned(b, value, bytes, f, came, frame),
        _ => {
            lemma_runs_nothing(f, b, came, frame);
            frame
        },
    };
    let c = word_in(f, to1, clean);
    let holds = match elem {
        ElementaryType::Bool => w < 2,
        ElementaryType::Address(_) => w < pow2(160),
        ElementaryType::UInt(bits) => w < pow2(bits as nat),
        ElementaryType::Int(bits) => w == wrapped(signed_part(w, bits as nat)),
        ElementaryType::FixedBytes(bytes) => w % pow2((256 - 8 * bytes) as nat) == 0,
        _ => true,
    };
    assert(holds <==> c == w) by {
        match elem {
            ElementaryType::Address(_) => {
                lemma_pow2_pos(160);
                lemma_mod_bound(w as int, pow2(160) as int);
                if holds {
                    lemma_small_mod(w, pow2(160));
                }
            },
            ElementaryType::UInt(bits) => {
                lemma_pow2_pos(bits as nat);
                lemma_mod_bound(w as int, pow2(bits as nat) as int);
                if holds {
                    lemma_small_mod(w, pow2(bits as nat));
                }
            },
            _ => {},
        }
    }
    if clean == value {
        to1
    } else {
        let to2 = lemma_runs_computed(
            f,
            b,
            b1,
            Op::Eq,
            seq![value, clean],
            ty,
            came,
            frame,
            to1,
        );
        assert(words_in(f, to1, seq![value, clean])[0] == w);
        assert(words_in(f, to1, seq![value, clean])[1] == c);
        let to3 = lemma_runs_computed(
            f,
            b,
            b2,
            Op::IsZero,
            seq![is_clean],
            ty,
            came,
            frame,
            to2,
        );
        assert(words_in(f, to2, seq![is_clean])[0] == truth_word(w == c));
        law_decode_revert_if(b3, is_dirty, f, came, to3);
        lemma_leads_on(
            f,
            ends_at(b, came, frame),
            ends_at(b3, came, to3),
            passed_or_undone(holds, word_decoded(b, elem, value).0, b.block, to3),
        );
        to3
    }
}

} // verus!
