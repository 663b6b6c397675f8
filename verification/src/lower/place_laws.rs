//! Where values are kept, and that what is kept is found again.

use crate::lower::arrays::{
    array_length, element_slot, hashed_element, index_multiplied, index_scaled, inline_element,
    mapping_element, pop_begun, push_begun, KeyHash,
};
use crate::lower::control::{
    function_packed, parts_taken, scaled_by_word, slice_cut, slice_end_checked, slice_order_checked,
    SliceSource,
};
use crate::lower::emit::revert_if;
use crate::lower::laws::{bit, lemma_bits_below, lemma_no_low_bits};
use crate::lower::names::{message_data, message_selector};
use crate::lower::objects::{loaded_at, stored_at};
use crate::lower::state::{
    frame_offset, immutable_loaded, immutable_stored, scratch_of, slice_loaded, slice_stored,
    variable_addr, variable_loaded, variable_stored,
};
use crate::lower::word_laws::{law_revert_if, passed_or_undone};
use crate::mir::bits::{lemma_divided_bits, lemma_other_word, lemma_stored_word, lemma_word_bits};
use crate::mir::builder::{constant, emitted, group_builder_steps, word, BuilderView};
use crate::mir::function::{next_value, FunctionView};
use crate::mir::inst::{inst, Op};
use crate::mir::meaning::{
    call_bytes, computed, has_bit, held, leads, of_bits, range, with_word, word_at, word_bytes,
    word_in, words_in, Datum, Frame, Outcome,
};
use crate::mir::runs::{
    ends_at, group_growth, group_spots, grows, is_open, known_by, lemma_held_kept,
    lemma_held_stored, lemma_leads_here, lemma_leads_on, lemma_leads_stored, lemma_runs_computed,
    lemma_runs_nothing, lemma_runs_result, runs, storing, undisturbed,
};
use crate::mir::types::{BlockId, MirType, SliceLocation, ValueId};
use crate::word::word_modulus;
use vstd::arithmetic::div_mod::{
    lemma_fundamental_div_mod, lemma_fundamental_div_mod_converse, lemma_mod_bound, lemma_small_mod,
};
use vstd::arithmetic::mul::lemma_mul_is_commutative;
use vstd::arithmetic::power2::{
    lemma2_to64, lemma_pow2_adds, lemma_pow2_pos, lemma_pow2_strictly_increases, pow2,
};
use vstd::prelude::*;

verus! {

/// Where a variable in memory is: at a place in the frame of an internal function, or
/// at a fixed address.
pub open spec fn variable_place(func: FunctionView, frame: Frame, internal: bool, offset: u64) ->
    nat {
    if internal {
        (frame.surroundings)(Op::InternalFrameAddr { offset: frame_offset(func, offset) as u64 })
    } else {
        offset as nat
    }
}

/// The address of a variable is where it is.
proof fn lemma_variable_addr(
    b: BuilderView,
    internal: bool,
    offset: u64,
    f: FunctionView,
    came: BlockId,
    frame: Frame,
) -> (to: Frame)
    requires
        is_open(b.func, b.block),
        grows(variable_addr(b, internal, offset).0.func, f),
    ensures
        runs(f, b, variable_addr(b, internal, offset).0, came, frame, to),
        grows(b.func, f),
        is_open(
            variable_addr(b, internal, offset).0.func,
            variable_addr(b, internal, offset).0.block,
        ),
        variable_addr(b, internal, offset).0.func.insts.len() >= b.func.insts.len(),
        word_in(f, to, variable_addr(b, internal, offset).1) == variable_place(
            b.func,
            frame,
            internal,
            offset,
        ),
{
    broadcast use {group_growth, group_builder_steps, group_spots};

    reveal(variable_addr);
    lemma_runs_nothing(f, b, came, frame);
    if internal {
        let op = Op::InternalFrameAddr { offset: frame_offset(b.func, offset) as u64 };
        lemma_runs_result(
            f,
            b,
            b,
            inst(op, seq![]),
            Some(MirType::MemPtr),
            came,
            frame,
            frame,
            Datum::Word((frame.surroundings)(op)),
        )
    } else {
        frame
    }
}

/// A variable is stored where it is.
pub proof fn law_variable_stored(
    b: BuilderView,
    internal: bool,
    offset: u64,
    value: ValueId,
    f: FunctionView,
    came: BlockId,
    frame: Frame,
) -> (to: Frame)
    requires
        is_open(b.func, b.block),
        grows(variable_stored(b, internal, offset, value).func, f),
        known_by(f, value, b.func.insts.len()),
    ensures
        leads(
            f,
            ends_at(b, came, frame),
            Outcome::At(ends_at(variable_stored(b, internal, offset, value), came, to)),
        ),
        undisturbed(
            b.func.insts.len(),
            storing(
                frame,
                variable_place(b.func, frame, internal, offset),
                word_in(f, frame, value),
            ),
            to,
        ),
{
    broadcast use {group_growth, group_builder_steps, group_spots, lemma_held_kept};

    reveal(variable_stored);
    let (b1, addr) = variable_addr(b, internal, offset);
    assert(grows(b1.func, f)) by {
        reveal(variable_addr);
    }
    let mid = lemma_variable_addr(b, internal, offset, f, came, frame);
    lemma_leads_stored(f, b1, addr, value, came, mid);
    let to = storing(
        mid,
        variable_place(b.func, frame, internal, offset),
        word_in(f, frame, value),
    );
    lemma_leads_on(
        f,
        ends_at(b, came, frame),
        ends_at(b1, came, mid),
        Outcome::At(ends_at(variable_stored(b, internal, offset, value), came, to)),
    );
    reveal(undisturbed);
    to
}

/// A variable that is loaded is the word where it is.
pub proof fn law_variable_loaded(
    b: BuilderView,
    internal: bool,
    offset: u64,
    f: FunctionView,
    came: BlockId,
    frame: Frame,
) -> (to: Frame)
    requires
        is_open(b.func, b.block),
        grows(variable_loaded(b, internal, offset).0.func, f),
    ensures
        runs(f, b, variable_loaded(b, internal, offset).0, came, frame, to),
        grows(b.func, f),
        is_open(
            variable_loaded(b, internal, offset).0.func,
            variable_loaded(b, internal, offset).0.block,
        ),
        variable_loaded(b, internal, offset).0.func.insts.len() >= b.func.insts.len(),
        known_by(
            f,
            variable_loaded(b, internal, offset).1,
            variable_loaded(b, internal, offset).0.func.insts.len(),
        ),
        held(f, to, variable_loaded(b, internal, offset).1) == Datum::Word(
            word_at(frame.memory, variable_place(b.func, frame, internal, offset)),
        ),
{
    broadcast use {group_growth, group_builder_steps, group_spots};

    reveal(variable_loaded);
    let (b1, addr) = variable_addr(b, internal, offset);
    assert(grows(b1.func, f) && is_open(b1.func, b1.block)) by {
        reveal(variable_addr);
    }
    let mid = lemma_variable_addr(b, internal, offset, f, came, frame);
    let place = variable_place(b.func, frame, internal, offset);
    assert(words_in(f, mid, seq![addr])[0] == place);
    assert(mid.memory == frame.memory) by {
        reveal(undisturbed);
    }
    lemma_runs_result(
        f,
        b,
        b1,
        inst(Op::MLoad, seq![addr]),
        Some(MirType::uint256()),
        came,
        frame,
        mid,
        Datum::Word(word_at(frame.memory, place)),
    )
}

/// A variable that was stored is loaded again, and variables at other places are kept.
pub proof fn law_variables_are_kept(
    memory: spec_fn(int) -> nat,
    place: nat,
    other: nat,
    number: nat,
)
    requires
        number < word_modulus(),
    ensures
        word_at(with_word(memory, place, number), place) == number,
        other + 32 <= place || place + 32 <= other ==> word_at(
            with_word(memory, place, number),
            other,
        ) == word_at(memory, other),
{
    lemma_stored_word(memory, place, number);
    if other + 32 <= place || place + 32 <= other {
        lemma_other_word(memory, place, number, other);
    }
}

/// A slice variable that is loaded has its pointer at its place and its length in the
/// word behind it.
pub proof fn law_slice_loaded(
    b: BuilderView,
    offset: u64,
    location: SliceLocation,
    f: FunctionView,
    came: BlockId,
    frame: Frame,
) -> (to: Frame)
    requires
        is_open(b.func, b.block),
        grows(slice_loaded(b, false, offset, location).0.func, f),
        offset + 32 <= u64::MAX,
    ensures
        runs(f, b, slice_loaded(b, false, offset, location).0, came, frame, to),
        held(f, to, slice_loaded(b, false, offset, location).1) == Datum::Slice(
            word_at(frame.memory, offset as nat),
            word_at(frame.memory, offset as nat + 32),
        ),
{
    broadcast use {group_growth, group_builder_steps, group_spots, lemma_held_kept};

    reveal(slice_loaded);
    let (b1, ptr) = variable_loaded(b, false, offset);
    let (b2, len) = variable_loaded(b1, false, (offset + 32) as u64);
    assert(grows(b2.func, f) && grows(b1.func, f) && is_open(b1.func, b1.block) && is_open(
        b2.func,
        b2.block,
    )) by {
        reveal(variable_loaded);
        reveal(variable_addr);
    }
    let to1 = law_variable_loaded(b, false, offset, f, came, frame);
    let to2 = law_variable_loaded(b1, false, (offset + 32) as u64, f, came, to1);
    assert(runs(f, b, b2, came, frame, to2)) by {
        lemma_leads_on(
            f,
            ends_at(b, came, frame),
            ends_at(b1, came, to1),
            Outcome::At(ends_at(b2, came, to2)),
        );
        reveal(undisturbed);
    }
    assert(to1.memory == frame.memory) by {
        reveal(undisturbed);
    }
    let p = word_at(frame.memory, offset as nat);
    let n = word_at(frame.memory, offset as nat + 32);
    assert(words_in(f, to2, seq![ptr, len])[0] == p);
    assert(words_in(f, to2, seq![ptr, len])[1] == n);
    lemma_runs_result(
        f,
        b,
        b2,
        inst(Op::MakeSlice { location }, seq![ptr, len]),
        Some(MirType::Slice(location)),
        came,
        frame,
        to2,
        Datum::Slice(p, n),
    )
}

/// An immutable is kept in memory while the contract is constructed, each at its own
/// place, and read from the code later.
pub proof fn law_immutables(
    b: BuilderView,
    offset: u32,
    value: ValueId,
    in_constructor: bool,
    f: FunctionView,
    came: BlockId,
    frame: Frame,
) -> (to: Frame)
    requires
        is_open(b.func, b.block),
    ensures
        grows(immutable_stored(b, offset, value).func, f) ==> leads(
            f,
            ends_at(b, came, frame),
            Outcome::At(
                ends_at(
                    immutable_stored(b, offset, value),
                    came,
                    storing(frame, scratch_of(offset) as nat, word_in(f, frame, value)),
                ),
            ),
        ),
        grows(immutable_loaded(b, in_constructor, offset).0.func, f) ==> {
            &&& runs(f, b, immutable_loaded(b, in_constructor, offset).0, came, frame, to)
            &&& held(f, to, immutable_loaded(b, in_constructor, offset).1) == Datum::Word(
                if in_constructor {
                    word_at(frame.memory, scratch_of(offset) as nat)
                } else {
                    (frame.surroundings)(Op::LoadImmutable { offset })
                },
            )
        },
{
    broadcast use {group_growth, group_builder_steps, group_spots};

    reveal(immutable_stored);
    reveal(immutable_loaded);
    let addr = next_value(b.func);
    let b1 = constant(b, word(scratch_of(offset)));
    lemma_runs_nothing(f, b, came, frame);
    if grows(immutable_stored(b, offset, value).func, f) {
        lemma_leads_stored(f, b1, addr, value, came, frame);
        assert(word_in(f, frame, addr) == scratch_of(offset));
    }
    if grows(immutable_loaded(b, in_constructor, offset).0.func, f) {
        if in_constructor {
            assert(words_in(f, frame, seq![addr])[0] == scratch_of(offset));
            lemma_runs_result(
                f,
                b,
                b1,
                inst(Op::MLoad, seq![addr]),
                Some(MirType::uint256()),
                came,
                frame,
                frame,
                Datum::Word(word_at(frame.memory, scratch_of(offset) as nat)),
            )
        } else {
            let op = Op::LoadImmutable { offset };
            lemma_runs_result(
                f,
                b,
                b,
                inst(op, seq![]),
                Some(MirType::uint256()),
                came,
                frame,
                frame,
                Datum::Word((frame.surroundings)(op)),
            )
        }
    } else {
        frame
    }
}

/// An index is scaled by the number of slots of an element.
proof fn lemma_index_scaled(
    start: BuilderView,
    b: BuilderView,
    index: ValueId,
    slots: u64,
    f: FunctionView,
    came: BlockId,
    first: Frame,
    frame: Frame,
) -> (to: Frame)
    requires
        is_open(b.func, b.block),
        grows(index_scaled(b, index, slots).0.func, f),
        start.func.insts.len() <= b.func.insts.len(),
        runs(f, start, b, came, first, frame),
        known_by(f, index, b.func.insts.len()),
        word_in(f, frame, index) < word_modulus(),
        slots > 0,
    ensures
        runs(f, start, index_scaled(b, index, slots).0, came, first, to),
        undisturbed(b.func.insts.len(), frame, to),
        known_by(
            f,
            index_scaled(b, index, slots).1,
            index_scaled(b, index, slots).0.func.insts.len(),
        ),
        word_in(f, to, index_scaled(b, index, slots).1) == (word_in(f, frame, index)
            * slots as nat) % word_modulus(),
{
    broadcast use {group_growth, group_builder_steps, group_spots};

    if slots <= 1 {
        lemma_small_mod(word_in(f, frame, index), word_modulus());
        assert(word_in(f, frame, index) * slots == word_in(f, frame, index)) by (nonlinear_arith)
            requires
                slots == 1,
        ;
        reveal(undisturbed);
        frame
    } else {
        reveal(index_multiplied);
        let b1 = constant(b, word(slots));
        let args = seq![index, next_value(b.func)];
        assert(words_in(f, frame, args)[0] == word_in(f, frame, index));
        assert(words_in(f, frame, args)[1] == slots);
        lemma_runs_computed(
            f,
            start,
            b1,
            Op::Mul,
            args,
            Some(MirType::uint256()),
            came,
            first,
            frame,
        )
    }
}

/// The element of an array of fixed length is so many slots behind the slot of the
/// array.
pub proof fn law_fixed_array_element(
    b: BuilderView,
    slot: ValueId,
    len: u64,
    index: ValueId,
    slots: u64,
    f: FunctionView,
    came: BlockId,
    frame: Frame,
) -> (to: Frame)
    requires
        is_open(b.func, b.block),
        grows(element_slot(b, slot, Some(len), index, slots).0.func, f),
        known_by(f, slot, b.func.insts.len()),
        known_by(f, index, b.func.insts.len()),
        word_in(f, frame, slot) + word_in(f, frame, index) * slots < word_modulus(),
        slots > 0,
    ensures
        runs(f, b, element_slot(b, slot, Some(len), index, slots).0, came, frame, to),
        word_in(f, to, element_slot(b, slot, Some(len), index, slots).1) == word_in(f, frame, slot)
            + word_in(f, frame, index) * slots,
{
    broadcast use {group_growth, group_builder_steps, group_spots, lemma_held_kept};

    reveal(inline_element);
    let (b1, offset) = index_scaled(b, index, slots);
    assert(is_open(b1.func, b1.block) && grows(b1.func, f) && b1.func.insts.len()
        >= b.func.insts.len()) by {
        reveal(index_multiplied);
    }
    let (s, i) = (word_in(f, frame, slot), word_in(f, frame, index));
    assert(i <= i * slots) by (nonlinear_arith)
        requires
            slots > 0,
            i >= 0,
    ;
    lemma_runs_nothing(f, b, came, frame);
    let to1 = lemma_index_scaled(b, b, index, slots, f, came, frame, frame);
    lemma_small_mod(i * slots as nat, word_modulus());
    lemma_small_mod(s + i * slots as nat, word_modulus());
    let to = lemma_runs_computed(
        f,
        b,
        b1,
        Op::Add,
        seq![slot, offset],
        Some(MirType::uint256()),
        came,
        frame,
        to1,
    );
    assert(words_in(f, to1, seq![slot, offset])[0] == s);
    assert(words_in(f, to1, seq![slot, offset])[1] == i * slots);
    to
}

/// Pushing to an array in storage reads its length, adds one to it and tells whether
/// that was too many.
pub proof fn law_push_begun(
    b: BuilderView,
    slot: ValueId,
    f: FunctionView,
    came: BlockId,
    frame: Frame,
) -> (to: Frame)
    requires
        is_open(b.func, b.block),
        grows(push_begun(b, slot).0.func, f),
        known_by(f, slot, b.func.insts.len()),
        (frame.storage)(word_in(f, frame, slot)) < word_modulus(),
    ensures
        runs(f, b, push_begun(b, slot).0, came, frame, to),
        ({
            let length = (frame.storage)(word_in(f, frame, slot));
            let (old_len, new_len, overflow) = push_begun(b, slot).1;
            &&& word_in(f, to, old_len) == length
            &&& word_in(f, to, new_len) == (length + 1) % word_modulus()
            &&& word_in(f, to, overflow) != 0 <==> length + 1 == word_modulus()
        }),
{
    broadcast use {group_growth, group_builder_steps, group_spots, lemma_held_kept};

    reveal(push_begun);
    let ty = Some(MirType::uint256());
    let n = (frame.storage)(word_in(f, frame, slot));
    let length = next_value(b.func);
    let b1 = emitted(b, inst(Op::SLoad, seq![slot]), ty);
    let one = next_value(b1.func);
    let b2 = constant(b1, word(1));
    let new_length = next_value(b2.func);
    let b3 = emitted(b2, inst(Op::Add, seq![length, one]), ty);
    lemma_runs_nothing(f, b, came, frame);
    assert(words_in(f, frame, seq![slot])[0] == word_in(f, frame, slot));
    let to1 = lemma_runs_result(
        f,
        b,
        b,
        inst(Op::SLoad, seq![slot]),
        ty,
        came,
        frame,
        frame,
        Datum::Word(n),
    );
    let to2 = lemma_runs_computed(f, b, b2, Op::Add, seq![length, one], ty, came, frame, to1);
    assert(words_in(f, to1, seq![length, one])[0] == n);
    assert(words_in(f, to1, seq![length, one])[1] == 1);
    let to3 = lemma_runs_computed(
        f,
        b,
        b3,
        Op::Lt,
        seq![new_length, length],
        Some(MirType::Bool),
        came,
        frame,
        to2,
    );
    assert(words_in(f, to2, seq![new_length, length])[0] == (n + 1) % word_modulus());
    assert(words_in(f, to2, seq![new_length, length])[1] == n);
    if n + 1 < word_modulus() {
        lemma_small_mod(n + 1, word_modulus());
    } else {
        lemma_fundamental_div_mod_converse(n as int + 1, word_modulus() as int, 1, 0);
    }
    lemma2_to64();
    lemma_pow2_strictly_increases(0, 256);
    to3
}

/// Popping from an array takes one from its length.
pub proof fn law_pop_begun(
    b: BuilderView,
    length: ValueId,
    f: FunctionView,
    came: BlockId,
    frame: Frame,
) -> (to: Frame)
    requires
        is_open(b.func, b.block),
        grows(pop_begun(b, length).0.func, f),
        known_by(f, length, b.func.insts.len()),
        0 < word_in(f, frame, length) < word_modulus(),
    ensures
        runs(f, b, pop_begun(b, length).0, came, frame, to),
        word_in(f, to, pop_begun(b, length).1) == word_in(f, frame, length) - 1,
{
    broadcast use {group_growth, group_builder_steps, group_spots, lemma_held_kept};

    reveal(pop_begun);
    let b1 = constant(b, word(1));
    let args = seq![length, next_value(b.func)];
    let n = word_in(f, frame, length);
    lemma_runs_nothing(f, b, came, frame);
    lemma_small_mod((n - 1) as nat, word_modulus());
    assert(words_in(f, frame, args)[0] == n);
    assert(words_in(f, frame, args)[1] == 1);
    lemma_runs_computed(f, b, b1, Op::Sub, args, Some(MirType::uint256()), came, frame, frame)
}

/// The length of an array is the fixed one, or the word in its slot.
pub proof fn law_array_length(
    b: BuilderView,
    slot: ValueId,
    fixed_len: Option<u64>,
    f: FunctionView,
    came: BlockId,
    frame: Frame,
) -> (to: Frame)
    requires
        is_open(b.func, b.block),
        grows(array_length(b, slot, fixed_len).0.func, f),
    ensures
        runs(f, b, array_length(b, slot, fixed_len).0, came, frame, to),
        word_in(f, to, array_length(b, slot, fixed_len).1) == match fixed_len {
            Some(len) => len as nat,
            None => (frame.storage)(word_in(f, frame, slot)),
        },
{
    broadcast use {group_growth, group_builder_steps, group_spots};

    lemma_runs_nothing(f, b, came, frame);
    match fixed_len {
        Some(_) => frame,
        None => {
            assert(words_in(f, frame, seq![slot])[0] == word_in(f, frame, slot));
            lemma_runs_result(
                f,
                b,
                b,
                inst(Op::SLoad, seq![slot]),
                Some(MirType::uint256()),
                came,
                frame,
                frame,
                Datum::Word((frame.storage)(word_in(f, frame, slot))),
            )
        },
    }
}

/// The slot of a mapping entry with a word key is the hash of the key followed by the
/// slot of the mapping.
pub proof fn law_mapping_element(
    b: BuilderView,
    has_mcopy: bool,
    literal: Seq<u8>,
    key: ValueId,
    slot: ValueId,
    f: FunctionView,
    came: BlockId,
    frame: Frame,
) -> (to: Frame)
    requires
        is_open(b.func, b.block),
        grows(mapping_element(b, has_mcopy, KeyHash::Word, literal, key, slot).0.func, f),
    ensures
        runs(
            f,
            b,
            mapping_element(b, has_mcopy, KeyHash::Word, literal, key, slot).0,
            came,
            frame,
            to,
        ),
        word_in(f, to, mapping_element(b, has_mcopy, KeyHash::Word, literal, key, slot).1) == (
            frame.hash)(word_bytes(word_in(f, frame, key)) + word_bytes(word_in(f, frame, slot))),
{
    broadcast use {group_growth, group_builder_steps, group_spots};

    lemma_runs_nothing(f, b, came, frame);
    let a = words_in(f, frame, seq![key, slot]);
    assert(a[0] == word_in(f, frame, key) && a[1] == word_in(f, frame, slot));
    lemma_runs_result(
        f,
        b,
        b,
        inst(Op::MappingSlot, seq![key, slot]),
        Some(MirType::bytes32()),
        came,
        frame,
        frame,
        Datum::Word(
            (frame.hash)(word_bytes(word_in(f, frame, key)) + word_bytes(word_in(f, frame, slot))),
        ),
    )
}

/// `msg.data` is all of the call data.
pub proof fn law_message_data(b: BuilderView, f: FunctionView, came: BlockId, frame: Frame) -> (to:
    Frame)
    requires
        is_open(b.func, b.block),
        grows(message_data(b).0.func, f),
    ensures
        runs(f, b, message_data(b).0, came, frame, to),
        held(f, to, message_data(b).1) == Datum::Slice(0, frame.calldata.len()),
{
    broadcast use {group_growth, group_builder_steps, group_spots, lemma_held_kept};

    reveal(message_data);
    let zero = next_value(b.func);
    let b1 = constant(b, word(0));
    let size = next_value(b1.func);
    let b2 = emitted(b1, inst(Op::CalldataSize, seq![]), Some(MirType::uint256()));
    lemma_runs_nothing(f, b, came, frame);
    let to1 = lemma_runs_result(
        f,
        b,
        b1,
        inst(Op::CalldataSize, seq![]),
        Some(MirType::uint256()),
        came,
        frame,
        frame,
        Datum::Word(frame.calldata.len()),
    );
    assert(words_in(f, to1, seq![zero, size])[0] == 0);
    assert(words_in(f, to1, seq![zero, size])[1] == frame.calldata.len());
    lemma_runs_result(
        f,
        b,
        b2,
        inst(Op::MakeSlice { location: SliceLocation::Calldata }, seq![zero, size]),
        Some(MirType::Slice(SliceLocation::Calldata)),
        came,
        frame,
        to1,
        Datum::Slice(0, frame.calldata.len()),
    )
}

/// A value that is put at an offset from a base is stored so far behind the base.
pub proof fn law_stored_at(
    b: BuilderView,
    base: ValueId,
    offset: u64,
    value: ValueId,
    f: FunctionView,
    came: BlockId,
    frame: Frame,
) -> (to: Frame)
    requires
        is_open(b.func, b.block),
        known_by(f, base, b.func.insts.len()),
        known_by(f, value, b.func.insts.len()),
        word_in(f, frame, base) + offset < word_modulus(),
    ensures
        grows(stored_at(b, base, offset, value).func, f) ==> {
            &&& leads(
                f,
                ends_at(b, came, frame),
                Outcome::At(ends_at(stored_at(b, base, offset, value), came, to)),
            )
            &&& undisturbed(
                b.func.insts.len(),
                storing(frame, word_in(f, frame, base) + offset as nat, word_in(f, frame, value)),
                to,
            )
        },
{
    broadcast use {group_growth, group_builder_steps, group_spots, lemma_held_kept};

    reveal(stored_at);
    if grows(stored_at(b, base, offset, value).func, f) {
        let offset_val = next_value(b.func);
        let b1 = constant(b, word(offset));
        let addr = next_value(b1.func);
        let args = seq![base, offset_val];
        let b2 = emitted(b1, inst(Op::Add, args), Some(MirType::uint256()));
        lemma_runs_nothing(f, b, came, frame);
        assert(words_in(f, frame, args)[0] == word_in(f, frame, base));
        assert(words_in(f, frame, args)[1] == offset);
        lemma_small_mod(word_in(f, frame, base) + offset as nat, word_modulus());
        let mid = lemma_runs_computed(
            f,
            b,
            b1,
            Op::Add,
            args,
            Some(MirType::uint256()),
            came,
            frame,
            frame,
        );
        lemma_leads_stored(f, b2, addr, value, came, mid);
        let to = storing(mid, word_in(f, frame, base) + offset as nat, word_in(f, frame, value));
        lemma_leads_on(
            f,
            ends_at(b, came, frame),
            ends_at(b2, came, mid),
            Outcome::At(ends_at(stored_at(b, base, offset, value), came, to)),
        );
        reveal(undisturbed);
        to
    } else {
        frame
    }
}

/// A slice is cut where it does not end behind what it is cut from and does not start
/// behind its end; else the call is undone. It starts so many bytes or words behind
/// the start, and is as long as its end is behind its start.
pub proof fn law_slice_cut(
    b: BuilderView,
    source: SliceSource,
    start: ValueId,
    end: ValueId,
    is_bytes: bool,
    f: FunctionView,
    came: BlockId,
    frame: Frame,
) -> (r: (BlockId, Frame))
    requires
        is_open(b.func, b.block),
        grows(slice_cut(b, source, start, end, is_bytes).0.func, f),
        known_by(f, source.ptr, b.func.insts.len()),
        known_by(f, source.len, b.func.insts.len()),
        known_by(f, start, b.func.insts.len()),
        known_by(f, end, b.func.insts.len()),
        word_in(f, frame, source.ptr) + 32 * word_in(f, frame, source.len) < word_modulus(),
    ensures
        ({
            let (ptr, len) = (word_in(f, frame, source.ptr), word_in(f, frame, source.len));
            let (from, to) = (word_in(f, frame, start), word_in(f, frame, end));
            &&& leads(
                f,
                ends_at(b, came, frame),
                passed_or_undone(
                    from <= to <= len,
                    slice_cut(b, source, start, end, is_bytes).0,
                    r.0,
                    r.1,
                ),
            )
            &&& from <= to <= len ==> held(
                f,
                r.1,
                slice_cut(b, source, start, end, is_bytes).1,
            ) == Datum::Slice(
                ptr + if is_bytes {
                    from
                } else {
                    32 * from
                },
                (to - from) as nat,
            )
        }),
{
    broadcast use {group_growth, group_builder_steps, group_spots, lemma_held_kept};

    reveal(slice_cut);
    reveal(slice_end_checked);
    reveal(slice_order_checked);
    reveal(scaled_by_word);
    let result = slice_cut(b, source, start, end, is_bytes).0;
    let word_ty = Some(MirType::uint256());
    let (ptr, len) = (word_in(f, frame, source.ptr), word_in(f, frame, source.len));
    let (from, to) = (word_in(f, frame, start), word_in(f, frame, end));
    let checked = end != source.len;
    // The end.
    let out = next_value(b.func);
    let e1 = emitted(b, inst(Op::Gt, seq![end, source.len]), Some(MirType::Bool));
    let b1 = if checked {
        revert_if(e1, out)
    } else {
        b
    };
    // The order.
    let back = next_value(b1.func);
    let b2 = emitted(b1, inst(Op::Lt, seq![end, start]), Some(MirType::Bool));
    let b3 = revert_if(b2, back);
    let cut_len = next_value(b3.func);
    let b4 = emitted(b3, inst(Op::Sub, seq![end, start]), word_ty);
    let word_size = next_value(b4.func);
    let m1 = constant(b4, word(32));
    let (b5, offset) = if is_bytes {
        (b4, start)
    } else {
        (emitted(m1, inst(Op::Mul, seq![start, word_size]), word_ty), next_value(m1.func))
    };
    let start_ptr = next_value(b5.func);
    let b6 = emitted(b5, inst(Op::Add, seq![source.ptr, offset]), word_ty);
    assert(is_open(e1.func, e1.block) && is_open(b1.func, b1.block) && is_open(b3.func, b3.block)
        && b1.func.insts.len() >= b.func.insts.len()
            && b3.func.insts.len() == b2.func.insts.len()) by {
        reveal(revert_if);
    }
    assert(grows(b3.func, f));
    assert(grows(b2.func, f) && grows(b1.func, f) && (checked ==> grows(e1.func, f))) by {
        reveal(revert_if);
    }
    lemma_runs_nothing(f, b, came, frame);
    let (came1, f1) = if checked {
        let g = lemma_runs_computed(
            f,
            b,
            b,
            Op::Gt,
            seq![end, source.len],
            Some(MirType::Bool),
            came,
            frame,
            frame,
        );
        assert(words_in(f, frame, seq![end, source.len])[0] == to);
        assert(words_in(f, frame, seq![end, source.len])[1] == len);
        law_revert_if(e1, out, f, came, g);
        lemma_leads_on(
            f,
            ends_at(b, came, frame),
            ends_at(e1, came, g),
            passed_or_undone(to <= len, b1, b.block, g),
        );
        (b.block, g)
    } else {
        lemma_leads_here(f, ends_at(b, came, frame));
        (came, frame)
    };
    assert(undisturbed(b.func.insts.len(), frame, f1));
    if !(to <= len) {
        return (came1, f1);
    }
    lemma_runs_nothing(f, b1, came1, f1);
    let f2 = lemma_runs_computed(
        f,
        b1,
        b1,
        Op::Lt,
        seq![end, start],
        Some(MirType::Bool),
        came1,
        f1,
        f1,
    );
    assert(words_in(f, f1, seq![end, start])[0] == to);
    assert(words_in(f, f1, seq![end, start])[1] == from);
    law_revert_if(b2, back, f, came1, f2);
    lemma_leads_on(
        f,
        ends_at(b1, came1, f1),
        ends_at(b2, came1, f2),
        passed_or_undone(from <= to, b3, b1.block, f2),
    );
    lemma_leads_on(
        f,
        ends_at(b, came, frame),
        ends_at(b1, came1, f1),
        passed_or_undone(from <= to, b3, b1.block, f2),
    );
    assert(undisturbed(b.func.insts.len(), frame, f2)) by {
        reveal(undisturbed);
    }
    if !(from <= to) {
        return (b1.block, f2);
    }
    let came2 = b1.block;
    lemma_runs_nothing(f, b3, came2, f2);
    let f3 = lemma_runs_computed(
        f,
        b3,
        b3,
        Op::Sub,
        seq![end, start],
        word_ty,
        came2,
        f2,
        f2,
    );
    assert(words_in(f, f2, seq![end, start])[0] == to);
    assert(words_in(f, f2, seq![end, start])[1] == from);
    lemma_small_mod((to - from) as nat, word_modulus());
    assert(undisturbed(b.func.insts.len(), frame, f3)) by {
        reveal(undisturbed);
    }
    let f4 = if is_bytes {
        f3
    } else {
        assert(words_in(f, f3, seq![start, word_size])[0] == from);
        assert(words_in(f, f3, seq![start, word_size])[1] == 32);
        lemma_small_mod(from * 32, word_modulus());
        lemma_runs_computed(
            f,
            b3,
            m1,
            Op::Mul,
            seq![start, word_size],
            word_ty,
            came2,
            f2,
            f3,
        )
    };
    assert(undisturbed(b.func.insts.len(), frame, f4) && undisturbed(
        b4.func.insts.len(),
        f3,
        f4,
    )) by {
        reveal(undisturbed);
    }
    let by = if is_bytes {
        from
    } else {
        32 * from
    };
    assert(words_in(f, f4, seq![source.ptr, offset])[0] == ptr);
    assert(words_in(f, f4, seq![source.ptr, offset])[1] == by);
    lemma_small_mod(ptr + by, word_modulus());
    let f5 = lemma_runs_computed(
        f,
        b3,
        b5,
        Op::Add,
        seq![source.ptr, offset],
        word_ty,
        came2,
        f2,
        f4,
    );
    assert(undisturbed(b4.func.insts.len(), f3, f5)) by {
        reveal(undisturbed);
    }
    assert(words_in(f, f5, seq![start_ptr, cut_len])[0] == ptr + by);
    assert(words_in(f, f5, seq![start_ptr, cut_len])[1] == to - from);
    let f6 = lemma_runs_result(
        f,
        b3,
        b6,
        inst(Op::MakeSlice { location: source.location }, seq![start_ptr, cut_len]),
        Some(MirType::Slice(source.location)),
        came2,
        f2,
        f5,
        Datum::Slice(ptr + by, (to - from) as nat),
    );
    lemma_leads_on(
        f,
        ends_at(b, came, frame),
        ends_at(b3, came2, f2),
        Outcome::At(ends_at(result, came2, f6)),
    );
    (came2, f6)
}

/// A word that is taken from an offset from a base is the one so far behind the base.
pub proof fn law_loaded_at(
    b: BuilderView,
    base: ValueId,
    offset: u64,
    f: FunctionView,
    came: BlockId,
    frame: Frame,
) -> (to: Frame)
    requires
        is_open(b.func, b.block),
        grows(loaded_at(b, base, offset).0.func, f),
        known_by(f, base, b.func.insts.len()),
        word_in(f, frame, base) + offset < word_modulus(),
    ensures
        runs(f, b, loaded_at(b, base, offset).0, came, frame, to),
        known_by(
            f,
            loaded_at(b, base, offset).1,
            loaded_at(b, base, offset).0.func.insts.len(),
        ),
        word_in(f, to, loaded_at(b, base, offset).1) == word_at(
            frame.memory,
            word_in(f, frame, base) + offset as nat,
        ),
{
    broadcast use {group_growth, group_builder_steps, group_spots, lemma_held_kept};

    reveal(loaded_at);
    let offset_val = next_value(b.func);
    let b1 = constant(b, word(offset));
    let addr = next_value(b1.func);
    let args = seq![base, offset_val];
    let ty = Some(MirType::uint256());
    let b2 = emitted(b1, inst(Op::Add, args), ty);
    let at = word_in(f, frame, base) + offset as nat;
    lemma_runs_nothing(f, b, came, frame);
    assert(words_in(f, frame, args)[0] == word_in(f, frame, base));
    assert(words_in(f, frame, args)[1] == offset);
    lemma_small_mod(at, word_modulus());
    let mid = lemma_runs_computed(f, b, b1, Op::Add, args, ty, came, frame, frame);
    assert(words_in(f, mid, seq![addr])[0] == at);
    assert(mid.memory == frame.memory) by {
        reveal(undisturbed);
    }
    lemma_runs_result(
        f,
        b,
        b2,
        inst(Op::MLoad, seq![addr]),
        ty,
        came,
        frame,
        mid,
        Datum::Word(word_at(frame.memory, at)),
    )
}

/// A slice variable that is stored has its pointer at its place and its length in the
/// word behind it.
pub proof fn law_slice_stored(
    b: BuilderView,
    offset: u64,
    slice: ValueId,
    f: FunctionView,
    came: BlockId,
    frame: Frame,
) -> (to: Frame)
    requires
        is_open(b.func, b.block),
        grows(slice_stored(b, false, offset, slice).func, f),
        known_by(f, slice, b.func.insts.len()),
        held(f, frame, slice) is Slice,
        offset + 32 <= u64::MAX,
    ensures
        leads(
            f,
            ends_at(b, came, frame),
            Outcome::At(ends_at(slice_stored(b, false, offset, slice), came, to)),
        ),
        undisturbed(
            b.func.insts.len(),
            storing(
                storing(frame, offset as nat, held(f, frame, slice)->Slice_0),
                offset as nat + 32,
                held(f, frame, slice)->Slice_1,
            ),
            to,
        ),
{
    broadcast use {
        group_growth,
        group_builder_steps,
        group_spots,
        lemma_held_kept,
        lemma_held_stored,
    };

    reveal(slice_stored);
    let ty = Some(MirType::uint256());
    let ptr = next_value(b.func);
    let b1 = emitted(b, inst(Op::SlicePtr, seq![slice]), ty);
    let len = next_value(b1.func);
    let b2 = emitted(b1, inst(Op::SliceLen, seq![slice]), ty);
    let b3 = variable_stored(b2, false, offset, ptr);
    let b4 = variable_stored(b3, false, (offset + 32) as u64, len);
    assert(grows(b3.func, f) && grows(b2.func, f) && is_open(b3.func, b3.block)
        && b3.func.insts.len() >= b2.func.insts.len()) by {
        reveal(variable_stored);
        reveal(variable_addr);
    }
    let (p, n) = (held(f, frame, slice)->Slice_0, held(f, frame, slice)->Slice_1);
    lemma_runs_nothing(f, b, came, frame);
    let f1 = lemma_runs_result(
        f,
        b,
        b,
        inst(Op::SlicePtr, seq![slice]),
        ty,
        came,
        frame,
        frame,
        Datum::Word(p),
    );
    let f2 = lemma_runs_result(
        f,
        b,
        b1,
        inst(Op::SliceLen, seq![slice]),
        ty,
        came,
        frame,
        f1,
        Datum::Word(n),
    );
    let f3 = law_variable_stored(b2, false, offset, ptr, f, came, f2);
    assert(word_in(f, f2, ptr) == p && word_in(f, f3, len) == n);
    let f4 = law_variable_stored(b3, false, (offset + 32) as u64, len, f, came, f3);
    lemma_leads_on(
        f,
        ends_at(b, came, frame),
        ends_at(b2, came, f2),
        Outcome::At(ends_at(b3, came, f3)),
    );
    lemma_leads_on(
        f,
        ends_at(b, came, frame),
        ends_at(b3, came, f3),
        Outcome::At(ends_at(b4, came, f4)),
    );
    reveal(undisturbed);
    f4
}

/// The elements of an array of any length start at the hash of its slot.
pub proof fn law_dynamic_array_element(
    b: BuilderView,
    slot: ValueId,
    index: ValueId,
    slots: u64,
    f: FunctionView,
    came: BlockId,
    frame: Frame,
) -> (to: Frame)
    requires
        is_open(b.func, b.block),
        grows(element_slot(b, slot, None, index, slots).0.func, f),
        known_by(f, slot, b.func.insts.len()),
        known_by(f, index, b.func.insts.len()),
        (frame.hash)(word_bytes(word_in(f, frame, slot))) + word_in(f, frame, index) * slots
            < word_modulus(),
        slots > 0,
    ensures
        leads(
            f,
            ends_at(b, came, frame),
            Outcome::At(ends_at(element_slot(b, slot, None, index, slots).0, came, to)),
        ),
        word_in(f, to, element_slot(b, slot, None, index, slots).1) == (frame.hash)(
            word_bytes(word_in(f, frame, slot)),
        ) + word_in(f, frame, index) * slots,
{
    broadcast use {
        group_growth,
        group_builder_steps,
        group_spots,
        lemma_held_kept,
        lemma_held_stored,
    };

    reveal(hashed_element);
    let (s, i) = (word_in(f, frame, slot), word_in(f, frame, index));
    let scratch = next_value(b.func);
    let b1 = constant(b, word(0));
    let b2 = emitted(b1, inst(Op::MStore, seq![scratch, slot]), None);
    let one_word = next_value(b2.func);
    let b3 = constant(b2, word(32));
    let data_slot = next_value(b3.func);
    let hashing = inst(Op::Keccak256, seq![scratch, one_word]);
    let b4 = emitted(b3, hashing, Some(MirType::bytes32()));
    let (b5, offset) = index_scaled(b4, index, slots);
    assert(is_open(b5.func, b5.block) && grows(b5.func, f) && grows(b4.func, f)
        && b5.func.insts.len() >= b4.func.insts.len()) by {
        reveal(index_multiplied);
    }
    let f2 = storing(frame, 0, s);
    lemma_leads_stored(f, b1, scratch, slot, came, frame);
    assert(word_in(f, frame, scratch) == 0);
    lemma_runs_nothing(f, b2, came, f2);
    let hash = (frame.hash)(word_bytes(s));
    let a = words_in(f, f2, seq![scratch, one_word]);
    assert(a[0] == 0 && a[1] == 32);
    assert(range(f2.memory, 0, 32) =~= word_bytes(s));
    let f4 = lemma_runs_result(
        f,
        b2,
        b3,
        hashing,
        Some(MirType::bytes32()),
        came,
        f2,
        f2,
        Datum::Word(hash),
    );
    assert(word_in(f, f4, index) == i);
    assert(i <= i * slots) by (nonlinear_arith)
        requires
            slots > 0,
            i >= 0,
    ;
    let f5 = lemma_index_scaled(b2, b4, index, slots, f, came, f2, f4);
    lemma_small_mod(i * slots as nat, word_modulus());
    lemma_small_mod(hash + i * slots as nat, word_modulus());
    assert(words_in(f, f5, seq![data_slot, offset])[0] == hash);
    assert(words_in(f, f5, seq![data_slot, offset])[1] == i * slots);
    let to = lemma_runs_computed(
        f,
        b2,
        b5,
        Op::Add,
        seq![data_slot, offset],
        Some(MirType::uint256()),
        came,
        f2,
        f5,
    );
    lemma_leads_on(
        f,
        ends_at(b, came, frame),
        ends_at(b2, came, f2),
        Outcome::At(ends_at(element_slot(b, slot, None, index, slots).0, came, to)),
    );
    to
}

/// `msg.sig` is the first word of the call data with all but its first four bytes
/// zero.
pub proof fn law_message_selector(
    b: BuilderView,
    f: FunctionView,
    came: BlockId,
    frame: Frame,
) -> (to: Frame)
    requires
        is_open(b.func, b.block),
        grows(message_selector(b).0.func, f),
        word_at(call_bytes(frame), 0) < word_modulus(),
    ensures
        runs(f, b, message_selector(b).0, came, frame, to),
        word_in(f, to, message_selector(b).1) == word_at(call_bytes(frame), 0) - word_at(
            call_bytes(frame),
            0,
        ) % pow2(224),
{
    broadcast use {group_growth, group_builder_steps, group_spots, lemma_held_kept};

    reveal(message_selector);
    let ty = Some(MirType::uint256());
    let zero = next_value(b.func);
    let b1 = constant(b, word(0));
    let first = next_value(b1.func);
    let b2 = emitted(b1, inst(Op::CalldataLoad, seq![zero]), ty);
    let shift = next_value(b2.func);
    let b3 = constant(b2, word(224));
    let selector = next_value(b3.func);
    let b4 = emitted(b3, inst(Op::Shr, seq![shift, first]), ty);
    let w = word_at(call_bytes(frame), 0);
    lemma_runs_nothing(f, b, came, frame);
    assert(words_in(f, frame, seq![zero])[0] == 0);
    let f1 = lemma_runs_result(
        f,
        b,
        b1,
        inst(Op::CalldataLoad, seq![zero]),
        ty,
        came,
        frame,
        frame,
        Datum::Word(w),
    );
    assert(words_in(f, f1, seq![shift, first])[0] == 224);
    assert(words_in(f, f1, seq![shift, first])[1] == w);
    let f2 = lemma_runs_computed(f, b, b3, Op::Shr, seq![shift, first], ty, came, frame, f1);
    assert(words_in(f, f2, seq![shift, selector])[0] == 224);
    assert(words_in(f, f2, seq![shift, selector])[1] == w / pow2(224));
    let to = lemma_runs_computed(f, b, b4, Op::Shl, seq![shift, selector], ty, came, frame, f2);
    lemma_pow2_pos(224);
    lemma_fundamental_div_mod(w as int, pow2(224) as int);
    lemma_mod_bound(w as int, pow2(224) as int);
    lemma_mul_is_commutative((w / pow2(224)) as int, pow2(224) as int);
    lemma_small_mod((w / pow2(224)) * pow2(224), word_modulus());
    to
}

/// A function of a contract is the address followed by the four bytes of the selector.
pub proof fn law_function_packed(
    b: BuilderView,
    address: ValueId,
    selector: u32,
    f: FunctionView,
    came: BlockId,
    frame: Frame,
) -> (to: Frame)
    requires
        is_open(b.func, b.block),
        grows(function_packed(b, address, selector).0.func, f),
        known_by(f, address, b.func.insts.len()),
        word_in(f, frame, address) < pow2(160),
    ensures
        runs(f, b, function_packed(b, address, selector).0, came, frame, to),
        word_in(f, to, function_packed(b, address, selector).1) / pow2(32) == word_in(
            f,
            frame,
            address,
        ),
        word_in(f, to, function_packed(b, address, selector).1) % pow2(32) == selector,
{
    broadcast use {group_growth, group_builder_steps, group_spots, lemma_held_kept};

    reveal(function_packed);
    let ty = Some(MirType::uint256());
    let shift = next_value(b.func);
    let b1 = constant(b, word(32));
    let shifted = next_value(b1.func);
    let b2 = emitted(b1, inst(Op::Shl, seq![shift, address]), ty);
    let selector_val = next_value(b2.func);
    let b3 = constant(b2, word(selector as u64));
    let n = word_in(f, frame, address);
    let high = n * pow2(32);
    lemma_runs_nothing(f, b, came, frame);
    assert(words_in(f, frame, seq![shift, address])[0] == 32);
    assert(words_in(f, frame, seq![shift, address])[1] == n);
    lemma_pow2_pos(32);
    lemma2_to64();
    assert(high + selector < word_modulus()) by {
        lemma_pow2_adds(160, 32);
        lemma_pow2_strictly_increases(192, 256);
        assert(n * pow2(32) + selector < pow2(160) * pow2(32)) by (nonlinear_arith)
            requires
                n + 1 <= pow2(160),
                selector < pow2(32),
        ;
    }
    lemma_small_mod(high, word_modulus());
    let f1 = lemma_runs_computed(f, b, b1, Op::Shl, seq![shift, address], ty, came, frame, frame);
    assert(words_in(f, f1, seq![shifted, selector_val])[0] == high);
    assert(words_in(f, f1, seq![shifted, selector_val])[1] == selector);
    let to = lemma_runs_computed(
        f,
        b,
        b3,
        Op::Or,
        seq![shifted, selector_val],
        ty,
        came,
        frame,
        f1,
    );
    let sum = high + selector as nat;
    lemma_fundamental_div_mod_converse(sum as int, pow2(32) as int, n as int, selector as int);
    lemma_fundamental_div_mod_converse(high as int, pow2(32) as int, n as int, 0);
    let a = words_in(f, f1, seq![shifted, selector_val]);
    let both = |i: nat| has_bit(a[0], i) || has_bit(a[1], i);
    assert forall|i: nat| i < 256 implies !(has_bit(high, i) && #[trigger] has_bit(
        selector as nat,
        i,
    )) by {
        lemma_no_low_bits(high, 32);
        lemma_bits_below(selector as nat, 32);
        assert(bit(high, i) == has_bit(high, i));
        assert(bit(selector as nat, i) == has_bit(selector as nat, i));
    }
    lemma_divided_bits(
        |i: nat| has_bit(high, i),
        |i: nat| has_bit(selector as nat, i),
        both,
        256,
    );
    lemma_word_bits(high);
    lemma_word_bits(selector as nat);
    assert(computed(Op::Or, a) == Some(of_bits(both, 256)));
    to
}

/// The parts of a slice are its pointer and its length, in this order.
pub proof fn law_parts_taken(
    b: BuilderView,
    slice: ValueId,
    f: FunctionView,
    came: BlockId,
    frame: Frame,
) -> (to: Frame)
    requires
        is_open(b.func, b.block),
        grows(parts_taken(b, slice).0.func, f),
        known_by(f, slice, b.func.insts.len()),
        held(f, frame, slice) is Slice,
    ensures
        runs(f, b, parts_taken(b, slice).0, came, frame, to),
        held(f, frame, slice) == Datum::Slice(
            word_in(f, to, parts_taken(b, slice).1.0),
            word_in(f, to, parts_taken(b, slice).1.1),
        ),
{
    broadcast use {group_growth, group_builder_steps, group_spots, lemma_held_kept};

    reveal(parts_taken);
    let ty = Some(MirType::uint256());
    let b1 = emitted(b, inst(Op::SlicePtr, seq![slice]), ty);
    let (p, n) = (held(f, frame, slice)->Slice_0, held(f, frame, slice)->Slice_1);
    lemma_runs_nothing(f, b, came, frame);
    let f1 = lemma_runs_result(
        f,
        b,
        b,
        inst(Op::SlicePtr, seq![slice]),
        ty,
        came,
        frame,
        frame,
        Datum::Word(p),
    );
    lemma_runs_result(
        f,
        b,
        b1,
        inst(Op::SliceLen, seq![slice]),
        ty,
        came,
        frame,
        f1,
        Datum::Word(n),
    )
}

} // verus!
