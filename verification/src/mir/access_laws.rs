//! What is known of the addresses and slots that an access touches.

use crate::mir::function::{
    accessed_addr, alias_of_inst, alias_of_slot, constant_of, is_frame_addr, region_of_addr,
    term_operands, FunctionView,
};
use crate::mir::inst::{KindView, TermView};
use crate::mir::meaning::{
    chosen, computed, gone, held, performed, word_in, words_in, Datum, Frame, Outcome, Spot,
};
use crate::mir::types::{BlockId, InstId, StorageAlias, Value, ValueId};
use crate::word::word_modulus;
use vstd::arithmetic::div_mod::lemma_mod_bound;
use vstd::arithmetic::power2::lemma_pow2_pos;
use vstd::prelude::*;

verus! {

/// Whether a value that an operation computes holds what it computes.
pub open spec fn is_settled(f: FunctionView, frame: Frame, value: ValueId) -> bool {
    f.values[value.0 as int] matches Value::Inst(id) && f.insts[id.0 as int].kind
        matches KindView::Inst { op, args } && computed(op, words_in(f, frame, args))
        matches Some(number) ==> args.len() == 2 && held(f, frame, value) == Datum::Word(number)
}

/// A slot is where its description says it is: at a known slot, at a known distance
/// from where another value says, or where the value itself says.
pub proof fn law_slot_alias(f: FunctionView, frame: Frame, slot: ValueId)
    requires
        is_settled(f, frame, slot),
    ensures
        match alias_of_slot(f, slot) {
            StorageAlias::Slot(number) => word_in(f, frame, slot) == number@,
            StorageAlias::Offset { base, offset } => word_in(f, frame, slot) == (word_in(
                f,
                frame,
                base,
            ) + offset@) % word_modulus(),
            StorageAlias::Symbolic(value) => value == slot,
        },
{
    if let Value::Inst(id) = f.values[slot.0 as int] {
        if let KindView::Inst { op, args } = f.insts[id.0 as int].kind {
            if op is Add {
                assert(computed(op, words_in(f, frame, args)) is Some);
                assert(words_in(f, frame, args)[0] == word_in(f, frame, args[0]));
                assert(words_in(f, frame, args)[1] == word_in(f, frame, args[1]));
                let sum = word_in(f, frame, args[0]) + word_in(f, frame, args[1]);
                lemma_pow2_pos(256);
                lemma_mod_bound(sum as int, word_modulus() as int);
                assert(word_in(f, frame, slot) == sum % word_modulus());
            }
        }
    }
}

/// A storage access touches no slot but the one that it is described by.
pub proof fn law_storage_access(
    f: FunctionView,
    kind: KindView,
    came: BlockId,
    id: InstId,
    frame: Frame,
    other: nat,
)
    requires
        performed(f, frame, came, id, kind) is Some,
        (performed(f, frame, came, id, kind)->0.storage)(other) != (frame.storage)(other),
    ensures
        kind matches KindView::Inst { op, args } && alias_of_inst(f, kind) == Some(
            alias_of_slot(f, args[0]),
        ) && (args.len() > 0 ==> word_in(f, frame, args[0]) == other),
{
    if let KindView::Inst { op, args } = kind {
        if args.len() > 0 {
            assert(words_in(f, frame, args)[0] == word_in(f, frame, args[0]));
        }
    }
}

/// A write to memory changes nothing before the address that it is described by.
pub proof fn law_memory_access(
    f: FunctionView,
    kind: KindView,
    came: BlockId,
    id: InstId,
    frame: Frame,
    at: int,
)
    requires
        kind matches KindView::Inst { args, .. } ==> args.len() > 0,
        performed(f, frame, came, id, kind) is Some,
        (performed(f, frame, came, id, kind)->0.memory)(at) != (frame.memory)(at),
    ensures
        accessed_addr(kind) matches Some(addr) && word_in(f, frame, addr) <= at,
{
    if let KindView::Inst { op, args } = kind {
        assert(words_in(f, frame, args)[0] == word_in(f, frame, args[0]));
    }
}

/// Scratch memory is before the heap. An address in the frame of a function is one that
/// the frame gives, or at a known distance from one.
pub proof fn law_region(f: FunctionView, frame: Frame, addr: ValueId)
    ensures
        region_of_addr(f, addr) is Scratch ==> word_in(f, frame, addr) < 128,
        region_of_addr(f, addr) is InternalFrame ==> is_frame_addr(f, addr) || exists|
            base: ValueId,
            distance: ValueId,
        |
            #![trigger is_frame_addr(f, base), constant_of(f, distance)]
            is_frame_addr(f, base) && constant_of(f, distance) is Some && (f.values[addr.0 as int]
                matches Value::Inst(id) && f.insts[id.0 as int].kind
                matches KindView::Inst { op, args } && ((op is Add || op is Sub) && args[0] == base
                && args[1] == distance || op is Add && args[0] == distance && args[1] == base)),
        is_frame_addr(f, addr) ==> region_of_addr(f, addr) is InternalFrame,
        constant_of(f, addr) matches Some(number) ==> (region_of_addr(f, addr) is Scratch
            <==> number@ < 128),
{
    if region_of_addr(f, addr) is InternalFrame && !is_frame_addr(f, addr) {
        let args = f.insts[f.values[addr.0 as int]->Inst_0.0 as int].kind->Inst_args;
        assert(is_frame_addr(f, args[0]) && constant_of(f, args[1]) is Some || is_frame_addr(
            f,
            args[1],
        ) && constant_of(f, args[0]) is Some);
    }
}

/// The case that is chosen depends on the constants of the cases alone.
proof fn lemma_chosen(
    f: FunctionView,
    x: Frame,
    y: Frame,
    number: nat,
    default: BlockId,
    cases: Seq<(ValueId, BlockId)>,
)
    requires
        forall|i: int|
            0 <= i < cases.len() ==> held(f, x, (#[trigger] cases[i]).0) == held(f, y, cases[i].0),
    ensures
        chosen(f, x, number, default, cases) == chosen(f, y, number, default, cases),
    decreases cases.len(),
{
    if cases.len() > 0 {
        assert(cases[0].0 == cases[0].0);
        assert forall|i: int| 0 <= i < cases.skip(1).len() implies held(
            f,
            x,
            (#[trigger] cases.skip(1)[i]).0,
        ) == held(f, y, cases.skip(1)[i].0) by {
            assert(cases.skip(1)[i] == cases[i + 1]);
        }
        lemma_chosen(f, x, y, number, default, cases.skip(1));
    }
}

/// Where the end of a block goes depends on its operands and the memory alone.
pub proof fn law_terminator_operands(f: FunctionView, x: Spot, y: Spot, term: TermView)
    requires
        x.block == y.block,
        x.frame.memory == y.frame.memory,
        forall|i: int|
            0 <= i < term_operands(term).len() ==> held(
                f,
                x.frame,
                #[trigger] term_operands(term)[i],
            ) == held(f, y.frame, term_operands(term)[i]),
    ensures
        match (gone(f, x, term), gone(f, y, term)) {
            (Some(Outcome::At(one)), Some(Outcome::At(other))) => one.block == other.block,
            (one, other) => one == other,
        },
{
    let operands = term_operands(term);
    match term {
        TermView::Branch { condition, .. } => {
            assert(operands[0] == condition);
        },
        TermView::Switch { value, default, cases } => {
            assert(operands[0] == value);
            assert forall|i: int| 0 <= i < cases.len() implies held(
                f,
                x.frame,
                (#[trigger] cases[i]).0,
            ) == held(f, y.frame, cases[i].0) by {
                assert(operands[i + 1] == cases[i].0);
            }
            lemma_chosen(f, x.frame, y.frame, word_in(f, x.frame, value), default, cases);
        },
        TermView::Return(values) => {
            assert(Seq::new(values.len(), |i: int| held(f, x.frame, values[i])) =~= Seq::new(
                values.len(),
                |i: int| held(f, y.frame, values[i]),
            )) by {
                assert forall|i: int| 0 <= i < values.len() implies held(f, x.frame, values[i])
                    == held(f, y.frame, values[i]) by {
                    assert(operands[i] == values[i]);
                }
            }
        },
        TermView::Revert { offset, size } => {
            assert(operands[0] == offset && operands[1] == size);
        },
        TermView::ReturnData { offset, size } => {
            assert(operands[0] == offset && operands[1] == size);
        },
        _ => {},
    }
}

} // verus!
