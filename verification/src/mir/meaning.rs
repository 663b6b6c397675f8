//! What a function does when it runs.
//!
//! A run goes from spot to spot: every instruction changes the frame, and the
//! terminator of a block says where the run goes on. Operations that depend on
//! other accounts or on the allocator have no meaning here, so a run ends before
//! them.

use crate::mir::function::FunctionView;
use crate::mir::inst::{KindView, Op, TermView};
use crate::mir::types::{BlockId, InstId, Value, ValueId};
use crate::word::word_modulus;
use vstd::arithmetic::power2::pow2;
use vstd::prelude::*;

verus! {

/// What a value holds.
pub enum Datum {
    /// A word.
    Word(nat),
    /// A pointer and a length.
    Slice(nat, nat),
}

/// What a running function works on.
pub struct Frame {
    /// The arguments of the function, by position.
    pub args: Map<int, Datum>,
    /// The results of instructions, by their number.
    pub results: Map<int, Datum>,
    /// The bytes of the memory.
    pub memory: spec_fn(int) -> nat,
    /// The words of the storage.
    pub storage: spec_fn(nat) -> nat,
    /// The bytes of the call data.
    pub calldata: Seq<nat>,
    /// What is known of the call, the block and the chain.
    pub surroundings: spec_fn(Op) -> nat,
    /// The hash of bytes.
    pub hash: spec_fn(Seq<nat>) -> nat,
    /// What a value holds that was never defined.
    pub undefined: Datum,
}

/// Whether a bit of a number is set.
pub open spec fn has_bit(number: nat, index: nat) -> bool {
    (number / pow2(index)) % 2 == 1
}

/// The number whose lowest `count` bits are given and that has no other.
pub open spec fn of_bits(bits: spec_fn(nat) -> bool, count: nat) -> nat
    decreases count,
{
    if count == 0 {
        0
    } else {
        of_bits(bits, (count - 1) as nat) + if bits((count - 1) as nat) {
            pow2((count - 1) as nat)
        } else {
            0
        }
    }
}

/// The word of a truth value.
pub open spec fn truth_word(holds: bool) -> nat {
    if holds {
        1
    } else {
        0
    }
}

/// The number that a word stands for in two's complement.
pub open spec fn signed_value(number: nat) -> int {
    if number < pow2(255) {
        number as int
    } else {
        number - word_modulus()
    }
}

/// The word that stands for a number in two's complement.
pub open spec fn wrapped(number: int) -> nat {
    (number % (word_modulus() as int)) as nat
}

/// The number that the lowest `width` bits of a word stand for in two's
/// complement.
pub open spec fn signed_part(number: nat, width: nat) -> int {
    let low = number % pow2(width);
    if low < pow2((width - 1) as nat) {
        low as int
    } else {
        low - pow2(width)
    }
}

/// What a computation on words gives.
pub open spec fn computed(op: Op, a: Seq<nat>) -> Option<nat> {
    match op {
        Op::Add => Some(wrapped((a[0] + a[1]) as int)),
        Op::Sub => Some(wrapped(a[0] - a[1])),
        Op::Mul => Some(wrapped((a[0] * a[1]) as int)),
        Op::Div => Some(
            if a[1] == 0 {
                0
            } else {
                a[0] / a[1]
            },
        ),
        Op::Mod => Some(
            if a[1] == 0 {
                0
            } else {
                a[0] % a[1]
            },
        ),
        Op::And => Some(of_bits(|i: nat| has_bit(a[0], i) && has_bit(a[1], i), 256)),
        Op::Or => Some(of_bits(|i: nat| has_bit(a[0], i) || has_bit(a[1], i), 256)),
        Op::Xor => Some(of_bits(|i: nat| has_bit(a[0], i) != has_bit(a[1], i), 256)),
        Op::Not => Some((word_modulus() - 1 - a[0]) as nat),
        // A shift counts in the first operand.
        Op::Shl => Some(
            if a[0] < 256 {
                (a[1] * pow2(a[0])) % word_modulus()
            } else {
                0
            },
        ),
        Op::Shr => Some(
            if a[0] < 256 {
                a[1] / pow2(a[0])
            } else {
                0
            },
        ),
        Op::Sar => Some(
            if a[0] < 256 {
                wrapped(signed_value(a[1]) / (pow2(a[0]) as int))
            } else {
                wrapped(
                    if signed_value(a[1]) < 0 {
                        -1
                    } else {
                        0
                    },
                )
            },
        ),
        Op::SignExtend => Some(
            if a[0] < 31 {
                wrapped(signed_part(a[1], 8 * (a[0] + 1)))
            } else {
                a[1]
            },
        ),
        Op::Lt => Some(truth_word(a[0] < a[1])),
        Op::Gt => Some(truth_word(a[0] > a[1])),
        Op::SLt => Some(truth_word(signed_value(a[0]) < signed_value(a[1]))),
        Op::SGt => Some(truth_word(signed_value(a[0]) > signed_value(a[1]))),
        Op::Eq => Some(truth_word(a[0] == a[1])),
        Op::IsZero => Some(truth_word(a[0] == 0)),
        Op::Select => Some(
            if a[0] != 0 {
                a[1]
            } else {
                a[2]
            },
        ),
        _ => None,
    }
}

/// The number that bytes from an address on stand for, the most significant
/// first.
pub open spec fn bytes_number(bytes: spec_fn(int) -> nat, start: int, count: nat) -> nat
    decreases count,
{
    if count == 0 {
        0
    } else {
        bytes_number(bytes, start, (count - 1) as nat) * 256 + bytes(start + count - 1)
    }
}

/// The word at an address.
pub open spec fn word_at(bytes: spec_fn(int) -> nat, addr: nat) -> nat {
    bytes_number(bytes, addr as int, 32)
}

/// One of the bytes of a word, the most significant first.
pub open spec fn byte_of(number: nat, index: int) -> nat {
    (number / pow2((8 * (31 - index)) as nat)) % 256
}

/// The bytes of a word, the most significant first.
pub open spec fn word_bytes(number: nat) -> Seq<nat> {
    Seq::new(32, |i: int| byte_of(number, i))
}

/// The memory with a word stored at an address.
pub open spec fn with_word(bytes: spec_fn(int) -> nat, addr: nat, number: nat) -> spec_fn(
    int,
) -> nat {
    |i: int|
        if addr <= i < addr + 32 {
            byte_of(number, i - addr)
        } else {
            bytes(i)
        }
}

/// The bytes of the call data; there are zeros after its end.
pub open spec fn call_bytes(frame: Frame) -> spec_fn(int) -> nat {
    |i: int|
        if 0 <= i < frame.calldata.len() {
            frame.calldata[i]
        } else {
            0
        }
}

/// The bytes of a range.
pub open spec fn range(bytes: spec_fn(int) -> nat, start: nat, count: nat) -> Seq<nat> {
    Seq::new(count, |i: int| bytes(start + i))
}

/// The memory with a range copied to it.
pub open spec fn with_range(
    bytes: spec_fn(int) -> nat,
    to: nat,
    source: spec_fn(int) -> nat,
    from: nat,
    count: nat,
) -> spec_fn(int) -> nat {
    |i: int|
        if to <= i < to + count {
            source(from + (i - to))
        } else {
            bytes(i)
        }
}

/// What a value of a function holds in a frame.
pub open spec fn held(f: FunctionView, frame: Frame, value: ValueId) -> Datum {
    match f.values[value.0 as int] {
        Value::Arg(arg) => frame.args[arg.index as int],
        Value::Immediate(imm) => Datum::Word(imm.spec_as_u256()@),
        Value::Inst(id) => frame.results[id.0 as int],
        Value::Undef(_) | Value::Error(_) => frame.undefined,
    }
}

/// The word of a datum: a slice counts as its pointer.
pub open spec fn datum_word(datum: Datum) -> nat {
    match datum {
        Datum::Word(number) => number,
        Datum::Slice(ptr, _) => ptr,
    }
}

/// The word that a value of a function holds in a frame.
pub open spec fn word_in(f: FunctionView, frame: Frame, value: ValueId) -> nat {
    datum_word(held(f, frame, value))
}

/// The words that values hold.
pub open spec fn words_in(f: FunctionView, frame: Frame, values: Seq<ValueId>) -> Seq<nat> {
    Seq::new(values.len(), |i: int| word_in(f, frame, values[i]))
}

/// The frame with the result of an instruction.
pub open spec fn with_result(frame: Frame, id: InstId, datum: Datum) -> Frame {
    Frame { results: frame.results.insert(id.0 as int, datum), ..frame }
}

/// The incoming value of a phi for the block that the run came from.
pub open spec fn incoming_value(edges: Seq<(BlockId, ValueId)>, came: BlockId) -> Option<ValueId>
    decreases edges.len(),
{
    if edges.len() == 0 {
        None
    } else if edges[0].0 == came {
        Some(edges[0].1)
    } else {
        incoming_value(edges.skip(1), came)
    }
}

/// The frame after an instruction; none where it has no meaning here.
pub open spec fn performed(
    f: FunctionView,
    frame: Frame,
    came: BlockId,
    id: InstId,
    kind: KindView,
) -> Option<Frame> {
    match kind {
        KindView::Phi(edges) => match incoming_value(edges, came) {
            Some(value) => Some(with_result(frame, id, held(f, frame, value))),
            None => None,
        },
        KindView::Inst { op, args } => {
            let a = words_in(f, frame, args);
            match op {
                Op::MLoad => Some(with_result(frame, id, Datum::Word(word_at(frame.memory, a[0])))),
                Op::MStore => Some(Frame { memory: with_word(frame.memory, a[0], a[1]), ..frame }),
                Op::MCopy => Some(
                    Frame {
                        memory: with_range(frame.memory, a[0], frame.memory, a[1], a[2]),
                        ..frame
                    },
                ),
                Op::CalldataLoad => Some(
                    with_result(frame, id, Datum::Word(word_at(call_bytes(frame), a[0]))),
                ),
                Op::CalldataSize => Some(with_result(frame, id, Datum::Word(frame.calldata.len()))),
                Op::CalldataCopy => Some(
                    Frame {
                        memory: with_range(frame.memory, a[0], call_bytes(frame), a[1], a[2]),
                        ..frame
                    },
                ),
                Op::SLoad => Some(with_result(frame, id, Datum::Word((frame.storage)(a[0])))),
                Op::SStore => {
                    let (slot, number) = (a[0], a[1]);
                    let before = frame.storage;
                    Some(
                        Frame {
                            storage: |at: nat|
                                if at == slot {
                                    number
                                } else {
                                    before(at)
                                },
                            ..frame
                        },
                    )
                },
                Op::Keccak256 => Some(
                    with_result(
                        frame,
                        id,
                        Datum::Word((frame.hash)(range(frame.memory, a[0], a[1]))),
                    ),
                ),
                // The key comes before the slot of the mapping.
                Op::MappingSlot => Some(
                    with_result(
                        frame,
                        id,
                        Datum::Word((frame.hash)(word_bytes(a[0]) + word_bytes(a[1]))),
                    ),
                ),
                Op::MakeSlice { location } => Some(
                    with_result(frame, id, Datum::Slice(a[0], a[1])),
                ),
                Op::SlicePtr => match held(f, frame, args[0]) {
                    Datum::Slice(ptr, _) => Some(with_result(frame, id, Datum::Word(ptr))),
                    _ => None,
                },
                Op::SliceLen => match held(f, frame, args[0]) {
                    Datum::Slice(_, len) => Some(with_result(frame, id, Datum::Word(len))),
                    _ => None,
                },
                Op::Caller | Op::CallValue | Op::Origin | Op::GasPrice | Op::Coinbase
                | Op::Timestamp | Op::BlockNumber | Op::PrevRandao | Op::GasLimit | Op::ChainId
                | Op::Address | Op::BaseFee | Op::BlobBaseFee | Op::CodeSize
                | Op::LoadImmutable { .. } | Op::InternalFrameAddr { .. } => Some(
                    with_result(frame, id, Datum::Word((frame.surroundings)(op))),
                ),
                _ => match computed(op, a) {
                    Some(number) => Some(with_result(frame, id, Datum::Word(number))),
                    None => None,
                },
            }
        },
    }
}

/// A point of a run.
pub struct Spot {
    /// The block.
    pub block: BlockId,
    /// How many of its instructions are done.
    pub index: nat,
    /// The block before.
    pub came: BlockId,
    /// What the function works on.
    pub frame: Frame,
}

/// Where a run has got to.
pub enum Outcome {
    /// A spot.
    At(Spot),
    /// Back at the caller, with values.
    Returned(Seq<Datum>),
    /// Out of the call, undone, with error data.
    Reverted(Seq<nat>),
    /// Out of the call, with data.
    Answered(Seq<nat>),
    /// Out of the call, without data.
    Stopped,
    /// Out of the call, failed.
    Failed,
}

/// The start of a block.
pub open spec fn entered(s: Spot, block: BlockId) -> Outcome {
    Outcome::At(Spot { block, index: 0, came: s.block, frame: s.frame })
}

/// The block of the first case whose constant is the number.
pub open spec fn chosen(
    f: FunctionView,
    frame: Frame,
    number: nat,
    default: BlockId,
    cases: Seq<(ValueId, BlockId)>,
) -> BlockId
    decreases cases.len(),
{
    if cases.len() == 0 {
        default
    } else if word_in(f, frame, cases[0].0) == number {
        cases[0].1
    } else {
        chosen(f, frame, number, default, cases.skip(1))
    }
}

/// Where a terminator goes; none where it has no meaning here.
pub open spec fn gone(f: FunctionView, s: Spot, term: TermView) -> Option<Outcome> {
    match term {
        TermView::Jump(target) => Some(entered(s, target)),
        TermView::Branch { condition, then_block, else_block } => Some(
            entered(
                s,
                if word_in(f, s.frame, condition) != 0 {
                    then_block
                } else {
                    else_block
                },
            ),
        ),
        TermView::Switch { value, default, cases } => Some(
            entered(s, chosen(f, s.frame, word_in(f, s.frame, value), default, cases)),
        ),
        TermView::Return(values) => Some(
            Outcome::Returned(Seq::new(values.len(), |i: int| held(f, s.frame, values[i]))),
        ),
        TermView::Revert { offset, size } => Some(
            Outcome::Reverted(
                range(s.frame.memory, word_in(f, s.frame, offset), word_in(f, s.frame, size)),
            ),
        ),
        TermView::ReturnData { offset, size } => Some(
            Outcome::Answered(
                range(s.frame.memory, word_in(f, s.frame, offset), word_in(f, s.frame, size)),
            ),
        ),
        TermView::Stop => Some(Outcome::Stopped),
        TermView::Invalid => Some(Outcome::Failed),
        TermView::SelfDestruct { .. } | TermView::TailCall { .. } => None,
    }
}

/// What comes next in a run; none where it has no meaning here, or where the
/// block is not complete.
pub open spec fn next(f: FunctionView, s: Spot) -> Option<Outcome> {
    let block = f.blocks[s.block.0 as int];
    if s.index < block.instructions.len() {
        let id = block.instructions[s.index as int];
        match performed(f, s.frame, s.came, id, f.insts[id.0 as int].kind) {
            Some(frame) => Some(Outcome::At(Spot { index: s.index + 1, frame, ..s })),
            None => None,
        }
    } else {
        match block.terminator {
            Some(term) => gone(f, s, term),
            None => None,
        }
    }
}

/// Where a run has got to after so many steps.
pub open spec fn after(f: FunctionView, s: Spot, steps: nat) -> Option<Outcome>
    decreases steps,
{
    if steps == 0 {
        Some(Outcome::At(s))
    } else {
        match next(f, s) {
            Some(Outcome::At(to)) => after(f, to, (steps - 1) as nat),
            other => if steps == 1 {
                other
            } else {
                None
            },
        }
    }
}

/// Whether a run from a spot gets somewhere.
#[verifier::opaque]
pub open spec fn leads(f: FunctionView, s: Spot, to: Outcome) -> bool {
    exists|steps: nat| #[trigger] after(f, s, steps) == Some(to)
}

} // verus!
