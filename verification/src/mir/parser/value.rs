//! Values, blocks, function references and metadata.

use crate::mir::builder::{
    blocked, builder_wf, constant, group_builder_steps, valued, FunctionBuilder,
};
use crate::mir::function::{has_block, has_value, next_block, next_value};
use crate::mir::inst::InstructionMetadata;
use crate::mir::parser::layout::{joined_name, left};
use crate::mir::parser::state::{
    args_fit, args_kept, at, at_most, bump, expect, fail, find, find_label, follows, ident, kept,
    keyword, kind, kind_at, lemma_args_fit, lemma_find, lemma_grown, parser_state, span, state_wf,
    uint, BlockLabel, FunctionRef, FunctionRefTarget, Parser, PendingFunctionRef, PendingView,
    RefView, State,
};
use crate::mir::parser::token::{Failure, Kind, LitKind, ParseError, Problem, Punct};
use crate::mir::types::{
    Arg, BlockId, EffectKind, ErrorGuaranteed, ExprId, FunctionId, Immediate, MemoryRegion, MirType,
    Span, StorageAlias, Value, ValueId,
};
use crate::text::{
    after_prefix, before_last, is_digits, number_of, parse_number, strip_last, strip_prefix,
    text_is, text_is_digits,
};
use crate::word::U256;
use vstd::prelude::*;

verus! {

broadcast use crate::mir::parser::state::group_kept;

/// The state with one more value.
pub open spec fn with_value(s: State, value: Value) -> State {
    State { b: valued(s.b, value), ..s }
}

/// The state with values for the arguments up to the given one.
pub open spec fn implicit_args(s: State, index: nat) -> State
    decreases index + 1 - s.args.len(),
{
    if s.args.len() > index {
        s
    } else {
        let arg = Value::Arg(Arg { index: s.args.len() as usize, ty: MirType::uint256() });
        implicit_args(
            State { args: s.args.push(next_value(s.b.func)), ..with_value(s, arg) },
            index,
        )
    }
}

/// The value of an argument: a declared one, or where the function declares
/// none, one that is added when it is first mentioned.
pub open spec fn arg_value(s: State, index: nat) -> Result<(ValueId, State), Failure> {
    let s = if index >= s.args.len() && s.b.func.params.len() == 0 {
        implicit_args(s, index)
    } else {
        s
    };
    if index < s.args.len() {
        Ok((s.args[index as int], s))
    } else {
        fail(s, Problem::ArgOutOfRange(index as usize), Seq::empty())
    }
}

/// The value of a label, undefined so far where it is first mentioned.
pub open spec fn labelled_value(s: State, label: u32) -> (ValueId, State) {
    match find(s.values, label) {
        Some(i) => (s.values[i].1, s),
        None => {
            let value = next_value(s.b.func);
            (
                value,
                State {
                    values: s.values.push((label, value)),
                    ..with_value(s, Value::Undef(MirType::uint256()))
                },
            )
        },
    }
}

/// Reads a value: `argN`, `vN`, a literal, `true`, `false` or `err`.
#[verifier::opaque]
pub open spec fn value(s: State) -> Result<(ValueId, State), Failure> {
    if kind(s) is Literal {
        match uint(s) {
            Err(failure) => Err(failure),
            Ok((word, s)) => {
                Ok((next_value(s.b.func), State { b: constant(s.b, word), ..s }))
            },
        }
    } else {
        match ident(s) {
            Err(failure) => Err(failure),
            Ok((name, s)) => {
                if name == "true"@ {
                    Ok(
                        (
                            next_value(s.b.func),
                            with_value(s, Value::Immediate(Immediate::Bool(true))),
                        ),
                    )
                } else if name == "false"@ {
                    Ok(
                        (
                            next_value(s.b.func),
                            with_value(s, Value::Immediate(Immediate::Bool(false))),
                        ),
                    )
                } else if name == "err"@ {
                    Ok((next_value(s.b.func), with_value(s, Value::Error(ErrorGuaranteed))))
                } else if let Some(rest) = after_prefix(name, "arg"@) {
                    match number_of(rest, usize::MAX as nat) {
                        Some(index) => arg_value(s, index),
                        None => fail(s, Problem::InvalidArg, name),
                    }
                } else if let Some(rest) = after_prefix(name, "v"@) {
                    match number_of(rest, u32::MAX as nat) {
                        Some(label) => Ok(labelled_value(s, label as u32)),
                        None => fail(s, Problem::InvalidValue, name),
                    }
                } else {
                    fail(s, Problem::ExpectedValue, name)
                }
            },
        }
    }
}

/// Whether a value can start at the next token.
pub open spec fn value_starts(s: State) -> bool {
    match kind(s) {
        Kind::Literal(lit, _) => lit == LitKind::Integer,
        Kind::Ident(name) => kind_at(s, 1) != Kind::Punct(Punct::Eq) && (name == "true"@ || name
            == "false"@ || name == "err"@ || (match after_prefix(name, "arg"@) {
            Some(rest) => is_digits(rest),
            None => match after_prefix(name, "v"@) {
                Some(rest) => is_digits(rest),
                None => false,
            },
        })),
        _ => false,
    }
}

/// The block and state of a label that is new: the first label names the entry
/// block, every other one a new block.
pub open spec fn new_label(s: State, label: u32, defined: bool, reference_span: Option<Span>) -> (
    BlockId,
    State,
) {
    let id = if s.labels.len() == 0 {
        BlockId(0)
    } else {
        next_block(s.b.func)
    };
    (
        id,
        State {
            b: if s.labels.len() == 0 {
                s.b
            } else {
                blocked(s.b)
            },
            labels: s.labels.push((label, BlockLabel { id, defined, reference_span })),
            ..s
        },
    )
}

/// Reads a mention of a block.
#[verifier::opaque]
pub open spec fn block_id(s: State) -> Result<(BlockId, State), Failure> {
    let here = span(s);
    match ident(s) {
        Err(failure) => Err(failure),
        Ok((name, s)) => {
            match after_prefix(name, "bb"@) {
                None => fail(s, Problem::ExpectedBlock, name),
                Some(rest) => match number_of(rest, u32::MAX as nat) {
                    None => fail(s, Problem::InvalidBlock, name),
                    Some(label) => match find(s.labels, label as u32) {
                        Some(i) => Ok((s.labels[i].1.id, s)),
                        None => Ok(new_label(s, label as u32, false, Some(here))),
                    },
                },
            }
        },
    }
}

/// The label and state after a block header, where one is next.
pub open spec fn block_header(s: State) -> Option<(u32, State)> {
    match kind(s) {
        Kind::Ident(name) => match after_prefix(name, "bb"@) {
            Some(rest) => match number_of(rest, u32::MAX as nat) {
                Some(label) => if kind_at(s, 1) == Kind::Punct(Punct::Colon) {
                    Some((label as u32, bump(bump(s))))
                } else {
                    None
                },
                None => None,
            },
            None => None,
        },
        _ => None,
    }
}

/// Defines the block of a label.
pub open spec fn define(s: State, label: u32) -> Result<(BlockId, State), Failure> {
    match find(s.labels, label) {
        Some(i) => {
            let old = s.labels[i].1;
            if old.defined {
                fail(s, Problem::DuplicateBlock(label), Seq::empty())
            } else {
                Ok(
                    (
                        old.id,
                        State {
                            labels: s.labels.update(
                                i,
                                (s.labels[i].0, BlockLabel { defined: true, ..old }),
                            ),
                            order: s.order.push(old.id),
                            ..s
                        },
                    ),
                )
            }
        },
        None => {
            let (id, after) = new_label(s, label, true, None);
            Ok((id, State { order: after.order.push(id), ..after }))
        },
    }
}

/// The value mentioned before that a definition of a label defines.
pub open spec fn result_label(s: State, label: u32) -> Result<(Option<ValueId>, State), Failure> {
    match find(s.values, label) {
        Some(i) => if s.b.func.values[s.values[i].1.0 as int] is Undef {
            Ok((Some(s.values[i].1), s))
        } else {
            fail(s, Problem::DuplicateValue(label), Seq::empty())
        },
        None => Ok((None, s)),
    }
}

/// The smallest of the first `count` value labels that is not defined.
pub open spec fn least_undefined(s: State, count: nat) -> Option<u32>
    decreases count,
{
    if count == 0 || count > s.values.len() {
        None
    } else {
        let front = least_undefined(s, (count - 1) as nat);
        let (label, value) = s.values[count - 1];
        if s.b.func.values[value.0 as int] is Undef && (front is None || label < front->0) {
            Some(label)
        } else {
            front
        }
    }
}

/// Rejects a function with a value that is mentioned and not defined.
pub open spec fn values_defined(s: State) -> Result<((), State), Failure> {
    match least_undefined(s, s.values.len()) {
        Some(label) => fail(s, Problem::UndefinedValue(label), Seq::empty()),
        None => Ok(((), s)),
    }
}

/// The position of the smallest of the first `count` block labels that is not
/// defined.
pub open spec fn least_unknown(s: State, count: nat) -> Option<int>
    decreases count,
{
    if count == 0 || count > s.labels.len() {
        None
    } else {
        let front = least_unknown(s, (count - 1) as nat);
        let (label, found) = s.labels[count - 1];
        if !found.defined && (front is None || label < s.labels[front->0].0) {
            Some(count - 1)
        } else {
            front
        }
    }
}

/// Rejects a function with a block that is mentioned and not defined.
pub open spec fn blocks_defined(s: State) -> Result<((), State), Failure> {
    match least_unknown(s, s.labels.len()) {
        Some(i) => Err(
            Failure {
                problem: Problem::UnknownBlock(s.labels[i].0),
                text: Seq::empty(),
                span: match s.labels[i].1.reference_span {
                    Some(here) => here,
                    None => span(s),
                },
            },
        ),
        None => Ok(((), s)),
    }
}

/// Reads a mention of a function: `@name`, `fnN`, or a name with its position.
#[verifier::opaque]
pub open spec fn function_id(s: State) -> Result<(FunctionId, State), Failure> {
    if at(s, Punct::At) {
        let s = bump(s);
        let here = span(s);
        match joined_name(s, Punct::Dot) {
            Err(failure) => Err(failure),
            Ok((name, s)) => {
                Ok((
                        FunctionId(0),
                        State { pending: Some(RefView { displayed: false, name, span: here }), ..s },
                ))
            },
        }
    } else {
        let here = span(s);
        match joined_name(s, Punct::Dot) {
            Err(failure) => Err(failure),
            Ok((name, s)) => {
                match numbered_function(name) {
                    Some(index) => Ok((FunctionId(index as usize), s)),
                    None => Ok((
                            FunctionId(0),
                            State {
                                pending: Some(RefView { displayed: true, name, span: here }),
                                ..s
                            },
                    )),
                }
            },
        }
    }
}

/// The position in a name of the form `fnN`.
pub open spec fn numbered_function(name: Seq<char>) -> Option<nat> {
    match after_prefix(name, "fn"@) {
        Some(rest) => number_of(rest, usize::MAX as nat),
        None => None,
    }
}

/// Attaches a mention of a function that has just been read to what it is part
/// of.
pub open spec fn finished_ref(s: State, target: FunctionRefTarget) -> State {
    match s.pending {
        Some(reference) => State {
            pending: None,
            refs: s.refs.push(PendingView { reference, target }),
            ..s
        },
        None => s,
    }
}

/// Reads the bounds of a span, `lo..hi`, however it was cut into tokens.
#[verifier::opaque]
pub open spec fn span_bounds(s: State) -> Result<((u32, u32), State), Failure> {
    if let Some(text) = rational_start(s) {
        match number_of(text, u32::MAX as nat) {
            None => fail(s, Problem::InvalidSpanStart, Seq::empty()),
            Some(lo) => {
                let s = bump(s);
                match rational_end(s) {
                    None => fail(s, Problem::ExpectedSpanEnd, Seq::empty()),
                    Some(end) => match number_of(end, u32::MAX as nat) {
                        None => fail(s, Problem::InvalidSpanEnd, Seq::empty()),
                        Some(hi) => Ok(((lo as u32, hi as u32), bump(s))),
                    },
                }
            },
        }
    } else {
        match uint(s) {
            Err(failure) => Err(failure),
            Ok((word, s)) => {
                match at_most(s, word, u32::MAX as nat, Problem::DoesNotFit { value: word, bits: 32 }) {
                    Err(failure) => Err(failure),
                    Ok((lo, s)) => {
                        match expect(s, Punct::Dot) {
                            Err(failure) => Err(failure),
                            Ok((_mark, s)) => {
                                if let Some(end) = rational_end(s) {
                                    match number_of(end, u32::MAX as nat) {
                                        None => fail(s, Problem::InvalidSpanEnd, Seq::empty()),
                                        Some(hi) => Ok(((lo as u32, hi as u32), bump(s))),
                                    }
                                } else {
                                    match expect(s, Punct::Dot) {
                                        Err(failure) => Err(failure),
                                        Ok((_mark, s)) => {
                                            match uint(s) {
                                                Err(failure) => Err(failure),
                                                Ok((end, s)) => {
                                                    match at_most(s, end, u32::MAX as nat, Problem::DoesNotFit { value: end, bits: 32 }) {
                                                        Err(failure) => Err(failure),
                                                        Ok((hi, s)) => {
                                                            Ok(((lo as u32, hi as u32), s))
                                                        },
                                                    }
                                                },
                                            }
                                        },
                                    }
                                }
                            },
                        }
                    },
                }
            },
        }
    }
}

/// The digits in front of the point of a number that ends with it.
pub open spec fn rational_start(s: State) -> Option<Seq<char>> {
    match kind(s) {
        Kind::Literal(LitKind::Rational, text) => before_last(text, '.'),
        _ => None,
    }
}

/// The digits behind the point of a number that starts with it.
pub open spec fn rational_end(s: State) -> Option<Seq<char>> {
    match kind(s) {
        Kind::Literal(LitKind::Rational, text) => after_prefix(text, "."@),
        _ => None,
    }
}

/// Reads the arguments of what a storage access may touch.
pub open spec fn storage_alias_args(s: State, name: Seq<char>) -> Result<
    (StorageAlias, State),
    Failure,
> {
    if name == "slot"@ {
        match uint(s) {
            Err(failure) => Err(failure),
            Ok((slot, s)) => {
                Ok((StorageAlias::Slot(slot), s))
            },
        }
    } else if name == "symbolic"@ {
        match value(s) {
            Err(failure) => Err(failure),
            Ok((slot, s)) => {
                Ok((StorageAlias::Symbolic(slot), s))
            },
        }
    } else if name == "offset"@ {
        match value(s) {
            Err(failure) => Err(failure),
            Ok((base, s)) => {
                match expect(s, Punct::Comma) {
                    Err(failure) => Err(failure),
                    Ok((_mark, s)) => {
                        match uint(s) {
                            Err(failure) => Err(failure),
                            Ok((offset, s)) => {
                                Ok((StorageAlias::Offset { base, offset }, s))
                            },
                        }
                    },
                }
            },
        }
    } else {
        fail(s, Problem::UnknownStorageMetadata, name)
    }
}

/// Reads what a storage access may touch.
#[verifier::opaque]
pub open spec fn storage_alias(s: State) -> Result<(StorageAlias, State), Failure> {
    match ident(s) {
        Err(failure) => Err(failure),
        Ok((name, s)) => {
            match expect(s, Punct::OpenParen) {
                Err(failure) => Err(failure),
                Ok((_mark, s)) => {
                    match storage_alias_args(s, name) {
                        Err(failure) => Err(failure),
                        Ok((alias, s)) => {
                            match expect(s, Punct::CloseParen) {
                                Err(failure) => Err(failure),
                                Ok((_mark, s)) => {
                                    Ok((alias, s))
                                },
                            }
                        },
                    }
                },
            }
        },
    }
}

/// The memory region of a name.
pub open spec fn region_named(name: Seq<char>) -> Option<MemoryRegion> {
    if name == "scratch"@ {
        Some(MemoryRegion::Scratch)
    } else if name == "abi_return"@ {
        Some(MemoryRegion::AbiReturn)
    } else if name == "heap"@ {
        Some(MemoryRegion::Heap)
    } else if name == "internal_frame"@ {
        Some(MemoryRegion::InternalFrame)
    } else if name == "unknown"@ {
        Some(MemoryRegion::Unknown)
    } else {
        None
    }
}

/// The effect of a name.
pub open spec fn effect_named(name: Seq<char>) -> Option<EffectKind> {
    if name == "pure"@ {
        Some(EffectKind::Pure)
    } else if name == "memory_read"@ {
        Some(EffectKind::MemoryRead)
    } else if name == "memory_write"@ {
        Some(EffectKind::MemoryWrite)
    } else if name == "storage_read"@ {
        Some(EffectKind::StorageRead)
    } else if name == "storage_write"@ {
        Some(EffectKind::StorageWrite)
    } else if name == "transient_read"@ {
        Some(EffectKind::TransientRead)
    } else if name == "transient_write"@ {
        Some(EffectKind::TransientWrite)
    } else if name == "environment_read"@ {
        Some(EffectKind::EnvironmentRead)
    } else if name == "external_call"@ {
        Some(EffectKind::ExternalCall)
    } else if name == "internal_call"@ {
        Some(EffectKind::InternalCall)
    } else if name == "create"@ {
        Some(EffectKind::Create)
    } else if name == "log"@ {
        Some(EffectKind::Log)
    } else {
        None
    }
}

/// Reads one entry of metadata whose key has been read.
#[verifier::opaque]
pub open spec fn metadata_item(s: State, key: Seq<char>, m: InstructionMetadata) -> Result<
    (InstructionMetadata, State),
    Failure,
> {
    if key == "unchecked"@ {
        Ok((InstructionMetadata { unchecked: true, ..m }, s))
    } else if key == "deferred_alloc"@ {
        Ok((InstructionMetadata { deferred_alloc: true, ..m }, s))
    } else if key == "storage"@ {
        match expect(s, Punct::Eq) {
            Err(failure) => Err(failure),
            Ok((_mark, s)) => {
                match storage_alias(s) {
                    Err(failure) => Err(failure),
                    Ok((alias, s)) => {
                        Ok((InstructionMetadata { storage_alias: Some(alias), ..m }, s))
                    },
                }
            },
        }
    } else if key == "memory"@ {
        match expect(s, Punct::Eq) {
            Err(failure) => Err(failure),
            Ok((_mark, s)) => {
                match ident(s) {
                    Err(failure) => Err(failure),
                    Ok((name, s)) => {
                        match region_named(name) {
                            Some(region) => Ok(
                                (InstructionMetadata { memory_region: Some(region), ..m }, s),
                            ),
                            None => fail(s, Problem::UnknownMemoryMetadata, name),
                        }
                    },
                }
            },
        }
    } else if key == "effect"@ {
        match expect(s, Punct::Eq) {
            Err(failure) => Err(failure),
            Ok((_mark, s)) => {
                match ident(s) {
                    Err(failure) => Err(failure),
                    Ok((name, s)) => {
                        match effect_named(name) {
                            Some(effect) => Ok(
                                (InstructionMetadata { effect: Some(effect), ..m }, s),
                            ),
                            None => fail(s, Problem::UnknownEffectMetadata, name),
                        }
                    },
                }
            },
        }
    } else if key == "loop_depth"@ {
        match expect(s, Punct::Eq) {
            Err(failure) => Err(failure),
            Ok((_mark, s)) => {
                match uint(s) {
                    Err(failure) => Err(failure),
                    Ok((word, s)) => {
                        match at_most(s, word, u16::MAX as nat, Problem::DoesNotFit { value: word, bits: 16 }) {
                            Err(failure) => Err(failure),
                            Ok((depth, s)) => {
                                Ok((InstructionMetadata { loop_depth: depth as u16, ..m }, s))
                            },
                        }
                    },
                }
            },
        }
    } else if key == "hir"@ {
        match expect(s, Punct::Eq) {
            Err(failure) => Err(failure),
            Ok((_mark, s)) => {
                match uint(s) {
                    Err(failure) => Err(failure),
                    Ok((word, s)) => {
                        match at_most(s, word, u32::MAX as nat, Problem::DoesNotFit { value: word, bits: 32 }) {
                            Err(failure) => Err(failure),
                            Ok((expr, s)) => {
                                Ok(
                                    (
                                        InstructionMetadata {
                                            hir_expr: Some(ExprId(expr as usize)),
                                            ..m
                                        },
                                        s,
                                    ),
                                )
                            },
                        }
                    },
                }
            },
        }
    } else if key == "span"@ {
        match expect(s, Punct::Eq) {
            Err(failure) => Err(failure),
            Ok((_mark, s)) => {
                match span_bounds(s) {
                    Err(failure) => Err(failure),
                    Ok((bounds, s)) => {
                        Ok(
                            (
                                InstructionMetadata {
                                    source_span: Some(Span { lo: bounds.0, hi: bounds.1 }),
                                    ..m
                                },
                                s,
                            ),
                        )
                    },
                }
            },
        }
    } else {
        fail(s, Problem::UnknownMetadataKey, key)
    }
}

/// Reads the further entries of metadata, after those given.
pub open spec fn metadata_items(s: State, m: InstructionMetadata) -> Result<
    (InstructionMetadata, State),
    Failure,
>
    decreases left(s),
{
    let rest = left(s);
    match ident(s) {
        Err(failure) => Err(failure),
        Ok((key, s)) => {
            match metadata_item(s, key, m) {
                Err(failure) => Err(failure),
                Ok((m, s)) => {
                    if at(s, Punct::Comma) {
                        let s = bump(s);
                        if left(s) < rest {
                            metadata_items(s, m)
                        } else {
                            fail(s, Problem::Expected(Punct::Comma), Seq::empty())
                        }
                    } else {
                        match expect(s, Punct::CloseParen) {
                            Err(failure) => Err(failure),
                            Ok((_mark, s)) => {
                                Ok((m, s))
                            },
                        }
                    }
                },
            }
        },
    }
}

/// Reads the metadata behind an instruction, if there is any.
#[verifier::opaque]
pub open spec fn metadata(s: State) -> Result<(InstructionMetadata, State), Failure> {
    if at(s, Punct::Not) {
        let s = bump(s);
        match keyword(s, "metadata"@) {
            Err(failure) => Err(failure),
            Ok((_word, s)) => {
                match expect(s, Punct::OpenParen) {
                    Err(failure) => Err(failure),
                    Ok((_mark, s)) => {
                        if at(s, Punct::CloseParen) {
                            Ok((InstructionMetadata::empty(), bump(s)))
                        } else {
                            metadata_items(s, InstructionMetadata::empty())
                        }
                    },
                }
            },
        }
    } else {
        Ok((InstructionMetadata::empty(), s))
    }
}

/// A new label keeps the state well-formed.
proof fn lemma_new_label_wf(s: State, label: u32, reference_span: Option<Span>)
    requires
        state_wf(s),
        builder_wf(new_label(s, label, false, reference_span).1.b),
    ensures
        state_wf(new_label(s, label, false, reference_span).1),
        follows(new_label(s, label, false, reference_span).1, s),
        has_block(
            new_label(s, label, false, reference_span).1.b.func,
            new_label(s, label, false, reference_span).0,
        ),
{
    reveal(state_wf);
    broadcast use group_builder_steps;

    let (id, after) = new_label(s, label, false, reference_span);
    assert(id.0 == s.labels.len());
    assert forall|block: BlockId| #[trigger] after.order.contains(block) <==> block.0
        < after.labels.len() && after.labels[block.0 as int].1.defined by {
        assert(s.order.contains(block) <==> block.0 < s.labels.len()
            && s.labels[block.0 as int].1.defined);
    }
    reveal(blocked);
    lemma_args_fit(s, after);
}

/// Defining a block keeps the state well-formed.
proof fn lemma_define_wf(s: State, label: u32)
    requires
        state_wf(s),
        define(s, label) is Ok,
        builder_wf(define(s, label)->Ok_0.1.b),
    ensures
        state_wf(define(s, label)->Ok_0.1),
        follows(define(s, label)->Ok_0.1, s),
        has_block(define(s, label)->Ok_0.1.b.func, define(s, label)->Ok_0.0),
{
    reveal(state_wf);
    broadcast use group_builder_steps;

    lemma_find(s.labels, label);
    let (id, after) = define(s, label)->Ok_0;
    assert(!s.order.contains(id)) by {
        assert(s.order.contains(id) <==> id.0 < s.labels.len() && s.labels[id.0 as int].1.defined);
    }
    assert(after.order == s.order.push(id));
    assert forall|block: BlockId| #[trigger] after.order.contains(block) <==> block.0
        < after.labels.len() && after.labels[block.0 as int].1.defined by {
        assert(s.order.contains(block) <==> block.0 < s.labels.len()
            && s.labels[block.0 as int].1.defined);
        if after.order.contains(block) {
            let k = choose|k: int| 0 <= k < after.order.len() && after.order[k] == block;
            if k < s.order.len() {
                assert(s.order[k] == block);
            }
        }
        if s.order.contains(block) {
            let k = choose|k: int| 0 <= k < s.order.len() && s.order[k] == block;
            assert(after.order[k] == block);
        }
        assert(after.order[s.order.len() as int] == id);
    }
    assert(after.order.no_duplicates()) by {
        assert forall|i: int, j: int|
            0 <= i < after.order.len() && 0 <= j < after.order.len() && i != j implies after.order[
                i
            ]
            != after.order[j] by {
            if i < s.order.len() {
                assert(s.order.contains(s.order[i]));
            }
            if j < s.order.len() {
                assert(s.order.contains(s.order[j]));
            }
        }
    }
    reveal(blocked);
    lemma_args_fit(s, after);
}

impl<'a> Parser<'a> {
    /// Allocates values for the arguments up to the given one.
    fn add_implicit_args(&mut self, index: usize)
        requires
            old(self).wf(),
            old(self)@.b.func.params.len() == 0,
        ensures
            final(self)@ == implicit_args(old(self)@, index as nat),
            final(self).wf(),
            follows(final(self)@, old(self)@),
            kept(final(self)@.b, old(self)@.b),
            final(self)@.args.len() > index,
    {
        proof {
            reveal(state_wf);
            reveal(parser_state);
        }
        while self.arg_values.len() <= index
            invariant
                self.wf(),
                follows(self@, old(self)@),
                kept(self@.b, old(self)@.b),
                self@.b.func.params.len() == 0,
                implicit_args(self@, index as nat) == implicit_args(old(self)@, index as nat),
            decreases index + 1 - self.arg_values@.len(),
        {
            proof {
                reveal(state_wf);
            reveal(parser_state);
            }
            let ghost before = self@;
            let arg = Value::Arg(Arg { index: self.arg_values.len(), ty: MirType::uint256() });
            let value = self.add_value(arg);
            let ghost mid = self@;
            self.arg_values.push(value);
            proof {
                assert(self@ =~= (State {
                    args: before.args.push(next_value(before.b.func)),
                    ..with_value(before, arg)
                }));
                reveal(valued);
                reveal(args_kept);
                assert forall|i: int| 0 <= i < self@.args.len() implies has_value(
                    self@.b.func,
                    #[trigger] self@.args[i],
                ) && self@.b.func.values[self@.args[i].0 as int] == Value::Arg(
                    Arg { index: i as usize, ty: MirType::uint256() },
                ) by {
                    if i < mid.args.len() {
                        assert(has_value(mid.b.func, mid.args[i]));
                    }
                }
                assert(args_fit(self@));
            }
        }
    }

    /// Parses a single value reference: `argN`, `vN`, integer literal, or `true`/`false`.
    /// Allocates a fresh `Immediate` for literals.
    pub fn parse_value(&mut self) -> (r: Result<ValueId, ParseError>)
        requires
            old(self).wf(),
        ensures
            match value(old(self)@) {
                Ok((found, s)) => r == Ok::<ValueId, ParseError>(found) && final(self)@ == s,
                Err(failure) => r matches Err(e) && e@ == failure,
            },
            final(self).wf(),
            follows(final(self)@, old(self)@),
            kept(final(self)@.b, old(self)@.b),
            r is Err ==> final(self)@.b == old(self)@.b,
            r is Ok ==> final(self)@.pos > old(self)@.pos,
            r matches Ok(found) ==> has_value(final(self)@.b.func, found),
    {
        proof {
            reveal(state_wf);
            reveal(parser_state);
        }
        proof {
            reveal(value);
        }
        if self.peek_literal().is_some() {
            let word = self.parse_uint()?;
            return Ok(self.add_value(Value::Immediate(Immediate::UInt256(word))));
        }
        let id = self.parse_ident()?;
        let name = id.as_str();
        if text_is(name, "true") {
            return Ok(self.add_value(Value::Immediate(Immediate::Bool(true))));
        }
        if text_is(name, "false") {
            return Ok(self.add_value(Value::Immediate(Immediate::Bool(false))));
        }
        if text_is(name, "err") {
            return Ok(self.add_value(Value::Error(ErrorGuaranteed)));
        }
        if let Some(rest) = strip_prefix(name, "arg") {
            let index: usize = match parse_number(rest.as_str(), usize::MAX as u64) {
                Some(index) => index as usize,
                None => {
                    return Err(self.error(Problem::InvalidArg, id.clone()));
                },
            };
            if index >= self.arg_values.len() && self.func.params.len() == 0 {
                self.add_implicit_args(index);
            }
            if index < self.arg_values.len() {
                assert(has_value(self@.b.func, self@.args[index as int]));
                return Ok(self.arg_values[index]);
            }
            return Err(self.plain_error(Problem::ArgOutOfRange(index)));
        }
        if let Some(rest) = strip_prefix(name, "v") {
            let label: u32 = match parse_number(rest.as_str(), u32::MAX as u64) {
                Some(label) => label as u32,
                None => {
                    return Err(self.error(Problem::InvalidValue, id.clone()));
                },
            };
            return Ok(self.value_of_label(label));
        }
        Err(self.error(Problem::ExpectedValue, id.clone()))
    }

    /// The value of a label, undefined so far where it is first mentioned.
    fn value_of_label(&mut self, label: u32) -> (r: ValueId)
        requires
            old(self).wf(),
        ensures
            (r, final(self)@) == labelled_value(old(self)@, label),
            final(self).wf(),
            follows(final(self)@, old(self)@),
            kept(final(self)@.b, old(self)@.b),
            has_value(final(self)@.b.func, r),
    {
        proof {
            reveal(state_wf);
            reveal(parser_state);
        }
        if let Some(i) = find_label(&self.value_labels, label) {
            assert(has_value(self@.b.func, self@.values[i as int].1));
            return self.value_labels[i].1;
        }
        let value = self.add_value(Value::Undef(MirType::uint256()));
        self.value_labels.push((label, value));
        assert(self@ =~= labelled_value(old(self)@, label).1);
        value
    }

    /// Whether a value can start at the next token.
    pub fn value_starts_here(&self) -> (r: bool)
        requires
            self.wf(),
        ensures
            r == value_starts(self@),
    {
        if let Some((lit, _)) = self.peek_literal() {
            return lit == LitKind::Integer;
        }
        match self.peek_ident() {
            Some(id) => {
                if self.at_ahead(1, Punct::Eq) {
                    return false;
                }
                let name = id.as_str();
                if text_is(name, "true") || text_is(name, "false") || text_is(name, "err") {
                    return true;
                }
                match strip_prefix(name, "arg") {
                    Some(rest) => text_is_digits(rest.as_str()),
                    None => match strip_prefix(name, "v") {
                        Some(rest) => text_is_digits(rest.as_str()),
                        None => false,
                    },
                }
            },
            None => false,
        }
    }

    /// Creates the block of a label that is new.
    fn label_block(&mut self, label: u32, defined: bool, reference_span: Option<Span>) -> (r:
        BlockId)
        requires
            old(self).wf(),
        ensures
            (r, final(self)@) == new_label(old(self)@, label, defined, reference_span),
            builder_wf(final(self)@.b),
            kept(final(self)@.b, old(self)@.b),
    {
        proof {
            reveal(state_wf);
            reveal(parser_state);
        }
        broadcast use group_builder_steps;

        let id = if self.block_labels.len() == 0 {
            BlockId(0)
        } else {
            let mut builder = FunctionBuilder { func: &mut self.func, current_block: self.block };
            builder.create_block()
        };
        self.block_labels.push((label, BlockLabel { id, defined, reference_span }));
        proof {
            assert(self@ =~= new_label(old(self)@, label, defined, reference_span).1);
            reveal(kept);
            reveal(blocked);
        }
        id
    }

    /// Parses a mention of a block.
    pub fn parse_block_id(&mut self) -> (r: Result<BlockId, ParseError>)
        requires
            old(self).wf(),
        ensures
            match block_id(old(self)@) {
                Ok((block, s)) => r == Ok::<BlockId, ParseError>(block) && final(self)@ == s,
                Err(failure) => r matches Err(e) && e@ == failure,
            },
            final(self).wf(),
            follows(final(self)@, old(self)@),
            kept(final(self)@.b, old(self)@.b),
            r is Err ==> final(self)@.b == old(self)@.b,
            r is Ok ==> final(self)@.pos > old(self)@.pos,
            r matches Ok(block) ==> has_block(final(self)@.b.func, block),
    {
        proof {
            reveal(state_wf);
            reveal(parser_state);
        }
        proof {
            reveal(block_id);
        }
        let here = self.span();
        let id = self.parse_ident()?;
        let name = id.as_str();
        match strip_prefix(name, "bb") {
            None => Err(self.error(Problem::ExpectedBlock, id.clone())),
            Some(rest) => match parse_number(rest.as_str(), u32::MAX as u64) {
                None => Err(self.error(Problem::InvalidBlock, id.clone())),
                Some(number) => {
                    let label: u32 = number as u32;
                    match find_label(&self.block_labels, label) {
                        Some(i) => Ok(self.block_labels[i].1.id),
                        None => {
                            let ghost before = self@;
                            let block = self.label_block(label, false, Some(here));
                            proof {
                                lemma_new_label_wf(before, label, Some(here));
                            }
                            Ok(block)
                        },
                    }
                },
            },
        }
    }

    /// Reads a block header if one is next.
    pub fn try_parse_block_header(&mut self) -> (r: Option<u32>)
        requires
            old(self).wf(),
        ensures
            match block_header(old(self)@) {
                Some((label, s)) => r == Some(label) && final(self)@ == s && final(self)@.pos
                    == old(self)@.pos + 2,
                None => r is None && final(self)@ == old(self)@,
            },
            final(self).wf(),
            follows(final(self)@, old(self)@),
    {
        let id = match self.peek_ident() {
            Some(id) => id,
            None => {
                return None;
            },
        };
        let rest = match strip_prefix(id.as_str(), "bb") {
            Some(rest) => rest,
            None => {
                return None;
            },
        };
        let label: u32 = match parse_number(rest.as_str(), u32::MAX as u64) {
            Some(number) => number as u32,
            None => {
                return None;
            },
        };
        if !self.at_ahead(1, Punct::Colon) {
            return None;
        }
        self.bump();
        self.bump();
        Some(label)
    }

    /// Defines the block of a label.
    pub fn define_block(&mut self, label: u32) -> (r: Result<BlockId, ParseError>)
        requires
            old(self).wf(),
        ensures
            match define(old(self)@, label) {
                Ok((block, s)) => r == Ok::<BlockId, ParseError>(block) && final(self)@ == s,
                Err(failure) => r matches Err(e) && e@ == failure,
            },
            final(self).wf(),
            follows(final(self)@, old(self)@),
            kept(final(self)@.b, old(self)@.b),
            r is Err ==> final(self)@ == old(self)@,
            r matches Ok(block) ==> has_block(final(self)@.b.func, block),
    {
        proof {
            reveal(state_wf);
            reveal(parser_state);
        }
        match find_label(&self.block_labels, label) {
            Some(i) => {
                let (name, found) = self.block_labels[i];
                if found.defined {
                    return Err(self.plain_error(Problem::DuplicateBlock(label)));
                }
                let defined = BlockLabel {
                    id: found.id,
                    defined: true,
                    reference_span: found.reference_span,
                };
                self.block_labels.set(i, (name, defined));
                self.block_order.push(found.id);
                proof {
                    assert(self@ =~= define(old(self)@, label)->Ok_0.1);
                    lemma_define_wf(old(self)@, label);
                }
                Ok(found.id)
            },
            None => {
                let id = self.label_block(label, true, None);
                self.block_order.push(id);
                proof {
                    assert(self@ =~= define(old(self)@, label)->Ok_0.1);
                    lemma_define_wf(old(self)@, label);
                }
                Ok(id)
            },
        }
    }

    /// The value mentioned before that a definition of a label defines.
    pub fn resolve_result_label(&self, label: u32) -> (r: Result<Option<ValueId>, ParseError>)
        requires
            self.wf(),
        ensures
            match result_label(self@, label) {
                Ok((found, s)) => r == Ok::<Option<ValueId>, ParseError>(found) && s == self@,
                Err(failure) => r matches Err(e) && e@ == failure,
            },
            r matches Ok(Some(found)) ==> has_value(self@.b.func, found),
    {
        proof {
            reveal(state_wf);
            reveal(parser_state);
        }
        match find_label(&self.value_labels, label) {
            Some(i) => {
                let found = self.value_labels[i].1;
                assert(has_value(self@.b.func, self@.values[i as int].1));
                match self.func.value(found) {
                    Value::Undef(_) => Ok(Some(found)),
                    _ => Err(self.plain_error(Problem::DuplicateValue(label))),
                }
            },
            None => Ok(None),
        }
    }

    /// Rejects a function with a value that is mentioned and not defined.
    pub fn reject_unresolved_value_labels(&self) -> (r: Result<(), ParseError>)
        requires
            self.wf(),
        ensures
            match values_defined(self@) {
                Ok((_, s)) => r is Ok && s == self@,
                Err(failure) => r matches Err(e) && e@ == failure,
            },
    {
        proof {
            reveal(state_wf);
            reveal(parser_state);
        }
        let mut least: Option<u32> = None;
        let mut i: usize = 0;
        while i < self.value_labels.len()
            invariant
                i <= self.value_labels@.len(),
                self.wf(),
                least == least_undefined(self@, i as nat),
            decreases self.value_labels@.len() - i,
        {
            let (label, found) = self.value_labels[i];
            reveal(state_wf);
            reveal(parser_state);
            assert(has_value(self@.b.func, self@.values[i as int].1));
            if let Value::Undef(_) = self.func.value(found) {
                least = match least {
                    Some(other) => if label < other {
                        Some(label)
                    } else {
                        Some(other)
                    },
                    None => Some(label),
                };
            }
            i = i + 1;
        }
        match least {
            Some(label) => Err(self.plain_error(Problem::UndefinedValue(label))),
            None => Ok(()),
        }
    }

    /// Rejects a function with a block that is mentioned and not defined.
    pub fn reject_unresolved_block_labels(&self) -> (r: Result<(), ParseError>)
        requires
            self.wf(),
        ensures
            match blocks_defined(self@) {
                Ok((_, s)) => r is Ok && s == self@,
                Err(failure) => r matches Err(e) && e@ == failure,
            },
    {
        proof {
            reveal(state_wf);
            reveal(parser_state);
        }
        let mut least: Option<usize> = None;
        let mut i: usize = 0;
        while i < self.block_labels.len()
            invariant
                i <= self.block_labels@.len(),
                self.wf(),
                match least_unknown(self@, i as nat) {
                    Some(k) => least == Some(k as usize) && 0 <= k < i,
                    None => least is None,
                },
            decreases self.block_labels@.len() - i,
        {
            proof {
                reveal(parser_state);
            }
            let (label, found) = self.block_labels[i];
            if !found.defined {
                least = match least {
                    Some(k) => if label < self.block_labels[k].0 {
                        Some(i)
                    } else {
                        Some(k)
                    },
                    None => Some(i),
                };
            }
            i = i + 1;
        }
        match least {
            Some(k) => {
                let (label, found) = self.block_labels[k];
                let here = match found.reference_span {
                    Some(here) => here,
                    None => self.span(),
                };
                Err(
                    ParseError {
                        problem: Problem::UnknownBlock(label),
                        text: String::new(),
                        span: here,
                    },
                )
            },
            None => Ok(()),
        }
    }

    /// Parses a mention of a function.
    pub fn parse_function_id(&mut self) -> (r: Result<FunctionId, ParseError>)
        requires
            old(self).wf(),
        ensures
            match function_id(old(self)@) {
                Ok((id, s)) => r == Ok::<FunctionId, ParseError>(id) && final(self)@ == s,
                Err(failure) => r matches Err(e) && e@ == failure,
            },
            final(self).wf(),
            follows(final(self)@, old(self)@),
            final(self)@.b == old(self)@.b,
            r is Ok ==> final(self)@.pos > old(self)@.pos,
    {
        proof {
            reveal(function_id);
        }
        proof {
            reveal(parser_state);
        }
        let displayed = !self.eat(Punct::At);
        let here = self.span();
        let name = self.parse_function_name()?;
        if displayed {
            if let Some(rest) = strip_prefix(name.as_str(), "fn") {
                if let Some(index) = parse_number(rest.as_str(), usize::MAX as u64) {
                    return Ok(FunctionId(index as usize));
                }
            }
        }
        let ghost before = self@;
        self.pending_function_ref = Some(FunctionRef { displayed, name, span: here });
        proof {
            assert(self@ =~= (State {
                pending: Some(RefView { displayed, name: name@, span: here }),
                ..before
            }));
            lemma_grown(before, self@);
        }
        Ok(FunctionId(0))
    }

    /// Attaches a mention of a function that has just been read to what it is
    /// part of.
    pub fn finish_function_ref(&mut self, target: FunctionRefTarget)
        requires
            old(self).wf(),
            target matches FunctionRefTarget::Terminator(block) ==> has_block(
                old(self)@.b.func,
                block,
            ),
        ensures
            final(self)@ == finished_ref(old(self)@, target),
            final(self).wf(),
            follows(final(self)@, old(self)@),
    {
        proof {
            reveal(parser_state);
        }
        if let Some(reference) = self.pending_function_ref.take() {
            self.function_refs.push(PendingFunctionRef { reference, target });
            assert(self@.refs =~= finished_ref(old(self)@, target).refs);
        }
        proof {
            reveal(state_wf);
            assert(self@ =~= finished_ref(old(self)@, target));
            lemma_grown(old(self)@, self@);
        }
    }

    /// The digits in front of the point of a number that ends with it.
    fn peek_rational_start(&self) -> (r: Option<String>)
        requires
            self.wf(),
        ensures
            match rational_start(self@) {
                Some(digits) => r matches Some(found) && found@ == digits,
                None => r is None,
            },
    {
        match self.peek_literal() {
            Some((LitKind::Rational, text)) => strip_last(text.as_str(), '.'),
            _ => None,
        }
    }

    /// The digits behind the point of a number that starts with it.
    fn peek_rational_end(&self) -> (r: Option<String>)
        requires
            self.wf(),
        ensures
            match rational_end(self@) {
                Some(digits) => r matches Some(found) && found@ == digits,
                None => r is None,
            },
    {
        match self.peek_literal() {
            Some((LitKind::Rational, text)) => strip_prefix(text.as_str(), "."),
            _ => None,
        }
    }

    /// Parses the bounds of a span.
    pub fn parse_span_bounds(&mut self) -> (r: Result<(u32, u32), ParseError>)
        requires
            old(self).wf(),
        ensures
            match span_bounds(old(self)@) {
                Ok((bounds, s)) => r == Ok::<(u32, u32), ParseError>(bounds) && final(self)@ == s,
                Err(failure) => r matches Err(e) && e@ == failure,
            },
            final(self).wf(),
            follows(final(self)@, old(self)@),
            final(self)@.b == old(self)@.b,
    {
        proof {
            reveal(span_bounds);
        }
        if let Some(start) = self.peek_rational_start() {
            let lo: u32 = match parse_number(start.as_str(), u32::MAX as u64) {
                Some(lo) => lo as u32,
                None => {
                    return Err(self.plain_error(Problem::InvalidSpanStart));
                },
            };
            self.bump();
            return match self.peek_rational_end() {
                None => Err(self.plain_error(Problem::ExpectedSpanEnd)),
                Some(end) => match parse_number(end.as_str(), u32::MAX as u64) {
                    None => Err(self.plain_error(Problem::InvalidSpanEnd)),
                    Some(hi) => {
                        self.bump();
                        Ok((lo, hi as u32))
                    },
                },
            };
        }
        let word = self.parse_uint()?;
        let lo = self.u256_to_u32(word)?;
        self.expect(Punct::Dot)?;
        if let Some(end) = self.peek_rational_end() {
            return match parse_number(end.as_str(), u32::MAX as u64) {
                None => Err(self.plain_error(Problem::InvalidSpanEnd)),
                Some(hi) => {
                    self.bump();
                    Ok((lo, hi as u32))
                },
            };
        }
        self.expect(Punct::Dot)?;
        let end = self.parse_uint()?;
        let hi = self.u256_to_u32(end)?;
        Ok((lo, hi))
    }

    /// A number that has to fit in 32 bits.
    pub fn u256_to_u32(&self, value: U256) -> (r: Result<u32, ParseError>)
        requires
            self.wf(),
        ensures
            match at_most(
                self@,
                value,
                u32::MAX as nat,
                Problem::DoesNotFit { value, bits: 32 },
            ) {
                Ok((small, s)) => r == Ok::<u32, ParseError>(small as u32) && small <= u32::MAX,
                Err(failure) => r matches Err(e) && e@ == failure,
            },
    {
        let small = self.at_most(value, u32::MAX as u64, Problem::DoesNotFit { value, bits: 32 })?;
        Ok(small as u32)
    }

    /// A number that has to fit in 16 bits.
    pub fn u256_to_u16(&self, value: U256) -> (r: Result<u16, ParseError>)
        requires
            self.wf(),
        ensures
            match at_most(
                self@,
                value,
                u16::MAX as nat,
                Problem::DoesNotFit { value, bits: 16 },
            ) {
                Ok((small, s)) => r == Ok::<u16, ParseError>(small as u16) && small <= u16::MAX,
                Err(failure) => r matches Err(e) && e@ == failure,
            },
    {
        let small = self.at_most(value, u16::MAX as u64, Problem::DoesNotFit { value, bits: 16 })?;
        Ok(small as u16)
    }

    /// Parses what a storage access may touch.
    pub fn parse_storage_alias(&mut self) -> (r: Result<StorageAlias, ParseError>)
        requires
            old(self).wf(),
        ensures
            match storage_alias(old(self)@) {
                Ok((alias, s)) => r == Ok::<StorageAlias, ParseError>(alias) && final(self)@ == s,
                Err(failure) => r matches Err(e) && e@ == failure,
            },
            final(self).wf(),
            follows(final(self)@, old(self)@),
            kept(final(self)@.b, old(self)@.b),
    {
        proof {
            reveal(storage_alias);
        }
        let id = self.parse_ident()?;
        let name = id.as_str();
        self.expect(Punct::OpenParen)?;
        let alias = if text_is(name, "slot") {
            StorageAlias::Slot(self.parse_uint()?)
        } else if text_is(name, "symbolic") {
            StorageAlias::Symbolic(self.parse_value()?)
        } else if text_is(name, "offset") {
            let base = self.parse_value()?;
            self.expect(Punct::Comma)?;
            let offset = self.parse_uint()?;
            StorageAlias::Offset { base, offset }
        } else {
            return Err(self.error(Problem::UnknownStorageMetadata, id.clone()));
        };
        self.expect(Punct::CloseParen)?;
        Ok(alias)
    }

    /// The memory region of a name.
    pub fn parse_memory_region(&self, id: &String) -> (r: Result<MemoryRegion, ParseError>)
        requires
            self.wf(),
        ensures
            match region_named(id@) {
                Some(region) => r == Ok::<MemoryRegion, ParseError>(region),
                None => r matches Err(e) && e@ == (Failure {
                    problem: Problem::UnknownMemoryMetadata,
                    text: id@,
                    span: span(self@),
                }),
            },
    {
        let name = id.as_str();
        if text_is(name, "scratch") {
            Ok(MemoryRegion::Scratch)
        } else if text_is(name, "abi_return") {
            Ok(MemoryRegion::AbiReturn)
        } else if text_is(name, "heap") {
            Ok(MemoryRegion::Heap)
        } else if text_is(name, "internal_frame") {
            Ok(MemoryRegion::InternalFrame)
        } else if text_is(name, "unknown") {
            Ok(MemoryRegion::Unknown)
        } else {
            Err(self.error(Problem::UnknownMemoryMetadata, id.clone()))
        }
    }

    /// The effect of a name.
    pub fn parse_effect_kind(&self, id: &String) -> (r: Result<EffectKind, ParseError>)
        requires
            self.wf(),
        ensures
            match effect_named(id@) {
                Some(effect) => r == Ok::<EffectKind, ParseError>(effect),
                None => r matches Err(e) && e@ == (Failure {
                    problem: Problem::UnknownEffectMetadata,
                    text: id@,
                    span: span(self@),
                }),
            },
    {
        let name = id.as_str();
        if text_is(name, "pure") {
            Ok(EffectKind::Pure)
        } else if text_is(name, "memory_read") {
            Ok(EffectKind::MemoryRead)
        } else if text_is(name, "memory_write") {
            Ok(EffectKind::MemoryWrite)
        } else if text_is(name, "storage_read") {
            Ok(EffectKind::StorageRead)
        } else if text_is(name, "storage_write") {
            Ok(EffectKind::StorageWrite)
        } else if text_is(name, "transient_read") {
            Ok(EffectKind::TransientRead)
        } else if text_is(name, "transient_write") {
            Ok(EffectKind::TransientWrite)
        } else if text_is(name, "environment_read") {
            Ok(EffectKind::EnvironmentRead)
        } else if text_is(name, "external_call") {
            Ok(EffectKind::ExternalCall)
        } else if text_is(name, "internal_call") {
            Ok(EffectKind::InternalCall)
        } else if text_is(name, "create") {
            Ok(EffectKind::Create)
        } else if text_is(name, "log") {
            Ok(EffectKind::Log)
        } else {
            Err(self.error(Problem::UnknownEffectMetadata, id.clone()))
        }
    }

    /// Parses one entry of metadata whose key has been read.
    fn parse_metadata_item(&mut self, id: &String, known: InstructionMetadata) -> (r: Result<
        InstructionMetadata,
        ParseError,
    >)
        requires
            old(self).wf(),
        ensures
            match metadata_item(old(self)@, id@, known) {
                Ok((found, s)) => r == Ok::<InstructionMetadata, ParseError>(found)
                    && final(self)@ == s,
                Err(failure) => r matches Err(e) && e@ == failure,
            },
            final(self).wf(),
            follows(final(self)@, old(self)@),
            kept(final(self)@.b, old(self)@.b),
    {
        proof {
            reveal(metadata_item);
        }
        let mut m = known;
        let key = id.as_str();
        if text_is(key, "unchecked") {
            m.unchecked = true;
        } else if text_is(key, "deferred_alloc") {
            m.deferred_alloc = true;
        } else if text_is(key, "storage") {
            self.expect(Punct::Eq)?;
            m.storage_alias = Some(self.parse_storage_alias()?);
        } else if text_is(key, "memory") {
            self.expect(Punct::Eq)?;
            let name = self.parse_ident()?;
            m.memory_region = Some(self.parse_memory_region(name)?);
        } else if text_is(key, "effect") {
            self.expect(Punct::Eq)?;
            let name = self.parse_ident()?;
            m.effect = Some(self.parse_effect_kind(name)?);
        } else if text_is(key, "loop_depth") {
            self.expect(Punct::Eq)?;
            let word = self.parse_uint()?;
            m.loop_depth = self.u256_to_u16(word)?;
        } else if text_is(key, "hir") {
            self.expect(Punct::Eq)?;
            let word = self.parse_uint()?;
            let expr = self.u256_to_u32(word)?;
            m.hir_expr = Some(ExprId(expr as usize));
        } else if text_is(key, "span") {
            self.expect(Punct::Eq)?;
            let (lo, hi) = self.parse_span_bounds()?;
            m.source_span = Some(Span { lo, hi });
        } else {
            return Err(self.error(Problem::UnknownMetadataKey, id.clone()));
        }
        Ok(m)
    }

    /// Parses the entries of metadata and the parenthesis that closes them.
    fn parse_metadata_items(&mut self) -> (r: Result<InstructionMetadata, ParseError>)
        requires
            old(self).wf(),
        ensures
            match metadata_items(old(self)@, InstructionMetadata::empty()) {
                Ok((found, s)) => r == Ok::<InstructionMetadata, ParseError>(found)
                    && final(self)@ == s,
                Err(failure) => r matches Err(e) && e@ == failure,
            },
            final(self).wf(),
            follows(final(self)@, old(self)@),
            kept(final(self)@.b, old(self)@.b),
    {
        let mut m = InstructionMetadata::empty();
        loop
            invariant
                self.wf(),
                follows(self@, old(self)@),
                kept(self@.b, old(self)@.b),
                metadata_items(self@, m) == metadata_items(
                    old(self)@,
                    InstructionMetadata::empty(),
                ),
            decreases left(self@),
        {
            let key = self.parse_ident()?;
            m = self.parse_metadata_item(key, m)?;
            if self.eat(Punct::Comma) {
                continue;
            }
            self.expect(Punct::CloseParen)?;
            return Ok(m);
        }
    }

    /// Parses the metadata behind an instruction, if there is any.
    pub fn parse_metadata(&mut self) -> (r: Result<InstructionMetadata, ParseError>)
        requires
            old(self).wf(),
        ensures
            match metadata(old(self)@) {
                Ok((found, s)) => r == Ok::<InstructionMetadata, ParseError>(found)
                    && final(self)@ == s,
                Err(failure) => r matches Err(e) && e@ == failure,
            },
            final(self).wf(),
            follows(final(self)@, old(self)@),
            kept(final(self)@.b, old(self)@.b),
    {
        proof {
            reveal(metadata);
        }
        if !self.eat(Punct::Not) {
            return Ok(InstructionMetadata::empty());
        }
        self.expect_keyword("metadata")?;
        self.expect(Punct::OpenParen)?;
        if self.eat(Punct::CloseParen) {
            return Ok(InstructionMetadata::empty());
        }
        self.parse_metadata_items()
    }
}

} // verus!
