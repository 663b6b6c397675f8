//! What the parser makes of what is written.

use crate::mir::bits::lemma_word_exists;
use crate::mir::builder::valued;
use crate::mir::function::{has_value, next_value, StateMutability};
use crate::mir::inst::{InstructionMetadata, KindView, Op, TermView};
use crate::mir::meaning::{computed, truth_word};
use crate::mir::mnemonics::{kind_mnemonic, mnemonic, operand_count, result_type, term_mnemonic};
use crate::mir::parser::instruction::{
    abi_encode_inst, aggregate_inst, alignment_named, alloc_inst, arithmetic_inst, comma_values,
    data_inst, environment_inst, failure_named, initialization_named, inst_kind, internal_call_inst,
    is_aggregate_inst, is_object_inst, is_terminator, object_inst, operand_list, phi_edges,
    simple_inst, switch_cases, switch_terminator, terminator,
};
use crate::mir::parser::layout::{array_location, left, plain_abi_type, type_of};
use crate::mir::parser::module::attribute;
use crate::mir::parser::state::{at, bump, find, kind, lemma_find, State};
use crate::mir::parser::token::{Failure, Kind, LitKind, Punct};
use crate::mir::parser::value::{
    block_id, effect_named, labelled_value, metadata_item, region_named, value,
};
use crate::mir::types::{
    AbiTypeView, AllocationAlignment, AllocationFailure, AllocationInitialization, BlockId,
    EffectKind, ErrorGuaranteed, Immediate, MemoryObjectKind, MemoryRegion, MirType, SliceLocation,
    Span, Value, ValueId,
};
use crate::text::{after_prefix, number_of};
use crate::word::{literal_value, word_modulus, word_of};
use vstd::arithmetic::power2::pow2;
use vstd::prelude::*;

verus! {

/// A name that is read as an operation on operands is the one that this operation
/// is written with, and as many operands are read as are written.
pub proof fn law_names_are_mnemonics(name: Seq<char>)
    ensures
        simple_inst(name) matches Some(found) ==> mnemonic(found.0) == name && operand_count(
            found.0,
        ) == Some(found.1) && result_type(found.0) == found.2,
{
}

/// Whether an operation is an arithmetic one or a comparison.
spec fn is_arithmetic(op: Op) -> bool {
    match op {
        Op::Add | Op::Sub | Op::Mul | Op::Div | Op::SDiv | Op::Mod | Op::SMod | Op::Exp
        | Op::AddMod | Op::MulMod | Op::And | Op::Or | Op::Xor | Op::Not | Op::Clz | Op::Shl
        | Op::Shr | Op::Sar | Op::Byte | Op::SignExtend | Op::Lt | Op::Gt | Op::SLt | Op::SGt
        | Op::Eq | Op::IsZero => true,
        _ => false,
    }
}

/// Whether an operation reads or writes memory, storage, call data or code.
spec fn is_data(op: Op) -> bool {
    match op {
        Op::MLoad | Op::MStore | Op::MStore8 | Op::MemoryZero | Op::MSize | Op::MCopy
        | Op::SLoad | Op::SStore | Op::TLoad | Op::TStore | Op::Fmp | Op::SetFmp
        | Op::CalldataLoad | Op::CalldataSize | Op::CalldataCopy | Op::SlicePtr | Op::SliceLen
        | Op::CodeSize | Op::CodeCopy | Op::ExtCodeSize | Op::ExtCodeCopy | Op::ExtCodeHash
        | Op::ReturnDataSize | Op::ReturnDataCopy => true,
        _ => false,
    }
}

/// What the names differ in.
proof fn lemma_spelled()
    ensures
        "add"@.len() == 3 && "add"@[1] == 'd' && "add"@[2] == 'd',
        "sub"@.len() == 3 && "sub"@[1] == 'u' && "sub"@[2] == 'b',
        "mul"@.len() == 3 && "mul"@[1] == 'u' && "mul"@[2] == 'l',
        "div"@.len() == 3 && "div"@[1] == 'i' && "div"@[2] == 'v',
        "sdiv"@.len() == 4 && "sdiv"@[3] == 'v',
        "mod"@.len() == 3 && "mod"@[1] == 'o' && "mod"@[2] == 'd',
        "smod"@.len() == 4 && "smod"@[3] == 'd',
        "exp"@.len() == 3 && "exp"@[1] == 'x' && "exp"@[2] == 'p',
        "addmod"@.len() == 6 && "addmod"@[0] == 'a' && "addmod"@[1] == 'd',
        "mulmod"@.len() == 6 && "mulmod"@[0] == 'm' && "mulmod"@[1] == 'u',
        "and"@.len() == 3 && "and"@[1] == 'n' && "and"@[2] == 'd',
        "or"@.len() == 2 && "or"@[0] == 'o',
        "xor"@.len() == 3 && "xor"@[1] == 'o' && "xor"@[2] == 'r',
        "not"@.len() == 3 && "not"@[1] == 'o' && "not"@[2] == 't',
        "clz"@.len() == 3 && "clz"@[1] == 'l' && "clz"@[2] == 'z',
        "shl"@.len() == 3 && "shl"@[1] == 'h' && "shl"@[2] == 'l',
        "shr"@.len() == 3 && "shr"@[1] == 'h' && "shr"@[2] == 'r',
        "sar"@.len() == 3 && "sar"@[1] == 'a' && "sar"@[2] == 'r',
        "byte"@.len() == 4 && "byte"@[3] == 'e',
        "signextend"@.len() == 10 && "signextend"@[1] == 'i',
        "lt"@.len() == 2 && "lt"@[0] == 'l',
        "gt"@.len() == 2 && "gt"@[0] == 'g',
        "slt"@.len() == 3 && "slt"@[1] == 'l' && "slt"@[2] == 't',
        "sgt"@.len() == 3 && "sgt"@[1] == 'g' && "sgt"@[2] == 't',
        "eq"@.len() == 2 && "eq"@[0] == 'e',
        "iszero"@.len() == 6 && "iszero"@[0] == 'i' && "iszero"@[1] == 's',
        "mload"@.len() == 5 && "mload"@[0] == 'm' && "mload"@[1] == 'l',
        "mstore"@.len() == 6 && "mstore"@[0] == 'm' && "mstore"@[1] == 's',
        "mstore8"@.len() == 7 && "mstore8"@[0] == 'm' && "mstore8"@[2] == 't',
        "memory_zero"@.len() == 11 && "memory_zero"@[7] == 'z',
        "msize"@.len() == 5 && "msize"@[0] == 'm' && "msize"@[1] == 's',
        "mcopy"@.len() == 5 && "mcopy"@[0] == 'm' && "mcopy"@[1] == 'c',
        "sload"@.len() == 5 && "sload"@[0] == 's' && "sload"@[1] == 'l',
        "sstore"@.len() == 6 && "sstore"@[0] == 's' && "sstore"@[1] == 's',
        "tload"@.len() == 5 && "tload"@[0] == 't' && "tload"@[1] == 'l',
        "tstore"@.len() == 6 && "tstore"@[0] == 't' && "tstore"@[1] == 's',
        "fmp"@.len() == 3 && "fmp"@[1] == 'm' && "fmp"@[2] == 'p',
        "set_fmp"@.len() == 7 && "set_fmp"@[0] == 's' && "set_fmp"@[2] == 't',
        "calldataload"@.len() == 12 && "calldataload"@[10] == 'a',
        "calldatasize"@.len() == 12 && "calldatasize"@[10] == 'z',
        "calldatacopy"@.len() == 12 && "calldatacopy"@[10] == 'p',
        "slice_ptr"@.len() == 9 && "slice_ptr"@[7] == 't',
        "slice_len"@.len() == 9 && "slice_len"@[7] == 'e',
        "codesize"@.len() == 8 && "codesize"@[0] == 'c' && "codesize"@[6] == 'z',
        "codecopy"@.len() == 8 && "codecopy"@[0] == 'c' && "codecopy"@[6] == 'p',
        "extcodesize"@.len() == 11 && "extcodesize"@[7] == 's',
        "extcodecopy"@.len() == 11 && "extcodecopy"@[7] == 'c',
        "extcodehash"@.len() == 11 && "extcodehash"@[7] == 'h',
        "returndatasize"@.len() == 14 && "returndatasize"@[10] == 's',
        "returndatacopy"@.len() == 14 && "returndatacopy"@[10] == 'c',
        "caller"@.len() == 6 && "caller"@[0] == 'c' && "caller"@[1] == 'a',
        "callvalue"@.len() == 9 && "callvalue"@[7] == 'u',
        "origin"@.len() == 6 && "origin"@[0] == 'o' && "origin"@[1] == 'r',
        "gasprice"@.len() == 8 && "gasprice"@[0] == 'g' && "gasprice"@[6] == 'c',
        "coinbase"@.len() == 8 && "coinbase"@[0] == 'c' && "coinbase"@[6] == 's',
        "timestamp"@.len() == 9 && "timestamp"@[7] == 'm',
        "number"@.len() == 6 && "number"@[0] == 'n' && "number"@[1] == 'u',
        "prevrandao"@.len() == 10 && "prevrandao"@[1] == 'r',
        "gaslimit"@.len() == 8 && "gaslimit"@[0] == 'g' && "gaslimit"@[6] == 'i',
        "chainid"@.len() == 7 && "chainid"@[0] == 'c' && "chainid"@[2] == 'a',
        "address"@.len() == 7 && "address"@[0] == 'a' && "address"@[2] == 'd',
        "selfbalance"@.len() == 11 && "selfbalance"@[7] == 'a',
        "gas"@.len() == 3 && "gas"@[1] == 'a' && "gas"@[2] == 's',
        "basefee"@.len() == 7 && "basefee"@[0] == 'b' && "basefee"@[2] == 's',
        "blobbasefee"@.len() == 11 && "blobbasefee"@[7] == 'e',
        "blockhash"@.len() == 9 && "blockhash"@[7] == 's',
        "balance"@.len() == 7 && "balance"@[0] == 'b' && "balance"@[2] == 'l',
        "blobhash"@.len() == 8 && "blobhash"@[0] == 'b' && "blobhash"@[6] == 's',
        "keccak256"@.len() == 9 && "keccak256"@[7] == '5',
        "keccak256_bytes"@.len() == 15,
        "mapping_slot"@.len() == 12 && "mapping_slot"@[10] == 'o',
        "mapping_slot_memory"@.len() == 19,
        "mapping_slot_calldata"@.len() == 21,
        "call"@.len() == 4 && "call"@[3] == 'l',
        "callcode"@.len() == 8 && "callcode"@[0] == 'c' && "callcode"@[6] == 'd',
        "staticcall"@.len() == 10 && "staticcall"@[1] == 't',
        "delegatecall"@.len() == 12 && "delegatecall"@[10] == 'l',
        "create"@.len() == 6 && "create"@[0] == 'c' && "create"@[1] == 'r',
        "create2"@.len() == 7 && "create2"@[0] == 'c' && "create2"@[2] == 'e',
        "log0"@.len() == 4 && "log0"@[3] == '0',
        "log1"@.len() == 4 && "log1"@[3] == '1',
        "log2"@.len() == 4 && "log2"@[3] == '2',
        "log3"@.len() == 4 && "log3"@[3] == '3',
        "log4"@.len() == 4 && "log4"@[3] == '4',
        "select"@.len() == 6 && "select"@[0] == 's' && "select"@[1] == 'e',
{
    reveal_strlit("add");
    reveal_strlit("sub");
    reveal_strlit("mul");
    reveal_strlit("div");
    reveal_strlit("sdiv");
    reveal_strlit("mod");
    reveal_strlit("smod");
    reveal_strlit("exp");
    reveal_strlit("addmod");
    reveal_strlit("mulmod");
    reveal_strlit("and");
    reveal_strlit("or");
    reveal_strlit("xor");
    reveal_strlit("not");
    reveal_strlit("clz");
    reveal_strlit("shl");
    reveal_strlit("shr");
    reveal_strlit("sar");
    reveal_strlit("byte");
    reveal_strlit("signextend");
    reveal_strlit("lt");
    reveal_strlit("gt");
    reveal_strlit("slt");
    reveal_strlit("sgt");
    reveal_strlit("eq");
    reveal_strlit("iszero");
    reveal_strlit("mload");
    reveal_strlit("mstore");
    reveal_strlit("mstore8");
    reveal_strlit("memory_zero");
    reveal_strlit("msize");
    reveal_strlit("mcopy");
    reveal_strlit("sload");
    reveal_strlit("sstore");
    reveal_strlit("tload");
    reveal_strlit("tstore");
    reveal_strlit("fmp");
    reveal_strlit("set_fmp");
    reveal_strlit("calldataload");
    reveal_strlit("calldatasize");
    reveal_strlit("calldatacopy");
    reveal_strlit("slice_ptr");
    reveal_strlit("slice_len");
    reveal_strlit("codesize");
    reveal_strlit("codecopy");
    reveal_strlit("extcodesize");
    reveal_strlit("extcodecopy");
    reveal_strlit("extcodehash");
    reveal_strlit("returndatasize");
    reveal_strlit("returndatacopy");
    reveal_strlit("caller");
    reveal_strlit("callvalue");
    reveal_strlit("origin");
    reveal_strlit("gasprice");
    reveal_strlit("coinbase");
    reveal_strlit("timestamp");
    reveal_strlit("number");
    reveal_strlit("prevrandao");
    reveal_strlit("gaslimit");
    reveal_strlit("chainid");
    reveal_strlit("address");
    reveal_strlit("selfbalance");
    reveal_strlit("gas");
    reveal_strlit("basefee");
    reveal_strlit("blobbasefee");
    reveal_strlit("blockhash");
    reveal_strlit("balance");
    reveal_strlit("blobhash");
    reveal_strlit("keccak256");
    reveal_strlit("keccak256_bytes");
    reveal_strlit("mapping_slot");
    reveal_strlit("mapping_slot_memory");
    reveal_strlit("mapping_slot_calldata");
    reveal_strlit("call");
    reveal_strlit("callcode");
    reveal_strlit("staticcall");
    reveal_strlit("delegatecall");
    reveal_strlit("create");
    reveal_strlit("create2");
    reveal_strlit("log0");
    reveal_strlit("log1");
    reveal_strlit("log2");
    reveal_strlit("log3");
    reveal_strlit("log4");
    reveal_strlit("select");
}

/// Arithmetic operations and comparisons are read from their names.
proof fn lemma_arithmetic_names(op: Op)
    requires
        is_arithmetic(op),
    ensures
        arithmetic_inst(mnemonic(op)) == Some((op, operand_count(op)->0, result_type(op))),
{
    lemma_spelled();
}

/// No other operation has the name of an arithmetic one.
proof fn lemma_not_arithmetic_names(op: Op)
    requires
        operand_count(op) is Some,
        !is_arithmetic(op),
    ensures
        arithmetic_inst(mnemonic(op)) is None,
{
    lemma_spelled();
}

/// Operations on data are read from their names.
proof fn lemma_data_names(op: Op)
    requires
        is_data(op),
    ensures
        data_inst(mnemonic(op)) == Some((op, operand_count(op)->0, result_type(op))),
{
    lemma_spelled();
}

/// The other operations are read from their names.
proof fn lemma_environment_names(op: Op)
    requires
        operand_count(op) is Some,
        !is_arithmetic(op),
        !is_data(op),
    ensures
        data_inst(mnemonic(op)) is None,
        environment_inst(mnemonic(op)) == Some((op, operand_count(op)->0, result_type(op))),
{
    lemma_spelled();
}

/// Every operation that is written with operands only is read from its name.
pub proof fn law_mnemonics_are_read(op: Op)
    requires
        operand_count(op) is Some,
    ensures
        simple_inst(mnemonic(op)) == Some((op, operand_count(op)->0, result_type(op))),
{
    if is_arithmetic(op) {
        lemma_arithmetic_names(op);
    } else {
        lemma_not_arithmetic_names(op);
        if is_data(op) {
            lemma_data_names(op);
        } else {
            lemma_environment_names(op);
        }
    }
}

/// No two names are read as the same operation.
pub proof fn law_names_differ(first: Seq<char>, second: Seq<char>)
    requires
        simple_inst(first) is Some,
        simple_inst(second) is Some,
        first != second,
    ensures
        (simple_inst(first)->0).0 != (simple_inst(second)->0).0,
{
    law_names_are_mnemonics(first);
    law_names_are_mnemonics(second);
}

/// Instructions that are read with more than operands have their names.
proof fn lemma_plain_names(s: State, name: Seq<char>)
    ensures
        alloc_inst(s) matches Ok((typed, _)) ==> kind_mnemonic(typed.0) == "alloc"@,
        is_object_inst(name) ==> (object_inst(s, name) matches Ok((typed, _)) ==> kind_mnemonic(
            typed.0,
        ) == name),
        abi_encode_inst(s) matches Ok((typed, _)) ==> kind_mnemonic(typed.0) == "abi_encode"@,
        is_aggregate_inst(name) ==> (aggregate_inst(s, name) matches Ok((typed, _))
            ==> kind_mnemonic(typed.0) == name),
        internal_call_inst(s) matches Ok((typed, _)) ==> kind_mnemonic(typed.0)
            == "internal_call"@,
{
    assert(alloc_inst(s) matches Ok((typed, _)) ==> kind_mnemonic(typed.0) == "alloc"@) by {
        reveal(alloc_inst);
    }
    assert(is_object_inst(name) ==> (object_inst(s, name) matches Ok((typed, _))
        ==> kind_mnemonic(typed.0) == name)) by {
        reveal(object_inst);
    }
    assert(abi_encode_inst(s) matches Ok((typed, _)) ==> kind_mnemonic(typed.0)
        == "abi_encode"@) by {
        reveal(abi_encode_inst);
    }
    assert(is_aggregate_inst(name) ==> (aggregate_inst(s, name) matches Ok((typed, _))
        ==> kind_mnemonic(typed.0) == name)) by {
        reveal(aggregate_inst);
    }
    assert(internal_call_inst(s) matches Ok((typed, _)) ==> kind_mnemonic(typed.0)
        == "internal_call"@) by {
        reveal(internal_call_inst);
    }
}

/// A line that is read as an instruction starts with the name that this
/// instruction is written with.
pub proof fn law_instructions_have_their_names(s: State, name: Seq<char>, name_span: Span)
    ensures
        inst_kind(s, name, name_span) matches Ok((typed, _)) ==> kind_mnemonic(typed.0) == name,
{
    law_names_are_mnemonics(name);
    lemma_plain_names(s, name);
    reveal(inst_kind);
}

/// A line that is read as a terminator starts with the name that this terminator
/// is written with.
pub proof fn law_terminators_have_their_names(s: State, name: Seq<char>)
    requires
        is_terminator(name),
    ensures
        terminator(s, name) matches Ok((term, _)) ==> term_mnemonic(term) == name,
{
    reveal(terminator);
    reveal(switch_terminator);
}

/// Whether values are written one after the other, with commas between them.
pub open spec fn lists(s: State, values: Seq<ValueId>, end: State) -> bool
    decreases values.len(),
{
    if values.len() == 0 {
        s == end
    } else {
        match value(s) {
            Ok((first, behind)) => first == values[0] && (if values.len() == 1 {
                behind == end
            } else {
                at(behind, Punct::Comma) && lists(bump(behind), values.skip(1), end)
            }),
            Err(_) => false,
        }
    }
}

/// Whether values are written one after the other, each behind a comma.
pub open spec fn lists_behind(s: State, values: Seq<ValueId>, end: State) -> bool {
    if values.len() == 0 {
        s == end
    } else {
        at(s, Punct::Comma) && lists(bump(s), values, end)
    }
}

/// Values that are read are those that are written, in their order.
proof fn lemma_operands_listed(s: State, count: nat, found: Seq<ValueId>)
    requires
        found.len() <= count,
    ensures
        operand_list(s, count, found) matches Ok((all, end)) ==> {
            &&& all.len() == count
            &&& all.take(found.len() as int) == found
            &&& if found.len() == 0 {
                lists(s, all, end)
            } else {
                lists_behind(s, all.skip(found.len() as int), end)
            }
        },
    decreases count - found.len(),
{
    if found.len() < count {
        let start = if found.len() == 0 {
            s
        } else {
            bump(s)
        };
        if let Ok((operand, behind)) = value(start) {
            lemma_operands_listed(behind, count, found.push(operand));
            if let Ok((all, end)) = operand_list(s, count, found) {
                let rest = all.skip(found.len() as int);
                assert(all.take(found.len() as int + 1)[found.len() as int] == operand);
                assert(all.take(found.len() as int) =~= found) by {
                    assert forall|i: int| 0 <= i < found.len() implies all[i] == found[i] by {
                        assert(all.take(found.len() as int + 1)[i] == found.push(operand)[i]);
                    }
                }
                assert(rest.skip(1) =~= all.skip(found.len() as int + 1));
                assert(rest[0] == operand);
                if found.len() == 0 {
                    assert(rest =~= all);
                }
            }
        }
    } else {
        assert(found.take(found.len() as int) =~= found);
        assert(found.skip(found.len() as int) =~= Seq::<ValueId>::empty());
    }
}

/// Values behind commas that are read are those that are written, in their order.
proof fn lemma_values_listed(s: State, found: Seq<ValueId>)
    ensures
        comma_values(s, found) matches Ok((all, end)) ==> {
            &&& all.len() >= found.len()
            &&& all.take(found.len() as int) == found
            &&& lists_behind(s, all.skip(found.len() as int), end)
        },
    decreases left(s),
{
    if at(s, Punct::Comma) {
        if let Ok((operand, behind)) = value(bump(s)) {
            if left(behind) < left(s) {
                lemma_values_listed(behind, found.push(operand));
                if let Ok((all, end)) = comma_values(s, found) {
                    let rest = all.skip(found.len() as int);
                    assert(all.take(found.len() as int + 1)[found.len() as int] == operand);
                    assert(all.take(found.len() as int) =~= found) by {
                        assert forall|i: int| 0 <= i < found.len() implies all[i] == found[i] by {
                            assert(all.take(found.len() as int + 1)[i] == found.push(operand)[i]);
                        }
                    }
                    assert(rest.skip(1) =~= all.skip(found.len() as int + 1));
                    assert(rest[0] == operand);
                }
            }
        }
    } else {
        assert(found.take(found.len() as int) =~= found);
        assert(found.skip(found.len() as int) =~= Seq::<ValueId>::empty());
    }
}

/// An instruction that is written with operands only has the operands that are
/// written, in their order.
pub proof fn law_operands_keep_their_order(s: State, name: Seq<char>, name_span: Span)
    requires
        simple_inst(name) is Some,
    ensures
        inst_kind(s, name, name_span) matches Ok((typed, end)) ==> {
            &&& typed.0 matches KindView::Inst { op, args } && mnemonic(op) == name
                && operand_count(
                op,
            ) == Some(args.len()) && lists(s, args, end)
        },
{
    reveal(inst_kind);
    law_names_are_mnemonics(name);
    let found = simple_inst(name)->0;
    lemma_operands_listed(s, found.1, Seq::empty());
}

/// Whether a block is written.
pub open spec fn shows(s: State, block: BlockId, end: State) -> bool {
    block_id(s) == Ok::<(BlockId, State), Failure>((block, end))
}

/// Whether a value is written.
pub open spec fn shows_value(s: State, found: ValueId, end: State) -> bool {
    value(s) == Ok::<(ValueId, State), Failure>((found, end))
}

/// A jump goes to the block that is written. A conditional jump goes to the first
/// block that is written behind its condition where the condition holds, and to the
/// second where it does not. Values that are returned keep their order, and data is
/// written with its address first.
pub proof fn law_terminators_keep_their_order(s: State, name: Seq<char>)
    requires
        is_terminator(name),
    ensures
        terminator(s, name) matches Ok((term, end)) ==> match term {
            TermView::Jump(target) => shows(s, target, end),
            TermView::Branch { condition, then_block, else_block } => exists|
                s1: State,
                s2: State,
            | #[trigger] shows_value(s, condition, s1) && at(s1, Punct::Comma) && #[trigger]
                shows(bump(s1), then_block, s2) && at(s2, Punct::Comma) && shows(
                    bump(s2),
                    else_block,
                    end,
                ),
            TermView::Return(values) => lists(s, values, end),
            TermView::Revert { offset, size } => lists(s, seq![offset, size], end),
            TermView::ReturnData { offset, size } => lists(s, seq![offset, size], end),
            TermView::SelfDestruct { recipient } => shows_value(s, recipient, end),
            TermView::Stop | TermView::Invalid => s == end,
            _ => true,
        },
{
    assert(switch_terminator(s) matches Ok((term, _)) ==> term is Switch) by {
        reveal(switch_terminator);
    }
    reveal(terminator);
    lemma_operands_listed(s, 2, Seq::empty());
    if let Ok((term, end)) = terminator(s, name) {
        match term {
            TermView::Branch { condition, then_block, else_block } => {
                if name == "jumpi"@ {
                    let (c, s1) = value(s)->Ok_0;
                    let (t, s2) = block_id(bump(s1))->Ok_0;
                    assert(shows_value(s, condition, s1) && shows(bump(s1), then_block, s2)
                        && shows(bump(s2), else_block, end));
                }
            },
            TermView::Return(values) => {
                if name == "ret"@ && crate::mir::parser::value::value_starts(s) {
                    let (first, s1) = value(s)->Ok_0;
                    let one = seq![first];
                    lemma_values_listed(s1, one);
                    assert(values.take(1) == one);
                    assert(values[0] == values.take(1)[0]);
                    assert(values.skip(1).len() == values.len() - 1);
                }
            },
            TermView::Revert { offset, size } => {
                if let Ok((all, _)) = operand_list(s, 2, Seq::empty()) {
                    assert(all =~= seq![all[0], all[1]]);
                }
            },
            TermView::ReturnData { offset, size } => {
                if let Ok((all, _)) = operand_list(s, 2, Seq::empty()) {
                    assert(all =~= seq![all[0], all[1]]);
                }
            },
            _ => {},
        }
    }
}

/// Whether cases are written one after the other, each as a value, an arrow and a
/// block, with commas between them and a bracket behind the last.
pub open spec fn lists_cases(s: State, cases: Seq<(ValueId, BlockId)>, end: State) -> bool
    decreases cases.len(),
{
    cases.len() > 0 && match value(s) {
        Ok((first, s1)) => first == cases[0].0 && at(s1, Punct::FatArrow) && match block_id(
            bump(s1),
        ) {
            Ok((block, s2)) => block == cases[0].1 && (if cases.len() == 1 {
                at(s2, Punct::CloseBracket) && bump(s2) == end
            } else {
                at(s2, Punct::Comma) && lists_cases(bump(s2), cases.skip(1), end)
            }),
            Err(_) => false,
        },
        Err(_) => false,
    }
}

/// Cases that are read are those that are written, in their order.
proof fn lemma_cases_listed(s: State, found: Seq<(ValueId, BlockId)>)
    ensures
        switch_cases(s, found) matches Ok((all, end)) ==> {
            &&& all.len() > found.len()
            &&& all.take(found.len() as int) == found
            &&& lists_cases(s, all.skip(found.len() as int), end)
        },
    decreases left(s),
{
    if let Ok((all, end)) = switch_cases(s, found) {
        let (operand, s1) = value(s)->Ok_0;
        let (block, s2) = block_id(bump(s1))->Ok_0;
        let one = (operand, block);
        if at(s2, Punct::Comma) {
            lemma_cases_listed(bump(s2), found.push(one));
        } else {
            assert(all.take(found.len() as int + 1) =~= all);
        }
        assert(all.take(found.len() as int + 1) == found.push(one));
        assert(all.take(found.len() as int + 1)[found.len() as int] == one);
        assert(all.take(found.len() as int) =~= found) by {
            assert forall|i: int| 0 <= i < found.len() implies all[i] == found[i] by {
                assert(all.take(found.len() as int + 1)[i] == found.push(one)[i]);
            }
        }
        let rest = all.skip(found.len() as int);
        assert(rest[0] == one);
        assert(rest.skip(1) =~= all.skip(found.len() as int + 1));
    }
}

/// A switch is written with its value first, its default block behind `default`,
/// and its cases in brackets, in their order.
pub proof fn law_switches_keep_their_order(s: State)
    ensures
        terminator(s, "switch"@) matches Ok((term, end)) ==> {
            &&& term matches TermView::Switch { value: selector, default, cases } && exists|
                s1: State,
                s2: State,
            | #[trigger] shows_value(s, selector, s1) && at(s1, Punct::Comma) && kind(bump(s1))
                == Kind::Ident("default"@) && #[trigger] shows(bump(bump(s1)), default, s2) && at(
                s2,
                Punct::Comma,
            ) && at(bump(s2), Punct::OpenBracket) && (if cases.len() == 0 {
                at(bump(bump(s2)), Punct::CloseBracket) && bump(bump(bump(s2))) == end
            } else {
                lists_cases(bump(bump(s2)), cases, end)
            })
        },
{
    reveal(terminator);
    reveal(switch_terminator);
    assert("jump"@ != "switch"@ && "jumpi"@ != "switch"@) by {
        reveal_strlit("jump");
        reveal_strlit("jumpi");
        reveal_strlit("switch");
        assert("jump"@.len() == 4 && "jumpi"@.len() == 5 && "switch"@.len() == 6);
    }
    if let Ok((term, end)) = terminator(s, "switch"@) {
        let (selector, s1) = value(s)->Ok_0;
        let (default, s2) = block_id(bump(bump(s1)))->Ok_0;
        assert(shows_value(s, selector, s1) && shows(bump(bump(s1)), default, s2));
        let inside = bump(bump(s2));
        assert(term is Switch && term->value == selector && term->default == default);
        assert(at(s1, Punct::Comma) && kind(bump(s1)) == Kind::Ident("default"@));
        if !at(inside, Punct::CloseBracket) {
            lemma_cases_listed(inside, Seq::empty());
            let cases = term->cases;
            assert(cases.skip(0) =~= cases);
        }
    }
}

/// Whether edges are written one after the other, each in brackets as a block, a
/// colon and a value, with commas between them.
pub open spec fn lists_edges(s: State, edges: Seq<(BlockId, ValueId)>, end: State) -> bool
    decreases edges.len(),
{
    edges.len() > 0 && at(s, Punct::OpenBracket) && match block_id(bump(s)) {
        Ok((block, s1)) => block == edges[0].0 && at(s1, Punct::Colon) && match value(bump(s1)) {
            Ok((first, s2)) => first == edges[0].1 && at(s2, Punct::CloseBracket) && (if edges.len()
                == 1 {
                bump(s2) == end
            } else {
                at(bump(s2), Punct::Comma) && lists_edges(bump(bump(s2)), edges.skip(1), end)
            }),
            Err(_) => false,
        },
        Err(_) => false,
    }
}

/// Edges that are read are those that are written, in their order.
proof fn lemma_edges_listed(s: State, found: Seq<(BlockId, ValueId)>)
    ensures
        phi_edges(s, found) matches Ok((all, end)) ==> {
            &&& all.len() > found.len()
            &&& all.take(found.len() as int) == found
            &&& lists_edges(s, all.skip(found.len() as int), end)
        },
    decreases left(s),
{
    if let Ok((all, end)) = phi_edges(s, found) {
        let (block, s1) = block_id(bump(s))->Ok_0;
        let (operand, s2) = value(bump(s1))->Ok_0;
        let one = (block, operand);
        if at(bump(s2), Punct::Comma) {
            lemma_edges_listed(bump(bump(s2)), found.push(one));
        } else {
            assert(all.take(found.len() as int + 1) =~= all);
        }
        assert(all.take(found.len() as int + 1) == found.push(one));
        assert(all.take(found.len() as int + 1)[found.len() as int] == one);
        assert(all.take(found.len() as int) =~= found) by {
            assert forall|i: int| 0 <= i < found.len() implies all[i] == found[i] by {
                assert(all.take(found.len() as int + 1)[i] == found.push(one)[i]);
            }
        }
        let rest = all.skip(found.len() as int);
        assert(rest[0] == one);
        assert(rest.skip(1) =~= all.skip(found.len() as int + 1));
    }
}

/// A phi has the edges that are written, in their order.
pub proof fn law_edges_keep_their_order(s: State, name: Seq<char>, name_span: Span)
    ensures
        inst_kind(s, name, name_span) matches Ok((typed, end)) ==> (typed.0 matches KindView::Phi(
            edges,
        ) ==> lists_edges(s, edges, end)),
{
    lemma_plain_kinds(s, name);
    reveal(inst_kind);
    lemma_edges_listed(s, Seq::empty());
    if let Ok((typed, end)) = inst_kind(s, name, name_span) {
        if let KindView::Phi(edges) = typed.0 {
            assert(edges.skip(0) =~= edges);
        }
    }
}

/// Only a phi is read as one.
proof fn lemma_plain_kinds(s: State, name: Seq<char>)
    ensures
        alloc_inst(s) matches Ok((typed, _)) ==> typed.0 is Inst,
        object_inst(s, name) matches Ok((typed, _)) ==> typed.0 is Inst,
        abi_encode_inst(s) matches Ok((typed, _)) ==> typed.0 is Inst,
        aggregate_inst(s, name) matches Ok((typed, _)) ==> typed.0 is Inst,
        internal_call_inst(s) matches Ok((typed, _)) ==> typed.0 is Inst,
{
    assert(alloc_inst(s) matches Ok((typed, _)) ==> typed.0 is Inst) by {
        reveal(alloc_inst);
    }
    assert(object_inst(s, name) matches Ok((typed, _)) ==> typed.0 is Inst) by {
        reveal(object_inst);
    }
    assert(abi_encode_inst(s) matches Ok((typed, _)) ==> typed.0 is Inst) by {
        reveal(abi_encode_inst);
    }
    assert(aggregate_inst(s, name) matches Ok((typed, _)) ==> typed.0 is Inst) by {
        reveal(aggregate_inst);
    }
    assert(internal_call_inst(s) matches Ok((typed, _)) ==> typed.0 is Inst) by {
        reveal(internal_call_inst);
    }
}

/// The name of a type that is written without a number.
pub open spec fn plain_type_name(ty: MirType) -> Option<Seq<char>> {
    match ty {
        MirType::Bool => Some("bool"@),
        MirType::Address => Some("address"@),
        MirType::MemPtr => Some("memptr"@),
        MirType::StoragePtr => Some("storageptr"@),
        MirType::CalldataPtr => Some("calldataptr"@),
        MirType::Function => Some("function"@),
        MirType::Void => Some("void"@),
        MirType::Slice(SliceLocation::Memory) => Some("memoryslice"@),
        MirType::Slice(SliceLocation::Calldata) => Some("calldataslice"@),
        MirType::Slice(SliceLocation::Returndata) => Some("returndataslice"@),
        MirType::MemoryObject(MemoryObjectKind::Bytes) => Some("memorybytes"@),
        MirType::MemoryObject(MemoryObjectKind::DynamicArray) => Some("memoryarray"@),
        MirType::MemoryObject(MemoryObjectKind::FixedArray) => Some("memoryfixedarray"@),
        MirType::MemoryObject(MemoryObjectKind::Struct) => Some("memorystruct"@),
        _ => None,
    }
}

/// Whether a name is a prefix and a number.
pub open spec fn is_numbered(name: Seq<char>, prefix: Seq<char>, number: nat) -> bool {
    exists|digits: Seq<char>| name == prefix + digits && #[trigger] number_of(digits, number)
        == Some(number)
}

/// Whether a name is that of a type: `uN` and `iN` are integers of `N` bits, and
/// `bytesN` are `N` bytes.
pub open spec fn names_type(name: Seq<char>, ty: MirType) -> bool {
    match ty {
        MirType::UInt(bits) => is_numbered(name, "u"@, bits as nat),
        MirType::Int(bits) => is_numbered(name, "i"@, bits as nat),
        MirType::FixedBytes(bytes) => is_numbered(name, "bytes"@, bytes as nat),
        _ => plain_type_name(ty) == Some(name),
    }
}

/// A name behind a prefix is the prefix and what is behind it.
proof fn lemma_prefixed(name: Seq<char>, prefix: Seq<char>, max: nat)
    ensures
        after_prefix(name, prefix) matches Some(digits) ==> (number_of(digits, max) matches Some(
            number,
        ) ==> is_numbered(name, prefix, number)),
{
    if let Some(digits) = after_prefix(name, prefix) {
        if let Some(number) = number_of(digits, max) {
            assert(name =~= prefix + digits);
            assert(number_of(digits, number) == Some(number));
        }
    }
}

/// A type that is read is the one whose name is written.
pub proof fn law_types_have_their_names(s: State)
    ensures
        type_of(s) matches Ok((ty, end)) ==> (kind(s) matches Kind::Ident(name) && names_type(
            name,
            ty,
        )) && end == bump(s),
{
    reveal(type_of);
    if let Kind::Ident(name) = kind(s) {
        lemma_prefixed(name, "u"@, u16::MAX as nat);
        lemma_prefixed(name, "i"@, u16::MAX as nat);
        lemma_prefixed(name, "bytes"@, u8::MAX as nat);
    }
}

/// The name of a memory region.
pub open spec fn region_name(region: MemoryRegion) -> Seq<char> {
    match region {
        MemoryRegion::Scratch => "scratch"@,
        MemoryRegion::AbiReturn => "abi_return"@,
        MemoryRegion::Heap => "heap"@,
        MemoryRegion::InternalFrame => "internal_frame"@,
        MemoryRegion::Unknown => "unknown"@,
    }
}

/// The name of an effect.
pub open spec fn effect_name(effect: EffectKind) -> Seq<char> {
    match effect {
        EffectKind::Pure => "pure"@,
        EffectKind::MemoryRead => "memory_read"@,
        EffectKind::MemoryWrite => "memory_write"@,
        EffectKind::StorageRead => "storage_read"@,
        EffectKind::StorageWrite => "storage_write"@,
        EffectKind::TransientRead => "transient_read"@,
        EffectKind::TransientWrite => "transient_write"@,
        EffectKind::EnvironmentRead => "environment_read"@,
        EffectKind::ExternalCall => "external_call"@,
        EffectKind::InternalCall => "internal_call"@,
        EffectKind::Create => "create"@,
        EffectKind::Log => "log"@,
    }
}

/// Names of regions, effects and policies of allocations are read as what they
/// name.
pub proof fn law_other_names(name: Seq<char>)
    ensures
        region_named(name) matches Some(region) ==> region_name(region) == name,
        effect_named(name) matches Some(effect) ==> effect_name(effect) == name,
        alignment_named(name) matches Some(found) ==> name == match found {
            AllocationAlignment::Exact => "exact"@,
            AllocationAlignment::Word => "word"@,
        },
        initialization_named(name) matches Some(found) ==> name == match found {
            AllocationInitialization::Uninitialized => "uninitialized"@,
            AllocationInitialization::Zeroed => "zeroed"@,
        },
        failure_named(name) matches Some(found) ==> name == match found {
            AllocationFailure::Infallible => "infallible"@,
            AllocationFailure::Panic => "panic"@,
        },
        array_location(name) matches Some(found) ==> name == match found {
            SliceLocation::Memory => "memory_array"@,
            SliceLocation::Calldata => "calldata_array"@,
            SliceLocation::Returndata => "returndata_array"@,
        },
        plain_abi_type(name) matches Some(found) ==> match found {
            AbiTypeView::Word => name == "word"@,
            AbiTypeView::Bytes(SliceLocation::Memory) => name == "memory_bytes"@,
            AbiTypeView::Bytes(SliceLocation::Calldata) => name == "calldata_bytes"@,
            AbiTypeView::Bytes(SliceLocation::Returndata) => name == "returndata_bytes"@,
            _ => false,
        },
{
}

/// Every name of a region and of an effect is known.
pub proof fn law_other_names_are_known(region: MemoryRegion, effect: EffectKind)
    ensures
        region_named(region_name(region)) is Some,
        effect_named(effect_name(effect)) is Some,
{
}

/// A literal that is read as a value is a constant of the number that is written;
/// `true` and `false` are constants of their truth; `vN` is the value of its label,
/// the same one wherever the label is known.
pub proof fn law_values_are_what_is_written(s: State)
    ensures
        value(s) matches Ok((found, end)) ==> match kind(s) {
            Kind::Literal(LitKind::Integer, text) => (literal_value(text) matches Some(number)
                && end.b.func.values.len() == s.b.func.values.len() + 1 && found == next_value(
                s.b.func,
            ) && end.b.func.values.last() == Value::Immediate(
                Immediate::UInt256(word_of(number)),
            )),
            Kind::Ident(name) => {
                &&& name == "true"@ ==> end.b.func.values == s.b.func.values.push(
                    Value::Immediate(Immediate::Bool(true)),
                ) && found == next_value(s.b.func)
                &&& name == "false"@ ==> end.b.func.values == s.b.func.values.push(
                    Value::Immediate(Immediate::Bool(false)),
                ) && found == next_value(s.b.func)
                &&& name == "err"@ ==> end.b.func.values == s.b.func.values.push(
                    Value::Error(ErrorGuaranteed),
                ) && found == next_value(s.b.func)
            },
            _ => false,
        },
{
    reveal(value);
    reveal(valued);
    reveal_strlit("true");
    reveal_strlit("false");
    reveal_strlit("err");
    assert("true"@.len() == 4 && "false"@.len() == 5 && "err"@.len() == 3);
}

/// A label that is read twice is read as one value, and one that is read first is
/// read as a value that no other label has.
pub proof fn law_labels_mean_one_value(s: State, label: u32, other: u32)
    requires
        forall|i: int|
            0 <= i < s.values.len() ==> has_value(s.b.func, (#[trigger] s.values[i]).1),
        s.b.func.values.len() < usize::MAX,
    ensures
        ({
            let (found, end) = labelled_value(s, label);
            &&& labelled_value(end, label) == (found, end)
            &&& other != label && find(s.values, label) is None && find(s.values, other) is Some
                ==> labelled_value(end, other).0 != found
        }),
{
    let (found, end) = labelled_value(s, label);
    if find(s.values, label) is None {
        lemma_find_pushed(s.values, label, found, label);
        lemma_find_pushed(s.values, label, found, other);
        lemma_find(s.values, other);
        assert(end.values == s.values.push((label, found)));
    }
}

/// What is found among one label more.
proof fn lemma_find_pushed(labels: Seq<(u32, ValueId)>, label: u32, value: ValueId, other: u32)
    ensures
        find(labels.push((label, value)), other) == match find(labels, other) {
            Some(i) => Some(i),
            None => if label == other {
                Some(labels.len() as int)
            } else {
                None
            },
        },
{
    assert(labels.push((label, value)).drop_last() =~= labels);
}

/// A key of metadata sets what it names and nothing else.
pub proof fn law_metadata_keys(s: State, key: Seq<char>, m: InstructionMetadata)
    ensures
        metadata_item(s, key, m) matches Ok((after, _)) ==> {
            &&& after.unchecked == (m.unchecked || key == "unchecked"@)
            &&& after.deferred_alloc == (m.deferred_alloc || key == "deferred_alloc"@)
            &&& key != "storage"@ ==> after.storage_alias == m.storage_alias
            &&& key != "memory"@ ==> after.memory_region == m.memory_region
            &&& key != "effect"@ ==> after.effect == m.effect
            &&& key != "loop_depth"@ ==> after.loop_depth == m.loop_depth
            &&& key != "hir"@ ==> after.hir_expr == m.hir_expr
            &&& key != "span"@ ==> after.source_span == m.source_span
            &&& at(s, Punct::Eq) ==> {
                &&& key == "memory"@ ==> (kind(bump(s)) matches Kind::Ident(name)
                    && after.memory_region matches Some(region) && region_name(region) == name)
                &&& key == "effect"@ ==> (kind(bump(s)) matches Kind::Ident(name)
                    && after.effect matches Some(effect) && effect_name(effect) == name)
                &&& key == "loop_depth"@ ==> (kind(bump(s)) matches Kind::Literal(
                    LitKind::Integer,
                    text,
                ) && literal_value(text) == Some(after.loop_depth as nat))
                &&& key == "hir"@ ==> (kind(bump(s)) matches Kind::Literal(LitKind::Integer, text)
                    && after.hir_expr matches Some(expr) && literal_value(text) == Some(
                    expr.0 as nat,
                ))
                &&& key == "storage"@ ==> after.storage_alias is Some
                &&& key == "span"@ ==> after.source_span is Some
            }
        },
{
    reveal(metadata_item);
    reveal_strlit("unchecked");
    reveal_strlit("deferred_alloc");
    reveal_strlit("storage");
    reveal_strlit("memory");
    reveal_strlit("effect");
    reveal_strlit("loop_depth");
    reveal_strlit("hir");
    reveal_strlit("span");
    assert("unchecked"@.len() == 9 && "deferred_alloc"@.len() == 14 && "storage"@.len() == 7
        && "memory"@.len() == 6 && "memory"@[0] == 'm' && "effect"@.len() == 6 && "effect"@[0]
        == 'e' && "loop_depth"@.len() == 10 && "hir"@.len() == 3 && "span"@.len() == 4);
    if let Kind::Literal(LitKind::Integer, text) = kind(bump(s)) {
        if let Some(number) = literal_value(text) {
            lemma_word_exists(number);
        }
    }
}

/// An attribute of a function sets what it names and nothing else.
pub proof fn law_attributes(s: State, key: Seq<char>)
    ensures
        attribute(s, key) matches Ok((_, end)) ==> {
            let (before, after) = (s.b.func, end.b.func);
            &&& after.name == before.name && after.params == before.params && after.blocks
                == before.blocks && after.values == before.values && after.insts == before.insts
                && after.return_types == before.return_types
            &&& after.attributes.is_receive == (before.attributes.is_receive || key == "receive"@)
            &&& after.attributes.is_fallback == (before.attributes.is_fallback || key
                == "fallback"@)
            &&& after.attributes.is_constructor == before.attributes.is_constructor
            &&& after.attributes.visibility == before.attributes.visibility
            &&& after.attributes.state_mutability == if key == "payable"@ {
                StateMutability::Payable
            } else {
                before.attributes.state_mutability
            }
            &&& key != "selector"@ ==> after.selector == before.selector
            &&& key == "selector"@ ==> (kind(bump(s)) matches Kind::Literal(LitKind::Integer, text)
                && after.selector matches Some(selector) && literal_value(text) == Some(
                selector as nat,
            ))
            &&& key == "abi_returns"@ ==> after.abi_returns is Some
            &&& key != "abi_returns"@ ==> after.abi_returns == before.abi_returns
        },
{
    reveal(attribute);
    reveal_strlit("selector");
    reveal_strlit("abi_returns");
    reveal_strlit("receive");
    reveal_strlit("fallback");
    reveal_strlit("payable");
    assert("selector"@.len() == 8 && "selector"@[0] == 's' && "abi_returns"@.len() == 11
        && "receive"@.len() == 7 && "receive"@[0] == 'r' && "fallback"@.len() == 8 && "fallback"@[0]
        == 'f' && "payable"@.len() == 7 && "payable"@[0] == 'p');
    if let Kind::Literal(LitKind::Integer, text) = kind(bump(s)) {
        if let Some(number) = literal_value(text) {
            lemma_word_exists(number);
        }
    }
}

/// The names of arithmetic mean what they say, on words.
pub proof fn law_arithmetic_names(a: nat, b: nat, name: Seq<char>)
    requires
        a < word_modulus(),
        b < word_modulus(),
    ensures
        arithmetic_inst(name) matches Some(found) ==> {
            let r = computed(found.0, seq![a, b]);
            &&& name == "add"@ ==> r == Some((a + b) % word_modulus())
            &&& name == "sub"@ ==> (r matches Some(d) && (d + b) % word_modulus() == a)
            &&& name == "mul"@ ==> r == Some((a * b) % word_modulus())
            &&& name == "div"@ && b > 0 ==> r == Some(a / b)
            &&& name == "mod"@ && b > 0 ==> r == Some(a % b)
            &&& name == "lt"@ ==> r == Some(truth_word(a < b))
            &&& name == "gt"@ ==> r == Some(truth_word(a > b))
            &&& name == "eq"@ ==> r == Some(truth_word(a == b))
            &&& name == "iszero"@ ==> r == Some(truth_word(a == 0))
            &&& name == "shl"@ && a < 256 ==> r == Some((b * pow2(a)) % word_modulus())
            &&& name == "shr"@ && a < 256 ==> r == Some(b / pow2(a))
        },
{
    lemma_spelled();
    let m = word_modulus() as int;
    vstd::arithmetic::power2::lemma_pow2_pos(256);
    if a >= b {
        vstd::arithmetic::div_mod::lemma_small_mod((a - b) as nat, word_modulus());
        vstd::arithmetic::div_mod::lemma_small_mod(a, word_modulus());
    } else {
        vstd::arithmetic::div_mod::lemma_mod_add_multiples_vanish(a - b, m);
        vstd::arithmetic::div_mod::lemma_small_mod((a - b + m) as nat, word_modulus());
        vstd::arithmetic::div_mod::lemma_mod_add_multiples_vanish(a as int, m);
        vstd::arithmetic::div_mod::lemma_small_mod(a, word_modulus());
    }
}

} // verus!
