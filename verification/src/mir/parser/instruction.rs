//! Instructions and terminators.

use crate::mir::builder::{appended, ended, lemma_ended, BuilderView};
use crate::mir::function::{
    has_block, has_value, has_values, kind_fits, next_inst, next_value, term_fits, term_operands,
};
use crate::mir::inst::{
    encode_operands, inst, operands_of, successors_of, InstKind, InstView, Instruction, KindView,
    Op, TermView, Terminator,
};
use crate::mir::list::value_list;
use crate::mir::parser::layout::{abi_layout, left, memory_object_layout, storage_layout};
use crate::mir::parser::state::{
    at, at_most, bump, defining, expect, fail, follows, ident, kept, keyword, kind, kind_at,
    parser_state, span, state_wf, uint, FunctionRefTarget, Parser, State,
};
use crate::mir::parser::token::{Failure, Kind, ParseError, Problem, Punct};
use crate::mir::parser::value::{
    block_id, finished_ref, function_id, metadata, result_label, value, value_starts,
};
use crate::mir::types::{
    AllocationAlignment, AllocationFailure, AllocationInitialization, AllocationKind,
    AllocationSemantics, BlockId, MemoryObjectLayout, MirType, SliceLocation, Span, ValueId,
};
use crate::text::{after_prefix, number_of, parse_number, strip_prefix, text_is};
use vstd::prelude::*;

verus! {

broadcast use crate::mir::parser::state::group_kept;

/// Whether an instruction on placeholders is the one expected.
pub open spec fn is_template(
    found: Option<(InstKind, usize, Option<MirType>)>,
    expected: Option<(Op, nat, Option<MirType>)>,
) -> bool {
    match expected {
        Some((op, count, ty)) => found matches Some(t) && (t.0@ matches KindView::Inst {
            op: found_op,
            args,
        } && found_op == op && args.len() == count) && t.1 == count && t.2 == ty,
        None => found is None,
    }
}

/// The operation, number of operands and result type of an arithmetic
/// instruction or a comparison, by its name.
pub open spec fn arithmetic_inst(name: Seq<char>) -> Option<(Op, nat, Option<MirType>)> {
    if name == "add"@ {
        Some((Op::Add, 2, Some(MirType::uint256())))
    } else if name == "sub"@ {
        Some((Op::Sub, 2, Some(MirType::uint256())))
    } else if name == "mul"@ {
        Some((Op::Mul, 2, Some(MirType::uint256())))
    } else if name == "div"@ {
        Some((Op::Div, 2, Some(MirType::uint256())))
    } else if name == "sdiv"@ {
        Some((Op::SDiv, 2, Some(MirType::int256())))
    } else if name == "mod"@ {
        Some((Op::Mod, 2, Some(MirType::uint256())))
    } else if name == "smod"@ {
        Some((Op::SMod, 2, Some(MirType::int256())))
    } else if name == "exp"@ {
        Some((Op::Exp, 2, Some(MirType::uint256())))
    } else if name == "addmod"@ {
        Some((Op::AddMod, 3, Some(MirType::uint256())))
    } else if name == "mulmod"@ {
        Some((Op::MulMod, 3, Some(MirType::uint256())))
    } else if name == "and"@ {
        Some((Op::And, 2, Some(MirType::uint256())))
    } else if name == "or"@ {
        Some((Op::Or, 2, Some(MirType::uint256())))
    } else if name == "xor"@ {
        Some((Op::Xor, 2, Some(MirType::uint256())))
    } else if name == "not"@ {
        Some((Op::Not, 1, Some(MirType::uint256())))
    } else if name == "clz"@ {
        Some((Op::Clz, 1, Some(MirType::uint256())))
    } else if name == "shl"@ {
        Some((Op::Shl, 2, Some(MirType::uint256())))
    } else if name == "shr"@ {
        Some((Op::Shr, 2, Some(MirType::uint256())))
    } else if name == "sar"@ {
        Some((Op::Sar, 2, Some(MirType::int256())))
    } else if name == "byte"@ {
        Some((Op::Byte, 2, Some(MirType::uint256())))
    } else if name == "signextend"@ {
        Some((Op::SignExtend, 2, Some(MirType::int256())))
    } else if name == "lt"@ {
        Some((Op::Lt, 2, Some(MirType::Bool)))
    } else if name == "gt"@ {
        Some((Op::Gt, 2, Some(MirType::Bool)))
    } else if name == "slt"@ {
        Some((Op::SLt, 2, Some(MirType::Bool)))
    } else if name == "sgt"@ {
        Some((Op::SGt, 2, Some(MirType::Bool)))
    } else if name == "eq"@ {
        Some((Op::Eq, 2, Some(MirType::Bool)))
    } else if name == "iszero"@ {
        Some((Op::IsZero, 1, Some(MirType::Bool)))
    } else {
        None
    }
}

/// The instruction of a name on placeholder operands, where the name is that of
/// an arithmetic instruction or a comparison.
fn arithmetic_template(name: &str) -> (r: Option<(InstKind, usize, Option<MirType>)>)
    ensures
        is_template(r, arithmetic_inst(name@)),
{
    let z = ValueId(0);
    let found: (InstKind, usize, Option<MirType>) = if text_is(name, "add") {
        (InstKind::Add(z, z), 2, Some(MirType::uint256()))
    } else if text_is(name, "sub") {
        (InstKind::Sub(z, z), 2, Some(MirType::uint256()))
    } else if text_is(name, "mul") {
        (InstKind::Mul(z, z), 2, Some(MirType::uint256()))
    } else if text_is(name, "div") {
        (InstKind::Div(z, z), 2, Some(MirType::uint256()))
    } else if text_is(name, "sdiv") {
        (InstKind::SDiv(z, z), 2, Some(MirType::int256()))
    } else if text_is(name, "mod") {
        (InstKind::Mod(z, z), 2, Some(MirType::uint256()))
    } else if text_is(name, "smod") {
        (InstKind::SMod(z, z), 2, Some(MirType::int256()))
    } else if text_is(name, "exp") {
        (InstKind::Exp(z, z), 2, Some(MirType::uint256()))
    } else if text_is(name, "addmod") {
        (InstKind::AddMod(z, z, z), 3, Some(MirType::uint256()))
    } else if text_is(name, "mulmod") {
        (InstKind::MulMod(z, z, z), 3, Some(MirType::uint256()))
    } else if text_is(name, "and") {
        (InstKind::And(z, z), 2, Some(MirType::uint256()))
    } else if text_is(name, "or") {
        (InstKind::Or(z, z), 2, Some(MirType::uint256()))
    } else if text_is(name, "xor") {
        (InstKind::Xor(z, z), 2, Some(MirType::uint256()))
    } else if text_is(name, "not") {
        (InstKind::Not(z), 1, Some(MirType::uint256()))
    } else if text_is(name, "clz") {
        (InstKind::Clz(z), 1, Some(MirType::uint256()))
    } else if text_is(name, "shl") {
        (InstKind::Shl(z, z), 2, Some(MirType::uint256()))
    } else if text_is(name, "shr") {
        (InstKind::Shr(z, z), 2, Some(MirType::uint256()))
    } else if text_is(name, "sar") {
        (InstKind::Sar(z, z), 2, Some(MirType::int256()))
    } else if text_is(name, "byte") {
        (InstKind::Byte(z, z), 2, Some(MirType::uint256()))
    } else if text_is(name, "signextend") {
        (InstKind::SignExtend(z, z), 2, Some(MirType::int256()))
    } else if text_is(name, "lt") {
        (InstKind::Lt(z, z), 2, Some(MirType::Bool))
    } else if text_is(name, "gt") {
        (InstKind::Gt(z, z), 2, Some(MirType::Bool))
    } else if text_is(name, "slt") {
        (InstKind::SLt(z, z), 2, Some(MirType::Bool))
    } else if text_is(name, "sgt") {
        (InstKind::SGt(z, z), 2, Some(MirType::Bool))
    } else if text_is(name, "eq") {
        (InstKind::Eq(z, z), 2, Some(MirType::Bool))
    } else if text_is(name, "iszero") {
        (InstKind::IsZero(z), 1, Some(MirType::Bool))
    } else {
        return None;
    };
    Some(found)
}

/// The operation, number of operands and result type of an instruction that
/// reads or writes memory, storage, call data or code, by its name.
pub open spec fn data_inst(name: Seq<char>) -> Option<(Op, nat, Option<MirType>)> {
    if name == "mload"@ {
        Some((Op::MLoad, 1, Some(MirType::uint256())))
    } else if name == "mstore"@ {
        Some((Op::MStore, 2, None))
    } else if name == "mstore8"@ {
        Some((Op::MStore8, 2, None))
    } else if name == "memory_zero"@ {
        Some((Op::MemoryZero, 2, None))
    } else if name == "msize"@ {
        Some((Op::MSize, 0, Some(MirType::uint256())))
    } else if name == "mcopy"@ {
        Some((Op::MCopy, 3, None))
    } else if name == "sload"@ {
        Some((Op::SLoad, 1, Some(MirType::uint256())))
    } else if name == "sstore"@ {
        Some((Op::SStore, 2, None))
    } else if name == "tload"@ {
        Some((Op::TLoad, 1, Some(MirType::uint256())))
    } else if name == "tstore"@ {
        Some((Op::TStore, 2, None))
    } else if name == "fmp"@ {
        Some((Op::Fmp, 0, Some(MirType::MemPtr)))
    } else if name == "set_fmp"@ {
        Some((Op::SetFmp, 1, None))
    } else if name == "calldataload"@ {
        Some((Op::CalldataLoad, 1, Some(MirType::uint256())))
    } else if name == "calldatasize"@ {
        Some((Op::CalldataSize, 0, Some(MirType::uint256())))
    } else if name == "calldatacopy"@ {
        Some((Op::CalldataCopy, 3, None))
    } else if name == "slice_ptr"@ {
        Some((Op::SlicePtr, 1, Some(MirType::uint256())))
    } else if name == "slice_len"@ {
        Some((Op::SliceLen, 1, Some(MirType::uint256())))
    } else if name == "codesize"@ {
        Some((Op::CodeSize, 0, Some(MirType::uint256())))
    } else if name == "codecopy"@ {
        Some((Op::CodeCopy, 3, None))
    } else if name == "extcodesize"@ {
        Some((Op::ExtCodeSize, 1, Some(MirType::uint256())))
    } else if name == "extcodecopy"@ {
        Some((Op::ExtCodeCopy, 4, None))
    } else if name == "extcodehash"@ {
        Some((Op::ExtCodeHash, 1, Some(MirType::uint256())))
    } else if name == "returndatasize"@ {
        Some((Op::ReturnDataSize, 0, Some(MirType::uint256())))
    } else if name == "returndatacopy"@ {
        Some((Op::ReturnDataCopy, 3, None))
    } else {
        None
    }
}

/// The instruction of a name on placeholder operands, where the name is that of
/// an instruction that reads or writes memory, storage, call data or code.
fn data_template(name: &str) -> (r: Option<(InstKind, usize, Option<MirType>)>)
    ensures
        is_template(r, data_inst(name@)),
{
    let z = ValueId(0);
    let found: (InstKind, usize, Option<MirType>) = if text_is(name, "mload") {
        (InstKind::MLoad(z), 1, Some(MirType::uint256()))
    } else if text_is(name, "mstore") {
        (InstKind::MStore(z, z), 2, None)
    } else if text_is(name, "mstore8") {
        (InstKind::MStore8(z, z), 2, None)
    } else if text_is(name, "memory_zero") {
        (InstKind::MemoryZero(z, z), 2, None)
    } else if text_is(name, "msize") {
        (InstKind::MSize, 0, Some(MirType::uint256()))
    } else if text_is(name, "mcopy") {
        (InstKind::MCopy(z, z, z), 3, None)
    } else if text_is(name, "sload") {
        (InstKind::SLoad(z), 1, Some(MirType::uint256()))
    } else if text_is(name, "sstore") {
        (InstKind::SStore(z, z), 2, None)
    } else if text_is(name, "tload") {
        (InstKind::TLoad(z), 1, Some(MirType::uint256()))
    } else if text_is(name, "tstore") {
        (InstKind::TStore(z, z), 2, None)
    } else if text_is(name, "fmp") {
        (InstKind::Fmp, 0, Some(MirType::MemPtr))
    } else if text_is(name, "set_fmp") {
        (InstKind::SetFmp(z), 1, None)
    } else if text_is(name, "calldataload") {
        (InstKind::CalldataLoad(z), 1, Some(MirType::uint256()))
    } else if text_is(name, "calldatasize") {
        (InstKind::CalldataSize, 0, Some(MirType::uint256()))
    } else if text_is(name, "calldatacopy") {
        (InstKind::CalldataCopy(z, z, z), 3, None)
    } else if text_is(name, "slice_ptr") {
        (InstKind::SlicePtr(z), 1, Some(MirType::uint256()))
    } else if text_is(name, "slice_len") {
        (InstKind::SliceLen(z), 1, Some(MirType::uint256()))
    } else if text_is(name, "codesize") {
        (InstKind::CodeSize, 0, Some(MirType::uint256()))
    } else if text_is(name, "codecopy") {
        (InstKind::CodeCopy(z, z, z), 3, None)
    } else if text_is(name, "extcodesize") {
        (InstKind::ExtCodeSize(z), 1, Some(MirType::uint256()))
    } else if text_is(name, "extcodecopy") {
        (InstKind::ExtCodeCopy(z, z, z, z), 4, None)
    } else if text_is(name, "extcodehash") {
        (InstKind::ExtCodeHash(z), 1, Some(MirType::uint256()))
    } else if text_is(name, "returndatasize") {
        (InstKind::ReturnDataSize, 0, Some(MirType::uint256()))
    } else if text_is(name, "returndatacopy") {
        (InstKind::ReturnDataCopy(z, z, z), 3, None)
    } else {
        return None;
    };
    Some(found)
}

/// The operation, number of operands and result type of an instruction that
/// reads the environment, hashes, calls, logs or selects, by its name.
pub open spec fn environment_inst(name: Seq<char>) -> Option<(Op, nat, Option<MirType>)> {
    if name == "caller"@ {
        Some((Op::Caller, 0, Some(MirType::Address)))
    } else if name == "callvalue"@ {
        Some((Op::CallValue, 0, Some(MirType::uint256())))
    } else if name == "origin"@ {
        Some((Op::Origin, 0, Some(MirType::Address)))
    } else if name == "gasprice"@ {
        Some((Op::GasPrice, 0, Some(MirType::uint256())))
    } else if name == "coinbase"@ {
        Some((Op::Coinbase, 0, Some(MirType::Address)))
    } else if name == "timestamp"@ {
        Some((Op::Timestamp, 0, Some(MirType::uint256())))
    } else if name == "number"@ {
        Some((Op::BlockNumber, 0, Some(MirType::uint256())))
    } else if name == "prevrandao"@ {
        Some((Op::PrevRandao, 0, Some(MirType::uint256())))
    } else if name == "gaslimit"@ {
        Some((Op::GasLimit, 0, Some(MirType::uint256())))
    } else if name == "chainid"@ {
        Some((Op::ChainId, 0, Some(MirType::uint256())))
    } else if name == "address"@ {
        Some((Op::Address, 0, Some(MirType::Address)))
    } else if name == "selfbalance"@ {
        Some((Op::SelfBalance, 0, Some(MirType::uint256())))
    } else if name == "gas"@ {
        Some((Op::Gas, 0, Some(MirType::uint256())))
    } else if name == "basefee"@ {
        Some((Op::BaseFee, 0, Some(MirType::uint256())))
    } else if name == "blobbasefee"@ {
        Some((Op::BlobBaseFee, 0, Some(MirType::uint256())))
    } else if name == "blockhash"@ {
        Some((Op::BlockHash, 1, Some(MirType::FixedBytes(32))))
    } else if name == "balance"@ {
        Some((Op::Balance, 1, Some(MirType::uint256())))
    } else if name == "blobhash"@ {
        Some((Op::BlobHash, 1, Some(MirType::FixedBytes(32))))
    } else if name == "keccak256"@ {
        Some((Op::Keccak256, 2, Some(MirType::bytes32())))
    } else if name == "keccak256_bytes"@ {
        Some((Op::Keccak256Bytes, 1, Some(MirType::bytes32())))
    } else if name == "mapping_slot"@ {
        Some((Op::MappingSlot, 2, Some(MirType::bytes32())))
    } else if name == "mapping_slot_memory"@ {
        Some((Op::MappingSlotMemory, 2, Some(MirType::bytes32())))
    } else if name == "mapping_slot_calldata"@ {
        Some((Op::MappingSlotCalldata, 2, Some(MirType::bytes32())))
    } else if name == "call"@ {
        Some((Op::Call, 7, Some(MirType::uint256())))
    } else if name == "callcode"@ {
        Some((Op::CallCode, 7, Some(MirType::uint256())))
    } else if name == "staticcall"@ {
        Some((Op::StaticCall, 6, Some(MirType::uint256())))
    } else if name == "delegatecall"@ {
        Some((Op::DelegateCall, 6, Some(MirType::uint256())))
    } else if name == "create"@ {
        Some((Op::Create, 3, Some(MirType::Address)))
    } else if name == "create2"@ {
        Some((Op::Create2, 4, Some(MirType::Address)))
    } else if name == "log0"@ {
        Some((Op::Log0, 2, None))
    } else if name == "log1"@ {
        Some((Op::Log1, 3, None))
    } else if name == "log2"@ {
        Some((Op::Log2, 4, None))
    } else if name == "log3"@ {
        Some((Op::Log3, 5, None))
    } else if name == "log4"@ {
        Some((Op::Log4, 6, None))
    } else if name == "select"@ {
        Some((Op::Select, 3, Some(MirType::uint256())))
    } else {
        None
    }
}

/// The instruction of a name on placeholder operands, where the name is that of
/// an instruction that reads the environment, hashes, calls, logs or selects.
fn environment_template(name: &str) -> (r: Option<(InstKind, usize, Option<MirType>)>)
    ensures
        is_template(r, environment_inst(name@)),
{
    let z = ValueId(0);
    let found: (InstKind, usize, Option<MirType>) = if text_is(name, "caller") {
        (InstKind::Caller, 0, Some(MirType::Address))
    } else if text_is(name, "callvalue") {
        (InstKind::CallValue, 0, Some(MirType::uint256()))
    } else if text_is(name, "origin") {
        (InstKind::Origin, 0, Some(MirType::Address))
    } else if text_is(name, "gasprice") {
        (InstKind::GasPrice, 0, Some(MirType::uint256()))
    } else if text_is(name, "coinbase") {
        (InstKind::Coinbase, 0, Some(MirType::Address))
    } else if text_is(name, "timestamp") {
        (InstKind::Timestamp, 0, Some(MirType::uint256()))
    } else if text_is(name, "number") {
        (InstKind::BlockNumber, 0, Some(MirType::uint256()))
    } else if text_is(name, "prevrandao") {
        (InstKind::PrevRandao, 0, Some(MirType::uint256()))
    } else if text_is(name, "gaslimit") {
        (InstKind::GasLimit, 0, Some(MirType::uint256()))
    } else if text_is(name, "chainid") {
        (InstKind::ChainId, 0, Some(MirType::uint256()))
    } else if text_is(name, "address") {
        (InstKind::Address, 0, Some(MirType::Address))
    } else if text_is(name, "selfbalance") {
        (InstKind::SelfBalance, 0, Some(MirType::uint256()))
    } else if text_is(name, "gas") {
        (InstKind::Gas, 0, Some(MirType::uint256()))
    } else if text_is(name, "basefee") {
        (InstKind::BaseFee, 0, Some(MirType::uint256()))
    } else if text_is(name, "blobbasefee") {
        (InstKind::BlobBaseFee, 0, Some(MirType::uint256()))
    } else if text_is(name, "blockhash") {
        (InstKind::BlockHash(z), 1, Some(MirType::FixedBytes(32)))
    } else if text_is(name, "balance") {
        (InstKind::Balance(z), 1, Some(MirType::uint256()))
    } else if text_is(name, "blobhash") {
        (InstKind::BlobHash(z), 1, Some(MirType::FixedBytes(32)))
    } else if text_is(name, "keccak256") {
        (InstKind::Keccak256(z, z), 2, Some(MirType::bytes32()))
    } else if text_is(name, "keccak256_bytes") {
        (InstKind::Keccak256Bytes(z), 1, Some(MirType::bytes32()))
    } else if text_is(name, "mapping_slot") {
        (InstKind::MappingSlot(z, z), 2, Some(MirType::bytes32()))
    } else if text_is(name, "mapping_slot_memory") {
        (InstKind::MappingSlotMemory(z, z), 2, Some(MirType::bytes32()))
    } else if text_is(name, "mapping_slot_calldata") {
        (InstKind::MappingSlotCalldata(z, z), 2, Some(MirType::bytes32()))
    } else if text_is(name, "call") {
        (
            InstKind::Call {
                gas: z,
                addr: z,
                value: z,
                args_offset: z,
                args_size: z,
                ret_offset: z,
                ret_size: z,
            },
            7,
            Some(MirType::uint256()),
        )
    } else if text_is(name, "callcode") {
        (
            InstKind::CallCode {
                gas: z,
                addr: z,
                value: z,
                args_offset: z,
                args_size: z,
                ret_offset: z,
                ret_size: z,
            },
            7,
            Some(MirType::uint256()),
        )
    } else if text_is(name, "staticcall") {
        (
            InstKind::StaticCall {
                gas: z,
                addr: z,
                args_offset: z,
                args_size: z,
                ret_offset: z,
                ret_size: z,
            },
            6,
            Some(MirType::uint256()),
        )
    } else if text_is(name, "delegatecall") {
        (
            InstKind::DelegateCall {
                gas: z,
                addr: z,
                args_offset: z,
                args_size: z,
                ret_offset: z,
                ret_size: z,
            },
            6,
            Some(MirType::uint256()),
        )
    } else if text_is(name, "create") {
        (InstKind::Create(z, z, z), 3, Some(MirType::Address))
    } else if text_is(name, "create2") {
        (InstKind::Create2(z, z, z, z), 4, Some(MirType::Address))
    } else if text_is(name, "log0") {
        (InstKind::Log0(z, z), 2, None)
    } else if text_is(name, "log1") {
        (InstKind::Log1(z, z, z), 3, None)
    } else if text_is(name, "log2") {
        (InstKind::Log2(z, z, z, z), 4, None)
    } else if text_is(name, "log3") {
        (InstKind::Log3(z, z, z, z, z), 5, None)
    } else if text_is(name, "log4") {
        (InstKind::Log4(z, z, z, z, z, z), 6, None)
    } else if text_is(name, "select") {
        (InstKind::Select(z, z, z), 3, Some(MirType::uint256()))
    } else {
        return None;
    };
    Some(found)
}

/// The operation, number of operands and result type of an instruction that
/// takes operands only, by its name.
pub open spec fn simple_inst(name: Seq<char>) -> Option<(Op, nat, Option<MirType>)> {
    match arithmetic_inst(name) {
        Some(found) => Some(found),
        None => match data_inst(name) {
            Some(found) => Some(found),
            None => environment_inst(name),
        },
    }
}

/// Reads operands, with commas between them, until there are `count`.
pub open spec fn operand_list(s: State, count: nat, found: Seq<ValueId>) -> Result<
    (Seq<ValueId>, State),
    Failure,
>
    decreases count - found.len(),
{
    if found.len() >= count {
        Ok((found, s))
    } else {
        match (if found.len() == 0 {
                Ok(((), s))
            } else {
                expect(s, Punct::Comma)
        }) {
            Err(failure) => Err(failure),
            Ok((_mark, s)) => {
                match value(s) {
                    Err(failure) => Err(failure),
                    Ok((operand, s)) => {
                        operand_list(s, count, found.push(operand))
                    },
                }
            },
        }
    }
}

/// Reads values, each behind a comma, as long as there is a comma.
pub open spec fn comma_values(s: State, found: Seq<ValueId>) -> Result<
    (Seq<ValueId>, State),
    Failure,
>
    decreases left(s),
{
    if at(s, Punct::Comma) {
        let rest = left(s);
        let s = bump(s);
        match value(s) {
            Err(failure) => Err(failure),
            Ok((operand, s)) => {
                if left(s) < rest {
                    comma_values(s, found.push(operand))
                } else {
                    fail(s, Problem::Expected(Punct::Comma), Seq::empty())
                }
            },
        }
    } else {
        Ok((found, s))
    }
}

/// The alignment of a name.
pub open spec fn alignment_named(name: Seq<char>) -> Option<AllocationAlignment> {
    if name == "exact"@ {
        Some(AllocationAlignment::Exact)
    } else if name == "word"@ {
        Some(AllocationAlignment::Word)
    } else {
        None
    }
}

/// The initialization of a name.
pub open spec fn initialization_named(name: Seq<char>) -> Option<AllocationInitialization> {
    if name == "uninitialized"@ {
        Some(AllocationInitialization::Uninitialized)
    } else if name == "zeroed"@ {
        Some(AllocationInitialization::Zeroed)
    } else {
        None
    }
}

/// The failure of a name.
pub open spec fn failure_named(name: Seq<char>) -> Option<AllocationFailure> {
    if name == "infallible"@ {
        Some(AllocationFailure::Infallible)
    } else if name == "panic"@ {
        Some(AllocationFailure::Panic)
    } else {
        None
    }
}

/// What a table has for a name that is next, or a rejection behind it.
pub open spec fn looked_up<T>(
    s: State,
    name: Seq<char>,
    found: Option<T>,
    problem: Problem,
) -> Result<
    (T, State),
    Failure,
> {
    match found {
        Some(item) => Ok((item, s)),
        None => fail(s, problem, name),
    }
}

/// Reads the policy of an allocation.
#[verifier::opaque]
pub open spec fn allocation_semantics(s: State) -> Result<(AllocationSemantics, State), Failure> {
    match ident(s) {
        Err(failure) => Err(failure),
        Ok((name, s)) => {
            match looked_up(s, name, alignment_named(name), Problem::UnknownAlignment) {
                Err(failure) => Err(failure),
                Ok((alignment, s)) => {
                    match expect(s, Punct::Comma) {
                        Err(failure) => Err(failure),
                        Ok((_mark, s)) => {
                            match ident(s) {
                                Err(failure) => Err(failure),
                                Ok((name, s)) => {
                                    match looked_up(s, name, initialization_named(name), Problem::UnknownInitialization) {
                                        Err(failure) => Err(failure),
                                        Ok((initialization, s)) => {
                                            match expect(s, Punct::Comma) {
                                                Err(failure) => Err(failure),
                                                Ok((_mark, s)) => {
                                                    match ident(s) {
                                                        Err(failure) => Err(failure),
                                                        Ok((name, s)) => {
                                                            match looked_up(s, name, failure_named(name), Problem::UnknownFailure) {
                                                                Err(failure) => Err(failure),
                                                                Ok((failure, s)) => {
                                                                    Ok(
                                                                        (
                                                                            AllocationSemantics {
                                                                                alignment,
                                                                                initialization,
                                                                                failure,
                                                                            },
                                                                            s,
                                                                        ),
                                                                    )
                                                                },
                                                            }
                                                        },
                                                    }
                                                },
                                            }
                                        },
                                    }
                                },
                            }
                        },
                    }
                },
            }
        },
    }
}

/// Reads what an allocation reserves.
pub open spec fn allocation_kind(s: State) -> Result<(AllocationKind, State), Failure> {
    match ident(s) {
        Err(failure) => Err(failure),
        Ok((name, s)) => {
            if name == "raw"@ {
                Ok((AllocationKind::Raw, s))
            } else {
                match memory_object_layout(s, name) {
                    Err(failure) => Err(failure),
                    Ok((layout, s)) => {
                        Ok((AllocationKind::Object(layout), s))
                    },
                }
            }
        },
    }
}

/// An instruction with the type of its result.
pub type Typed = (KindView, Option<MirType>);

/// Reads an allocation.
#[verifier::opaque]
pub open spec fn alloc_inst(s: State) -> Result<(Typed, State), Failure> {
    match allocation_kind(s) {
        Err(failure) => Err(failure),
        Ok((kind, s)) => {
            match expect(s, Punct::Comma) {
                Err(failure) => Err(failure),
                Ok((_mark, s)) => {
                    match allocation_semantics(s) {
                        Err(failure) => Err(failure),
                        Ok((semantics, s)) => {
                            match expect(s, Punct::Comma) {
                                Err(failure) => Err(failure),
                                Ok((_mark, s)) => {
                                    match value(s) {
                                        Err(failure) => Err(failure),
                                        Ok((size, s)) => {
                                            Ok(
                                                (
                                                    (
                                                        inst(
                                                            Op::Alloc { kind, semantics },
                                                            seq![size],
                                                        ),
                                                        Some(kind.result_type()),
                                                    ),
                                                    s,
                                                ),
                                            )
                                        },
                                    }
                                },
                            }
                        },
                    }
                },
            }
        },
    }
}

/// Reads the layout of an object and the object.
#[verifier::opaque]
pub open spec fn object_head(s: State) -> Result<((MemoryObjectLayout, ValueId), State), Failure> {
    match ident(s) {
        Err(failure) => Err(failure),
        Ok((word, s)) => {
            match memory_object_layout(s, word) {
                Err(failure) => Err(failure),
                Ok((layout, s)) => {
                    match expect(s, Punct::Comma) {
                        Err(failure) => Err(failure),
                        Ok((_mark, s)) => {
                            match value(s) {
                                Err(failure) => Err(failure),
                                Ok((object, s)) => {
                                    Ok(((layout, object), s))
                                },
                            }
                        },
                    }
                },
            }
        },
    }
}

/// Reads a value behind a comma.
#[verifier::opaque]
pub open spec fn next_operand(s: State) -> Result<(ValueId, State), Failure> {
    match expect(s, Punct::Comma) {
        Err(failure) => Err(failure),
        Ok((_mark, s)) => {
            value(s)
        },
    }
}

/// Reads a field number behind a comma.
#[verifier::opaque]
pub open spec fn next_field(s: State) -> Result<(u64, State), Failure> {
    match expect(s, Punct::Comma) {
        Err(failure) => Err(failure),
        Ok((_mark, s)) => {
            match uint(s) {
                Err(failure) => Err(failure),
                Ok((number, s)) => {
                    match at_most(s, number, u64::MAX as nat, Problem::MemoryFieldIndex) {
                        Err(failure) => Err(failure),
                        Ok((field, s)) => {
                            Ok((field as u64, s))
                        },
                    }
                },
            }
        },
    }
}

/// Reads an access of the length, the data or a part of an object.
#[verifier::opaque]
pub open spec fn object_inst(s: State, name: Seq<char>) -> Result<(Typed, State), Failure> {
    match object_head(s) {
        Err(failure) => Err(failure),
        Ok((head, s)) => {
            let (layout, object) = head;
            if name == "memory_object_len"@ {
                Ok((
                        (
                            inst(Op::MemoryObjectLen { kind: layout.kind() }, seq![object]),
                            Some(MirType::uint256()),
                        ),
                        s,
                ))
            } else if name == "set_memory_object_len"@ {
                match next_operand(s) {
                    Err(failure) => Err(failure),
                    Ok((len, s)) => {
                        Ok(
                            (
                                (
                                    inst(
                                        Op::SetMemoryObjectLen { kind: layout.kind() },
                                        seq![object, len],
                                    ),
                                    None,
                                ),
                                s,
                            ),
                        )
                    },
                }
            } else if name == "memory_object_data"@ {
                Ok((
                        (
                            inst(Op::MemoryObjectData { kind: layout.kind() }, seq![object]),
                            Some(MirType::MemPtr),
                        ),
                        s,
                ))
            } else if name == "memory_object_field_addr"@ {
                match next_field(s) {
                    Err(failure) => Err(failure),
                    Ok((field, s)) => {
                        Ok((
                                (
                                    inst(Op::MemoryObjectFieldAddr { layout, field }, seq![object]),
                                    Some(MirType::MemPtr),
                                ),
                                s,
                        ))
                    },
                }
            } else {
                match next_operand(s) {
                    Err(failure) => Err(failure),
                    Ok((index, s)) => {
                        Ok((
                                (
                                    inst(
                                        Op::MemoryObjectElementAddr { layout },
                                        seq![object, index],
                                    ),
                                    Some(MirType::MemPtr),
                                ),
                                s,
                        ))
                    },
                }
            }
        },
    }
}

/// Whether a name is that of an access to an object.
pub open spec fn is_object_inst(name: Seq<char>) -> bool {
    name == "memory_object_len"@ || name == "set_memory_object_len"@ || name
        == "memory_object_data"@ || name == "memory_object_field_addr"@ || name
        == "memory_object_element_addr"@
}

/// Reads the operand groups of an ABI encoding.
pub open spec fn encode_groups(s: State, selector: Option<ValueId>) -> Result<
    ((Option<ValueId>, Seq<ValueId>), State),
    Failure,
>
    decreases left(s),
{
    if at(s, Punct::Comma) {
        let rest = left(s);
        let s = bump(s);
        match ident(s) {
            Err(failure) => Err(failure),
            Ok((group, s)) => {
                if group == "selector"@ && selector is None {
                    match value(s) {
                        Err(failure) => Err(failure),
                        Ok((operand, s)) => {
                            if left(s) < rest {
                                encode_groups(s, Some(operand))
                            } else {
                                fail(s, Problem::Expected(Punct::Comma), Seq::empty())
                            }
                        },
                    }
                } else if group == "args"@ {
                    match value(s) {
                        Err(failure) => Err(failure),
                        Ok((first, s)) => {
                            match comma_values(s, seq![first]) {
                                Err(failure) => Err(failure),
                                Ok((args, s)) => {
                                    Ok(((selector, args), s))
                                },
                            }
                        },
                    }
                } else {
                    fail(s, Problem::UnexpectedOperandGroup, group)
                }
            },
        }
    } else {
        Ok(((selector, Seq::empty()), s))
    }
}

/// Reads an ABI encoding.
#[verifier::opaque]
pub open spec fn abi_encode_inst(s: State) -> Result<(Typed, State), Failure> {
    match abi_layout(s) {
        Err(failure) => Err(failure),
        Ok((layout, s)) => {
            match encode_groups(s, None) {
                Err(failure) => Err(failure),
                Ok((groups, s)) => {
                    let (selector, args) = groups;
                    if args.len() != layout.len() {
                        fail(
                            s,
                            Problem::AbiEncodeArity {
                                types: layout.len() as usize,
                                args: args.len() as usize,
                            },
                            Seq::empty(),
                        )
                    } else {
                        Ok((
                                (
                                    inst(
                                        Op::AbiEncode { selector: selector is Some, layout },
                                        encode_operands(selector, args),
                                    ),
                                    Some(MirType::Slice(SliceLocation::Memory)),
                                ),
                                s,
                        ))
                    }
                },
            }
        },
    }
}

/// Reads a copy or clearing of an aggregate.
#[verifier::opaque]
pub open spec fn aggregate_inst(s: State, name: Seq<char>) -> Result<(Typed, State), Failure> {
    match storage_layout(s) {
        Err(failure) => Err(failure),
        Ok((layout, s)) => {
            match expect(s, Punct::Comma) {
                Err(failure) => Err(failure),
                Ok((_mark, s)) => {
                    match value(s) {
                        Err(failure) => Err(failure),
                        Ok((first, s)) => {
                            if name == "clear_storage"@ {
                                Ok(((inst(Op::ClearStorage { layout }, seq![first]), None), s))
                            } else {
                                match expect(s, Punct::Comma) {
                                    Err(failure) => Err(failure),
                                    Ok((_mark, s)) => {
                                        match value(s) {
                                            Err(failure) => Err(failure),
                                            Ok((second, s)) => {
                                                if name == "storage_to_memory"@ {
                                                    Ok(
                                                        (
                                                            (
                                                                inst(
                                                                    Op::StorageToMemory { layout },
                                                                    seq![first, second],
                                                                ),
                                                                None,
                                                            ),
                                                            s,
                                                        ),
                                                    )
                                                } else {
                                                    Ok(
                                                        (
                                                            (
                                                                inst(
                                                                    Op::MemoryToStorage { layout },
                                                                    seq![first, second],
                                                                ),
                                                                None,
                                                            ),
                                                            s,
                                                        ),
                                                    )
                                                }
                                            },
                                        }
                                    },
                                }
                            }
                        },
                    }
                },
            }
        },
    }
}

/// Whether a name is that of a copy or clearing of an aggregate.
pub open spec fn is_aggregate_inst(name: Seq<char>) -> bool {
    name == "clear_storage"@ || name == "storage_to_memory"@ || name == "memory_to_storage"@
}

/// Where the slices that an instruction makes are, by its name.
pub open spec fn slice_location(name: Seq<char>) -> Option<SliceLocation> {
    if name == "make_memory_slice"@ {
        Some(SliceLocation::Memory)
    } else if name == "make_calldata_slice"@ {
        Some(SliceLocation::Calldata)
    } else if name == "make_returndata_slice"@ {
        Some(SliceLocation::Returndata)
    } else {
        None
    }
}

/// Reads a call of a function of this module.
#[verifier::opaque]
pub open spec fn internal_call_inst(s: State) -> Result<(Typed, State), Failure> {
    match function_id(s) {
        Err(failure) => Err(failure),
        Ok((function, s)) => {
            match expect(s, Punct::Comma) {
                Err(failure) => Err(failure),
                Ok((_mark, s)) => {
                    match uint(s) {
                        Err(failure) => Err(failure),
                        Ok((number, s)) => {
                            match at_most(s, number, u32::MAX as nat, Problem::DoesNotFit { value: number, bits: 32 }) {
                                Err(failure) => Err(failure),
                                Ok((count, s)) => {
                                    match comma_values(s, Seq::empty()) {
                                        Err(failure) => Err(failure),
                                        Ok((args, s)) => {
                                            Ok((
                                                    (
                                                        inst(
                                                            Op::InternalCall {
                                                                function,
                                                                return_count: count as u32,
                                                            },
                                                            args,
                                                        ),
                                                        if count > 0 {
                                                            Some(MirType::uint256())
                                                        } else {
                                                            None
                                                        },
                                                    ),
                                                    s,
                                            ))
                                        },
                                    }
                                },
                            }
                        },
                    }
                },
            }
        },
    }
}

/// Reads the further edges of a phi, after those given.
pub open spec fn phi_edges(s: State, edges: Seq<(BlockId, ValueId)>) -> Result<
    (Seq<(BlockId, ValueId)>, State),
    Failure,
>
    decreases left(s),
{
    let rest = left(s);
    match expect(s, Punct::OpenBracket) {
        Err(failure) => Err(failure),
        Ok((_mark, s)) => {
            match block_id(s) {
                Err(failure) => Err(failure),
                Ok((block, s)) => {
                    match expect(s, Punct::Colon) {
                        Err(failure) => Err(failure),
                        Ok((_mark, s)) => {
                            match value(s) {
                                Err(failure) => Err(failure),
                                Ok((operand, s)) => {
                                    match expect(s, Punct::CloseBracket) {
                                        Err(failure) => Err(failure),
                                        Ok((_mark, s)) => {
                                            if at(s, Punct::Comma) {
                                                let s = bump(s);
                                                if left(s) < rest {
                                                    phi_edges(s, edges.push((block, operand)))
                                                } else {
                                                    fail(
                                                        s,
                                                        Problem::Expected(Punct::Comma),
                                                        Seq::empty(),
                                                    )
                                                }
                                            } else {
                                                Ok((edges.push((block, operand)), s))
                                            }
                                        },
                                    }
                                },
                            }
                        },
                    }
                },
            }
        },
    }
}

/// Reads an instruction whose name has been read.
#[verifier::opaque]
pub open spec fn inst_kind(s: State, name: Seq<char>, name_span: Span) -> Result<
    (Typed, State),
    Failure,
> {
    if let Some(simple) = simple_inst(name) {
        match operand_list(s, simple.1, Seq::empty()) {
            Err(failure) => Err(failure),
            Ok((operands, s)) => {
                Ok(((inst(simple.0, operands), simple.2), s))
            },
        }
    } else if name == "alloc"@ {
        alloc_inst(s)
    } else if is_object_inst(name) {
        object_inst(s, name)
    } else if name == "abi_encode"@ {
        abi_encode_inst(s)
    } else if is_aggregate_inst(name) {
        aggregate_inst(s, name)
    } else if let Some(location) = slice_location(name) {
        match operand_list(s, 2, Seq::empty()) {
            Err(failure) => Err(failure),
            Ok((operands, s)) => {
                Ok(
                    (
                        (
                            inst(Op::MakeSlice { location }, operands),
                            Some(MirType::Slice(location)),
                        ),
                        s,
                    ),
                )
            },
        }
    } else if name == "loadimmutable"@ {
        match uint(s) {
            Err(failure) => Err(failure),
            Ok((number, s)) => {
                match at_most(s, number, u32::MAX as nat, Problem::DoesNotFit { value: number, bits: 32 }) {
                    Err(failure) => Err(failure),
                    Ok((offset, s)) => {
                        Ok((
                                (
                                    inst(Op::LoadImmutable { offset: offset as u32 }, seq![]),
                                    Some(MirType::uint256()),
                                ),
                                s,
                        ))
                    },
                }
            },
        }
    } else if name == "internal_call"@ {
        internal_call_inst(s)
    } else if name == "internal_frame_addr"@ {
        match uint(s) {
            Err(failure) => Err(failure),
            Ok((number, s)) => {
                match at_most(s, number, u64::MAX as nat, Problem::DoesNotFit { value: number, bits: 64 }) {
                    Err(failure) => Err(failure),
                    Ok((offset, s)) => {
                        Ok((
                                (
                                    inst(Op::InternalFrameAddr { offset: offset as u64 }, seq![]),
                                    Some(MirType::MemPtr),
                                ),
                                s,
                        ))
                    },
                }
            },
        }
    } else if name == "phi"@ {
        match phi_edges(s, Seq::empty()) {
            Err(failure) => Err(failure),
            Ok((edges, s)) => {
                Ok(((KindView::Phi(edges), Some(MirType::uint256())), s))
            },
        }
    } else {
        Err(Failure { problem: Problem::UnknownInstruction, text: name, span: name_span })
    }
}

/// Reads the further cases of a switch, after those given.
pub open spec fn switch_cases(s: State, cases: Seq<(ValueId, BlockId)>) -> Result<
    (Seq<(ValueId, BlockId)>, State),
    Failure,
>
    decreases left(s),
{
    let rest = left(s);
    match value(s) {
        Err(failure) => Err(failure),
        Ok((operand, s)) => {
            match expect(s, Punct::FatArrow) {
                Err(failure) => Err(failure),
                Ok((_mark, s)) => {
                    match block_id(s) {
                        Err(failure) => Err(failure),
                        Ok((block, s)) => {
                            if at(s, Punct::Comma) {
                                let s = bump(s);
                                if left(s) < rest {
                                    switch_cases(s, cases.push((operand, block)))
                                } else {
                                    fail(s, Problem::Expected(Punct::Comma), Seq::empty())
                                }
                            } else {
                                match expect(s, Punct::CloseBracket) {
                                    Err(failure) => Err(failure),
                                    Ok((_mark, s)) => {
                                        Ok((cases.push((operand, block)), s))
                                    },
                                }
                            }
                        },
                    }
                },
            }
        },
    }
}

/// Whether a name is that of a terminator.
pub open spec fn is_terminator(name: Seq<char>) -> bool {
    name == "jump"@ || name == "jumpi"@ || name == "switch"@ || name == "ret"@ || name == "revert"@
        || name == "returndata"@ || name == "stop"@ || name == "selfdestruct"@ || name
        == "invalid"@ || name == "tail_call"@
}

/// Reads a switch whose name has been read.
#[verifier::opaque]
pub open spec fn switch_terminator(s: State) -> Result<(TermView, State), Failure> {
    match value(s) {
        Err(failure) => Err(failure),
        Ok((operand, s)) => {
            match expect(s, Punct::Comma) {
                Err(failure) => Err(failure),
                Ok((_mark, s)) => {
                    match keyword(s, "default"@) {
                        Err(failure) => Err(failure),
                        Ok((_word, s)) => {
                            match block_id(s) {
                                Err(failure) => Err(failure),
                                Ok((default, s)) => {
                                    match expect(s, Punct::Comma) {
                                        Err(failure) => Err(failure),
                                        Ok((_mark, s)) => {
                                            match expect(s, Punct::OpenBracket) {
                                                Err(failure) => Err(failure),
                                                Ok((_mark, s)) => {
                                                    if at(s, Punct::CloseBracket) {
                                                        Ok(
                                                            (
                                                                TermView::Switch {
                                                                    value: operand,
                                                                    default,
                                                                    cases: Seq::empty(),
                                                                },
                                                                bump(s),
                                                            ),
                                                        )
                                                    } else {
                                                        match switch_cases(s, Seq::empty()) {
                                                            Err(failure) => Err(failure),
                                                            Ok((cases, s)) => {
                                                                Ok(
                                                                    (
                                                                        TermView::Switch {
                                                                            value: operand,
                                                                            default,
                                                                            cases,
                                                                        },
                                                                        s,
                                                                    ),
                                                                )
                                                            },
                                                        }
                                                    }
                                                },
                                            }
                                        },
                                    }
                                },
                            }
                        },
                    }
                },
            }
        },
    }
}

/// Reads a terminator whose name has been read.
#[verifier::opaque]
pub open spec fn terminator(s: State, name: Seq<char>) -> Result<(TermView, State), Failure> {
    if name == "jump"@ {
        match block_id(s) {
            Err(failure) => Err(failure),
            Ok((target, s)) => {
                Ok((TermView::Jump(target), s))
            },
        }
    } else if name == "jumpi"@ {
        match value(s) {
            Err(failure) => Err(failure),
            Ok((condition, s)) => {
                match expect(s, Punct::Comma) {
                    Err(failure) => Err(failure),
                    Ok((_mark, s)) => {
                        match block_id(s) {
                            Err(failure) => Err(failure),
                            Ok((then_block, s)) => {
                                match expect(s, Punct::Comma) {
                                    Err(failure) => Err(failure),
                                    Ok((_mark, s)) => {
                                        match block_id(s) {
                                            Err(failure) => Err(failure),
                                            Ok((else_block, s)) => {
                                                Ok(
                                                    (
                                                        TermView::Branch {
                                                            condition,
                                                            then_block,
                                                            else_block,
                                                        },
                                                        s,
                                                    ),
                                                )
                                            },
                                        }
                                    },
                                }
                            },
                        }
                    },
                }
            },
        }
    } else if name == "switch"@ {
        switch_terminator(s)
    } else if name == "ret"@ {
        if value_starts(s) {
            match value(s) {
                Err(failure) => Err(failure),
                Ok((first, s)) => {
                    match comma_values(s, seq![first]) {
                        Err(failure) => Err(failure),
                        Ok((values, s)) => {
                            Ok((TermView::Return(values), s))
                        },
                    }
                },
            }
        } else {
            Ok((TermView::Return(Seq::empty()), s))
        }
    } else if name == "revert"@ {
        match operand_list(s, 2, Seq::empty()) {
            Err(failure) => Err(failure),
            Ok((operands, s)) => {
                Ok((TermView::Revert { offset: operands[0], size: operands[1] }, s))
            },
        }
    } else if name == "returndata"@ {
        match operand_list(s, 2, Seq::empty()) {
            Err(failure) => Err(failure),
            Ok((operands, s)) => {
                Ok((TermView::ReturnData { offset: operands[0], size: operands[1] }, s))
            },
        }
    } else if name == "stop"@ {
        Ok((TermView::Stop, s))
    } else if name == "selfdestruct"@ {
        match value(s) {
            Err(failure) => Err(failure),
            Ok((recipient, s)) => {
                Ok((TermView::SelfDestruct { recipient }, s))
            },
        }
    } else if name == "invalid"@ {
        Ok((TermView::Invalid, s))
    } else {
        match function_id(s) {
            Err(failure) => Err(failure),
            Ok((function, s)) => {
                match comma_values(s, Seq::empty()) {
                    Err(failure) => Err(failure),
                    Ok((args, s)) => {
                        Ok((TermView::TailCall { function, args }, s))
                    },
                }
            },
        }
    }
}

/// The label in front of an instruction, `vN =`, and the state behind it.
pub open spec fn result_prefix(s: State) -> (Option<u32>, State) {
    match kind(s) {
        Kind::Ident(name) => match after_prefix(name, "v"@) {
            Some(rest) => match number_of(rest, u32::MAX as nat) {
                Some(label) => if kind_at(s, 1) == Kind::Punct(Punct::Eq) {
                    (Some(label as u32), bump(bump(s)))
                } else {
                    (None, s)
                },
                None => (None, s),
            },
            None => (None, s),
        },
        _ => (None, s),
    }
}

/// The state after an instruction has been added: it defines a value mentioned
/// before, or a new one that its label now names.
pub open spec fn added(
    s: State,
    instruction: InstView,
    label: Option<u32>,
    existing: Option<ValueId>,
) -> State {
    let id = next_inst(s.b.func);
    let fresh = next_value(s.b.func);
    let func = match existing {
        Some(result) => defining(s.b.func, s.b.block, instruction, result),
        None => appended(s.b.func, s.b.block, instruction),
    };
    let s = finished_ref(
        State { b: BuilderView { func, block: s.b.block }, ..s },
        FunctionRefTarget::Instruction(id),
    );
    match (label, existing) {
        (Some(label), None) => State { values: s.values.push((label, fresh)), ..s },
        _ => s,
    }
}

/// The value mentioned before that an optional label defines.
pub open spec fn optional_result(s: State, label: Option<u32>) -> Result<
    (Option<ValueId>, State),
    Failure,
> {
    match label {
        Some(label) => result_label(s, label),
        None => Ok((None, s)),
    }
}

/// Reads an instruction or a terminator.
#[verifier::opaque]
pub open spec fn line(s: State) -> Result<((), State), Failure> {
    let (label, s) = result_prefix(s);
    let here = span(s);
    match ident(s) {
        Err(failure) => Err(failure),
        Ok((name, s)) => {
            if is_terminator(name) {
                match terminator(s, name) {
                    Err(failure) => Err(failure),
                    Ok((term, s)) => {
                        let s = State { b: ended(s.b, term), ..s };
                        Ok((
                                (),
                                if term is TailCall {
                                    finished_ref(s, FunctionRefTarget::Terminator(s.b.block))
                                } else {
                                    s
                                },
                        ))
                    },
                }
            } else {
                match inst_kind(s, name, here) {
                    Err(failure) => Err(failure),
                    Ok((typed, s)) => {
                        match metadata(s) {
                            Err(failure) => Err(failure),
                            Ok((found, s)) => {
                                if label is Some && typed.1 is None {
                                    Err(
                                        Failure {
                                            problem: Problem::NoResult,
                                            text: Seq::empty(),
                                            span: here,
                                        },
                                    )
                                } else {
                                    match optional_result(s, label) {
                                        Err(failure) => Err(failure),
                                        Ok((existing, s)) => {
                                            Ok((
                                                    (),
                                                    added(
                                                        s,
                                                        InstView {
                                                            kind: typed.0,
                                                            result_ty: typed.1,
                                                            metadata: found,
                                                        },
                                                        label,
                                                        existing,
                                                    ),
                                            ))
                                        },
                                    }
                                }
                            },
                        }
                    },
                }
            }
        },
    }
}

/// Whether an exec instruction is the one read.
pub open spec fn same_typed(found: (InstKind, Option<MirType>), expected: Typed) -> bool {
    found.0@ == expected.0 && found.1 == expected.1
}

/// Values that fit stay fitting while the function grows.
proof fn lemma_values_stay(before: State, after: State, values: Seq<ValueId>)
    requires
        has_values(before.b.func, values),
        follows(after, before),
    ensures
        has_values(after.b.func, values),
{
    assert forall|i: int| 0 <= i < values.len() implies has_value(
        after.b.func,
        #[trigger] values[i],
    ) by {
        assert(has_value(before.b.func, values[i]));
    }
}

impl<'a> Parser<'a> {
    /// Parses so many operands, with commas between them.
    fn parse_operands(&mut self, count: usize) -> (r: Result<Vec<ValueId>, ParseError>)
        requires
            old(self).wf(),
        ensures
            match operand_list(old(self)@, count as nat, Seq::empty()) {
                Ok((operands, s)) => r matches Ok(found) && found@ == operands && found@.len()
                    == count && final(self)@ == s,
                Err(failure) => r matches Err(e) && e@ == failure,
            },
            final(self).wf(),
            follows(final(self)@, old(self)@),
            kept(final(self)@.b, old(self)@.b),
            r matches Ok(found) ==> has_values(final(self)@.b.func, found@),
    {
        let mut operands: Vec<ValueId> = Vec::new();
        assert(operands@ =~= Seq::empty());
        while operands.len() < count
            invariant
                operands@.len() <= count,
                self.wf(),
                follows(self@, old(self)@),
                kept(self@.b, old(self)@.b),
                has_values(self@.b.func, operands@),
                operand_list(self@, count as nat, operands@) == operand_list(
                    old(self)@,
                    count as nat,
                    Seq::empty(),
                ),
            decreases count - operands@.len(),
        {
            let ghost before = self@;
            if operands.len() > 0 {
                self.expect(Punct::Comma)?;
            }
            let operand = self.parse_value()?;
            proof {
                lemma_values_stay(before, self@, operands@);
            }
            operands.push(operand);
        }
        Ok(operands)
    }

    /// Parses values, each behind a comma, as long as there is a comma.
    fn parse_comma_values(&mut self, first: Vec<ValueId>) -> (r: Result<Vec<ValueId>, ParseError>)
        requires
            old(self).wf(),
            has_values(old(self)@.b.func, first@),
        ensures
            match comma_values(old(self)@, first@) {
                Ok((values, s)) => r matches Ok(found) && found@ == values && final(self)@ == s,
                Err(failure) => r matches Err(e) && e@ == failure,
            },
            final(self).wf(),
            follows(final(self)@, old(self)@),
            kept(final(self)@.b, old(self)@.b),
            r matches Ok(found) ==> has_values(final(self)@.b.func, found@),
    {
        let ghost start = first@;
        let mut values = first;
        while self.eat(Punct::Comma)
            invariant
                self.wf(),
                follows(self@, old(self)@),
                kept(self@.b, old(self)@.b),
                has_values(self@.b.func, values@),
                start == first@,
                comma_values(self@, values@) == comma_values(old(self)@, start),
            decreases left(self@),
        {
            let ghost before = self@;
            let operand = self.parse_value()?;
            proof {
                lemma_values_stay(before, self@, values@);
            }
            values.push(operand);
        }
        Ok(values)
    }

    /// Parses the policy of an allocation.
    fn parse_allocation_semantics(&mut self) -> (r: Result<AllocationSemantics, ParseError>)
        requires
            old(self).wf(),
        ensures
            match allocation_semantics(old(self)@) {
                Ok((found, s)) => r == Ok::<AllocationSemantics, ParseError>(found)
                    && final(self)@ == s,
                Err(failure) => r matches Err(e) && e@ == failure,
            },
            final(self).wf(),
            follows(final(self)@, old(self)@),
            kept(final(self)@.b, old(self)@.b),
    {
        proof {
            reveal(allocation_semantics);
        }
        let id = self.parse_ident()?;
        let alignment = if text_is(id.as_str(), "exact") {
            AllocationAlignment::Exact
        } else if text_is(id.as_str(), "word") {
            AllocationAlignment::Word
        } else {
            return Err(self.error(Problem::UnknownAlignment, id.clone()));
        };
        self.expect(Punct::Comma)?;
        let id = self.parse_ident()?;
        let initialization = if text_is(id.as_str(), "uninitialized") {
            AllocationInitialization::Uninitialized
        } else if text_is(id.as_str(), "zeroed") {
            AllocationInitialization::Zeroed
        } else {
            return Err(self.error(Problem::UnknownInitialization, id.clone()));
        };
        self.expect(Punct::Comma)?;
        let id = self.parse_ident()?;
        let failure = if text_is(id.as_str(), "infallible") {
            AllocationFailure::Infallible
        } else if text_is(id.as_str(), "panic") {
            AllocationFailure::Panic
        } else {
            return Err(self.error(Problem::UnknownFailure, id.clone()));
        };
        Ok(AllocationSemantics { alignment, initialization, failure })
    }

    /// Parses what an allocation reserves.
    fn parse_allocation_kind(&mut self) -> (r: Result<AllocationKind, ParseError>)
        requires
            old(self).wf(),
        ensures
            match allocation_kind(old(self)@) {
                Ok((found, s)) => r == Ok::<AllocationKind, ParseError>(found) && final(self)@
                    == s,
                Err(failure) => r matches Err(e) && e@ == failure,
            },
            final(self).wf(),
            follows(final(self)@, old(self)@),
            kept(final(self)@.b, old(self)@.b),
    {
        let id = self.parse_ident()?;
        if text_is(id.as_str(), "raw") {
            Ok(AllocationKind::Raw)
        } else {
            Ok(AllocationKind::Object(self.parse_memory_object_layout(id)?))
        }
    }

    /// Parses an allocation.
    fn parse_alloc(&mut self) -> (r: Result<(InstKind, Option<MirType>), ParseError>)
        requires
            old(self).wf(),
        ensures
            match alloc_inst(old(self)@) {
                Ok((typed, s)) => r matches Ok(found) && same_typed(found, typed) && final(self)@
                    == s,
                Err(failure) => r matches Err(e) && e@ == failure,
            },
            final(self).wf(),
            follows(final(self)@, old(self)@),
            kept(final(self)@.b, old(self)@.b),
            r matches Ok(found) ==> kind_fits(final(self)@.b.func, found.0@),
    {
        proof {
            reveal(alloc_inst);
        }
        let kind = self.parse_allocation_kind()?;
        self.expect(Punct::Comma)?;
        let semantics = self.parse_allocation_semantics()?;
        self.expect(Punct::Comma)?;
        let size = self.parse_value()?;
        Ok((InstKind::Alloc { size, kind, semantics }, Some(kind.result_type())))
    }

    /// Parses the layout of an object and the object.
    fn parse_object_head(&mut self) -> (r: Result<(MemoryObjectLayout, ValueId), ParseError>)
        requires
            old(self).wf(),
        ensures
            match object_head(old(self)@) {
                Ok((head, s)) => r == Ok::<(MemoryObjectLayout, ValueId), ParseError>(head)
                    && final(self)@ == s,
                Err(failure) => r matches Err(e) && e@ == failure,
            },
            final(self).wf(),
            follows(final(self)@, old(self)@),
            kept(final(self)@.b, old(self)@.b),
            r matches Ok(head) ==> has_value(final(self)@.b.func, head.1),
    {
        proof {
            reveal(object_head);
        }
        let id = self.parse_ident()?;
        let layout = self.parse_memory_object_layout(id)?;
        self.expect(Punct::Comma)?;
        let object = self.parse_value()?;
        Ok((layout, object))
    }

    /// Parses a value behind a comma.
    fn parse_next_operand(&mut self) -> (r: Result<ValueId, ParseError>)
        requires
            old(self).wf(),
        ensures
            match next_operand(old(self)@) {
                Ok((found, s)) => r == Ok::<ValueId, ParseError>(found) && final(self)@ == s,
                Err(failure) => r matches Err(e) && e@ == failure,
            },
            final(self).wf(),
            follows(final(self)@, old(self)@),
            kept(final(self)@.b, old(self)@.b),
            r matches Ok(found) ==> has_value(final(self)@.b.func, found),
    {
        proof {
            reveal(next_operand);
        }
        self.expect(Punct::Comma)?;
        self.parse_value()
    }

    /// Parses a field number behind a comma.
    fn parse_next_field(&mut self) -> (r: Result<u64, ParseError>)
        requires
            old(self).wf(),
        ensures
            match next_field(old(self)@) {
                Ok((found, s)) => r == Ok::<u64, ParseError>(found) && final(self)@ == s,
                Err(failure) => r matches Err(e) && e@ == failure,
            },
            final(self).wf(),
            follows(final(self)@, old(self)@),
            kept(final(self)@.b, old(self)@.b),
    {
        proof {
            reveal(next_field);
        }
        self.expect(Punct::Comma)?;
        let number = self.parse_uint()?;
        self.at_most(number, u64::MAX, Problem::MemoryFieldIndex)
    }

    /// Parses an access of the length, the data or a part of an object.
    fn parse_object_inst(&mut self, name: &str) -> (r: Result<
        (InstKind, Option<MirType>),
        ParseError,
    >)
        requires
            old(self).wf(),
        ensures
            match object_inst(old(self)@, name@) {
                Ok((typed, s)) => r matches Ok(found) && same_typed(found, typed) && final(self)@
                    == s,
                Err(failure) => r matches Err(e) && e@ == failure,
            },
            final(self).wf(),
            follows(final(self)@, old(self)@),
            kept(final(self)@.b, old(self)@.b),
            r matches Ok(found) ==> kind_fits(final(self)@.b.func, found.0@),
    {
        proof {
            reveal(object_inst);
        }
        let (layout, object) = self.parse_object_head()?;
        if text_is(name, "memory_object_len") {
            Ok((InstKind::MemoryObjectLen(object, layout.kind()), Some(MirType::uint256())))
        } else if text_is(name, "set_memory_object_len") {
            let len = self.parse_next_operand()?;
            Ok((InstKind::SetMemoryObjectLen(object, len, layout.kind()), None))
        } else if text_is(name, "memory_object_data") {
            Ok((InstKind::MemoryObjectData(object, layout.kind()), Some(MirType::MemPtr)))
        } else if text_is(name, "memory_object_field_addr") {
            let field = self.parse_next_field()?;
            Ok((InstKind::MemoryObjectFieldAddr { object, layout, field }, Some(MirType::MemPtr)))
        } else {
            let index = self.parse_next_operand()?;
            Ok(
                (
                    InstKind::MemoryObjectElementAddr { object, layout, index },
                    Some(MirType::MemPtr),
                ),
            )
        }
    }

    /// Parses the operand groups of an ABI encoding.
    fn parse_encode_groups(&mut self) -> (r: Result<(Option<ValueId>, Vec<ValueId>), ParseError>)
        requires
            old(self).wf(),
        ensures
            match encode_groups(old(self)@, None) {
                Ok((groups, s)) => r matches Ok(found) && found.0 == groups.0 && found.1@
                    == groups.1 && final(self)@ == s,
                Err(failure) => r matches Err(e) && e@ == failure,
            },
            final(self).wf(),
            follows(final(self)@, old(self)@),
            kept(final(self)@.b, old(self)@.b),
            r matches Ok(found) ==> has_values(
                final(self)@.b.func,
                encode_operands(found.0, found.1@),
            ),
    {
        let mut selector: Option<ValueId> = None;
        while self.eat(Punct::Comma)
            invariant
                self.wf(),
                follows(self@, old(self)@),
                kept(self@.b, old(self)@.b),
                selector matches Some(operand) ==> has_value(self@.b.func, operand),
                encode_groups(self@, selector) == encode_groups(old(self)@, None),
            decreases left(self@),
        {
            let ghost before = self@;
            let group = self.parse_ident()?;
            if text_is(group.as_str(), "selector") && selector.is_none() {
                selector = Some(self.parse_value()?);
            } else if text_is(group.as_str(), "args") {
                let first = self.parse_value()?;
                let list = vec![first];
                assert(list@ =~= seq![first]);
                let args = self.parse_comma_values(list)?;
                return Ok((selector, args));
            } else {
                return Err(self.error(Problem::UnexpectedOperandGroup, group.clone()));
            }
        }
        let args: Vec<ValueId> = Vec::new();
        assert(args@ =~= Seq::empty());
        Ok((selector, args))
    }

    /// Parses an ABI encoding.
    fn parse_abi_encode(&mut self) -> (r: Result<(InstKind, Option<MirType>), ParseError>)
        requires
            old(self).wf(),
        ensures
            match abi_encode_inst(old(self)@) {
                Ok((typed, s)) => r matches Ok(found) && same_typed(found, typed) && final(self)@
                    == s,
                Err(failure) => r matches Err(e) && e@ == failure,
            },
            final(self).wf(),
            follows(final(self)@, old(self)@),
            kept(final(self)@.b, old(self)@.b),
            r matches Ok(found) ==> kind_fits(final(self)@.b.func, found.0@),
    {
        proof {
            reveal(abi_encode_inst);
        }
        let layout = self.parse_abi_layout()?;
        let (selector, args) = self.parse_encode_groups()?;
        proof {
            crate::mir::parser::layout::lemma_abi_types_view(
                layout.types@,
                layout.types@.len(),
            );
        }
        if args.len() != layout.types.len() {
            return Err(
                self.plain_error(
                    Problem::AbiEncodeArity { types: layout.types.len(), args: args.len() },
                ),
            );
        }
        Ok(
            (
                InstKind::AbiEncode { selector, args, layout },
                Some(MirType::Slice(SliceLocation::Memory)),
            ),
        )
    }

    /// Parses a copy or clearing of an aggregate.
    fn parse_aggregate_inst(&mut self, name: &str) -> (r: Result<
        (InstKind, Option<MirType>),
        ParseError,
    >)
        requires
            old(self).wf(),
        ensures
            match aggregate_inst(old(self)@, name@) {
                Ok((typed, s)) => r matches Ok(found) && same_typed(found, typed) && final(self)@
                    == s,
                Err(failure) => r matches Err(e) && e@ == failure,
            },
            final(self).wf(),
            follows(final(self)@, old(self)@),
            kept(final(self)@.b, old(self)@.b),
            r matches Ok(found) ==> kind_fits(final(self)@.b.func, found.0@),
    {
        proof {
            reveal(aggregate_inst);
        }
        let layout = self.parse_storage_layout()?;
        self.expect(Punct::Comma)?;
        let first = self.parse_value()?;
        if text_is(name, "clear_storage") {
            return Ok((InstKind::ClearStorage { storage: first, layout }, None));
        }
        self.expect(Punct::Comma)?;
        let second = self.parse_value()?;
        if text_is(name, "storage_to_memory") {
            Ok((InstKind::StorageToMemory { storage: first, memory: second, layout }, None))
        } else {
            Ok((InstKind::MemoryToStorage { memory: first, storage: second, layout }, None))
        }
    }

    /// Parses a call of a function of this module.
    fn parse_internal_call(&mut self) -> (r: Result<(InstKind, Option<MirType>), ParseError>)
        requires
            old(self).wf(),
        ensures
            match internal_call_inst(old(self)@) {
                Ok((typed, s)) => r matches Ok(found) && same_typed(found, typed) && final(self)@
                    == s,
                Err(failure) => r matches Err(e) && e@ == failure,
            },
            final(self).wf(),
            follows(final(self)@, old(self)@),
            kept(final(self)@.b, old(self)@.b),
            r matches Ok(found) ==> kind_fits(final(self)@.b.func, found.0@),
    {
        proof {
            reveal(internal_call_inst);
        }
        let function = self.parse_function_id()?;
        self.expect(Punct::Comma)?;
        let number = self.parse_uint()?;
        let return_count = self.u256_to_u32(number)?;
        let none: Vec<ValueId> = Vec::new();
        assert(none@ =~= Seq::empty());
        let args = self.parse_comma_values(none)?;
        let ty = if return_count > 0 {
            Some(MirType::uint256())
        } else {
            None
        };
        Ok((InstKind::InternalCall { function, args, return_count }, ty))
    }

    /// Parses the edges of a phi.
    fn parse_phi_edges(&mut self) -> (r: Result<Vec<(BlockId, ValueId)>, ParseError>)
        requires
            old(self).wf(),
        ensures
            match phi_edges(old(self)@, Seq::empty()) {
                Ok((edges, s)) => r matches Ok(found) && found@ == edges && final(self)@ == s,
                Err(failure) => r matches Err(e) && e@ == failure,
            },
            final(self).wf(),
            follows(final(self)@, old(self)@),
            kept(final(self)@.b, old(self)@.b),
            r matches Ok(found) ==> kind_fits(final(self)@.b.func, KindView::Phi(found@)),
    {
        let mut edges: Vec<(BlockId, ValueId)> = Vec::new();
        assert(edges@ =~= Seq::empty());
        loop
            invariant
                self.wf(),
                follows(self@, old(self)@),
                kept(self@.b, old(self)@.b),
                forall|i: int|
                    0 <= i < edges@.len() ==> has_block(self@.b.func, (#[trigger] edges@[i]).0)
                        && has_value(self@.b.func, edges@[i].1),
                phi_edges(self@, edges@) == phi_edges(old(self)@, Seq::empty()),
            decreases left(self@),
        {
            self.expect(Punct::OpenBracket)?;
            let block = self.parse_block_id()?;
            self.expect(Punct::Colon)?;
            let operand = self.parse_value()?;
            self.expect(Punct::CloseBracket)?;
            edges.push((block, operand));
            if !self.eat(Punct::Comma) {
                proof {
                    let operands = operands_of(KindView::Phi(edges@));
                    assert forall|i: int| 0 <= i < operands.len() implies has_value(
                        self@.b.func,
                        #[trigger] operands[i],
                    ) by {
                        assert(operands[i] == edges@[i].1);
                    }
                }
                return Ok(edges);
            }
        }
    }

    /// The instruction of a name on placeholder operands.
    fn simple_template(name: &str) -> (r: Option<(InstKind, usize, Option<MirType>)>)
        ensures
            is_template(r, simple_inst(name@)),
    {
        if let Some(found) = arithmetic_template(name) {
            return Some(found);
        }
        if let Some(found) = data_template(name) {
            return Some(found);
        }
        environment_template(name)
    }

    /// Parses one instruction by mnemonic.
    #[verifier::rlimit(60)]
    pub fn parse_inst_kind(&mut self, id: &String, name_span: Span) -> (r: Result<
        (InstKind, Option<MirType>),
        ParseError,
    >)
        requires
            old(self).wf(),
        ensures
            match inst_kind(old(self)@, id@, name_span) {
                Ok((typed, s)) => r matches Ok(found) && same_typed(found, typed) && final(self)@
                    == s,
                Err(failure) => r matches Err(e) && e@ == failure,
            },
            final(self).wf(),
            follows(final(self)@, old(self)@),
            kept(final(self)@.b, old(self)@.b),
            r matches Ok(found) ==> kind_fits(final(self)@.b.func, found.0@),
    {
        proof {
            reveal(inst_kind);
        }
        let name = id.as_str();
        if let Some((template, count, ty)) = Self::simple_template(name) {
            let operands = self.parse_operands(count)?;
            assert(operands_of(template@).len() == count);
            let kind = template.with_operands(&operands);
            return Ok((kind, ty));
        }
        if text_is(name, "alloc") {
            return self.parse_alloc();
        }
        if text_is(name, "memory_object_len") || text_is(name, "set_memory_object_len")
            || text_is(name, "memory_object_data") || text_is(name, "memory_object_field_addr")
            || text_is(name, "memory_object_element_addr") {
            return self.parse_object_inst(name);
        }
        if text_is(name, "abi_encode") {
            return self.parse_abi_encode();
        }
        if text_is(name, "clear_storage") || text_is(name, "storage_to_memory") || text_is(
            name,
            "memory_to_storage",
        ) {
            return self.parse_aggregate_inst(name);
        }
        let location: Option<SliceLocation> = if text_is(name, "make_memory_slice") {
            Some(SliceLocation::Memory)
        } else if text_is(name, "make_calldata_slice") {
            Some(SliceLocation::Calldata)
        } else if text_is(name, "make_returndata_slice") {
            Some(SliceLocation::Returndata)
        } else {
            None
        };
        assert(location == slice_location(name@));
        if let Some(location) = location {
            let operands = self.parse_operands(2)?;
            let kind = InstKind::MakeSlice { ptr: operands[0], len: operands[1], location };
            assert(kind@->args =~= operands@);
            return Ok((kind, Some(MirType::Slice(location))));
        }
        if text_is(name, "loadimmutable") {
            let number = self.parse_uint()?;
            let offset = self.u256_to_u32(number)?;
            return Ok((InstKind::LoadImmutable(offset), Some(MirType::uint256())));
        }
        if text_is(name, "internal_call") {
            return self.parse_internal_call();
        }
        if text_is(name, "internal_frame_addr") {
            let number = self.parse_uint()?;
            let offset = self.at_most(
                number,
                u64::MAX,
                Problem::DoesNotFit { value: number, bits: 64 },
            )?;
            return Ok((InstKind::InternalFrameAddr(offset), Some(MirType::MemPtr)));
        }
        if text_is(name, "phi") {
            let edges = self.parse_phi_edges()?;
            return Ok((InstKind::Phi(edges), Some(MirType::uint256())));
        }
        Err(ParseError { problem: Problem::UnknownInstruction, text: id.clone(), span: name_span })
    }

    /// Parses the cases of a switch and the bracket that closes them.
    fn parse_switch_cases(&mut self) -> (r: Result<Vec<(ValueId, BlockId)>, ParseError>)
        requires
            old(self).wf(),
        ensures
            match switch_cases(old(self)@, Seq::empty()) {
                Ok((cases, s)) => r matches Ok(found) && found@ == cases && final(self)@ == s,
                Err(failure) => r matches Err(e) && e@ == failure,
            },
            final(self).wf(),
            follows(final(self)@, old(self)@),
            kept(final(self)@.b, old(self)@.b),
            r matches Ok(found) ==> forall|i: int|
                0 <= i < found@.len() ==> has_value(final(self)@.b.func, (#[trigger] found@[i]).0)
                    && has_block(final(self)@.b.func, found@[i].1),
    {
        let mut cases: Vec<(ValueId, BlockId)> = Vec::new();
        assert(cases@ =~= Seq::empty());
        loop
            invariant
                self.wf(),
                follows(self@, old(self)@),
                kept(self@.b, old(self)@.b),
                forall|i: int|
                    0 <= i < cases@.len() ==> has_value(self@.b.func, (#[trigger] cases@[i]).0)
                        && has_block(self@.b.func, cases@[i].1),
                switch_cases(self@, cases@) == switch_cases(old(self)@, Seq::empty()),
            decreases left(self@),
        {
            let operand = self.parse_value()?;
            self.expect(Punct::FatArrow)?;
            let block = self.parse_block_id()?;
            cases.push((operand, block));
            if self.eat(Punct::Comma) {
                continue;
            }
            self.expect(Punct::CloseBracket)?;
            return Ok(cases);
        }
    }

    /// Parses a switch whose name has been read.
    fn parse_switch(&mut self) -> (r: Result<Terminator, ParseError>)
        requires
            old(self).wf(),
        ensures
            match switch_terminator(old(self)@) {
                Ok((term, s)) => r matches Ok(found) && found@ == term && final(self)@ == s,
                Err(failure) => r matches Err(e) && e@ == failure,
            },
            final(self).wf(),
            follows(final(self)@, old(self)@),
            kept(final(self)@.b, old(self)@.b),
            r matches Ok(found) ==> term_fits(final(self)@.b.func, found@),
    {
        proof {
            reveal(switch_terminator);
        }
        let operand = self.parse_value()?;
        self.expect(Punct::Comma)?;
        self.expect_keyword("default")?;
        let default = self.parse_block_id()?;
        self.expect(Punct::Comma)?;
        self.expect(Punct::OpenBracket)?;
        let cases: Vec<(ValueId, BlockId)> = if self.eat(Punct::CloseBracket) {
            Vec::new()
        } else {
            self.parse_switch_cases()?
        };
        let term = Terminator::Switch { value: operand, default, cases };
        proof {
            assert(cases@.len() == 0 ==> cases@ =~= Seq::empty());
            let operands = term_operands(term@);
            let targets = successors_of(term@);
            assert forall|i: int| 0 <= i < operands.len() implies has_value(
                self@.b.func,
                #[trigger] operands[i],
            ) by {
                if i > 0 {
                    assert(operands[i] == cases@[i - 1].0);
                }
            }
            assert forall|i: int| 0 <= i < targets.len() implies has_block(
                self@.b.func,
                #[trigger] targets[i],
            ) by {
                if i > 0 {
                    assert(targets[i] == cases@[i - 1].1);
                }
            }
        }
        Ok(term)
    }

    /// Parses a terminator whose name has been read.
    #[verifier::rlimit(40)]
    fn parse_terminator(&mut self, name: &str) -> (r: Result<Terminator, ParseError>)
        requires
            old(self).wf(),
            is_terminator(name@),
        ensures
            match terminator(old(self)@, name@) {
                Ok((term, s)) => r matches Ok(found) && found@ == term && final(self)@ == s,
                Err(failure) => r matches Err(e) && e@ == failure,
            },
            final(self).wf(),
            follows(final(self)@, old(self)@),
            kept(final(self)@.b, old(self)@.b),
            r matches Ok(found) ==> term_fits(final(self)@.b.func, found@),
    {
        proof {
            reveal(terminator);
        }
        if text_is(name, "jump") {
            let target = self.parse_block_id()?;
            return Ok(Terminator::Jump(target));
        }
        if text_is(name, "jumpi") {
            let condition = self.parse_value()?;
            self.expect(Punct::Comma)?;
            let then_block = self.parse_block_id()?;
            self.expect(Punct::Comma)?;
            let else_block = self.parse_block_id()?;
            return Ok(Terminator::Branch { condition, then_block, else_block });
        }
        if text_is(name, "switch") {
            return self.parse_switch();
        }
        if text_is(name, "ret") {
            let mut list: Vec<ValueId> = Vec::new();
            if self.value_starts_here() {
                let first = self.parse_value()?;
                list.push(first);
                assert(list@ =~= seq![first]);
                list = self.parse_comma_values(list)?;
            }
            assert(list@.len() == 0 ==> list@ =~= Seq::empty());
            return Ok(Terminator::Return { values: value_list(&list) });
        }
        if text_is(name, "revert") {
            let operands = self.parse_operands(2)?;
            assert(has_value(self@.b.func, operands@[0]) && has_value(self@.b.func, operands@[1]));
            return Ok(Terminator::Revert { offset: operands[0], size: operands[1] });
        }
        if text_is(name, "returndata") {
            let operands = self.parse_operands(2)?;
            assert(has_value(self@.b.func, operands@[0]) && has_value(self@.b.func, operands@[1]));
            return Ok(Terminator::ReturnData { offset: operands[0], size: operands[1] });
        }
        if text_is(name, "stop") {
            return Ok(Terminator::Stop);
        }
        if text_is(name, "selfdestruct") {
            let recipient = self.parse_value()?;
            return Ok(Terminator::SelfDestruct { recipient });
        }
        if text_is(name, "invalid") {
            return Ok(Terminator::Invalid);
        }
        let function = self.parse_function_id()?;
        let none: Vec<ValueId> = Vec::new();
        assert(none@ =~= Seq::empty());
        let args = self.parse_comma_values(none)?;
        Ok(Terminator::TailCall { function, args: value_list(&args) })
    }

    /// Reads the label in front of an instruction, `vN =`, if there is one.
    fn parse_result_prefix(&mut self) -> (r: Option<u32>)
        requires
            old(self).wf(),
        ensures
            (r, final(self)@) == result_prefix(old(self)@),
            final(self).wf(),
            follows(final(self)@, old(self)@),
    {
        if let Some(id) = self.peek_ident() {
            if let Some(rest) = strip_prefix(id.as_str(), "v") {
                if let Some(label) = parse_number(rest.as_str(), u32::MAX as u64) {
                    if self.at_ahead(1, Punct::Eq) {
                        self.bump();
                        self.bump();
                        return Some(label as u32);
                    }
                }
            }
        }
        None
    }

    /// Adds an instruction that has been read.
    fn add_instruction(
        &mut self,
        instruction: Instruction,
        label: Option<u32>,
        existing: Option<ValueId>,
    )
        requires
            old(self).wf(),
            kind_fits(old(self)@.b.func, instruction.kind@),
            existing matches Some(result) ==> has_value(old(self)@.b.func, result)
                && old(self)@.b.func.values[result.0 as int] is Undef,
            label is Some ==> instruction.result_ty is Some,
        ensures
            final(self)@ == added(old(self)@, instruction@, label, existing),
            final(self).wf(),
            follows(final(self)@, old(self)@),
    {
        proof {
            reveal(state_wf);
            reveal(parser_state);
        }
        match existing {
            Some(result) => {
                let id = self.append_for(instruction, result);
                self.finish_function_ref(FunctionRefTarget::Instruction(id));
            },
            None => {
                let (id, fresh) = self.append(instruction);
                let ghost mid = self@;
                self.finish_function_ref(FunctionRefTarget::Instruction(id));
                if let Some(label) = label {
                    let fresh = fresh.unwrap();
                    let ghost before = self@;
                    self.value_labels.push((label, fresh));
                    assert(self@ =~= (State {
                        values: before.values.push((label, fresh)),
                        ..before
                    }));
                    assert(has_value(before.b.func, fresh));
                }
            },
        }
    }

    /// Parses one instruction line (with optional `vN =` result) or a terminator.
    pub fn parse_instruction_or_terminator(&mut self) -> (r: Result<(), ParseError>)
        requires
            old(self).wf(),
        ensures
            match line(old(self)@) {
                Ok((_, s)) => r is Ok && final(self)@ == s,
                Err(failure) => r matches Err(e) && e@ == failure,
            },
            final(self).wf(),
            follows(final(self)@, old(self)@),
            r is Err ==> kept(final(self)@.b, old(self)@.b),
            r is Ok ==> final(self)@.pos > old(self)@.pos,
    {
        proof {
            reveal(line);
        }
        let label = self.parse_result_prefix();
        let here = self.span();
        let id = self.parse_ident()?;
        let name = id.as_str();
        if text_is(name, "jump") || text_is(name, "jumpi") || text_is(name, "switch") || text_is(
            name,
            "ret",
        ) || text_is(name, "revert") || text_is(name, "returndata") || text_is(name, "stop")
            || text_is(name, "selfdestruct") || text_is(name, "invalid") || text_is(
            name,
            "tail_call",
        ) {
            let term = self.parse_terminator(name)?;
            let block = self.current_block();
            let is_tail_call = match &term {
                Terminator::TailCall { .. } => true,
                _ => false,
            };
            proof {
                lemma_ended(self@.b, term@);
                reveal(state_wf);
            }
            self.end_block(term);
            if is_tail_call {
                self.finish_function_ref(FunctionRefTarget::Terminator(block));
            }
            return Ok(());
        }
        let (kind, result_ty) = self.parse_inst_kind(id, here)?;
        let ghost before = self@;
        let metadata = self.parse_metadata()?;
        proof {
            lemma_kind_stays(before, self@, kind@);
        }
        if label.is_some() && result_ty.is_none() {
            return Err(
                ParseError { problem: Problem::NoResult, text: String::new(), span: here },
            );
        }
        let existing = match label {
            Some(label) => self.resolve_result_label(label)?,
            None => None,
        };
        self.add_instruction(Instruction { kind, result_ty, metadata }, label, existing);
        Ok(())
    }
}

/// An instruction that fits stays fitting while the function grows.
proof fn lemma_kind_stays(before: State, after: State, kind: KindView)
    requires
        kind_fits(before.b.func, kind),
        follows(after, before),
    ensures
        kind_fits(after.b.func, kind),
{
    lemma_values_stay(before, after, operands_of(kind));
}

} // verus!
