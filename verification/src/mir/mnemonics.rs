//! How instructions and terminators are written.

use crate::mir::inst::{KindView, Op, TermView};
use crate::mir::types::{MirType, SliceLocation};
use vstd::prelude::*;

verus! {

/// The name that an operation is written with.
pub open spec fn mnemonic(op: Op) -> Seq<char> {
    match op {
        Op::Add => "add"@,
        Op::Sub => "sub"@,
        Op::Mul => "mul"@,
        Op::Div => "div"@,
        Op::SDiv => "sdiv"@,
        Op::Mod => "mod"@,
        Op::SMod => "smod"@,
        Op::Exp => "exp"@,
        Op::AddMod => "addmod"@,
        Op::MulMod => "mulmod"@,
        Op::And => "and"@,
        Op::Or => "or"@,
        Op::Xor => "xor"@,
        Op::Not => "not"@,
        Op::Clz => "clz"@,
        Op::Shl => "shl"@,
        Op::Shr => "shr"@,
        Op::Sar => "sar"@,
        Op::Byte => "byte"@,
        Op::SignExtend => "signextend"@,
        Op::Lt => "lt"@,
        Op::Gt => "gt"@,
        Op::SLt => "slt"@,
        Op::SGt => "sgt"@,
        Op::Eq => "eq"@,
        Op::IsZero => "iszero"@,
        Op::MLoad => "mload"@,
        Op::MStore => "mstore"@,
        Op::MStore8 => "mstore8"@,
        Op::MemoryZero => "memory_zero"@,
        Op::MSize => "msize"@,
        Op::MCopy => "mcopy"@,
        Op::SLoad => "sload"@,
        Op::SStore => "sstore"@,
        Op::TLoad => "tload"@,
        Op::TStore => "tstore"@,
        Op::Fmp => "fmp"@,
        Op::SetFmp => "set_fmp"@,
        Op::CalldataLoad => "calldataload"@,
        Op::CalldataSize => "calldatasize"@,
        Op::CalldataCopy => "calldatacopy"@,
        Op::SlicePtr => "slice_ptr"@,
        Op::SliceLen => "slice_len"@,
        Op::CodeSize => "codesize"@,
        Op::CodeCopy => "codecopy"@,
        Op::ExtCodeSize => "extcodesize"@,
        Op::ExtCodeCopy => "extcodecopy"@,
        Op::ExtCodeHash => "extcodehash"@,
        Op::ReturnDataSize => "returndatasize"@,
        Op::ReturnDataCopy => "returndatacopy"@,
        Op::Caller => "caller"@,
        Op::CallValue => "callvalue"@,
        Op::Origin => "origin"@,
        Op::GasPrice => "gasprice"@,
        Op::Coinbase => "coinbase"@,
        Op::Timestamp => "timestamp"@,
        Op::BlockNumber => "number"@,
        Op::PrevRandao => "prevrandao"@,
        Op::GasLimit => "gaslimit"@,
        Op::ChainId => "chainid"@,
        Op::Address => "address"@,
        Op::SelfBalance => "selfbalance"@,
        Op::Gas => "gas"@,
        Op::BaseFee => "basefee"@,
        Op::BlobBaseFee => "blobbasefee"@,
        Op::BlockHash => "blockhash"@,
        Op::Balance => "balance"@,
        Op::BlobHash => "blobhash"@,
        Op::Keccak256 => "keccak256"@,
        Op::Keccak256Bytes => "keccak256_bytes"@,
        Op::MappingSlot => "mapping_slot"@,
        Op::MappingSlotMemory => "mapping_slot_memory"@,
        Op::MappingSlotCalldata => "mapping_slot_calldata"@,
        Op::Call => "call"@,
        Op::CallCode => "callcode"@,
        Op::StaticCall => "staticcall"@,
        Op::DelegateCall => "delegatecall"@,
        Op::Create => "create"@,
        Op::Create2 => "create2"@,
        Op::Log0 => "log0"@,
        Op::Log1 => "log1"@,
        Op::Log2 => "log2"@,
        Op::Log3 => "log3"@,
        Op::Log4 => "log4"@,
        Op::Select => "select"@,
        Op::Alloc { .. } => "alloc"@,
        Op::MemoryObjectLen { .. } => "memory_object_len"@,
        Op::SetMemoryObjectLen { .. } => "set_memory_object_len"@,
        Op::MemoryObjectData { .. } => "memory_object_data"@,
        Op::MemoryObjectFieldAddr { .. } => "memory_object_field_addr"@,
        Op::MemoryObjectElementAddr { .. } => "memory_object_element_addr"@,
        Op::StorageToMemory { .. } => "storage_to_memory"@,
        Op::MemoryToStorage { .. } => "memory_to_storage"@,
        Op::ClearStorage { .. } => "clear_storage"@,
        Op::MakeSlice { location } => match location {
            SliceLocation::Memory => "make_memory_slice"@,
            SliceLocation::Calldata => "make_calldata_slice"@,
            SliceLocation::Returndata => "make_returndata_slice"@,
        },
        Op::LoadImmutable { .. } => "loadimmutable"@,
        Op::InternalFrameAddr { .. } => "internal_frame_addr"@,
        Op::AbiEncode { .. } => "abi_encode"@,
        Op::InternalCall { .. } => "internal_call"@,
    }
}

/// How many operands an operation is written with, where it is written with
/// nothing else.
pub open spec fn operand_count(op: Op) -> Option<nat> {
    match op {
        Op::Not | Op::Clz | Op::IsZero | Op::MLoad | Op::SLoad | Op::TLoad | Op::SetFmp
        | Op::CalldataLoad | Op::SlicePtr | Op::SliceLen | Op::ExtCodeSize | Op::ExtCodeHash
        | Op::BlockHash | Op::Balance | Op::BlobHash | Op::Keccak256Bytes => Some(1),
        Op::Add | Op::Sub | Op::Mul | Op::Div | Op::SDiv | Op::Mod | Op::SMod | Op::Exp
        | Op::And | Op::Or | Op::Xor | Op::Shl | Op::Shr | Op::Sar | Op::Byte | Op::SignExtend
        | Op::Lt | Op::Gt | Op::SLt | Op::SGt | Op::Eq | Op::MStore | Op::MStore8
        | Op::MemoryZero | Op::SStore | Op::TStore | Op::Keccak256 | Op::MappingSlot
        | Op::MappingSlotMemory | Op::MappingSlotCalldata | Op::Log0 => Some(2),
        Op::MSize | Op::Fmp | Op::CalldataSize | Op::CodeSize | Op::ReturnDataSize | Op::Caller
        | Op::CallValue | Op::Origin | Op::GasPrice | Op::Coinbase | Op::Timestamp
        | Op::BlockNumber | Op::PrevRandao | Op::GasLimit | Op::ChainId | Op::Address
        | Op::SelfBalance | Op::Gas | Op::BaseFee | Op::BlobBaseFee => Some(0),
        Op::AddMod | Op::MulMod | Op::MCopy | Op::CalldataCopy | Op::CodeCopy
        | Op::ReturnDataCopy | Op::Create | Op::Log1 | Op::Select => Some(3),
        Op::ExtCodeCopy | Op::Create2 | Op::Log2 => Some(4),
        Op::Log3 => Some(5),
        Op::StaticCall | Op::DelegateCall | Op::Log4 => Some(6),
        Op::Call | Op::CallCode => Some(7),
        _ => None,
    }
}

/// The type of the result of an operation that is written with operands only.
pub open spec fn result_type(op: Op) -> Option<MirType> {
    match op {
        Op::Add | Op::Sub | Op::Mul | Op::Div | Op::Mod | Op::Exp | Op::AddMod | Op::MulMod
        | Op::And | Op::Or | Op::Xor | Op::Not | Op::Clz | Op::Shl | Op::Shr | Op::Byte
        | Op::MLoad | Op::MSize | Op::SLoad | Op::TLoad | Op::CalldataLoad | Op::CalldataSize
        | Op::SlicePtr | Op::SliceLen | Op::CodeSize | Op::ExtCodeSize | Op::ExtCodeHash
        | Op::ReturnDataSize | Op::CallValue | Op::GasPrice | Op::Timestamp | Op::BlockNumber
        | Op::PrevRandao | Op::GasLimit | Op::ChainId | Op::SelfBalance | Op::Gas | Op::BaseFee
        | Op::BlobBaseFee | Op::Balance | Op::Call | Op::CallCode | Op::StaticCall
        | Op::DelegateCall | Op::Select => Some(MirType::uint256()),
        Op::SDiv | Op::SMod | Op::Sar | Op::SignExtend => Some(MirType::int256()),
        Op::Lt | Op::Gt | Op::SLt | Op::SGt | Op::Eq | Op::IsZero => Some(MirType::Bool),
        Op::MStore | Op::MStore8 | Op::MemoryZero | Op::MCopy | Op::SStore | Op::TStore
        | Op::SetFmp | Op::CalldataCopy | Op::CodeCopy | Op::ExtCodeCopy | Op::ReturnDataCopy
        | Op::Log0 | Op::Log1 | Op::Log2 | Op::Log3 | Op::Log4 => None,
        Op::Fmp => Some(MirType::MemPtr),
        Op::Caller | Op::Origin | Op::Coinbase | Op::Address | Op::Create | Op::Create2 => Some(
            MirType::Address,
        ),
        Op::BlockHash | Op::BlobHash | Op::Keccak256 | Op::Keccak256Bytes | Op::MappingSlot
        | Op::MappingSlotMemory | Op::MappingSlotCalldata => Some(MirType::FixedBytes(32)),
        _ => None,
    }
}

/// The name that an instruction is written with.
pub open spec fn kind_mnemonic(kind: KindView) -> Seq<char> {
    match kind {
        KindView::Inst { op, args } => mnemonic(op),
        KindView::Phi(_) => "phi"@,
    }
}

/// The name that a terminator is written with.
pub open spec fn term_mnemonic(term: TermView) -> Seq<char> {
    match term {
        TermView::Jump(_) => "jump"@,
        TermView::Branch { .. } => "jumpi"@,
        TermView::Switch { .. } => "switch"@,
        TermView::Return(_) => "ret"@,
        TermView::Revert { .. } => "revert"@,
        TermView::ReturnData { .. } => "returndata"@,
        TermView::Stop => "stop"@,
        TermView::SelfDestruct { .. } => "selfdestruct"@,
        TermView::Invalid => "invalid"@,
        TermView::TailCall { .. } => "tail_call"@,
    }
}

} // verus!
