//! Instructions and terminators.

use crate::mir::list::ValueList;
use crate::mir::types::{
    AbiLayoutRef, AbiTypeView, AllocationKind, AllocationSemantics, BlockId, EffectKind, ExprId,
    FunctionId, MemoryObjectKind, MemoryObjectLayout, MemoryRegion, MirType, SliceLocation, Span,
    StorageAlias, StorageLayoutRef, StorageLayoutView, ValueId,
};
use vstd::prelude::*;

verus! {

/// What an instruction computes, with its operands.
#[derive(Debug)]
#[allow(inconsistent_fields)]
pub enum InstKind {
    /// Sum.
    Add(ValueId, ValueId),
    /// Difference.
    Sub(ValueId, ValueId),
    /// Product.
    Mul(ValueId, ValueId),
    /// Unsigned quotient.
    Div(ValueId, ValueId),
    /// Signed quotient.
    SDiv(ValueId, ValueId),
    /// Unsigned remainder.
    Mod(ValueId, ValueId),
    /// Signed remainder.
    SMod(ValueId, ValueId),
    /// Power.
    Exp(ValueId, ValueId),
    /// Sum modulo the third operand.
    AddMod(ValueId, ValueId, ValueId),
    /// Product modulo the third operand.
    MulMod(ValueId, ValueId, ValueId),
    /// Bitwise and.
    And(ValueId, ValueId),
    /// Bitwise or.
    Or(ValueId, ValueId),
    /// Bitwise exclusive or.
    Xor(ValueId, ValueId),
    /// Bitwise complement.
    Not(ValueId),
    /// Count of leading zero bits.
    Clz(ValueId),
    /// Left shift of the second operand.
    Shl(ValueId, ValueId),
    /// Logical right shift of the second operand.
    Shr(ValueId, ValueId),
    /// Arithmetic right shift of the second operand.
    Sar(ValueId, ValueId),
    /// One byte of the second operand.
    Byte(ValueId, ValueId),
    /// Sign extension of the second operand.
    SignExtend(ValueId, ValueId),
    /// Unsigned less-than.
    Lt(ValueId, ValueId),
    /// Unsigned greater-than.
    Gt(ValueId, ValueId),
    /// Signed less-than.
    SLt(ValueId, ValueId),
    /// Signed greater-than.
    SGt(ValueId, ValueId),
    /// Equality.
    Eq(ValueId, ValueId),
    /// Comparison with zero.
    IsZero(ValueId),
    /// Memory load.
    MLoad(ValueId),
    /// Memory store of a word.
    MStore(ValueId, ValueId),
    /// Memory store of a byte.
    MStore8(ValueId, ValueId),
    /// Zeroing of a memory range.
    MemoryZero(ValueId, ValueId),
    /// Size of the touched memory.
    MSize,
    /// Copy within memory.
    MCopy(ValueId, ValueId, ValueId),
    /// Storage load.
    SLoad(ValueId),
    /// Storage store.
    SStore(ValueId, ValueId),
    /// Transient storage load.
    TLoad(ValueId),
    /// Transient storage store.
    TStore(ValueId, ValueId),
    /// Free-memory pointer.
    Fmp,
    /// Update of the free-memory pointer.
    SetFmp(ValueId),
    /// Call data load.
    CalldataLoad(ValueId),
    /// Size of the call data.
    CalldataSize,
    /// Copy of call data into memory.
    CalldataCopy(ValueId, ValueId, ValueId),
    /// Pointer of a slice.
    SlicePtr(ValueId),
    /// Length of a slice.
    SliceLen(ValueId),
    /// Size of the running code.
    CodeSize,
    /// Copy of code into memory.
    CodeCopy(ValueId, ValueId, ValueId),
    /// Size of an account's code.
    ExtCodeSize(ValueId),
    /// Copy of an account's code into memory.
    ExtCodeCopy(ValueId, ValueId, ValueId, ValueId),
    /// Hash of an account's code.
    ExtCodeHash(ValueId),
    /// Size of the return data.
    ReturnDataSize,
    /// Copy of return data into memory.
    ReturnDataCopy(ValueId, ValueId, ValueId),
    /// Calling account.
    Caller,
    /// Value sent with the call.
    CallValue,
    /// Originating account.
    Origin,
    /// Gas price.
    GasPrice,
    /// Block beneficiary.
    Coinbase,
    /// Block time.
    Timestamp,
    /// Block number.
    BlockNumber,
    /// Block randomness.
    PrevRandao,
    /// Block gas limit.
    GasLimit,
    /// Chain identifier.
    ChainId,
    /// Address of the running account.
    Address,
    /// Balance of the running account.
    SelfBalance,
    /// Remaining gas.
    Gas,
    /// Base fee.
    BaseFee,
    /// Blob base fee.
    BlobBaseFee,
    /// Hash of a block.
    BlockHash(ValueId),
    /// Balance of an account.
    Balance(ValueId),
    /// Versioned hash of a blob.
    BlobHash(ValueId),
    /// Hash of a memory range.
    Keccak256(ValueId, ValueId),
    /// Hash of a bytes object.
    Keccak256Bytes(ValueId),
    /// Slot of a mapping entry with a word key.
    MappingSlot(ValueId, ValueId),
    /// Slot of a mapping entry with a key in memory.
    MappingSlotMemory(ValueId, ValueId),
    /// Slot of a mapping entry with a key in the call data.
    MappingSlotCalldata(ValueId, ValueId),
    /// Account creation.
    Create(ValueId, ValueId, ValueId),
    /// Account creation at a salted address.
    Create2(ValueId, ValueId, ValueId, ValueId),
    /// Log entry without topics.
    Log0(ValueId, ValueId),
    /// Log entry with one topic.
    Log1(ValueId, ValueId, ValueId),
    /// Log entry with two topics.
    Log2(ValueId, ValueId, ValueId, ValueId),
    /// Log entry with three topics.
    Log3(ValueId, ValueId, ValueId, ValueId, ValueId),
    /// Log entry with four topics.
    Log4(ValueId, ValueId, ValueId, ValueId, ValueId, ValueId),
    /// Choice between two values.
    Select(ValueId, ValueId, ValueId),
    /// Call of another account.
    Call {
        /// Operand `gas`.
        gas: ValueId,
        /// Operand `addr`.
        addr: ValueId,
        /// Operand `value`.
        value: ValueId,
        /// Operand `args_offset`.
        args_offset: ValueId,
        /// Operand `args_size`.
        args_size: ValueId,
        /// Operand `ret_offset`.
        ret_offset: ValueId,
        /// Operand `ret_size`.
        ret_size: ValueId,
    },
    /// Call of another account's code.
    CallCode {
        /// Operand `gas`.
        gas: ValueId,
        /// Operand `addr`.
        addr: ValueId,
        /// Operand `value`.
        value: ValueId,
        /// Operand `args_offset`.
        args_offset: ValueId,
        /// Operand `args_size`.
        args_size: ValueId,
        /// Operand `ret_offset`.
        ret_offset: ValueId,
        /// Operand `ret_size`.
        ret_size: ValueId,
    },
    /// Read-only call of another account.
    StaticCall {
        /// Operand `gas`.
        gas: ValueId,
        /// Operand `addr`.
        addr: ValueId,
        /// Operand `args_offset`.
        args_offset: ValueId,
        /// Operand `args_size`.
        args_size: ValueId,
        /// Operand `ret_offset`.
        ret_offset: ValueId,
        /// Operand `ret_size`.
        ret_size: ValueId,
    },
    /// Call of another account's code in this account's context.
    DelegateCall {
        /// Operand `gas`.
        gas: ValueId,
        /// Operand `addr`.
        addr: ValueId,
        /// Operand `args_offset`.
        args_offset: ValueId,
        /// Operand `args_size`.
        args_size: ValueId,
        /// Operand `ret_offset`.
        ret_offset: ValueId,
        /// Operand `ret_size`.
        ret_size: ValueId,
    },
    /// Memory allocation.
    Alloc {
        /// Operand `size`.
        size: ValueId,
        /// The kind.
        kind: AllocationKind,
        /// The semantics.
        semantics: AllocationSemantics,
    },
    /// Length of a dynamic object.
    MemoryObjectLen(ValueId, MemoryObjectKind),
    /// Update of the length of a dynamic object.
    SetMemoryObjectLen(ValueId, ValueId, MemoryObjectKind),
    /// Data address of an object.
    MemoryObjectData(ValueId, MemoryObjectKind),
    /// Address of a struct field.
    MemoryObjectFieldAddr {
        /// Operand `object`.
        object: ValueId,
        /// The layout.
        layout: MemoryObjectLayout,
        /// The field.
        field: u64,
    },
    /// Address of an array element.
    MemoryObjectElementAddr {
        /// Operand `object`.
        object: ValueId,
        /// Operand `index`.
        index: ValueId,
        /// The layout.
        layout: MemoryObjectLayout,
    },
    /// Copy of an aggregate from storage to memory.
    StorageToMemory {
        /// Operand `storage`.
        storage: ValueId,
        /// Operand `memory`.
        memory: ValueId,
        /// The layout.
        layout: StorageLayoutRef,
    },
    /// Copy of an aggregate from memory to storage.
    MemoryToStorage {
        /// Operand `memory`.
        memory: ValueId,
        /// Operand `storage`.
        storage: ValueId,
        /// The layout.
        layout: StorageLayoutRef,
    },
    /// Clearing of an aggregate in storage.
    ClearStorage {
        /// Operand `storage`.
        storage: ValueId,
        /// The layout.
        layout: StorageLayoutRef,
    },
    /// Slice from a pointer and a length.
    MakeSlice {
        /// Operand `ptr`.
        ptr: ValueId,
        /// Operand `len`.
        len: ValueId,
        /// The location.
        location: SliceLocation,
    },
    /// Immutable embedded in the code.
    LoadImmutable(u32),
    /// Address in the current internal-call frame.
    InternalFrameAddr(u64),
    /// ABI encoding of the arguments into fresh memory.
    AbiEncode {
        /// Operand in front of the arguments.
        selector: Option<ValueId>,
        /// The arguments.
        args: Vec<ValueId>,
        /// Their types.
        layout: AbiLayoutRef,
    },
    /// Call of a function of this module.
    InternalCall {
        /// The callee.
        function: FunctionId,
        /// The arguments.
        args: Vec<ValueId>,
        /// Number of values it returns.
        return_count: u32,
    },
    /// The value that belongs to the edge by which control arrived.
    Phi(Vec<(BlockId, ValueId)>),
}

/// The operation of an instruction, apart from its operands.
#[verifier::ext_equal]
#[allow(inconsistent_fields)]
pub enum Op {
    /// Sum.
    Add,
    /// Difference.
    Sub,
    /// Product.
    Mul,
    /// Unsigned quotient.
    Div,
    /// Signed quotient.
    SDiv,
    /// Unsigned remainder.
    Mod,
    /// Signed remainder.
    SMod,
    /// Power.
    Exp,
    /// Sum modulo the third operand.
    AddMod,
    /// Product modulo the third operand.
    MulMod,
    /// Bitwise and.
    And,
    /// Bitwise or.
    Or,
    /// Bitwise exclusive or.
    Xor,
    /// Bitwise complement.
    Not,
    /// Count of leading zero bits.
    Clz,
    /// Left shift of the second operand.
    Shl,
    /// Logical right shift of the second operand.
    Shr,
    /// Arithmetic right shift of the second operand.
    Sar,
    /// One byte of the second operand.
    Byte,
    /// Sign extension of the second operand.
    SignExtend,
    /// Unsigned less-than.
    Lt,
    /// Unsigned greater-than.
    Gt,
    /// Signed less-than.
    SLt,
    /// Signed greater-than.
    SGt,
    /// Equality.
    Eq,
    /// Comparison with zero.
    IsZero,
    /// Memory load.
    MLoad,
    /// Memory store of a word.
    MStore,
    /// Memory store of a byte.
    MStore8,
    /// Zeroing of a memory range.
    MemoryZero,
    /// Size of the touched memory.
    MSize,
    /// Copy within memory.
    MCopy,
    /// Storage load.
    SLoad,
    /// Storage store.
    SStore,
    /// Transient storage load.
    TLoad,
    /// Transient storage store.
    TStore,
    /// Free-memory pointer.
    Fmp,
    /// Update of the free-memory pointer.
    SetFmp,
    /// Call data load.
    CalldataLoad,
    /// Size of the call data.
    CalldataSize,
    /// Copy of call data into memory.
    CalldataCopy,
    /// Pointer of a slice.
    SlicePtr,
    /// Length of a slice.
    SliceLen,
    /// Size of the running code.
    CodeSize,
    /// Copy of code into memory.
    CodeCopy,
    /// Size of an account's code.
    ExtCodeSize,
    /// Copy of an account's code into memory.
    ExtCodeCopy,
    /// Hash of an account's code.
    ExtCodeHash,
    /// Size of the return data.
    ReturnDataSize,
    /// Copy of return data into memory.
    ReturnDataCopy,
    /// Calling account.
    Caller,
    /// Value sent with the call.
    CallValue,
    /// Originating account.
    Origin,
    /// Gas price.
    GasPrice,
    /// Block beneficiary.
    Coinbase,
    /// Block time.
    Timestamp,
    /// Block number.
    BlockNumber,
    /// Block randomness.
    PrevRandao,
    /// Block gas limit.
    GasLimit,
    /// Chain identifier.
    ChainId,
    /// Address of the running account.
    Address,
    /// Balance of the running account.
    SelfBalance,
    /// Remaining gas.
    Gas,
    /// Base fee.
    BaseFee,
    /// Blob base fee.
    BlobBaseFee,
    /// Hash of a block.
    BlockHash,
    /// Balance of an account.
    Balance,
    /// Versioned hash of a blob.
    BlobHash,
    /// Hash of a memory range.
    Keccak256,
    /// Hash of a bytes object.
    Keccak256Bytes,
    /// Slot of a mapping entry with a word key.
    MappingSlot,
    /// Slot of a mapping entry with a key in memory.
    MappingSlotMemory,
    /// Slot of a mapping entry with a key in the call data.
    MappingSlotCalldata,
    /// Account creation.
    Create,
    /// Account creation at a salted address.
    Create2,
    /// Log entry without topics.
    Log0,
    /// Log entry with one topic.
    Log1,
    /// Log entry with two topics.
    Log2,
    /// Log entry with three topics.
    Log3,
    /// Log entry with four topics.
    Log4,
    /// Choice between two values.
    Select,
    /// Call of another account.
    Call,
    /// Call of another account's code.
    CallCode,
    /// Read-only call of another account.
    StaticCall,
    /// Call of another account's code in this account's context.
    DelegateCall,
    /// Memory allocation.
    Alloc {
        /// The kind.
        kind: AllocationKind,
        /// The semantics.
        semantics: AllocationSemantics,
    },
    /// Length of a dynamic object.
    MemoryObjectLen {
        /// The kind.
        kind: MemoryObjectKind,
    },
    /// Update of the length of a dynamic object.
    SetMemoryObjectLen {
        /// The kind.
        kind: MemoryObjectKind,
    },
    /// Data address of an object.
    MemoryObjectData {
        /// The kind.
        kind: MemoryObjectKind,
    },
    /// Address of a struct field.
    MemoryObjectFieldAddr {
        /// The layout.
        layout: MemoryObjectLayout,
        /// The field.
        field: u64,
    },
    /// Address of an array element.
    MemoryObjectElementAddr {
        /// The layout.
        layout: MemoryObjectLayout,
    },
    /// Copy of an aggregate from storage to memory.
    StorageToMemory {
        /// The layout.
        layout: StorageLayoutView,
    },
    /// Copy of an aggregate from memory to storage.
    MemoryToStorage {
        /// The layout.
        layout: StorageLayoutView,
    },
    /// Clearing of an aggregate in storage.
    ClearStorage {
        /// The layout.
        layout: StorageLayoutView,
    },
    /// Slice from a pointer and a length.
    MakeSlice {
        /// The location.
        location: SliceLocation,
    },
    /// Immutable embedded in the code.
    LoadImmutable {
        /// The offset.
        offset: u32,
    },
    /// Address in the current internal-call frame.
    InternalFrameAddr {
        /// The offset.
        offset: u64,
    },
    /// ABI encoding; the first operand is the selector where there is one.
    AbiEncode {
        /// Whether there is a selector.
        selector: bool,
        /// The types of the arguments.
        layout: Seq<AbiTypeView>,
    },
    /// Call of a function of this module.
    InternalCall {
        /// The callee.
        function: FunctionId,
        /// Number of values it returns.
        return_count: u32,
    },
}

/// The mathematical value of an [`InstKind`].
#[verifier::ext_equal]
pub enum KindView {
    /// An operation on operands.
    Inst {
        /// The operation.
        op: Op,
        /// The operands, in order.
        args: Seq<ValueId>,
    },
    /// A phi with its incoming edges.
    Phi(Seq<(BlockId, ValueId)>),
}

/// An operation applied to operands.
pub open spec fn inst(op: Op, args: Seq<ValueId>) -> KindView {
    KindView::Inst { op, args }
}

/// The operands of an instruction, in order.
pub open spec fn operands_of(kind: KindView) -> Seq<ValueId> {
    match kind {
        KindView::Inst { op, args } => args,
        KindView::Phi(incoming) => incoming.map_values(|edge: (BlockId, ValueId)| edge.1),
    }
}

/// The same instruction on other operands.
pub open spec fn with_operands_of(kind: KindView, operands: Seq<ValueId>) -> KindView {
    match kind {
        KindView::Inst { op, args } => KindView::Inst { op, args: operands },
        KindView::Phi(incoming) => KindView::Phi(
            Seq::new(incoming.len(), |i: int| (incoming[i].0, operands[i])),
        ),
    }
}

/// The optional selector operand followed by the arguments.
pub open spec fn encode_operands(selector: Option<ValueId>, args: Seq<ValueId>) -> Seq<ValueId> {
    match selector {
        Some(value) => seq![value] + args,
        None => args,
    }
}

impl View for InstKind {
    type V = KindView;

    open spec fn view(&self) -> KindView {
        match *self {
            InstKind::Add(a, b) => inst(Op::Add, seq![a, b]),
            InstKind::Sub(a, b) => inst(Op::Sub, seq![a, b]),
            InstKind::Mul(a, b) => inst(Op::Mul, seq![a, b]),
            InstKind::Div(a, b) => inst(Op::Div, seq![a, b]),
            InstKind::SDiv(a, b) => inst(Op::SDiv, seq![a, b]),
            InstKind::Mod(a, b) => inst(Op::Mod, seq![a, b]),
            InstKind::SMod(a, b) => inst(Op::SMod, seq![a, b]),
            InstKind::Exp(a, b) => inst(Op::Exp, seq![a, b]),
            InstKind::AddMod(a, b, c) => inst(Op::AddMod, seq![a, b, c]),
            InstKind::MulMod(a, b, c) => inst(Op::MulMod, seq![a, b, c]),
            InstKind::And(a, b) => inst(Op::And, seq![a, b]),
            InstKind::Or(a, b) => inst(Op::Or, seq![a, b]),
            InstKind::Xor(a, b) => inst(Op::Xor, seq![a, b]),
            InstKind::Not(a) => inst(Op::Not, seq![a]),
            InstKind::Clz(a) => inst(Op::Clz, seq![a]),
            InstKind::Shl(a, b) => inst(Op::Shl, seq![a, b]),
            InstKind::Shr(a, b) => inst(Op::Shr, seq![a, b]),
            InstKind::Sar(a, b) => inst(Op::Sar, seq![a, b]),
            InstKind::Byte(a, b) => inst(Op::Byte, seq![a, b]),
            InstKind::SignExtend(a, b) => inst(Op::SignExtend, seq![a, b]),
            InstKind::Lt(a, b) => inst(Op::Lt, seq![a, b]),
            InstKind::Gt(a, b) => inst(Op::Gt, seq![a, b]),
            InstKind::SLt(a, b) => inst(Op::SLt, seq![a, b]),
            InstKind::SGt(a, b) => inst(Op::SGt, seq![a, b]),
            InstKind::Eq(a, b) => inst(Op::Eq, seq![a, b]),
            InstKind::IsZero(a) => inst(Op::IsZero, seq![a]),
            InstKind::MLoad(a) => inst(Op::MLoad, seq![a]),
            InstKind::MStore(a, b) => inst(Op::MStore, seq![a, b]),
            InstKind::MStore8(a, b) => inst(Op::MStore8, seq![a, b]),
            InstKind::MemoryZero(a, b) => inst(Op::MemoryZero, seq![a, b]),
            InstKind::MSize => inst(Op::MSize, seq![]),
            InstKind::MCopy(a, b, c) => inst(Op::MCopy, seq![a, b, c]),
            InstKind::SLoad(a) => inst(Op::SLoad, seq![a]),
            InstKind::SStore(a, b) => inst(Op::SStore, seq![a, b]),
            InstKind::TLoad(a) => inst(Op::TLoad, seq![a]),
            InstKind::TStore(a, b) => inst(Op::TStore, seq![a, b]),
            InstKind::Fmp => inst(Op::Fmp, seq![]),
            InstKind::SetFmp(a) => inst(Op::SetFmp, seq![a]),
            InstKind::CalldataLoad(a) => inst(Op::CalldataLoad, seq![a]),
            InstKind::CalldataSize => inst(Op::CalldataSize, seq![]),
            InstKind::CalldataCopy(a, b, c) => inst(Op::CalldataCopy, seq![a, b, c]),
            InstKind::SlicePtr(a) => inst(Op::SlicePtr, seq![a]),
            InstKind::SliceLen(a) => inst(Op::SliceLen, seq![a]),
            InstKind::CodeSize => inst(Op::CodeSize, seq![]),
            InstKind::CodeCopy(a, b, c) => inst(Op::CodeCopy, seq![a, b, c]),
            InstKind::ExtCodeSize(a) => inst(Op::ExtCodeSize, seq![a]),
            InstKind::ExtCodeCopy(a, b, c, d) => inst(Op::ExtCodeCopy, seq![a, b, c, d]),
            InstKind::ExtCodeHash(a) => inst(Op::ExtCodeHash, seq![a]),
            InstKind::ReturnDataSize => inst(Op::ReturnDataSize, seq![]),
            InstKind::ReturnDataCopy(a, b, c) => inst(Op::ReturnDataCopy, seq![a, b, c]),
            InstKind::Caller => inst(Op::Caller, seq![]),
            InstKind::CallValue => inst(Op::CallValue, seq![]),
            InstKind::Origin => inst(Op::Origin, seq![]),
            InstKind::GasPrice => inst(Op::GasPrice, seq![]),
            InstKind::Coinbase => inst(Op::Coinbase, seq![]),
            InstKind::Timestamp => inst(Op::Timestamp, seq![]),
            InstKind::BlockNumber => inst(Op::BlockNumber, seq![]),
            InstKind::PrevRandao => inst(Op::PrevRandao, seq![]),
            InstKind::GasLimit => inst(Op::GasLimit, seq![]),
            InstKind::ChainId => inst(Op::ChainId, seq![]),
            InstKind::Address => inst(Op::Address, seq![]),
            InstKind::SelfBalance => inst(Op::SelfBalance, seq![]),
            InstKind::Gas => inst(Op::Gas, seq![]),
            InstKind::BaseFee => inst(Op::BaseFee, seq![]),
            InstKind::BlobBaseFee => inst(Op::BlobBaseFee, seq![]),
            InstKind::BlockHash(a) => inst(Op::BlockHash, seq![a]),
            InstKind::Balance(a) => inst(Op::Balance, seq![a]),
            InstKind::BlobHash(a) => inst(Op::BlobHash, seq![a]),
            InstKind::Keccak256(a, b) => inst(Op::Keccak256, seq![a, b]),
            InstKind::Keccak256Bytes(a) => inst(Op::Keccak256Bytes, seq![a]),
            InstKind::MappingSlot(a, b) => inst(Op::MappingSlot, seq![a, b]),
            InstKind::MappingSlotMemory(a, b) => inst(Op::MappingSlotMemory, seq![a, b]),
            InstKind::MappingSlotCalldata(a, b) => inst(Op::MappingSlotCalldata, seq![a, b]),
            InstKind::Create(a, b, c) => inst(Op::Create, seq![a, b, c]),
            InstKind::Create2(a, b, c, d) => inst(Op::Create2, seq![a, b, c, d]),
            InstKind::Log0(a, b) => inst(Op::Log0, seq![a, b]),
            InstKind::Log1(a, b, c) => inst(Op::Log1, seq![a, b, c]),
            InstKind::Log2(a, b, c, d) => inst(Op::Log2, seq![a, b, c, d]),
            InstKind::Log3(a, b, c, d, e) => inst(Op::Log3, seq![a, b, c, d, e]),
            InstKind::Log4(a, b, c, d, e, f) => inst(Op::Log4, seq![a, b, c, d, e, f]),
            InstKind::Select(a, b, c) => inst(Op::Select, seq![a, b, c]),
            InstKind::Call { gas, addr, value, args_offset, args_size, ret_offset, ret_size } => inst(
                Op::Call,
                seq![gas, addr, value, args_offset, args_size, ret_offset, ret_size],
            ),
            InstKind::CallCode { gas, addr, value, args_offset, args_size, ret_offset, ret_size } => inst(
                Op::CallCode,
                seq![gas, addr, value, args_offset, args_size, ret_offset, ret_size],
            ),
            InstKind::StaticCall { gas, addr, args_offset, args_size, ret_offset, ret_size } => inst(
                Op::StaticCall,
                seq![gas, addr, args_offset, args_size, ret_offset, ret_size],
            ),
            InstKind::DelegateCall { gas, addr, args_offset, args_size, ret_offset, ret_size } => inst(
                Op::DelegateCall,
                seq![gas, addr, args_offset, args_size, ret_offset, ret_size],
            ),
            InstKind::Alloc { size, kind, semantics } => inst(
                Op::Alloc { kind, semantics },
                seq![size],
            ),
            InstKind::MemoryObjectLen(object, kind) => inst(
                Op::MemoryObjectLen { kind },
                seq![object],
            ),
            InstKind::SetMemoryObjectLen(object, len, kind) => inst(
                Op::SetMemoryObjectLen { kind },
                seq![object, len],
            ),
            InstKind::MemoryObjectData(object, kind) => inst(
                Op::MemoryObjectData { kind },
                seq![object],
            ),
            InstKind::MemoryObjectFieldAddr { object, layout, field } => inst(
                Op::MemoryObjectFieldAddr { layout, field },
                seq![object],
            ),
            InstKind::MemoryObjectElementAddr { object, index, layout } => inst(
                Op::MemoryObjectElementAddr { layout },
                seq![object, index],
            ),
            InstKind::StorageToMemory { storage, memory, layout } => inst(
                Op::StorageToMemory { layout: layout@ },
                seq![storage, memory],
            ),
            InstKind::MemoryToStorage { memory, storage, layout } => inst(
                Op::MemoryToStorage { layout: layout@ },
                seq![memory, storage],
            ),
            InstKind::ClearStorage { storage, layout } => inst(
                Op::ClearStorage { layout: layout@ },
                seq![storage],
            ),
            InstKind::MakeSlice { ptr, len, location } => inst(
                Op::MakeSlice { location },
                seq![ptr, len],
            ),
            InstKind::LoadImmutable(offset) => inst(
                Op::LoadImmutable { offset },
                seq![],
            ),
            InstKind::InternalFrameAddr(offset) => inst(
                Op::InternalFrameAddr { offset },
                seq![],
            ),
            InstKind::AbiEncode { selector, args, layout } => inst(
                Op::AbiEncode { selector: selector is Some, layout: layout@ },
                encode_operands(selector, args@),
            ),
            InstKind::InternalCall { function, args, return_count } => inst(
                Op::InternalCall { function, return_count },
                args@,
            ),
            InstKind::Phi(incoming) => KindView::Phi(incoming@),
        }
    }
}

/// What an operation does besides computing its result.
pub open spec fn effect_of(kind: KindView) -> EffectKind {
    match kind {
        KindView::Phi(_) => EffectKind::Pure,
        KindView::Inst { op, args } => match op {
            Op::Add
            | Op::Sub
            | Op::Mul
            | Op::Div
            | Op::SDiv
            | Op::Mod
            | Op::SMod
            | Op::Exp
            | Op::AddMod
            | Op::MulMod
            | Op::And
            | Op::Or
            | Op::Xor
            | Op::Not
            | Op::Clz
            | Op::Shl
            | Op::Shr
            | Op::Sar
            | Op::Byte
            | Op::SignExtend
            | Op::Lt
            | Op::Gt
            | Op::SLt
            | Op::SGt
            | Op::Eq
            | Op::IsZero
            | Op::SlicePtr
            | Op::SliceLen
            | Op::MappingSlot
            | Op::Select
            | Op::MemoryObjectData { .. }
            | Op::MemoryObjectFieldAddr { .. }
            | Op::MemoryObjectElementAddr { .. }
            | Op::MakeSlice { .. }
            | Op::LoadImmutable { .. }
            | Op::InternalFrameAddr { .. } => EffectKind::Pure,
            Op::MLoad
            | Op::MSize
            | Op::Fmp
            | Op::Keccak256
            | Op::Keccak256Bytes
            | Op::MappingSlotMemory
            | Op::MemoryObjectLen { .. } => EffectKind::MemoryRead,
            Op::MStore
            | Op::MStore8
            | Op::MemoryZero
            | Op::MCopy
            | Op::SetFmp
            | Op::CalldataCopy
            | Op::CodeCopy
            | Op::ExtCodeCopy
            | Op::ReturnDataCopy
            | Op::Alloc { .. }
            | Op::SetMemoryObjectLen { .. }
            | Op::StorageToMemory { .. }
            | Op::AbiEncode { .. } => EffectKind::MemoryWrite,
            Op::SLoad => EffectKind::StorageRead,
            Op::SStore
            | Op::MemoryToStorage { .. }
            | Op::ClearStorage { .. } => EffectKind::StorageWrite,
            Op::TLoad => EffectKind::TransientRead,
            Op::TStore => EffectKind::TransientWrite,
            Op::CalldataLoad
            | Op::CalldataSize
            | Op::CodeSize
            | Op::ExtCodeSize
            | Op::ExtCodeHash
            | Op::ReturnDataSize
            | Op::Caller
            | Op::CallValue
            | Op::Origin
            | Op::GasPrice
            | Op::Coinbase
            | Op::Timestamp
            | Op::BlockNumber
            | Op::PrevRandao
            | Op::GasLimit
            | Op::ChainId
            | Op::Address
            | Op::SelfBalance
            | Op::Gas
            | Op::BaseFee
            | Op::BlobBaseFee
            | Op::BlockHash
            | Op::Balance
            | Op::BlobHash
            | Op::MappingSlotCalldata => EffectKind::EnvironmentRead,
            Op::Create
            | Op::Create2 => EffectKind::Create,
            Op::Log0
            | Op::Log1
            | Op::Log2
            | Op::Log3
            | Op::Log4 => EffectKind::Log,
            Op::Call
            | Op::CallCode
            | Op::StaticCall
            | Op::DelegateCall => EffectKind::ExternalCall,
            Op::InternalCall { .. } => EffectKind::InternalCall,
        },
    }
}

impl InstKind {
    /// What the instruction does besides computing its result.
    pub fn effect_kind(&self) -> (r: EffectKind)
        ensures
            r == effect_of(self@),
    {
        match self {
            InstKind::Add(..)
            | InstKind::Sub(..)
            | InstKind::Mul(..)
            | InstKind::Div(..)
            | InstKind::SDiv(..)
            | InstKind::Mod(..)
            | InstKind::SMod(..)
            | InstKind::Exp(..)
            | InstKind::AddMod(..)
            | InstKind::MulMod(..)
            | InstKind::And(..)
            | InstKind::Or(..)
            | InstKind::Xor(..)
            | InstKind::Not(..)
            | InstKind::Clz(..)
            | InstKind::Shl(..)
            | InstKind::Shr(..)
            | InstKind::Sar(..)
            | InstKind::Byte(..)
            | InstKind::SignExtend(..)
            | InstKind::Lt(..)
            | InstKind::Gt(..)
            | InstKind::SLt(..)
            | InstKind::SGt(..)
            | InstKind::Eq(..)
            | InstKind::IsZero(..)
            | InstKind::SlicePtr(..)
            | InstKind::SliceLen(..)
            | InstKind::MappingSlot(..)
            | InstKind::Select(..)
            | InstKind::MemoryObjectData(..)
            | InstKind::MemoryObjectFieldAddr { .. }
            | InstKind::MemoryObjectElementAddr { .. }
            | InstKind::MakeSlice { .. }
            | InstKind::LoadImmutable(..)
            | InstKind::InternalFrameAddr(..)
            | InstKind::Phi(..) => EffectKind::Pure,
            InstKind::MLoad(..)
            | InstKind::MSize
            | InstKind::Fmp
            | InstKind::Keccak256(..)
            | InstKind::Keccak256Bytes(..)
            | InstKind::MappingSlotMemory(..)
            | InstKind::MemoryObjectLen(..) => EffectKind::MemoryRead,
            InstKind::MStore(..)
            | InstKind::MStore8(..)
            | InstKind::MemoryZero(..)
            | InstKind::MCopy(..)
            | InstKind::SetFmp(..)
            | InstKind::CalldataCopy(..)
            | InstKind::CodeCopy(..)
            | InstKind::ExtCodeCopy(..)
            | InstKind::ReturnDataCopy(..)
            | InstKind::Alloc { .. }
            | InstKind::SetMemoryObjectLen(..)
            | InstKind::StorageToMemory { .. }
            | InstKind::AbiEncode { .. } => EffectKind::MemoryWrite,
            InstKind::SLoad(..) => EffectKind::StorageRead,
            InstKind::SStore(..)
            | InstKind::MemoryToStorage { .. }
            | InstKind::ClearStorage { .. } => EffectKind::StorageWrite,
            InstKind::TLoad(..) => EffectKind::TransientRead,
            InstKind::TStore(..) => EffectKind::TransientWrite,
            InstKind::CalldataLoad(..)
            | InstKind::CalldataSize
            | InstKind::CodeSize
            | InstKind::ExtCodeSize(..)
            | InstKind::ExtCodeHash(..)
            | InstKind::ReturnDataSize
            | InstKind::Caller
            | InstKind::CallValue
            | InstKind::Origin
            | InstKind::GasPrice
            | InstKind::Coinbase
            | InstKind::Timestamp
            | InstKind::BlockNumber
            | InstKind::PrevRandao
            | InstKind::GasLimit
            | InstKind::ChainId
            | InstKind::Address
            | InstKind::SelfBalance
            | InstKind::Gas
            | InstKind::BaseFee
            | InstKind::BlobBaseFee
            | InstKind::BlockHash(..)
            | InstKind::Balance(..)
            | InstKind::BlobHash(..)
            | InstKind::MappingSlotCalldata(..) => EffectKind::EnvironmentRead,
            InstKind::Create(..)
            | InstKind::Create2(..) => EffectKind::Create,
            InstKind::Log0(..)
            | InstKind::Log1(..)
            | InstKind::Log2(..)
            | InstKind::Log3(..)
            | InstKind::Log4(..) => EffectKind::Log,
            InstKind::Call { .. }
            | InstKind::CallCode { .. }
            | InstKind::StaticCall { .. }
            | InstKind::DelegateCall { .. } => EffectKind::ExternalCall,
            InstKind::InternalCall { .. } => EffectKind::InternalCall,
        }
    }

    /// The operands, in order.
    #[verifier::rlimit(60)]
    pub fn operands(&self) -> (r: Vec<ValueId>)
        ensures
            r@ == operands_of(self@),
    {
        match self {
            InstKind::Add(a, b) => vec![*a, *b],
            InstKind::Sub(a, b) => vec![*a, *b],
            InstKind::Mul(a, b) => vec![*a, *b],
            InstKind::Div(a, b) => vec![*a, *b],
            InstKind::SDiv(a, b) => vec![*a, *b],
            InstKind::Mod(a, b) => vec![*a, *b],
            InstKind::SMod(a, b) => vec![*a, *b],
            InstKind::Exp(a, b) => vec![*a, *b],
            InstKind::AddMod(a, b, c) => vec![*a, *b, *c],
            InstKind::MulMod(a, b, c) => vec![*a, *b, *c],
            InstKind::And(a, b) => vec![*a, *b],
            InstKind::Or(a, b) => vec![*a, *b],
            InstKind::Xor(a, b) => vec![*a, *b],
            InstKind::Not(a) => vec![*a],
            InstKind::Clz(a) => vec![*a],
            InstKind::Shl(a, b) => vec![*a, *b],
            InstKind::Shr(a, b) => vec![*a, *b],
            InstKind::Sar(a, b) => vec![*a, *b],
            InstKind::Byte(a, b) => vec![*a, *b],
            InstKind::SignExtend(a, b) => vec![*a, *b],
            InstKind::Lt(a, b) => vec![*a, *b],
            InstKind::Gt(a, b) => vec![*a, *b],
            InstKind::SLt(a, b) => vec![*a, *b],
            InstKind::SGt(a, b) => vec![*a, *b],
            InstKind::Eq(a, b) => vec![*a, *b],
            InstKind::IsZero(a) => vec![*a],
            InstKind::MLoad(a) => vec![*a],
            InstKind::MStore(a, b) => vec![*a, *b],
            InstKind::MStore8(a, b) => vec![*a, *b],
            InstKind::MemoryZero(a, b) => vec![*a, *b],
            InstKind::MSize => Vec::new(),
            InstKind::MCopy(a, b, c) => vec![*a, *b, *c],
            InstKind::SLoad(a) => vec![*a],
            InstKind::SStore(a, b) => vec![*a, *b],
            InstKind::TLoad(a) => vec![*a],
            InstKind::TStore(a, b) => vec![*a, *b],
            InstKind::Fmp => Vec::new(),
            InstKind::SetFmp(a) => vec![*a],
            InstKind::CalldataLoad(a) => vec![*a],
            InstKind::CalldataSize => Vec::new(),
            InstKind::CalldataCopy(a, b, c) => vec![*a, *b, *c],
            InstKind::SlicePtr(a) => vec![*a],
            InstKind::SliceLen(a) => vec![*a],
            InstKind::CodeSize => Vec::new(),
            InstKind::CodeCopy(a, b, c) => vec![*a, *b, *c],
            InstKind::ExtCodeSize(a) => vec![*a],
            InstKind::ExtCodeCopy(a, b, c, d) => vec![*a, *b, *c, *d],
            InstKind::ExtCodeHash(a) => vec![*a],
            InstKind::ReturnDataSize => Vec::new(),
            InstKind::ReturnDataCopy(a, b, c) => vec![*a, *b, *c],
            InstKind::Caller => Vec::new(),
            InstKind::CallValue => Vec::new(),
            InstKind::Origin => Vec::new(),
            InstKind::GasPrice => Vec::new(),
            InstKind::Coinbase => Vec::new(),
            InstKind::Timestamp => Vec::new(),
            InstKind::BlockNumber => Vec::new(),
            InstKind::PrevRandao => Vec::new(),
            InstKind::GasLimit => Vec::new(),
            InstKind::ChainId => Vec::new(),
            InstKind::Address => Vec::new(),
            InstKind::SelfBalance => Vec::new(),
            InstKind::Gas => Vec::new(),
            InstKind::BaseFee => Vec::new(),
            InstKind::BlobBaseFee => Vec::new(),
            InstKind::BlockHash(a) => vec![*a],
            InstKind::Balance(a) => vec![*a],
            InstKind::BlobHash(a) => vec![*a],
            InstKind::Keccak256(a, b) => vec![*a, *b],
            InstKind::Keccak256Bytes(a) => vec![*a],
            InstKind::MappingSlot(a, b) => vec![*a, *b],
            InstKind::MappingSlotMemory(a, b) => vec![*a, *b],
            InstKind::MappingSlotCalldata(a, b) => vec![*a, *b],
            InstKind::Create(a, b, c) => vec![*a, *b, *c],
            InstKind::Create2(a, b, c, d) => vec![*a, *b, *c, *d],
            InstKind::Log0(a, b) => vec![*a, *b],
            InstKind::Log1(a, b, c) => vec![*a, *b, *c],
            InstKind::Log2(a, b, c, d) => vec![*a, *b, *c, *d],
            InstKind::Log3(a, b, c, d, e) => vec![*a, *b, *c, *d, *e],
            InstKind::Log4(a, b, c, d, e, f) => vec![*a, *b, *c, *d, *e, *f],
            InstKind::Select(a, b, c) => vec![*a, *b, *c],
            InstKind::Call { gas, addr, value, args_offset, args_size, ret_offset, ret_size } => vec![
                *gas,
                *addr,
                *value,
                *args_offset,
                *args_size,
                *ret_offset,
                *ret_size,
            ],
            InstKind::CallCode { gas, addr, value, args_offset, args_size, ret_offset, ret_size } => vec![
                *gas,
                *addr,
                *value,
                *args_offset,
                *args_size,
                *ret_offset,
                *ret_size,
            ],
            InstKind::StaticCall { gas, addr, args_offset, args_size, ret_offset, ret_size } => vec![
                *gas,
                *addr,
                *args_offset,
                *args_size,
                *ret_offset,
                *ret_size,
            ],
            InstKind::DelegateCall { gas, addr, args_offset, args_size, ret_offset, ret_size } => vec![
                *gas,
                *addr,
                *args_offset,
                *args_size,
                *ret_offset,
                *ret_size,
            ],
            InstKind::Alloc { size, .. } => vec![*size],
            InstKind::MemoryObjectLen(object, _) => vec![*object],
            InstKind::SetMemoryObjectLen(object, len, _) => vec![*object, *len],
            InstKind::MemoryObjectData(object, _) => vec![*object],
            InstKind::MemoryObjectFieldAddr { object, .. } => vec![*object],
            InstKind::MemoryObjectElementAddr { object, index, .. } => vec![*object, *index],
            InstKind::StorageToMemory { storage, memory, .. } => vec![*storage, *memory],
            InstKind::MemoryToStorage { memory, storage, .. } => vec![*memory, *storage],
            InstKind::ClearStorage { storage, .. } => vec![*storage],
            InstKind::MakeSlice { ptr, len, .. } => vec![*ptr, *len],
            InstKind::LoadImmutable(_) => Vec::new(),
            InstKind::InternalFrameAddr(_) => Vec::new(),
            InstKind::AbiEncode { selector, args, .. } => {
                let mut operands: Vec<ValueId> = Vec::new();
                if let Some(value) = selector {
                    operands.push(*value);
                }
                push_all(&mut operands, args);
                operands
            },
            InstKind::InternalCall { args, .. } => {
                let mut operands: Vec<ValueId> = Vec::new();
                push_all(&mut operands, args);
                operands
            },
            InstKind::Phi(incoming) => {
                let mut operands: Vec<ValueId> = Vec::new();
                let mut i: usize = 0;
                while i < incoming.len()
                    invariant
                        i <= incoming@.len(),
                        operands@.len() == i,
                        forall|j: int| 0 <= j < i ==> operands@[j] == (#[trigger] incoming@[j]).1,
                    decreases incoming@.len() - i,
                {
                    operands.push(incoming[i].1);
                    i = i + 1;
                }
                operands
            },
        }
    }

    /// The same instruction on other operands.
    #[verifier::rlimit(60)]
    pub fn with_operands(self, operands: &Vec<ValueId>) -> (r: InstKind)
        requires
            operands@.len() == operands_of(self@).len(),
        ensures
            r@ == with_operands_of(self@, operands@),
    {
        match self {
            InstKind::Add(_, _) => InstKind::Add(operands[0], operands[1]),
            InstKind::Sub(_, _) => InstKind::Sub(operands[0], operands[1]),
            InstKind::Mul(_, _) => InstKind::Mul(operands[0], operands[1]),
            InstKind::Div(_, _) => InstKind::Div(operands[0], operands[1]),
            InstKind::SDiv(_, _) => InstKind::SDiv(operands[0], operands[1]),
            InstKind::Mod(_, _) => InstKind::Mod(operands[0], operands[1]),
            InstKind::SMod(_, _) => InstKind::SMod(operands[0], operands[1]),
            InstKind::Exp(_, _) => InstKind::Exp(operands[0], operands[1]),
            InstKind::AddMod(_, _, _) => InstKind::AddMod(operands[0], operands[1], operands[2]),
            InstKind::MulMod(_, _, _) => InstKind::MulMod(operands[0], operands[1], operands[2]),
            InstKind::And(_, _) => InstKind::And(operands[0], operands[1]),
            InstKind::Or(_, _) => InstKind::Or(operands[0], operands[1]),
            InstKind::Xor(_, _) => InstKind::Xor(operands[0], operands[1]),
            InstKind::Not(_) => InstKind::Not(operands[0]),
            InstKind::Clz(_) => InstKind::Clz(operands[0]),
            InstKind::Shl(_, _) => InstKind::Shl(operands[0], operands[1]),
            InstKind::Shr(_, _) => InstKind::Shr(operands[0], operands[1]),
            InstKind::Sar(_, _) => InstKind::Sar(operands[0], operands[1]),
            InstKind::Byte(_, _) => InstKind::Byte(operands[0], operands[1]),
            InstKind::SignExtend(_, _) => InstKind::SignExtend(operands[0], operands[1]),
            InstKind::Lt(_, _) => InstKind::Lt(operands[0], operands[1]),
            InstKind::Gt(_, _) => InstKind::Gt(operands[0], operands[1]),
            InstKind::SLt(_, _) => InstKind::SLt(operands[0], operands[1]),
            InstKind::SGt(_, _) => InstKind::SGt(operands[0], operands[1]),
            InstKind::Eq(_, _) => InstKind::Eq(operands[0], operands[1]),
            InstKind::IsZero(_) => InstKind::IsZero(operands[0]),
            InstKind::MLoad(_) => InstKind::MLoad(operands[0]),
            InstKind::MStore(_, _) => InstKind::MStore(operands[0], operands[1]),
            InstKind::MStore8(_, _) => InstKind::MStore8(operands[0], operands[1]),
            InstKind::MemoryZero(_, _) => InstKind::MemoryZero(operands[0], operands[1]),
            InstKind::MSize => InstKind::MSize,
            InstKind::MCopy(_, _, _) => InstKind::MCopy(operands[0], operands[1], operands[2]),
            InstKind::SLoad(_) => InstKind::SLoad(operands[0]),
            InstKind::SStore(_, _) => InstKind::SStore(operands[0], operands[1]),
            InstKind::TLoad(_) => InstKind::TLoad(operands[0]),
            InstKind::TStore(_, _) => InstKind::TStore(operands[0], operands[1]),
            InstKind::Fmp => InstKind::Fmp,
            InstKind::SetFmp(_) => InstKind::SetFmp(operands[0]),
            InstKind::CalldataLoad(_) => InstKind::CalldataLoad(operands[0]),
            InstKind::CalldataSize => InstKind::CalldataSize,
            InstKind::CalldataCopy(_, _, _) => InstKind::CalldataCopy(
                operands[0],
                operands[1],
                operands[2],
            ),
            InstKind::SlicePtr(_) => InstKind::SlicePtr(operands[0]),
            InstKind::SliceLen(_) => InstKind::SliceLen(operands[0]),
            InstKind::CodeSize => InstKind::CodeSize,
            InstKind::CodeCopy(_, _, _) => InstKind::CodeCopy(operands[0], operands[1], operands[2]),
            InstKind::ExtCodeSize(_) => InstKind::ExtCodeSize(operands[0]),
            InstKind::ExtCodeCopy(_, _, _, _) => InstKind::ExtCodeCopy(
                operands[0],
                operands[1],
                operands[2],
                operands[3],
            ),
            InstKind::ExtCodeHash(_) => InstKind::ExtCodeHash(operands[0]),
            InstKind::ReturnDataSize => InstKind::ReturnDataSize,
            InstKind::ReturnDataCopy(_, _, _) => InstKind::ReturnDataCopy(
                operands[0],
                operands[1],
                operands[2],
            ),
            InstKind::Caller => InstKind::Caller,
            InstKind::CallValue => InstKind::CallValue,
            InstKind::Origin => InstKind::Origin,
            InstKind::GasPrice => InstKind::GasPrice,
            InstKind::Coinbase => InstKind::Coinbase,
            InstKind::Timestamp => InstKind::Timestamp,
            InstKind::BlockNumber => InstKind::BlockNumber,
            InstKind::PrevRandao => InstKind::PrevRandao,
            InstKind::GasLimit => InstKind::GasLimit,
            InstKind::ChainId => InstKind::ChainId,
            InstKind::Address => InstKind::Address,
            InstKind::SelfBalance => InstKind::SelfBalance,
            InstKind::Gas => InstKind::Gas,
            InstKind::BaseFee => InstKind::BaseFee,
            InstKind::BlobBaseFee => InstKind::BlobBaseFee,
            InstKind::BlockHash(_) => InstKind::BlockHash(operands[0]),
            InstKind::Balance(_) => InstKind::Balance(operands[0]),
            InstKind::BlobHash(_) => InstKind::BlobHash(operands[0]),
            InstKind::Keccak256(_, _) => InstKind::Keccak256(operands[0], operands[1]),
            InstKind::Keccak256Bytes(_) => InstKind::Keccak256Bytes(operands[0]),
            InstKind::MappingSlot(_, _) => InstKind::MappingSlot(operands[0], operands[1]),
            InstKind::MappingSlotMemory(_, _) => InstKind::MappingSlotMemory(
                operands[0],
                operands[1],
            ),
            InstKind::MappingSlotCalldata(_, _) => InstKind::MappingSlotCalldata(
                operands[0],
                operands[1],
            ),
            InstKind::Create(_, _, _) => InstKind::Create(operands[0], operands[1], operands[2]),
            InstKind::Create2(_, _, _, _) => InstKind::Create2(
                operands[0],
                operands[1],
                operands[2],
                operands[3],
            ),
            InstKind::Log0(_, _) => InstKind::Log0(operands[0], operands[1]),
            InstKind::Log1(_, _, _) => InstKind::Log1(operands[0], operands[1], operands[2]),
            InstKind::Log2(_, _, _, _) => InstKind::Log2(
                operands[0],
                operands[1],
                operands[2],
                operands[3],
            ),
            InstKind::Log3(_, _, _, _, _) => InstKind::Log3(
                operands[0],
                operands[1],
                operands[2],
                operands[3],
                operands[4],
            ),
            InstKind::Log4(_, _, _, _, _, _) => InstKind::Log4(
                operands[0],
                operands[1],
                operands[2],
                operands[3],
                operands[4],
                operands[5],
            ),
            InstKind::Select(_, _, _) => InstKind::Select(operands[0], operands[1], operands[2]),
            InstKind::Call { .. } => InstKind::Call {
                gas: operands[0],
                addr: operands[1],
                value: operands[2],
                args_offset: operands[3],
                args_size: operands[4],
                ret_offset: operands[5],
                ret_size: operands[6],
            },
            InstKind::CallCode { .. } => InstKind::CallCode {
                gas: operands[0],
                addr: operands[1],
                value: operands[2],
                args_offset: operands[3],
                args_size: operands[4],
                ret_offset: operands[5],
                ret_size: operands[6],
            },
            InstKind::StaticCall { .. } => InstKind::StaticCall {
                gas: operands[0],
                addr: operands[1],
                args_offset: operands[2],
                args_size: operands[3],
                ret_offset: operands[4],
                ret_size: operands[5],
            },
            InstKind::DelegateCall { .. } => InstKind::DelegateCall {
                gas: operands[0],
                addr: operands[1],
                args_offset: operands[2],
                args_size: operands[3],
                ret_offset: operands[4],
                ret_size: operands[5],
            },
            InstKind::Alloc { kind, semantics, .. } => InstKind::Alloc {
                size: operands[0],
                kind,
                semantics,
            },
            InstKind::MemoryObjectLen(_, kind) => InstKind::MemoryObjectLen(operands[0], kind),
            InstKind::SetMemoryObjectLen(_, _, kind) => InstKind::SetMemoryObjectLen(
                operands[0],
                operands[1],
                kind,
            ),
            InstKind::MemoryObjectData(_, kind) => InstKind::MemoryObjectData(operands[0], kind),
            InstKind::MemoryObjectFieldAddr { layout, field, .. } => InstKind::MemoryObjectFieldAddr {
                object: operands[0],
                layout,
                field,
            },
            InstKind::MemoryObjectElementAddr { layout, .. } => InstKind::MemoryObjectElementAddr {
                object: operands[0],
                index: operands[1],
                layout,
            },
            InstKind::StorageToMemory { layout, .. } => InstKind::StorageToMemory {
                storage: operands[0],
                memory: operands[1],
                layout,
            },
            InstKind::MemoryToStorage { layout, .. } => InstKind::MemoryToStorage {
                memory: operands[0],
                storage: operands[1],
                layout,
            },
            InstKind::ClearStorage { layout, .. } => InstKind::ClearStorage {
                storage: operands[0],
                layout,
            },
            InstKind::MakeSlice { location, .. } => InstKind::MakeSlice {
                ptr: operands[0],
                len: operands[1],
                location,
            },
            InstKind::LoadImmutable(offset) => InstKind::LoadImmutable(offset),
            InstKind::InternalFrameAddr(offset) => InstKind::InternalFrameAddr(offset),
            InstKind::AbiEncode { selector, args, layout } => {
                let (selector, start): (Option<ValueId>, usize) = match selector {
                    Some(_) => (Some(operands[0]), 1),
                    None => (None, 0),
                };
                let rest = tail(operands, start);
                assert(encode_operands(selector, rest@) =~= operands@);
                InstKind::AbiEncode { selector, args: rest, layout }
            },
            InstKind::InternalCall { function, args, return_count } => InstKind::InternalCall {
                function,
                args: tail(operands, 0),
                return_count,
            },
            InstKind::Phi(incoming) => {
                let mut edges: Vec<(BlockId, ValueId)> = Vec::new();
                let mut i: usize = 0;
                while i < incoming.len()
                    invariant
                        i <= incoming@.len(),
                        operands@.len() == incoming@.len(),
                        edges@.len() == i,
                        forall|j: int|
                            0 <= j < i ==> #[trigger] edges@[j] == (incoming@[j].0, operands@[j]),
                    decreases incoming@.len() - i,
                {
                    edges.push((incoming[i].0, operands[i]));
                    i = i + 1;
                }
                InstKind::Phi(edges)
            },
        }
    }
}

/// Appends the values of `from` to `to`.
fn push_all(to: &mut Vec<ValueId>, from: &Vec<ValueId>)
    ensures
        final(to)@ == old(to)@ + from@,
{
    let mut i: usize = 0;
    while i < from.len()
        invariant
            i <= from@.len(),
            to@ == old(to)@ + from@.take(i as int),
        decreases from@.len() - i,
    {
        to.push(from[i]);
        i = i + 1;
    }
    assert(from@.take(i as int) =~= from@);
}

/// The values of `from` from index `start` on.
fn tail(from: &Vec<ValueId>, start: usize) -> (r: Vec<ValueId>)
    requires
        start <= from@.len(),
    ensures
        r@ == from@.skip(start as int),
{
    let mut rest: Vec<ValueId> = Vec::new();
    let mut i: usize = start;
    while i < from.len()
        invariant
            start <= i <= from@.len(),
            rest@ == from@.subrange(start as int, i as int),
        decreases from@.len() - i,
    {
        rest.push(from[i]);
        i = i + 1;
    }
    rest
}

/// What is known about an instruction besides what it computes.
#[derive(Clone, Copy, Debug, PartialEq, Eq, Structural)]
pub struct InstructionMetadata {
    /// What the instruction does besides computing its result.
    pub effect: Option<EffectKind>,
    /// What its memory access may touch.
    pub memory_region: Option<MemoryRegion>,
    /// What its storage access may touch.
    pub storage_alias: Option<StorageAlias>,
    /// Whether it comes from an unchecked block.
    pub unchecked: bool,
    /// Whether it belongs to an allocation that is materialized later.
    pub deferred_alloc: bool,
    /// How many loops enclose it.
    pub loop_depth: u16,
    /// The expression it comes from.
    pub hir_expr: Option<ExprId>,
    /// The source text it comes from.
    pub source_span: Option<Span>,
}

impl InstructionMetadata {
    /// Nothing known.
    pub open spec fn spec_empty() -> InstructionMetadata {
        InstructionMetadata {
            effect: None,
            memory_region: None,
            storage_alias: None,
            unchecked: false,
            deferred_alloc: false,
            loop_depth: 0,
            hir_expr: None,
            source_span: None,
        }
    }

    /// Nothing known.
    #[verifier::when_used_as_spec(spec_empty)]
    pub fn empty() -> (r: InstructionMetadata)
        ensures
            r == InstructionMetadata::spec_empty(),
    {
        InstructionMetadata {
            effect: None,
            memory_region: None,
            storage_alias: None,
            unchecked: false,
            deferred_alloc: false,
            loop_depth: 0,
            hir_expr: None,
            source_span: None,
        }
    }
}

/// An instruction of a function.
#[derive(Debug)]
pub struct Instruction {
    /// What it computes.
    pub kind: InstKind,
    /// The type of its result, if it has one.
    pub result_ty: Option<MirType>,
    /// What is known about it.
    pub metadata: InstructionMetadata,
}

/// The mathematical value of an [`Instruction`].
#[verifier::ext_equal]
pub struct InstView {
    /// What it computes.
    pub kind: KindView,
    /// The type of its result, if it has one.
    pub result_ty: Option<MirType>,
    /// What is known about it.
    pub metadata: InstructionMetadata,
}

impl View for Instruction {
    type V = InstView;

    open spec fn view(&self) -> InstView {
        InstView { kind: self.kind@, result_ty: self.result_ty, metadata: self.metadata }
    }
}

impl Instruction {
    /// An instruction of which nothing is known yet.
    pub fn new(kind: InstKind, result_ty: Option<MirType>) -> (r: Instruction)
        ensures
            r@ == (InstView {
                kind: kind@,
                result_ty,
                metadata: InstructionMetadata::spec_empty(),
            }),
    {
        Instruction { kind, result_ty, metadata: InstructionMetadata::empty() }
    }
}

/// How control leaves a block.
#[derive(Debug)]
pub enum Terminator {
    /// To one block.
    Jump(BlockId),
    /// To one of two blocks.
    Branch {
        /// What decides.
        condition: ValueId,
        /// Target when the condition is not zero.
        then_block: BlockId,
        /// Target when the condition is zero.
        else_block: BlockId,
    },
    /// To the block of the first matching case.
    Switch {
        /// What is compared.
        value: ValueId,
        /// Target when no case matches.
        default: BlockId,
        /// The values and their targets.
        cases: Vec<(ValueId, BlockId)>,
    },
    /// Back to the caller of this function.
    Return {
        /// The returned values.
        values: ValueList,
    },
    /// Out of the call, undoing its effects.
    Revert {
        /// Address of the error data.
        offset: ValueId,
        /// Size of the error data.
        size: ValueId,
    },
    /// Out of the call, with data.
    ReturnData {
        /// Address of the data.
        offset: ValueId,
        /// Size of the data.
        size: ValueId,
    },
    /// Out of the call, without data.
    Stop,
    /// Out of the call, removing the account.
    SelfDestruct {
        /// Who receives the balance.
        recipient: ValueId,
    },
    /// To another function, without returning here.
    TailCall {
        /// The callee.
        function: FunctionId,
        /// The arguments.
        args: ValueList,
    },
    /// Nowhere: this point is not reached.
    Invalid,
}

/// The mathematical value of a [`Terminator`].
#[verifier::ext_equal]
pub enum TermView {
    /// To one block.
    Jump(BlockId),
    /// To one of two blocks.
    Branch {
        /// What decides.
        condition: ValueId,
        /// Target when the condition is not zero.
        then_block: BlockId,
        /// Target when the condition is zero.
        else_block: BlockId,
    },
    /// To the block of the first matching case.
    Switch {
        /// What is compared.
        value: ValueId,
        /// Target when no case matches.
        default: BlockId,
        /// The values and their targets.
        cases: Seq<(ValueId, BlockId)>,
    },
    /// Back to the caller of this function.
    Return(Seq<ValueId>),
    /// Out of the call, undoing its effects.
    Revert {
        /// Address of the error data.
        offset: ValueId,
        /// Size of the error data.
        size: ValueId,
    },
    /// Out of the call, with data.
    ReturnData {
        /// Address of the data.
        offset: ValueId,
        /// Size of the data.
        size: ValueId,
    },
    /// Out of the call, without data.
    Stop,
    /// Out of the call, removing the account.
    SelfDestruct {
        /// Who receives the balance.
        recipient: ValueId,
    },
    /// To another function, without returning here.
    TailCall {
        /// The callee.
        function: FunctionId,
        /// The arguments.
        args: Seq<ValueId>,
    },
    /// Nowhere.
    Invalid,
}

impl View for Terminator {
    type V = TermView;

    open spec fn view(&self) -> TermView {
        match *self {
            Terminator::Jump(target) => TermView::Jump(target),
            Terminator::Branch { condition, then_block, else_block } => TermView::Branch {
                condition,
                then_block,
                else_block,
            },
            Terminator::Switch { value, default, cases } => TermView::Switch {
                value,
                default,
                cases: cases@,
            },
            Terminator::Return { values } => TermView::Return(values@),
            Terminator::Revert { offset, size } => TermView::Revert { offset, size },
            Terminator::ReturnData { offset, size } => TermView::ReturnData { offset, size },
            Terminator::Stop => TermView::Stop,
            Terminator::SelfDestruct { recipient } => TermView::SelfDestruct { recipient },
            Terminator::TailCall { function, args } => TermView::TailCall { function, args: args@ },
            Terminator::Invalid => TermView::Invalid,
        }
    }
}

/// The blocks control may go to, in order, once per mention.
pub open spec fn successors_of(term: TermView) -> Seq<BlockId> {
    match term {
        TermView::Jump(target) => seq![target],
        TermView::Branch { condition, then_block, else_block } => seq![then_block, else_block],
        TermView::Switch { value, default, cases } => seq![default] + cases.map_values(
            |case: (ValueId, BlockId)| case.1,
        ),
        _ => Seq::empty(),
    }
}

impl Terminator {
    /// The blocks control may go to, in order, once per mention.
    pub fn successors(&self) -> (r: Vec<BlockId>)
        ensures
            r@ == successors_of(self@),
    {
        match self {
            Terminator::Jump(target) => vec![*target],
            Terminator::Branch { then_block, else_block, .. } => vec![*then_block, *else_block],
            Terminator::Switch { default, cases, .. } => {
                let mut blocks: Vec<BlockId> = vec![*default];
                let mut i: usize = 0;
                while i < cases.len()
                    invariant
                        i <= cases@.len(),
                        blocks@.len() == i + 1,
                        blocks@[0] == *default,
                        forall|j: int| 0 <= j < i ==> blocks@[j + 1] == (#[trigger] cases@[j]).1,
                    decreases cases@.len() - i,
                {
                    blocks.push(cases[i].1);
                    i = i + 1;
                }
                assert(blocks@ =~= successors_of(self@)) by {
                    assert forall|j: int| 0 <= j < blocks@.len() implies blocks@[j]
                        == successors_of(self@)[j] by {
                        if j > 0 {
                            assert(blocks@[(j - 1) + 1] == cases@[j - 1].1);
                        }
                    }
                }
                blocks
            },
            _ => Vec::new(),
        }
    }
}

} // verus!
