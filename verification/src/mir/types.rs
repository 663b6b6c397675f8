//! Identifiers, types and layouts of the intermediate representation.

use crate::word::U256;
use std::sync::Arc;
use vstd::prelude::*;

verus! {

/// Index of a basic block in its function.
#[derive(Clone, Copy, Debug, PartialEq, Eq, Structural)]
pub struct BlockId(pub usize);

/// Index of a value in its function.
#[derive(Clone, Copy, Debug, PartialEq, Eq, Structural)]
pub struct ValueId(pub usize);

/// Index of an instruction in its function.
#[derive(Clone, Copy, Debug, PartialEq, Eq, Structural)]
pub struct InstId(pub usize);

/// Index of a function in its module.
#[derive(Clone, Copy, Debug, PartialEq, Eq, Structural)]
pub struct FunctionId(pub usize);

/// Index of an expression in the high-level representation.
#[derive(Clone, Copy, Debug, PartialEq, Eq, Structural)]
pub struct ExprId(pub usize);

/// A byte range of the source text.
#[derive(Clone, Copy, Debug, PartialEq, Eq, Structural)]
pub struct Span {
    /// First byte.
    pub lo: u32,
    /// One past the last byte.
    pub hi: u32,
}

/// Proof that an error has been reported. Only reporting one creates it.
#[derive(Clone, Copy, Debug, PartialEq, Eq, Structural)]
pub struct ErrorGuaranteed;

/// Where the bytes of a slice live.
#[derive(Clone, Copy, Debug, PartialEq, Eq, Structural)]
pub enum SliceLocation {
    /// In memory.
    Memory,
    /// In the call data.
    Calldata,
    /// In the return data of the last call.
    Returndata,
}

/// The shape of an object in memory, without its sizes.
#[derive(Clone, Copy, Debug, PartialEq, Eq, Structural)]
pub enum MemoryObjectKind {
    /// Length-prefixed bytes.
    Bytes,
    /// Length-prefixed elements.
    DynamicArray,
    /// A fixed number of elements.
    FixedArray,
    /// A fixed number of fields.
    Struct,
}

/// The shape and sizes of an object in memory.
#[derive(Clone, Copy, Debug, PartialEq, Eq, Structural)]
pub enum MemoryObjectLayout {
    /// Length-prefixed bytes.
    Bytes,
    /// Length-prefixed elements of `element_words` words each.
    DynamicArray {
        /// Words per element.
        element_words: u64,
    },
    /// `len` elements of `element_words` words each.
    FixedArray {
        /// Number of elements.
        len: u64,
        /// Words per element.
        element_words: u64,
    },
    /// A struct of one-word fields.
    Struct {
        /// Number of fields.
        fields: u64,
    },
}

impl MemoryObjectLayout {
    /// The kind of object that has this layout.
    pub open spec fn spec_kind(self) -> MemoryObjectKind {
        match self {
            MemoryObjectLayout::Bytes => MemoryObjectKind::Bytes,
            MemoryObjectLayout::DynamicArray { .. } => MemoryObjectKind::DynamicArray,
            MemoryObjectLayout::FixedArray { .. } => MemoryObjectKind::FixedArray,
            MemoryObjectLayout::Struct { .. } => MemoryObjectKind::Struct,
        }
    }

    /// The kind of object that has this layout.
    #[verifier::when_used_as_spec(spec_kind)]
    pub fn kind(self) -> (r: MemoryObjectKind)
        ensures
            r == self.spec_kind(),
    {
        match self {
            MemoryObjectLayout::Bytes => MemoryObjectKind::Bytes,
            MemoryObjectLayout::DynamicArray { .. } => MemoryObjectKind::DynamicArray,
            MemoryObjectLayout::FixedArray { .. } => MemoryObjectKind::FixedArray,
            MemoryObjectLayout::Struct { .. } => MemoryObjectKind::Struct,
        }
    }
}

/// What an allocation reserves.
#[derive(Clone, Copy, Debug, PartialEq, Eq, Structural)]
pub enum AllocationKind {
    /// Plain bytes.
    Raw,
    /// An object of a known shape.
    Object(MemoryObjectLayout),
}

impl AllocationKind {
    /// The type of the pointer to the reserved memory.
    pub open spec fn spec_result_type(self) -> MirType {
        match self {
            AllocationKind::Raw => MirType::MemPtr,
            AllocationKind::Object(layout) => MirType::MemoryObject(layout.spec_kind()),
        }
    }

    /// The type of the pointer to the reserved memory.
    #[verifier::when_used_as_spec(spec_result_type)]
    pub fn result_type(self) -> (r: MirType)
        ensures
            r == self.spec_result_type(),
    {
        match self {
            AllocationKind::Raw => MirType::MemPtr,
            AllocationKind::Object(layout) => MirType::MemoryObject(layout.kind()),
        }
    }
}

/// How an allocation rounds its size.
#[derive(Clone, Copy, Debug, PartialEq, Eq, Structural)]
pub enum AllocationAlignment {
    /// Not at all.
    Exact,
    /// Up to a whole number of words.
    Word,
}

/// What an allocation leaves in the reserved memory.
#[derive(Clone, Copy, Debug, PartialEq, Eq, Structural)]
pub enum AllocationInitialization {
    /// Whatever was there.
    Uninitialized,
    /// Zeroes.
    Zeroed,
}

/// What an allocation does when the size is out of range.
#[derive(Clone, Copy, Debug, PartialEq, Eq, Structural)]
pub enum AllocationFailure {
    /// The size is known to be in range.
    Infallible,
    /// It panics.
    Panic,
}

/// The policy of an allocation.
#[derive(Clone, Copy, Debug, PartialEq, Eq, Structural)]
pub struct AllocationSemantics {
    /// Rounding of the size.
    pub alignment: AllocationAlignment,
    /// Initial contents.
    pub initialization: AllocationInitialization,
    /// Behaviour on an out-of-range size.
    pub failure: AllocationFailure,
}

impl AllocationSemantics {
    /// Compiler-internal memory: exact, uninitialized, infallible.
    pub open spec fn spec_internal() -> AllocationSemantics {
        AllocationSemantics {
            alignment: AllocationAlignment::Exact,
            initialization: AllocationInitialization::Uninitialized,
            failure: AllocationFailure::Infallible,
        }
    }

    /// Compiler-internal memory: exact, uninitialized, infallible.
    #[verifier::when_used_as_spec(spec_internal)]
    pub fn internal() -> (r: AllocationSemantics)
        ensures
            r == AllocationSemantics::spec_internal(),
    {
        AllocationSemantics {
            alignment: AllocationAlignment::Exact,
            initialization: AllocationInitialization::Uninitialized,
            failure: AllocationFailure::Infallible,
        }
    }

    /// Compiler-internal memory that starts out zeroed.
    pub open spec fn spec_internal_zeroed() -> AllocationSemantics {
        AllocationSemantics {
            alignment: AllocationAlignment::Exact,
            initialization: AllocationInitialization::Zeroed,
            failure: AllocationFailure::Infallible,
        }
    }

    /// Compiler-internal memory that starts out zeroed.
    #[verifier::when_used_as_spec(spec_internal_zeroed)]
    pub fn internal_zeroed() -> (r: AllocationSemantics)
        ensures
            r == AllocationSemantics::spec_internal_zeroed(),
    {
        AllocationSemantics {
            alignment: AllocationAlignment::Exact,
            initialization: AllocationInitialization::Zeroed,
            failure: AllocationFailure::Infallible,
        }
    }
}

/// The type of a value.
#[derive(Clone, Copy, Debug, PartialEq, Eq, Structural)]
pub enum MirType {
    /// An unsigned integer of so many bits.
    UInt(u16),
    /// A signed integer of so many bits.
    Int(u16),
    /// Left-aligned bytes.
    FixedBytes(u8),
    /// A truth value.
    Bool,
    /// An account address.
    Address,
    /// A pointer into memory.
    MemPtr,
    /// A pointer to a shaped object in memory.
    MemoryObject(MemoryObjectKind),
    /// A storage slot.
    StoragePtr,
    /// An offset into the call data.
    CalldataPtr,
    /// A pointer and a length.
    Slice(SliceLocation),
    /// An internal function pointer.
    Function,
    /// No value.
    Void,
}

impl MirType {
    /// The 256-bit unsigned integer.
    pub open spec fn spec_uint256() -> MirType {
        MirType::UInt(256)
    }

    /// The 256-bit unsigned integer.
    #[verifier::when_used_as_spec(spec_uint256)]
    pub fn uint256() -> (r: MirType)
        ensures
            r == MirType::spec_uint256(),
    {
        MirType::UInt(256)
    }

    /// The 256-bit signed integer.
    pub open spec fn spec_int256() -> MirType {
        MirType::Int(256)
    }

    /// The 256-bit signed integer.
    #[verifier::when_used_as_spec(spec_int256)]
    pub fn int256() -> (r: MirType)
        ensures
            r == MirType::spec_int256(),
    {
        MirType::Int(256)
    }

    /// Thirty-two bytes.
    pub open spec fn spec_bytes32() -> MirType {
        MirType::FixedBytes(32)
    }

    /// Thirty-two bytes.
    #[verifier::when_used_as_spec(spec_bytes32)]
    pub fn bytes32() -> (r: MirType)
        ensures
            r == MirType::spec_bytes32(),
    {
        MirType::FixedBytes(32)
    }
}

/// A constant operand.
#[derive(Clone, Copy, Debug, PartialEq, Eq, Structural)]
pub enum Immediate {
    /// A 256-bit unsigned integer.
    UInt256(U256),
    /// A truth value.
    Bool(bool),
}

impl Immediate {
    /// The integer this constant stands for.
    pub open spec fn spec_as_u256(self) -> U256 {
        match self {
            Immediate::UInt256(value) => value,
            Immediate::Bool(value) => U256 { l0: if value { 1 } else { 0 }, l1: 0, l2: 0, l3: 0 },
        }
    }

    /// The integer this constant stands for.
    #[verifier::when_used_as_spec(spec_as_u256)]
    pub fn as_u256(self) -> (r: U256)
        ensures
            r == self.spec_as_u256(),
    {
        match self {
            Immediate::UInt256(value) => value,
            Immediate::Bool(value) => U256::from_u64(if value { 1 } else { 0 }),
        }
    }
}

/// An argument of a function.
#[derive(Clone, Copy, Debug, PartialEq, Eq, Structural)]
pub struct Arg {
    /// Position among the arguments.
    pub index: usize,
    /// Type of the argument.
    pub ty: MirType,
}

/// Where a value comes from.
#[derive(Clone, Copy, Debug, PartialEq, Eq, Structural)]
pub enum Value {
    /// An argument of the function.
    Arg(Arg),
    /// A constant.
    Immediate(Immediate),
    /// The result of an instruction.
    Inst(InstId),
    /// Not yet defined, or never.
    Undef(MirType),
    /// Stands for a value whose lowering failed.
    Error(ErrorGuaranteed),
}

/// What a memory access may touch.
#[derive(Clone, Copy, Debug, PartialEq, Eq, Structural)]
pub enum MemoryRegion {
    /// Reserved low memory.
    Scratch,
    /// The buffer for returned data.
    AbiReturn,
    /// Allocated memory.
    Heap,
    /// The frame of the current internal call.
    InternalFrame,
    /// Anything.
    Unknown,
}

/// What a storage access may touch.
#[derive(Clone, Copy, Debug, PartialEq, Eq, Structural)]
pub enum StorageAlias {
    /// A known slot.
    Slot(U256),
    /// The slot a value holds.
    Symbolic(ValueId),
    /// A known distance from the slot a value holds.
    Offset {
        /// The value.
        base: ValueId,
        /// The distance.
        offset: U256,
    },
}

/// What an instruction does besides computing its result.
#[derive(Clone, Copy, Debug, PartialEq, Eq, Structural)]
pub enum EffectKind {
    /// Nothing.
    Pure,
    /// Reads memory.
    MemoryRead,
    /// Writes memory.
    MemoryWrite,
    /// Reads storage.
    StorageRead,
    /// Writes storage.
    StorageWrite,
    /// Reads transient storage.
    TransientRead,
    /// Writes transient storage.
    TransientWrite,
    /// Reads the environment.
    EnvironmentRead,
    /// Calls another account.
    ExternalCall,
    /// Calls a function of this module.
    InternalCall,
    /// Creates an account.
    Create,
    /// Writes a log entry.
    Log,
}

/// One component of an ABI-encoded value.
#[derive(Debug)]
pub enum AbiType {
    /// One word.
    Word,
    /// Dynamic bytes read from a location.
    Bytes(SliceLocation),
    /// Elements counted at run time, read from a location.
    DynamicArray {
        /// Element type.
        element: Box<AbiType>,
        /// Where the elements are.
        location: SliceLocation,
    },
    /// A fixed number of elements.
    FixedArray {
        /// Element type.
        element: Box<AbiType>,
        /// Number of elements.
        len: u64,
    },
    /// The components of a struct.
    Tuple(Vec<AbiType>),
}

/// The mathematical value of an [`AbiType`].
#[verifier::ext_equal]
pub enum AbiTypeView {
    /// One word.
    Word,
    /// Dynamic bytes read from a location.
    Bytes(SliceLocation),
    /// Elements counted at run time, read from a location.
    DynamicArray {
        /// Element type.
        element: Box<AbiTypeView>,
        /// Where the elements are.
        location: SliceLocation,
    },
    /// A fixed number of elements.
    FixedArray {
        /// Element type.
        element: Box<AbiTypeView>,
        /// Number of elements.
        len: u64,
    },
    /// The components of a struct.
    Tuple(Seq<AbiTypeView>),
}

/// The mathematical value of an ABI type.
pub open spec fn abi_type_view(ty: AbiType) -> AbiTypeView
    decreases ty, 0nat,
{
    match ty {
        AbiType::Word => AbiTypeView::Word,
        AbiType::Bytes(location) => AbiTypeView::Bytes(location),
        AbiType::DynamicArray { element, location } => AbiTypeView::DynamicArray {
            element: Box::new(abi_type_view(*element)),
            location,
        },
        AbiType::FixedArray { element, len } => AbiTypeView::FixedArray {
            element: Box::new(abi_type_view(*element)),
            len,
        },
        AbiType::Tuple(fields) => AbiTypeView::Tuple(abi_types_view(fields@, fields@.len())),
    }
}

/// The mathematical values of the first `count` ABI types.
pub open spec fn abi_types_view(types: Seq<AbiType>, count: nat) -> Seq<AbiTypeView>
    decreases types, count,
{
    if count == 0 || count > types.len() {
        Seq::empty()
    } else {
        abi_types_view(types, (count - 1) as nat).push(abi_type_view(types[count - 1]))
    }
}

impl View for AbiType {
    type V = AbiTypeView;

    open spec fn view(&self) -> AbiTypeView {
        abi_type_view(*self)
    }
}

/// The argument types of an ABI encoding.
#[derive(Debug)]
pub struct AbiLayout {
    /// The types, in order.
    pub types: Vec<AbiType>,
}

impl View for AbiLayout {
    type V = Seq<AbiTypeView>;

    open spec fn view(&self) -> Seq<AbiTypeView> {
        abi_types_view(self.types@, self.types@.len())
    }
}

/// A shared ABI layout.
pub type AbiLayoutRef = Arc<AbiLayout>;

/// One component of an aggregate in storage.
#[derive(Debug)]
pub enum StorageField {
    /// One slot.
    Word,
    /// A nested aggregate.
    Aggregate(Arc<StorageLayout>),
}

/// A statically shaped aggregate in storage.
#[derive(Debug)]
pub enum StorageLayout {
    /// The fields of a struct.
    Struct(Vec<StorageField>),
    /// A fixed number of elements.
    Array {
        /// The element.
        element: StorageField,
        /// Number of elements.
        len: u64,
    },
}

/// The mathematical value of a [`StorageField`].
#[verifier::ext_equal]
pub enum StorageFieldView {
    /// One slot.
    Word,
    /// A nested aggregate.
    Aggregate(Box<StorageLayoutView>),
}

/// The mathematical value of a [`StorageLayout`].
#[verifier::ext_equal]
pub enum StorageLayoutView {
    /// The fields of a struct.
    Struct(Seq<StorageFieldView>),
    /// A fixed number of elements.
    Array {
        /// The element.
        element: StorageFieldView,
        /// Number of elements.
        len: u64,
    },
}

/// The mathematical value of a storage field.
pub open spec fn storage_field_view(field: StorageField) -> StorageFieldView
    decreases field, 0nat,
{
    match field {
        StorageField::Word => StorageFieldView::Word,
        StorageField::Aggregate(layout) => StorageFieldView::Aggregate(
            Box::new(storage_layout_view(*layout)),
        ),
    }
}

/// The mathematical value of a storage layout.
pub open spec fn storage_layout_view(layout: StorageLayout) -> StorageLayoutView
    decreases layout, 0nat,
{
    match layout {
        StorageLayout::Struct(fields) => StorageLayoutView::Struct(
            storage_fields_view(fields@, fields@.len()),
        ),
        StorageLayout::Array { element, len } => StorageLayoutView::Array {
            element: storage_field_view(element),
            len,
        },
    }
}

/// The mathematical values of the first `count` storage fields.
pub open spec fn storage_fields_view(fields: Seq<StorageField>, count: nat) -> Seq<StorageFieldView>
    decreases fields, count,
{
    if count == 0 || count > fields.len() {
        Seq::empty()
    } else {
        storage_fields_view(fields, (count - 1) as nat).push(storage_field_view(fields[count - 1]))
    }
}

impl View for StorageField {
    type V = StorageFieldView;

    open spec fn view(&self) -> StorageFieldView {
        storage_field_view(*self)
    }
}

impl View for StorageLayout {
    type V = StorageLayoutView;

    open spec fn view(&self) -> StorageLayoutView {
        storage_layout_view(*self)
    }
}

/// A shared storage layout.
pub type StorageLayoutRef = Arc<StorageLayout>;

} // verus!
