//! The resolved source program.
//!
//! Name resolution and type checking are done: every expression carries its
//! type and what it refers to, and every declaration is reached by an index
//! into [`Hir`].

use crate::mir::function::{StateMutability, Visibility};
use crate::mir::types::{ErrorGuaranteed, Span};
use crate::word::U256;
use vstd::prelude::*;

verus! {

/// Index of a variable.
#[derive(Clone, Copy, Debug, PartialEq, Eq, Structural)]
pub struct VariableId(pub usize);

/// Index of a struct.
#[derive(Clone, Copy, Debug, PartialEq, Eq, Structural)]
pub struct StructId(pub usize);

/// Index of an enum.
#[derive(Clone, Copy, Debug, PartialEq, Eq, Structural)]
pub struct EnumId(pub usize);

/// Index of a contract.
#[derive(Clone, Copy, Debug, PartialEq, Eq, Structural)]
pub struct ContractId(pub usize);

/// Index of a source function.
#[derive(Clone, Copy, Debug, PartialEq, Eq, Structural)]
pub struct HirFunctionId(pub usize);

/// Index of an event.
#[derive(Clone, Copy, Debug, PartialEq, Eq, Structural)]
pub struct EventId(pub usize);

/// Index of a custom error.
#[derive(Clone, Copy, Debug, PartialEq, Eq, Structural)]
pub struct ErrorId(pub usize);

/// A name, as its index among the names of the program.
#[derive(Clone, Copy, Debug, PartialEq, Eq, Structural)]
pub struct Symbol(pub usize);

/// A name where it is written.
#[derive(Debug)]
pub struct Ident {
    /// Its text.
    pub text: String,
    /// The name it is.
    pub symbol: Symbol,
    /// Where it stands.
    pub span: Span,
}

/// An elementary type.
#[derive(Clone, Copy, Debug, PartialEq, Eq, Structural)]
pub enum ElementaryType {
    /// A truth value.
    Bool,
    /// An account address, payable or not.
    Address(bool),
    /// An unsigned integer of so many bits.
    UInt(u16),
    /// A signed integer of so many bits.
    Int(u16),
    /// A signed fixed-point number.
    Fixed(u16, u8),
    /// An unsigned fixed-point number.
    UFixed(u16, u8),
    /// So many bytes.
    FixedBytes(u8),
    /// Text of any length.
    String,
    /// Bytes of any length.
    Bytes,
}

/// Where a reference points.
#[derive(Clone, Copy, Debug, PartialEq, Eq, Structural)]
pub enum DataLocation {
    /// Persistent storage.
    Storage,
    /// Transient storage.
    Transient,
    /// Memory.
    Memory,
    /// The call data.
    Calldata,
}

/// What is known of a function type.
#[derive(Clone, Copy, Debug, PartialEq, Eq, Structural)]
pub struct FnTy {
    /// Whether it is called within the contract.
    pub internal: bool,
    /// Whether it is called from outside.
    pub external: bool,
    /// The declaration it stems from, where there is just one.
    pub function_id: Option<HirFunctionId>,
}

/// A checked type.
#[derive(Debug)]
pub enum Ty {
    /// An elementary type.
    Elementary(ElementaryType),
    /// A reference to a value in some location.
    Ref(Box<Ty>, DataLocation),
    /// An array of fixed length.
    Array(Box<Ty>, U256),
    /// An array of any length.
    DynArray(Box<Ty>),
    /// A slice of an array.
    Slice(Box<Ty>),
    /// A mapping.
    Mapping(Box<Ty>, Box<Ty>),
    /// A tuple; the empty one is the unit type.
    Tuple(Vec<Ty>),
    /// A function.
    Fn(FnTy),
    /// A struct.
    Struct(StructId),
    /// An enum.
    Enum(EnumId),
    /// A contract.
    Contract(ContractId),
    /// The next contract of the linearization.
    Super(ContractId),
    /// A user-defined value type over another type.
    Udvt(Box<Ty>),
    /// A type used as a value.
    Type(Box<Ty>),
    /// A type that could not be determined.
    Error(ErrorGuaranteed),
    /// Any other type: literals, events, errors, modules.
    Other,
}

/// What an item name refers to.
#[derive(Clone, Copy, Debug, PartialEq, Eq, Structural)]
pub enum ItemId {
    /// A contract.
    Contract(ContractId),
    /// A function.
    Function(HirFunctionId),
    /// A struct.
    Struct(StructId),
    /// An enum.
    Enum(EnumId),
    /// A user-defined value type.
    Udvt(usize),
    /// A custom error.
    Error(ErrorId),
    /// An event.
    Event(EventId),
    /// A variable.
    Variable(VariableId),
}

/// A declared type, as written.
#[derive(Debug)]
pub enum TypeKind {
    /// An elementary type.
    Elementary(ElementaryType),
    /// An array, with its length if that is fixed.
    Array(Box<TypeKind>, Option<U256>),
    /// A mapping from the first type to the second.
    Mapping(Box<TypeKind>, Box<TypeKind>),
    /// A function type.
    Function,
    /// A declared item.
    Custom(ItemId),
    /// A type that could not be determined.
    Error(ErrorGuaranteed),
}

/// A built-in name.
#[derive(Clone, Copy, Debug, PartialEq, Eq, Structural)]
pub enum Builtin {
    /// `block.coinbase`
    BlockCoinbase,
    /// `block.timestamp`
    BlockTimestamp,
    /// `block.difficulty`
    BlockDifficulty,
    /// `block.prevrandao`
    BlockPrevrandao,
    /// `block.number`
    BlockNumber,
    /// `block.gaslimit`
    BlockGaslimit,
    /// `block.chainid`
    BlockChainid,
    /// `block.basefee`
    BlockBasefee,
    /// `block.blobbasefee`
    BlockBlobbasefee,
    /// `msg.sender`
    MsgSender,
    /// `msg.gas`
    MsgGas,
    /// `msg.value`
    MsgValue,
    /// `msg.data`
    MsgData,
    /// `msg.sig`
    MsgSig,
    /// `tx.origin`
    TxOrigin,
    /// `tx.gasprice`
    TxGasPrice,
    /// `gasleft()`
    Gasleft,
    /// `this`
    This,
    /// `abi.encode`
    AbiEncode,
    /// `abi.encodePacked`
    AbiEncodePacked,
    /// `abi.encodeWithSelector`
    AbiEncodeWithSelector,
    /// `abi.encodeCall`
    AbiEncodeCall,
    /// `abi.encodeWithSignature`
    AbiEncodeWithSignature,
    /// `abi.decode`
    AbiDecode,
    /// `<address>.balance`
    AddressBalance,
    /// `<function>.selector` and `<error>.selector`
    FunctionSelector,
    /// `<event>.selector`
    EventSelector,
    /// `type(I).interfaceId`
    InterfaceId,
    /// `type(T).min`
    TypeMin,
    /// `type(T).max`
    TypeMax,
    /// `type(C).creationCode`
    ContractCreationCode,
    /// `type(C).runtimeCode`
    ContractRuntimeCode,
    /// `<array>.length`
    ArrayLength,
    /// `<array>.push()`
    ArrayPush0,
    /// `<array>.push(value)`
    ArrayPush,
    /// `<array>.pop()`
    ArrayPop,
    /// `keccak256`
    Keccak256,
    /// Any other built-in, by its name.
    Other(Symbol),
}

/// What is known of an integer type.
#[derive(Clone, Copy, Debug, PartialEq, Eq, Structural)]
pub struct IntegerInfo {
    /// How many bits it has.
    pub bits: u16,
    /// Whether it is signed.
    pub signed: bool,
}

/// What a name resolves to.
#[derive(Clone, Copy, Debug, PartialEq, Eq, Structural)]
pub enum Res {
    /// A declared item.
    Item(ItemId),
    /// A built-in.
    Builtin(Builtin),
    /// A namespace.
    Namespace,
    /// A name that could not be resolved.
    Error(ErrorGuaranteed),
}

/// A literal.
#[derive(Debug)]
pub enum Lit {
    /// `true` or `false`.
    Bool(bool),
    /// An integer.
    Number(U256),
    /// A fraction.
    Rational,
    /// The bytes of a string, plain, Unicode or hexadecimal.
    Str(Vec<u8>),
    /// The twenty bytes of an address.
    Address(Vec<u8>),
    /// A malformed literal.
    Error(ErrorGuaranteed),
}

/// A binary operator.
#[derive(Clone, Copy, Debug, PartialEq, Eq, Structural)]
pub enum BinOp {
    /// `&&`
    And,
    /// `||`
    Or,
    /// `<<`
    Shl,
    /// `>>`, logical or arithmetic.
    Shr,
    /// Any other operator, by its number.
    Other(u8),
}

/// A unary operator.
#[derive(Clone, Copy, Debug, PartialEq, Eq, Structural)]
pub enum UnOp {
    /// `++x`
    PreInc,
    /// `x++`
    PostInc,
    /// `--x`
    PreDec,
    /// `x--`
    PostDec,
    /// `!x`
    Not,
    /// `~x`
    BitNot,
    /// `-x`
    Neg,
}

/// The operands of an expression.
#[derive(Debug)]
pub enum ExprKind {
    /// A literal.
    Lit(Lit),
    /// A name, with everything it could refer to.
    Ident(Vec<Res>),
    /// `lhs op rhs`
    Binary(Box<Expr>, BinOp, Box<Expr>),
    /// `op operand`
    Unary(UnOp, Box<Expr>),
    /// `cond ? then : else`
    Ternary(Box<Expr>, Box<Expr>, Box<Expr>),
    /// `callee{options}(args)`
    Call(Box<Expr>, Vec<Expr>, Vec<Expr>),
    /// `base[index]`
    Index(Box<Expr>, Option<Box<Expr>>),
    /// `base[start:end]`
    Slice(Box<Expr>, Option<Box<Expr>>, Option<Box<Expr>>),
    /// `base.member`
    Member(Box<Expr>, String),
    /// `base.member` in inline assembly.
    YulMember(Box<Expr>, Ident),
    /// `lhs op= rhs`
    Assign(Box<Expr>, Option<BinOp>, Box<Expr>),
    /// `[a, b]`
    Array(Vec<Expr>),
    /// `(a, , b)`
    Tuple(Vec<Option<Expr>>),
    /// `payable(x)`
    Payable(Box<Expr>),
    /// `delete x`
    Delete(Box<Expr>),
    /// `new T`
    New(TypeKind),
    /// `type(T)`
    TypeCall(TypeKind),
    /// A type name.
    Type(TypeKind),
    /// A malformed expression.
    Error(ErrorGuaranteed),
}

/// What type checking recorded of an expression.
#[derive(Debug)]
pub struct ExprFacts {
    /// Its type.
    pub ty: Option<Ty>,
    /// The one thing it resolves to.
    pub res: Option<Res>,
    /// The built-in it resolves to.
    pub builtin: Option<Builtin>,
    /// The variable it resolves to.
    pub variable: Option<VariableId>,
    /// The function it resolves to.
    pub function: Option<HirFunctionId>,
    /// The function that a call of it reaches, where that is fixed.
    pub exact_callee: Option<HirFunctionId>,
    /// The struct field it selects.
    pub field: Option<(StructId, usize)>,
    /// The number of the enum variant it selects.
    pub variant: Option<usize>,
    /// The function that implements its operator.
    pub user_operator: Option<HirFunctionId>,
    /// Whether its operator is not defined for a user-defined value type.
    pub unsupported_operator: bool,
    /// The error that it or an operand refers to.
    pub error: Option<ErrorGuaranteed>,
    /// The width of its fixed-size bytes type.
    pub fixed_bytes: Option<u8>,
    /// Whether it is `bytes` or `string` in the call data.
    pub calldata_bytes: bool,
    /// Whether it names `bytes` or `string` in storage.
    pub storage_bytes: bool,
    /// Whether it is an element of an array or mapping in storage.
    pub storage_element: bool,
    /// Whether its value is `bytes` or `string` in memory.
    pub memory_bytes: bool,
    /// Whether it is an array of any length.
    pub dynamic_array: bool,
    /// Whether a slice of it needs no rebuilding: its elements are words.
    pub word_elements: bool,
    /// Whether its type is a contract.
    pub contract: bool,
    /// Whether it is a call with several results, some of them slices.
    pub slice_results: bool,
    /// Whether assigning to it takes `bytes` or `string` in memory.
    pub takes_memory_bytes: bool,
    /// Whether assigning to it takes an array in memory.
    pub takes_memory_array: bool,
    /// The selector of the member function it names, as a big-endian number.
    pub member_selector: u32,
    /// The number of values that the member function it names returns.
    pub member_results: u32,
    /// How the type it names is encoded.
    pub named_abi: AbiFacts,
    /// The slots of an element of the array in storage that it is.
    pub element_slots: u64,
    /// The integer type that it has.
    pub integer: Option<IntegerInfo>,
    /// Whether its type is signed.
    pub signed: bool,
    /// Where the type in `type(..)` stands.
    pub inner_span: Span,
}

/// An expression.
#[derive(Debug)]
pub struct Expr {
    /// Its operands.
    pub kind: ExprKind,
    /// What type checking recorded.
    pub facts: ExprFacts,
    /// Where it stands.
    pub span: Span,
}

/// The loop that a loop statement stems from.
#[derive(Clone, Copy, Debug, PartialEq, Eq, Structural)]
pub enum LoopSource {
    /// `for`
    For,
    /// `while`
    While,
    /// `do`
    DoWhile,
}

/// One case of a switch statement.
#[derive(Debug)]
pub struct SwitchCase {
    /// The constant that selects it; `None` for the default.
    pub constant: Option<Lit>,
    /// Where that constant stands.
    pub constant_span: Span,
    /// What it runs.
    pub body: Vec<Stmt>,
    /// Where it stands.
    pub span: Span,
}

/// One clause of a try statement.
#[derive(Debug)]
pub struct TryClause {
    /// The name of the handled error.
    pub name: Option<Ident>,
    /// The variables it binds.
    pub args: Vec<VariableId>,
    /// What it runs.
    pub body: Vec<Stmt>,
    /// Where it stands.
    pub span: Span,
}

/// A statement.
#[derive(Debug)]
pub enum Stmt {
    /// A declaration of one variable.
    DeclSingle(VariableId),
    /// A declaration of several variables.
    DeclMulti(Vec<Option<VariableId>>, Expr),
    /// An expression.
    Expr(Expr),
    /// A block.
    Block(Vec<Stmt>),
    /// A block without overflow checks.
    UncheckedBlock(Vec<Stmt>),
    /// A block of inline assembly.
    AssemblyBlock(Vec<Stmt>),
    /// A conditional.
    If(Expr, Box<Stmt>, Option<Box<Stmt>>),
    /// A loop.
    Loop(Vec<Stmt>, LoopSource),
    /// A switch of inline assembly.
    Switch(Expr, Vec<SwitchCase>),
    /// A return.
    Return(Option<Expr>),
    /// A revert.
    Revert(Expr),
    /// An event.
    Emit(Expr),
    /// A try statement; the first clause is the one for success.
    Try(Expr, Vec<TryClause>),
    /// `continue`
    Continue,
    /// `break`
    Break,
    /// `_` in a modifier.
    Placeholder,
    /// A malformed statement.
    Error(ErrorGuaranteed),
}

/// Whether a variable can change.
#[derive(Clone, Copy, Debug, PartialEq, Eq, Structural)]
pub enum VarMut {
    /// At any time.
    Mutable,
    /// In the constructor.
    Immutable,
    /// Never.
    Constant,
}

/// What a variable declares.
#[derive(Clone, Copy, Debug, PartialEq, Eq, Structural)]
pub enum VarKind {
    /// A state variable.
    State,
    /// A struct field.
    StructField,
    /// A function parameter.
    Parameter,
    /// A returned value.
    Return,
    /// A local variable.
    Local,
    /// Anything else: event and error parameters, file-level constants.
    Other,
}

/// How a struct field travels in the encoded arguments of a call.
#[derive(Clone, Copy, Debug, PartialEq, Eq, Structural)]
pub enum FieldEncoding {
    /// As the word itself.
    Word,
    /// As the offset of an array of words.
    DynArray,
    /// As the offset of bytes.
    DynBytes,
    /// In some other way.
    Other,
}

/// How values of a type are encoded in the arguments of a call.
#[derive(Clone, Copy, Debug, PartialEq, Eq, Structural)]
pub struct AbiFacts {
    /// Bytes that a value takes in the head.
    pub head_size: u64,
    /// Whether a value has a tail.
    pub is_dynamic: bool,
    /// Whether the type is an array whose elements are single words.
    pub word_elements: bool,
    /// How a field of the type travels.
    pub field: FieldEncoding,
    /// Whether the type has an encoding.
    pub encodable: bool,
}

/// A variable.
#[derive(Debug)]
pub struct Variable {
    /// Its name.
    pub name: Option<String>,
    /// What it declares.
    pub kind: VarKind,
    /// Whether it can change.
    pub mutability: VarMut,
    /// Its declared type.
    pub declared: TypeKind,
    /// Its checked type.
    pub ty: Ty,
    /// Its declared location.
    pub location: Option<DataLocation>,
    /// Its initial value.
    pub initializer: Option<Expr>,
    /// Whether it is an indexed event parameter.
    pub indexed: bool,
    /// Whether it is a parameter that travels as a storage slot.
    pub storage_ref: bool,
    /// Whether it takes `bytes` or `string` in memory.
    pub takes_memory_bytes: bool,
    /// Whether it takes an array in memory.
    pub takes_memory_array: bool,
    /// How its type is encoded.
    pub abi: AbiFacts,
    /// Where its type stands.
    pub ty_span: Span,
    /// Where it stands.
    pub span: Span,
}

/// A struct.
#[derive(Debug)]
pub struct Struct {
    /// Its fields.
    pub fields: Vec<VariableId>,
    /// Words that a value of it takes in memory.
    pub memory_words: u64,
    /// The slot of each field, relative to the slot of the struct.
    pub slot_offsets: Vec<u64>,
}

/// What a function is.
#[derive(Clone, Copy, Debug, PartialEq, Eq, Structural)]
pub enum FunctionKind {
    /// A constructor.
    Constructor,
    /// An ordinary function.
    Function,
    /// The fallback function.
    Fallback,
    /// The receive function.
    Receive,
    /// A modifier.
    Modifier,
}

/// A modifier, or the arguments of a base constructor.
#[derive(Debug)]
pub struct Modifier {
    /// The arguments; `None` if there is no argument list.
    pub args: Option<Vec<Expr>>,
    /// Where it stands.
    pub span: Span,
}

/// A source function.
#[derive(Debug)]
pub struct HirFunction {
    /// Its name.
    pub name: Option<String>,
    /// What it is.
    pub kind: FunctionKind,
    /// Who may call it.
    pub visibility: Visibility,
    /// What it may do to the state.
    pub state_mutability: StateMutability,
    /// Its parameters.
    pub parameters: Vec<VariableId>,
    /// The variables it returns.
    pub results: Vec<VariableId>,
    /// Its modifiers.
    pub modifiers: Vec<Modifier>,
    /// Its statements.
    pub body: Option<Vec<Stmt>>,
    /// The contract it belongs to.
    pub contract: Option<ContractId>,
    /// Its selector, as a big-endian number.
    pub selector: u32,
}

/// A contract.
#[derive(Debug)]
pub struct Contract {
    /// Its name.
    pub name: String,
    /// Whether it is an interface.
    pub is_interface: bool,
    /// Itself and its bases, most derived first.
    pub linearized_bases: Vec<ContractId>,
    /// The arguments it passes to the bases, without itself.
    pub base_args: Vec<Option<Modifier>>,
    /// Its constructor.
    pub ctor: Option<HirFunctionId>,
    /// The variables it declares.
    pub variables: Vec<VariableId>,
    /// The functions it declares, special ones too.
    pub functions: Vec<HirFunctionId>,
    /// Its interface identifier, as a big-endian number.
    pub interface_id: u32,
    /// Where it stands.
    pub span: Span,
}

/// An event.
#[derive(Debug)]
pub struct Event {
    /// Its name.
    pub name: String,
    /// Its parameters.
    pub parameters: Vec<VariableId>,
    /// Its selector.
    pub selector: U256,
    /// Whether its signature is left out of its topics.
    pub anonymous: bool,
}

/// The declarations of a program.
#[derive(Debug)]
pub struct Hir {
    /// Variables.
    pub variables: Vec<Variable>,
    /// Structs.
    pub structs: Vec<Struct>,
    /// The number of variants of each enum.
    pub enums: Vec<usize>,
    /// Functions.
    pub functions: Vec<HirFunction>,
    /// Contracts.
    pub contracts: Vec<Contract>,
    /// Events.
    pub events: Vec<Event>,
    /// Selectors of custom errors.
    pub errors: Vec<u32>,
    /// The texts of the names.
    pub names: Vec<String>,
}

/// Whether every variable of a list is declared.
pub open spec fn has_variables(hir: Hir, ids: Seq<VariableId>) -> bool {
    forall|i: int| 0 <= i < ids.len() ==> (#[trigger] ids[i]).0 < hir.variables@.len()
}

/// Whether every contract of a list is declared.
pub open spec fn has_contracts(hir: Hir, ids: Seq<ContractId>) -> bool {
    forall|i: int| 0 <= i < ids.len() ==> (#[trigger] ids[i]).0 < hir.contracts@.len()
}

/// Whether every function of a list is declared.
pub open spec fn has_functions(hir: Hir, ids: Seq<HirFunctionId>) -> bool {
    forall|i: int| 0 <= i < ids.len() ==> (#[trigger] ids[i]).0 < hir.functions@.len()
}

/// Whether everything a contract refers to is declared.
pub open spec fn contract_fits(hir: Hir, contract: Contract) -> bool {
    &&& has_contracts(hir, contract.linearized_bases@)
    &&& has_variables(hir, contract.variables@)
    &&& has_functions(hir, contract.functions@)
    &&& contract.ctor matches Some(id) ==> id.0 < hir.functions@.len()
}

/// Whether everything a function refers to is declared.
pub open spec fn hir_function_fits(hir: Hir, func: HirFunction) -> bool {
    &&& has_variables(hir, func.parameters@)
    &&& has_variables(hir, func.results@)
    &&& func.contract matches Some(id) ==> id.0 < hir.contracts@.len()
}

/// Whether every declaration refers to declarations only.
#[verifier::opaque]
pub open spec fn hir_wf(hir: Hir) -> bool {
    &&& forall|i: int|
        0 <= i < hir.structs@.len() ==> has_variables(
            hir,
            (#[trigger] hir.structs@[i]).fields@,
        ) && hir.structs@[i].slot_offsets@.len() == hir.structs@[i].fields@.len()
    &&& forall|i: int|
        0 <= i < hir.contracts@.len() ==> contract_fits(hir, #[trigger] hir.contracts@[i])
    &&& forall|i: int|
        0 <= i < hir.functions@.len() ==> hir_function_fits(hir, #[trigger] hir.functions@[i])
    &&& forall|i: int|
        0 <= i < hir.events@.len() ==> has_variables(
            hir,
            (#[trigger] hir.events@[i]).parameters@,
        )
}

/// The type behind any references.
pub open spec fn peeled(ty: Ty) -> Ty
    decreases ty,
{
    match ty {
        Ty::Ref(inner, _) => peeled(*inner),
        _ => ty,
    }
}

/// Whether values of an elementary type are single words.
pub open spec fn is_word_elementary(elem: ElementaryType) -> bool {
    !(elem is String) && !(elem is Bytes)
}

/// Whether values of a type are copied, not referred to.
pub open spec fn is_value_ty(ty: Ty) -> bool {
    match ty {
        Ty::Elementary(elem) => is_word_elementary(elem),
        Ty::Contract(_) | Ty::Super(_) | Ty::Fn(_) | Ty::Enum(_) | Ty::Udvt(_) => true,
        _ => false,
    }
}

impl Ty {
    /// The type behind any references.
    pub fn peel_refs(&self) -> (r: &Ty)
        ensures
            *r == peeled(*self),
        decreases self,
    {
        match self {
            Ty::Ref(inner, _) => inner.peel_refs(),
            _ => self,
        }
    }

    /// Whether values of this type are copied, not referred to.
    pub fn is_value_type(&self) -> (r: bool)
        ensures
            r == is_value_ty(*self),
    {
        match self {
            Ty::Elementary(elem) => !matches!(
                elem,
                ElementaryType::String | ElementaryType::Bytes
            ),
            Ty::Contract(_) | Ty::Super(_) | Ty::Fn(_) | Ty::Enum(_) | Ty::Udvt(_) => true,
            _ => false,
        }
    }

    /// Whether this is the type without a value.
    pub fn is_unit(&self) -> (r: bool)
        ensures
            r == (*self matches Ty::Tuple(elements) && elements@.len() == 0),
    {
        match self {
            Ty::Tuple(elements) => elements.len() == 0,
            _ => false,
        }
    }
}

impl Variable {
    /// Whether this is a constant.
    pub fn is_constant(&self) -> (r: bool)
        ensures
            r == (self.mutability is Constant),
    {
        matches!(self.mutability, VarMut::Constant)
    }
}

} // verus!
