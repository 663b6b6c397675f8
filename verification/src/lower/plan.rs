//! The order in which expressions are lowered.
//!
//! Lowering works on a stack of values. A [`Task`] says what to do next: it
//! takes its operands from the stack and leaves its result there. The plans in
//! this file take one expression apart into the tasks that lower it, in order.

use crate::hir::{
    hir_wf, BinOp, Builtin, ContractId, DataLocation, ElementaryType, EventId, Expr, ExprKind,
    FieldEncoding, Hir, HirFunctionId, Ident, IntegerInfo, Lit, Stmt, StructId, SwitchCase,
    TryClause, Ty, TypeKind, UnOp, VariableId,
};
use crate::lower::arrays::KeyHash;
use crate::lower::defaults::field_ty;
use crate::lower::fields::memory_field;
use crate::lower::plan_assign::right_side_tasks;
use crate::lower::plan_names::{member_tasks, name_tasks};
use crate::lower::state::{Complaint, Lowerer, StorageLocation};
use crate::mir::builder::word;
use crate::mir::function::{function_wf, Function, FunctionView};
use crate::mir::types::{
    BlockId, ErrorGuaranteed, MemoryObjectKind, MirType, SliceLocation, Span, ValueId,
};
use crate::word::{lemma_word_of, word_modulus, word_of, U256};
use vstd::arithmetic::power2::pow2;
use vstd::prelude::*;

verus! {

/// How an operator is applied.
#[derive(Clone, Copy, Debug, PartialEq, Eq, Structural)]
pub struct Arithmetic {
    /// The integer type of the operands.
    pub integer: Option<IntegerInfo>,
    /// Whether the operands are signed.
    pub is_signed: bool,
    /// Where the operation stands.
    pub span: Span,
    /// Whether the operator is not defined for the type.
    pub unsupported: bool,
}

/// A value that is returned, and its type.
#[derive(Debug)]
pub struct ReturnItem {
    /// The value.
    pub value: ValueId,
    /// Its type.
    pub ty: Ty,
}

/// Work that another part of the compiler does: it takes its operands from the
/// stack and leaves its result there. How many that are, `service_effect` says.
pub enum Service<'a> {
    /// Calls the function that implements an operator with so many operands.
    /// Replies with its value, or with nothing.
    Operator(HirFunctionId, usize, Span),
    /// Applies a binary operator.
    Binary(BinOp, Arithmetic),
    /// Applies a unary operator.
    Unary(UnOp, Option<IntegerInfo>, Span),
    /// Adds two integers, with a check for overflow unless arithmetic wraps.
    CheckedAdd(Option<IntegerInfo>, Span),
    /// Subtracts two integers, with a check for overflow unless arithmetic wraps.
    CheckedSub(Option<IntegerInfo>, Span),
    /// Lowers a call. Replies with its value, or with nothing.
    Call(&'a Expr),
    /// Lowers an element access.
    Index(&'a Expr),
    /// Assigns to an element.
    AssignIndex(&'a Expr),
    /// Finds the base in the call data of a struct of so many fields that was
    /// copied to memory.
    CalldataBase(u64),
    /// Adds a constant to an address.
    OffsetPtr(u64),
    /// Lowers an expression to bytes in memory.
    MemoryBytes(&'a Expr),
    /// Lowers an expression to an array in memory.
    MemoryArray(&'a Expr),
    /// Copies bytes from a storage slot to memory.
    StorageBytes,
    /// Copies a struct state variable to the object at the top, and keeps the
    /// object.
    StorageStruct(VariableId, StructId),
    /// Loads a state variable from its slot.
    LoadLocation(StorageLocation),
    /// Stores a state variable.
    StoreLocation(StorageLocation),
    /// Stores a struct from memory to a slot.
    StoreStruct(StructId, U256),
    /// Stores bytes from memory to a slot.
    StoreBytes,
    /// Stores an array from memory to a slot.
    StoreArray(&'a Ty),
    /// Stores an array of fixed length from memory to a slot.
    StoreFixedArray(&'a Ty, U256),
    /// Stores a value of a type to a slot.
    StoreValueAt(&'a Ty),
    /// Stops: the expression does not occur in a checked program.
    Bug(Span),
    /// Stops: `delete` does not occur where a value is asked for in a checked
    /// program.
    DeletedValue(Span),
    /// Lowers a call that yields nothing. Replies with its value, or with nothing.
    UnitCall(&'a Expr),
    /// Computes the storage slot of an element of an array or mapping.
    ElementSlot(&'a Expr),
    /// Clears a struct at a slot.
    ClearStruct(StructId),
    /// Copies the data that the last call returned to bytes in memory.
    ReturndataBytes,
    /// Checks the arguments of a packed encoding. Replies with nothing, or with the
    /// error.
    PackedArguments(&'a Vec<Expr>),
    /// Lowers the hash of packed arguments. Replies with it, or with the error.
    PackedHash(&'a Vec<Expr>),
    /// Encodes and returns so many values at the top as the results of the current
    /// function.
    FinishCurrent(usize),
    /// Lowers the values of a return statement and replies with them. The flag says
    /// that the caller is outside.
    ReturnItems(Option<&'a Expr>, bool),
    /// Encodes and returns values.
    FinishItems(Vec<ReturnItem>),
    /// Lowers the hash of an argument of an event whose topic is one. Replies with
    /// it, or with nothing.
    TopicHash(&'a Expr, VariableId),
    /// Lowers a value to be stored as a value of the type of a variable.
    ValueFor(&'a Expr, VariableId),
    /// Encodes the data of an event and yields where it is and its size.
    EncodeData(EventId, usize),
    /// Lowers the value that a call sends along.
    CallValue(&'a Expr),
    /// Calls an external function value and yields whether it succeeded.
    PointerCall(&'a Expr),
    /// Panics if the top value holds, and drops it.
    PanicIf(PanicCode),
    /// Panics if the top value is zero, and keeps it.
    PanicIfZero(PanicCode),
    /// Panics unless the index below the top is less than the length at the
    /// top, and drops the length.
    BoundsCheck,
    /// Clears a value of a type at the slot at the top, and keeps the slot.
    ClearValueAt(&'a Ty),
    /// Lowers the index of an element access.
    IndexValue(Option<&'a Expr>, Span),
    /// Copies bytes from the call data to memory.
    CalldataBytes,
    /// Copies a slice of memory to bytes of their own.
    MemorySliceBytes,
    /// Rebuilds a value of a type in memory from its encoding at a position.
    Materialize(&'a Ty),
    /// Rebuilds a value of a type in memory from its encoding in memory.
    MaterializeMemory(&'a Ty),
    /// Allocates an object for bytes of a size that is not constant.
    AllocateBytes,
    /// Allocates an array of a size that is not constant.
    AllocateArray,
    /// Encodes and returns the values of the return variables.
    FinishReturn(&'a Vec<VariableId>),
    /// Lowers an argument of a constructor.
    ConstructorArgument(&'a Expr, VariableId),
    /// Runs the constructor of a base with the arguments resolved for it.
    BaseConstructor(HirFunctionId, ContractId),
}

/// One step of lowering.
pub enum Task<'a> {
    /// Lowers an expression.
    Value(&'a Expr),
    /// Lowers a conditional expression.
    Ternary(&'a Expr),
    /// Assigns the top value to an expression.
    Assign(&'a Expr),
    /// Assigns several values to the elements of a tuple.
    TupleAssign(&'a Vec<Option<Expr>>, &'a Expr),
    /// Computes the storage slot of an expression.
    Slot(&'a Expr),
    /// Computes the storage slot of a struct member.
    MemberSlot(&'a Expr),
    /// Pushes a constant.
    Constant(U256),
    /// Pushes a value that is at hand.
    Reuse(ValueId),
    /// Pushes a literal.
    Literal(&'a Lit, Span),
    /// Pushes the value that stands for an error.
    ErrorValue(ErrorGuaranteed),
    /// Makes a complaint and pushes the value that stands for it.
    Complain(Complaint, Span),
    /// Makes a complaint.
    Report(Complaint, Span),
    /// Pushes the top value once more.
    Duplicate,
    /// Drops the top value.
    Discard,
    /// Pushes a built-in.
    Builtin(Builtin, Span),
    /// Pushes the discriminator of an internal function and records its use.
    FunctionPointer(HirFunctionId),
    /// Combines an address with a selector.
    ExternalPointer(u32),
    /// Pushes the identifier of an interface.
    InterfaceId(&'a TypeKind, Span),
    /// Pushes the smallest or largest value of a type.
    TypeBound(&'a TypeKind, bool, Span),
    /// Pushes the creation code, or complains about the runtime code.
    Code(&'a TypeKind, bool, Span),
    /// Pushes a component of a variable in inline assembly.
    YulMember(&'a Expr, &'a Ident),
    /// Pushes a variable from memory.
    LoadVariable(u64),
    /// Pushes a slice variable.
    LoadSlice(u64),
    /// Pushes an immutable.
    LoadImmutable(u32),
    /// Loads from a storage slot.
    LoadStorage,
    /// Loads from an address.
    LoadMemory,
    /// Loads a field of a struct of so many fields.
    LoadField(u64, u64),
    /// Looks up the balance of an account.
    Balance,
    /// Takes the length of a slice.
    SliceLen,
    /// Takes the length of the top value if it is a call-data slice, and else
    /// drops it and goes on with the rest of the plan.
    CalldataLength(&'a Expr),
    /// Pushes the default value of a variable, or makes a complaint and pushes
    /// the value that stands for it.
    DefaultVariable(VariableId, Complaint, Span),
    /// Allocates an object of a constant size.
    Allocate(u64, MemoryObjectKind),
    /// Stores the top value at an offset from the object below it, and keeps
    /// the object.
    StoreAt(u64),
    /// Clears everything below the highest bytes.
    CleanFixedBytes(u8),
    /// Branches on the left operand of `&&` or `||`.
    ShortCircuitBegin(bool),
    /// Joins the operands of `&&` or `||`.
    ShortCircuitEnd(bool),
    /// Takes the top value apart into the pointer and the length of what is
    /// sliced, or complains.
    SliceOf(&'a Expr),
    /// Cuts a slice out of the pointer, the length, the start and, if the flag
    /// is set, the end on the stack. Says whether it is bytes and where it is.
    SliceCut(bool, SliceLocation, bool),
    /// Stores to a variable in memory.
    StoreVariable(u64),
    /// Stores to a slice variable.
    StoreSlice(u64),
    /// Stores to the pointer or, if the flag is set, the length of a slice
    /// variable.
    StoreSliceWord(u64, bool),
    /// Becomes the value of a variable.
    SetLocal(VariableId),
    /// Stages an immutable.
    StoreImmutable(u32),
    /// Stores the value below the top to the slot at the top.
    StoreStorage,
    /// Stores the value below the top to the address at the top.
    StoreMemory,
    /// Stores the value below the top to a field of the struct at the top.
    StoreField(u64, u64),
    /// Marks a variable whose value is a storage slot.
    MarkStorageRef(VariableId),
    /// Replaces the offset or, if the flag is set, the length of a slice
    /// variable.
    SetSliceComponent(VariableId, bool),
    /// Asks another part of the compiler.
    Service(Service<'a>),
    /// Lowers an expression for its effects.
    Effect(&'a Expr),
    /// Turns the check for errors in expressions on or off.
    SetChecks(bool),
    /// Pushes a copy of the value so many places below the top.
    Pick(usize),
    /// Gives every element of the array at the top its default value and drops
    /// the array.
    ZeroElements(&'a Ty, u64, Span),
    /// Lowers a statement.
    Stmt(&'a Stmt),
    /// Lowers the statements from an index on.
    Statements(&'a Vec<Stmt>, usize),
    /// Lowers the statements from an index on, unless control has left.
    StatementsIfOpen(&'a Vec<Stmt>, usize),
    /// Binds the top value, a slot, to a storage-reference variable.
    BindStorageRef(VariableId),
    /// Reserves a place for a storage-reference variable without a slot.
    ReserveStorageRef(VariableId),
    /// Binds the top value to a declared variable, in memory if the flag is
    /// set.
    BindDeclared(VariableId, bool),
    /// Binds the top value to a fresh place in memory.
    BindMemory(VariableId),
    /// Binds the values at the top to the variables of a declaration.
    BindLocals(&'a Vec<Option<VariableId>>),
    /// Forgets the results of an inlined callee.
    ClearPending,
    /// Binds the results of a call to the variables of a declaration. The flag
    /// says whether an inlined callee may have left its results.
    BindResults(&'a Vec<Option<VariableId>>, bool),
    /// Assigns the results of a call to the elements of a tuple. The flag says
    /// whether an inlined callee may have left its results.
    AssignResults(&'a Vec<Option<Expr>>, bool),
    /// Branches on the condition of a conditional expression that yields
    /// nothing and starts the first arm.
    ArmsBegin,
    /// Branches on a condition and starts the first arm.
    IfBegin(bool),
    /// Starts the other arm.
    IfElse,
    /// Ends both arms.
    IfEnd,
    /// Starts a loop, with a block for its update if the flag is set.
    LoopBegin(bool),
    /// Creates the blocks of a `for` turn.
    ForBegin,
    /// Branches on the condition of a `for` loop.
    ForBranch,
    /// Ends a turn and starts the update.
    ForUpdate,
    /// Ends the update and starts what runs when the loop ends.
    ForElse,
    /// Ends a loop. The flag says that the last block needs a jump back.
    LoopEnd(bool),
    /// Starts a switch.
    SwitchBegin(&'a Vec<SwitchCase>),
    /// Starts a case.
    CaseBegin(usize),
    /// Ends a case.
    CaseEnd,
    /// Ends a switch.
    SwitchEnd,
    /// Jumps to a block.
    Jump(BlockId),
    /// Reverts, unless control has left.
    RevertIfOpen,
    /// Turns wrapping arithmetic on or off.
    SetUnchecked(bool),
    /// Leaves a function that yields nothing, unless control has left.
    LeaveIfOpen,
    /// Starts a try statement.
    TryBegin,
    /// Branches on whether the call of a try statement succeeded.
    TryBranch,
    /// Ends the success clause and starts the handlers.
    TryCatch(&'a Vec<TryClause>),
    /// Ends a try statement.
    TryEnd,
    /// Reverts when the call data is shorter than the head of the arguments.
    HeadSizeCheck(u64),
    /// Declares a returned value of a type.
    DeclareResult(&'a Ty),
    /// Declares a struct with a tail and pushes its base.
    DynamicStructParam,
    /// Declares the words of an aggregate in the head and pushes its position.
    AggregateParam(u64),
    /// Declares and validates a field of one word and pushes it.
    FieldParam(&'a Ty),
    /// Replaces the head word of a field by the value of the field.
    LinkedField(FieldEncoding),
    /// Stores the top value to a field of the struct below it, and keeps the
    /// struct.
    KeepField(u64, u64),
    /// Declares the words of a fixed-size array and pushes a copy of it.
    FixedArrayParam(&'a Ty, u64),
    /// Declares an array of words in memory and pushes a copy of it.
    ArrayParam(MirType),
    /// Declares bytes in memory and pushes where their payload is, its length,
    /// the size of a word and the size of the object.
    BytesParamBegin(MirType),
    /// Copies the payload of bytes to the object at the top and leaves only the
    /// object.
    BytesParamEnd,
    /// Declares a parameter of one word, validated if the flag is set, and
    /// binds it.
    PlainParam(VariableId, bool),
    /// Binds the top value to a parameter.
    BindParam(VariableId),
    /// Stores the parameters that live in memory.
    StoreParams,
    /// Reserves a place for a named return variable.
    ReserveResult(VariableId, Option<&'a Vec<Stmt>>),
    /// Initializes the state and runs the constructors of the bases.
    ConstructorPrelude(ContractId),
    /// Leaves the function, unless control has left.
    EndFunction(&'a Vec<VariableId>),
    /// Pushes the default value of a return variable, or complains.
    DefaultResult(VariableId),
    /// Makes the top value that of a constructor parameter, and keeps it.
    BindArgument(VariableId),
    /// Takes so many arguments for the constructor of a base.
    ResolveBase(ContractId, usize),
    /// Forgets the values of constructor parameters.
    ForgetParameters(&'a Vec<VariableId>),
    /// Lowers a return statement.
    Return(Option<&'a Expr>),
    /// Returns nothing to an internal caller.
    ReturnNothing,
    /// Stops.
    Stop,
    /// Delivers so many values at the top to where an inlined body was called.
    DeliverInline(usize),
    /// Delivers so many results of a call to where an inlined body was called:
    /// those that an inlined callee left, or those of the multi-return buffer.
    DeliverResults(usize),
    /// Ends an arm of a conditional expression. The flag says that it is the
    /// second one.
    ArmEnd(ArmKind, bool),
    /// Gathers so many results of a call of which the first is at the top.
    GatherResults(usize),
    /// Stages so many values at the top in the multi-return buffer.
    StageValues(usize),
    /// Stages the tail of so many values at the top and leaves the first.
    StageTail(usize),
    /// Makes the call of a try statement and pushes whether it succeeded.
    TryCall(&'a Expr),
    /// Writes the selector and so many arguments of a call that returns so
    /// many words, and leaves the address and the operands of the call.
    MemberCallBegin(u32, usize, u64),
    /// Makes a call and pushes whether it succeeded.
    MemberCallEnd,
    /// Pushes whether the top value is not zero.
    Truth,
    /// Adds the two values at the top.
    Add,
    /// Emits an event.
    Emit(&'a Expr),
    /// Pushes the topic of an event.
    EventTopic(EventId),
    /// Sorts the topic of an event that has one, and so many values, into topics
    /// and data.
    SplitEvent(EventId, usize),
    /// Stores so many words of data and pushes where they are and their size.
    StoreEventData(usize),
    /// Logs data with so many topics, and the topic of the event if it has one.
    Log(usize, bool),
    /// Decodes returned data into the variables of the success clause.
    TryResults(&'a TryClause),
    /// Starts the handlers.
    HandlersBegin,
    /// Starts the handler of `Error(string)`.
    ErrorHandler,
    /// Replaces bytes in memory by the region behind their selector.
    ErrorRegion,
    /// Starts the handler of `Panic(uint256)` and pushes the code.
    PanicHandler,
    /// Ends a handler and goes to the next one.
    HandlerEnd,
    /// Starts the handler of everything else.
    FallbackHandler,
    /// Ends the handler of everything else.
    FallbackEnd,
    /// Jumps to where the failure is passed on.
    NoFallback,
    /// Passes the failure on and ends the handlers.
    Rethrow,
    /// Binds the top value to a freshly declared variable.
    BindLocal(VariableId),
    /// Pushes the slice that a member of a call-data struct is.
    MemberSlice(&'a Expr),
    /// Builds the slice of a member from the base and the head position.
    TailSlice,
    /// Replaces bytes in memory by their length and their address.
    ObjectParts,
    /// Checks that the region at the top holds the heads of a tuple and pushes
    /// their size.
    CheckRegion(u64),
    /// Decodes bytes from a region, its length, the size of its heads and a
    /// head word.
    DecodeBytesBegin,
    /// Copies decoded bytes to the object at the top.
    DecodeBytesEnd,
    /// Decodes an array from a region, its length and a head word, up to the
    /// allocation of the copy. The flag says that its elements are bytes.
    DecodeArrayBegin(u64, bool),
    /// Copies the words of an array to the object at the top, and keeps the
    /// object.
    DecodeWordsEnd,
    /// Prepares the array at the top for elements that are bytes, and keeps it.
    DecodePointersBegin,
    /// Starts a loop over the elements of an array of words.
    WordsLoopBegin,
    /// Checks an element of a copied array.
    CheckElement(ElementaryType),
    /// Ends a loop over the elements of an array of words.
    WordsLoopEnd,
    /// Starts a loop over elements that are bytes and pushes the region, its
    /// length, the size of its heads and the head word of the element.
    PointersLoopBegin,
    /// Stores an element and ends the loop.
    PointersLoopEnd,
    /// Ends the decoding of an array.
    ArrayDone,
    /// Checks that the top value is one of an elementary type.
    DecodeWord(ElementaryType),
    /// Removes so many values below so many at the top.
    DropBelow(usize, usize),
    /// Copies a call-data slice to memory and keeps anything else.
    CopyIfCalldata,
    /// Pushes the length of the array whose slot is below the top.
    ArrayLength(Option<u64>),
    /// Computes the slot of an element from the slot and the index.
    ElementSlot(Option<u64>, u64),
    /// Starts appending to the array whose slot is at the top.
    PushBegin,
    /// Computes the slot of the element that is appended.
    PushedElement(u64),
    /// Records the new length and leaves the slot of the element.
    PushEnd,
    /// Starts removing the last element: pushes the new length.
    PopBegin,
    /// Computes the slot of the element that is removed.
    PoppedElement(u64),
    /// Records the new length.
    PopEnd,
    /// Computes the slot of a mapping element from the slot and the key.
    MappingSlot(Option<&'a Expr>, bool),
    /// Computes the slot of a mapping element from the slot and the key, in a
    /// given way.
    MappingSlotBy(KeyHash, Option<&'a Expr>),
    /// Exchanges the two values at the top.
    Exchange,
    /// Reverts with a constant string through the shared helper.
    HelperRevert(&'a Vec<u8>),
    /// Pushes bytes in memory with constant contents.
    ConstantBytes(&'a Vec<u8>),
    /// Reverts with the string in memory at the top.
    StringRevert,
}

/// How an arm of a conditional expression hands over its value.
#[derive(Clone, Copy, Debug, PartialEq, Eq, Structural)]
pub enum ArmKind {
    /// As a word.
    Word,
    /// As a slice.
    Slice,
    /// In the multi-return buffer.
    Tuple,
}

/// Why a program panics.
#[derive(Clone, Copy, Debug, PartialEq, Eq, Structural)]
pub enum PanicCode {
    /// Too much memory is asked for.
    MemoryAllocationOverflow,
    /// The last element of an empty array is removed.
    PopEmptyArray,
}

/// A number literal of a fixed-size bytes type, in the highest bytes.
pub open spec fn aligned_number(number: U256, width: u8) -> U256 {
    word_of((number@ * pow2(((32 - width) * 8) as nat)) % word_modulus())
}

/// Returns a number literal of a fixed-size bytes type, in the highest bytes.
fn align_number(number: U256, width: u8) -> (r: U256)
    requires
        width < 32,
    ensures
        r == aligned_number(number, width),
{
    let r = number.shl((32 - width as usize) * 8);
    proof {
        lemma_word_of(r);
    }
    r
}

/// The tasks that lower a literal.
pub open spec fn literal_tasks<'a>(lit: Lit, width: Option<u8>, span: Span) -> Seq<Task<'a>> {
    match (lit, width) {
        (Lit::Number(number), Some(width)) if width < 32 => seq![
            Task::Constant(aligned_number(number, width)),
        ],
        _ => seq![Task::Literal(&lit, span)],
    }
}

/// Returns the tasks that lower a literal. A number literal of a fixed-size
/// bytes type is left-aligned like every value of such a type.
fn plan_literal<'a>(lit: &'a Lit, width: Option<u8>, span: Span) -> (r: Vec<Task<'a>>)
    ensures
        r@ == literal_tasks(*lit, width, span),
{
    let r = match (lit, width) {
        (Lit::Number(number), Some(width)) => {
            if width < 32 {
                vec![Task::Constant(align_number(*number, width))]
            } else {
                vec![Task::Literal(lit, span)]
            }
        },
        _ => vec![Task::Literal(lit, span)],
    };
    assert(r@ =~= literal_tasks(*lit, width, span));
    r
}

/// The task that lowers an operand of a binary operator: a bare number whose
/// sibling is of a fixed-size bytes type is aligned like it.
pub open spec fn operand_task<'a>(operand: Expr, sibling: Expr) -> Task<'a> {
    match (operand.kind, operand.facts.fixed_bytes, sibling.facts.fixed_bytes) {
        (ExprKind::Lit(Lit::Number(number)), None, Some(width)) if width < 32 => Task::Constant(
            aligned_number(number, width),
        ),
        _ => Task::Value(&operand),
    }
}

/// Returns the task that lowers an operand of a binary operator.
fn plan_fixed_bytes_operand<'a>(operand: &'a Expr, sibling: &Expr) -> (r: Task<'a>)
    ensures
        r == operand_task::<'a>(*operand, *sibling),
{
    if let ExprKind::Lit(Lit::Number(number)) = &operand.kind {
        if operand.facts.fixed_bytes.is_none() {
            if let Some(width) = sibling.facts.fixed_bytes {
                if width < 32 {
                    return Task::Constant(align_number(*number, width));
                }
            }
        }
    }
    Task::Value(operand)
}

/// The integer type of an operation: that of its result, or else that of its
/// operand.
pub open spec fn integer_of(expr: Expr, operand: Expr) -> Option<IntegerInfo> {
    if expr.facts.integer is Some {
        expr.facts.integer
    } else {
        operand.facts.integer
    }
}

/// Returns the integer type of an operation.
fn find_integer(expr: &Expr, operand: &Expr) -> (r: Option<IntegerInfo>)
    ensures
        r == integer_of(*expr, *operand),
{
    if expr.facts.integer.is_some() {
        expr.facts.integer
    } else {
        operand.facts.integer
    }
}

/// Whether an operation is signed: as its integer type says, or else as its left
/// operand is.
pub open spec fn signed_of(integer: Option<IntegerInfo>, lhs: Expr) -> bool {
    match integer {
        Some(info) => info.signed,
        None => lhs.facts.signed,
    }
}

/// Returns whether an operation is signed.
fn find_signed(integer: Option<IntegerInfo>, lhs: &Expr) -> (r: bool)
    ensures
        r == signed_of(integer, *lhs),
{
    match integer {
        Some(info) => info.signed,
        None => lhs.facts.signed,
    }
}

/// How the operator of a binary expression is applied.
pub open spec fn binary_arithmetic(expr: Expr, lhs: Expr) -> Arithmetic {
    Arithmetic {
        integer: integer_of(expr, lhs),
        is_signed: signed_of(integer_of(expr, lhs), lhs),
        span: expr.span,
        unsupported: expr.facts.unsupported_operator,
    }
}

/// Returns how the operator of a binary expression is applied.
fn find_binary_arithmetic(expr: &Expr, lhs: &Expr) -> (r: Arithmetic)
    ensures
        r == binary_arithmetic(*expr, *lhs),
{
    let integer = find_integer(expr, lhs);
    Arithmetic {
        integer,
        is_signed: find_signed(integer, lhs),
        span: expr.span,
        unsupported: expr.facts.unsupported_operator,
    }
}

/// How the operator of a compound assignment is applied.
pub open spec fn compound_arithmetic(expr: Expr, lhs: Expr) -> Arithmetic {
    Arithmetic {
        integer: lhs.facts.integer,
        is_signed: signed_of(lhs.facts.integer, lhs),
        span: lhs.span,
        unsupported: expr.facts.unsupported_operator,
    }
}

/// The tasks that lower a binary expression.
pub open spec fn binary_tasks<'a>(expr: Expr, lhs: Expr, op: BinOp, rhs: Expr) -> Seq<Task<'a>> {
    match expr.facts.user_operator {
        Some(id) => seq![Task::Value(&lhs)]
            .push(Task::Value(&rhs))
            .push(Task::Service(Service::Operator(id, 2, expr.span))),
        None => if op is And || op is Or {
            seq![Task::Value(&lhs)]
                .push(Task::ShortCircuitBegin(op is And))
                .push(Task::Value(&rhs))
                .push(Task::ShortCircuitEnd(op is And))
        } else {
            let operands = if op is Shl || op is Shr {
                seq![Task::Value(&lhs)].push(Task::Value(&rhs))
            } else {
                seq![operand_task(lhs, rhs)].push(operand_task(rhs, lhs))
            };
            let applied = operands.push(
                Task::Service(Service::Binary(op, binary_arithmetic(expr, lhs))),
            );
            match expr.facts.fixed_bytes {
                Some(width) => applied.push(Task::CleanFixedBytes(width)),
                None => applied,
            }
        },
    }
}

/// Returns the tasks that lower a binary expression.
///
/// A user-defined operator is a call of its function. The right operand of `&&`
/// and `||` is evaluated only if the left one does not decide. Shifts take a
/// plain number on the right. A result of a fixed-size bytes type is masked to
/// its width again.
fn plan_binary<'a>(expr: &'a Expr, lhs: &'a Expr, op: BinOp, rhs: &'a Expr) -> (r: Vec<Task<'a>>)
    ensures
        r@ == binary_tasks::<'a>(*expr, *lhs, op, *rhs),
{
    let mut tasks: Vec<Task<'a>> = Vec::new();
    if let Some(id) = expr.facts.user_operator {
        tasks.push(Task::Value(lhs));
        tasks.push(Task::Value(rhs));
        tasks.push(Task::Service(Service::Operator(id, 2, expr.span)));
        assert(tasks@ =~= binary_tasks::<'a>(*expr, *lhs, op, *rhs));
        return tasks;
    }
    if matches!(op, BinOp::And | BinOp::Or) {
        let is_and = matches!(op, BinOp::And);
        tasks.push(Task::Value(lhs));
        tasks.push(Task::ShortCircuitBegin(is_and));
        tasks.push(Task::Value(rhs));
        tasks.push(Task::ShortCircuitEnd(is_and));
        assert(tasks@ =~= binary_tasks::<'a>(*expr, *lhs, op, *rhs));
        return tasks;
    }
    if matches!(op, BinOp::Shl | BinOp::Shr) {
        tasks.push(Task::Value(lhs));
        tasks.push(Task::Value(rhs));
    } else {
        tasks.push(plan_fixed_bytes_operand(lhs, rhs));
        tasks.push(plan_fixed_bytes_operand(rhs, lhs));
    }
    tasks.push(Task::Service(Service::Binary(op, find_binary_arithmetic(expr, lhs))));
    if let Some(width) = expr.facts.fixed_bytes {
        tasks.push(Task::CleanFixedBytes(width));
    }
    assert(tasks@ =~= binary_tasks::<'a>(*expr, *lhs, op, *rhs));
    tasks
}

/// Whether an operator adds one.
pub open spec fn increments(op: UnOp) -> bool {
    op is PreInc || op is PostInc
}

/// Whether an operator yields the operand as it was.
pub open spec fn yields_old(op: UnOp) -> bool {
    op is PostInc || op is PostDec
}

/// The service that adds one to, or subtracts one from, an operand.
pub open spec fn step_by_one<'a>(op: UnOp, operand: Expr) -> Service<'a> {
    if increments(op) {
        Service::CheckedAdd(operand.facts.integer, operand.span)
    } else {
        Service::CheckedSub(operand.facts.integer, operand.span)
    }
}

/// The tasks that lower a unary expression.
pub open spec fn unary_tasks<'a>(expr: Expr, op: UnOp, operand: Expr) -> Seq<Task<'a>> {
    if crate::lower::analysis::mutates(op) {
        if expr.facts.unsupported_operator {
            seq![Task::Value(&operand)]
                .push(Task::Constant(word(1)))
                .push(Task::Discard)
                .push(Task::Discard)
                .push(Task::Complain(Complaint::UnsupportedOperator, operand.span))
        } else if yields_old(op) {
            seq![Task::Value(&operand)]
                .push(Task::Duplicate)
                .push(Task::Constant(word(1)))
                .push(Task::Service(step_by_one(op, operand)))
                .push(Task::Assign(&operand))
        } else {
            seq![Task::Value(&operand)]
                .push(Task::Constant(word(1)))
                .push(Task::Service(step_by_one(op, operand)))
                .push(Task::Duplicate)
                .push(Task::Assign(&operand))
        }
    } else {
        match expr.facts.user_operator {
            Some(id) => seq![Task::Value(&operand)]
                .push(Task::Service(Service::Operator(id, 1, expr.span))),
            None => if expr.facts.unsupported_operator {
                seq![Task::Value(&operand)]
                    .push(Task::Discard)
                    .push(Task::Complain(Complaint::UnsupportedOperator, expr.span))
            } else {
                seq![Task::Value(&operand)]
                    .push(Task::Service(
                        Service::Unary(op, integer_of(expr, operand), expr.span),
                    ))
            },
        }
    }
}

/// Returns the tasks that lower a unary expression. The operators that change
/// their operand read it, compute, store, and yield the old or the new value.
fn plan_unary<'a>(expr: &'a Expr, op: UnOp, operand: &'a Expr) -> (r: Vec<Task<'a>>)
    ensures
        r@ == unary_tasks::<'a>(*expr, op, *operand),
{
    let mut tasks: Vec<Task<'a>> = Vec::new();
    tasks.push(Task::Value(operand));
    if matches!(op, UnOp::PreInc | UnOp::PostInc | UnOp::PreDec | UnOp::PostDec) {
        let one = Task::Constant(U256::from_u64(1));
        if expr.facts.unsupported_operator {
            tasks.push(one);
            tasks.push(Task::Discard);
            tasks.push(Task::Discard);
            tasks.push(Task::Complain(Complaint::UnsupportedOperator, operand.span));
        } else {
            let up = matches!(op, UnOp::PreInc | UnOp::PostInc);
            let old_value = matches!(op, UnOp::PostInc | UnOp::PostDec);
            if old_value {
                tasks.push(Task::Duplicate);
            }
            tasks.push(one);
            let stepped = if up {
                Service::CheckedAdd(operand.facts.integer, operand.span)
            } else {
                Service::CheckedSub(operand.facts.integer, operand.span)
            };
            tasks.push(Task::Service(stepped));
            if !old_value {
                tasks.push(Task::Duplicate);
            }
            tasks.push(Task::Assign(operand));
        }
    } else if let Some(id) = expr.facts.user_operator {
        tasks.push(Task::Service(Service::Operator(id, 1, expr.span)));
    } else if expr.facts.unsupported_operator {
        tasks.push(Task::Discard);
        tasks.push(Task::Complain(Complaint::UnsupportedOperator, expr.span));
    } else {
        tasks.push(Task::Service(Service::Unary(op, find_integer(expr, operand), expr.span)));
    }
    assert(tasks@ =~= unary_tasks::<'a>(*expr, op, *operand));
    tasks
}

/// Whether a type is one whose values are slices when they are in the call
/// data.
pub open spec fn is_sliced_ty(ty: Ty) -> bool {
    match ty {
        Ty::DynArray(_) | Ty::Slice(_) => true,
        Ty::Elementary(elem) => elem is Bytes || elem is String,
        _ => false,
    }
}

/// Whether an expression is a member of a call-data struct that is itself a
/// slice.
pub open spec fn is_slice_member(lowerer: Lowerer, hir: Hir, expr: Expr) -> bool {
    match expr.kind {
        ExprKind::Member(base, member) => match base.facts.ty {
            Some(Ty::Ref(inner, DataLocation::Calldata)) => match (
                crate::hir::peeled(*inner),
                memory_field(lowerer.struct_storage_base_slots@, hir, *base, member@),
            ) {
                (Ty::Struct(id), Some((_, index))) => id.0 < hir.structs@.len() && index
                    < hir.structs@[id.0 as int].fields@.len() && is_sliced_ty(
                    crate::hir::peeled(field_ty(hir, id, index as int)),
                ),
                _ => false,
            },
            _ => false,
        },
        _ => false,
    }
}

/// The tasks that build an array from its first `count` elements.
pub open spec fn array_tasks<'a>(elements: Seq<Expr>, count: nat) -> Seq<Task<'a>>
    decreases count,
{
    if count == 0 || count > elements.len() {
        seq![Task::Allocate((elements.len() * 32) as u64, MemoryObjectKind::FixedArray)]
    } else {
        array_tasks(elements, (count - 1) as nat) + seq![Task::Value(&elements[count - 1])]
            .push(Task::StoreAt(((count - 1) * 32) as u64))
    }
}

/// The tasks that lower an assignment: the right side, the operator of a
/// compound assignment, and the store, which leaves the value on the stack.
pub open spec fn assignment_tasks<'a>(
    lowerer: Lowerer,
    hir: Hir,
    expr: Expr,
    lhs: Expr,
    op: Option<BinOp>,
    rhs: Expr,
) -> Seq<Task<'a>> {
    match (lhs.kind, op) {
        (ExprKind::Tuple(elements), None) => seq![Task::TupleAssign(&elements, &rhs)]
            .push(Task::Complain(Complaint::TupleAssignmentValue, expr.span)),
        (_, None) => right_side_tasks(lowerer, hir, lhs, rhs) + seq![Task::Duplicate]
            .push(Task::Assign(&lhs)),
        (_, Some(op)) => seq![Task::Value(&rhs)]
            .push(Task::Value(&lhs))
            .push(Task::Exchange)
            .push(Task::Service(Service::Binary(op, compound_arithmetic(expr, lhs))))
            .push(Task::Duplicate)
            .push(Task::Assign(&lhs)),
    }
}

/// The tasks that lower an expression to a value.
pub open spec fn value_tasks<'a>(
    lowerer: Lowerer,
    func: FunctionView,
    hir: Hir,
    expr: Expr,
) -> Seq<Task<'a>> {
    match expr.kind {
        ExprKind::Lit(lit) => literal_tasks(lit, expr.facts.fixed_bytes, expr.span),
        ExprKind::Ident(_) => name_tasks(lowerer, hir, expr),
        ExprKind::Binary(lhs, op, rhs) => binary_tasks(expr, *lhs, op, *rhs),
        ExprKind::Unary(op, operand) => unary_tasks(expr, op, *operand),
        ExprKind::Ternary(_, _, _) => seq![Task::Ternary(&expr)],
        ExprKind::Call(_, _, _) => seq![Task::Service(Service::Call(&expr))],
        ExprKind::Index(_, _) => seq![Task::Service(Service::Index(&expr))],
        ExprKind::Member(base, member) => member_tasks(lowerer, func, hir, expr, *base, member@),
        ExprKind::YulMember(base, member) => seq![Task::YulMember(&*base, &member)],
        ExprKind::Assign(lhs, op, rhs) => assignment_tasks(lowerer, hir, expr, *lhs, op, *rhs),
        ExprKind::Tuple(elements) => if elements@.len() == 1 && elements@[0] is Some {
            seq![Task::Value(&elements@[0]->0)]
        } else {
            seq![Task::Complain(Complaint::TupleValue, expr.span)]
        },
        ExprKind::Array(elements) => if elements@.len() * 32 > u64::MAX {
            seq![Task::Complain(Complaint::LargeArrayLiteral, expr.span)]
        } else {
            array_tasks(elements@, elements@.len())
        },
        ExprKind::TypeCall(_) => seq![Task::Complain(Complaint::TypeCallValue, expr.span)],
        ExprKind::Payable(inner) => seq![Task::Value(&*inner)],
        ExprKind::New(_) => seq![Task::Complain(Complaint::NewWithoutCall, expr.span)],
        ExprKind::Delete(_) => seq![Task::Service(Service::DeletedValue(expr.span))],
        ExprKind::Slice(base, _, _) => if is_slice_member(lowerer, hir, *base) {
            seq![Task::MemberSlice(&*base)].push(Task::SliceOf(&expr))
        } else {
            seq![Task::Value(&*base)].push(Task::SliceOf(&expr))
        },
        ExprKind::Type(_) => seq![Task::Complain(Complaint::TypeNameValue, expr.span)],
        ExprKind::Error(guar) => seq![Task::ErrorValue(guar)],
    }
}

/// Returns the tasks that build an array from its elements.
fn plan_array<'a>(elements: &'a Vec<Expr>, span: Span) -> (r: Vec<Task<'a>>)
    ensures
        r@ == if elements@.len() * 32 > u64::MAX {
            seq![Task::Complain(Complaint::LargeArrayLiteral, span)]
        } else {
            array_tasks(elements@, elements@.len())
        },
{
    let size: u64 = match (elements.len() as u64).checked_mul(32) {
        Some(size) => size,
        None => {
            let tasks = vec![Task::Complain(Complaint::LargeArrayLiteral, span)];
            assert(tasks@ =~= seq![Task::<'a>::Complain(Complaint::LargeArrayLiteral, span)]);
            return tasks;
        },
    };
    let mut tasks: Vec<Task<'a>> = vec![Task::Allocate(size, MemoryObjectKind::FixedArray)];
    let mut i: usize = 0;
    assert(tasks@ =~= array_tasks(elements@, 0));
    while i < elements.len()
        invariant
            i <= elements@.len(),
            elements@.len() * 32 <= u64::MAX,
            tasks@ == array_tasks::<'a>(elements@, i as nat),
        decreases elements@.len() - i,
    {
        tasks.push(Task::Value(&elements[i]));
        tasks.push(Task::StoreAt(i as u64 * 32));
        i = i + 1;
        assert(tasks@ =~= array_tasks::<'a>(elements@, i as nat));
    }
    tasks
}

/// Whether a type is one whose values are slices when they are in the call
/// data.
fn is_sliced_type(ty: &Ty) -> (r: bool)
    ensures
        r == is_sliced_ty(*ty),
{
    match ty {
        Ty::DynArray(_) | Ty::Slice(_) => true,
        Ty::Elementary(elem) => matches!(elem, ElementaryType::Bytes | ElementaryType::String),
        _ => false,
    }
}

impl Lowerer {
    /// Whether an expression is a member of a call-data struct that is itself a
    /// slice. Such a member stays in the call data when it is sliced; other
    /// reads go through the copy of the struct in memory.
    pub fn is_calldata_slice_member(&self, hir: &Hir, expr: &Expr) -> (r: bool)
        requires
            hir_wf(*hir),
        ensures
            r == is_slice_member(*self, *hir, *expr),
    {
        match &expr.kind {
            ExprKind::Member(base, member) => match &base.facts.ty {
                Some(Ty::Ref(inner, DataLocation::Calldata)) => match inner.peel_refs() {
                    Ty::Struct(id) => {
                        let index: usize = match self.get_memory_struct_field_info(
                            hir,
                            base,
                            member.as_str(),
                        ) {
                            Some((_, index)) => index,
                            None => {
                                return false;
                            },
                        };
                        if id.0 >= hir.structs.len() || index >= hir.structs[id.0].fields.len() {
                            return false;
                        }
                        proof {
                            reveal(hir_wf);
                            assert(crate::hir::has_variables(
                                *hir,
                                hir.structs@[id.0 as int].fields@,
                            ));
                        }
                        let field = &hir.variables[hir.structs[id.0].fields[index].0];
                        is_sliced_type(field.ty.peel_refs())
                    },
                    _ => false,
                },
                _ => false,
            },
            _ => false,
        }
    }

    /// Takes an expression apart into the tasks that lower it to a value.
    pub fn plan_value<'a>(&self, func: &Function, hir: &'a Hir, expr: &'a Expr) -> (r: Vec<
        Task<'a>,
    >)
        requires
            function_wf(func@),
            hir_wf(*hir),
        ensures
            r@ == value_tasks::<'a>(*self, func@, *hir, *expr),
    {
        let ghost expected = value_tasks::<'a>(*self, func@, *hir, *expr);
        let mut tasks: Vec<Task<'a>> = Vec::new();
        match &expr.kind {
            ExprKind::Lit(lit) => {
                return plan_literal(lit, expr.facts.fixed_bytes, expr.span);
            },
            ExprKind::Ident(_) => {
                return self.plan_ident(hir, expr);
            },
            ExprKind::Binary(lhs, op, rhs) => {
                return plan_binary(expr, lhs, *op, rhs);
            },
            ExprKind::Unary(op, operand) => {
                return plan_unary(expr, *op, operand);
            },
            ExprKind::Ternary(_, _, _) => {
                tasks.push(Task::Ternary(expr));
            },
            ExprKind::Call(_, _, _) => {
                tasks.push(Task::Service(Service::Call(expr)));
            },
            ExprKind::Index(_, _) => {
                tasks.push(Task::Service(Service::Index(expr)));
            },
            ExprKind::Member(base, member) => {
                return self.plan_member(func, hir, expr, base, member.as_str());
            },
            ExprKind::YulMember(base, member) => {
                tasks.push(Task::YulMember(base, member));
            },
            ExprKind::Assign(lhs, op, rhs) => {
                return self.plan_assignment(hir, expr, lhs, *op, rhs);
            },
            ExprKind::Tuple(elements) => {
                if elements.len() == 1 && elements[0].is_some() {
                    if let Some(inner) = &elements[0] {
                        tasks.push(Task::Value(inner));
                    }
                } else {
                    tasks.push(Task::Complain(Complaint::TupleValue, expr.span));
                }
            },
            ExprKind::Array(elements) => {
                return plan_array(elements, expr.span);
            },
            ExprKind::TypeCall(_) => {
                tasks.push(Task::Complain(Complaint::TypeCallValue, expr.span));
            },
            ExprKind::Payable(inner) => {
                tasks.push(Task::Value(inner));
            },
            ExprKind::New(_) => {
                tasks.push(Task::Complain(Complaint::NewWithoutCall, expr.span));
            },
            ExprKind::Delete(_) => {
                tasks.push(Task::Service(Service::DeletedValue(expr.span)));
            },
            ExprKind::Slice(base, _, _) => {
                if self.is_calldata_slice_member(hir, base) {
                    tasks.push(Task::MemberSlice(base));
                } else {
                    tasks.push(Task::Value(base));
                }
                tasks.push(Task::SliceOf(expr));
            },
            ExprKind::Type(_) => {
                tasks.push(Task::Complain(Complaint::TypeNameValue, expr.span));
            },
            ExprKind::Error(guar) => {
                tasks.push(Task::ErrorValue(*guar));
            },
        }
        assert(tasks@ =~= expected);
        tasks
    }

    /// Returns the tasks that lower an assignment.
    fn plan_assignment<'a>(
        &self,
        hir: &'a Hir,
        expr: &'a Expr,
        lhs: &'a Expr,
        op: Option<BinOp>,
        rhs: &'a Expr,
    ) -> (r: Vec<Task<'a>>)
        requires
            hir_wf(*hir),
        ensures
            r@ == assignment_tasks::<'a>(*self, *hir, *expr, *lhs, op, *rhs),
    {
        let ghost expected = assignment_tasks::<'a>(*self, *hir, *expr, *lhs, op, *rhs);
        if let Some(op) = op {
            let arithmetic = Arithmetic {
                integer: lhs.facts.integer,
                is_signed: find_signed(lhs.facts.integer, lhs),
                span: lhs.span,
                unsupported: expr.facts.unsupported_operator,
            };
            let tasks: Vec<Task<'a>> = vec![
                Task::Value(rhs),
                Task::Value(lhs),
                Task::Exchange,
                Task::Service(Service::Binary(op, arithmetic)),
                Task::Duplicate,
                Task::Assign(lhs),
            ];
            assert(tasks@ =~= expected);
            return tasks;
        }
        if let ExprKind::Tuple(elements) = &lhs.kind {
            let tasks: Vec<Task<'a>> = vec![
                Task::TupleAssign(elements, rhs),
                Task::Complain(Complaint::TupleAssignmentValue, expr.span),
            ];
            assert(tasks@ =~= expected);
            return tasks;
        }
        let mut tasks: Vec<Task<'a>> = vec![self.plan_right_side(hir, lhs, rhs)];
        tasks.push(Task::Duplicate);
        tasks.push(Task::Assign(lhs));
        assert(tasks@ =~= expected);
        tasks
    }
}

} // verus!
