//! The state of lowering a contract.

use crate::hir::{Builtin, ContractId, HirFunctionId, Symbol, VariableId};
use crate::lower::emit::extends;
use crate::memory::EvmMemoryLayout;
use crate::mir::builder::{
    constant, emitted, group_builder_steps, word, BuilderView, FunctionBuilder,
};
use crate::mir::function::{has_value, next_value, FunctionView};
use crate::mir::inst::{inst, Op};
use crate::mir::module::{empty_module, Module};
use crate::mir::types::{
    BlockId, ErrorGuaranteed, FunctionId, MirType, SliceLocation, Span, ValueId,
};
use crate::word::U256;
use std::collections::{HashMap, HashSet};
use vstd::prelude::*;

verus! {

/// The blocks that `break` and `continue` go to.
#[derive(Clone, Copy, Debug, PartialEq, Eq, Structural)]
pub struct LoopContext {
    /// Block to jump to on `break`.
    pub break_target: BlockId,
    /// Block to jump to on `continue`.
    pub continue_target: BlockId,
}

/// Where a state variable is stored.
#[derive(Clone, Copy, Debug, PartialEq, Eq, Structural)]
pub struct StorageLocation {
    /// Its slot.
    pub slot: U256,
    /// Its first byte in the slot.
    pub offset: u8,
    /// Its bytes in the slot.
    pub size: u8,
}

/// Where an inlined callee's `return` statements deliver their values.
#[derive(Debug)]
pub struct InlineReturnCtx {
    /// The block that the call site continues from.
    pub exit_block: BlockId,
    /// The callee's return variables, in declaration order.
    pub return_vars: Vec<VariableId>,
}

/// A complaint about a program that cannot be lowered.
#[derive(Clone, Copy, Debug, PartialEq, Eq, Structural)]
pub enum Complaint {
    /// A name with several meanings is used as a value.
    OverloadedIdentifier,
    /// A function that implements an operator returns nothing.
    OperatorWithoutValue,
    /// An operator is not defined for a user-defined value type.
    UnsupportedOperator,
    /// A tuple assignment is used as a value.
    TupleAssignmentValue,
    /// A tuple is used as a value.
    TupleValue,
    /// A tuple value lacks an element.
    OmittedElement,
    /// A tuple declares another number of variables than it has values.
    DeclarationArity,
    /// A tuple is assigned another number of values than it has elements.
    AssignmentArity,
    /// An array literal is too large.
    LargeArrayLiteral,
    /// An array in memory is too large.
    LargeMemoryArray,
    /// `type(...)` is used as a value.
    TypeCallValue,
    /// `new` is not called.
    NewWithoutCall,
    /// A call-data array whose elements vary in size is sliced.
    SliceOfDynamicElements,
    /// Something that is neither bytes nor an array is sliced.
    SliceOfOther,
    /// A type name is used as a value.
    TypeNameValue,
    /// A fraction is used as a value.
    FractionalLiteral,
    /// An item that is no value is used as one.
    ItemValue,
    /// A namespace is used as a value.
    NamespaceValue,
    /// A built-in that is no value is used as one.
    BuiltinValue(Builtin),
    /// A component that assembly cannot read.
    YulMember(Symbol),
    /// A component that assembly cannot write.
    YulTarget(Symbol),
    /// `interfaceId` of something that is no interface.
    NotAnInterface,
    /// `min` or `max` of something that is no integer.
    NotAnInteger,
    /// `creationCode` of something that is no contract.
    NotAContract,
    /// `runtimeCode`.
    RuntimeCode,
    /// The creation code of a contract is not at hand.
    MissingBytecode,
    /// A storage reference is declared with a value that has no slot.
    StorageReferenceInitializer,
    /// A storage reference is assigned a value that has no slot.
    StorageReferenceAssignment,
    /// A local variable without an initial value.
    LocalInitializer,
    /// A type whose default value cannot be built.
    MemoryDefault,
    /// A return variable that has no place.
    MissingReturnSlot,
    /// A handler of a try statement that is not known.
    UnknownHandler(Symbol),
    /// A type that `abi.decode` cannot decode.
    DecodeTarget,
    /// A type that the success clause of a try statement cannot decode.
    TryReturnType,
    /// Nothing is decoded.
    EmptyDecode,
    /// Base constructors whose arguments need each other.
    CyclicBaseArguments,
    /// The base whose constructor's arguments are not given.
    MissingBaseArguments(ContractId),
    /// A base constructor with the wrong number of arguments.
    BaseArgumentCount,
}

/// The state of lowering a contract.
pub struct Lowerer {
    /// The module being built.
    pub module: Module,
    /// The most-derived contract this module is being built for.
    pub contract_id: Option<ContractId>,
    /// The contract whose code is being lowered.
    pub current_contract_id: Option<ContractId>,
    /// Storage slots of state variables.
    pub storage_slots: HashMap<usize, U256>,
    /// Full storage locations of state variables.
    pub storage_locations: HashMap<usize, StorageLocation>,
    /// Byte offsets of immutables.
    pub immutable_slots: HashMap<usize, u32>,
    /// Next available immutable byte offset.
    pub next_immutable_offset: u32,
    /// Values of variables that never change.
    pub locals: HashMap<usize, ValueId>,
    /// Memory offsets of variables that change.
    pub local_memory_slots: HashMap<usize, u64>,
    /// Variables whose two-word slot holds a slice as `[ptr][len]`.
    pub slice_slot_locals: HashSet<usize>,
    /// Where the returns of an inlined body go.
    pub inline_returns: Option<InlineReturnCtx>,
    /// Results of the most recently inlined callee that cannot travel through
    /// the multi-return buffer.
    pub pending_inline_returns: Option<Vec<ValueId>>,
    /// Next available memory offset for variables.
    pub next_local_memory_offset: u64,
    /// Creation code of other contracts.
    pub contract_bytecodes: HashMap<usize, Vec<u8>>,
    /// The enclosing loops, innermost last.
    pub loop_stack: Vec<LoopContext>,
    /// Variables that are assigned after their declaration.
    pub assigned_vars: HashSet<usize>,
    /// Whether the next expression is checked for errors.
    pub check_expr_errors: bool,
    /// Whether the program had errors before lowering.
    pub hir_has_errors: bool,
    /// Variables whose value is a storage slot.
    pub storage_ref_locals: HashSet<usize>,
    /// Functions being inlined, innermost last.
    pub inline_stack: Vec<HirFunctionId>,
    /// Suspended values of `check_expr_errors`, one per inlined function.
    pub inline_expr_error_checks: Vec<bool>,
    /// Source functions already lowered.
    pub hir_to_mir_functions: HashMap<usize, FunctionId>,
    /// Copies of public functions with the internal convention.
    pub hir_to_internal_mir_functions: HashMap<usize, FunctionId>,
    /// Functions being lowered.
    pub lowering_functions: HashSet<usize>,
    /// Functions used as internal function values.
    pub internal_function_pointer_targets: HashSet<usize>,
    /// Whether constructor code is being lowered.
    pub lowering_constructor: bool,
    /// Whether variables live in the internal-call frame.
    pub lowering_internal_function: bool,
    /// The shared helper that reverts with a string.
    pub revert_error_helper: Option<FunctionId>,
    /// The shared helper that loads bytes from storage.
    pub storage_bytes_helper: Option<FunctionId>,
    /// Whether the body of a shared helper is being built.
    pub synthesizing_helper: bool,
    /// Whether arithmetic wraps.
    pub in_unchecked_block: bool,
    /// Return variables of the function being lowered.
    pub current_results: Vec<VariableId>,
    /// Base slots of struct state variables.
    pub struct_storage_base_slots: HashMap<usize, U256>,
    /// Whether the target has a memory-copy instruction.
    pub has_mcopy: bool,
    /// What could not be lowered.
    pub complaints: Vec<(Span, Complaint)>,
}

/// The deepest nesting of inlined functions.
pub const MAX_INLINE_DEPTH: usize = 32;

/// Where a variable is, relative to its frame or to the start of memory.
pub open spec fn frame_offset(func: FunctionView, offset: u64) -> int {
    EvmMemoryLayout::INTERNAL_FRAME_HEADER_SIZE + func.params.len() * EvmMemoryLayout::WORD_SIZE
        + func.return_types.len() * EvmMemoryLayout::WORD_SIZE + if offset
        >= EvmMemoryLayout::HEAP_START {
        offset - EvmMemoryLayout::HEAP_START
    } else {
        0
    }
}

/// Whether a variable at an offset has an address.
pub open spec fn offset_fits(internal: bool, func: FunctionView, offset: u64) -> bool {
    internal ==> frame_offset(func, offset) <= u64::MAX
}

/// Whether a slice at an offset has an address for both of its words.
pub open spec fn slice_offset_fits(internal: bool, func: FunctionView, offset: u64) -> bool {
    offset + EvmMemoryLayout::WORD_SIZE <= u64::MAX && offset_fits(internal, func, offset)
        && offset_fits(internal, func, (offset + EvmMemoryLayout::WORD_SIZE) as u64)
}

/// The address of a variable.
#[verifier::opaque]
pub open spec fn variable_addr(b: BuilderView, internal: bool, offset: u64) -> (
    BuilderView,
    ValueId,
) {
    if internal {
        (
            emitted(
                b,
                inst(
                    Op::InternalFrameAddr { offset: frame_offset(b.func, offset) as u64 },
                    seq![],
                ),
                Some(MirType::MemPtr),
            ),
            next_value(b.func),
        )
    } else {
        (constant(b, word(offset)), next_value(b.func))
    }
}

/// The builder after storing a variable.
#[verifier::opaque]
pub open spec fn variable_stored(
    b: BuilderView,
    internal: bool,
    offset: u64,
    value: ValueId,
) -> BuilderView {
    let (b, addr) = variable_addr(b, internal, offset);
    emitted(b, inst(Op::MStore, seq![addr, value]), None)
}

/// The value of a variable.
#[verifier::opaque]
pub open spec fn variable_loaded(b: BuilderView, internal: bool, offset: u64) -> (
    BuilderView,
    ValueId,
) {
    let (b, addr) = variable_addr(b, internal, offset);
    (emitted(b, inst(Op::MLoad, seq![addr]), Some(MirType::uint256())), next_value(b.func))
}

/// The builder after storing a slice variable.
#[verifier::opaque]
pub open spec fn slice_stored(
    b: BuilderView,
    internal: bool,
    offset: u64,
    slice: ValueId,
) -> BuilderView {
    let ptr = next_value(b.func);
    let b = emitted(b, inst(Op::SlicePtr, seq![slice]), Some(MirType::uint256()));
    let len = next_value(b.func);
    let b = emitted(b, inst(Op::SliceLen, seq![slice]), Some(MirType::uint256()));
    let b = variable_stored(b, internal, offset, ptr);
    variable_stored(b, internal, (offset + EvmMemoryLayout::WORD_SIZE) as u64, len)
}

/// The builder after making a slice variable empty.
#[verifier::opaque]
pub open spec fn slice_emptied(b: BuilderView, internal: bool, offset: u64) -> BuilderView {
    let (b, ptr_addr) = variable_addr(b, internal, offset);
    let ptr = next_value(b.func);
    let b = constant(b, word(0));
    let b = emitted(b, inst(Op::MStore, seq![ptr_addr, ptr]), None);
    let (b, len_addr) = variable_addr(
        b,
        internal,
        (offset + EvmMemoryLayout::WORD_SIZE) as u64,
    );
    let len = next_value(b.func);
    let b = constant(b, word(0));
    emitted(b, inst(Op::MStore, seq![len_addr, len]), None)
}

/// The value of a slice variable.
#[verifier::opaque]
pub open spec fn slice_loaded(
    b: BuilderView,
    internal: bool,
    offset: u64,
    location: SliceLocation,
) -> (BuilderView, ValueId) {
    let (b, ptr) = variable_loaded(b, internal, offset);
    let (b, len) = variable_loaded(b, internal, (offset + EvmMemoryLayout::WORD_SIZE) as u64);
    (
        emitted(
            b,
            inst(Op::MakeSlice { location }, seq![ptr, len]),
            Some(MirType::Slice(location)),
        ),
        next_value(b.func),
    )
}

/// Where an immutable is staged.
pub open spec fn scratch_of(offset: u32) -> u64 {
    (EvmMemoryLayout::IMMUTABLE_SCRATCH_BASE + offset) as u64
}

/// The builder after staging an immutable.
#[verifier::opaque]
pub open spec fn immutable_stored(b: BuilderView, offset: u32, value: ValueId) -> BuilderView {
    let addr = next_value(b.func);
    let b = constant(b, word(scratch_of(offset)));
    emitted(b, inst(Op::MStore, seq![addr, value]), None)
}

/// The value of an immutable: staged in a constructor, embedded elsewhere.
#[verifier::opaque]
pub open spec fn immutable_loaded(b: BuilderView, in_constructor: bool, offset: u32) -> (
    BuilderView,
    ValueId,
) {
    if in_constructor {
        let addr = next_value(b.func);
        let b = constant(b, word(scratch_of(offset)));
        (emitted(b, inst(Op::MLoad, seq![addr]), Some(MirType::uint256())), next_value(b.func))
    } else {
        (
            emitted(
                b,
                inst(Op::LoadImmutable { offset }, seq![]),
                Some(MirType::uint256()),
            ),
            next_value(b.func),
        )
    }
}

impl Lowerer {
    /// Creates a new lowerer.
    pub fn new(name: String, hir_has_errors: bool, has_mcopy: bool) -> (r: Lowerer)
        ensures
            r.module@ == empty_module(name@),
            r.contract_id is None,
            r.current_contract_id is None,
            r.storage_slots@ == Map::<usize, U256>::empty(),
            r.storage_locations@ == Map::<usize, StorageLocation>::empty(),
            r.immutable_slots@ == Map::<usize, u32>::empty(),
            r.next_immutable_offset == 0,
            r.locals@ == Map::<usize, ValueId>::empty(),
            r.local_memory_slots@ == Map::<usize, u64>::empty(),
            r.slice_slot_locals@ == Set::<usize>::empty(),
            r.inline_returns is None,
            r.pending_inline_returns is None,
            r.next_local_memory_offset == EvmMemoryLayout::HEAP_START,
            r.contract_bytecodes@ == Map::<usize, Vec<u8>>::empty(),
            r.loop_stack@ == Seq::<LoopContext>::empty(),
            r.assigned_vars@ == Set::<usize>::empty(),
            r.check_expr_errors == hir_has_errors,
            r.hir_has_errors == hir_has_errors,
            r.storage_ref_locals@ == Set::<usize>::empty(),
            r.inline_stack@ == Seq::<HirFunctionId>::empty(),
            r.inline_expr_error_checks@ == Seq::<bool>::empty(),
            r.hir_to_mir_functions@ == Map::<usize, FunctionId>::empty(),
            r.hir_to_internal_mir_functions@ == Map::<usize, FunctionId>::empty(),
            r.lowering_functions@ == Set::<usize>::empty(),
            r.internal_function_pointer_targets@ == Set::<usize>::empty(),
            !r.lowering_constructor,
            !r.lowering_internal_function,
            r.revert_error_helper is None,
            r.storage_bytes_helper is None,
            !r.synthesizing_helper,
            !r.in_unchecked_block,
            r.current_results@ == Seq::<VariableId>::empty(),
            r.struct_storage_base_slots@ == Map::<usize, U256>::empty(),
            r.has_mcopy == has_mcopy,
            r.complaints@ == Seq::<(Span, Complaint)>::empty(),
    {
        Lowerer {
            module: Module::new(name),
            contract_id: None,
            current_contract_id: None,
            storage_slots: HashMap::new(),
            storage_locations: HashMap::new(),
            immutable_slots: HashMap::new(),
            next_immutable_offset: 0,
            locals: HashMap::new(),
            local_memory_slots: HashMap::new(),
            slice_slot_locals: HashSet::new(),
            inline_returns: None,
            pending_inline_returns: None,
            next_local_memory_offset: EvmMemoryLayout::HEAP_START,
            contract_bytecodes: HashMap::new(),
            loop_stack: Vec::new(),
            assigned_vars: HashSet::new(),
            check_expr_errors: hir_has_errors,
            hir_has_errors,
            storage_ref_locals: HashSet::new(),
            inline_stack: Vec::new(),
            inline_expr_error_checks: Vec::new(),
            hir_to_mir_functions: HashMap::new(),
            hir_to_internal_mir_functions: HashMap::new(),
            lowering_functions: HashSet::new(),
            internal_function_pointer_targets: HashSet::new(),
            lowering_constructor: false,
            lowering_internal_function: false,
            revert_error_helper: None,
            storage_bytes_helper: None,
            synthesizing_helper: false,
            in_unchecked_block: false,
            current_results: Vec::new(),
            struct_storage_base_slots: HashMap::new(),
            has_mcopy,
            complaints: Vec::new(),
        }
    }

    /// Reports a complaint and returns the error value that stands for what
    /// could not be lowered.
    pub fn err_value<'a>(
        &mut self,
        builder: &mut FunctionBuilder<'a>,
        span: Span,
        complaint: Complaint,
    ) -> (r: ValueId)
        requires
            old(builder).wf(),
        ensures
            *final(self) == (Lowerer { complaints: final(self).complaints, ..*old(self) }),
            final(self).complaints@ == old(self).complaints@.push((span, complaint)),
            final(builder).wf(),
            (final(builder)@, r) == error_emitted(old(builder)@),
            has_value(final(builder)@.func, r),
            extends(old(builder)@, final(builder)@),
            *final(final(builder).func) == *final(old(builder).func),
    {
        broadcast use group_builder_steps;

        self.complaints.push((span, complaint));
        builder.error_value(ErrorGuaranteed)
    }

    /// Pushes a loop context onto the stack.
    pub fn push_loop(&mut self, ctx: LoopContext)
        ensures
            *final(self) == (Lowerer { loop_stack: final(self).loop_stack, ..*old(self) }),
            final(self).loop_stack@ == old(self).loop_stack@.push(ctx),
    {
        self.loop_stack.push(ctx);
    }

    /// Pops a loop context from the stack.
    pub fn pop_loop(&mut self)
        ensures
            *final(self) == (Lowerer { loop_stack: final(self).loop_stack, ..*old(self) }),
            final(self).loop_stack@ == if old(self).loop_stack@.len() == 0 {
                old(self).loop_stack@
            } else {
                old(self).loop_stack@.drop_last()
            },
    {
        let _ = self.loop_stack.pop();
    }

    /// Gets the current loop context, if any.
    pub fn current_loop(&self) -> (r: Option<LoopContext>)
        ensures
            r == if self.loop_stack@.len() == 0 {
                None
            } else {
                Some(self.loop_stack@.last())
            },
    {
        let count: usize = self.loop_stack.len();
        if count == 0 {
            None
        } else {
            Some(self.loop_stack[count - 1])
        }
    }

    /// Attempts to enter inlining for a function. Returns false if a cycle is
    /// detected or the nesting is too deep.
    pub fn try_enter_inline(&mut self, func_id: HirFunctionId) -> (r: bool)
        ensures
            r == (!old(self).inline_stack@.contains(func_id) && old(self).inline_stack@.len()
                < MAX_INLINE_DEPTH),
            !r ==> *final(self) == *old(self),
            r ==> {
                &&& *final(self) == (Lowerer {
                    inline_stack: final(self).inline_stack,
                    inline_expr_error_checks: final(self).inline_expr_error_checks,
                    check_expr_errors: old(self).hir_has_errors,
                    ..*old(self)
                })
                &&& final(self).inline_stack@ == old(self).inline_stack@.push(func_id)
                &&& final(self).inline_expr_error_checks@
                    == old(self).inline_expr_error_checks@.push(old(self).check_expr_errors)
            },
    {
        let mut i: usize = 0;
        while i < self.inline_stack.len()
            invariant
                i <= self.inline_stack@.len(),
                *self == *old(self),
                forall|k: int| 0 <= k < i ==> #[trigger] self.inline_stack@[k] != func_id,
            decreases self.inline_stack@.len() - i,
        {
            if self.inline_stack[i] == func_id {
                assert(self.inline_stack@.contains(func_id));
                return false;
            }
            i = i + 1;
        }
        assert(!self.inline_stack@.contains(func_id));
        if self.inline_stack.len() >= MAX_INLINE_DEPTH {
            return false;
        }
        self.inline_stack.push(func_id);
        self.inline_expr_error_checks.push(self.check_expr_errors);
        self.check_expr_errors = self.hir_has_errors;
        true
    }

    /// Exits inlining for a function.
    pub fn exit_inline(&mut self)
        requires
            old(self).inline_stack@.len() > 0,
            old(self).inline_expr_error_checks@.len() > 0,
        ensures
            *final(self) == (Lowerer {
                inline_stack: final(self).inline_stack,
                inline_expr_error_checks: final(self).inline_expr_error_checks,
                check_expr_errors: old(self).inline_expr_error_checks@.last(),
                ..*old(self)
            }),
            final(self).inline_stack@ == old(self).inline_stack@.drop_last(),
            final(self).inline_expr_error_checks@
                == old(self).inline_expr_error_checks@.drop_last(),
    {
        let _ = self.inline_stack.pop();
        if let Some(check) = self.inline_expr_error_checks.pop() {
            self.check_expr_errors = check;
        }
    }

    /// Allocates a memory slot for a local variable. Returns the memory offset.
    pub fn alloc_local_memory(&mut self, var_id: VariableId) -> (r: u64)
        requires
            old(self).next_local_memory_offset + EvmMemoryLayout::WORD_SIZE <= u64::MAX,
        ensures
            r == old(self).next_local_memory_offset,
            *final(self) == (Lowerer {
                next_local_memory_offset: (r + EvmMemoryLayout::WORD_SIZE) as u64,
                local_memory_slots: final(self).local_memory_slots,
                ..*old(self)
            }),
            final(self).local_memory_slots@ == old(self).local_memory_slots@.insert(var_id.0, r),
    {
        broadcast use vstd::std_specs::hash::group_hash_axioms;

        let offset = self.next_local_memory_offset;
        self.next_local_memory_offset = offset + EvmMemoryLayout::WORD_SIZE;
        self.local_memory_slots.insert(var_id.0, offset);
        offset
    }

    /// Allocates a two-word memory slot holding a slice as `[ptr][len]` and
    /// returns the base offset.
    pub fn alloc_local_slice_memory(&mut self, var_id: VariableId) -> (r: u64)
        requires
            old(self).next_local_memory_offset + 2 * EvmMemoryLayout::WORD_SIZE <= u64::MAX,
        ensures
            r == old(self).next_local_memory_offset,
            *final(self) == (Lowerer {
                next_local_memory_offset: (r + 2 * EvmMemoryLayout::WORD_SIZE) as u64,
                local_memory_slots: final(self).local_memory_slots,
                slice_slot_locals: final(self).slice_slot_locals,
                ..*old(self)
            }),
            final(self).local_memory_slots@ == old(self).local_memory_slots@.insert(var_id.0, r),
            final(self).slice_slot_locals@ == old(self).slice_slot_locals@.insert(var_id.0),
    {
        broadcast use vstd::std_specs::hash::group_hash_axioms;

        let offset = self.next_local_memory_offset;
        self.next_local_memory_offset = offset + 2 * EvmMemoryLayout::WORD_SIZE;
        self.local_memory_slots.insert(var_id.0, offset);
        self.slice_slot_locals.insert(var_id.0);
        offset
    }

    /// Whether `var_id` is a reassignable local whose slot holds a slice.
    pub fn is_slice_slot_local(&self, var_id: VariableId) -> (r: bool)
        ensures
            r == self.slice_slot_locals@.contains(var_id.0),
    {
        broadcast use vstd::std_specs::hash::group_hash_axioms;

        self.slice_slot_locals.contains(&var_id.0)
    }

    /// Whether a variable is assigned after its declaration.
    pub fn is_var_assigned(&self, var_id: VariableId) -> (r: bool)
        ensures
            r == self.assigned_vars@.contains(var_id.0),
    {
        broadcast use vstd::std_specs::hash::group_hash_axioms;

        self.assigned_vars.contains(&var_id.0)
    }

    /// Whether the value of a variable is a storage slot.
    pub fn is_storage_ref_local(&self, var_id: VariableId) -> (r: bool)
        ensures
            r == self.storage_ref_locals@.contains(var_id.0),
    {
        broadcast use vstd::std_specs::hash::group_hash_axioms;

        self.storage_ref_locals.contains(&var_id.0)
    }

    /// Gets the memory offset for a local variable, if it is stored in memory.
    pub fn get_local_memory_offset(&self, var_id: VariableId) -> (r: Option<u64>)
        ensures
            r == lookup(self.local_memory_slots@, var_id),
    {
        broadcast use vstd::std_specs::hash::group_hash_axioms;

        match self.local_memory_slots.get(&var_id.0) {
            Some(offset) => Some(*offset),
            None => None,
        }
    }

    /// Gets the value of a local variable that never changes.
    pub fn get_local(&self, var_id: VariableId) -> (r: Option<ValueId>)
        ensures
            r == lookup(self.locals@, var_id),
    {
        broadcast use vstd::std_specs::hash::group_hash_axioms;

        match self.locals.get(&var_id.0) {
            Some(value) => Some(*value),
            None => None,
        }
    }

    /// Gets the storage slot of a state variable.
    pub fn get_storage_slot(&self, var_id: VariableId) -> (r: Option<U256>)
        ensures
            r == lookup(self.storage_slots@, var_id),
    {
        broadcast use vstd::std_specs::hash::group_hash_axioms;

        match self.storage_slots.get(&var_id.0) {
            Some(slot) => Some(*slot),
            None => None,
        }
    }

    /// Gets the storage location of a state variable.
    pub fn get_storage_location(&self, var_id: VariableId) -> (r: Option<StorageLocation>)
        ensures
            r == lookup(self.storage_locations@, var_id),
    {
        broadcast use vstd::std_specs::hash::group_hash_axioms;

        match self.storage_locations.get(&var_id.0) {
            Some(location) => Some(*location),
            None => None,
        }
    }

    /// Gets the base slot of a struct state variable.
    pub fn get_struct_base_slot(&self, var_id: VariableId) -> (r: Option<U256>)
        ensures
            r == lookup(self.struct_storage_base_slots@, var_id),
    {
        broadcast use vstd::std_specs::hash::group_hash_axioms;

        match self.struct_storage_base_slots.get(&var_id.0) {
            Some(slot) => Some(*slot),
            None => None,
        }
    }

    /// Gets the byte offset of an immutable.
    pub fn get_immutable_slot(&self, var_id: VariableId) -> (r: Option<u32>)
        ensures
            r == lookup(self.immutable_slots@, var_id),
    {
        broadcast use vstd::std_specs::hash::group_hash_axioms;

        match self.immutable_slots.get(&var_id.0) {
            Some(offset) => Some(*offset),
            None => None,
        }
    }

    /// Sets the value of a local variable.
    pub fn set_local(&mut self, var_id: VariableId, value: ValueId)
        ensures
            *final(self) == (Lowerer { locals: final(self).locals, ..*old(self) }),
            final(self).locals@ == old(self).locals@.insert(var_id.0, value),
    {
        broadcast use vstd::std_specs::hash::group_hash_axioms;

        self.locals.insert(var_id.0, value);
    }

    /// Marks a variable whose value is a storage slot.
    pub fn mark_storage_ref(&mut self, var_id: VariableId)
        ensures
            *final(self) == (Lowerer {
                storage_ref_locals: final(self).storage_ref_locals,
                ..*old(self)
            }),
            final(self).storage_ref_locals@ == old(self).storage_ref_locals@.insert(var_id.0),
    {
        broadcast use vstd::std_specs::hash::group_hash_axioms;

        self.storage_ref_locals.insert(var_id.0);
    }

    /// Returns the address for a local memory slot in the current lowering
    /// context.
    pub fn local_memory_addr<'a>(
        &self,
        builder: &mut FunctionBuilder<'a>,
        offset: u64,
    ) -> (r: ValueId)
        requires
            old(builder).wf(),
            offset_fits(self.lowering_internal_function, old(builder)@.func, offset),
        ensures
            final(builder).wf(),
            (final(builder)@, r) == variable_addr(
                old(builder)@,
                self.lowering_internal_function,
                offset,
            ),
            has_value(final(builder)@.func, r),
            extends(old(builder)@, final(builder)@),
            final(builder)@.func.params == old(builder)@.func.params,
            final(builder)@.func.return_types == old(builder)@.func.return_types,
            *final(final(builder).func) == *final(old(builder).func),
    {
        broadcast use group_builder_steps;

        proof {
            reveal(variable_addr);
        }
        if self.lowering_internal_function {
            let header_size = EvmMemoryLayout::INTERNAL_FRAME_HEADER_SIZE;
            let arg_size: u64 = builder.func.params.len() as u64 * EvmMemoryLayout::WORD_SIZE;
            let return_size: u64 = builder.func.return_types.len() as u64
                * EvmMemoryLayout::WORD_SIZE;
            let local_offset: u64 = if offset >= EvmMemoryLayout::HEAP_START {
                offset - EvmMemoryLayout::HEAP_START
            } else {
                0
            };
            builder.internal_frame_addr(header_size + arg_size + return_size + local_offset)
        } else {
            builder.imm_u64(offset)
        }
    }

    /// Stores a local variable.
    pub fn store_variable<'a>(&self, builder: &mut FunctionBuilder<'a>, offset: u64, value: ValueId)
        requires
            old(builder).wf(),
            has_value(old(builder)@.func, value),
            offset_fits(self.lowering_internal_function, old(builder)@.func, offset),
        ensures
            final(builder).wf(),
            final(builder)@ == variable_stored(
                old(builder)@,
                self.lowering_internal_function,
                offset,
                value,
            ),
            extends(old(builder)@, final(builder)@),
            final(builder)@.func.params == old(builder)@.func.params,
            final(builder)@.func.return_types == old(builder)@.func.return_types,
            *final(final(builder).func) == *final(old(builder).func),
    {
        broadcast use group_builder_steps;

        proof {
            reveal(variable_stored);
        }
        let addr = self.local_memory_addr(builder, offset);
        builder.mstore(addr, value);
    }

    /// Loads a local variable.
    pub fn load_variable<'a>(&self, builder: &mut FunctionBuilder<'a>, offset: u64) -> (r: ValueId)
        requires
            old(builder).wf(),
            offset_fits(self.lowering_internal_function, old(builder)@.func, offset),
        ensures
            final(builder).wf(),
            (final(builder)@, r) == variable_loaded(
                old(builder)@,
                self.lowering_internal_function,
                offset,
            ),
            has_value(final(builder)@.func, r),
            extends(old(builder)@, final(builder)@),
            final(builder)@.func.params == old(builder)@.func.params,
            final(builder)@.func.return_types == old(builder)@.func.return_types,
            *final(final(builder).func) == *final(old(builder).func),
    {
        broadcast use group_builder_steps;

        proof {
            reveal(variable_loaded);
        }
        let addr = self.local_memory_addr(builder, offset);
        builder.mload(addr)
    }

    /// Stores a slice into its two-word local slot.
    pub fn store_slice_slot<'a>(
        &self,
        builder: &mut FunctionBuilder<'a>,
        offset: u64,
        slice: ValueId,
    )
        requires
            old(builder).wf(),
            has_value(old(builder)@.func, slice),
            slice_offset_fits(self.lowering_internal_function, old(builder)@.func, offset),
        ensures
            final(builder).wf(),
            final(builder)@ == slice_stored(
                old(builder)@,
                self.lowering_internal_function,
                offset,
                slice,
            ),
            extends(old(builder)@, final(builder)@),
            final(builder)@.func.params == old(builder)@.func.params,
            final(builder)@.func.return_types == old(builder)@.func.return_types,
            *final(final(builder).func) == *final(old(builder).func),
    {
        broadcast use group_builder_steps;

        proof {
            reveal(slice_stored);
        }
        let ptr = builder.slice_ptr(slice);
        let len = builder.slice_len(slice);
        self.store_variable(builder, offset, ptr);
        self.store_variable(builder, offset + EvmMemoryLayout::WORD_SIZE, len);
    }

    /// Initializes a two-word local slice slot to the empty slice.
    pub fn init_empty_slice_slot<'a>(&self, builder: &mut FunctionBuilder<'a>, offset: u64)
        requires
            old(builder).wf(),
            slice_offset_fits(self.lowering_internal_function, old(builder)@.func, offset),
        ensures
            final(builder).wf(),
            final(builder)@ == slice_emptied(
                old(builder)@,
                self.lowering_internal_function,
                offset,
            ),
            extends(old(builder)@, final(builder)@),
            final(builder)@.func.params == old(builder)@.func.params,
            final(builder)@.func.return_types == old(builder)@.func.return_types,
            *final(final(builder).func) == *final(old(builder).func),
    {
        broadcast use group_builder_steps;

        proof {
            reveal(slice_emptied);
        }
        let ptr_addr = self.local_memory_addr(builder, offset);
        let ptr = builder.imm_u64(0);
        builder.mstore(ptr_addr, ptr);
        let len_addr = self.local_memory_addr(builder, offset + EvmMemoryLayout::WORD_SIZE);
        let len = builder.imm_u64(0);
        builder.mstore(len_addr, len);
    }

    /// Reloads a slice from its two-word local slot.
    pub fn load_slice_slot<'a>(
        &self,
        builder: &mut FunctionBuilder<'a>,
        offset: u64,
        location: SliceLocation,
    ) -> (r: ValueId)
        requires
            old(builder).wf(),
            slice_offset_fits(self.lowering_internal_function, old(builder)@.func, offset),
        ensures
            final(builder).wf(),
            (final(builder)@, r) == slice_loaded(
                old(builder)@,
                self.lowering_internal_function,
                offset,
                location,
            ),
            has_value(final(builder)@.func, r),
            extends(old(builder)@, final(builder)@),
            final(builder)@.func.params == old(builder)@.func.params,
            final(builder)@.func.return_types == old(builder)@.func.return_types,
            *final(final(builder).func) == *final(old(builder).func),
    {
        broadcast use group_builder_steps;

        proof {
            reveal(slice_loaded);
        }
        let ptr = self.load_variable(builder, offset);
        let len = self.load_variable(builder, offset + EvmMemoryLayout::WORD_SIZE);
        builder.make_slice(ptr, len, location)
    }

    /// Returns the constructor scratch address for an immutable word.
    pub fn immutable_scratch_addr(offset: u32) -> (r: u64)
        ensures
            r == scratch_of(offset),
    {
        EvmMemoryLayout::IMMUTABLE_SCRATCH_BASE + offset as u64
    }

    /// Stages an immutable word in constructor memory.
    pub fn store_immutable_value<'a>(
        &self,
        builder: &mut FunctionBuilder<'a>,
        offset: u32,
        value: ValueId,
    )
        requires
            old(builder).wf(),
            has_value(old(builder)@.func, value),
        ensures
            final(builder).wf(),
            final(builder)@ == immutable_stored(old(builder)@, offset, value),
            extends(old(builder)@, final(builder)@),
            *final(final(builder).func) == *final(old(builder).func),
    {
        broadcast use group_builder_steps;

        proof {
            reveal(immutable_stored);
        }
        let addr = builder.imm_u64(Lowerer::immutable_scratch_addr(offset));
        builder.mstore(addr, value);
    }

    /// Loads an immutable word.
    ///
    /// Runtime code reads a placeholder that the constructor patches with the
    /// staged value. The running constructor's own placeholders are never
    /// patched, so it loads the staged word instead.
    pub fn load_immutable_value<'a>(
        &self,
        builder: &mut FunctionBuilder<'a>,
        offset: u32,
    ) -> (r: ValueId)
        requires
            old(builder).wf(),
        ensures
            final(builder).wf(),
            (final(builder)@, r) == immutable_loaded(
                old(builder)@,
                self.lowering_constructor,
                offset,
            ),
            has_value(final(builder)@.func, r),
            extends(old(builder)@, final(builder)@),
            *final(final(builder).func) == *final(old(builder).func),
    {
        broadcast use group_builder_steps;

        proof {
            reveal(immutable_loaded);
        }
        if self.lowering_constructor {
            let addr = builder.imm_u64(Lowerer::immutable_scratch_addr(offset));
            builder.mload(addr)
        } else {
            builder.load_immutable(offset)
        }
    }

    /// Registers a contract's creation code for use in `new` expressions.
    pub fn register_contract_bytecode(&mut self, contract_id: ContractId, bytecode: Vec<u8>)
        ensures
            *final(self) == (Lowerer {
                contract_bytecodes: final(self).contract_bytecodes,
                ..*old(self)
            }),
            final(self).contract_bytecodes@ == old(self).contract_bytecodes@.insert(
                contract_id.0,
                bytecode,
            ),
    {
        broadcast use vstd::std_specs::hash::group_hash_axioms;

        self.contract_bytecodes.insert(contract_id.0, bytecode);
    }
}

/// What a table holds for a variable.
pub open spec fn lookup<V>(table: Map<usize, V>, var_id: VariableId) -> Option<V> {
    if table.dom().contains(var_id.0) {
        Some(table[var_id.0])
    } else {
        None
    }
}

/// The value that stands for something that could not be lowered.
pub open spec fn error_emitted(b: BuilderView) -> (BuilderView, ValueId) {
    (
        crate::mir::builder::valued(b, crate::mir::types::Value::Error(ErrorGuaranteed)),
        next_value(b.func),
    )
}

} // verus!
