//! Functions: blocks, values and instructions.

use crate::memory::EvmMemoryLayout;
use crate::mir::inst::{
    effect_of, operands_of, successors_of, InstView, Instruction, InstructionMetadata, KindView, Op,
    TermView, Terminator,
};
use crate::mir::list::BlockList;
use crate::mir::types::{
    AbiLayoutRef, AbiTypeView, Arg, BlockId, Immediate, InstId, MemoryRegion, MirType, StorageAlias,
    Value, ValueId,
};
use crate::word::U256;
use vstd::prelude::*;

verus! {

/// Who may call a function.
#[derive(Clone, Copy, Debug, PartialEq, Eq, Structural)]
pub enum Visibility {
    /// Its own contract.
    Private,
    /// Its own and derived contracts.
    Internal,
    /// Everyone.
    Public,
    /// Everyone, from outside.
    External,
}

/// What a function may do to the state.
#[derive(Clone, Copy, Debug, PartialEq, Eq, Structural)]
pub enum StateMutability {
    /// Not even read it.
    Pure,
    /// Read it.
    View,
    /// Change it, but not receive value.
    NonPayable,
    /// Change it and receive value.
    Payable,
}

/// Properties of a function that do not show in its body.
#[derive(Clone, Copy, Debug, PartialEq, Eq, Structural)]
pub struct FunctionAttributes {
    /// Who may call it.
    pub visibility: Visibility,
    /// What it may do to the state.
    pub state_mutability: StateMutability,
    /// Whether it runs at deployment.
    pub is_constructor: bool,
    /// Whether it takes calls that match no selector.
    pub is_fallback: bool,
    /// Whether it takes plain transfers.
    pub is_receive: bool,
    /// Whether it must stay out of line.
    pub no_inline: bool,
}

impl FunctionAttributes {
    /// An internal, non-payable function.
    pub open spec fn spec_internal() -> FunctionAttributes {
        FunctionAttributes {
            visibility: Visibility::Internal,
            state_mutability: StateMutability::NonPayable,
            is_constructor: false,
            is_fallback: false,
            is_receive: false,
            no_inline: false,
        }
    }

    /// An internal, non-payable function.
    #[verifier::when_used_as_spec(spec_internal)]
    pub fn internal() -> (r: FunctionAttributes)
        ensures
            r == FunctionAttributes::spec_internal(),
    {
        FunctionAttributes {
            visibility: Visibility::Internal,
            state_mutability: StateMutability::NonPayable,
            is_constructor: false,
            is_fallback: false,
            is_receive: false,
            no_inline: false,
        }
    }
}

/// A straight line of instructions with one way out.
#[derive(Debug)]
pub struct BasicBlock {
    /// The instructions, in order.
    pub instructions: Vec<InstId>,
    /// The way out, once it is known.
    pub terminator: Option<Terminator>,
    /// The blocks whose terminators mention this one, once per mention.
    pub predecessors: BlockList,
}

/// The mathematical value of a [`BasicBlock`].
#[verifier::ext_equal]
pub struct BlockView {
    /// The instructions, in order.
    pub instructions: Seq<InstId>,
    /// The way out, once it is known.
    pub terminator: Option<TermView>,
    /// The blocks whose terminators mention this one, once per mention.
    pub predecessors: Seq<BlockId>,
}

/// The mathematical value of an optional terminator.
pub open spec fn term_view(term: Option<Terminator>) -> Option<TermView> {
    match term {
        Some(term) => Some(term@),
        None => None,
    }
}

impl View for BasicBlock {
    type V = BlockView;

    open spec fn view(&self) -> BlockView {
        BlockView {
            instructions: self.instructions@,
            terminator: term_view(self.terminator),
            predecessors: self.predecessors@,
        }
    }
}

impl BasicBlock {
    /// A block without instructions, way out or way in.
    pub fn empty() -> (r: BasicBlock)
        ensures
            r@ == empty_block(),
    {
        BasicBlock {
            instructions: Vec::new(),
            terminator: None,
            predecessors: BlockList::new(),
        }
    }
}

/// A block without instructions, way out or way in.
pub open spec fn empty_block() -> BlockView {
    BlockView { instructions: Seq::empty(), terminator: None, predecessors: Seq::empty() }
}

/// A function under construction or complete.
#[derive(Debug)]
pub struct Function {
    /// Its name.
    pub name: String,
    /// Types of the declared parameters.
    pub params: Vec<MirType>,
    /// Types of the returned values.
    pub return_types: Vec<MirType>,
    /// The blocks; the first is the entry.
    pub blocks: Vec<BasicBlock>,
    /// All values that instructions may refer to.
    pub values: Vec<Value>,
    /// All instructions.
    pub insts: Vec<Instruction>,
    /// The selector by which it is called, as a big-endian number.
    pub selector: Option<u32>,
    /// How its results are encoded for an external caller.
    pub abi_returns: Option<AbiLayoutRef>,
    /// Other properties.
    pub attributes: FunctionAttributes,
    /// Bytes of local variables in an internal-call frame.
    pub internal_frame_size: u64,
    /// Bytes of an external return of static size, or zero.
    pub external_static_return_size: u64,
}

/// The mathematical value of a [`Function`].
#[verifier::ext_equal]
pub struct FunctionView {
    /// Its name.
    pub name: Seq<char>,
    /// Types of the declared parameters.
    pub params: Seq<MirType>,
    /// Types of the returned values.
    pub return_types: Seq<MirType>,
    /// The blocks; the first is the entry.
    pub blocks: Seq<BlockView>,
    /// All values that instructions may refer to.
    pub values: Seq<Value>,
    /// All instructions.
    pub insts: Seq<InstView>,
    /// The selector by which it is called, as a big-endian number.
    pub selector: Option<u32>,
    /// How its results are encoded for an external caller.
    pub abi_returns: Option<Seq<AbiTypeView>>,
    /// Other properties.
    pub attributes: FunctionAttributes,
    /// Bytes of local variables in an internal-call frame.
    pub internal_frame_size: u64,
    /// Bytes of an external return of static size, or zero.
    pub external_static_return_size: u64,
}

/// The mathematical value of an optional ABI layout.
pub open spec fn layout_view(layout: Option<AbiLayoutRef>) -> Option<Seq<AbiTypeView>> {
    match layout {
        Some(layout) => Some(layout@),
        None => None,
    }
}

/// The mathematical values of blocks.
pub open spec fn block_views(blocks: Seq<BasicBlock>) -> Seq<BlockView> {
    blocks.map_values(|block: BasicBlock| block@)
}

/// The mathematical values of instructions.
pub open spec fn inst_views(insts: Seq<Instruction>) -> Seq<InstView> {
    insts.map_values(|inst: Instruction| inst@)
}

impl View for Function {
    type V = FunctionView;

    open spec fn view(&self) -> FunctionView {
        FunctionView {
            name: self.name@,
            params: self.params@,
            return_types: self.return_types@,
            blocks: block_views(self.blocks@),
            values: self.values@,
            insts: inst_views(self.insts@),
            selector: self.selector,
            abi_returns: layout_view(self.abi_returns),
            attributes: self.attributes,
            internal_frame_size: self.internal_frame_size,
            external_static_return_size: self.external_static_return_size,
        }
    }
}

/// Whether `value` names a value of the function.
pub open spec fn has_value(func: FunctionView, value: ValueId) -> bool {
    value.0 < func.values.len()
}

/// Whether `block` names a block of the function.
pub open spec fn has_block(func: FunctionView, block: BlockId) -> bool {
    block.0 < func.blocks.len()
}

/// Whether every value of a list belongs to the function.
pub open spec fn has_values(func: FunctionView, values: Seq<ValueId>) -> bool {
    forall|i: int| 0 <= i < values.len() ==> has_value(func, #[trigger] values[i])
}

/// Whether every block of a list belongs to the function.
pub open spec fn has_blocks(func: FunctionView, blocks: Seq<BlockId>) -> bool {
    forall|i: int| 0 <= i < blocks.len() ==> has_block(func, #[trigger] blocks[i])
}

/// Whether the operands and edges of an instruction belong to the function.
pub open spec fn kind_fits(func: FunctionView, kind: KindView) -> bool {
    has_values(func, operands_of(kind)) && edges_fit(func, kind)
}

/// The operands of a terminator.
pub open spec fn term_operands(term: TermView) -> Seq<ValueId> {
    match term {
        TermView::Jump(_) | TermView::Stop | TermView::Invalid => Seq::empty(),
        TermView::Branch { condition, .. } => seq![condition],
        TermView::Switch { value, default, cases } => seq![value] + cases.map_values(
            |case: (ValueId, BlockId)| case.0,
        ),
        TermView::Return(values) => values,
        TermView::TailCall { function, args } => args,
        TermView::Revert { offset, size } => seq![offset, size],
        TermView::ReturnData { offset, size } => seq![offset, size],
        TermView::SelfDestruct { recipient } => seq![recipient],
    }
}

/// Whether the operands and targets of a terminator belong to the function.
pub open spec fn term_fits(func: FunctionView, term: TermView) -> bool {
    has_values(func, term_operands(term)) && has_blocks(func, successors_of(term))
}

/// Whether everything a block refers to belongs to the function.
pub open spec fn block_fits(func: FunctionView, block: BlockView) -> bool {
    &&& forall|i: int|
        0 <= i < block.instructions.len() ==> (#[trigger] block.instructions[i]).0
            < func.insts.len()
    &&& has_blocks(func, block.predecessors)
    &&& block.terminator matches Some(term) ==> term_fits(func, term)
}

/// Whether a value refers to an instruction of the function, if to any.
pub open spec fn value_fits(func: FunctionView, value: Value) -> bool {
    value matches Value::Inst(id) ==> id.0 < func.insts.len()
}

/// Whether the edges of a phi come from blocks of the function.
pub open spec fn edges_fit(func: FunctionView, kind: KindView) -> bool {
    kind matches KindView::Phi(incoming) ==> forall|i: int|
        0 <= i < incoming.len() ==> has_block(func, (#[trigger] incoming[i]).0)
}

/// Whether the edges of every phi that is in a block come from blocks of the
/// function.
pub open spec fn placed_edges_fit(func: FunctionView) -> bool {
    forall|b: int, i: int|
        #![trigger func.blocks[b].instructions[i]]
        0 <= b < func.blocks.len() && 0 <= i < func.blocks[b].instructions.len() ==> edges_fit(
            func,
            func.insts[func.blocks[b].instructions[i].0 as int].kind,
        )
}

/// Whether no instruction is in two places.
pub open spec fn placed_once(blocks: Seq<BlockView>) -> bool {
    forall|b: int, i: int, c: int, j: int|
        #![trigger blocks[b].instructions[i], blocks[c].instructions[j]]
        0 <= b < blocks.len() && 0 <= i < blocks[b].instructions.len() && 0 <= c < blocks.len() && 0
            <= j < blocks[c].instructions.len() && blocks[b].instructions[i]
            == blocks[c].instructions[j] ==> b == c && i == j
}

/// Whether an instruction is in no block.
pub open spec fn unplaced(blocks: Seq<BlockView>, inst: InstId) -> bool {
    forall|b: int, i: int|
        #![trigger blocks[b].instructions[i]]
        0 <= b < blocks.len() && 0 <= i < blocks[b].instructions.len()
            ==> blocks[b].instructions[i] != inst
}

/// Whether the function has an entry block, every reference in it is to
/// something it has, and no instruction is in two places.
#[verifier::opaque]
pub open spec fn function_wf(func: FunctionView) -> bool {
    &&& func.blocks.len() > 0
    &&& forall|i: int|
        0 <= i < func.values.len() ==> value_fits(func, #[trigger] func.values[i])
    &&& forall|i: int|
        0 <= i < func.insts.len() ==> has_values(
            func,
            operands_of((#[trigger] func.insts[i]).kind),
        )
    &&& forall|i: int|
        0 <= i < func.blocks.len() ==> block_fits(func, #[trigger] func.blocks[i])
    &&& placed_edges_fit(func)
    &&& placed_once(func.blocks)
}

/// Whether every value, instruction and block can be named.
pub open spec fn sizes_fit(func: FunctionView) -> bool {
    &&& func.values.len() <= usize::MAX
    &&& func.insts.len() <= usize::MAX
    &&& func.blocks.len() <= usize::MAX
}

/// The function of the given name with an empty entry block and nothing else.
pub open spec fn empty_function(name: Seq<char>) -> FunctionView {
    FunctionView {
        name,
        params: Seq::empty(),
        return_types: Seq::empty(),
        blocks: seq![empty_block()],
        values: Seq::empty(),
        insts: Seq::empty(),
        selector: None,
        abi_returns: None,
        attributes: FunctionAttributes::spec_internal(),
        internal_frame_size: 0,
        external_static_return_size: 0,
    }
}

/// The function with one more value.
pub open spec fn with_value(func: FunctionView, value: Value) -> FunctionView {
    FunctionView { values: func.values.push(value), ..func }
}

/// The function with one more empty block.
pub open spec fn with_block(func: FunctionView) -> FunctionView {
    FunctionView { blocks: func.blocks.push(empty_block()), ..func }
}

/// The function with one more parameter and the value that stands for it.
pub open spec fn with_param(func: FunctionView, ty: MirType) -> FunctionView {
    FunctionView {
        params: func.params.push(ty),
        values: func.values.push(
            Value::Arg(Arg { index: func.params.len() as usize, ty }),
        ),
        ..func
    }
}

/// The function with one more instruction, in no block yet.
pub open spec fn with_inst(func: FunctionView, inst: InstView) -> FunctionView {
    FunctionView { insts: func.insts.push(inst), ..func }
}

/// The identifier of the next instruction.
pub open spec fn next_inst(func: FunctionView) -> InstId {
    InstId(func.insts.len() as usize)
}

/// The identifier of the next value.
pub open spec fn next_value(func: FunctionView) -> ValueId {
    ValueId(func.values.len() as usize)
}

/// The identifier of the next block.
pub open spec fn next_block(func: FunctionView) -> BlockId {
    BlockId(func.blocks.len() as usize)
}

/// The function with one more instruction and, where it has a result, one more
/// value that stands for it.
pub open spec fn with_value_inst(func: FunctionView, inst: InstView) -> FunctionView {
    if inst.result_ty is Some {
        with_inst(with_value(func, Value::Inst(next_inst(func))), inst)
    } else {
        with_inst(func, inst)
    }
}

/// The function with the last instruction placed at the end of `block`.
pub open spec fn place(func: FunctionView, block: BlockId, inst: InstId) -> FunctionView {
    let old = func.blocks[block.0 as int];
    FunctionView {
        blocks: func.blocks.update(
            block.0 as int,
            BlockView { instructions: old.instructions.push(inst), ..old },
        ),
        ..func
    }
}

/// Whether a value is the address of the current internal-call frame.
pub open spec fn is_frame_addr(func: FunctionView, value: ValueId) -> bool {
    func.values[value.0 as int] matches Value::Inst(id)
        && func.insts[id.0 as int].kind matches KindView::Inst { op, args }
        && op is InternalFrameAddr
}

/// Whether a value is a constant.
pub open spec fn is_constant(func: FunctionView, value: ValueId) -> bool {
    func.values[value.0 as int] is Immediate
}

/// What an access at the given address may touch: scratch space for a small
/// constant, the internal-call frame for a frame address or one at a constant
/// distance from it, and otherwise anything.
pub open spec fn region_of_addr(func: FunctionView, addr: ValueId) -> MemoryRegion {
    match func.values[addr.0 as int] {
        Value::Immediate(imm) => if imm.spec_as_u256()@ < EvmMemoryLayout::HEAP_START {
            MemoryRegion::Scratch
        } else {
            MemoryRegion::Unknown
        },
        Value::Inst(id) => match func.insts[id.0 as int].kind {
            KindView::Inst { op, args } => if op is InternalFrameAddr {
                MemoryRegion::InternalFrame
            } else if op is Add && (is_frame_addr(func, args[0]) && is_constant(func, args[1])
                || is_frame_addr(func, args[1]) && is_constant(func, args[0])) {
                MemoryRegion::InternalFrame
            } else if op is Sub && is_frame_addr(func, args[0]) && is_constant(func, args[1]) {
                MemoryRegion::InternalFrame
            } else {
                MemoryRegion::Unknown
            },
            KindView::Phi(_) => MemoryRegion::Unknown,
        },
        _ => MemoryRegion::Unknown,
    }
}

/// The address that an instruction accesses memory at, if its region is worth
/// tracking.
pub open spec fn accessed_addr(kind: KindView) -> Option<ValueId> {
    match kind {
        KindView::Inst { op, args } => match op {
            Op::MLoad
            | Op::MStore
            | Op::MStore8
            | Op::Keccak256
            | Op::MCopy
            | Op::CalldataCopy
            | Op::CodeCopy
            | Op::ReturnDataCopy => Some(args[0]),
            Op::ExtCodeCopy => Some(args[1]),
            _ => None,
        },
        KindView::Phi(_) => None,
    }
}

/// What an instruction's memory access may touch.
pub open spec fn region_of_inst(func: FunctionView, kind: KindView) -> Option<MemoryRegion> {
    match accessed_addr(kind) {
        Some(addr) => Some(region_of_addr(func, addr)),
        None => None,
    }
}

/// The constant that a value is, if it is one.
pub open spec fn constant_of(func: FunctionView, value: ValueId) -> Option<U256> {
    match func.values[value.0 as int] {
        Value::Immediate(imm) => Some(imm.spec_as_u256()),
        _ => None,
    }
}

/// What an access of the given slot may touch: the slot itself where it is a
/// constant, a distance from a value where it is a sum with one constant, and
/// otherwise the slot that the value holds.
pub open spec fn alias_of_slot(func: FunctionView, slot: ValueId) -> StorageAlias {
    match func.values[slot.0 as int] {
        Value::Immediate(imm) => StorageAlias::Slot(imm.spec_as_u256()),
        Value::Inst(id) => match func.insts[id.0 as int].kind {
            KindView::Inst { op, args } => if op is Add {
                match (constant_of(func, args[0]), constant_of(func, args[1])) {
                    (None, Some(offset)) => StorageAlias::Offset { base: args[0], offset },
                    (Some(offset), None) => StorageAlias::Offset { base: args[1], offset },
                    _ => StorageAlias::Symbolic(slot),
                }
            } else {
                StorageAlias::Symbolic(slot)
            },
            KindView::Phi(_) => StorageAlias::Symbolic(slot),
        },
        _ => StorageAlias::Symbolic(slot),
    }
}

/// What an instruction's storage access may touch.
pub open spec fn alias_of_inst(func: FunctionView, kind: KindView) -> Option<StorageAlias> {
    match kind {
        KindView::Inst { op, args } => if op is SLoad || op is SStore {
            Some(alias_of_slot(func, args[0]))
        } else {
            None
        },
        KindView::Phi(_) => None,
    }
}

/// What is known about a freshly built instruction.
pub open spec fn metadata_of(func: FunctionView, kind: KindView) -> InstructionMetadata {
    InstructionMetadata {
        effect: Some(effect_of(kind)),
        memory_region: region_of_inst(func, kind),
        storage_alias: alias_of_inst(func, kind),
        ..InstructionMetadata::spec_empty()
    }
}

impl Function {
    /// Every value, instruction and block of a function in memory can be named.
    pub proof fn lemma_sizes(&self)
        ensures
            sizes_fit(self@),
    {
        assert(self.values.len() == self.values@.len());
        assert(self.insts.len() == self.insts@.len());
        assert(self.blocks.len() == self.blocks@.len());
    }

    /// The function of the given name with an empty entry block.
    pub fn new(name: String) -> (r: Function)
        ensures
            r@ == empty_function(name@),
            function_wf(r@),
            sizes_fit(r@),
    {
        let mut blocks: Vec<BasicBlock> = Vec::new();
        blocks.push(BasicBlock::empty());
        let func = Function {
            name,
            params: Vec::new(),
            return_types: Vec::new(),
            blocks,
            values: Vec::new(),
            insts: Vec::new(),
            selector: None,
            abi_returns: None,
            attributes: FunctionAttributes::internal(),
            internal_frame_size: 0,
            external_static_return_size: 0,
        };
        assert(func@ =~= empty_function(name@));
        proof {
            func.lemma_sizes();
        }
        proof {
            reveal(function_wf);
        }
        func
    }

    /// Adds an empty block.
    pub fn alloc_block(&mut self) -> (r: BlockId)
        ensures
            final(self)@ == with_block(old(self)@),
            r == next_block(old(self)@),
            function_wf(old(self)@) ==> function_wf(final(self)@),
            sizes_fit(final(self)@),
    {
        let id = BlockId(self.blocks.len());
        self.blocks.push(BasicBlock::empty());
        proof {
            self.lemma_sizes();
            assert(self@ =~= with_block(old(self)@));
            if function_wf(old(self)@) {
                lemma_with_block_wf(old(self)@);
            }
        }
        id
    }

    /// Adds a value.
    pub fn alloc_value(&mut self, value: Value) -> (r: ValueId)
        requires
            value_fits(old(self)@, value),
        ensures
            final(self)@ == with_value(old(self)@, value),
            r == next_value(old(self)@),
            function_wf(old(self)@) ==> function_wf(final(self)@),
            sizes_fit(final(self)@),
    {
        let id = ValueId(self.values.len());
        self.values.push(value);
        proof {
            self.lemma_sizes();
            assert(self@ =~= with_value(old(self)@, value));
            if function_wf(old(self)@) {
                lemma_with_value_wf(old(self)@, value);
            }
        }
        id
    }

    /// Adds a parameter and the value that stands for it.
    pub fn alloc_param(&mut self, ty: MirType) -> (r: ValueId)
        ensures
            final(self)@ == with_param(old(self)@, ty),
            r == next_value(old(self)@),
            function_wf(old(self)@) ==> function_wf(final(self)@),
            sizes_fit(final(self)@),
    {
        let index: usize = self.params.len();
        self.params.push(ty);
        let value = Value::Arg(Arg { index, ty });
        let id = ValueId(self.values.len());
        self.values.push(value);
        proof {
            self.lemma_sizes();
            assert(self@ =~= with_param(old(self)@, ty));
            if function_wf(old(self)@) {
                lemma_with_value_wf(old(self)@, value);
                lemma_wf_frame(with_value(old(self)@, value), self@);
            }
        }
        id
    }

    /// Adds a value that stands for an argument without declaring a parameter.
    pub fn alloc_implicit_arg(&mut self, index: usize, ty: MirType) -> (r: ValueId)
        ensures
            final(self)@ == with_value(old(self)@, Value::Arg(Arg { index, ty })),
            r == next_value(old(self)@),
            function_wf(old(self)@) ==> function_wf(final(self)@),
            sizes_fit(final(self)@),
    {
        self.alloc_value(Value::Arg(Arg { index, ty }))
    }

    /// Adds an instruction, in no block yet.
    pub fn alloc_inst(&mut self, inst: Instruction) -> (r: InstId)
        requires
            function_wf(old(self)@),
            has_values(old(self)@, operands_of(inst.kind@)),
        ensures
            final(self)@ == with_inst(old(self)@, inst@),
            r == next_inst(old(self)@),
            unplaced(final(self)@.blocks, r),
            function_wf(final(self)@),
            sizes_fit(final(self)@),
    {
        let id = InstId(self.insts.len());
        self.insts.push(inst);
        proof {
            self.lemma_sizes();
            assert(self@ =~= with_inst(old(self)@, inst@));
            lemma_with_inst_wf(old(self)@, inst@);
            lemma_fresh_unplaced(old(self)@, id);
        }
        id
    }

    /// Adds an instruction and a value that stands for its result.
    pub fn alloc_value_inst(&mut self, inst: Instruction) -> (r: (InstId, ValueId))
        requires
            function_wf(old(self)@),
            has_values(old(self)@, operands_of(inst.kind@)),
        ensures
            final(self)@ == with_inst(
                with_value(old(self)@, Value::Inst(next_inst(old(self)@))),
                inst@,
            ),
            r == (next_inst(old(self)@), next_value(old(self)@)),
            unplaced(final(self)@.blocks, r.0),
            function_wf(final(self)@),
            sizes_fit(final(self)@),
    {
        let inst_id = self.alloc_inst(inst);
        let value = self.alloc_value(Value::Inst(inst_id));
        assert(self@ =~= with_inst(
            with_value(old(self)@, Value::Inst(next_inst(old(self)@))),
            inst@,
        ));
        (inst_id, value)
    }

    /// Adds an instruction whose result is an existing value.
    pub fn alloc_inst_with_result(&mut self, inst: Instruction, result: ValueId) -> (r: InstId)
        requires
            function_wf(old(self)@),
            has_values(old(self)@, operands_of(inst.kind@)),
            has_value(old(self)@, result),
        ensures
            final(self)@ == (FunctionView {
                values: old(self)@.values.update(
                    result.0 as int,
                    Value::Inst(next_inst(old(self)@)),
                ),
                ..with_inst(old(self)@, inst@)
            }),
            r == next_inst(old(self)@),
            unplaced(final(self)@.blocks, r),
            function_wf(final(self)@),
            sizes_fit(final(self)@),
    {
        let id = self.alloc_inst(inst);
        self.values[result.0] = Value::Inst(id);
        proof {
            self.lemma_sizes();
            reveal(function_wf);
            assert(self@.insts =~= with_inst(old(self)@, inst@).insts);
            assert(self@ =~= (FunctionView {
                values: old(self)@.values.update(
                    result.0 as int,
                    Value::Inst(next_inst(old(self)@)),
                ),
                ..with_inst(old(self)@, inst@)
            }));
            let mid = with_inst(old(self)@, inst@);
            lemma_blocks_fit_frame(mid, self@);
            lemma_placed_edges_frame(mid, self@);
        }
        id
    }

    /// The value of the given name.
    pub fn value(&self, id: ValueId) -> (r: Value)
        requires
            has_value(self@, id),
        ensures
            r == self@.values[id.0 as int],
    {
        self.values[id.0]
    }

    /// The instruction of the given name.
    pub fn inst(&self, id: InstId) -> (r: &Instruction)
        requires
            id.0 < self@.insts.len(),
        ensures
            r@ == self@.insts[id.0 as int],
            r == self.insts@[id.0 as int],
    {
        &self.insts[id.0]
    }

    /// The block of the given name.
    pub fn block(&self, id: BlockId) -> (r: &BasicBlock)
        requires
            has_block(self@, id),
        ensures
            r@ == self@.blocks[id.0 as int],
    {
        &self.blocks[id.0]
    }

    /// Whether the function can be called from outside the contract.
    pub fn is_public(&self) -> (r: bool)
        ensures
            r == is_public_function(self@),
    {
        match self.attributes.visibility {
            Visibility::Public | Visibility::External => true,
            _ => false,
        }
    }

    /// Places an instruction at the end of a block.
    pub fn place(&mut self, block: BlockId, inst: InstId)
        requires
            function_wf(old(self)@),
            has_block(old(self)@, block),
            inst.0 < old(self)@.insts.len(),
            edges_fit(old(self)@, old(self)@.insts[inst.0 as int].kind),
            unplaced(old(self)@.blocks, inst),
        ensures
            final(self)@ == place(old(self)@, block, inst),
            function_wf(final(self)@),
            sizes_fit(final(self)@),
    {
        self.blocks[block.0].instructions.push(inst);
        proof {
            self.lemma_sizes();
            let after = place(old(self)@, block, inst);
            assert(self@.blocks =~= after.blocks);
            assert(self@ =~= after);
            lemma_place_wf(old(self)@, block, inst);
        }
    }
}

/// Whether a function can be called from outside the contract.
pub open spec fn is_public_function(func: FunctionView) -> bool {
    func.attributes.visibility is Public || func.attributes.visibility is External
}

/// Blocks that fit a function fit any function with at least as many values,
/// instructions and blocks.
pub proof fn lemma_blocks_fit_frame(before: FunctionView, after: FunctionView)
    requires
        before.values.len() <= after.values.len(),
        before.insts.len() <= after.insts.len(),
        before.blocks.len() <= after.blocks.len(),
    ensures
        forall|block: BlockView| #[trigger] block_fits(before, block) ==> block_fits(after, block),
        forall|kind: KindView| #[trigger] edges_fit(before, kind) ==> edges_fit(after, kind),
        forall|values: Seq<ValueId>| #[trigger]
            has_values(before, values) ==> has_values(after, values),
        forall|value: Value| #[trigger] value_fits(before, value) ==> value_fits(after, value),
        forall|term: TermView| #[trigger] term_fits(before, term) ==> term_fits(after, term),
{
}

/// Phi edges still fit when instructions and blocks are only added.
pub proof fn lemma_placed_edges_frame(before: FunctionView, after: FunctionView)
    requires
        placed_edges_fit(before),
        before.blocks.len() <= after.blocks.len(),
        before.insts.len() <= after.insts.len(),
        forall|j: int|
            0 <= j < before.insts.len() ==> (#[trigger] after.insts[j]).kind
                == before.insts[j].kind,
        forall|b: int|
            0 <= b < before.blocks.len() ==> block_fits(before, #[trigger] before.blocks[b]),
        forall|b: int|
            0 <= b < after.blocks.len() ==> (#[trigger] after.blocks[b]).instructions == (if b
                < before.blocks.len() {
                before.blocks[b].instructions
            } else {
                Seq::empty()
            }),
    ensures
        placed_edges_fit(after),
{
    assert forall|b: int, i: int|
        #![trigger after.blocks[b].instructions[i]]
        0 <= b < after.blocks.len() && 0 <= i < after.blocks[b].instructions.len() implies edges_fit(
        after,
        after.insts[after.blocks[b].instructions[i].0 as int].kind,
    ) by {
        let id = before.blocks[b].instructions[i];
        assert(block_fits(before, before.blocks[b]));
        assert(edges_fit(before, before.insts[id.0 as int].kind));
        assert(after.insts[id.0 as int].kind == before.insts[id.0 as int].kind);
    }
}

/// Well-formedness depends on values, instructions and blocks alone.
pub proof fn lemma_wf_frame(before: FunctionView, after: FunctionView)
    requires
        function_wf(before),
        before.values == after.values,
        before.insts == after.insts,
        before.blocks == after.blocks,
    ensures
        function_wf(after),
{
    reveal(function_wf);
    lemma_blocks_fit_frame(before, after);
    lemma_placed_edges_frame(before, after);
}

/// One more value keeps a function well-formed.
pub proof fn lemma_with_value_wf(func: FunctionView, value: Value)
    requires
        function_wf(func),
        value_fits(func, value),
    ensures
        function_wf(with_value(func, value)),
{
    reveal(function_wf);
    lemma_blocks_fit_frame(func, with_value(func, value));
    lemma_placed_edges_frame(func, with_value(func, value));
}

/// One more empty block keeps a function well-formed.
pub proof fn lemma_with_block_wf(func: FunctionView)
    requires
        function_wf(func),
    ensures
        function_wf(with_block(func)),
{
    reveal(function_wf);
    lemma_blocks_fit_frame(func, with_block(func));
    lemma_placed_edges_frame(func, with_block(func));
}

/// One more instruction keeps a function well-formed.
pub proof fn lemma_with_inst_wf(func: FunctionView, inst: InstView)
    requires
        function_wf(func),
        has_values(func, operands_of(inst.kind)),
    ensures
        function_wf(with_inst(func, inst)),
{
    reveal(function_wf);
    lemma_blocks_fit_frame(func, with_inst(func, inst));
    lemma_placed_edges_frame(func, with_inst(func, inst));
}

/// Whether instructions are placed once depends on the instruction lists alone.
pub proof fn lemma_same_places(before: Seq<BlockView>, after: Seq<BlockView>)
    requires
        placed_once(before),
        before.len() == after.len(),
        forall|b: int|
            0 <= b < before.len() ==> (#[trigger] after[b]).instructions == before[b].instructions,
    ensures
        placed_once(after),
{
    assert forall|b: int, i: int, c: int, j: int|
        #![trigger after[b].instructions[i], after[c].instructions[j]]
        0 <= b < after.len() && 0 <= i < after[b].instructions.len() && 0 <= c < after.len() && 0
            <= j < after[c].instructions.len() && after[b].instructions[i]
            == after[c].instructions[j] implies b == c && i == j by {
        assert(after[b].instructions[i] == before[b].instructions[i]);
        assert(after[c].instructions[j] == before[c].instructions[j]);
    }
}

/// The next instruction is in no block.
pub proof fn lemma_fresh_unplaced(func: FunctionView, inst: InstId)
    requires
        function_wf(func),
        inst.0 >= func.insts.len(),
    ensures
        unplaced(func.blocks, inst),
{
    reveal(function_wf);
    assert forall|b: int, i: int|
        #![trigger func.blocks[b].instructions[i]]
        0 <= b < func.blocks.len() && 0 <= i < func.blocks[b].instructions.len() implies 
        func.blocks[b].instructions[i] != inst by {
        assert(block_fits(func, func.blocks[b]));
    }
}

/// Placing an instruction keeps a function well-formed.
pub proof fn lemma_place_wf(func: FunctionView, block: BlockId, inst: InstId)
    requires
        function_wf(func),
        has_block(func, block),
        inst.0 < func.insts.len(),
        edges_fit(func, func.insts[inst.0 as int].kind),
        unplaced(func.blocks, inst),
    ensures
        function_wf(place(func, block, inst)),
{
    reveal(function_wf);
    let after = place(func, block, inst);
    lemma_blocks_fit_frame(func, after);
    assert forall|i: int| 0 <= i < after.blocks.len() implies block_fits(
        after,
        #[trigger] after.blocks[i],
    ) by {
        assert(block_fits(func, func.blocks[i]));
    }
    assert(placed_edges_fit(after)) by {
        assert forall|b: int, i: int|
            #![trigger after.blocks[b].instructions[i]]
            0 <= b < after.blocks.len() && 0 <= i
                < after.blocks[b].instructions.len() implies edges_fit(
            after,
            after.insts[after.blocks[b].instructions[i].0 as int].kind,
        ) by {
            if i < func.blocks[b].instructions.len() {
                assert(after.blocks[b].instructions[i] == func.blocks[b].instructions[i]);
            }
        }
    }
    assert(placed_once(after.blocks)) by {
        let target = block.0 as int;
        let count = func.blocks[target].instructions.len();
        assert forall|b: int, i: int, c: int, j: int|
            #![trigger after.blocks[b].instructions[i], after.blocks[c].instructions[j]]
            0 <= b < after.blocks.len() && 0 <= i < after.blocks[b].instructions.len() && 0 <= c
                < after.blocks.len() && 0 <= j < after.blocks[c].instructions.len()
                && after.blocks[b].instructions[i] == after.blocks[c].instructions[j] implies b == c
            && i == j by {
            if !(b == target && i == count) {
                assert(after.blocks[b].instructions[i] == func.blocks[b].instructions[i]);
            }
            if !(c == target && j == count) {
                assert(after.blocks[c].instructions[j] == func.blocks[c].instructions[j]);
            }
        }
    }
}

} // verus!
