//! MIR function builder.

use crate::memory::EvmMemoryLayout;
use crate::mir::function::{
    accessed_addr, alias_of_inst, alias_of_slot, block_fits, constant_of, edges_fit, function_wf,
    has_block, has_blocks, has_value, has_values, is_constant, is_frame_addr, kind_fits,
    lemma_blocks_fit_frame, lemma_placed_edges_frame, lemma_same_places, lemma_wf_frame,
    metadata_of, next_block, next_inst, next_value, place, region_of_addr, region_of_inst,
    sizes_fit, term_fits, value_fits, with_block, with_inst, with_param, with_value,
    with_value_inst, BlockView, Function, FunctionView,
};
use crate::mir::inst::{
    encode_operands, inst, operands_of, successors_of, InstKind, InstView, Instruction,
    InstructionMetadata, KindView, Op, TermView, Terminator,
};
use crate::mir::list::value_list;
use crate::mir::types::{
    AbiLayoutRef, AllocationKind, AllocationSemantics, BlockId, ErrorGuaranteed, FunctionId,
    Immediate, InstId, MemoryObjectKind, MemoryObjectLayout, MemoryRegion, MirType, SliceLocation,
    StorageAlias, StorageLayoutRef, Value, ValueId,
};
use crate::word::U256;
use vstd::prelude::*;

verus! {

/// A builder for constructing MIR functions.
pub struct FunctionBuilder<'a> {
    /// The function being built.
    pub func: &'a mut Function,
    /// The current block.
    pub current_block: BlockId,
}

/// The mathematical value of a [`FunctionBuilder`].
#[verifier::ext_equal]
pub struct BuilderView {
    /// The function being built.
    pub func: FunctionView,
    /// The current block.
    pub block: BlockId,
}

impl<'a> View for FunctionBuilder<'a> {
    type V = BuilderView;

    open spec fn view(&self) -> BuilderView {
        BuilderView { func: self.func@, block: self.current_block }
    }
}

/// Whether the function is well-formed and has the current block.
pub open spec fn builder_wf(builder: BuilderView) -> bool {
    function_wf(builder.func) && sizes_fit(builder.func) && has_block(builder.func, builder.block)
}

/// The function with `inst` appended to `block` and, where it has a result, a
/// value that stands for it.
pub open spec fn appended(func: FunctionView, block: BlockId, inst: InstView) -> FunctionView {
    place(with_value_inst(func, inst), block, next_inst(func))
}

/// The builder after emitting an instruction into the current block.
#[verifier::opaque]
pub open spec fn emitted(builder: BuilderView, kind: KindView, ty: Option<MirType>) -> BuilderView {
    BuilderView {
        func: appended(
            builder.func,
            builder.block,
            InstView { kind, result_ty: ty, metadata: metadata_of(builder.func, kind) },
        ),
        block: builder.block,
    }
}

/// The builder after adding a value.
#[verifier::opaque]
pub open spec fn valued(builder: BuilderView, value: Value) -> BuilderView {
    BuilderView { func: with_value(builder.func, value), block: builder.block }
}

/// The builder after adding a 256-bit constant.
pub open spec fn constant(builder: BuilderView, value: U256) -> BuilderView {
    valued(builder, Value::Immediate(Immediate::UInt256(value)))
}

/// The word that holds a 64-bit number.
pub open spec fn word(value: u64) -> U256 {
    U256 { l0: value, l1: 0, l2: 0, l3: 0 }
}

/// The builder after creating a block.
#[verifier::opaque]
pub open spec fn blocked(builder: BuilderView) -> BuilderView {
    BuilderView { func: with_block(builder.func), block: builder.block }
}

/// The builder after moving to another block.
#[verifier::opaque]
pub open spec fn moved(builder: BuilderView, block: BlockId) -> BuilderView {
    BuilderView { func: builder.func, block }
}

/// How often `block` occurs in a list.
pub open spec fn occurrences(list: Seq<BlockId>, block: BlockId) -> nat
    decreases list.len(),
{
    if list.len() == 0 {
        0
    } else {
        occurrences(list.drop_last(), block) + if list.last() == block {
            1nat
        } else {
            0nat
        }
    }
}

/// A list of so many copies of `block`.
pub open spec fn repeated(block: BlockId, count: nat) -> Seq<BlockId> {
    Seq::new(count, |i: int| block)
}

/// The blocks, with `from` recorded as a predecessor once for every mention of
/// a block among `targets`.
pub open spec fn with_edges(
    blocks: Seq<BlockView>,
    from: BlockId,
    targets: Seq<BlockId>,
) -> Seq<BlockView> {
    Seq::new(
        blocks.len(),
        |i: int|
            BlockView {
                predecessors: blocks[i].predecessors + repeated(
                    from,
                    occurrences(targets, BlockId(i as usize)),
                ),
                ..blocks[i]
            },
    )
}

/// The builder after ending the current block: the current block becomes a
/// predecessor of every target, once per mention.
#[verifier::opaque]
pub open spec fn ended(builder: BuilderView, term: TermView) -> BuilderView {
    let blocks = with_edges(builder.func.blocks, builder.block, successors_of(term));
    let current = builder.block.0 as int;
    BuilderView {
        func: FunctionView {
            blocks: blocks.update(
                current,
                BlockView { terminator: Some(term), ..blocks[current] },
            ),
            ..builder.func
        },
        block: builder.block,
    }
}

/// The function with one more incoming edge on the phi at `inst`.
pub open spec fn with_phi_edge(
    func: FunctionView,
    inst: InstId,
    block: BlockId,
    value: ValueId,
) -> FunctionView {
    let old = func.insts[inst.0 as int];
    FunctionView {
        insts: func.insts.update(
            inst.0 as int,
            InstView {
                kind: KindView::Phi(old.kind->Phi_0.push((block, value))),
                ..old
            },
        ),
        ..func
    }
}

/// What emitting an instruction leaves alone.
pub broadcast proof fn lemma_emitted(builder: BuilderView, kind: KindView, ty: Option<MirType>)
    ensures
        (#[trigger] emitted(builder, kind, ty)).block == builder.block,
        emitted(builder, kind, ty).func.values.len() == builder.func.values.len() + if ty is Some {
            1int
        } else {
            0int
        },
        emitted(builder, kind, ty).func.insts.len() == builder.func.insts.len() + 1,
        has_block(builder.func, builder.block) ==> emitted(builder, kind, ty).func.blocks.len()
            == builder.func.blocks.len(),
        emitted(builder, kind, ty).func.params == builder.func.params,
        emitted(builder, kind, ty).func.return_types == builder.func.return_types,
        emitted(builder, kind, ty).func.attributes == builder.func.attributes,
{
    reveal(emitted);
}

/// What adding a value leaves alone.
pub broadcast proof fn lemma_valued(builder: BuilderView, value: Value)
    ensures
        (#[trigger] valued(builder, value)).block == builder.block,
        valued(builder, value).func.values.len() == builder.func.values.len() + 1,
        valued(builder, value).func.insts.len() == builder.func.insts.len(),
        valued(builder, value).func.blocks.len() == builder.func.blocks.len(),
        valued(builder, value).func.params == builder.func.params,
        valued(builder, value).func.return_types == builder.func.return_types,
        valued(builder, value).func.attributes == builder.func.attributes,
{
    reveal(valued);
}

/// What creating a block leaves alone.
pub broadcast proof fn lemma_blocked(builder: BuilderView)
    ensures
        (#[trigger] blocked(builder)).block == builder.block,
        blocked(builder).func.values.len() == builder.func.values.len(),
        blocked(builder).func.insts.len() == builder.func.insts.len(),
        blocked(builder).func.blocks.len() == builder.func.blocks.len() + 1,
        blocked(builder).func.params == builder.func.params,
        blocked(builder).func.return_types == builder.func.return_types,
        blocked(builder).func.attributes == builder.func.attributes,
{
    reveal(blocked);
}

/// What moving to another block leaves alone.
pub broadcast proof fn lemma_moved(builder: BuilderView, block: BlockId)
    ensures
        (#[trigger] moved(builder, block)).block == block,
        moved(builder, block).func == builder.func,
{
    reveal(moved);
}

/// What ending a block leaves alone.
pub broadcast proof fn lemma_ended(builder: BuilderView, term: TermView)
    ensures
        (#[trigger] ended(builder, term)).block == builder.block,
        ended(builder, term).func.values.len() == builder.func.values.len(),
        ended(builder, term).func.insts.len() == builder.func.insts.len(),
        has_block(builder.func, builder.block) ==> ended(builder, term).func.blocks.len()
            == builder.func.blocks.len(),
        ended(builder, term).func.params == builder.func.params,
        ended(builder, term).func.return_types == builder.func.return_types,
        ended(builder, term).func.attributes == builder.func.attributes,
{
    reveal(ended);
}

/// What the builder's steps leave alone.
pub broadcast group group_builder_steps {
    lemma_emitted,
    lemma_valued,
    lemma_blocked,
    lemma_moved,
    lemma_ended,
}

/// Recording edges keeps the blocks fitting.
proof fn lemma_with_edges_fit(func: FunctionView, from: BlockId, targets: Seq<BlockId>)
    requires
        function_wf(func),
        has_block(func, from),
    ensures
        function_wf(FunctionView { blocks: with_edges(func.blocks, from, targets), ..func }),
{
    reveal(function_wf);
    let after = FunctionView { blocks: with_edges(func.blocks, from, targets), ..func };
    lemma_blocks_fit_frame(func, after);
    assert forall|i: int| 0 <= i < after.blocks.len() implies block_fits(
        after,
        #[trigger] after.blocks[i],
    ) by {
        assert(block_fits(func, func.blocks[i]));
    }
    lemma_same_places(func.blocks, after.blocks);
    lemma_placed_edges_frame(func, after);
}

impl<'a> FunctionBuilder<'a> {
    /// Whether the function is well-formed and has the current block.
    pub open spec fn wf(&self) -> bool {
        builder_wf(self@)
    }

    /// Creates a new function builder.
    pub fn new(func: &'a mut Function) -> (r: Self)
        requires
            function_wf(old(func)@),
        ensures
            r.wf(),
            r@ == (BuilderView { func: old(func)@, block: BlockId(0) }),
            *r.func == *old(func),
            *final(r.func) == *final(func),
    {
        proof {
            reveal(function_wf);
            func.lemma_sizes();
        }
        FunctionBuilder { func, current_block: BlockId(0) }
    }

    /// Returns the current block.
    pub fn current_block(&self) -> (r: BlockId)
        ensures
            r == self@.block,
    {
        self.current_block
    }

    /// Switches to a different block.
    pub fn switch_to_block(&mut self, block: BlockId)
        requires
            old(self).wf(),
            has_block(old(self)@.func, block),
        ensures
            final(self).wf(),
            final(self)@ == moved(old(self)@, block),
            *final(final(self).func) == *final(old(self).func),
    {
        self.current_block = block;
        proof {
            reveal(moved);
        }
    }

    /// Creates a new basic block.
    pub fn create_block(&mut self) -> (r: BlockId)
        requires
            old(self).wf(),
        ensures
            final(self).wf(),
            final(self)@ == blocked(old(self)@),
            r == next_block(old(self)@.func),
            *final(final(self).func) == *final(old(self).func),
    {
        proof {
            reveal(blocked);
        }
        self.func.alloc_block()
    }

    /// Adds an argument to the function.
    pub fn add_param(&mut self, ty: MirType) -> (r: ValueId)
        requires
            old(self).wf(),
        ensures
            final(self).wf(),
            final(self)@ == (BuilderView {
                func: with_param(old(self)@.func, ty),
                block: old(self)@.block,
            }),
            r == next_value(old(self)@.func),
            *final(final(self).func) == *final(old(self).func),
    {
        self.func.alloc_param(ty)
    }

    /// Adds a return type to the function.
    pub fn add_return(&mut self, ty: MirType)
        requires
            old(self).wf(),
        ensures
            final(self).wf(),
            final(self)@ == (BuilderView {
                func: FunctionView {
                    return_types: old(self)@.func.return_types.push(ty),
                    ..old(self)@.func
                },
                block: old(self)@.block,
            }),
            *final(final(self).func) == *final(old(self).func),
    {
        self.func.return_types.push(ty);
        proof {
            self.func.lemma_sizes();
            lemma_wf_frame(old(self)@.func, self@.func);
        }
    }

    /// Creates an immediate value.
    pub fn imm_u256(&mut self, value: U256) -> (r: ValueId)
        requires
            old(self).wf(),
        ensures
            final(self).wf(),
            final(self)@ == constant(old(self)@, value),
            r == next_value(old(self)@.func),
            *final(final(self).func) == *final(old(self).func),
    {
        self.alloc_value(Value::Immediate(Immediate::UInt256(value)))
    }

    /// Creates a u64 immediate value.
    pub fn imm_u64(&mut self, value: u64) -> (r: ValueId)
        requires
            old(self).wf(),
        ensures
            final(self).wf(),
            final(self)@ == constant(old(self)@, word(value)),
            r == next_value(old(self)@.func),
            *final(final(self).func) == *final(old(self).func),
    {
        self.imm_u256(U256::from_u64(value))
    }

    /// Creates a boolean immediate.
    pub fn imm_bool(&mut self, value: bool) -> (r: ValueId)
        requires
            old(self).wf(),
        ensures
            final(self).wf(),
            final(self)@ == valued(old(self)@, Value::Immediate(Immediate::Bool(value))),
            r == next_value(old(self)@.func),
            *final(final(self).func) == *final(old(self).func),
    {
        self.alloc_value(Value::Immediate(Immediate::Bool(value)))
    }

    /// Creates an undefined value.
    pub fn undef(&mut self, ty: MirType) -> (r: ValueId)
        requires
            old(self).wf(),
        ensures
            final(self).wf(),
            final(self)@ == valued(old(self)@, Value::Undef(ty)),
            r == next_value(old(self)@.func),
            *final(final(self).func) == *final(old(self).func),
    {
        self.alloc_value(Value::Undef(ty))
    }

    /// Creates an error sentinel value for an already-reported lowering error.
    pub fn error_value(&mut self, guar: ErrorGuaranteed) -> (r: ValueId)
        requires
            old(self).wf(),
        ensures
            final(self).wf(),
            final(self)@ == valued(old(self)@, Value::Error(guar)),
            r == next_value(old(self)@.func),
            *final(final(self).func) == *final(old(self).func),
    {
        self.alloc_value(Value::Error(guar))
    }

    /// Allocates a fully constructed value.
    pub fn alloc_value(&mut self, value: Value) -> (r: ValueId)
        requires
            old(self).wf(),
            value_fits(old(self)@.func, value),
        ensures
            final(self).wf(),
            final(self)@ == valued(old(self)@, value),
            r == next_value(old(self)@.func),
            *final(final(self).func) == *final(old(self).func),
    {
        proof {
            reveal(valued);
        }
        self.func.alloc_value(value)
    }

    /// An instruction with what is known about it.
    pub fn make_inst(&self, kind: InstKind, result_ty: Option<MirType>) -> (r: Instruction)
        requires
            self.wf(),
            kind_fits(self@.func, kind@),
        ensures
            r@ == (InstView {
                kind: kind@,
                result_ty,
                metadata: metadata_of(self@.func, kind@),
            }),
            r.kind == kind,
    {
        let metadata = InstructionMetadata {
            effect: Some(kind.effect_kind()),
            memory_region: self.memory_region_for_inst(&kind),
            storage_alias: self.storage_alias_for_inst(&kind),
            unchecked: false,
            deferred_alloc: false,
            loop_depth: 0,
            hir_expr: None,
            source_span: None,
        };
        Instruction { kind, result_ty, metadata }
    }

    /// Appends a fully constructed instruction to the current block.
    pub fn append_instruction(&mut self, inst: Instruction) -> (r: (InstId, Option<ValueId>))
        requires
            old(self).wf(),
            kind_fits(old(self)@.func, inst.kind@),
        ensures
            final(self).wf(),
            final(self)@ == (BuilderView {
                func: appended(old(self)@.func, old(self)@.block, inst@),
                block: old(self)@.block,
            }),
            r.0 == next_inst(old(self)@.func),
            r.1 == if inst.result_ty is Some {
                Some(next_value(old(self)@.func))
            } else {
                None
            },
            *final(final(self).func) == *final(old(self).func),
    {
        let block = self.current_block;
        let (inst_id, result) = if inst.result_ty.is_some() {
            let (inst_id, result) = self.func.alloc_value_inst(inst);
            (inst_id, Some(result))
        } else {
            (self.func.alloc_inst(inst), None)
        };
        self.func.place(block, inst_id);
        (inst_id, result)
    }

    /// Appends a fully constructed instruction for a preallocated undefined result value.
    pub fn append_instruction_with_result(
        &mut self,
        inst: Instruction,
        result: ValueId,
    ) -> (r: InstId)
        requires
            old(self).wf(),
            kind_fits(old(self)@.func, inst.kind@),
            has_value(old(self)@.func, result),
        ensures
            final(self).wf(),
            final(self)@ == (BuilderView {
                func: place(
                    FunctionView {
                        values: old(self)@.func.values.update(
                            result.0 as int,
                            Value::Inst(next_inst(old(self)@.func)),
                        ),
                        ..with_inst(old(self)@.func, inst@)
                    },
                    old(self)@.block,
                    next_inst(old(self)@.func),
                ),
                block: old(self)@.block,
            }),
            r == next_inst(old(self)@.func),
            *final(final(self).func) == *final(old(self).func),
    {
        let block = self.current_block;
        let inst_id = self.func.alloc_inst_with_result(inst, result);
        self.func.place(block, inst_id);
        inst_id
    }

    /// Emits an instruction that produces a value.
    pub fn emit_inst(&mut self, kind: InstKind, result_ty: Option<MirType>) -> (r: ValueId)
        requires
            old(self).wf(),
            kind_fits(old(self)@.func, kind@),
            result_ty is Some,
        ensures
            final(self).wf(),
            final(self)@ == emitted(old(self)@, kind@, result_ty),
            r == next_value(old(self)@.func),
            *final(final(self).func) == *final(old(self).func),
    {
        proof {
            reveal(emitted);
        }
        let inst = self.make_inst(kind, result_ty);
        self.append_instruction(inst).1.unwrap()
    }

    /// Emits an instruction that produces no value, such as a store or a log.
    ///
    /// No result [`Value`] is allocated: only value-producing instructions get
    /// an entry in the function's value table.
    pub fn emit_void_inst(&mut self, kind: InstKind)
        requires
            old(self).wf(),
            kind_fits(old(self)@.func, kind@),
        ensures
            final(self).wf(),
            final(self)@ == emitted(old(self)@, kind@, None),
            *final(final(self).func) == *final(old(self).func),
    {
        proof {
            reveal(emitted);
        }
        let inst = self.make_inst(kind, None);
        self.append_instruction(inst);
    }

    /// What the memory access of an instruction may touch.
    pub fn memory_region_for_inst(&self, kind: &InstKind) -> (r: Option<MemoryRegion>)
        requires
            self.wf(),
            kind_fits(self@.func, kind@),
        ensures
            r == region_of_inst(self@.func, kind@),
    {
        let addr: ValueId = match kind {
            InstKind::MLoad(addr)
            | InstKind::MStore(addr, _)
            | InstKind::MStore8(addr, _)
            | InstKind::Keccak256(addr, _) => *addr,
            InstKind::MCopy(dest, _, _)
            | InstKind::CalldataCopy(dest, _, _)
            | InstKind::CodeCopy(dest, _, _)
            | InstKind::ReturnDataCopy(dest, _, _)
            | InstKind::ExtCodeCopy(_, dest, _, _) => *dest,
            _ => {
                assert(accessed_addr(kind@) is None);
                return None;
            },
        };
        assert(accessed_addr(kind@) == Some(addr));
        assert(operands_of(kind@) == kind@->args);
        assert(has_value(self@.func, addr));
        Some(self.memory_region_for_addr(addr))
    }

    /// What an access at the given address may touch.
    pub fn memory_region_for_addr(&self, addr: ValueId) -> (r: MemoryRegion)
        requires
            self.wf(),
            has_value(self@.func, addr),
        ensures
            r == region_of_addr(self@.func, addr),
    {
        proof {
            reveal(function_wf);
            assert(value_fits(self@.func, self@.func.values[addr.0 as int]));
        }
        match self.func.value(addr) {
            Value::Immediate(imm) => {
                if imm.as_u256().less_than(U256::from_u64(EvmMemoryLayout::HEAP_START)) {
                    MemoryRegion::Scratch
                } else {
                    MemoryRegion::Unknown
                }
            },
            Value::Inst(inst_id) => {
                let inst = self.func.inst(inst_id);
                assert(
                    has_values(self@.func, operands_of(self@.func.insts[inst_id.0 as int].kind))
                );
                match &inst.kind {
                    InstKind::InternalFrameAddr(_) => MemoryRegion::InternalFrame,
                    InstKind::Add(lhs, rhs) => {
                        let ghost args = seq![*lhs, *rhs];
                        assert(inst.kind@ == self::inst(Op::Add, args));
                        assert(args[0] == *lhs && args[1] == *rhs);
                        assert(has_value(self@.func, args[0]) && has_value(self@.func, args[1]));
                        if self.is_internal_frame_add(*lhs, *rhs) {
                            MemoryRegion::InternalFrame
                        } else {
                            MemoryRegion::Unknown
                        }
                    },
                    InstKind::Sub(lhs, rhs) => {
                        let ghost args = seq![*lhs, *rhs];
                        assert(inst.kind@ == self::inst(Op::Sub, args));
                        assert(args[0] == *lhs && args[1] == *rhs);
                        assert(has_value(self@.func, args[0]) && has_value(self@.func, args[1]));
                        if self.is_internal_frame_addr(*lhs) && self.is_immediate(*rhs) {
                            MemoryRegion::InternalFrame
                        } else {
                            MemoryRegion::Unknown
                        }
                    },
                    _ => MemoryRegion::Unknown,
                }
            },
            _ => MemoryRegion::Unknown,
        }
    }

    /// Whether a sum is a frame address at a constant distance.
    pub fn is_internal_frame_add(&self, lhs: ValueId, rhs: ValueId) -> (r: bool)
        requires
            self.wf(),
            has_value(self@.func, lhs),
            has_value(self@.func, rhs),
        ensures
            r == (is_frame_addr(self@.func, lhs) && is_constant(self@.func, rhs)
                || is_frame_addr(self@.func, rhs) && is_constant(self@.func, lhs)),
    {
        (self.is_internal_frame_addr(lhs) && self.is_immediate(rhs))
            || (self.is_internal_frame_addr(rhs) && self.is_immediate(lhs))
    }

    /// Whether a value is the address of the current internal-call frame.
    pub fn is_internal_frame_addr(&self, value: ValueId) -> (r: bool)
        requires
            self.wf(),
            has_value(self@.func, value),
        ensures
            r == is_frame_addr(self@.func, value),
    {
        proof {
            reveal(function_wf);
            assert(value_fits(self@.func, self@.func.values[value.0 as int]));
        }
        match self.func.value(value) {
            Value::Inst(inst_id) => match &self.func.inst(inst_id).kind {
                InstKind::InternalFrameAddr(_) => true,
                _ => false,
            },
            _ => false,
        }
    }

    /// Whether a value is a constant.
    pub fn is_immediate(&self, value: ValueId) -> (r: bool)
        requires
            has_value(self@.func, value),
        ensures
            r == is_constant(self@.func, value),
    {
        match self.func.value(value) {
            Value::Immediate(_) => true,
            _ => false,
        }
    }

    /// What the storage access of an instruction may touch.
    pub fn storage_alias_for_inst(&self, kind: &InstKind) -> (r: Option<StorageAlias>)
        requires
            self.wf(),
            kind_fits(self@.func, kind@),
        ensures
            r == alias_of_inst(self@.func, kind@),
    {
        match kind {
            InstKind::SLoad(slot) => {
                assert(operand(kind@, 0) == *slot);
                Some(self.storage_alias(*slot))
            },
            InstKind::SStore(slot, _) => {
                assert(operand(kind@, 0) == *slot);
                Some(self.storage_alias(*slot))
            },
            _ => None,
        }
    }

    /// What an access of the given slot may touch.
    pub fn storage_alias(&self, slot: ValueId) -> (r: StorageAlias)
        requires
            self.wf(),
            has_value(self@.func, slot),
        ensures
            r == alias_of_slot(self@.func, slot),
    {
        proof {
            reveal(function_wf);
            assert(value_fits(self@.func, self@.func.values[slot.0 as int]));
        }
        match self.func.value(slot) {
            Value::Immediate(imm) => StorageAlias::Slot(imm.as_u256()),
            Value::Inst(inst_id) => {
                let inst = self.func.inst(inst_id);
                assert(
                    has_values(self@.func, operands_of(self@.func.insts[inst_id.0 as int].kind))
                );
                match &inst.kind {
                    InstKind::Add(lhs, rhs) => {
                        let ghost args = seq![*lhs, *rhs];
                        assert(inst.kind@ == self::inst(Op::Add, args));
                        assert(args[0] == *lhs && args[1] == *rhs);
                        assert(has_value(self@.func, args[0]) && has_value(self@.func, args[1]));
                        match (self.constant(*lhs), self.constant(*rhs)) {
                            (None, Some(offset)) => StorageAlias::Offset { base: *lhs, offset },
                            (Some(offset), None) => StorageAlias::Offset { base: *rhs, offset },
                            _ => StorageAlias::Symbolic(slot),
                        }
                    },
                    _ => StorageAlias::Symbolic(slot),
                }
            },
            _ => StorageAlias::Symbolic(slot),
        }
    }

    /// The constant that a value is, if it is one.
    pub fn constant(&self, value: ValueId) -> (r: Option<U256>)
        requires
            has_value(self@.func, value),
        ensures
            r == constant_of(self@.func, value),
    {
        match self.func.value(value) {
            Value::Immediate(imm) => Some(imm.as_u256()),
            _ => None,
        }
    }

    /// Emits an add instruction.
    pub fn add(&mut self, a: ValueId, b: ValueId) -> (r: ValueId)
        requires
            old(self).wf(),
            has_value(old(self)@.func, a),
            has_value(old(self)@.func, b),
        ensures
            final(self).wf(),
            final(self)@ == emitted(
                old(self)@,
                inst(Op::Add, seq![a, b]),
                Some(MirType::uint256()),
            ),
            r == next_value(old(self)@.func),
            *final(final(self).func) == *final(old(self).func),
    {
        self.emit_inst(InstKind::Add(a, b), Some(MirType::uint256()))
    }

    /// Emits a sub instruction.
    pub fn sub(&mut self, a: ValueId, b: ValueId) -> (r: ValueId)
        requires
            old(self).wf(),
            has_value(old(self)@.func, a),
            has_value(old(self)@.func, b),
        ensures
            final(self).wf(),
            final(self)@ == emitted(
                old(self)@,
                inst(Op::Sub, seq![a, b]),
                Some(MirType::uint256()),
            ),
            r == next_value(old(self)@.func),
            *final(final(self).func) == *final(old(self).func),
    {
        self.emit_inst(InstKind::Sub(a, b), Some(MirType::uint256()))
    }

    /// Emits a mul instruction.
    pub fn mul(&mut self, a: ValueId, b: ValueId) -> (r: ValueId)
        requires
            old(self).wf(),
            has_value(old(self)@.func, a),
            has_value(old(self)@.func, b),
        ensures
            final(self).wf(),
            final(self)@ == emitted(
                old(self)@,
                inst(Op::Mul, seq![a, b]),
                Some(MirType::uint256()),
            ),
            r == next_value(old(self)@.func),
            *final(final(self).func) == *final(old(self).func),
    {
        self.emit_inst(InstKind::Mul(a, b), Some(MirType::uint256()))
    }

    /// Emits a div instruction.
    pub fn div(&mut self, a: ValueId, b: ValueId) -> (r: ValueId)
        requires
            old(self).wf(),
            has_value(old(self)@.func, a),
            has_value(old(self)@.func, b),
        ensures
            final(self).wf(),
            final(self)@ == emitted(
                old(self)@,
                inst(Op::Div, seq![a, b]),
                Some(MirType::uint256()),
            ),
            r == next_value(old(self)@.func),
            *final(final(self).func) == *final(old(self).func),
    {
        self.emit_inst(InstKind::Div(a, b), Some(MirType::uint256()))
    }

    /// Emits a sdiv instruction.
    pub fn sdiv(&mut self, a: ValueId, b: ValueId) -> (r: ValueId)
        requires
            old(self).wf(),
            has_value(old(self)@.func, a),
            has_value(old(self)@.func, b),
        ensures
            final(self).wf(),
            final(self)@ == emitted(
                old(self)@,
                inst(Op::SDiv, seq![a, b]),
                Some(MirType::int256()),
            ),
            r == next_value(old(self)@.func),
            *final(final(self).func) == *final(old(self).func),
    {
        self.emit_inst(InstKind::SDiv(a, b), Some(MirType::int256()))
    }

    /// Emits a mod instruction.
    pub fn mod_(&mut self, a: ValueId, b: ValueId) -> (r: ValueId)
        requires
            old(self).wf(),
            has_value(old(self)@.func, a),
            has_value(old(self)@.func, b),
        ensures
            final(self).wf(),
            final(self)@ == emitted(
                old(self)@,
                inst(Op::Mod, seq![a, b]),
                Some(MirType::uint256()),
            ),
            r == next_value(old(self)@.func),
            *final(final(self).func) == *final(old(self).func),
    {
        self.emit_inst(InstKind::Mod(a, b), Some(MirType::uint256()))
    }

    /// Emits an addmod instruction.
    pub fn addmod(&mut self, a: ValueId, b: ValueId, n: ValueId) -> (r: ValueId)
        requires
            old(self).wf(),
            has_value(old(self)@.func, a),
            has_value(old(self)@.func, b),
            has_value(old(self)@.func, n),
        ensures
            final(self).wf(),
            final(self)@ == emitted(
                old(self)@,
                inst(Op::AddMod, seq![a, b, n]),
                Some(MirType::uint256()),
            ),
            r == next_value(old(self)@.func),
            *final(final(self).func) == *final(old(self).func),
    {
        self.emit_inst(InstKind::AddMod(a, b, n), Some(MirType::uint256()))
    }

    /// Emits a mulmod instruction.
    pub fn mulmod(&mut self, a: ValueId, b: ValueId, n: ValueId) -> (r: ValueId)
        requires
            old(self).wf(),
            has_value(old(self)@.func, a),
            has_value(old(self)@.func, b),
            has_value(old(self)@.func, n),
        ensures
            final(self).wf(),
            final(self)@ == emitted(
                old(self)@,
                inst(Op::MulMod, seq![a, b, n]),
                Some(MirType::uint256()),
            ),
            r == next_value(old(self)@.func),
            *final(final(self).func) == *final(old(self).func),
    {
        self.emit_inst(InstKind::MulMod(a, b, n), Some(MirType::uint256()))
    }

    /// Emits a smod instruction.
    pub fn smod(&mut self, a: ValueId, b: ValueId) -> (r: ValueId)
        requires
            old(self).wf(),
            has_value(old(self)@.func, a),
            has_value(old(self)@.func, b),
        ensures
            final(self).wf(),
            final(self)@ == emitted(
                old(self)@,
                inst(Op::SMod, seq![a, b]),
                Some(MirType::int256()),
            ),
            r == next_value(old(self)@.func),
            *final(final(self).func) == *final(old(self).func),
    {
        self.emit_inst(InstKind::SMod(a, b), Some(MirType::int256()))
    }

    /// Emits an exp instruction.
    pub fn exp(&mut self, a: ValueId, b: ValueId) -> (r: ValueId)
        requires
            old(self).wf(),
            has_value(old(self)@.func, a),
            has_value(old(self)@.func, b),
        ensures
            final(self).wf(),
            final(self)@ == emitted(
                old(self)@,
                inst(Op::Exp, seq![a, b]),
                Some(MirType::uint256()),
            ),
            r == next_value(old(self)@.func),
            *final(final(self).func) == *final(old(self).func),
    {
        self.emit_inst(InstKind::Exp(a, b), Some(MirType::uint256()))
    }

    /// Emits an and instruction.
    pub fn and(&mut self, a: ValueId, b: ValueId) -> (r: ValueId)
        requires
            old(self).wf(),
            has_value(old(self)@.func, a),
            has_value(old(self)@.func, b),
        ensures
            final(self).wf(),
            final(self)@ == emitted(
                old(self)@,
                inst(Op::And, seq![a, b]),
                Some(MirType::uint256()),
            ),
            r == next_value(old(self)@.func),
            *final(final(self).func) == *final(old(self).func),
    {
        self.emit_inst(InstKind::And(a, b), Some(MirType::uint256()))
    }

    /// Emits an or instruction.
    pub fn or(&mut self, a: ValueId, b: ValueId) -> (r: ValueId)
        requires
            old(self).wf(),
            has_value(old(self)@.func, a),
            has_value(old(self)@.func, b),
        ensures
            final(self).wf(),
            final(self)@ == emitted(
                old(self)@,
                inst(Op::Or, seq![a, b]),
                Some(MirType::uint256()),
            ),
            r == next_value(old(self)@.func),
            *final(final(self).func) == *final(old(self).func),
    {
        self.emit_inst(InstKind::Or(a, b), Some(MirType::uint256()))
    }

    /// Emits a xor instruction.
    pub fn xor(&mut self, a: ValueId, b: ValueId) -> (r: ValueId)
        requires
            old(self).wf(),
            has_value(old(self)@.func, a),
            has_value(old(self)@.func, b),
        ensures
            final(self).wf(),
            final(self)@ == emitted(
                old(self)@,
                inst(Op::Xor, seq![a, b]),
                Some(MirType::uint256()),
            ),
            r == next_value(old(self)@.func),
            *final(final(self).func) == *final(old(self).func),
    {
        self.emit_inst(InstKind::Xor(a, b), Some(MirType::uint256()))
    }

    /// Emits a not instruction.
    pub fn not(&mut self, a: ValueId) -> (r: ValueId)
        requires
            old(self).wf(),
            has_value(old(self)@.func, a),
        ensures
            final(self).wf(),
            final(self)@ == emitted(
                old(self)@,
                inst(Op::Not, seq![a]),
                Some(MirType::uint256()),
            ),
            r == next_value(old(self)@.func),
            *final(final(self).func) == *final(old(self).func),
    {
        self.emit_inst(InstKind::Not(a), Some(MirType::uint256()))
    }

    /// Emits a clz instruction.
    pub fn clz(&mut self, a: ValueId) -> (r: ValueId)
        requires
            old(self).wf(),
            has_value(old(self)@.func, a),
        ensures
            final(self).wf(),
            final(self)@ == emitted(
                old(self)@,
                inst(Op::Clz, seq![a]),
                Some(MirType::uint256()),
            ),
            r == next_value(old(self)@.func),
            *final(final(self).func) == *final(old(self).func),
    {
        self.emit_inst(InstKind::Clz(a), Some(MirType::uint256()))
    }

    /// Emits a shl instruction.
    pub fn shl(&mut self, shift: ValueId, value: ValueId) -> (r: ValueId)
        requires
            old(self).wf(),
            has_value(old(self)@.func, shift),
            has_value(old(self)@.func, value),
        ensures
            final(self).wf(),
            final(self)@ == emitted(
                old(self)@,
                inst(Op::Shl, seq![shift, value]),
                Some(MirType::uint256()),
            ),
            r == next_value(old(self)@.func),
            *final(final(self).func) == *final(old(self).func),
    {
        self.emit_inst(InstKind::Shl(shift, value), Some(MirType::uint256()))
    }

    /// Emits a shr instruction.
    pub fn shr(&mut self, shift: ValueId, value: ValueId) -> (r: ValueId)
        requires
            old(self).wf(),
            has_value(old(self)@.func, shift),
            has_value(old(self)@.func, value),
        ensures
            final(self).wf(),
            final(self)@ == emitted(
                old(self)@,
                inst(Op::Shr, seq![shift, value]),
                Some(MirType::uint256()),
            ),
            r == next_value(old(self)@.func),
            *final(final(self).func) == *final(old(self).func),
    {
        self.emit_inst(InstKind::Shr(shift, value), Some(MirType::uint256()))
    }

    /// Emits a sar instruction.
    pub fn sar(&mut self, shift: ValueId, value: ValueId) -> (r: ValueId)
        requires
            old(self).wf(),
            has_value(old(self)@.func, shift),
            has_value(old(self)@.func, value),
        ensures
            final(self).wf(),
            final(self)@ == emitted(
                old(self)@,
                inst(Op::Sar, seq![shift, value]),
                Some(MirType::int256()),
            ),
            r == next_value(old(self)@.func),
            *final(final(self).func) == *final(old(self).func),
    {
        self.emit_inst(InstKind::Sar(shift, value), Some(MirType::int256()))
    }

    /// Emits a lt instruction.
    pub fn lt(&mut self, a: ValueId, b: ValueId) -> (r: ValueId)
        requires
            old(self).wf(),
            has_value(old(self)@.func, a),
            has_value(old(self)@.func, b),
        ensures
            final(self).wf(),
            final(self)@ == emitted(
                old(self)@,
                inst(Op::Lt, seq![a, b]),
                Some(MirType::Bool),
            ),
            r == next_value(old(self)@.func),
            *final(final(self).func) == *final(old(self).func),
    {
        self.emit_inst(InstKind::Lt(a, b), Some(MirType::Bool))
    }

    /// Emits a gt instruction.
    pub fn gt(&mut self, a: ValueId, b: ValueId) -> (r: ValueId)
        requires
            old(self).wf(),
            has_value(old(self)@.func, a),
            has_value(old(self)@.func, b),
        ensures
            final(self).wf(),
            final(self)@ == emitted(
                old(self)@,
                inst(Op::Gt, seq![a, b]),
                Some(MirType::Bool),
            ),
            r == next_value(old(self)@.func),
            *final(final(self).func) == *final(old(self).func),
    {
        self.emit_inst(InstKind::Gt(a, b), Some(MirType::Bool))
    }

    /// Emits a slt instruction.
    pub fn slt(&mut self, a: ValueId, b: ValueId) -> (r: ValueId)
        requires
            old(self).wf(),
            has_value(old(self)@.func, a),
            has_value(old(self)@.func, b),
        ensures
            final(self).wf(),
            final(self)@ == emitted(
                old(self)@,
                inst(Op::SLt, seq![a, b]),
                Some(MirType::Bool),
            ),
            r == next_value(old(self)@.func),
            *final(final(self).func) == *final(old(self).func),
    {
        self.emit_inst(InstKind::SLt(a, b), Some(MirType::Bool))
    }

    /// Emits a sgt instruction.
    pub fn sgt(&mut self, a: ValueId, b: ValueId) -> (r: ValueId)
        requires
            old(self).wf(),
            has_value(old(self)@.func, a),
            has_value(old(self)@.func, b),
        ensures
            final(self).wf(),
            final(self)@ == emitted(
                old(self)@,
                inst(Op::SGt, seq![a, b]),
                Some(MirType::Bool),
            ),
            r == next_value(old(self)@.func),
            *final(final(self).func) == *final(old(self).func),
    {
        self.emit_inst(InstKind::SGt(a, b), Some(MirType::Bool))
    }

    /// Emits an eq instruction.
    pub fn eq(&mut self, a: ValueId, b: ValueId) -> (r: ValueId)
        requires
            old(self).wf(),
            has_value(old(self)@.func, a),
            has_value(old(self)@.func, b),
        ensures
            final(self).wf(),
            final(self)@ == emitted(
                old(self)@,
                inst(Op::Eq, seq![a, b]),
                Some(MirType::Bool),
            ),
            r == next_value(old(self)@.func),
            *final(final(self).func) == *final(old(self).func),
    {
        self.emit_inst(InstKind::Eq(a, b), Some(MirType::Bool))
    }

    /// Emits an iszero instruction.
    pub fn iszero(&mut self, a: ValueId) -> (r: ValueId)
        requires
            old(self).wf(),
            has_value(old(self)@.func, a),
        ensures
            final(self).wf(),
            final(self)@ == emitted(
                old(self)@,
                inst(Op::IsZero, seq![a]),
                Some(MirType::Bool),
            ),
            r == next_value(old(self)@.func),
            *final(final(self).func) == *final(old(self).func),
    {
        self.emit_inst(InstKind::IsZero(a), Some(MirType::Bool))
    }

    /// Emits a byte instruction.
    pub fn byte(&mut self, index: ValueId, value: ValueId) -> (r: ValueId)
        requires
            old(self).wf(),
            has_value(old(self)@.func, index),
            has_value(old(self)@.func, value),
        ensures
            final(self).wf(),
            final(self)@ == emitted(
                old(self)@,
                inst(Op::Byte, seq![index, value]),
                Some(MirType::uint256()),
            ),
            r == next_value(old(self)@.func),
            *final(final(self).func) == *final(old(self).func),
    {
        self.emit_inst(InstKind::Byte(index, value), Some(MirType::uint256()))
    }

    /// Emits a signextend instruction.
    pub fn signextend(&mut self, size: ValueId, value: ValueId) -> (r: ValueId)
        requires
            old(self).wf(),
            has_value(old(self)@.func, size),
            has_value(old(self)@.func, value),
        ensures
            final(self).wf(),
            final(self)@ == emitted(
                old(self)@,
                inst(Op::SignExtend, seq![size, value]),
                Some(MirType::int256()),
            ),
            r == next_value(old(self)@.func),
            *final(final(self).func) == *final(old(self).func),
    {
        self.emit_inst(InstKind::SignExtend(size, value), Some(MirType::int256()))
    }

    /// Emits an mload instruction.
    pub fn mload(&mut self, offset: ValueId) -> (r: ValueId)
        requires
            old(self).wf(),
            has_value(old(self)@.func, offset),
        ensures
            final(self).wf(),
            final(self)@ == emitted(
                old(self)@,
                inst(Op::MLoad, seq![offset]),
                Some(MirType::uint256()),
            ),
            r == next_value(old(self)@.func),
            *final(final(self).func) == *final(old(self).func),
    {
        self.emit_inst(InstKind::MLoad(offset), Some(MirType::uint256()))
    }

    /// Emits an mstore instruction.
    pub fn mstore(&mut self, offset: ValueId, value: ValueId)
        requires
            old(self).wf(),
            has_value(old(self)@.func, offset),
            has_value(old(self)@.func, value),
        ensures
            final(self).wf(),
            final(self)@ == emitted(
                old(self)@,
                inst(Op::MStore, seq![offset, value]),
                None,
            ),
            *final(final(self).func) == *final(old(self).func),
    {
        self.emit_void_inst(InstKind::MStore(offset, value))
    }

    /// Emits an mstore8 instruction.
    pub fn mstore8(&mut self, offset: ValueId, value: ValueId)
        requires
            old(self).wf(),
            has_value(old(self)@.func, offset),
            has_value(old(self)@.func, value),
        ensures
            final(self).wf(),
            final(self)@ == emitted(
                old(self)@,
                inst(Op::MStore8, seq![offset, value]),
                None,
            ),
            *final(final(self).func) == *final(old(self).func),
    {
        self.emit_void_inst(InstKind::MStore8(offset, value))
    }

    /// Emits a memory-zero instruction.
    pub fn memory_zero(&mut self, offset: ValueId, size: ValueId)
        requires
            old(self).wf(),
            has_value(old(self)@.func, offset),
            has_value(old(self)@.func, size),
        ensures
            final(self).wf(),
            final(self)@ == emitted(
                old(self)@,
                inst(Op::MemoryZero, seq![offset, size]),
                None,
            ),
            *final(final(self).func) == *final(old(self).func),
    {
        self.emit_void_inst(InstKind::MemoryZero(offset, size))
    }

    /// Emits an msize instruction.
    pub fn msize(&mut self) -> (r: ValueId)
        requires
            old(self).wf(),
        ensures
            final(self).wf(),
            final(self)@ == emitted(
                old(self)@,
                inst(Op::MSize, seq![]),
                Some(MirType::uint256()),
            ),
            r == next_value(old(self)@.func),
            *final(final(self).func) == *final(old(self).func),
    {
        self.emit_inst(InstKind::MSize, Some(MirType::uint256()))
    }

    /// Reads the free-memory pointer.
    pub fn fmp(&mut self) -> (r: ValueId)
        requires
            old(self).wf(),
        ensures
            final(self).wf(),
            final(self)@ == emitted(
                old(self)@,
                inst(Op::Fmp, seq![]),
                Some(MirType::MemPtr),
            ),
            r == next_value(old(self)@.func),
            *final(final(self).func) == *final(old(self).func),
    {
        self.emit_inst(InstKind::Fmp, Some(MirType::MemPtr))
    }

    /// Sets the free-memory pointer.
    pub fn set_fmp(&mut self, ptr: ValueId)
        requires
            old(self).wf(),
            has_value(old(self)@.func, ptr),
        ensures
            final(self).wf(),
            final(self)@ == emitted(
                old(self)@,
                inst(Op::SetFmp, seq![ptr]),
                None,
            ),
            *final(final(self).func) == *final(old(self).func),
    {
        self.emit_void_inst(InstKind::SetFmp(ptr))
    }

    /// Reads the logical length of a dynamic memory object.
    pub fn memory_object_len(&mut self, object: ValueId, kind: MemoryObjectKind) -> (r: ValueId)
        requires
            old(self).wf(),
            has_value(old(self)@.func, object),
        ensures
            final(self).wf(),
            final(self)@ == emitted(
                old(self)@,
                inst(Op::MemoryObjectLen { kind }, seq![object]),
                Some(MirType::uint256()),
            ),
            r == next_value(old(self)@.func),
            *final(final(self).func) == *final(old(self).func),
    {
        self.emit_inst(InstKind::MemoryObjectLen(object, kind), Some(MirType::uint256()))
    }

    /// Sets the logical length of a dynamic memory object.
    pub fn set_memory_object_len(&mut self, object: ValueId, len: ValueId, kind: MemoryObjectKind)
        requires
            old(self).wf(),
            has_value(old(self)@.func, object),
            has_value(old(self)@.func, len),
        ensures
            final(self).wf(),
            final(self)@ == emitted(
                old(self)@,
                inst(Op::SetMemoryObjectLen { kind }, seq![object, len]),
                None,
            ),
            *final(final(self).func) == *final(old(self).func),
    {
        self.emit_void_inst(InstKind::SetMemoryObjectLen(object, len, kind))
    }

    /// Projects an object's data address.
    pub fn memory_object_data(&mut self, object: ValueId, kind: MemoryObjectKind) -> (r: ValueId)
        requires
            old(self).wf(),
            has_value(old(self)@.func, object),
        ensures
            final(self).wf(),
            final(self)@ == emitted(
                old(self)@,
                inst(Op::MemoryObjectData { kind }, seq![object]),
                Some(MirType::MemPtr),
            ),
            r == next_value(old(self)@.func),
            *final(final(self).func) == *final(old(self).func),
    {
        self.emit_inst(InstKind::MemoryObjectData(object, kind), Some(MirType::MemPtr))
    }

    /// Addresses a direct struct field.
    pub fn memory_object_field_addr(
        &mut self,
        object: ValueId,
        layout: MemoryObjectLayout,
        field: u64,
    ) -> (r: ValueId)
        requires
            old(self).wf(),
            has_value(old(self)@.func, object),
        ensures
            final(self).wf(),
            final(self)@ == emitted(
                old(self)@,
                inst(Op::MemoryObjectFieldAddr { layout, field }, seq![object]),
                Some(MirType::MemPtr),
            ),
            r == next_value(old(self)@.func),
            *final(final(self).func) == *final(old(self).func),
    {
        self.emit_inst(
            InstKind::MemoryObjectFieldAddr { object, layout, field },
            Some(MirType::MemPtr),
        )
    }

    /// Addresses an array element.
    pub fn memory_object_element_addr(
        &mut self,
        object: ValueId,
        layout: MemoryObjectLayout,
        index: ValueId,
    ) -> (r: ValueId)
        requires
            old(self).wf(),
            has_value(old(self)@.func, object),
            has_value(old(self)@.func, index),
        ensures
            final(self).wf(),
            final(self)@ == emitted(
                old(self)@,
                inst(Op::MemoryObjectElementAddr { layout }, seq![object, index]),
                Some(MirType::MemPtr),
            ),
            r == next_value(old(self)@.func),
            *final(final(self).func) == *final(old(self).func),
    {
        self.emit_inst(
            InstKind::MemoryObjectElementAddr { object, layout, index },
            Some(MirType::MemPtr),
        )
    }

    /// Copies a statically shaped aggregate from storage into memory.
    pub fn storage_to_memory(
        &mut self,
        layout: StorageLayoutRef,
        storage: ValueId,
        memory: ValueId,
    )
        requires
            old(self).wf(),
            has_value(old(self)@.func, storage),
            has_value(old(self)@.func, memory),
        ensures
            final(self).wf(),
            final(self)@ == emitted(
                old(self)@,
                inst(Op::StorageToMemory { layout: layout@ }, seq![storage, memory]),
                None,
            ),
            *final(final(self).func) == *final(old(self).func),
    {
        self.emit_void_inst(InstKind::StorageToMemory { storage, memory, layout })
    }

    /// Copies a statically shaped aggregate from memory into storage.
    pub fn memory_to_storage(
        &mut self,
        layout: StorageLayoutRef,
        memory: ValueId,
        storage: ValueId,
    )
        requires
            old(self).wf(),
            has_value(old(self)@.func, memory),
            has_value(old(self)@.func, storage),
        ensures
            final(self).wf(),
            final(self)@ == emitted(
                old(self)@,
                inst(Op::MemoryToStorage { layout: layout@ }, seq![memory, storage]),
                None,
            ),
            *final(final(self).func) == *final(old(self).func),
    {
        self.emit_void_inst(InstKind::MemoryToStorage { memory, storage, layout })
    }

    /// Clears every storage slot occupied by a statically shaped aggregate.
    pub fn clear_storage(&mut self, layout: StorageLayoutRef, storage: ValueId)
        requires
            old(self).wf(),
            has_value(old(self)@.func, storage),
        ensures
            final(self).wf(),
            final(self)@ == emitted(
                old(self)@,
                inst(Op::ClearStorage { layout: layout@ }, seq![storage]),
                None,
            ),
            *final(final(self).func) == *final(old(self).func),
    {
        self.emit_void_inst(InstKind::ClearStorage { storage, layout })
    }

    /// Emits an mcopy instruction.
    pub fn mcopy(&mut self, dest: ValueId, src: ValueId, len: ValueId)
        requires
            old(self).wf(),
            has_value(old(self)@.func, dest),
            has_value(old(self)@.func, src),
            has_value(old(self)@.func, len),
        ensures
            final(self).wf(),
            final(self)@ == emitted(
                old(self)@,
                inst(Op::MCopy, seq![dest, src, len]),
                None,
            ),
            *final(final(self).func) == *final(old(self).func),
    {
        self.emit_void_inst(InstKind::MCopy(dest, src, len))
    }

    /// Emits an sload instruction.
    pub fn sload(&mut self, slot: ValueId) -> (r: ValueId)
        requires
            old(self).wf(),
            has_value(old(self)@.func, slot),
        ensures
            final(self).wf(),
            final(self)@ == emitted(
                old(self)@,
                inst(Op::SLoad, seq![slot]),
                Some(MirType::uint256()),
            ),
            r == next_value(old(self)@.func),
            *final(final(self).func) == *final(old(self).func),
    {
        self.emit_inst(InstKind::SLoad(slot), Some(MirType::uint256()))
    }

    /// Emits an sstore instruction.
    pub fn sstore(&mut self, slot: ValueId, value: ValueId)
        requires
            old(self).wf(),
            has_value(old(self)@.func, slot),
            has_value(old(self)@.func, value),
        ensures
            final(self).wf(),
            final(self)@ == emitted(
                old(self)@,
                inst(Op::SStore, seq![slot, value]),
                None,
            ),
            *final(final(self).func) == *final(old(self).func),
    {
        self.emit_void_inst(InstKind::SStore(slot, value))
    }

    /// Emits a tload instruction.
    pub fn tload(&mut self, slot: ValueId) -> (r: ValueId)
        requires
            old(self).wf(),
            has_value(old(self)@.func, slot),
        ensures
            final(self).wf(),
            final(self)@ == emitted(
                old(self)@,
                inst(Op::TLoad, seq![slot]),
                Some(MirType::uint256()),
            ),
            r == next_value(old(self)@.func),
            *final(final(self).func) == *final(old(self).func),
    {
        self.emit_inst(InstKind::TLoad(slot), Some(MirType::uint256()))
    }

    /// Emits a tstore instruction.
    pub fn tstore(&mut self, slot: ValueId, value: ValueId)
        requires
            old(self).wf(),
            has_value(old(self)@.func, slot),
            has_value(old(self)@.func, value),
        ensures
            final(self).wf(),
            final(self)@ == emitted(
                old(self)@,
                inst(Op::TStore, seq![slot, value]),
                None,
            ),
            *final(final(self).func) == *final(old(self).func),
    {
        self.emit_void_inst(InstKind::TStore(slot, value))
    }

    /// Emits a calldataload instruction.
    pub fn calldataload(&mut self, offset: ValueId) -> (r: ValueId)
        requires
            old(self).wf(),
            has_value(old(self)@.func, offset),
        ensures
            final(self).wf(),
            final(self)@ == emitted(
                old(self)@,
                inst(Op::CalldataLoad, seq![offset]),
                Some(MirType::uint256()),
            ),
            r == next_value(old(self)@.func),
            *final(final(self).func) == *final(old(self).func),
    {
        self.emit_inst(InstKind::CalldataLoad(offset), Some(MirType::uint256()))
    }

    /// Emits a calldatasize instruction.
    pub fn calldatasize(&mut self) -> (r: ValueId)
        requires
            old(self).wf(),
        ensures
            final(self).wf(),
            final(self)@ == emitted(
                old(self)@,
                inst(Op::CalldataSize, seq![]),
                Some(MirType::uint256()),
            ),
            r == next_value(old(self)@.func),
            *final(final(self).func) == *final(old(self).func),
    {
        self.emit_inst(InstKind::CalldataSize, Some(MirType::uint256()))
    }

    /// Constructs a logical `(pointer, length, location)` slice.
    pub fn make_slice(
        &mut self,
        ptr: ValueId,
        len: ValueId,
        location: SliceLocation,
    ) -> (r: ValueId)
        requires
            old(self).wf(),
            has_value(old(self)@.func, ptr),
            has_value(old(self)@.func, len),
        ensures
            final(self).wf(),
            final(self)@ == emitted(
                old(self)@,
                inst(Op::MakeSlice { location }, seq![ptr, len]),
                Some(MirType::Slice(location)),
            ),
            r == next_value(old(self)@.func),
            *final(final(self).func) == *final(old(self).func),
    {
        self.emit_inst(InstKind::MakeSlice { ptr, len, location }, Some(MirType::Slice(location)))
    }

    /// Projects the data pointer from a slice.
    pub fn slice_ptr(&mut self, slice: ValueId) -> (r: ValueId)
        requires
            old(self).wf(),
            has_value(old(self)@.func, slice),
        ensures
            final(self).wf(),
            final(self)@ == emitted(
                old(self)@,
                inst(Op::SlicePtr, seq![slice]),
                Some(MirType::uint256()),
            ),
            r == next_value(old(self)@.func),
            *final(final(self).func) == *final(old(self).func),
    {
        self.emit_inst(InstKind::SlicePtr(slice), Some(MirType::uint256()))
    }

    /// Projects the logical length from a slice.
    pub fn slice_len(&mut self, slice: ValueId) -> (r: ValueId)
        requires
            old(self).wf(),
            has_value(old(self)@.func, slice),
        ensures
            final(self).wf(),
            final(self)@ == emitted(
                old(self)@,
                inst(Op::SliceLen, seq![slice]),
                Some(MirType::uint256()),
            ),
            r == next_value(old(self)@.func),
            *final(final(self).func) == *final(old(self).func),
    {
        self.emit_inst(InstKind::SliceLen(slice), Some(MirType::uint256()))
    }

    /// Emits a calldatacopy instruction.
    pub fn calldatacopy(&mut self, dest: ValueId, offset: ValueId, size: ValueId)
        requires
            old(self).wf(),
            has_value(old(self)@.func, dest),
            has_value(old(self)@.func, offset),
            has_value(old(self)@.func, size),
        ensures
            final(self).wf(),
            final(self)@ == emitted(
                old(self)@,
                inst(Op::CalldataCopy, seq![dest, offset, size]),
                None,
            ),
            *final(final(self).func) == *final(old(self).func),
    {
        self.emit_void_inst(InstKind::CalldataCopy(dest, offset, size))
    }

    /// Emits a codesize instruction.
    pub fn codesize(&mut self) -> (r: ValueId)
        requires
            old(self).wf(),
        ensures
            final(self).wf(),
            final(self)@ == emitted(
                old(self)@,
                inst(Op::CodeSize, seq![]),
                Some(MirType::uint256()),
            ),
            r == next_value(old(self)@.func),
            *final(final(self).func) == *final(old(self).func),
    {
        self.emit_inst(InstKind::CodeSize, Some(MirType::uint256()))
    }

    /// Emits an extcodesize instruction.
    pub fn extcodesize(&mut self, addr: ValueId) -> (r: ValueId)
        requires
            old(self).wf(),
            has_value(old(self)@.func, addr),
        ensures
            final(self).wf(),
            final(self)@ == emitted(
                old(self)@,
                inst(Op::ExtCodeSize, seq![addr]),
                Some(MirType::uint256()),
            ),
            r == next_value(old(self)@.func),
            *final(final(self).func) == *final(old(self).func),
    {
        self.emit_inst(InstKind::ExtCodeSize(addr), Some(MirType::uint256()))
    }

    /// Emits a loadimmutable instruction for the immutable at `offset`.
    pub fn load_immutable(&mut self, offset: u32) -> (r: ValueId)
        requires
            old(self).wf(),
        ensures
            final(self).wf(),
            final(self)@ == emitted(
                old(self)@,
                inst(Op::LoadImmutable { offset }, seq![]),
                Some(MirType::uint256()),
            ),
            r == next_value(old(self)@.func),
            *final(final(self).func) == *final(old(self).func),
    {
        self.emit_inst(InstKind::LoadImmutable(offset), Some(MirType::uint256()))
    }

    /// Emits an extcodecopy instruction.
    pub fn extcodecopy(&mut self, addr: ValueId, dest: ValueId, offset: ValueId, size: ValueId)
        requires
            old(self).wf(),
            has_value(old(self)@.func, addr),
            has_value(old(self)@.func, dest),
            has_value(old(self)@.func, offset),
            has_value(old(self)@.func, size),
        ensures
            final(self).wf(),
            final(self)@ == emitted(
                old(self)@,
                inst(Op::ExtCodeCopy, seq![addr, dest, offset, size]),
                None,
            ),
            *final(final(self).func) == *final(old(self).func),
    {
        self.emit_void_inst(InstKind::ExtCodeCopy(addr, dest, offset, size))
    }

    /// Emits an extcodehash instruction.
    pub fn extcodehash(&mut self, addr: ValueId) -> (r: ValueId)
        requires
            old(self).wf(),
            has_value(old(self)@.func, addr),
        ensures
            final(self).wf(),
            final(self)@ == emitted(
                old(self)@,
                inst(Op::ExtCodeHash, seq![addr]),
                Some(MirType::uint256()),
            ),
            r == next_value(old(self)@.func),
            *final(final(self).func) == *final(old(self).func),
    {
        self.emit_inst(InstKind::ExtCodeHash(addr), Some(MirType::uint256()))
    }

    /// Emits a returndatasize instruction.
    pub fn returndatasize(&mut self) -> (r: ValueId)
        requires
            old(self).wf(),
        ensures
            final(self).wf(),
            final(self)@ == emitted(
                old(self)@,
                inst(Op::ReturnDataSize, seq![]),
                Some(MirType::uint256()),
            ),
            r == next_value(old(self)@.func),
            *final(final(self).func) == *final(old(self).func),
    {
        self.emit_inst(InstKind::ReturnDataSize, Some(MirType::uint256()))
    }

    /// Emits a returndatacopy instruction.
    pub fn returndatacopy(&mut self, dest: ValueId, offset: ValueId, size: ValueId)
        requires
            old(self).wf(),
            has_value(old(self)@.func, dest),
            has_value(old(self)@.func, offset),
            has_value(old(self)@.func, size),
        ensures
            final(self).wf(),
            final(self)@ == emitted(
                old(self)@,
                inst(Op::ReturnDataCopy, seq![dest, offset, size]),
                None,
            ),
            *final(final(self).func) == *final(old(self).func),
    {
        self.emit_void_inst(InstKind::ReturnDataCopy(dest, offset, size))
    }

    /// Emits an address inside the current internal-call frame.
    pub fn internal_frame_addr(&mut self, offset: u64) -> (r: ValueId)
        requires
            old(self).wf(),
        ensures
            final(self).wf(),
            final(self)@ == emitted(
                old(self)@,
                inst(Op::InternalFrameAddr { offset }, seq![]),
                Some(MirType::MemPtr),
            ),
            r == next_value(old(self)@.func),
            *final(final(self).func) == *final(old(self).func),
    {
        self.emit_inst(InstKind::InternalFrameAddr(offset), Some(MirType::MemPtr))
    }

    /// Emits a caller instruction.
    pub fn caller(&mut self) -> (r: ValueId)
        requires
            old(self).wf(),
        ensures
            final(self).wf(),
            final(self)@ == emitted(
                old(self)@,
                inst(Op::Caller, seq![]),
                Some(MirType::Address),
            ),
            r == next_value(old(self)@.func),
            *final(final(self).func) == *final(old(self).func),
    {
        self.emit_inst(InstKind::Caller, Some(MirType::Address))
    }

    /// Emits a callvalue instruction.
    pub fn callvalue(&mut self) -> (r: ValueId)
        requires
            old(self).wf(),
        ensures
            final(self).wf(),
            final(self)@ == emitted(
                old(self)@,
                inst(Op::CallValue, seq![]),
                Some(MirType::uint256()),
            ),
            r == next_value(old(self)@.func),
            *final(final(self).func) == *final(old(self).func),
    {
        self.emit_inst(InstKind::CallValue, Some(MirType::uint256()))
    }

    /// Emits an origin instruction.
    pub fn origin(&mut self) -> (r: ValueId)
        requires
            old(self).wf(),
        ensures
            final(self).wf(),
            final(self)@ == emitted(
                old(self)@,
                inst(Op::Origin, seq![]),
                Some(MirType::Address),
            ),
            r == next_value(old(self)@.func),
            *final(final(self).func) == *final(old(self).func),
    {
        self.emit_inst(InstKind::Origin, Some(MirType::Address))
    }

    /// Emits a gasprice instruction.
    pub fn gasprice(&mut self) -> (r: ValueId)
        requires
            old(self).wf(),
        ensures
            final(self).wf(),
            final(self)@ == emitted(
                old(self)@,
                inst(Op::GasPrice, seq![]),
                Some(MirType::uint256()),
            ),
            r == next_value(old(self)@.func),
            *final(final(self).func) == *final(old(self).func),
    {
        self.emit_inst(InstKind::GasPrice, Some(MirType::uint256()))
    }

    /// Emits a blockhash instruction.
    pub fn blockhash(&mut self, block_num: ValueId) -> (r: ValueId)
        requires
            old(self).wf(),
            has_value(old(self)@.func, block_num),
        ensures
            final(self).wf(),
            final(self)@ == emitted(
                old(self)@,
                inst(Op::BlockHash, seq![block_num]),
                Some(MirType::FixedBytes(32)),
            ),
            r == next_value(old(self)@.func),
            *final(final(self).func) == *final(old(self).func),
    {
        self.emit_inst(InstKind::BlockHash(block_num), Some(MirType::FixedBytes(32)))
    }

    /// Emits a coinbase instruction.
    pub fn coinbase(&mut self) -> (r: ValueId)
        requires
            old(self).wf(),
        ensures
            final(self).wf(),
            final(self)@ == emitted(
                old(self)@,
                inst(Op::Coinbase, seq![]),
                Some(MirType::Address),
            ),
            r == next_value(old(self)@.func),
            *final(final(self).func) == *final(old(self).func),
    {
        self.emit_inst(InstKind::Coinbase, Some(MirType::Address))
    }

    /// Emits a timestamp instruction.
    pub fn timestamp(&mut self) -> (r: ValueId)
        requires
            old(self).wf(),
        ensures
            final(self).wf(),
            final(self)@ == emitted(
                old(self)@,
                inst(Op::Timestamp, seq![]),
                Some(MirType::uint256()),
            ),
            r == next_value(old(self)@.func),
            *final(final(self).func) == *final(old(self).func),
    {
        self.emit_inst(InstKind::Timestamp, Some(MirType::uint256()))
    }

    /// Emits a number instruction.
    pub fn number(&mut self) -> (r: ValueId)
        requires
            old(self).wf(),
        ensures
            final(self).wf(),
            final(self)@ == emitted(
                old(self)@,
                inst(Op::BlockNumber, seq![]),
                Some(MirType::uint256()),
            ),
            r == next_value(old(self)@.func),
            *final(final(self).func) == *final(old(self).func),
    {
        self.emit_inst(InstKind::BlockNumber, Some(MirType::uint256()))
    }

    /// Emits a prevrandao instruction.
    pub fn prevrandao(&mut self) -> (r: ValueId)
        requires
            old(self).wf(),
        ensures
            final(self).wf(),
            final(self)@ == emitted(
                old(self)@,
                inst(Op::PrevRandao, seq![]),
                Some(MirType::uint256()),
            ),
            r == next_value(old(self)@.func),
            *final(final(self).func) == *final(old(self).func),
    {
        self.emit_inst(InstKind::PrevRandao, Some(MirType::uint256()))
    }

    /// Emits a gaslimit instruction.
    pub fn gaslimit(&mut self) -> (r: ValueId)
        requires
            old(self).wf(),
        ensures
            final(self).wf(),
            final(self)@ == emitted(
                old(self)@,
                inst(Op::GasLimit, seq![]),
                Some(MirType::uint256()),
            ),
            r == next_value(old(self)@.func),
            *final(final(self).func) == *final(old(self).func),
    {
        self.emit_inst(InstKind::GasLimit, Some(MirType::uint256()))
    }

    /// Emits a chainid instruction.
    pub fn chainid(&mut self) -> (r: ValueId)
        requires
            old(self).wf(),
        ensures
            final(self).wf(),
            final(self)@ == emitted(
                old(self)@,
                inst(Op::ChainId, seq![]),
                Some(MirType::uint256()),
            ),
            r == next_value(old(self)@.func),
            *final(final(self).func) == *final(old(self).func),
    {
        self.emit_inst(InstKind::ChainId, Some(MirType::uint256()))
    }

    /// Emits an address instruction.
    pub fn address(&mut self) -> (r: ValueId)
        requires
            old(self).wf(),
        ensures
            final(self).wf(),
            final(self)@ == emitted(
                old(self)@,
                inst(Op::Address, seq![]),
                Some(MirType::Address),
            ),
            r == next_value(old(self)@.func),
            *final(final(self).func) == *final(old(self).func),
    {
        self.emit_inst(InstKind::Address, Some(MirType::Address))
    }

    /// Emits a balance instruction.
    pub fn balance(&mut self, addr: ValueId) -> (r: ValueId)
        requires
            old(self).wf(),
            has_value(old(self)@.func, addr),
        ensures
            final(self).wf(),
            final(self)@ == emitted(
                old(self)@,
                inst(Op::Balance, seq![addr]),
                Some(MirType::uint256()),
            ),
            r == next_value(old(self)@.func),
            *final(final(self).func) == *final(old(self).func),
    {
        self.emit_inst(InstKind::Balance(addr), Some(MirType::uint256()))
    }

    /// Emits a selfbalance instruction.
    pub fn selfbalance(&mut self) -> (r: ValueId)
        requires
            old(self).wf(),
        ensures
            final(self).wf(),
            final(self)@ == emitted(
                old(self)@,
                inst(Op::SelfBalance, seq![]),
                Some(MirType::uint256()),
            ),
            r == next_value(old(self)@.func),
            *final(final(self).func) == *final(old(self).func),
    {
        self.emit_inst(InstKind::SelfBalance, Some(MirType::uint256()))
    }

    /// Emits a gas instruction.
    pub fn gas(&mut self) -> (r: ValueId)
        requires
            old(self).wf(),
        ensures
            final(self).wf(),
            final(self)@ == emitted(
                old(self)@,
                inst(Op::Gas, seq![]),
                Some(MirType::uint256()),
            ),
            r == next_value(old(self)@.func),
            *final(final(self).func) == *final(old(self).func),
    {
        self.emit_inst(InstKind::Gas, Some(MirType::uint256()))
    }

    /// Emits a keccak256 instruction.
    pub fn keccak256(&mut self, offset: ValueId, size: ValueId) -> (r: ValueId)
        requires
            old(self).wf(),
            has_value(old(self)@.func, offset),
            has_value(old(self)@.func, size),
        ensures
            final(self).wf(),
            final(self)@ == emitted(
                old(self)@,
                inst(Op::Keccak256, seq![offset, size]),
                Some(MirType::bytes32()),
            ),
            r == next_value(old(self)@.func),
            *final(final(self).func) == *final(old(self).func),
    {
        self.emit_inst(InstKind::Keccak256(offset, size), Some(MirType::bytes32()))
    }

    /// Hashes a `memorybytes` object's contents. Expanded by
    /// `lower-memory-objects` into the physical length load, data pointer, and
    /// `keccak256`.
    pub fn keccak256_bytes(&mut self, object: ValueId) -> (r: ValueId)
        requires
            old(self).wf(),
            has_value(old(self)@.func, object),
        ensures
            final(self).wf(),
            final(self)@ == emitted(
                old(self)@,
                inst(Op::Keccak256Bytes, seq![object]),
                Some(MirType::bytes32()),
            ),
            r == next_value(old(self)@.func),
            *final(final(self).func) == *final(old(self).func),
    {
        self.emit_inst(InstKind::Keccak256Bytes(object), Some(MirType::bytes32()))
    }

    /// Emits a fixed-width mapping-slot hash builtin.
    pub fn mapping_slot(&mut self, key: ValueId, slot: ValueId) -> (r: ValueId)
        requires
            old(self).wf(),
            has_value(old(self)@.func, key),
            has_value(old(self)@.func, slot),
        ensures
            final(self).wf(),
            final(self)@ == emitted(
                old(self)@,
                inst(Op::MappingSlot, seq![key, slot]),
                Some(MirType::bytes32()),
            ),
            r == next_value(old(self)@.func),
            *final(final(self).func) == *final(old(self).func),
    {
        self.emit_inst(InstKind::MappingSlot(key, slot), Some(MirType::bytes32()))
    }

    /// Emits a memory-backed dynamic mapping-slot hash builtin.
    pub fn mapping_slot_memory(&mut self, key: ValueId, slot: ValueId) -> (r: ValueId)
        requires
            old(self).wf(),
            has_value(old(self)@.func, key),
            has_value(old(self)@.func, slot),
        ensures
            final(self).wf(),
            final(self)@ == emitted(
                old(self)@,
                inst(Op::MappingSlotMemory, seq![key, slot]),
                Some(MirType::bytes32()),
            ),
            r == next_value(old(self)@.func),
            *final(final(self).func) == *final(old(self).func),
    {
        self.emit_inst(InstKind::MappingSlotMemory(key, slot), Some(MirType::bytes32()))
    }

    /// Emits a calldata-backed dynamic mapping-slot hash builtin.
    pub fn mapping_slot_calldata(&mut self, key: ValueId, slot: ValueId) -> (r: ValueId)
        requires
            old(self).wf(),
            has_value(old(self)@.func, key),
            has_value(old(self)@.func, slot),
        ensures
            final(self).wf(),
            final(self)@ == emitted(
                old(self)@,
                inst(Op::MappingSlotCalldata, seq![key, slot]),
                Some(MirType::bytes32()),
            ),
            r == next_value(old(self)@.func),
            *final(final(self).func) == *final(old(self).func),
    {
        self.emit_inst(InstKind::MappingSlotCalldata(key, slot), Some(MirType::bytes32()))
    }

    /// Emits a basefee instruction.
    pub fn basefee(&mut self) -> (r: ValueId)
        requires
            old(self).wf(),
        ensures
            final(self).wf(),
            final(self)@ == emitted(
                old(self)@,
                inst(Op::BaseFee, seq![]),
                Some(MirType::uint256()),
            ),
            r == next_value(old(self)@.func),
            *final(final(self).func) == *final(old(self).func),
    {
        self.emit_inst(InstKind::BaseFee, Some(MirType::uint256()))
    }

    /// Emits a blobbasefee instruction.
    pub fn blobbasefee(&mut self) -> (r: ValueId)
        requires
            old(self).wf(),
        ensures
            final(self).wf(),
            final(self)@ == emitted(
                old(self)@,
                inst(Op::BlobBaseFee, seq![]),
                Some(MirType::uint256()),
            ),
            r == next_value(old(self)@.func),
            *final(final(self).func) == *final(old(self).func),
    {
        self.emit_inst(InstKind::BlobBaseFee, Some(MirType::uint256()))
    }

    /// Emits a blobhash instruction.
    pub fn blobhash(&mut self, index: ValueId) -> (r: ValueId)
        requires
            old(self).wf(),
            has_value(old(self)@.func, index),
        ensures
            final(self).wf(),
            final(self)@ == emitted(
                old(self)@,
                inst(Op::BlobHash, seq![index]),
                Some(MirType::FixedBytes(32)),
            ),
            r == next_value(old(self)@.func),
            *final(final(self).func) == *final(old(self).func),
    {
        self.emit_inst(InstKind::BlobHash(index), Some(MirType::FixedBytes(32)))
    }

    /// Emits a call instruction (external call).
    pub fn call(
        &mut self,
        gas: ValueId,
        addr: ValueId,
        value: ValueId,
        args_offset: ValueId,
        args_size: ValueId,
        ret_offset: ValueId,
        ret_size: ValueId,
    ) -> (r: ValueId)
        requires
            old(self).wf(),
            has_value(old(self)@.func, gas),
            has_value(old(self)@.func, addr),
            has_value(old(self)@.func, value),
            has_value(old(self)@.func, args_offset),
            has_value(old(self)@.func, args_size),
            has_value(old(self)@.func, ret_offset),
            has_value(old(self)@.func, ret_size),
        ensures
            final(self).wf(),
            final(self)@ == emitted(
                old(self)@,
                inst(Op::Call, seq![gas, addr, value, args_offset, args_size, ret_offset, ret_size]),
                Some(MirType::uint256()),
            ),
            r == next_value(old(self)@.func),
            *final(final(self).func) == *final(old(self).func),
    {
        self.emit_inst(
            InstKind::Call { gas, addr, value, args_offset, args_size, ret_offset, ret_size },
            Some(MirType::uint256()),
        )
    }

    /// Emits a callcode instruction.
    pub fn callcode(
        &mut self,
        gas: ValueId,
        addr: ValueId,
        value: ValueId,
        args_offset: ValueId,
        args_size: ValueId,
        ret_offset: ValueId,
        ret_size: ValueId,
    ) -> (r: ValueId)
        requires
            old(self).wf(),
            has_value(old(self)@.func, gas),
            has_value(old(self)@.func, addr),
            has_value(old(self)@.func, value),
            has_value(old(self)@.func, args_offset),
            has_value(old(self)@.func, args_size),
            has_value(old(self)@.func, ret_offset),
            has_value(old(self)@.func, ret_size),
        ensures
            final(self).wf(),
            final(self)@ == emitted(
                old(self)@,
                inst(
                    Op::CallCode,
                    seq![gas, addr, value, args_offset, args_size, ret_offset, ret_size],
                ),
                Some(MirType::uint256()),
            ),
            r == next_value(old(self)@.func),
            *final(final(self).func) == *final(old(self).func),
    {
        self.emit_inst(
            InstKind::CallCode { gas, addr, value, args_offset, args_size, ret_offset, ret_size },
            Some(MirType::uint256()),
        )
    }

    /// Emits a staticcall instruction (read-only external call).
    pub fn staticcall(
        &mut self,
        gas: ValueId,
        addr: ValueId,
        args_offset: ValueId,
        args_size: ValueId,
        ret_offset: ValueId,
        ret_size: ValueId,
    ) -> (r: ValueId)
        requires
            old(self).wf(),
            has_value(old(self)@.func, gas),
            has_value(old(self)@.func, addr),
            has_value(old(self)@.func, args_offset),
            has_value(old(self)@.func, args_size),
            has_value(old(self)@.func, ret_offset),
            has_value(old(self)@.func, ret_size),
        ensures
            final(self).wf(),
            final(self)@ == emitted(
                old(self)@,
                inst(Op::StaticCall, seq![gas, addr, args_offset, args_size, ret_offset, ret_size]),
                Some(MirType::uint256()),
            ),
            r == next_value(old(self)@.func),
            *final(final(self).func) == *final(old(self).func),
    {
        self.emit_inst(
            InstKind::StaticCall { gas, addr, args_offset, args_size, ret_offset, ret_size },
            Some(MirType::uint256()),
        )
    }

    /// Emits a delegatecall instruction (call with caller's context).
    pub fn delegatecall(
        &mut self,
        gas: ValueId,
        addr: ValueId,
        args_offset: ValueId,
        args_size: ValueId,
        ret_offset: ValueId,
        ret_size: ValueId,
    ) -> (r: ValueId)
        requires
            old(self).wf(),
            has_value(old(self)@.func, gas),
            has_value(old(self)@.func, addr),
            has_value(old(self)@.func, args_offset),
            has_value(old(self)@.func, args_size),
            has_value(old(self)@.func, ret_offset),
            has_value(old(self)@.func, ret_size),
        ensures
            final(self).wf(),
            final(self)@ == emitted(
                old(self)@,
                inst(
                    Op::DelegateCall,
                    seq![gas, addr, args_offset, args_size, ret_offset, ret_size],
                ),
                Some(MirType::uint256()),
            ),
            r == next_value(old(self)@.func),
            *final(final(self).func) == *final(old(self).func),
    {
        self.emit_inst(
            InstKind::DelegateCall { gas, addr, args_offset, args_size, ret_offset, ret_size },
            Some(MirType::uint256()),
        )
    }

    /// Emits a create instruction (deploy a contract).
    pub fn create(&mut self, value: ValueId, offset: ValueId, size: ValueId) -> (r: ValueId)
        requires
            old(self).wf(),
            has_value(old(self)@.func, value),
            has_value(old(self)@.func, offset),
            has_value(old(self)@.func, size),
        ensures
            final(self).wf(),
            final(self)@ == emitted(
                old(self)@,
                inst(Op::Create, seq![value, offset, size]),
                Some(MirType::Address),
            ),
            r == next_value(old(self)@.func),
            *final(final(self).func) == *final(old(self).func),
    {
        self.emit_inst(InstKind::Create(value, offset, size), Some(MirType::Address))
    }

    /// Emits a create2 instruction (deploy a contract with salt).
    pub fn create2(
        &mut self,
        value: ValueId,
        offset: ValueId,
        size: ValueId,
        salt: ValueId,
    ) -> (r: ValueId)
        requires
            old(self).wf(),
            has_value(old(self)@.func, value),
            has_value(old(self)@.func, offset),
            has_value(old(self)@.func, size),
            has_value(old(self)@.func, salt),
        ensures
            final(self).wf(),
            final(self)@ == emitted(
                old(self)@,
                inst(Op::Create2, seq![value, offset, size, salt]),
                Some(MirType::Address),
            ),
            r == next_value(old(self)@.func),
            *final(final(self).func) == *final(old(self).func),
    {
        self.emit_inst(InstKind::Create2(value, offset, size, salt), Some(MirType::Address))
    }

    /// Emits a codecopy instruction.
    pub fn codecopy(&mut self, dest: ValueId, offset: ValueId, size: ValueId)
        requires
            old(self).wf(),
            has_value(old(self)@.func, dest),
            has_value(old(self)@.func, offset),
            has_value(old(self)@.func, size),
        ensures
            final(self).wf(),
            final(self)@ == emitted(
                old(self)@,
                inst(Op::CodeCopy, seq![dest, offset, size]),
                None,
            ),
            *final(final(self).func) == *final(old(self).func),
    {
        self.emit_void_inst(InstKind::CodeCopy(dest, offset, size))
    }

    /// Emits a log0 instruction (event with no topics).
    pub fn log0(&mut self, offset: ValueId, size: ValueId)
        requires
            old(self).wf(),
            has_value(old(self)@.func, offset),
            has_value(old(self)@.func, size),
        ensures
            final(self).wf(),
            final(self)@ == emitted(
                old(self)@,
                inst(Op::Log0, seq![offset, size]),
                None,
            ),
            *final(final(self).func) == *final(old(self).func),
    {
        self.emit_void_inst(InstKind::Log0(offset, size))
    }

    /// Emits a log1 instruction (event with 1 topic).
    pub fn log1(&mut self, offset: ValueId, size: ValueId, topic1: ValueId)
        requires
            old(self).wf(),
            has_value(old(self)@.func, offset),
            has_value(old(self)@.func, size),
            has_value(old(self)@.func, topic1),
        ensures
            final(self).wf(),
            final(self)@ == emitted(
                old(self)@,
                inst(Op::Log1, seq![offset, size, topic1]),
                None,
            ),
            *final(final(self).func) == *final(old(self).func),
    {
        self.emit_void_inst(InstKind::Log1(offset, size, topic1))
    }

    /// Emits a log2 instruction (event with 2 topics).
    pub fn log2(&mut self, offset: ValueId, size: ValueId, topic1: ValueId, topic2: ValueId)
        requires
            old(self).wf(),
            has_value(old(self)@.func, offset),
            has_value(old(self)@.func, size),
            has_value(old(self)@.func, topic1),
            has_value(old(self)@.func, topic2),
        ensures
            final(self).wf(),
            final(self)@ == emitted(
                old(self)@,
                inst(Op::Log2, seq![offset, size, topic1, topic2]),
                None,
            ),
            *final(final(self).func) == *final(old(self).func),
    {
        self.emit_void_inst(InstKind::Log2(offset, size, topic1, topic2))
    }

    /// Emits a log3 instruction (event with 3 topics).
    pub fn log3(
        &mut self,
        offset: ValueId,
        size: ValueId,
        topic1: ValueId,
        topic2: ValueId,
        topic3: ValueId,
    )
        requires
            old(self).wf(),
            has_value(old(self)@.func, offset),
            has_value(old(self)@.func, size),
            has_value(old(self)@.func, topic1),
            has_value(old(self)@.func, topic2),
            has_value(old(self)@.func, topic3),
        ensures
            final(self).wf(),
            final(self)@ == emitted(
                old(self)@,
                inst(Op::Log3, seq![offset, size, topic1, topic2, topic3]),
                None,
            ),
            *final(final(self).func) == *final(old(self).func),
    {
        self.emit_void_inst(InstKind::Log3(offset, size, topic1, topic2, topic3))
    }

    /// Emits a log4 instruction (event with 4 topics).
    pub fn log4(
        &mut self,
        offset: ValueId,
        size: ValueId,
        topic1: ValueId,
        topic2: ValueId,
        topic3: ValueId,
        topic4: ValueId,
    )
        requires
            old(self).wf(),
            has_value(old(self)@.func, offset),
            has_value(old(self)@.func, size),
            has_value(old(self)@.func, topic1),
            has_value(old(self)@.func, topic2),
            has_value(old(self)@.func, topic3),
            has_value(old(self)@.func, topic4),
        ensures
            final(self).wf(),
            final(self)@ == emitted(
                old(self)@,
                inst(Op::Log4, seq![offset, size, topic1, topic2, topic3, topic4]),
                None,
            ),
            *final(final(self).func) == *final(old(self).func),
    {
        self.emit_void_inst(InstKind::Log4(offset, size, topic1, topic2, topic3, topic4))
    }

    /// Emits a select instruction.
    pub fn select(&mut self, cond: ValueId, then_val: ValueId, else_val: ValueId) -> (r: ValueId)
        requires
            old(self).wf(),
            has_value(old(self)@.func, cond),
            has_value(old(self)@.func, then_val),
            has_value(old(self)@.func, else_val),
        ensures
            final(self).wf(),
            final(self)@ == emitted(
                old(self)@,
                inst(Op::Select, seq![cond, then_val, else_val]),
                Some(MirType::uint256()),
            ),
            r == next_value(old(self)@.func),
            *final(final(self).func) == *final(old(self).func),
    {
        self.emit_inst(InstKind::Select(cond, then_val, else_val), Some(MirType::uint256()))
    }

    /// Reads the free-memory pointer as the base of a semantic object being built in place.
    pub fn fmp_object(&mut self, layout: MemoryObjectLayout) -> (r: ValueId)
        requires
            old(self).wf(),
        ensures
            final(self).wf(),
            final(self)@ == emitted(
                old(self)@,
                inst(Op::Fmp, seq![]),
                Some(MirType::MemoryObject(layout.kind())),
            ),
            r == next_value(old(self)@.func),
            *final(final(self).func) == *final(old(self).func),
    {
        self.emit_inst(InstKind::Fmp, Some(MirType::MemoryObject(layout.kind())))
    }

    /// Reserves memory under an explicit semantic policy.
    pub fn alloc_raw(&mut self, size: ValueId, semantics: AllocationSemantics) -> (r: ValueId)
        requires
            old(self).wf(),
            has_value(old(self)@.func, size),
        ensures
            final(self).wf(),
            final(self)@ == emitted(
                old(self)@,
                inst(Op::Alloc { kind: AllocationKind::Raw, semantics }, seq![size]),
                Some(MirType::MemPtr),
            ),
            r == next_value(old(self)@.func),
            *final(final(self).func) == *final(old(self).func),
    {
        self.alloc_kind(size, AllocationKind::Raw, semantics)
    }

    /// Reserves memory for a semantically shaped object.
    pub fn alloc_object(
        &mut self,
        size: ValueId,
        layout: MemoryObjectLayout,
        semantics: AllocationSemantics,
    ) -> (r: ValueId)
        requires
            old(self).wf(),
            has_value(old(self)@.func, size),
        ensures
            final(self).wf(),
            final(self)@ == emitted(
                old(self)@,
                inst(Op::Alloc { kind: AllocationKind::Object(layout), semantics }, seq![size]),
                Some(MirType::MemoryObject(layout.kind())),
            ),
            r == next_value(old(self)@.func),
            *final(final(self).func) == *final(old(self).func),
    {
        self.alloc_kind(size, AllocationKind::Object(layout), semantics)
    }

    /// Reserves memory for what `kind` says.
    pub fn alloc_kind(
        &mut self,
        size: ValueId,
        kind: AllocationKind,
        semantics: AllocationSemantics,
    ) -> (r: ValueId)
        requires
            old(self).wf(),
            has_value(old(self)@.func, size),
        ensures
            final(self).wf(),
            final(self)@ == emitted(
                old(self)@,
                inst(Op::Alloc { kind, semantics }, seq![size]),
                Some(kind.result_type()),
            ),
            r == next_value(old(self)@.func),
            *final(final(self).func) == *final(old(self).func),
    {
        self.emit_inst(InstKind::Alloc { size, kind, semantics }, Some(kind.result_type()))
    }

    /// ABI-encodes `args` into a freshly allocated memory slice.
    pub fn abi_encode(
        &mut self,
        layout: AbiLayoutRef,
        selector: Option<ValueId>,
        args: Vec<ValueId>,
    ) -> (r: ValueId)
        requires
            old(self).wf(),
            selector matches Some(value) ==> has_value(old(self)@.func, value),
            has_values(old(self)@.func, args@),
        ensures
            final(self).wf(),
            final(self)@ == emitted(
                old(self)@,
                inst(
                    Op::AbiEncode { selector: selector is Some, layout: layout@ },
                    encode_operands(selector, args@),
                ),
                Some(MirType::Slice(SliceLocation::Memory)),
            ),
            r == next_value(old(self)@.func),
            *final(final(self).func) == *final(old(self).func),
    {
        self.emit_inst(
            InstKind::AbiEncode { selector, args, layout },
            Some(MirType::Slice(SliceLocation::Memory)),
        )
    }

    /// Emits an internal function call.
    pub fn internal_call(
        &mut self,
        function: FunctionId,
        args: Vec<ValueId>,
        result_ty: MirType,
        return_count: usize,
    ) -> (r: ValueId)
        requires
            old(self).wf(),
            has_values(old(self)@.func, args@),
            return_count <= u32::MAX,
        ensures
            final(self).wf(),
            final(self)@ == emitted(
                old(self)@,
                inst(
                    Op::InternalCall { function, return_count: return_count as u32 },
                    args@,
                ),
                Some(result_ty),
            ),
            r == next_value(old(self)@.func),
            *final(final(self).func) == *final(old(self).func),
    {
        self.emit_inst(
            InstKind::InternalCall { function, args, return_count: return_count as u32 },
            Some(result_ty),
        )
    }

    /// Emits an internal function call whose result, if any, is not used as a value.
    pub fn internal_call_void(
        &mut self,
        function: FunctionId,
        args: Vec<ValueId>,
        return_count: usize,
    )
        requires
            old(self).wf(),
            has_values(old(self)@.func, args@),
            return_count <= u32::MAX,
        ensures
            final(self).wf(),
            final(self)@ == emitted(
                old(self)@,
                inst(
                    Op::InternalCall { function, return_count: return_count as u32 },
                    args@,
                ),
                None,
            ),
            *final(final(self).func) == *final(old(self).func),
    {
        self.emit_void_inst(
            InstKind::InternalCall { function, args, return_count: return_count as u32 },
        );
    }

    /// Emits a phi instruction. `incoming` pairs each predecessor block of the
    /// current block with the value the phi takes when control arrives from
    /// that block. Emit phis before any other instruction in their block.
    pub fn phi(&mut self, incoming: Vec<(BlockId, ValueId)>) -> (r: ValueId)
        requires
            old(self).wf(),
            kind_fits(old(self)@.func, KindView::Phi(incoming@)),
        ensures
            final(self).wf(),
            final(self)@ == emitted(
                old(self)@,
                KindView::Phi(incoming@),
                Some(MirType::uint256()),
            ),
            r == next_value(old(self)@.func),
            *final(final(self).func) == *final(old(self).func),
    {
        self.emit_inst(InstKind::Phi(incoming), Some(MirType::uint256()))
    }

    /// Adds an incoming `(block, value)` edge to an existing phi. This is used
    /// to patch loop-carried phis whose back-edge values are only known after
    /// the loop body has been built.
    pub fn add_phi_incoming(&mut self, phi: ValueId, block: BlockId, value: ValueId)
        requires
            old(self).wf(),
            has_value(old(self)@.func, phi),
            is_phi(old(self)@.func, phi),
            has_block(old(self)@.func, block),
            has_value(old(self)@.func, value),
        ensures
            final(self).wf(),
            final(self)@ == (BuilderView {
                func: with_phi_edge(
                    old(self)@.func,
                    old(self)@.func.values[phi.0 as int]->Inst_0,
                    block,
                    value,
                ),
                block: old(self)@.block,
            }),
            *final(final(self).func) == *final(old(self).func),
    {
        proof {
            reveal(function_wf);
            assert(value_fits(self@.func, self@.func.values[phi.0 as int]));
        }
        if let Value::Inst(inst_id) = self.func.value(phi) {
            let ghost before = self@.func;
            assert(before.insts[inst_id.0 as int].kind is Phi);
            if let InstKind::Phi(incoming) = &mut self.func.insts[inst_id.0].kind {
                incoming.push((block, value));
            }
            proof {
                self.func.lemma_sizes();
                let after = with_phi_edge(before, inst_id, block, value);
                assert(self@.func.insts =~= after.insts);
                assert(self@.func =~= after);
                lemma_blocks_fit_frame(before, after);
                assert forall|i: int| 0 <= i < after.insts.len() implies has_values(
                    after,
                    operands_of((#[trigger] after.insts[i]).kind),
                ) by {
                    let old_kind = before.insts[i].kind;
                    let kind = after.insts[i].kind;
                    assert(has_values(before, operands_of(old_kind)));
                    assert forall|k: int| 0 <= k < operands_of(kind).len() implies has_value(
                        after,
                        #[trigger] operands_of(kind)[k],
                    ) by {
                        if k < operands_of(old_kind).len() {
                            assert(operands_of(kind)[k] == operands_of(old_kind)[k]);
                        }
                    }
                }
                assert forall|b: int, i: int|
                    #![trigger after.blocks[b].instructions[i]]
                    0 <= b < after.blocks.len() && 0 <= i
                        < after.blocks[b].instructions.len() implies edges_fit(
                    after,
                    after.insts[after.blocks[b].instructions[i].0 as int].kind,
                ) by {
                    let id = before.blocks[b].instructions[i];
                    assert(edges_fit(before, before.insts[id.0 as int].kind));
                }
            }
        }
    }

    /// Sets a jump terminator.
    pub fn jump(&mut self, target: BlockId)
        requires
            old(self).wf(),
            has_block(old(self)@.func, target),
        ensures
            final(self).wf(),
            final(self)@ == ended(old(self)@, TermView::Jump(target)),
            *final(final(self).func) == *final(old(self).func),
    {
        self.set_terminator(Terminator::Jump(target));
    }

    /// Sets a branch terminator.
    pub fn branch(&mut self, condition: ValueId, then_block: BlockId, else_block: BlockId)
        requires
            old(self).wf(),
            has_value(old(self)@.func, condition),
            has_block(old(self)@.func, then_block),
            has_block(old(self)@.func, else_block),
        ensures
            final(self).wf(),
            final(self)@ == ended(
                old(self)@,
                TermView::Branch { condition, then_block, else_block },
            ),
            *final(final(self).func) == *final(old(self).func),
    {
        self.set_terminator(Terminator::Branch { condition, then_block, else_block });
    }

    /// Sets a switch terminator.
    pub fn switch(&mut self, value: ValueId, default: BlockId, cases: Vec<(ValueId, BlockId)>)
        requires
            old(self).wf(),
            term_fits(old(self)@.func, TermView::Switch { value, default, cases: cases@ }),
        ensures
            final(self).wf(),
            final(self)@ == ended(
                old(self)@,
                TermView::Switch { value, default, cases: cases@ },
            ),
            *final(final(self).func) == *final(old(self).func),
    {
        self.set_terminator(Terminator::Switch { value, default, cases });
    }

    /// Sets a return terminator.
    pub fn ret(&mut self, values: Vec<ValueId>)
        requires
            old(self).wf(),
            has_values(old(self)@.func, values@),
        ensures
            final(self).wf(),
            final(self)@ == ended(old(self)@, TermView::Return(values@)),
            *final(final(self).func) == *final(old(self).func),
    {
        let values = value_list(&values);
        self.set_terminator(Terminator::Return { values });
    }

    /// Sets a revert terminator.
    pub fn revert(&mut self, offset: ValueId, size: ValueId)
        requires
            old(self).wf(),
            has_value(old(self)@.func, offset),
            has_value(old(self)@.func, size),
        ensures
            final(self).wf(),
            final(self)@ == ended(old(self)@, TermView::Revert { offset, size }),
            *final(final(self).func) == *final(old(self).func),
    {
        self.set_terminator(Terminator::Revert { offset, size });
    }

    /// Sets a return-data terminator: `RETURN(offset, size)`.
    pub fn ret_data(&mut self, offset: ValueId, size: ValueId)
        requires
            old(self).wf(),
            has_value(old(self)@.func, offset),
            has_value(old(self)@.func, size),
        ensures
            final(self).wf(),
            final(self)@ == ended(old(self)@, TermView::ReturnData { offset, size }),
            *final(final(self).func) == *final(old(self).func),
    {
        self.set_terminator(Terminator::ReturnData { offset, size });
    }

    /// Sets a stop terminator.
    pub fn stop(&mut self)
        requires
            old(self).wf(),
        ensures
            final(self).wf(),
            final(self)@ == ended(old(self)@, TermView::Stop),
            *final(final(self).func) == *final(old(self).func),
    {
        self.set_terminator(Terminator::Stop);
    }

    /// Sets a tail-call terminator: transfer control to `function` without
    /// returning to this function.
    pub fn tail_call(&mut self, function: FunctionId, args: Vec<ValueId>)
        requires
            old(self).wf(),
            has_values(old(self)@.func, args@),
        ensures
            final(self).wf(),
            final(self)@ == ended(old(self)@, TermView::TailCall { function, args: args@ }),
            *final(final(self).func) == *final(old(self).func),
    {
        let args = value_list(&args);
        self.set_terminator(Terminator::TailCall { function, args });
    }

    /// Sets an invalid terminator.
    pub fn invalid(&mut self)
        requires
            old(self).wf(),
        ensures
            final(self).wf(),
            final(self)@ == ended(old(self)@, TermView::Invalid),
            *final(final(self).func) == *final(old(self).func),
    {
        self.set_terminator(Terminator::Invalid);
    }

    /// Sets a selfdestruct terminator.
    pub fn selfdestruct(&mut self, recipient: ValueId)
        requires
            old(self).wf(),
            has_value(old(self)@.func, recipient),
        ensures
            final(self).wf(),
            final(self)@ == ended(old(self)@, TermView::SelfDestruct { recipient }),
            *final(final(self).func) == *final(old(self).func),
    {
        self.set_terminator(Terminator::SelfDestruct { recipient });
    }

    /// Sets a fully constructed terminator on the current block.
    pub fn set_terminator(&mut self, terminator: Terminator)
        requires
            old(self).wf(),
            term_fits(old(self)@.func, terminator@),
        ensures
            final(self).wf(),
            final(self)@ == ended(old(self)@, terminator@),
            *final(final(self).func) == *final(old(self).func),
    {
        let current = self.current_block;
        let successors = terminator.successors();
        let ghost before = self@.func;
        let count: usize = self.func.blocks.len();
        let mut i: usize = 0;
        proof {
            assert(with_edges(before.blocks, current, successors@.take(0)) =~= before.blocks) by {
                assert forall|k: int| 0 <= k < before.blocks.len() implies with_edges(
                    before.blocks,
                    current,
                    successors@.take(0),
                )[k] == before.blocks[k] by {
                    assert(with_edges(before.blocks, current, successors@.take(0))[k]
                        =~= before.blocks[k]);
                }
            }
        }
        while i < successors.len()
            invariant
                i <= successors@.len(),
                successors@ == successors_of(terminator@),
                self.current_block == current,
                count == before.blocks.len(),
                self.func.blocks@.len() == count,
                has_blocks(before, successors@),
                self@.func == (FunctionView {
                    blocks: with_edges(before.blocks, current, successors@.take(i as int)),
                    ..before
                }),
                *final(self.func) == *final(old(self).func),
            decreases successors@.len() - i,
        {
            let target = successors[i];
            assert(has_block(before, successors@[i as int]));
            let ghost mid = self@.func;
            self.func.blocks[target.0].predecessors.push(current);
            proof {
                let done = successors@.take(i as int);
                let next = successors@.take(i + 1);
                assert(next.drop_last() =~= done);
                assert(next.last() == target);
                let after = with_edges(before.blocks, current, next);
                assert forall|k: int| 0 <= k < after.len() implies #[trigger] self@.func.blocks[k]
                    == after[k] by {
                    assert(occurrences(next, BlockId(k as usize)) == occurrences(
                        done,
                        BlockId(k as usize),
                    ) + if target == BlockId(k as usize) {
                        1nat
                    } else {
                        0nat
                    });
                    assert(mid.blocks[k].predecessors == before.blocks[k].predecessors + repeated(
                        current,
                        occurrences(done, BlockId(k as usize)),
                    ));
                    assert(self@.func.blocks[k].predecessors =~= after[k].predecessors);
                    assert(self@.func.blocks[k] =~= after[k]);
                }
                assert(self@.func.blocks =~= after);
                assert(self@.func =~= FunctionView { blocks: after, ..before });
            }
            i = i + 1;
        }
        assert(successors@.take(i as int) =~= successors@);
        let ghost mid = self@.func;
        self.func.blocks[current.0].terminator = Some(terminator);
        proof {
            self.func.lemma_sizes();
            reveal(ended);
            let after = ended(old(self)@, terminator@);
            assert(self@.func.blocks =~= after.func.blocks);
            assert(self@.func =~= after.func);
            lemma_with_edges_fit(before, current, successors@);
            reveal(function_wf);
            lemma_blocks_fit_frame(mid, self@.func);
            assert(term_fits(self@.func, terminator@));
            assert forall|k: int| 0 <= k < self@.func.blocks.len() implies block_fits(
                self@.func,
                #[trigger] self@.func.blocks[k],
            ) by {
                assert(block_fits(mid, mid.blocks[k]));
            }
            lemma_same_places(mid.blocks, self@.func.blocks);
            lemma_placed_edges_frame(mid, self@.func);
        }
    }

    /// Returns a reference to the function.
    pub fn func(&self) -> (r: &Function)
        ensures
            r@ == self@.func,
    {
        self.func
    }

    /// Returns a mutable reference to the function.
    pub fn func_mut(&mut self) -> (r: &mut Function)
        ensures
            *r == *old(self).func,
            *final(self).func == *final(r),
            final(self).current_block == old(self).current_block,
            *final(final(self).func) == *final(old(self).func),
    {
        self.func
    }
}

/// The operand of an instruction at a position.
pub open spec fn operand(kind: KindView, index: int) -> ValueId {
    kind->args[index]
}

/// Whether a value is the result of a phi.
pub open spec fn is_phi(func: FunctionView, value: ValueId) -> bool {
    func.values[value.0 as int] matches Value::Inst(id) && func.insts[id.0 as int].kind is Phi
}

} // verus!
