//! The machine that performs tasks.
//!
//! A task takes its operands from a stack of values and leaves its results
//! there. What spans several tasks, such as the blocks of a loop, is kept on a
//! second stack. A task whose operands are not there changes nothing.

use crate::hir::ContractId;
use crate::lower::bind::{places, Places};
use crate::lower::control::LoopBlocks;
use crate::lower::decode::{ArrayTail, ElementsLoop, Tail};
use crate::lower::handlers::{CallOperands, Handlers};
use crate::lower::state::{Complaint, LoopContext, Lowerer};
use crate::mir::builder::{BuilderView, FunctionBuilder};
use crate::mir::function::{has_block, has_value, has_values};
use crate::mir::module::ModuleView;
use crate::mir::types::{BlockId, FunctionId, Span, ValueId};
use vstd::prelude::*;

verus! {

/// What spans several tasks.
#[derive(Clone, Copy, Debug, PartialEq, Eq, Structural)]
pub enum Control {
    /// The block that branched on the left operand of `&&` or `||`, and the
    /// block where the operands meet.
    ShortCircuit(BlockId, BlockId),
    /// The block of the other arm, and the block where the arms meet.
    Arms(BlockId, BlockId),
    /// The blocks of a loop.
    Loop(LoopBlocks),
    /// The block of the turn of a `for` loop, and the block of its end.
    Turn(BlockId, BlockId),
    /// The block where the cases of a switch meet.
    Switch(BlockId),
    /// The blocks for success and failure of a call, and the block where they
    /// meet.
    Attempt(BlockId, BlockId, BlockId),
    /// What the handlers of a failed call share.
    Handlers(Handlers),
    /// The block of the next handler.
    Next(BlockId),
    /// Bytes that are being decoded.
    Bytes(Tail),
    /// An array that is being decoded, and the length of the region of its
    /// elements.
    Array(ArrayTail, ValueId),
    /// An array and where its elements go.
    Copy(ValueId, ValueId),
    /// A loop over elements.
    Elements(ElementsLoop),
    /// The offset of an element.
    Offset(ValueId),
    /// A call and the address that is called.
    Call(CallOperands, ValueId),
}

/// The machine that performs tasks.
#[derive(Debug)]
pub struct Machine {
    /// The values, the top one last.
    pub values: Vec<ValueId>,
    /// What spans several tasks, the innermost last.
    pub control: Vec<Control>,
    /// The blocks of the cases of the enclosing switches, the innermost last.
    pub cases: Vec<Vec<BlockId>>,
    /// The parameters that are to be stored in memory.
    pub deferred: Vec<(u64, ValueId)>,
    /// The arguments of the constructors of bases.
    pub arguments: Vec<(ContractId, Vec<ValueId>)>,
}

/// The mathematical value of a state of lowering.
#[verifier::ext_equal]
pub struct Scene {
    /// The function being built.
    pub b: BuilderView,
    /// The values, the top one last.
    pub values: Seq<ValueId>,
    /// What spans several tasks, the innermost last.
    pub control: Seq<Control>,
    /// The blocks of the cases of the enclosing switches, the innermost last.
    pub cases: Seq<Seq<BlockId>>,
    /// The parameters that are to be stored in memory.
    pub deferred: Seq<(u64, ValueId)>,
    /// The arguments of the constructors of bases.
    pub arguments: Seq<(ContractId, Seq<ValueId>)>,
    /// Where the variables are.
    pub places: Places,
    /// The complaints made so far.
    pub complaints: Seq<(Span, Complaint)>,
    /// Whether the next expression is checked for errors.
    pub checks: bool,
    /// Whether arithmetic wraps.
    pub unchecked: bool,
    /// Functions used as internal function values.
    pub pointers: Set<usize>,
    /// Results of the most recently inlined callee.
    pub pending: Option<Seq<ValueId>>,
    /// The enclosing loops, the innermost last.
    pub loops: Seq<LoopContext>,
    /// The module being built.
    pub module: ModuleView,
    /// The shared helper that reverts with a short string.
    pub helper: Option<FunctionId>,
}

/// The arguments of one base.
pub open spec fn argument_view(entry: (ContractId, Vec<ValueId>)) -> (ContractId, Seq<ValueId>) {
    (entry.0, entry.1@)
}

/// The results that an inlined callee left.
pub open spec fn pending_view(pending: Option<Vec<ValueId>>) -> Option<Seq<ValueId>> {
    match pending {
        Some(values) => Some(values@),
        None => None,
    }
}

/// The mathematical value of a state of lowering.
pub open spec fn scene(lowerer: Lowerer, machine: Machine, b: BuilderView) -> Scene {
    Scene {
        b,
        values: machine.values@,
        control: machine.control@,
        cases: machine.cases@.map_values(|blocks: Vec<BlockId>| blocks@),
        deferred: machine.deferred@,
        arguments: machine.arguments@.map_values(
            |entry: (ContractId, Vec<ValueId>)| argument_view(entry),
        ),
        places: places(lowerer),
        complaints: lowerer.complaints@,
        checks: lowerer.check_expr_errors,
        unchecked: lowerer.in_unchecked_block,
        pointers: lowerer.internal_function_pointer_targets@,
        pending: pending_view(lowerer.pending_inline_returns),
        loops: lowerer.loop_stack@,
        module: lowerer.module@,
        helper: lowerer.revert_error_helper,
    }
}

/// Whether two states differ only in what performing tasks may change.
pub open spec fn framed(before: Lowerer, after: Lowerer) -> bool {
    after == (Lowerer {
        locals: after.locals,
        local_memory_slots: after.local_memory_slots,
        slice_slot_locals: after.slice_slot_locals,
        storage_ref_locals: after.storage_ref_locals,
        next_local_memory_offset: after.next_local_memory_offset,
        complaints: after.complaints,
        check_expr_errors: after.check_expr_errors,
        in_unchecked_block: after.in_unchecked_block,
        internal_function_pointer_targets: after.internal_function_pointer_targets,
        pending_inline_returns: after.pending_inline_returns,
        loop_stack: after.loop_stack,
        module: after.module,
        revert_error_helper: after.revert_error_helper,
        ..before
    })
}

/// What performing a task came to.
#[derive(Clone, Copy, Debug, PartialEq, Eq, Structural)]
pub enum Step {
    /// It was performed.
    Done,
    /// Its operands are not there.
    NotReady,
    /// It is none of those that are performed here.
    Other,
}

/// What performing a task should come to.
pub enum StepView {
    /// It leads to a state.
    Done(Scene),
    /// Its operands are not there.
    NotReady,
    /// It is none of those that are performed here.
    Other,
}

/// Whether performing a task came to what it should.
pub open spec fn did(before: Scene, after: Scene, r: Step, expected: StepView) -> bool {
    match expected {
        StepView::Done(scene) => r is Done && after == scene,
        StepView::NotReady => r is NotReady && after == before,
        StepView::Other => r is Other && after == before,
    }
}

/// The value so many places below the top.
pub open spec fn top(values: Seq<ValueId>, depth: int) -> ValueId {
    values[values.len() - 1 - depth]
}

/// The values without so many at the top.
pub open spec fn cut(values: Seq<ValueId>, count: int) -> Seq<ValueId> {
    values.take(values.len() - count)
}

/// The values at the top, the top one last.
pub open spec fn taken(values: Seq<ValueId>, count: int) -> Seq<ValueId> {
    values.skip(values.len() - count)
}

/// Whether so many values at the top are there and exist.
pub open spec fn ready(b: BuilderView, values: Seq<ValueId>, count: int) -> bool {
    values.len() >= count && forall|k: int|
        0 <= k < count ==> has_value(b.func, #[trigger] top(values, k))
}

impl Machine {
    /// A machine with nothing on it.
    pub fn new() -> (r: Machine)
        ensures
            r.values@ == Seq::<ValueId>::empty(),
            r.control@ == Seq::<Control>::empty(),
            r.cases@ == Seq::<Vec<BlockId>>::empty(),
            r.deferred@ == Seq::<(u64, ValueId)>::empty(),
            r.arguments@ == Seq::<(ContractId, Vec<ValueId>)>::empty(),
    {
        Machine {
            values: Vec::new(),
            control: Vec::new(),
            cases: Vec::new(),
            deferred: Vec::new(),
            arguments: Vec::new(),
        }
    }

    /// Whether so many values at the top are there and exist.
    pub fn is_ready<'b>(&self, builder: &FunctionBuilder<'b>, count: usize) -> (r: bool)
        requires
            builder.wf(),
        ensures
            r == ready(builder@, self.values@, count as int),
    {
        let len: usize = self.values.len();
        if len < count {
            return false;
        }
        let mut k: usize = 0;
        while k < count
            invariant
                k <= count,
                count <= len,
                len == self.values@.len(),
                builder.wf(),
                forall|i: int|
                    0 <= i < k ==> has_value(builder@.func, #[trigger] top(self.values@, i)),
            decreases count - k,
        {
            if self.values[len - 1 - k].0 >= builder.func.values.len() {
                assert(!has_value(builder@.func, top(self.values@, k as int)));
                return false;
            }
            k = k + 1;
        }
        true
    }

    /// Whether so many values below some at the top are there and exist.
    pub fn is_ready_under<'b>(
        &self,
        builder: &FunctionBuilder<'b>,
        above: usize,
        count: usize,
    ) -> (r: bool)
        requires
            builder.wf(),
            above <= self.values@.len(),
        ensures
            r == ready(builder@, cut(self.values@, above as int), count as int),
    {
        let ghost under = cut(self.values@, above as int);
        let len: usize = self.values.len() - above;
        if len < count {
            return false;
        }
        let mut k: usize = 0;
        while k < count
            invariant
                k <= count,
                count <= len,
                len + above == self.values@.len(),
                under == cut(self.values@, above as int),
                builder.wf(),
                forall|i: int| 0 <= i < k ==> has_value(builder@.func, #[trigger] top(under, i)),
            decreases count - k,
        {
            if self.values[len - 1 - k].0 >= builder.func.values.len() {
                assert(!has_value(builder@.func, top(under, k as int)));
                return false;
            }
            k = k + 1;
        }
        true
    }

    /// The value so many places below the top.
    pub fn peek(&self, depth: usize) -> (r: ValueId)
        requires
            depth < self.values@.len(),
        ensures
            r == top(self.values@, depth as int),
    {
        self.values[self.values.len() - 1 - depth]
    }

    /// Drops so many values at the top.
    pub fn drop_values(&mut self, count: usize)
        requires
            count <= old(self).values@.len(),
        ensures
            *final(self) == (Machine { values: final(self).values, ..*old(self) }),
            final(self).values@ == cut(old(self).values@, count as int),
    {
        let mut k: usize = 0;
        assert(self.values@ =~= cut(old(self).values@, 0));
        while k < count
            invariant
                k <= count,
                count <= old(self).values@.len(),
                *self == (Machine { values: self.values, ..*old(self) }),
                self.values@ == cut(old(self).values@, k as int),
            decreases count - k,
        {
            let _ = self.values.pop();
            k = k + 1;
            assert(self.values@ =~= cut(old(self).values@, k as int));
        }
    }

    /// Copies so many values at the top, the top one last.
    pub fn top_values(&self, count: usize) -> (r: Vec<ValueId>)
        requires
            count <= self.values@.len(),
        ensures
            r@ == taken(self.values@, count as int),
    {
        let start: usize = self.values.len() - count;
        let mut copy: Vec<ValueId> = Vec::new();
        let mut k: usize = 0;
        while k < count
            invariant
                k <= count,
                start + count == self.values@.len(),
                start + count <= usize::MAX,
                copy@ == taken(self.values@, count as int).take(k as int),
            decreases count - k,
        {
            copy.push(self.values[start + k]);
            k = k + 1;
            assert(copy@ =~= taken(self.values@, count as int).take(k as int));
        }
        assert(copy@ =~= taken(self.values@, count as int));
        copy
    }

    /// Pushes several values.
    pub fn push_values(&mut self, values: &Vec<ValueId>)
        ensures
            *final(self) == (Machine { values: final(self).values, ..*old(self) }),
            final(self).values@ == old(self).values@ + values@,
    {
        let mut k: usize = 0;
        assert(self.values@ =~= old(self).values@ + values@.take(0));
        while k < values.len()
            invariant
                k <= values@.len(),
                *self == (Machine { values: self.values, ..*old(self) }),
                self.values@ == old(self).values@ + values@.take(k as int),
            decreases values@.len() - k,
        {
            self.values.push(values[k]);
            k = k + 1;
            assert(self.values@ =~= old(self).values@ + values@.take(k as int));
        }
        assert(values@.take(values@.len() as int) =~= values@);
    }

    /// What spans several tasks, so many places from the innermost.
    pub fn enclosing(&self, depth: usize) -> (r: Option<Control>)
        ensures
            r == enclosed(self.control@, depth as int),
    {
        let len: usize = self.control.len();
        if depth < len {
            Some(self.control[len - 1 - depth])
        } else {
            None
        }
    }
}

/// What spans several tasks, so many places from the innermost.
pub open spec fn enclosed(control: Seq<Control>, depth: int) -> Option<Control> {
    if 0 <= depth < control.len() {
        Some(control[control.len() - 1 - depth])
    } else {
        None
    }
}

/// Values at the top that exist belong to the function.
pub proof fn lemma_taken_exist(b: BuilderView, values: Seq<ValueId>, count: int)
    requires
        0 <= count,
        ready(b, values, count),
    ensures
        has_values(b.func, taken(values, count)),
{
    assert forall|i: int| 0 <= i < taken(values, count).len() implies has_value(
        b.func,
        #[trigger] taken(values, count)[i],
    ) by {
        assert(taken(values, count)[i] == top(values, count - 1 - i));
    }
}

/// Whether a block exists.
pub fn block_exists<'b>(builder: &FunctionBuilder<'b>, block: BlockId) -> (r: bool)
    requires
        builder.wf(),
    ensures
        r == has_block(builder@.func, block),
{
    block.0 < builder.func.blocks.len()
}

/// Whether a value exists.
pub fn value_exists<'b>(builder: &FunctionBuilder<'b>, value: ValueId) -> (r: bool)
    requires
        builder.wf(),
    ensures
        r == has_value(builder@.func, value),
{
    value.0 < builder.func.values.len()
}

} // verus!
