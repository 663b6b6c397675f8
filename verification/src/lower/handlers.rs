//! Switches, handlers of failed calls, and events.

use crate::hir::{has_variables, Event, Hir, Lit, SwitchCase, TryClause};
use crate::lower::emit::extends;
use crate::lower::names::literal;
use crate::lower::state::{error_emitted, Complaint, Lowerer};
use crate::mir::builder::{
    blocked, constant, emitted, ended, group_builder_steps, moved, word, BuilderView,
    FunctionBuilder,
};
use crate::mir::function::{
    has_block, has_blocks, has_value, has_values, next_block, next_value, term_operands,
};
use crate::mir::inst::{inst, successors_of, Op, TermView};
use crate::mir::types::{BlockId, MemoryObjectKind, MirType, Span, ValueId};
use crate::text::text_is;
use crate::word::{lemma_word_of, word_modulus, word_of, U256};
use vstd::prelude::*;

verus! {

/// The blocks of a try statement.
#[verifier::opaque]
pub open spec fn try_begun(b: BuilderView) -> (BuilderView, (BlockId, BlockId, BlockId)) {
    let success_block = next_block(b.func);
    let b = blocked(b);
    let catch_block = next_block(b.func);
    let b = blocked(b);
    let merge_block = next_block(b.func);
    let b = blocked(b);
    (b, (success_block, catch_block, merge_block))
}

/// Creates the blocks of a try statement: for success, for failure, and where they
/// meet.
pub fn begin_try<'a>(builder: &mut FunctionBuilder<'a>) -> (r: (BlockId, BlockId, BlockId))
    requires
        old(builder).wf(),
    ensures
        final(builder).wf(),
        (final(builder)@, r) == try_begun(old(builder)@),
        has_block(final(builder)@.func, r.0),
        has_block(final(builder)@.func, r.1),
        has_block(final(builder)@.func, r.2),
        extends(old(builder)@, final(builder)@),
        *final(final(builder).func) == *final(old(builder).func),
{
    broadcast use group_builder_steps;

    proof {
        reveal(try_begun);
    }
    let success_block = builder.create_block();
    let catch_block = builder.create_block();
    let merge_block = builder.create_block();
    (success_block, catch_block, merge_block)
}

/// The builder after the branch of a try statement.
#[verifier::opaque]
pub open spec fn try_branched(
    b: BuilderView,
    success: ValueId,
    success_block: BlockId,
    catch_block: BlockId,
) -> BuilderView {
    let b = ended(
        b,
        TermView::Branch { condition: success, then_block: success_block, else_block: catch_block },
    );
    let b = moved(b, success_block);
    b
}

/// Branches on whether the call of a try statement succeeded.
pub fn branch_try<'a>(
    builder: &mut FunctionBuilder<'a>,
    success: ValueId,
    success_block: BlockId,
    catch_block: BlockId,
)
    requires
        old(builder).wf(),
        has_value(old(builder)@.func, success),
        has_block(old(builder)@.func, success_block),
        has_block(old(builder)@.func, catch_block),
    ensures
        final(builder).wf(),
        final(builder)@ == try_branched(old(builder)@, success, success_block, catch_block),
        extends(old(builder)@, final(builder)@),
        *final(final(builder).func) == *final(old(builder).func),
{
    broadcast use group_builder_steps;

    proof {
        reveal(try_branched);
    }
    builder.branch(success, success_block, catch_block);
    builder.switch_to_block(success_block);
}

/// The values and blocks that the handlers of a try statement share.
#[derive(Clone, Copy, Debug, PartialEq, Eq, Structural)]
pub struct Handlers {
    /// Where the failure is passed on.
    pub rethrow: BlockId,
    /// The size of the returned data.
    pub size: ValueId,
    /// The size of a selector.
    pub four: ValueId,
    /// Whether the returned data has a selector.
    pub has_selector: ValueId,
    /// The selector.
    pub selector: ValueId,
    /// Where the fallback handler starts.
    pub fallback: BlockId,
}

/// Whether the values and blocks of handlers exist.
pub open spec fn has_handlers(b: BuilderView, handlers: Handlers) -> bool {
    &&& has_block(b.func, handlers.rethrow)
    &&& has_value(b.func, handlers.size)
    &&& has_value(b.func, handlers.four)
    &&& has_value(b.func, handlers.has_selector)
    &&& has_value(b.func, handlers.selector)
    &&& has_block(b.func, handlers.fallback)
}

/// The selector of the returned data.
#[verifier::opaque]
pub open spec fn selector_loaded(b: BuilderView) -> (
    BuilderView,
    (ValueId, ValueId, ValueId, ValueId),
) {
    let size = next_value(b.func);
    let b = emitted(b, inst(Op::ReturnDataSize, seq![]), Some(MirType::uint256()));
    let four = next_value(b.func);
    let b = constant(b, word(4));
    let zero = next_value(b.func);
    let b = constant(b, word(0));
    let too_short = next_value(b.func);
    let b = emitted(b, inst(Op::Lt, seq![size, four]), Some(MirType::Bool));
    let has_selector = next_value(b.func);
    let b = emitted(b, inst(Op::IsZero, seq![too_short]), Some(MirType::Bool));
    let b = emitted(b, inst(Op::MStore, seq![zero, zero]), None);
    let copy_size = next_value(b.func);
    let b = emitted(b, inst(Op::Select, seq![has_selector, four, zero]), Some(MirType::uint256()));
    let b = emitted(b, inst(Op::ReturnDataCopy, seq![zero, zero, copy_size]), None);
    let data = next_value(b.func);
    let b = emitted(b, inst(Op::MLoad, seq![zero]), Some(MirType::uint256()));
    let shift = next_value(b.func);
    let b = constant(b, word(224));
    let selector = next_value(b.func);
    let b = emitted(b, inst(Op::Shr, seq![shift, data]), Some(MirType::uint256()));
    (b, (size, four, has_selector, selector))
}

/// Loads the selector of the returned data. Data that is too short reads as
/// selector zero, which no handler matches; the copy is then empty, so that it
/// stays in bounds.
fn load_selector<'a>(builder: &mut FunctionBuilder<'a>) -> (r: (ValueId, ValueId, ValueId, ValueId))
    requires
        old(builder).wf(),
    ensures
        final(builder).wf(),
        (final(builder)@, r) == selector_loaded(old(builder)@),
        has_value(final(builder)@.func, r.0),
        has_value(final(builder)@.func, r.1),
        has_value(final(builder)@.func, r.2),
        has_value(final(builder)@.func, r.3),
        extends(old(builder)@, final(builder)@),
        *final(final(builder).func) == *final(old(builder).func),
{
    broadcast use group_builder_steps;

    proof {
        reveal(selector_loaded);
    }
    let size = builder.returndatasize();
    let four = builder.imm_u64(4);
    let zero = builder.imm_u64(0);
    let too_short = builder.lt(size, four);
    let has_selector = builder.iszero(too_short);
    builder.mstore(zero, zero);
    let copy_size = builder.select(has_selector, four, zero);
    builder.returndatacopy(zero, zero, copy_size);
    let data = builder.mload(zero);
    let shift = builder.imm_u64(224);
    let selector = builder.shr(shift, data);
    (size, four, has_selector, selector)
}

/// What the handlers of a try statement share.
#[verifier::opaque]
pub open spec fn handlers_begun(b: BuilderView) -> (BuilderView, Handlers) {
    let rethrow = next_block(b.func);
    let b = blocked(b);
    let (b, (size, four, has_selector, selector)) = selector_loaded(b);
    let fallback = next_block(b.func);
    (blocked(b), Handlers { rethrow, size, four, has_selector, selector, fallback })
}

/// Starts the handlers of a try statement.
pub fn begin_handlers<'a>(builder: &mut FunctionBuilder<'a>) -> (r: Handlers)
    requires
        old(builder).wf(),
    ensures
        final(builder).wf(),
        (final(builder)@, r) == handlers_begun(old(builder)@),
        has_handlers(final(builder)@, r),
        extends(old(builder)@, final(builder)@),
        *final(final(builder).func) == *final(old(builder).func),
{
    broadcast use group_builder_steps;

    proof {
        reveal(handlers_begun);
    }
    let rethrow = builder.create_block();
    let (size, four, has_selector, selector) = load_selector(builder);
    let fallback = builder.create_block();
    Handlers { rethrow, size, four, has_selector, selector, fallback }
}

/// The selector of `Error(string)`.
pub const ERROR_SELECTOR: u64 = 0x08c379a0;

/// The selector of `Panic(uint256)`.
pub const PANIC_SELECTOR: u64 = 0x4e487b71;

/// The branch to a handler.
#[verifier::opaque]
pub open spec fn handler_entered(b: BuilderView, condition: ValueId) -> (BuilderView, BlockId) {
    let body = next_block(b.func);
    let b = blocked(b);
    let next = next_block(b.func);
    let b = blocked(b);
    let b = ended(b, TermView::Branch { condition: condition, then_block: body, else_block: next });
    let b = moved(b, body);
    (b, next)
}

/// Branches to a handler. Returns where the next one starts.
fn enter_handler<'a>(builder: &mut FunctionBuilder<'a>, condition: ValueId) -> (r: BlockId)
    requires
        old(builder).wf(),
        has_value(old(builder)@.func, condition),
    ensures
        final(builder).wf(),
        (final(builder)@, r) == handler_entered(old(builder)@, condition),
        has_block(final(builder)@.func, r),
        extends(old(builder)@, final(builder)@),
        *final(final(builder).func) == *final(old(builder).func),
{
    broadcast use group_builder_steps;

    proof {
        reveal(handler_entered);
    }
    let body = builder.create_block();
    let next = builder.create_block();
    builder.branch(condition, body, next);
    builder.switch_to_block(body);
    next
}

/// The branch to the handler of `Error(string)`.
#[verifier::opaque]
pub open spec fn error_handler_begun(
    b: BuilderView,
    selector: ValueId,
    has_selector: ValueId,
) -> (BuilderView, BlockId) {
    let error_selector = next_value(b.func);
    let b = constant(b, word(ERROR_SELECTOR));
    let is_error = next_value(b.func);
    let b = emitted(b, inst(Op::Eq, seq![selector, error_selector]), Some(MirType::Bool));
    let matched = next_value(b.func);
    let b = emitted(b, inst(Op::And, seq![is_error, has_selector]), Some(MirType::uint256()));
    let (b, next) = handler_entered(b, matched);
    (b, next)
}

/// Starts the handler of `Error(string)`. Returns where the next handler starts.
pub fn begin_error_handler<'a>(
    builder: &mut FunctionBuilder<'a>,
    selector: ValueId,
    has_selector: ValueId,
) -> (r: BlockId)
    requires
        old(builder).wf(),
        has_value(old(builder)@.func, selector),
        has_value(old(builder)@.func, has_selector),
    ensures
        final(builder).wf(),
        (final(builder)@, r) == error_handler_begun(old(builder)@, selector, has_selector),
        has_block(final(builder)@.func, r),
        extends(old(builder)@, final(builder)@),
        *final(final(builder).func) == *final(old(builder).func),
{
    broadcast use group_builder_steps;

    proof {
        reveal(error_handler_begun);
    }
    let error_selector = builder.imm_u64(ERROR_SELECTOR);
    let is_error = builder.eq(selector, error_selector);
    let matched = builder.and(is_error, has_selector);
    let next = enter_handler(builder, matched);
    next
}

/// The region behind the selector of the returned data.
#[verifier::opaque]
pub open spec fn error_region_of(b: BuilderView, ptr: ValueId, four: ValueId) -> (
    BuilderView,
    (ValueId, ValueId, ValueId, ValueId),
) {
    let len = next_value(b.func);
    let b = emitted(
        b,
        inst(Op::MemoryObjectLen { kind: MemoryObjectKind::Bytes }, seq![ptr]),
        Some(MirType::uint256()),
    );
    let data = next_value(b.func);
    let b = emitted(
        b,
        inst(Op::MemoryObjectData { kind: MemoryObjectKind::Bytes }, seq![ptr]),
        Some(MirType::MemPtr),
    );
    let region_base = next_value(b.func);
    let b = emitted(b, inst(Op::Add, seq![data, four]), Some(MirType::uint256()));
    let region_len = next_value(b.func);
    let b = emitted(b, inst(Op::Sub, seq![len, four]), Some(MirType::uint256()));
    let head = next_value(b.func);
    let b = emitted(b, inst(Op::MLoad, seq![region_base]), Some(MirType::uint256()));
    let one_word = next_value(b.func);
    let b = constant(b, word(32));
    (b, (region_base, region_len, one_word, head))
}

/// Returns the region behind the selector of the returned data, its length, the
/// size of its heads and its head word.
pub fn error_region<'a>(
    builder: &mut FunctionBuilder<'a>,
    ptr: ValueId,
    four: ValueId,
) -> (r: (ValueId, ValueId, ValueId, ValueId))
    requires
        old(builder).wf(),
        has_value(old(builder)@.func, ptr),
        has_value(old(builder)@.func, four),
    ensures
        final(builder).wf(),
        (final(builder)@, r) == error_region_of(old(builder)@, ptr, four),
        has_value(final(builder)@.func, r.0),
        has_value(final(builder)@.func, r.1),
        has_value(final(builder)@.func, r.2),
        has_value(final(builder)@.func, r.3),
        extends(old(builder)@, final(builder)@),
        *final(final(builder).func) == *final(old(builder).func),
{
    broadcast use group_builder_steps;

    proof {
        reveal(error_region_of);
    }
    let len = builder.memory_object_len(ptr, MemoryObjectKind::Bytes);
    let data = builder.memory_object_data(ptr, MemoryObjectKind::Bytes);
    let region_base = builder.add(data, four);
    let region_len = builder.sub(len, four);
    let head = builder.mload(region_base);
    let one_word = builder.imm_u64(32);
    (region_base, region_len, one_word, head)
}

/// Whether the returned data is a complete `Panic(uint256)`.
#[verifier::opaque]
pub open spec fn panic_matched(
    b: BuilderView,
    size: ValueId,
    has_selector: ValueId,
    selector: ValueId,
) -> (BuilderView, ValueId) {
    let panic_selector = next_value(b.func);
    let b = constant(b, word(PANIC_SELECTOR));
    let is_panic = next_value(b.func);
    let b = emitted(b, inst(Op::Eq, seq![selector, panic_selector]), Some(MirType::Bool));
    let matched = next_value(b.func);
    let b = emitted(b, inst(Op::And, seq![is_panic, has_selector]), Some(MirType::uint256()));
    let thirty_six = next_value(b.func);
    let b = constant(b, word(36));
    let panic_short = next_value(b.func);
    let b = emitted(b, inst(Op::Lt, seq![size, thirty_six]), Some(MirType::Bool));
    let long_enough = next_value(b.func);
    let b = emitted(b, inst(Op::IsZero, seq![panic_short]), Some(MirType::Bool));
    let complete = next_value(b.func);
    let b = emitted(b, inst(Op::And, seq![matched, long_enough]), Some(MirType::uint256()));
    (b, complete)
}

/// Returns whether the returned data is a complete `Panic(uint256)`.
fn match_panic<'a>(
    builder: &mut FunctionBuilder<'a>,
    size: ValueId,
    has_selector: ValueId,
    selector: ValueId,
) -> (r: ValueId)
    requires
        old(builder).wf(),
        has_value(old(builder)@.func, size),
        has_value(old(builder)@.func, has_selector),
        has_value(old(builder)@.func, selector),
    ensures
        final(builder).wf(),
        (final(builder)@, r) == panic_matched(old(builder)@, size, has_selector, selector),
        has_value(final(builder)@.func, r),
        extends(old(builder)@, final(builder)@),
        *final(final(builder).func) == *final(old(builder).func),
{
    broadcast use group_builder_steps;

    proof {
        reveal(panic_matched);
    }
    let panic_selector = builder.imm_u64(PANIC_SELECTOR);
    let is_panic = builder.eq(selector, panic_selector);
    let matched = builder.and(is_panic, has_selector);
    let thirty_six = builder.imm_u64(36);
    let panic_short = builder.lt(size, thirty_six);
    let long_enough = builder.iszero(panic_short);
    let complete = builder.and(matched, long_enough);
    complete
}

/// The branch to the handler of `Panic(uint256)`, and the code.
#[verifier::opaque]
pub open spec fn panic_handler_begun(
    b: BuilderView,
    size: ValueId,
    four: ValueId,
    has_selector: ValueId,
    selector: ValueId,
) -> (BuilderView, (ValueId, BlockId)) {
    let (b, matched) = panic_matched(b, size, has_selector, selector);
    let (b, next) = handler_entered(b, matched);
    let zero = next_value(b.func);
    let b = constant(b, word(0));
    let one_word = next_value(b.func);
    let b = constant(b, word(32));
    let b = emitted(b, inst(Op::ReturnDataCopy, seq![zero, four, one_word]), None);
    let code = next_value(b.func);
    let b = emitted(b, inst(Op::MLoad, seq![zero]), Some(MirType::uint256()));
    (b, (code, next))
}

/// Starts the handler of `Panic(uint256)`. Returns the code and where the next
/// handler starts.
pub fn begin_panic_handler<'a>(
    builder: &mut FunctionBuilder<'a>,
    size: ValueId,
    four: ValueId,
    has_selector: ValueId,
    selector: ValueId,
) -> (r: (ValueId, BlockId))
    requires
        old(builder).wf(),
        has_value(old(builder)@.func, size),
        has_value(old(builder)@.func, four),
        has_value(old(builder)@.func, has_selector),
        has_value(old(builder)@.func, selector),
    ensures
        final(builder).wf(),
        (final(builder)@, r) == panic_handler_begun(
            old(builder)@,
            size,
            four,
            has_selector,
            selector,
        ),
        has_value(final(builder)@.func, r.0),
        has_block(final(builder)@.func, r.1),
        extends(old(builder)@, final(builder)@),
        *final(final(builder).func) == *final(old(builder).func),
{
    broadcast use group_builder_steps;

    proof {
        reveal(panic_handler_begun);
    }
    let matched = match_panic(builder, size, has_selector, selector);
    let next = enter_handler(builder, matched);
    let zero = builder.imm_u64(0);
    let one_word = builder.imm_u64(32);
    builder.returndatacopy(zero, four, one_word);
    let code = builder.mload(zero);
    (code, next)
}

/// The builder at the handler of everything else.
#[verifier::opaque]
pub open spec fn fallback_begun(b: BuilderView, fallback: BlockId) -> BuilderView {
    let b = ended(b, TermView::Jump(fallback));
    let b = moved(b, fallback);
    b
}

/// Starts the handler of everything else.
pub fn begin_fallback<'a>(builder: &mut FunctionBuilder<'a>, fallback: BlockId)
    requires
        old(builder).wf(),
        has_block(old(builder)@.func, fallback),
    ensures
        final(builder).wf(),
        final(builder)@ == fallback_begun(old(builder)@, fallback),
        extends(old(builder)@, final(builder)@),
        *final(final(builder).func) == *final(old(builder).func),
{
    broadcast use group_builder_steps;

    proof {
        reveal(fallback_begun);
    }
    builder.jump(fallback);
    builder.switch_to_block(fallback);
}

/// The builder after passing the failure on.
#[verifier::opaque]
pub open spec fn rethrown(b: BuilderView, rethrow_block: BlockId) -> BuilderView {
    let b = moved(b, rethrow_block);
    let zero = next_value(b.func);
    let b = constant(b, word(0));
    let size = next_value(b.func);
    let b = emitted(b, inst(Op::ReturnDataSize, seq![]), Some(MirType::uint256()));
    let b = emitted(b, inst(Op::ReturnDataCopy, seq![zero, zero, size]), None);
    let b = ended(b, TermView::Revert { offset: zero, size: size });
    b
}

/// Passes the failure on unchanged.
pub fn rethrow<'a>(builder: &mut FunctionBuilder<'a>, rethrow_block: BlockId)
    requires
        old(builder).wf(),
        has_block(old(builder)@.func, rethrow_block),
    ensures
        final(builder).wf(),
        final(builder)@ == rethrown(old(builder)@, rethrow_block),
        extends(old(builder)@, final(builder)@),
        *final(final(builder).func) == *final(old(builder).func),
{
    broadcast use group_builder_steps;

    proof {
        reveal(rethrown);
    }
    builder.switch_to_block(rethrow_block);
    let zero = builder.imm_u64(0);
    let size = builder.returndatasize();
    builder.returndatacopy(zero, zero, size);
    builder.revert(zero, size);
}

/// Which handlers a try statement has: the last of each kind counts.
#[derive(Clone, Copy, Debug, PartialEq, Eq, Structural)]
pub struct Clauses {
    /// The handler of `Error(string)`.
    pub error: Option<usize>,
    /// The handler of `Panic(uint256)`.
    pub panic: Option<usize>,
    /// The handler of everything else.
    pub fallback: Option<usize>,
}

/// Whether a handler is named like this.
pub open spec fn is_named(clause: TryClause, name: Seq<char>) -> bool {
    clause.name matches Some(ident) && ident.text@ == name
}

/// The handlers among the first `count` clauses. The first clause is that of
/// success.
pub open spec fn clauses_of(clauses: Seq<TryClause>, count: nat) -> Clauses
    decreases count,
{
    if count <= 1 {
        Clauses { error: None, panic: None, fallback: None }
    } else {
        let front = clauses_of(clauses, (count - 1) as nat);
        let clause = clauses[count - 1];
        if is_named(clause, "Error"@) {
            Clauses { error: Some((count - 1) as usize), ..front }
        } else if is_named(clause, "Panic"@) {
            Clauses { panic: Some((count - 1) as usize), ..front }
        } else if clause.name is None {
            Clauses { fallback: Some((count - 1) as usize), ..front }
        } else {
            front
        }
    }
}

/// Sorts the handlers of a try statement.
pub fn classify_clauses(clauses: &Vec<TryClause>) -> (r: Clauses)
    ensures
        r == clauses_of(clauses@, clauses@.len()),
        r.error matches Some(index) ==> index < clauses@.len(),
        r.panic matches Some(index) ==> index < clauses@.len(),
        r.fallback matches Some(index) ==> index < clauses@.len(),
{
    let mut found = Clauses { error: None, panic: None, fallback: None };
    let mut i: usize = 1;
    while i < clauses.len()
        invariant
            1 <= i,
            i <= clauses@.len() || i == 1,
            found == clauses_of(clauses@, i as nat),
            found.error matches Some(index) ==> index < i && index < clauses@.len(),
            found.panic matches Some(index) ==> index < i && index < clauses@.len(),
            found.fallback matches Some(index) ==> index < i && index < clauses@.len(),
        decreases clauses@.len() - i,
    {
        match &clauses[i].name {
            Some(name) => {
                if text_is(&name.text, "Error") {
                    found = Clauses { error: Some(i), ..found };
                } else if text_is(&name.text, "Panic") {
                    found = Clauses { panic: Some(i), ..found };
                }
            },
            None => {
                found = Clauses { fallback: Some(i), ..found };
            },
        }
        i = i + 1;
    }
    found
}

/// How many topics an event has besides its indexed values: the hash of its
/// signature, unless it is anonymous.
pub open spec fn leading_topics(event: Event) -> nat {
    if event.anonymous {
        0
    } else {
        1
    }
}

/// Returns how many topics an event has besides its indexed values.
pub fn count_leading_topics(event: &Event) -> (r: usize)
    ensures
        r == leading_topics(*event),
        r <= 1,
{
    if event.anonymous {
        0
    } else {
        1
    }
}

/// The values of an event that go into topics: first its signature, unless it is
/// anonymous, then the indexed ones among the first `count` arguments.
pub open spec fn topics_of(hir: Hir, event: Event, values: Seq<ValueId>, count: nat) -> Seq<ValueId>
    decreases count,
{
    if count == 0 {
        values.take(leading_topics(event) as int)
    } else {
        let front = topics_of(hir, event, values, (count - 1) as nat);
        if hir.variables@[event.parameters@[count - 1].0 as int].indexed {
            front.push(values[leading_topics(event) + count - 1])
        } else {
            front
        }
    }
}

/// The values of an event that go into its data.
pub open spec fn data_of(hir: Hir, event: Event, values: Seq<ValueId>, count: nat) -> Seq<ValueId>
    decreases count,
{
    if count == 0 {
        Seq::empty()
    } else {
        let front = data_of(hir, event, values, (count - 1) as nat);
        if hir.variables@[event.parameters@[count - 1].0 as int].indexed {
            front
        } else {
            front.push(values[leading_topics(event) + count - 1])
        }
    }
}

/// Splits the values of an event, of which the first is its signature unless it
/// is anonymous, into topics and data.
pub fn split_event_values(hir: &Hir, event: &Event, values: &Vec<ValueId>) -> (r: (
    Vec<ValueId>,
    Vec<ValueId>,
))
    requires
        has_variables(*hir, event.parameters@),
        leading_topics(*event) <= values@.len() <= event.parameters@.len() + leading_topics(*event),
    ensures
        r.0@ == topics_of(
            *hir,
            *event,
            values@,
            (values@.len() - leading_topics(*event)) as nat,
        ),
        r.1@ == data_of(
            *hir,
            *event,
            values@,
            (values@.len() - leading_topics(*event)) as nat,
        ),
        forall|i: int| 0 <= i < r.0@.len() ==> values@.contains(#[trigger] r.0@[i]),
        forall|i: int| 0 <= i < r.1@.len() ==> values@.contains(#[trigger] r.1@[i]),
{
    let lead = count_leading_topics(event);
    let mut topics: Vec<ValueId> = Vec::new();
    if lead == 1 {
        topics.push(values[0]);
    }
    let mut data: Vec<ValueId> = Vec::new();
    let mut i: usize = lead;
    assert(topics@ =~= topics_of(*hir, *event, values@, 0));
    assert(data@ =~= data_of(*hir, *event, values@, 0));
    while i < values.len()
        invariant
            lead == leading_topics(*event),
            lead <= i <= values@.len(),
            has_variables(*hir, event.parameters@),
            values@.len() <= event.parameters@.len() + lead,
            topics@ == topics_of(*hir, *event, values@, (i - lead) as nat),
            data@ == data_of(*hir, *event, values@, (i - lead) as nat),
            forall|k: int| 0 <= k < topics@.len() ==> values@.contains(#[trigger] topics@[k]),
            forall|k: int| 0 <= k < data@.len() ==> values@.contains(#[trigger] data@[k]),
        decreases values@.len() - i,
    {
        assert(event.parameters@[i - lead].0 < hir.variables@.len());
        assert(values@.contains(values@[i as int]));
        if hir.variables[event.parameters[i - lead].0].indexed {
            topics.push(values[i]);
        } else {
            data.push(values[i]);
        }
        i = i + 1;
    }
    (topics, data)
}

/// The builder after storing the first `count` words of the data of an event.
#[verifier::opaque]
pub open spec fn event_words_stored(b: BuilderView, data: Seq<ValueId>, count: nat) -> BuilderView
    decreases count,
{
    if count == 0 {
        b
    } else {
        let b = event_words_stored(b, data, (count - 1) as nat);
        let offset = next_value(b.func);
        let b = constant(b, word(((count - 1) * 32) as u64));
        emitted(b, inst(Op::MStore, seq![offset, data[count - 1]]), None)
    }
}

/// The data of an event, one word each: where it is and how long it is.
pub open spec fn event_data(b: BuilderView, data: Seq<ValueId>) -> (
    BuilderView,
    (ValueId, ValueId),
) {
    let start = next_value(b.func);
    let b = event_words_stored(constant(b, word(0)), data, data.len());
    (constant(b, word((data.len() * 32) as u64)), (start, next_value(b.func)))
}

/// Stores the data of an event, one word each. Returns where it is and how long
/// it is.
pub fn store_event_data<'a>(builder: &mut FunctionBuilder<'a>, data: &Vec<ValueId>) -> (r: (
    ValueId,
    ValueId,
))
    requires
        old(builder).wf(),
        has_values(old(builder)@.func, data@),
        data@.len() * 32 <= u64::MAX,
    ensures
        final(builder).wf(),
        (final(builder)@, r) == event_data(old(builder)@, data@),
        has_value(final(builder)@.func, r.0),
        has_value(final(builder)@.func, r.1),
        extends(old(builder)@, final(builder)@),
        *final(final(builder).func) == *final(old(builder).func),
{
    broadcast use group_builder_steps;

    proof {
        reveal(event_words_stored);
    }
    let start = builder.imm_u64(0);
    let ghost begin = builder@;
    let mut i: usize = 0;
    while i < data.len()
        invariant
            i <= data@.len(),
            data@.len() * 32 <= u64::MAX,
            builder.wf(),
            has_values(old(builder)@.func, data@),
            has_value(begin.func, start),
            extends(old(builder)@, begin),
            extends(begin, builder@),
            builder@ == event_words_stored(begin, data@, i as nat),
            *final(builder.func) == *final(old(builder).func),
        decreases data@.len() - i,
    {
        broadcast use group_builder_steps;

        proof {
            reveal(event_words_stored);
            assert(has_value(old(builder)@.func, data@[i as int]));
        }
        let offset = builder.imm_u64(i as u64 * 32);
        builder.mstore(offset, data[i]);
        i = i + 1;
    }
    let size = builder.imm_u64(data.len() as u64 * 32);
    (start, size)
}

/// The instruction that logs an event, if it has at most four topics.
pub open spec fn logged(
    b: BuilderView,
    offset: ValueId,
    size: ValueId,
    topics: Seq<ValueId>,
) -> BuilderView {
    let operands = seq![offset, size] + topics;
    if topics.len() == 0 {
        emitted(b, inst(Op::Log0, operands), None)
    } else if topics.len() == 1 {
        emitted(b, inst(Op::Log1, operands), None)
    } else if topics.len() == 2 {
        emitted(b, inst(Op::Log2, operands), None)
    } else if topics.len() == 3 {
        emitted(b, inst(Op::Log3, operands), None)
    } else if topics.len() == 4 {
        emitted(b, inst(Op::Log4, operands), None)
    } else {
        b
    }
}

/// Logs an event. More than four topics are not supported by the machine.
pub fn emit_log<'a>(
    builder: &mut FunctionBuilder<'a>,
    offset: ValueId,
    size: ValueId,
    topics: &Vec<ValueId>,
)
    requires
        old(builder).wf(),
        has_value(old(builder)@.func, offset),
        has_value(old(builder)@.func, size),
        has_values(old(builder)@.func, topics@),
    ensures
        final(builder).wf(),
        final(builder)@ == logged(old(builder)@, offset, size, topics@),
        extends(old(builder)@, final(builder)@),
        *final(final(builder).func) == *final(old(builder).func),
{
    broadcast use group_builder_steps;

    let count: usize = topics.len();
    let ghost operands = seq![offset, size] + topics@;
    if count == 0 {
        assert(operands =~= seq![offset, size]);
        builder.log0(offset, size);
    } else if count == 1 {
        assert(has_value(old(builder)@.func, topics@[0]));
        assert(operands =~= seq![offset, size, topics@[0]]);
        builder.log1(offset, size, topics[0]);
    } else if count == 2 {
        assert(has_value(old(builder)@.func, topics@[0]));
        assert(has_value(old(builder)@.func, topics@[1]));
        assert(operands =~= seq![offset, size, topics@[0], topics@[1]]);
        builder.log2(offset, size, topics[0], topics[1]);
    } else if count == 3 {
        assert(has_value(old(builder)@.func, topics@[0]));
        assert(has_value(old(builder)@.func, topics@[1]));
        assert(has_value(old(builder)@.func, topics@[2]));
        assert(operands =~= seq![offset, size, topics@[0], topics@[1], topics@[2]]);
        builder.log3(offset, size, topics[0], topics[1], topics[2]);
    } else if count == 4 {
        assert(has_value(old(builder)@.func, topics@[0]));
        assert(has_value(old(builder)@.func, topics@[1]));
        assert(has_value(old(builder)@.func, topics@[2]));
        assert(has_value(old(builder)@.func, topics@[3]));
        assert(operands =~= seq![offset, size, topics@[0], topics@[1], topics@[2], topics@[3]]);
        builder.log4(offset, size, topics[0], topics[1], topics[2], topics[3]);
    }
}

/// The word with a selector in its highest bytes.
pub open spec fn selector_word(selector: u32) -> U256 {
    word_of((selector as nat * vstd::arithmetic::power2::pow2(224)) % word_modulus())
}

/// Returns the word with a selector in its highest bytes.
pub fn word_of_selector(selector: u32) -> (r: U256)
    ensures
        r == selector_word(selector),
{
    let r = U256::from_u64(selector as u64).shl(224);
    proof {
        lemma_word_of(r);
    }
    r
}

/// The builder after writing the first `count` arguments of a call.
#[verifier::opaque]
pub open spec fn arguments_written(b: BuilderView, args: Seq<ValueId>, count: nat) -> BuilderView
    decreases count,
{
    if count == 0 {
        b
    } else {
        let b = arguments_written(b, args, (count - 1) as nat);
        let offset = next_value(b.func);
        let b = constant(b, word((4 + (count - 1) * 32) as u64));
        emitted(b, inst(Op::MStore, seq![offset, args[count - 1]]), None)
    }
}

/// The operands of a call of a member function, in the order in which they are
/// made.
#[derive(Clone, Copy, Debug, PartialEq, Eq, Structural)]
pub struct CallOperands {
    /// The size of the call data.
    pub calldata_size: ValueId,
    /// Where the call data is.
    pub args_offset: ValueId,
    /// Where the returned words go.
    pub ret_offset: ValueId,
    /// The size of the returned words.
    pub ret_size: ValueId,
    /// The gas for the call.
    pub gas: ValueId,
}

/// Whether the operands of a call exist.
pub open spec fn has_operands(b: BuilderView, operands: CallOperands) -> bool {
    &&& has_value(b.func, operands.calldata_size)
    &&& has_value(b.func, operands.args_offset)
    &&& has_value(b.func, operands.ret_offset)
    &&& has_value(b.func, operands.ret_size)
    &&& has_value(b.func, operands.gas)
}

/// The builder after writing the selector of a call.
#[verifier::opaque]
pub open spec fn selector_written(b: BuilderView, selector: u32) -> BuilderView {
    let selector_val = next_value(b.func);
    let b = constant(b, selector_word(selector));
    let start = next_value(b.func);
    let b = constant(b, word(0));
    let b = emitted(b, inst(Op::MStore, seq![start, selector_val]), None);
    b
}

/// Writes the selector of a call.
fn write_selector<'a>(builder: &mut FunctionBuilder<'a>, selector: u32)
    requires
        old(builder).wf(),
    ensures
        final(builder).wf(),
        final(builder)@ == selector_written(old(builder)@, selector),
        extends(old(builder)@, final(builder)@),
        *final(final(builder).func) == *final(old(builder).func),
{
    broadcast use group_builder_steps;

    proof {
        reveal(selector_written);
    }
    let selector_val = builder.imm_u256(word_of_selector(selector));
    let start = builder.imm_u64(0);
    builder.mstore(start, selector_val);
}

/// The operands of a call.
#[verifier::opaque]
pub open spec fn call_framed(b: BuilderView, calldata_bytes: u64, return_bytes: u64) -> (
    BuilderView,
    (ValueId, ValueId, ValueId, ValueId, ValueId),
) {
    let calldata_size = next_value(b.func);
    let b = constant(b, word(calldata_bytes));
    let args_offset = next_value(b.func);
    let b = constant(b, word(0));
    let ret_offset = next_value(b.func);
    let b = constant(b, word(0));
    let ret_size = next_value(b.func);
    let b = constant(b, word(return_bytes));
    let gas = next_value(b.func);
    let b = emitted(b, inst(Op::Gas, seq![]), Some(MirType::uint256()));
    (b, (calldata_size, args_offset, ret_offset, ret_size, gas))
}

/// Makes the operands of a call.
fn frame_call<'a>(
    builder: &mut FunctionBuilder<'a>,
    calldata_bytes: u64,
    return_bytes: u64,
) -> (r: (ValueId, ValueId, ValueId, ValueId, ValueId))
    requires
        old(builder).wf(),
    ensures
        final(builder).wf(),
        (final(builder)@, r) == call_framed(old(builder)@, calldata_bytes, return_bytes),
        has_value(final(builder)@.func, r.0),
        has_value(final(builder)@.func, r.1),
        has_value(final(builder)@.func, r.2),
        has_value(final(builder)@.func, r.3),
        has_value(final(builder)@.func, r.4),
        extends(old(builder)@, final(builder)@),
        *final(final(builder).func) == *final(old(builder).func),
{
    broadcast use group_builder_steps;

    proof {
        reveal(call_framed);
    }
    let calldata_size = builder.imm_u64(calldata_bytes);
    let args_offset = builder.imm_u64(0);
    let ret_offset = builder.imm_u64(0);
    let ret_size = builder.imm_u64(return_bytes);
    let gas = builder.gas();
    (calldata_size, args_offset, ret_offset, ret_size, gas)
}

/// A call of a member function, up to the value that is sent along.
#[verifier::opaque]
pub open spec fn member_call_begun(
    b: BuilderView,
    selector: u32,
    args: Seq<ValueId>,
    returned: u64,
) -> (BuilderView, CallOperands) {
    let b = selector_written(b, selector);
    let b = arguments_written(b, args, args.len());
    let (b, (calldata_size, args_offset, ret_offset, ret_size, gas)) = call_framed(
        b,
        (4 + args.len() * 32) as u64,
        (returned * 32) as u64,
    );
    (b, CallOperands { calldata_size, args_offset, ret_offset, ret_size, gas })
}

/// Writes the call data of a member function and makes the operands of the
/// call, up to the value that is sent along.
pub fn begin_member_call<'a>(
    builder: &mut FunctionBuilder<'a>,
    selector: u32,
    args: &Vec<ValueId>,
    returned: u64,
) -> (r: CallOperands)
    requires
        old(builder).wf(),
        has_values(old(builder)@.func, args@),
        4 + args@.len() * 32 <= usize::MAX,
        returned * 32 <= u64::MAX,
    ensures
        final(builder).wf(),
        (final(builder)@, r) == member_call_begun(old(builder)@, selector, args@, returned),
        has_operands(final(builder)@, r),
        extends(old(builder)@, final(builder)@),
        *final(final(builder).func) == *final(old(builder).func),
{
    proof {
        reveal(member_call_begun);
        reveal(arguments_written);
    }
    write_selector(builder, selector);
    let ghost begin = builder@;
    let mut i: usize = 0;
    while i < args.len()
        invariant
            i <= args@.len(),
            4 + args@.len() * 32 <= usize::MAX,
            builder.wf(),
            has_values(old(builder)@.func, args@),
            extends(old(builder)@, begin),
            extends(begin, builder@),
            builder@ == arguments_written(begin, args@, i as nat),
            *final(builder.func) == *final(old(builder).func),
        decreases args@.len() - i,
    {
        broadcast use group_builder_steps;

        proof {
            reveal(arguments_written);
            assert(has_value(old(builder)@.func, args@[i as int]));
        }
        let offset = builder.imm_u64(4 + i as u64 * 32);
        builder.mstore(offset, args[i]);
        i = i + 1;
    }
    let calldata_bytes: u64 = (4 + args.len() * 32) as u64;
    let (calldata_size, args_offset, ret_offset, ret_size, gas) = frame_call(
        builder,
        calldata_bytes,
        returned * 32,
    );
    CallOperands { calldata_size, args_offset, ret_offset, ret_size, gas }
}

/// A call of a member function: whether it succeeded.
pub open spec fn member_called(
    b: BuilderView,
    operands: CallOperands,
    addr: ValueId,
    value: ValueId,
) -> (BuilderView, ValueId) {
    (
        emitted(
            b,
            inst(
                Op::Call,
                seq![
                    operands.gas,
                    addr,
                    value,
                    operands.args_offset,
                    operands.calldata_size,
                    operands.ret_offset,
                    operands.ret_size,
                ],
            ),
            Some(MirType::uint256()),
        ),
        next_value(b.func),
    )
}

/// Calls a member function. Returns whether it succeeded.
pub fn finish_member_call<'a>(
    builder: &mut FunctionBuilder<'a>,
    operands: CallOperands,
    addr: ValueId,
    value: ValueId,
) -> (r: ValueId)
    requires
        old(builder).wf(),
        has_operands(old(builder)@, operands),
        has_value(old(builder)@.func, addr),
        has_value(old(builder)@.func, value),
    ensures
        final(builder).wf(),
        (final(builder)@, r) == member_called(old(builder)@, operands, addr, value),
        has_value(final(builder)@.func, r),
        extends(old(builder)@, final(builder)@),
        *final(final(builder).func) == *final(old(builder).func),
{
    broadcast use group_builder_steps;

    builder.call(
        operands.gas,
        addr,
        value,
        operands.args_offset,
        operands.calldata_size,
        operands.ret_offset,
        operands.ret_size,
    )
}

/// The blocks of a switch.
#[verifier::ext_equal]
pub struct SwitchView {
    /// Where control goes if no case matches.
    pub default: BlockId,
    /// The constants and their blocks.
    pub cases: Seq<(ValueId, BlockId)>,
    /// The block of every case.
    pub bodies: Seq<BlockId>,
    /// The complaints that are made.
    pub complaints: Seq<(Span, Complaint)>,
}

/// The value of a literal, and the complaint that it makes.
pub open spec fn literal_or_error(b: BuilderView, lit: Lit, span: Span) -> (
    BuilderView,
    ValueId,
    Seq<(Span, Complaint)>,
) {
    match literal(b, lit) {
        Ok((b, value)) => (b, value, Seq::empty()),
        Err(complaint) => {
            let (b, value) = error_emitted(b);
            (b, value, seq![(span, complaint)])
        },
    }
}

/// The first `count` cases of a switch.
#[verifier::opaque]
pub open spec fn cases_begun(
    b: BuilderView,
    merge: BlockId,
    cases: Seq<SwitchCase>,
    count: nat,
) -> (BuilderView, SwitchView)
    decreases count,
{
    if count == 0 {
        (
            b,
            SwitchView {
                default: merge,
                cases: Seq::empty(),
                bodies: Seq::empty(),
                complaints: Seq::empty(),
            },
        )
    } else {
        let (b, front) = cases_begun(b, merge, cases, (count - 1) as nat);
        let block = next_block(b.func);
        let b = blocked(b);
        let front = SwitchView { bodies: front.bodies.push(block), ..front };
        match cases[count - 1].constant {
            Some(lit) => {
                let (b, value, complaints) = literal_or_error(
                    b,
                    lit,
                    cases[count - 1].constant_span,
                );
                (
                    b,
                    SwitchView {
                        cases: front.cases.push((value, block)),
                        complaints: front.complaints + complaints,
                        ..front
                    },
                )
            },
            None => (b, SwitchView { default: block, ..front }),
        }
    }
}

/// The start of a switch: the block where the cases meet, and the blocks of the
/// cases.
pub open spec fn switch_begun(b: BuilderView, selector: ValueId, cases: Seq<SwitchCase>) -> (
    BuilderView,
    BlockId,
    SwitchView,
) {
    let merge = next_block(b.func);
    let (b, view) = cases_begun(blocked(b), merge, cases, cases.len());
    (
        ended(
            b,
            TermView::Switch { value: selector, default: view.default, cases: view.cases },
        ),
        merge,
        view,
    )
}

/// Whether the addresses among the constants of cases are words.
pub open spec fn constants_fit(cases: Seq<SwitchCase>) -> bool {
    forall|i: int|
        0 <= i < cases.len() ==> ((#[trigger] cases[i]).constant matches Some(Lit::Address(bytes))
            ==> bytes@.len() <= 32)
}

impl Lowerer {
    /// Starts a switch: creates a block for every case and branches to them.
    /// Returns the block where the cases meet and the blocks of the cases.
    pub fn begin_switch<'a>(
        &mut self,
        builder: &mut FunctionBuilder<'a>,
        selector: ValueId,
        cases: &Vec<SwitchCase>,
    ) -> (r: (BlockId, Vec<BlockId>))
        requires
            old(builder).wf(),
            has_value(old(builder)@.func, selector),
            constants_fit(cases@),
        ensures
            final(builder).wf(),
            final(builder)@ == switch_begun(old(builder)@, selector, cases@).0,
            r.0 == switch_begun(old(builder)@, selector, cases@).1,
            r.1@ == switch_begun(old(builder)@, selector, cases@).2.bodies,
            r.1@.len() == cases@.len(),
            has_block(final(builder)@.func, r.0),
            has_blocks(final(builder)@.func, r.1@),
            *final(self) == (Lowerer { complaints: final(self).complaints, ..*old(self) }),
            final(self).complaints@ == old(self).complaints@ + switch_begun(
                old(builder)@,
                selector,
                cases@,
            ).2.complaints,
            extends(old(builder)@, final(builder)@),
            *final(final(builder).func) == *final(old(builder).func),
    {
        broadcast use group_builder_steps;

        proof {
            reveal(cases_begun);
        }
        let merge = builder.create_block();
        let ghost begin = builder@;
        let mut default = merge;
        let mut pairs: Vec<(ValueId, BlockId)> = Vec::new();
        let mut bodies: Vec<BlockId> = Vec::new();
        let mut i: usize = 0;
        assert(pairs@ =~= Seq::<(ValueId, BlockId)>::empty());
        assert(bodies@ =~= Seq::<BlockId>::empty());
        assert(self.complaints@ =~= old(self).complaints@ + Seq::<(Span, Complaint)>::empty());
        while i < cases.len()
            invariant
                i <= cases@.len(),
                builder.wf(),
                has_value(old(builder)@.func, selector),
                constants_fit(cases@),
                has_block(begin.func, merge),
                extends(old(builder)@, begin),
                extends(begin, builder@),
                has_block(builder@.func, default),
                has_blocks(builder@.func, bodies@),
                bodies@.len() == i,
                forall|k: int|
                    0 <= k < pairs@.len() ==> has_value(
                        builder@.func,
                        (#[trigger] pairs@[k]).0,
                    ) && has_block(builder@.func, pairs@[k].1),
                builder@ == cases_begun(begin, merge, cases@, i as nat).0,
                default == cases_begun(begin, merge, cases@, i as nat).1.default,
                pairs@ == cases_begun(begin, merge, cases@, i as nat).1.cases,
                bodies@ == cases_begun(begin, merge, cases@, i as nat).1.bodies,
                *self == (Lowerer { complaints: self.complaints, ..*old(self) }),
                self.complaints@ == old(self).complaints@ + cases_begun(
                    begin,
                    merge,
                    cases@,
                    i as nat,
                ).1.complaints,
                *final(builder.func) == *final(old(builder).func),
            decreases cases@.len() - i,
        {
            broadcast use group_builder_steps;

            proof {
                reveal(cases_begun);
                assert(cases@[i as int].constant matches Some(Lit::Address(bytes))
                    ==> bytes@.len() <= 32);
            }
            let ghost before = builder@;
            let ghost old_pairs = pairs@;
            let ghost old_bodies = bodies@;
            let ghost old_complaints = self.complaints@;
            let block = builder.create_block();
            match &cases[i].constant {
                Some(lit) => {
                    let value = self.lower_literal(builder, lit, cases[i].constant_span);
                    pairs.push((value, block));
                },
                None => {
                    default = block;
                },
            }
            bodies.push(block);
            i = i + 1;
            proof {
                let (b, view) = cases_begun(begin, merge, cases@, i as nat);
                assert(self.complaints@ =~= old(self).complaints@ + view.complaints);
                assert forall|k: int| 0 <= k < bodies@.len() implies has_block(
                    builder@.func,
                    #[trigger] bodies@[k],
                ) by {
                    if k < old_bodies.len() {
                        assert(has_block(before.func, old_bodies[k]));
                    }
                }
                assert forall|k: int| 0 <= k < pairs@.len() implies has_value(
                    builder@.func,
                    (#[trigger] pairs@[k]).0,
                ) && has_block(builder@.func, pairs@[k].1) by {
                    if k < old_pairs.len() {
                        assert(has_value(before.func, old_pairs[k].0));
                    }
                }
            }
        }
        proof {
            let term = TermView::Switch { value: selector, default, cases: pairs@ };
            assert forall|k: int| 0 <= k < term_operands(term).len() implies has_value(
                builder@.func,
                #[trigger] term_operands(term)[k],
            ) by {
                if k > 0 {
                    assert(term_operands(term)[k] == pairs@[k - 1].0);
                }
            }
            assert forall|k: int| 0 <= k < successors_of(term).len() implies has_block(
                builder@.func,
                #[trigger] successors_of(term)[k],
            ) by {
                if k > 0 {
                    assert(successors_of(term)[k] == pairs@[k - 1].1);
                }
            }
        }
        let ghost prepared = builder@;
        builder.switch(selector, default, pairs);
        (merge, bodies)
    }
}

} // verus!
