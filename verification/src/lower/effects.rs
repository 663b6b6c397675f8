//! How many values tasks take from the stack and leave on it, and which
//! constructs they stand in, begin and end.

use crate::hir::Hir;
use crate::lower::handlers::leading_topics;
use crate::lower::machine_attempt::topic_count;
use crate::lower::plan::{Service, Task};
use vstd::prelude::*;

verus! {

/// What work does to the stack: how many values at the top it takes, and how
/// many it leaves in their place.
pub struct Effect {
    /// How many values it takes.
    pub takes: nat,
    /// How many values it leaves.
    pub leaves: nat,
}

/// The effect that takes and leaves so many values.
pub open spec fn of(takes: nat, leaves: nat) -> Effect {
    Effect { takes, leaves }
}

/// What another part of the compiler does to the stack.
pub open spec fn service_effect<'t>(service: Service<'t>) -> Effect {
    match service {
        Service::Operator(_, count, _) => of(count as nat, 1),
        Service::Binary(_, _) | Service::CheckedAdd(_, _) | Service::CheckedSub(_, _)
        | Service::BoundsCheck => of(2, 1),
        Service::Unary(_, _, _) | Service::CalldataBase(_) | Service::OffsetPtr(_)
        | Service::StorageBytes | Service::StorageStruct(_, _) | Service::LoadLocation(_)
        | Service::PanicIfZero(_) | Service::ClearValueAt(_) | Service::CalldataBytes
        | Service::MemorySliceBytes | Service::Materialize(_) | Service::MaterializeMemory(_)
        | Service::AllocateBytes | Service::AllocateArray => of(1, 1),
        Service::Call(_) | Service::Index(_)
        | Service::MemoryBytes(_) | Service::MemoryArray(_) | Service::DeletedValue(_)
        | Service::ElementSlot(_) | Service::ReturndataBytes | Service::TopicHash(_, _)
        | Service::PackedArguments(_) | Service::PackedHash(_)
        | Service::ValueFor(_, _) | Service::CallValue(_) | Service::PointerCall(_)
        | Service::IndexValue(_, _) | Service::ConstructorArgument(_, _) => of(0, 1),
        Service::AssignIndex(_) | Service::StoreLocation(_) | Service::StoreStruct(_, _)
        | Service::ClearStruct(_) | Service::PanicIf(_) => of(1, 0),
        Service::StoreBytes | Service::StoreArray(_) | Service::StoreFixedArray(_, _)
        | Service::StoreValueAt(_) => of(2, 0),
        Service::EncodeData(_, count) => of(count as nat, 2),
        Service::FinishReturn(results) => of(results@.len(), 0),
        Service::FinishCurrent(count) => of(count as nat, 0),
        Service::Bug(_) | Service::UnitCall(_) | Service::FinishItems(_)
        | Service::ReturnItems(_, _) | Service::BaseConstructor(_, _) => of(0, 0),
    }
}

/// What a task, with all the tasks that it stands for, does to the stack.
pub open spec fn effect<'t>(hir: Hir, task: Task<'t>) -> Effect {
    match task {
        Task::Service(service) => service_effect(service),
        // Values.
        Task::Ternary(expr) => if expr.kind is Ternary {
            of(0, 1)
        } else {
            of(0, 0)
        },
        Task::Value(_) | Task::Slot(_) | Task::MemberSlot(_) | Task::MemberSlice(_)
        | Task::TryCall(_) | Task::Constant(_) | Task::Reuse(_) | Task::Literal(_, _)
        | Task::ErrorValue(_) | Task::Complain(_, _) | Task::Builtin(_, _)
        | Task::FunctionPointer(_) | Task::InterfaceId(_, _) | Task::TypeBound(_, _, _)
        | Task::Code(_, _, _) | Task::YulMember(_, _) | Task::LoadVariable(_)
        | Task::LoadSlice(_) | Task::LoadImmutable(_) | Task::DefaultVariable(_, _, _)
        | Task::DefaultResult(_) | Task::Allocate(_, _) | Task::ConstantBytes(_)
        | Task::DynamicStructParam | Task::AggregateParam(_) | Task::FieldParam(_)
        | Task::FixedArrayParam(_, _) | Task::ArrayParam(_) | Task::EventTopic(_)
        | Task::PanicHandler => of(0, 1),
        // One value for another.
        Task::ExternalPointer(_) | Task::LoadStorage | Task::LoadMemory | Task::LoadField(_, _)
        | Task::Balance | Task::SliceLen | Task::CalldataLength(_) | Task::CleanFixedBytes(_)
        | Task::ShortCircuitEnd(_) | Task::SliceOf(_) | Task::Truth | Task::DecodeWord(_)
        | Task::CopyIfCalldata | Task::LinkedField(_) | Task::BindArgument(_)
        | Task::MemberCallEnd | Task::DecodeBytesEnd | Task::DecodeWordsEnd
        | Task::DecodePointersBegin => of(1, 1),
        // One value of several.
        Task::Add | Task::StoreAt(_) | Task::KeepField(_, _) | Task::TailSlice
        | Task::ElementSlot(_, _) | Task::MappingSlot(_, _) | Task::MappingSlotBy(_, _) => of(2, 1),
        Task::SliceCut(_, _, has_end) => if has_end {
            of(4, 1)
        } else {
            of(3, 1)
        },
        Task::DecodeArrayBegin(_, _) => of(3, 1),
        Task::BytesParamEnd | Task::PushEnd => of(4, 1),
        // Values that are used up.
        Task::Assign(_) | Task::Discard | Task::StoreVariable(_) | Task::StoreSlice(_)
        | Task::StoreSliceWord(_, _) | Task::SetLocal(_) | Task::StoreImmutable(_)
        | Task::SetSliceComponent(_, _) | Task::ZeroElements(_, _, _) | Task::BindStorageRef(_)
        | Task::BindDeclared(_, _) | Task::BindMemory(_) | Task::BindLocal(_)
        | Task::BindParam(_) | Task::BindResults(_, _) | Task::AssignResults(_, _)
        | Task::DeliverResults(_) | Task::ShortCircuitBegin(_) | Task::ArmsBegin
        | Task::IfBegin(_) | Task::ForBranch | Task::SwitchBegin(_) | Task::TryBranch
        | Task::PointersLoopEnd | Task::StringRevert => of(1, 0),
        Task::StoreStorage | Task::StoreMemory | Task::StoreField(_, _) => of(2, 0),
        Task::PopEnd => of(3, 0),
        Task::BindLocals(ids) => of(ids@.len(), 0),
        Task::DeliverInline(count) | Task::StageValues(count) | Task::ResolveBase(_, count) => of(
            count as nat,
            0,
        ),
        Task::MemberCallBegin(_, count, _) => of((count + 1) as nat, 0),
        Task::Log(indexed, named) => of(topic_count(indexed, named) + 2, 0),
        // More values.
        Task::Duplicate | Task::ObjectParts | Task::PopBegin => of(1, 2),
        Task::ErrorRegion | Task::PushBegin => of(1, 4),
        Task::CheckRegion(_) | Task::ArrayLength(_) => of(2, 3),
        Task::PushedElement(_) | Task::PoppedElement(_) => of(3, 4),
        Task::BytesParamBegin(_) | Task::PointersLoopBegin => of(0, 4),
        Task::Pick(depth) => of((depth + 1) as nat, (depth + 2) as nat),
        Task::GatherResults(count) => of(
            1,
            if count == 0 {
                1
            } else {
                count as nat
            },
        ),
        // Values that change places or are replaced.
        Task::Exchange => of(2, 2),
        Task::DecodeBytesBegin => of(4, 2),
        Task::DropBelow(count, kept) => of((count + kept) as nat, kept as nat),
        Task::StageTail(count) => of(
            count as nat,
            if count == 0 {
                0
            } else {
                1
            },
        ),
        Task::SplitEvent(id, count) => {
            let given = count as nat + leading_topics(hir.events@[id.0 as int]);
            of(given, given)
        },
        Task::StoreEventData(count) => of(count as nat, 2),
        Task::ArmEnd(kind, last) => of(
            if kind is Tuple {
                0
            } else {
                1
            },
            if last {
                1
            } else {
                0
            },
        ),
        // The stack as it was.
        Task::TupleAssign(_, _) | Task::Report(_, _) | Task::MarkStorageRef(_) | Task::Effect(_)
        | Task::SetChecks(_) | Task::Stmt(_) | Task::Statements(_, _)
        | Task::StatementsIfOpen(_, _) | Task::ReserveStorageRef(_) | Task::ClearPending
        | Task::IfElse | Task::IfEnd | Task::LoopBegin(_) | Task::ForBegin | Task::ForUpdate
        | Task::ForElse | Task::LoopEnd(_) | Task::CaseBegin(_) | Task::CaseEnd | Task::SwitchEnd
        | Task::Jump(_) | Task::RevertIfOpen | Task::SetUnchecked(_) | Task::LeaveIfOpen
        | Task::TryBegin | Task::TryCatch(_) | Task::TryEnd | Task::HeadSizeCheck(_)
        | Task::DeclareResult(_) | Task::PlainParam(_, _) | Task::StoreParams
        | Task::ReserveResult(_, _) | Task::ConstructorPrelude(_) | Task::EndFunction(_)
        | Task::ForgetParameters(_) | Task::Return(_) | Task::ReturnNothing | Task::Stop
        | Task::Emit(_) | Task::TryResults(_) | Task::HandlersBegin | Task::ErrorHandler
        | Task::HandlerEnd | Task::FallbackHandler | Task::FallbackEnd | Task::NoFallback
        | Task::Rethrow | Task::WordsLoopBegin | Task::CheckElement(_) | Task::WordsLoopEnd
        | Task::ArrayDone | Task::HelperRevert(_) => of(0, 0),
    }
}

/// A construct whose lowering spans several tasks.
pub enum Layer {
    /// `&&` or `||`.
    ShortCircuit,
    /// Two arms.
    Arms,
    /// A loop.
    Loop,
    /// The turn of a `for` loop.
    Turn,
    /// A switch.
    Switch,
    /// A try statement.
    Attempt,
    /// The handlers of a try statement.
    Handlers,
    /// One handler.
    Next,
    /// Bytes that are being decoded.
    Bytes,
    /// An array that is being decoded.
    Array,
    /// An array whose elements are being copied.
    Copy,
    /// A loop over elements.
    Elements,
    /// An element that is being decoded.
    Offset,
    /// A call that is being made.
    Call,
}

/// The constructs that enclose a task, from the innermost on.
pub enum Nesting {
    /// None.
    Outermost,
    /// A construct, and those that enclose it.
    Within(Layer, Box<Nesting>),
}

/// The nesting inside one more construct.
pub open spec fn inside(layer: Layer, nesting: Nesting) -> Nesting {
    Nesting::Within(layer, Box::new(nesting))
}

/// The innermost construct.
pub open spec fn layer(nesting: Nesting) -> Option<Layer> {
    match nesting {
        Nesting::Within(layer, _) => Some(layer),
        Nesting::Outermost => None,
    }
}

/// The nesting outside the innermost construct.
pub open spec fn outside(nesting: Nesting) -> Nesting {
    match nesting {
        Nesting::Within(_, outer) => *outer,
        Nesting::Outermost => nesting,
    }
}

/// The same nesting, if a condition holds.
pub open spec fn stays(holds: bool, nesting: Nesting) -> Option<Nesting> {
    if holds {
        Some(nesting)
    } else {
        None
    }
}

/// The nesting outside the innermost construct, if it is the given one.
pub open spec fn leaves(nesting: Nesting, innermost: Layer) -> Option<Nesting> {
    stays(layer(nesting) == Some(innermost), outside(nesting))
}

/// The nesting after a task; none where the constructs that the task stands in
/// are not there.
pub open spec fn nested<'t>(n: Nesting, task: Task<'t>) -> Option<Nesting> {
    let first = layer(n);
    let second = layer(outside(n));
    let third = layer(outside(outside(n)));
    match task {
        Task::ShortCircuitBegin(_) => Some(inside(Layer::ShortCircuit, n)),
        Task::ShortCircuitEnd(_) => leaves(n, Layer::ShortCircuit),
        Task::ArmsBegin | Task::IfBegin(_) => Some(inside(Layer::Arms, n)),
        Task::IfElse => stays(first == Some(Layer::Arms), n),
        Task::IfEnd => leaves(n, Layer::Arms),
        Task::ArmEnd(_, last) => if last {
            leaves(n, Layer::Arms)
        } else {
            stays(first == Some(Layer::Arms), n)
        },
        Task::LoopBegin(_) => Some(inside(Layer::Loop, n)),
        Task::ForBegin => Some(inside(Layer::Turn, n)),
        Task::ForBranch => stays(first == Some(Layer::Turn), n),
        Task::ForUpdate => stays(second == Some(Layer::Loop), n),
        Task::ForElse => stays(
            first == Some(Layer::Turn) && second == Some(Layer::Loop),
            outside(n),
        ),
        Task::LoopEnd(_) => leaves(n, Layer::Loop),
        Task::SwitchBegin(_) => Some(inside(Layer::Switch, n)),
        Task::CaseEnd => stays(first == Some(Layer::Switch), n),
        Task::SwitchEnd => leaves(n, Layer::Switch),
        Task::TryBegin => Some(inside(Layer::Attempt, n)),
        Task::TryBranch | Task::TryCatch(_) => stays(first == Some(Layer::Attempt), n),
        Task::TryEnd => leaves(n, Layer::Attempt),
        Task::HandlersBegin => Some(inside(Layer::Handlers, n)),
        Task::ErrorHandler | Task::PanicHandler => stays(
            first == Some(Layer::Handlers),
            inside(Layer::Next, n),
        ),
        Task::ErrorRegion => stays(second == Some(Layer::Handlers), n),
        Task::HandlerEnd => stays(
            first == Some(Layer::Next) && third == Some(Layer::Attempt),
            outside(n),
        ),
        Task::FallbackHandler | Task::NoFallback => stays(first == Some(Layer::Handlers), n),
        Task::FallbackEnd => stays(second == Some(Layer::Attempt), n),
        Task::Rethrow => leaves(n, Layer::Handlers),
        Task::MemberCallBegin(_, _, _) => Some(inside(Layer::Call, n)),
        Task::MemberCallEnd => leaves(n, Layer::Call),
        Task::DecodeBytesBegin => Some(inside(Layer::Bytes, n)),
        Task::DecodeBytesEnd => leaves(n, Layer::Bytes),
        Task::DecodeArrayBegin(_, _) => Some(inside(Layer::Array, n)),
        Task::DecodeWordsEnd | Task::DecodePointersBegin => stays(
            first == Some(Layer::Array),
            inside(Layer::Copy, n),
        ),
        Task::WordsLoopBegin => stays(second == Some(Layer::Array), inside(Layer::Elements, n)),
        Task::CheckElement(_) => stays(
            first == Some(Layer::Elements) && second == Some(Layer::Copy) && third == Some(
                Layer::Array,
            ),
            n,
        ),
        Task::WordsLoopEnd => leaves(n, Layer::Elements),
        Task::PointersLoopBegin => stays(
            second == Some(Layer::Array),
            inside(Layer::Offset, inside(Layer::Elements, n)),
        ),
        Task::PointersLoopEnd => stays(
            first == Some(Layer::Offset) && second == Some(Layer::Elements) && third == Some(
                Layer::Copy,
            ),
            outside(outside(n)),
        ),
        Task::ArrayDone => stays(
            first == Some(Layer::Copy) && second == Some(Layer::Array),
            outside(outside(n)),
        ),
        _ => Some(n),
    }
}

/// Where lowering stands: how high the stack is, and which constructs it is in.
pub struct Standing {
    /// The height of the stack.
    pub height: nat,
    /// The constructs.
    pub within: Nesting,
}

/// The standing after one more task; none where an earlier task or this one runs
/// short of values or is not in its constructs.
pub open spec fn standing_with<'t>(hir: Hir, before: Option<Standing>, task: Task<'t>) -> Option<
    Standing,
> {
    match before {
        Some(at) => match nested(at.within, task) {
            Some(within) => if effect(hir, task).takes <= at.height {
                Some(
                    Standing {
                        height: (at.height - effect(hir, task).takes + effect(
                            hir,
                            task,
                        ).leaves) as nat,
                        within,
                    },
                )
            } else {
                None
            },
            None => None,
        },
        None => None,
    }
}

/// The standing after the first `count` of some tasks; none where one of them runs
/// short of values or is not in its constructs.
pub open spec fn standing_to<'t>(hir: Hir, tasks: Seq<Task<'t>>, count: nat, from: Standing) -> Option<Standing>
    decreases count,
{
    if count == 0 {
        Some(from)
    } else {
        standing_with(hir, standing_to(hir, tasks, (count - 1) as nat, from), tasks[count - 1])
    }
}

/// The standing after some tasks; none where one of them runs short of values or
/// is not in its constructs.
#[verifier::opaque]
pub open spec fn standing_after<'t>(hir: Hir, tasks: Seq<Task<'t>>, from: Standing) -> Option<Standing> {
    standing_to(hir, tasks, tasks.len(), from)
}

/// The standing after the first tasks does not depend on what follows.
proof fn lemma_standing_prefix<'t>(
    hir: Hir,
    tasks: Seq<Task<'t>>,
    longer: Seq<Task<'t>>,
    count: nat,
    from: Standing,
)
    requires
        count <= tasks.len(),
        count <= longer.len(),
        forall|i: int| 0 <= i < count ==> tasks[i] == longer[i],
    ensures
        standing_to(hir, tasks, count, from) == standing_to(hir, longer, count, from),
    decreases count,
{
    if count > 0 {
        lemma_standing_prefix(hir, tasks, longer, (count - 1) as nat, from);
    }
}

/// No tasks leave all as it was.
pub broadcast proof fn lemma_standing_empty<'t>(hir: Hir, from: Standing)
    ensures
        #[trigger] standing_after(hir, Seq::<Task<'t>>::empty(), from) == Some(from),
{
    reveal(standing_after);
}

/// Tasks that are listed come one after the other.
pub broadcast proof fn lemma_standing_listed<'t, const N: usize>(
    hir: Hir,
    tasks: [Task<'t>; N],
    from: Standing,
)
    ensures
        #[trigger] standing_after(hir, tasks@, from) == standing_to(hir, tasks@, N as nat, from),
{
    reveal(standing_after);
}

/// One more task comes last.
pub broadcast proof fn lemma_standing_push<'t>(
    hir: Hir,
    tasks: Seq<Task<'t>>,
    task: Task<'t>,
    from: Standing,
)
    ensures
        #[trigger] standing_after(hir, tasks.push(task), from) == standing_with(
            hir,
            standing_after(hir, tasks, from),
            task,
        ),
{
    reveal(standing_after);
    lemma_standing_prefix(hir, tasks, tasks.push(task), tasks.len(), from);
}

/// Tasks that follow others start from where those end.
proof fn lemma_standing_join<'t>(
    hir: Hir,
    first: Seq<Task<'t>>,
    second: Seq<Task<'t>>,
    count: nat,
    from: Standing,
)
    requires
        count <= second.len(),
    ensures
        standing_to(hir, first + second, first.len() + count, from) == match standing_after(
            hir,
            first,
            from,
        ) {
            Some(middle) => standing_to(hir, second, count, middle),
            None => None,
        },
    decreases count,
{
    reveal(standing_after);
    if count == 0 {
        lemma_standing_prefix(hir, first, first + second, first.len(), from);
    } else {
        lemma_standing_join(hir, first, second, (count - 1) as nat, from);
    }
}

/// Tasks that follow others start from where those end.
pub broadcast proof fn lemma_standing_add<'t>(
    hir: Hir,
    first: Seq<Task<'t>>,
    second: Seq<Task<'t>>,
    from: Standing,
)
    ensures
        #[trigger] standing_after(hir, first + second, from) == match standing_after(
            hir,
            first,
            from,
        ) {
            Some(middle) => standing_after(hir, second, middle),
            None => None,
        },
{
    reveal(standing_after);
    lemma_standing_join(hir, first, second, second.len(), from);
}

pub broadcast group group_standings {
    lemma_standing_empty,
    lemma_standing_listed,
    lemma_standing_push,
    lemma_standing_add,
}

/// The standing with an effect on the stack.
pub open spec fn changed(from: Standing, whole: Effect) -> Standing {
    Standing { height: (from.height - whole.takes + whole.leaves) as nat, ..from }
}

/// Whether some tasks together have an effect: wherever the values that they take
/// are there, no task runs short or lacks its constructs, the stack ends as high
/// as the effect says, and every construct that is begun is ended.
pub open spec fn have_effect<'t>(hir: Hir, tasks: Seq<Task<'t>>, whole: Effect) -> bool {
    forall|from: Standing|
        whole.takes <= from.height ==> #[trigger] standing_after(hir, tasks, from) == Some(
            changed(from, whole),
        )
}

/// Whether all tasks have one effect and neither begin nor end a construct.
pub open spec fn all_have<'t>(hir: Hir, tasks: Seq<Task<'t>>, common: Effect) -> bool {
    forall|i: int, n: Nesting|
        0 <= i < tasks.len() ==> effect(hir, tasks[i]) == common && #[trigger] nested(n, tasks[i])
            == Some(n)
}

/// Tasks that each push a value push as many as they are.
pub proof fn lemma_standing_pushes<'t>(hir: Hir, tasks: Seq<Task<'t>>, count: nat, from: Standing)
    requires
        all_have(hir, tasks, of(0, 1)),
        count <= tasks.len(),
    ensures
        standing_to(hir, tasks, count, from) == Some(changed(from, of(0, count))),
    decreases count,
{
    if count > 0 {
        lemma_standing_pushes(hir, tasks, (count - 1) as nat, from);
    }
}

/// Tasks that each drop a value drop as many as they are.
pub proof fn lemma_standing_drops<'t>(hir: Hir, tasks: Seq<Task<'t>>, count: nat, from: Standing)
    requires
        all_have(hir, tasks, of(1, 0)),
        count <= tasks.len(),
        count <= from.height,
    ensures
        standing_to(hir, tasks, count, from) == Some(changed(from, of(count, 0))),
    decreases count,
{
    if count > 0 {
        lemma_standing_drops(hir, tasks, (count - 1) as nat, from);
    }
}

/// Tasks that each leave all as it was leave it so together.
pub proof fn lemma_standing_still<'t>(hir: Hir, tasks: Seq<Task<'t>>, count: nat, from: Standing)
    requires
        all_have(hir, tasks, of(0, 0)),
        count <= tasks.len(),
    ensures
        standing_to(hir, tasks, count, from) == Some(from),
    decreases count,
{
    if count > 0 {
        lemma_standing_still(hir, tasks, (count - 1) as nat, from);
    }
}

} // verus!
