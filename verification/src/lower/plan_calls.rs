//! Plans for conditional expressions, calls that may fail, events and decoding.

use crate::hir::{
    has_variables, hir_wf, peeled, DataLocation, ElementaryType, Event, EventId, Expr, ExprKind,
    Hir, ItemId, Res, Ty, VariableId,
};
use crate::lower::analysis::{get_ternary_tuple_arity, ternary_arity};
use crate::lower::fields::memory_field;
use crate::lower::plan::{is_slice_member, ArmKind, PanicCode, Service, Task};
use crate::lower::plan_function::{heads_size, lemma_heads_grow};
use crate::lower::state::{Complaint, Lowerer};
use crate::lower::types::{
    abi_decode_strategy, decode_strategy, is_narrow, needs_validation, DecodeStrategy,
};
use crate::mir::types::Span;
use vstd::prelude::*;

verus! {

/// The tasks that lower one arm of a conditional whose arms are tuples: all
/// elements are evaluated before any is staged.
pub open spec fn tuple_arm<'a>(arm: Expr, arity: nat) -> Seq<Task<'a>> {
    match arm.kind {
        ExprKind::Tuple(elements) => element_tasks(elements@, elements@.len()).push(
            Task::StageValues(given_count(elements@, elements@.len()) as usize),
        ),
        _ => seq![Task::Value(&arm)]
            .push(Task::GatherResults(arity as usize))
            .push(Task::StageValues(arity as usize)),
    }
}

/// The tasks that lower the given ones of the first `count` elements.
pub open spec fn element_tasks<'a>(elements: Seq<Option<Expr>>, count: nat) -> Seq<Task<'a>>
    decreases count,
{
    if count == 0 {
        Seq::empty()
    } else {
        let front = element_tasks(elements, (count - 1) as nat);
        match elements[count - 1] {
            Some(element) => front.push(Task::Value(&element)),
            None => front,
        }
    }
}

/// The number of given elements among the first `count`.
pub open spec fn given_count(elements: Seq<Option<Expr>>, count: nat) -> nat
    decreases count,
{
    if count == 0 {
        0
    } else {
        given_count(elements, (count - 1) as nat) + if elements[count - 1] is Some {
            1nat
        } else {
            0nat
        }
    }
}

/// Whether a conditional of a type yields a slice of the call data.
pub open spec fn yields_slice(ty: Option<Ty>) -> bool {
    match ty {
        Some(Ty::Ref(inner, DataLocation::Calldata)) => match *inner {
            Ty::Elementary(ElementaryType::Bytes) | Ty::Elementary(ElementaryType::String)
            | Ty::DynArray(_) | Ty::Slice(_) => true,
            _ => false,
        },
        _ => false,
    }
}

/// The task that lowers an arm of a conditional that yields a word. An arm in
/// the call data is copied if the result is in memory.
pub open spec fn word_arm<'a>(ty: Option<Ty>, arm: Expr) -> Task<'a> {
    match ty {
        Some(Ty::Ref(_, DataLocation::Calldata)) | Some(Ty::Ref(_, DataLocation::Storage)) => {
            Task::Value(&arm)
        },
        Some(ty) => match peeled(ty) {
            Ty::Elementary(ElementaryType::Bytes) | Ty::Elementary(ElementaryType::String) => {
                Task::Service(Service::MemoryBytes(&arm))
            },
            Ty::DynArray(_) => Task::Service(Service::MemoryArray(&arm)),
            _ => Task::Value(&arm),
        },
        None => Task::Value(&arm),
    }
}

/// The tasks that lower a conditional expression. Only one arm is evaluated.
pub open spec fn ternary_tasks<'a>(expr: Expr) -> Seq<Task<'a>> {
    match expr.kind {
        ExprKind::Ternary(cond, then_val, else_val) => match ternary_arity(expr) {
            Some(arity) => seq![Task::Value(&*cond)]
                .push(Task::ArmsBegin) + tuple_arm(*then_val, arity)
                + seq![Task::ArmEnd(ArmKind::Tuple, false)] + tuple_arm(*else_val, arity) + seq![
                Task::ArmEnd(ArmKind::Tuple, true),
            ],
            None => if yields_slice(expr.facts.ty) {
                seq![Task::Value(&*cond)]
                    .push(Task::ArmsBegin)
                    .push(Task::Value(&*then_val))
                    .push(Task::ArmEnd(ArmKind::Slice, false))
                    .push(Task::Value(&*else_val))
                    .push(Task::ArmEnd(ArmKind::Slice, true))
            } else {
                seq![Task::Value(&*cond)]
                    .push(Task::ArmsBegin)
                    .push(word_arm(expr.facts.ty, *then_val))
                    .push(Task::ArmEnd(ArmKind::Word, false))
                    .push(word_arm(expr.facts.ty, *else_val))
                    .push(Task::ArmEnd(ArmKind::Word, true))
            },
        },
        _ => Seq::empty(),
    }
}

/// Adds the tasks that lower one arm of a conditional whose arms are tuples.
fn plan_tuple_arm<'a>(tasks: &mut Vec<Task<'a>>, arm: &'a Expr, arity: usize)
    ensures
        final(tasks)@ == old(tasks)@ + tuple_arm::<'a>(*arm, arity as nat),
{
    match &arm.kind {
        ExprKind::Tuple(elements) => {
            let count = plan_elements(tasks, elements);
            tasks.push(Task::StageValues(count));
        },
        _ => {
            tasks.push(Task::Value(arm));
            tasks.push(Task::GatherResults(arity));
            tasks.push(Task::StageValues(arity));
        },
    }
    assert(tasks@ =~= old(tasks)@ + tuple_arm::<'a>(*arm, arity as nat));
}

/// Whether a conditional of a type yields a slice of the call data.
fn is_slice_conditional(ty: &Option<Ty>) -> (r: bool)
    ensures
        r == yields_slice(*ty),
{
    match ty {
        Some(Ty::Ref(inner, DataLocation::Calldata)) => match &**inner {
            Ty::Elementary(ElementaryType::Bytes) | Ty::Elementary(ElementaryType::String)
            | Ty::DynArray(_) | Ty::Slice(_) => true,
            _ => false,
        },
        _ => false,
    }
}

/// Returns the task that lowers an arm of a conditional that yields a word.
fn plan_word_arm<'a>(ty: &Option<Ty>, arm: &'a Expr) -> (r: Task<'a>)
    ensures
        r == word_arm::<'a>(*ty, *arm),
{
    match ty {
        Some(Ty::Ref(_, DataLocation::Calldata)) | Some(Ty::Ref(_, DataLocation::Storage)) => {
            Task::Value(arm)
        },
        Some(ty) => match ty.peel_refs() {
            Ty::Elementary(ElementaryType::Bytes) | Ty::Elementary(ElementaryType::String) => {
                Task::Service(Service::MemoryBytes(arm))
            },
            Ty::DynArray(_) => Task::Service(Service::MemoryArray(arm)),
            _ => Task::Value(arm),
        },
        None => Task::Value(arm),
    }
}

/// Returns the tasks that lower a conditional expression.
pub fn plan_ternary<'a>(expr: &'a Expr) -> (r: Vec<Task<'a>>)
    ensures
        r@ == ternary_tasks::<'a>(*expr),
{
    let mut tasks: Vec<Task<'a>> = Vec::new();
    if let ExprKind::Ternary(cond, then_val, else_val) = &expr.kind {
        tasks.push(Task::Value(cond));
        tasks.push(Task::ArmsBegin);
        match get_ternary_tuple_arity(expr) {
            Some(arity) => {
                plan_tuple_arm(&mut tasks, then_val, arity);
                tasks.push(Task::ArmEnd(ArmKind::Tuple, false));
                plan_tuple_arm(&mut tasks, else_val, arity);
                tasks.push(Task::ArmEnd(ArmKind::Tuple, true));
            },
            None => {
                if is_slice_conditional(&expr.facts.ty) {
                    tasks.push(Task::Value(then_val));
                    tasks.push(Task::ArmEnd(ArmKind::Slice, false));
                    tasks.push(Task::Value(else_val));
                    tasks.push(Task::ArmEnd(ArmKind::Slice, true));
                } else {
                    tasks.push(plan_word_arm(&expr.facts.ty, then_val));
                    tasks.push(Task::ArmEnd(ArmKind::Word, false));
                    tasks.push(plan_word_arm(&expr.facts.ty, else_val));
                    tasks.push(Task::ArmEnd(ArmKind::Word, true));
                }
            },
        }
    }
    assert(tasks@ =~= ternary_tasks::<'a>(*expr));
    tasks
}

/// The tasks that lower a return statement. One in an inlined body delivers its
/// values to the call site, even inside a public function.
pub open spec fn return_value_tasks<'a>(
    lowerer: Lowerer,
    is_public: bool,
    value: Option<&'a Expr>,
) -> Seq<Task<'a>> {
    match lowerer.inline_returns {
        Some(ctx) => match value {
            Some(expr) => match expr.kind {
                ExprKind::Tuple(elements) => element_tasks(elements@, elements@.len()).push(
                    Task::DeliverInline(given_count(elements@, elements@.len()) as usize),
                ),
                _ => seq![Task::ClearPending]
                    .push(Task::Value(expr))
                    .push(if ctx.return_vars@.len() > 1 {
                        Task::DeliverResults(ctx.return_vars@.len() as usize)
                    } else {
                        Task::DeliverInline(1)
                    }),
            },
            None => seq![Task::DeliverInline(0)],
        },
        None => {
            let external = is_public && !lowerer.lowering_internal_function;
            if value is None && !external {
                seq![Task::ReturnNothing]
            } else {
                seq![Task::Service(Service::ReturnItems(value, external))]
            }
        },
    }
}

/// Adds the tasks that lower the given elements of a tuple. Returns how many
/// there are.
fn plan_elements<'a>(tasks: &mut Vec<Task<'a>>, elements: &'a Vec<Option<Expr>>) -> (r: usize)
    ensures
        final(tasks)@ == old(tasks)@ + element_tasks::<'a>(elements@, elements@.len()),
        r == given_count(elements@, elements@.len()),
{
    let mut count: usize = 0;
    let mut i: usize = 0;
    assert(tasks@ =~= old(tasks)@ + element_tasks::<'a>(elements@, 0));
    while i < elements.len()
        invariant
            i <= elements@.len(),
            count <= i,
            count == given_count(elements@, i as nat),
            tasks@ == old(tasks)@ + element_tasks::<'a>(elements@, i as nat),
        decreases elements@.len() - i,
    {
        if let Some(element) = &elements[i] {
            tasks.push(Task::Value(element));
            count = count + 1;
        }
        i = i + 1;
        assert(tasks@ =~= old(tasks)@ + element_tasks::<'a>(elements@, i as nat));
    }
    count
}

impl Lowerer {
    /// Returns the tasks that lower a return statement.
    pub fn plan_return<'a>(&self, is_public: bool, value: Option<&'a Expr>) -> (r: Vec<Task<'a>>)
        ensures
            r@ == return_value_tasks(*self, is_public, value),
    {
        let mut tasks: Vec<Task<'a>> = Vec::new();
        match &self.inline_returns {
            Some(ctx) => match value {
                Some(expr) => match &expr.kind {
                    ExprKind::Tuple(elements) => {
                        let count = plan_elements(&mut tasks, elements);
                        tasks.push(Task::DeliverInline(count));
                    },
                    _ => {
                        tasks.push(Task::ClearPending);
                        tasks.push(Task::Value(expr));
                        if ctx.return_vars.len() > 1 {
                            tasks.push(Task::DeliverResults(ctx.return_vars.len()));
                        } else {
                            tasks.push(Task::DeliverInline(1));
                        }
                    },
                },
                None => {
                    tasks.push(Task::DeliverInline(0));
                },
            },
            None => {
                let external = is_public && !self.lowering_internal_function;
                if value.is_none() && !external {
                    tasks.push(Task::ReturnNothing);
                } else {
                    tasks.push(Task::Service(Service::ReturnItems(value, external)));
                }
            },
        }
        assert(tasks@ =~= return_value_tasks(*self, is_public, value));
        tasks
    }
}

/// The tasks that lower the first `count` arguments of a call.
pub open spec fn arguments_tasks<'a>(args: Seq<Expr>, count: nat) -> Seq<Task<'a>>
    decreases count,
{
    if count == 0 {
        Seq::empty()
    } else {
        arguments_tasks(args, (count - 1) as nat).push(Task::Value(&args[count - 1]))
    }
}

/// Whether an expression is an external function value.
pub open spec fn is_external_pointer(callee: Expr) -> bool {
    callee.facts.ty matches Some(
        Ty::Fn(function),
    ) && function.external && function.function_id is None
        && callee.facts.function is None
}

/// The tasks that make the call of a try statement and yield whether it
/// succeeded. The arguments of a member call come before the address.
pub open spec fn try_call_tasks<'a>(expr: Expr) -> Seq<Task<'a>> {
    let plain = seq![Task::Value(&expr)].push(Task::Truth);
    match expr.kind {
        ExprKind::Call(callee, args, _) => match callee.kind {
            ExprKind::Member(base, _) => arguments_tasks(args@, args@.len())
                + seq![Task::Value(&*base)]
                .push(Task::MemberCallBegin(
                    callee.facts.member_selector,
                    args@.len() as usize,
                    callee.facts.member_results as u64,
                ))
                .push(Task::Service(Service::CallValue(&expr)))
                .push(Task::MemberCallEnd),
            _ => if is_external_pointer(*callee) {
                seq![Task::Service(Service::PointerCall(&expr))]
            } else {
                plain
            },
        },
        _ => plain,
    }
}

/// Returns the tasks that make the call of a try statement and yield whether it
/// succeeded.
pub fn plan_try_call<'a>(expr: &'a Expr) -> (r: Vec<Task<'a>>)
    ensures
        r@ == try_call_tasks::<'a>(*expr),
{
    let mut tasks: Vec<Task<'a>> = Vec::new();
    if let ExprKind::Call(callee, args, _) = &expr.kind {
        if let ExprKind::Member(base, _) = &callee.kind {
            let mut i: usize = 0;
            assert(tasks@ =~= arguments_tasks::<'a>(args@, 0));
            while i < args.len()
                invariant
                    i <= args@.len(),
                    tasks@ == arguments_tasks::<'a>(args@, i as nat),
                decreases args@.len() - i,
            {
                tasks.push(Task::Value(&args[i]));
                i = i + 1;
            }
            tasks.push(Task::Value(base));
            tasks.push(
                Task::MemberCallBegin(
                    callee.facts.member_selector,
                    args.len(),
                    callee.facts.member_results as u64,
                ),
            );
            tasks.push(Task::Service(Service::CallValue(expr)));
            tasks.push(Task::MemberCallEnd);
            assert(tasks@ =~= try_call_tasks::<'a>(*expr));
            return tasks;
        }
        let pointer = match &callee.facts.ty {
            Some(Ty::Fn(function)) => function.external && function.function_id.is_none()
                && callee.facts.function.is_none(),
            _ => false,
        };
        if pointer {
            tasks.push(Task::Service(Service::PointerCall(expr)));
            assert(tasks@ =~= try_call_tasks::<'a>(*expr));
            return tasks;
        }
    }
    tasks.push(Task::Value(expr));
    tasks.push(Task::Truth);
    assert(tasks@ =~= try_call_tasks::<'a>(*expr));
    tasks
}

/// The event that an expression emits.
pub open spec fn emitted_event(expr: Expr) -> Option<EventId> {
    match expr.kind {
        ExprKind::Call(callee, _, _) => match callee.facts.res {
            Some(Res::Item(ItemId::Event(id))) => Some(id),
            _ => None,
        },
        _ => None,
    }
}

/// The task that lowers an argument of an event: an indexed one becomes a
/// topic.
pub open spec fn event_value<'a>(hir: Hir, parameter: VariableId, arg: Expr) -> Task<'a> {
    if hir.variables@[parameter.0 as int].indexed {
        Task::Service(Service::TopicHash(&arg, parameter))
    } else {
        Task::Service(Service::ValueFor(&arg, parameter))
    }
}

/// The tasks that lower the first `count` arguments of an event.
pub open spec fn event_values<'a>(
    hir: Hir,
    parameters: Seq<VariableId>,
    args: Seq<Expr>,
    count: nat,
) -> Seq<Task<'a>>
    decreases count,
{
    if count == 0 {
        Seq::empty()
    } else {
        event_values(hir, parameters, args, (count - 1) as nat).push(
            event_value(hir, parameters[count - 1], args[count - 1]),
        )
    }
}

/// The number of arguments among the first `count` that go into data.
pub open spec fn data_count(hir: Hir, parameters: Seq<VariableId>, count: nat) -> nat
    decreases count,
{
    if count == 0 {
        0
    } else {
        data_count(hir, parameters, (count - 1) as nat)
            + if hir.variables@[parameters[count - 1].0 as int].indexed {
            0nat
        } else {
            1nat
        }
    }
}

/// Whether an argument among the first `count` that goes into data has a tail.
pub open spec fn has_dynamic_data(hir: Hir, parameters: Seq<VariableId>, count: nat) -> bool
    decreases count,
{
    if count == 0 {
        false
    } else {
        let parameter = hir.variables@[parameters[count - 1].0 as int];
        has_dynamic_data(hir, parameters, (count - 1) as nat) || (!parameter.indexed
            && parameter.abi.is_dynamic)
    }
}

/// The number of arguments of an event that are lowered.
pub open spec fn paired_count(parameters: Seq<VariableId>, args: Seq<Expr>) -> nat {
    if parameters.len() <= args.len() {
        parameters.len()
    } else {
        args.len()
    }
}

/// The tasks that push the signature of an event, unless it is anonymous.
pub open spec fn signature_tasks<'a>(event: Event, id: EventId) -> Seq<Task<'a>> {
    if event.anonymous {
        Seq::empty()
    } else {
        seq![Task::EventTopic(id)]
    }
}

/// The tasks that emit an event.
pub open spec fn emit_tasks<'a>(hir: Hir, expr: Expr) -> Seq<Task<'a>> {
    match emitted_event(expr) {
        Some(id) => {
            let event = hir.events@[id.0 as int];
            let parameters = event.parameters@;
            let args = expr.kind->Call_1@;
            let count = paired_count(parameters, args);
            let data = data_count(hir, parameters, count);
            signature_tasks(event, id) + event_values(hir, parameters, args, count)
                + seq![Task::SplitEvent(id, count as usize)]
                .push(if has_dynamic_data(hir, parameters, count) {
                    Task::Service(Service::EncodeData(id, data as usize))
                } else {
                    Task::StoreEventData(data as usize)
                })
                .push(Task::Log((count - data) as usize, !event.anonymous))
        },
        None => Seq::empty(),
    }
}

/// Returns the tasks that emit an event.
pub fn plan_emit<'a>(hir: &'a Hir, expr: &'a Expr) -> (r: Vec<Task<'a>>)
    requires
        hir_wf(*hir),
        emitted_event(*expr) matches Some(id) ==> id.0 < hir.events@.len(),
    ensures
        r@ == emit_tasks::<'a>(*hir, *expr),
{
    let mut tasks: Vec<Task<'a>> = Vec::new();
    if let ExprKind::Call(callee, args, _) = &expr.kind {
        if let Some(Res::Item(ItemId::Event(id))) = callee.facts.res {
            proof {
                reveal(hir_wf);
                assert(has_variables(*hir, hir.events@[id.0 as int].parameters@));
            }
            let event = &hir.events[id.0];
            let parameters = &event.parameters;
            let count: usize = if parameters.len() <= args.len() {
                parameters.len()
            } else {
                args.len()
            };
            if !event.anonymous {
                tasks.push(Task::EventTopic(id));
            }
            let ghost begin = tasks@;
            assert(begin =~= signature_tasks::<'a>(*event, id));
            let mut data: usize = 0;
            let mut dynamic = false;
            let mut i: usize = 0;
            assert(tasks@ =~= begin + event_values::<'a>(*hir, parameters@, args@, 0));
            while i < count
                invariant
                    i <= count,
                    count <= parameters@.len(),
                    count <= args@.len(),
                    has_variables(*hir, parameters@),
                    data <= i,
                    data == data_count(*hir, parameters@, i as nat),
                    dynamic == has_dynamic_data(*hir, parameters@, i as nat),
                    tasks@ == begin + event_values::<'a>(*hir, parameters@, args@, i as nat),
                decreases count - i,
            {
                assert(parameters@[i as int].0 < hir.variables@.len());
                let parameter = &hir.variables[parameters[i].0];
                if parameter.indexed {
                    tasks.push(Task::Service(Service::TopicHash(&args[i], parameters[i])));
                } else {
                    tasks.push(Task::Service(Service::ValueFor(&args[i], parameters[i])));
                    data = data + 1;
                    if parameter.abi.is_dynamic {
                        dynamic = true;
                    }
                }
                i = i + 1;
                assert(tasks@ =~= begin + event_values::<'a>(
                    *hir,
                    parameters@,
                    args@,
                    i as nat,
                ));
            }
            tasks.push(Task::SplitEvent(id, count));
            if dynamic {
                tasks.push(Task::Service(Service::EncodeData(id, data)));
            } else {
                tasks.push(Task::StoreEventData(data));
            }
            tasks.push(Task::Log(count - data, !event.anonymous));
            assert(tasks@ =~= emit_tasks::<'a>(*hir, *expr));
        }
    }
    tasks
}

/// The tasks that build the slice that a member of a call-data struct is: the
/// head word of the member is at its own place behind the base of the struct.
pub open spec fn member_slice_tasks<'a>(lowerer: Lowerer, hir: Hir, expr: Expr) -> Seq<Task<'a>> {
    match expr.kind {
        ExprKind::Member(base, member) => match (
            base.facts.ty,
            memory_field(lowerer.struct_storage_base_slots@, hir, *base, member@),
        ) {
            (Some(Ty::Ref(inner, _)), Some((_, index))) => match peeled(*inner) {
                Ty::Struct(id) => {
                    let fields = hir.structs@[id.0 as int].fields@;
                    seq![Task::Value(&*base)]
                        .push(Task::Service(Service::CalldataBase(fields.len() as u64)))
                        .push(Task::Duplicate)
                        .push(Task::Service(
                            Service::OffsetPtr(heads_size(hir, fields, index as nat) as u64),
                        ))
                        .push(Task::TailSlice)
                },
                _ => Seq::empty(),
            },
            _ => Seq::empty(),
        },
        _ => Seq::empty(),
    }
}

/// Whether the heads of the fields of every struct are a number of bytes.
pub open spec fn field_heads_fit(hir: Hir) -> bool {
    forall|i: int|
        0 <= i < hir.structs@.len() ==> heads_size(
            hir,
            (#[trigger] hir.structs@[i]).fields@,
            hir.structs@[i].fields@.len(),
        ) <= u64::MAX
}

/// Returns the bytes of the heads of the first `count` variables.
fn head_offset_of(hir: &Hir, ids: &Vec<VariableId>, count: usize) -> (r: u64)
    requires
        has_variables(*hir, ids@),
        count <= ids@.len(),
        heads_size(*hir, ids@, ids@.len()) <= u64::MAX,
    ensures
        r == heads_size(*hir, ids@, count as nat),
{
    let mut size: u64 = 0;
    let mut i: usize = 0;
    while i < count
        invariant
            i <= count,
            count <= ids@.len(),
            has_variables(*hir, ids@),
            heads_size(*hir, ids@, ids@.len()) <= u64::MAX,
            size == heads_size(*hir, ids@, i as nat),
        decreases count - i,
    {
        proof {
            lemma_heads_grow(
                *hir,
                ids@,
                (i + 1) as nat,
                ids@.len(),
            );
            assert(ids@[i as int].0 < hir.variables@.len());
        }
        size = size + hir.variables[ids[i].0].abi.head_size;
        i = i + 1;
    }
    size
}

impl Lowerer {
    /// Returns the tasks that build the slice that a member of a call-data
    /// struct is.
    pub fn plan_member_slice<'a>(&self, hir: &'a Hir, expr: &'a Expr) -> (r: Vec<Task<'a>>)
        requires
            hir_wf(*hir),
            field_heads_fit(*hir),
            is_slice_member(*self, *hir, *expr),
        ensures
            r@ == member_slice_tasks::<'a>(*self, *hir, *expr),
    {
        let mut tasks: Vec<Task<'a>> = Vec::new();
        if let ExprKind::Member(base, member) = &expr.kind {
            if let Some(Ty::Ref(inner, _)) = &base.facts.ty {
                if let Ty::Struct(id) = inner.peel_refs() {
                    if let Some((_, index)) = self.get_memory_struct_field_info(
                        hir,
                        base,
                        member.as_str(),
                    ) {
                        proof {
                            reveal(hir_wf);
                            assert(has_variables(*hir, hir.structs@[id.0 as int].fields@));
                        }
                        let fields = &hir.structs[id.0].fields;
                        let offset: u64 = head_offset_of(hir, fields, index);
                        tasks.push(Task::Value(base));
                        tasks.push(Task::Service(Service::CalldataBase(fields.len() as u64)));
                        tasks.push(Task::Duplicate);
                        tasks.push(Task::Service(Service::OffsetPtr(offset)));
                        tasks.push(Task::TailSlice);
                    }
                }
            }
        }
        assert(tasks@ =~= member_slice_tasks::<'a>(*self, *hir, *expr));
        tasks
    }
}

/// The tasks that decode bytes once their operands are on the stack.
pub open spec fn decode_bytes_tasks<'a>() -> Seq<Task<'a>> {
    seq![Task::DecodeBytesBegin]
        .push(Task::Service(Service::PanicIf(PanicCode::MemoryAllocationOverflow)))
        .push(Task::Service(Service::AllocateBytes))
        .push(Task::DecodeBytesEnd)
}

/// Adds the tasks that decode bytes once their operands are on the stack.
pub fn plan_decode_bytes<'a>(tasks: &mut Vec<Task<'a>>)
    ensures
        final(tasks)@ == old(tasks)@ + decode_bytes_tasks::<'a>(),
{
    tasks.push(Task::DecodeBytesBegin);
    tasks.push(Task::Service(Service::PanicIf(PanicCode::MemoryAllocationOverflow)));
    tasks.push(Task::Service(Service::AllocateBytes));
    tasks.push(Task::DecodeBytesEnd);
    assert(tasks@ =~= old(tasks)@ + decode_bytes_tasks::<'a>());
}

/// Whether the elements of an array are bytes.
pub open spec fn holds_bytes(elem: ElementaryType) -> bool {
    elem is Bytes || elem is String
}

/// The tasks that decode an array once its operands are on the stack. Words are
/// copied in bulk and checked where their type does not span the word; elements
/// that are bytes are decoded one by one.
pub open spec fn decode_array_tasks<'a>(elem: ElementaryType, head_size: u64) -> Seq<Task<'a>> {
    let begun = seq![Task::DecodeArrayBegin(head_size, holds_bytes(elem))]
        .push(Task::Service(Service::AllocateArray));
    if holds_bytes(elem) {
        begun + seq![Task::DecodePointersBegin].push(Task::PointersLoopBegin) + decode_bytes_tasks()
            + seq![Task::PointersLoopEnd].push(Task::ArrayDone)
    } else if is_narrow(elem) {
        begun + seq![Task::DecodeWordsEnd]
            .push(Task::WordsLoopBegin)
            .push(Task::CheckElement(elem))
            .push(Task::WordsLoopEnd)
            .push(Task::ArrayDone)
    } else {
        begun + seq![Task::DecodeWordsEnd].push(Task::ArrayDone)
    }
}

/// Adds the tasks that decode an array once its operands are on the stack.
fn plan_decode_array<'a>(tasks: &mut Vec<Task<'a>>, elem: ElementaryType, head_size: u64)
    ensures
        final(tasks)@ == old(tasks)@ + decode_array_tasks::<'a>(elem, head_size),
{
    let bytes = matches!(elem, ElementaryType::Bytes | ElementaryType::String);
    tasks.push(Task::DecodeArrayBegin(head_size, bytes));
    tasks.push(Task::Service(Service::AllocateArray));
    if bytes {
        tasks.push(Task::DecodePointersBegin);
        tasks.push(Task::PointersLoopBegin);
        plan_decode_bytes(tasks);
        tasks.push(Task::PointersLoopEnd);
        tasks.push(Task::ArrayDone);
    } else if needs_validation(elem) {
        tasks.push(Task::DecodeWordsEnd);
        tasks.push(Task::WordsLoopBegin);
        tasks.push(Task::CheckElement(elem));
        tasks.push(Task::WordsLoopEnd);
        tasks.push(Task::ArrayDone);
    } else {
        tasks.push(Task::DecodeWordsEnd);
        tasks.push(Task::ArrayDone);
    }
    assert(tasks@ =~= old(tasks)@ + decode_array_tasks::<'a>(elem, head_size));
}

/// A member of a tuple that is decoded: its type, the bytes of its head, and
/// whether it has a tail.
pub struct Member<'a> {
    /// Its type.
    pub ty: &'a Ty,
    /// The bytes of its head.
    pub head_size: u64,
    /// Whether it has a tail.
    pub is_dynamic: bool,
    /// Whether it has an encoding.
    pub encodable: bool,
}

/// The bytes of the heads of the first `count` members.
pub open spec fn member_heads<'a>(members: Seq<Member<'a>>, count: nat) -> nat
    decreases count,
{
    if count == 0 {
        0
    } else {
        member_heads(members, (count - 1) as nat) + members[count - 1].head_size as nat
    }
}

/// The tasks that decode a member of a tuple. On the stack are the length of
/// the region, its address, the size of the heads, and the members decoded so
/// far.
pub open spec fn member_tasks<'a>(
    member: Member<'a>,
    decoded: nat,
    offset: u64,
    head_size: u64,
) -> Seq<Task<'a>> {
    match decode_strategy(*member.ty, member.encodable) {
        Some(DecodeStrategy::Word(elem)) => seq![Task::Pick((decoded + 1) as usize)]
            .push(Task::Service(Service::OffsetPtr(offset)))
            .push(Task::LoadMemory)
            .push(Task::DecodeWord(elem)),
        Some(DecodeStrategy::DynBytes) => seq![Task::Pick((decoded + 1) as usize)]
            .push(Task::Pick((decoded + 3) as usize))
            .push(Task::Pick((decoded + 2) as usize))
            .push(Task::Pick((decoded + 4) as usize))
            .push(Task::Service(Service::OffsetPtr(offset)))
            .push(Task::LoadMemory) + decode_bytes_tasks(),
        Some(DecodeStrategy::ElementaryArray(elem)) => seq![Task::Pick((decoded + 1) as usize)]
            .push(Task::Pick((decoded + 3) as usize))
            .push(Task::Pick((decoded + 3) as usize))
            .push(Task::Service(Service::OffsetPtr(offset)))
            .push(Task::LoadMemory) + decode_array_tasks(elem, head_size),
        Some(DecodeStrategy::General(ty)) => if member.is_dynamic {
            seq![Task::Pick((decoded + 1) as usize)]
                .push(Task::Pick((decoded + 2) as usize))
                .push(Task::Service(Service::OffsetPtr(offset)))
                .push(Task::LoadMemory)
                .push(Task::Add)
                .push(Task::Service(Service::MaterializeMemory(ty)))
        } else {
            seq![Task::Pick((decoded + 1) as usize)]
                .push(Task::Service(Service::OffsetPtr(offset)))
                .push(Task::Service(Service::MaterializeMemory(ty)))
        },
        None => Seq::empty(),
    }
}

/// The tasks that decode the first `count` members of a tuple.
pub open spec fn members_tasks<'a>(members: Seq<Member<'a>>, head_size: u64, count: nat) -> Seq<
    Task<'a>,
>
    decreases count,
{
    if count == 0 {
        Seq::empty()
    } else {
        members_tasks(members, head_size, (count - 1) as nat) + member_tasks(
            members[count - 1],
            (count - 1) as nat,
            member_heads(members, (count - 1) as nat) as u64,
            head_size,
        )
    }
}

/// The tasks that decode a tuple from a region. On the stack are its length and
/// its address; the members take their place.
pub open spec fn region_tasks<'a>(members: Seq<Member<'a>>) -> Seq<Task<'a>> {
    let head_size = member_heads(members, members.len()) as u64;
    seq![Task::CheckRegion(head_size)] + members_tasks(members, head_size, members.len()) + seq![
        Task::DropBelow(3, members.len() as usize),
    ]
}

/// Fewer members take no more.
proof fn lemma_member_heads_grow<'a>(members: Seq<Member<'a>>, fewer: nat, more: nat)
    requires
        fewer <= more,
    ensures
        member_heads(members, fewer) <= member_heads(members, more),
    decreases more,
{
    if fewer < more {
        lemma_member_heads_grow(members, fewer, (more - 1) as nat);
    }
}

/// Adds the tasks that decode a member of a tuple.
fn plan_member_decode<'a>(
    tasks: &mut Vec<Task<'a>>,
    member: &Member<'a>,
    decoded: usize,
    offset: u64,
    head_size: u64,
)
    requires
        decoded + 4 <= usize::MAX,
    ensures
        final(tasks)@ == old(tasks)@ + member_tasks(*member, decoded as nat, offset, head_size),
{
    match abi_decode_strategy(member.ty, member.encodable) {
        Some(DecodeStrategy::Word(elem)) => {
            tasks.push(Task::Pick(decoded + 1));
            tasks.push(Task::Service(Service::OffsetPtr(offset)));
            tasks.push(Task::LoadMemory);
            tasks.push(Task::DecodeWord(elem));
        },
        Some(DecodeStrategy::DynBytes) => {
            tasks.push(Task::Pick(decoded + 1));
            tasks.push(Task::Pick(decoded + 3));
            tasks.push(Task::Pick(decoded + 2));
            tasks.push(Task::Pick(decoded + 4));
            tasks.push(Task::Service(Service::OffsetPtr(offset)));
            tasks.push(Task::LoadMemory);
            plan_decode_bytes(tasks);
        },
        Some(DecodeStrategy::ElementaryArray(elem)) => {
            tasks.push(Task::Pick(decoded + 1));
            tasks.push(Task::Pick(decoded + 3));
            tasks.push(Task::Pick(decoded + 3));
            tasks.push(Task::Service(Service::OffsetPtr(offset)));
            tasks.push(Task::LoadMemory);
            plan_decode_array(tasks, elem, head_size);
        },
        Some(DecodeStrategy::General(ty)) => {
            tasks.push(Task::Pick(decoded + 1));
            if member.is_dynamic {
                tasks.push(Task::Pick(decoded + 2));
                tasks.push(Task::Service(Service::OffsetPtr(offset)));
                tasks.push(Task::LoadMemory);
                tasks.push(Task::Add);
            } else {
                tasks.push(Task::Service(Service::OffsetPtr(offset)));
            }
            tasks.push(Task::Service(Service::MaterializeMemory(ty)));
        },
        None => {},
    }
    assert(tasks@ =~= old(tasks)@ + member_tasks(*member, decoded as nat, offset, head_size));
}

/// Adds the tasks that decode a tuple from a region.
pub fn decode_abi_region<'a>(tasks: &mut Vec<Task<'a>>, members: &Vec<Member<'a>>)
    requires
        member_heads(members@, members@.len()) <= u64::MAX,
        members@.len() + 4 <= usize::MAX,
    ensures
        final(tasks)@ == old(tasks)@ + region_tasks(members@),
{
    let mut head_size: u64 = 0;
    let mut k: usize = 0;
    while k < members.len()
        invariant
            k <= members@.len(),
            member_heads(members@, members@.len()) <= u64::MAX,
            head_size == member_heads(members@, k as nat),
        decreases members@.len() - k,
    {
        proof {
            lemma_member_heads_grow(members@, (k + 1) as nat, members@.len());
        }
        head_size = head_size + members[k].head_size;
        k = k + 1;
    }
    tasks.push(Task::CheckRegion(head_size));
    let ghost begin = tasks@;
    let mut offset: u64 = 0;
    let mut i: usize = 0;
    assert(tasks@ =~= begin + members_tasks(members@, head_size, 0));
    while i < members.len()
        invariant
            i <= members@.len(),
            members@.len() + 4 <= usize::MAX,
            member_heads(members@, members@.len()) <= u64::MAX,
            offset == member_heads(members@, i as nat),
            tasks@ == begin + members_tasks(members@, head_size, i as nat),
        decreases members@.len() - i,
    {
        proof {
            lemma_member_heads_grow(members@, (i + 1) as nat, members@.len());
        }
        plan_member_decode(tasks, &members[i], i, offset, head_size);
        offset = offset + members[i].head_size;
        i = i + 1;
        assert(tasks@ =~= begin + members_tasks(members@, head_size, i as nat));
    }
    tasks.push(Task::DropBelow(3, members.len()));
    assert(tasks@ =~= old(tasks)@ + region_tasks(members@));
}

/// The member of a tuple that a type name among the components of a decode
/// target stands for.
pub open spec fn decode_member<'a>(element: Expr) -> Option<Member<'a>> {
    match element.facts.ty {
        Some(Ty::Type(inner)) => {
            let abi = element.facts.named_abi;
            let member = Member {
                ty: &*inner,
                head_size: abi.head_size,
                is_dynamic: abi.is_dynamic,
                encodable: abi.encodable,
            };
            if decode_strategy::<'a>(*inner, abi.encodable) is Some {
                Some(member)
            } else {
                None
            }
        },
        _ => None,
    }
}

/// The members that the first `count` components of a decode target stand for,
/// or the place of the first that cannot be decoded.
pub open spec fn decode_members<'a>(
    elements: Seq<Option<Expr>>,
    span: Span,
    count: nat,
) -> Result<Seq<Member<'a>>, Span>
    decreases count,
{
    if count == 0 {
        Ok(Seq::empty())
    } else {
        match decode_members::<'a>(elements, span, (count - 1) as nat) {
            Ok(front) => match elements[count - 1] {
                Some(element) => match decode_member::<'a>(element) {
                    Some(member) => Ok(front.push(member)),
                    None => Err(element.span),
                },
                None => Err(span),
            },
            Err(place) => Err(place),
        }
    }
}

/// The members of a decode target, or the place of what cannot be decoded.
pub open spec fn decode_target<'a>(types: Expr, span: Span) -> Result<Seq<Member<'a>>, Span> {
    match types.kind {
        ExprKind::Tuple(elements) => decode_members(elements@, span, elements@.len()),
        _ => Err(span),
    }
}

/// A place that cannot be decoded stays one.
proof fn lemma_decode_stops<'a>(elements: Seq<Option<Expr>>, span: Span, fewer: nat, more: nat)
    requires
        fewer <= more,
        decode_members::<'a>(elements, span, fewer) is Err,
    ensures
        decode_members::<'a>(elements, span, more) == decode_members::<'a>(elements, span, fewer),
    decreases more,
{
    if fewer < more {
        lemma_decode_stops(elements, span, fewer, (more - 1) as nat);
    }
}

/// Returns the members of a decode target, or the place of what cannot be
/// decoded.
pub fn abi_decode_tuple_tys<'a>(types: &'a Expr, span: Span) -> (r: Result<Vec<Member<'a>>, Span>)
    ensures
        match r {
            Ok(members) => decode_target::<'a>(*types, span) == Ok::<Seq<Member<'a>>, Span>(
                members@,
            ),
            Err(place) => decode_target::<'a>(*types, span) == Err::<Seq<Member<'a>>, Span>(
                place,
            ),
        },
{
    let elements = match &types.kind {
        ExprKind::Tuple(elements) => elements,
        _ => {
            return Err(span);
        },
    };
    let mut members: Vec<Member<'a>> = Vec::new();
    let mut i: usize = 0;
    assert(members@ =~= Seq::<Member<'a>>::empty());
    while i < elements.len()
        invariant
            i <= elements@.len(),
            types.kind matches ExprKind::Tuple(all) && all@ == elements@,
            decode_members::<'a>(elements@, span, i as nat) == Ok::<Seq<Member<'a>>, Span>(
                members@,
            ),
        decreases elements@.len() - i,
    {
        let element = match &elements[i] {
            Some(element) => element,
            None => {
                proof {
                    lemma_decode_stops(elements@, span, (i + 1) as nat, elements@.len());
                }
                return Err(span);
            },
        };
        let abi = element.facts.named_abi;
        let inner: Option<&'a Ty> = match &element.facts.ty {
            Some(Ty::Type(inner)) => Some(&**inner),
            _ => None,
        };
        match inner {
            Some(inner) => {
                if abi_decode_strategy(inner, abi.encodable).is_none() {
                    proof {
                        lemma_decode_stops(
                            elements@,
                            span,
                            (i + 1) as nat,
                            elements@.len(),
                        );
                    }
                    return Err(element.span);
                }
                members.push(
                    Member {
                        ty: inner,
                        head_size: abi.head_size,
                        is_dynamic: abi.is_dynamic,
                        encodable: abi.encodable,
                    },
                );
            },
            None => {
                proof {
                    lemma_decode_stops(elements@, span, (i + 1) as nat, elements@.len());
                }
                return Err(element.span);
            },
        }
        i = i + 1;
    }
    Ok(members)
}

/// The tasks that lower `abi.decode`. The first decoded value is the result;
/// the others are staged like those of a call with several results.
pub open spec fn abi_decode_tasks<'a>(data: Expr, types: Expr, span: Span) -> Seq<Task<'a>> {
    match decode_target::<'a>(types, span) {
        Ok(members) => {
            let value = if data.facts.calldata_bytes {
                seq![Task::Value(&data)].push(Task::CopyIfCalldata)
            } else {
                seq![Task::Value(&data)]
            };
            let decoded = value + seq![Task::ObjectParts] + region_tasks(members) + seq![
                Task::StageTail(members.len() as usize),
            ];
            if members.len() == 0 {
                decoded.push(Task::Complain(Complaint::EmptyDecode, span))
            } else {
                decoded
            }
        },
        Err(place) => seq![Task::Complain(Complaint::DecodeTarget, place)],
    }
}

/// Whether the heads of a decode target are a number of bytes.
pub open spec fn target_fits<'a>(types: Expr, span: Span) -> bool {
    decode_target::<'a>(types, span) matches Ok(members) ==> member_heads(
        members,
        members.len(),
    ) <= u64::MAX && members.len() + 4 <= usize::MAX
}

/// Returns the tasks that lower `abi.decode`.
pub fn lower_abi_decode<'a>(data: &'a Expr, types: &'a Expr, span: Span) -> (r: Vec<Task<'a>>)
    requires
        target_fits(*types, span),
    ensures
        r@ == abi_decode_tasks::<'a>(*data, *types, span),
{
    let mut tasks: Vec<Task<'a>> = Vec::new();
    match abi_decode_tuple_tys(types, span) {
        Ok(members) => {
            tasks.push(Task::Value(data));
            if data.facts.calldata_bytes {
                tasks.push(Task::CopyIfCalldata);
            }
            tasks.push(Task::ObjectParts);
            decode_abi_region(&mut tasks, &members);
            tasks.push(Task::StageTail(members.len()));
            if members.len() == 0 {
                tasks.push(Task::Complain(Complaint::EmptyDecode, span));
            }
        },
        Err(place) => {
            tasks.push(Task::Complain(Complaint::DecodeTarget, place));
        },
    }
    assert(tasks@ =~= abi_decode_tasks::<'a>(*data, *types, span));
    tasks
}

} // verus!
