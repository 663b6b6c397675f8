//! Plans for handlers of failed calls, elements in storage, struct values and
//! reverts.

use crate::hir::{
    has_variables, hir_wf, peeled, ElementaryType, Expr, ExprKind, Hir, StructId, TryClause, Ty,
    VariableId,
};
use crate::lower::analysis::{constant_string_bytes, string_of};
use crate::lower::arrays::{mapping_base, KeyHash, MappingBase};
use crate::lower::handlers::{classify_clauses, clauses_of, is_named};
use crate::lower::plan::{PanicCode, Service, Task};
use crate::lower::plan_calls::{
    decode_abi_region, decode_bytes_tasks, member_heads, plan_decode_bytes, region_tasks, Member,
};
use crate::lower::slots::slot_of;
use crate::lower::state::{Complaint, Lowerer};
use crate::lower::types::{
    abi_decode_strategy, decode_strategy, mapping_shape, mapping_type_info, storage_array,
    storage_array_type_of_expr,
};
use crate::mir::builder::word;
use crate::mir::types::MemoryObjectKind;
use crate::text::text_is;
use crate::word::U256;
use vstd::prelude::*;

verus! {

/// The first of the variables from an index on that cannot be decoded.
pub open spec fn undecodable_from(hir: Hir, ids: Seq<VariableId>, from: nat) -> Option<nat>
    decreases ids.len() - from,
{
    if from >= ids.len() {
        None
    } else {
        let var = hir.variables@[ids[from as int].0 as int];
        if decode_strategy(var.ty, var.abi.encodable) is None {
            Some(from)
        } else {
            undecodable_from(hir, ids, from + 1)
        }
    }
}

/// The members that variables stand for.
pub open spec fn variable_members<'a>(hir: Hir, ids: Seq<VariableId>) -> Seq<Member<'a>> {
    ids.map_values(|id: VariableId| variable_member(hir, id))
}

/// The member that a variable stands for.
pub open spec fn variable_member<'a>(hir: Hir, id: VariableId) -> Member<'a> {
    let var = hir.variables@[id.0 as int];
    Member {
        ty: &var.ty,
        head_size: var.abi.head_size,
        is_dynamic: var.abi.is_dynamic,
        encodable: var.abi.encodable,
    }
}

/// The tasks that bind the values at the top, the last one first, to variables.
pub open spec fn bind_tasks<'a>(ids: Seq<VariableId>, count: nat) -> Seq<Task<'a>>
    decreases count,
{
    if count == 0 {
        Seq::empty()
    } else {
        bind_tasks(ids, (count - 1) as nat) + seq![Task::Pick((ids.len() - count) as usize)]
            .push(Task::BindLocal(ids[count - 1]))
    }
}

/// The tasks that decode the data of a successful call into the variables of
/// the success clause. Data that cannot be decoded reverts and reaches no
/// handler: the call itself succeeded.
pub open spec fn try_results_tasks<'a>(hir: Hir, clause: TryClause) -> Seq<Task<'a>> {
    let ids = clause.args@;
    match undecodable_from(hir, ids, 0) {
        Some(index) => seq![
            Task::Report(
                Complaint::TryReturnType,
                hir.variables@[ids[index as int].0 as int].span,
            ),
        ],
        None => seq![Task::Service(Service::ReturndataBytes)]
            .push(Task::ObjectParts) + region_tasks(
            variable_members(hir, ids),
        ) + bind_tasks(ids, ids.len()) + seq![Task::DropBelow(ids.len() as usize, 0)],
    }
}

/// Returns the tasks that decode the data of a successful call into the
/// variables of the success clause. The values are bound in order.
pub fn plan_try_results<'a>(hir: &'a Hir, clause: &'a TryClause) -> (r: Vec<Task<'a>>)
    requires
        has_variables(*hir, clause.args@),
        member_heads(variable_members(*hir, clause.args@), clause.args@.len()) <= u64::MAX,
        clause.args@.len() + 4 <= usize::MAX,
    ensures
        r@ == try_results_tasks::<'a>(*hir, *clause),
{
    let ids = &clause.args;
    let mut tasks: Vec<Task<'a>> = Vec::new();
    let mut members: Vec<Member<'a>> = Vec::new();
    let mut i: usize = 0;
    while i < ids.len()
        invariant
            i <= ids@.len(),
            ids@ == clause.args@,
            has_variables(*hir, ids@),
            tasks@.len() == 0,
            members@.len() == i,
            forall|k: int|
                0 <= k < i ==> #[trigger] members@[k] == variable_member::<'a>(*hir, ids@[k]),
            undecodable_from(*hir, ids@, 0) == undecodable_from(*hir, ids@, i as nat),
        decreases ids@.len() - i,
    {
        assert(ids@[i as int].0 < hir.variables@.len());
        let var = &hir.variables[ids[i].0];
        if abi_decode_strategy(&var.ty, var.abi.encodable).is_none() {
            tasks.push(Task::Report(Complaint::TryReturnType, var.span));
            assert(tasks@ =~= try_results_tasks::<'a>(*hir, *clause));
            return tasks;
        }
        members.push(
            Member {
                ty: &var.ty,
                head_size: var.abi.head_size,
                is_dynamic: var.abi.is_dynamic,
                encodable: var.abi.encodable,
            },
        );
        i = i + 1;
    }
    assert(members@ =~= variable_members::<'a>(*hir, ids@));
    tasks.push(Task::Service(Service::ReturndataBytes));
    tasks.push(Task::ObjectParts);
    decode_abi_region(&mut tasks, &members);
    let ghost begin = tasks@;
    let mut k: usize = 0;
    assert(tasks@ =~= begin + bind_tasks::<'a>(ids@, 0));
    while k < ids.len()
        invariant
            k <= ids@.len(),
            tasks@ == begin + bind_tasks::<'a>(ids@, k as nat),
        decreases ids@.len() - k,
    {
        tasks.push(Task::Pick(ids.len() - 1 - k));
        tasks.push(Task::BindLocal(ids[k]));
        k = k + 1;
        assert(tasks@ =~= begin + bind_tasks::<'a>(ids@, k as nat));
    }
    tasks.push(Task::DropBelow(ids.len(), 0));
    assert(tasks@ =~= try_results_tasks::<'a>(*hir, *clause));
    tasks
}

/// The complaints about the handlers among the first `count` clauses that are
/// not known.
pub open spec fn unknown_tasks<'a>(clauses: Seq<TryClause>, count: nat) -> Seq<Task<'a>>
    decreases count,
{
    if count <= 1 {
        Seq::empty()
    } else {
        let front = unknown_tasks(clauses, (count - 1) as nat);
        let clause = clauses[count - 1];
        if clause.name is Some && !is_named(clause, "Error"@) && !is_named(clause, "Panic"@) {
            front.push(Task::Report(Complaint::UnknownHandler(clause.name->0.symbol), clause.span))
        } else {
            front
        }
    }
}

/// The task that binds the one variable of a handler to the top value.
pub open spec fn handler_binding<'a>(clause: TryClause) -> Task<'a> {
    if clause.args@.len() == 1 {
        Task::BindLocal(clause.args@[0])
    } else {
        Task::Discard
    }
}

/// The tasks for the handler of `Error(string)`.
pub open spec fn error_handler_tasks<'a>(clause: TryClause) -> Seq<Task<'a>> {
    let matched = seq![Task::ErrorHandler]
        .push(Task::Service(Service::ReturndataBytes))
        .push(Task::ErrorRegion);
    let handled = seq![handler_binding(clause)]
        .push(Task::Statements(&clause.body, 0))
        .push(Task::HandlerEnd);
    matched + decode_bytes_tasks() + handled
}

/// The tasks for the handler of `Panic(uint256)`.
pub open spec fn panic_handler_tasks<'a>(clause: TryClause) -> Seq<Task<'a>> {
    seq![Task::PanicHandler]
        .push(handler_binding(clause))
        .push(Task::Statements(&clause.body, 0))
        .push(Task::HandlerEnd)
}

/// The tasks for the handler of everything else.
pub open spec fn fallback_handler_tasks<'a>(clause: TryClause) -> Seq<Task<'a>> {
    let bound = if clause.args@.len() == 1 {
        seq![Task::Service(Service::ReturndataBytes)].push(Task::BindLocal(clause.args@[0]))
    } else {
        Seq::empty()
    };
    bound + seq![Task::Statements(&clause.body, 0)].push(Task::FallbackEnd)
}

/// The tasks for the handlers of a try statement. `Error` and `Panic` handlers
/// match their selectors; any other handler takes everything else; with no
/// handler that applies, the failure is passed on.
pub open spec fn catch_tasks<'a>(clauses: Seq<TryClause>) -> Seq<Task<'a>> {
    let found = clauses_of(clauses, clauses.len());
    let error = match found.error {
        Some(index) => error_handler_tasks(clauses[index as int]),
        None => Seq::empty(),
    };
    let panic = match found.panic {
        Some(index) => panic_handler_tasks(clauses[index as int]),
        None => Seq::empty(),
    };
    let fallback = match found.fallback {
        Some(index) => fallback_handler_tasks(clauses[index as int]),
        None => seq![Task::NoFallback],
    };
    unknown_tasks(clauses, clauses.len()) + seq![Task::HandlersBegin] + error + panic + seq![
        Task::FallbackHandler,
    ] + fallback + seq![Task::Rethrow]
}

/// Adds the tasks for the handler of `Error(string)`.
fn plan_error_handler<'a>(tasks: &mut Vec<Task<'a>>, clause: &'a TryClause)
    ensures
        final(tasks)@ == old(tasks)@ + error_handler_tasks::<'a>(*clause),
{
    tasks.push(Task::ErrorHandler);
    tasks.push(Task::Service(Service::ReturndataBytes));
    tasks.push(Task::ErrorRegion);
    plan_decode_bytes(tasks);
    if clause.args.len() == 1 {
        tasks.push(Task::BindLocal(clause.args[0]));
    } else {
        tasks.push(Task::Discard);
    }
    tasks.push(Task::Statements(&clause.body, 0));
    tasks.push(Task::HandlerEnd);
    assert(tasks@ =~= old(tasks)@ + error_handler_tasks::<'a>(*clause));
}

/// Adds the tasks for the handler of `Panic(uint256)`.
fn plan_panic_handler<'a>(tasks: &mut Vec<Task<'a>>, clause: &'a TryClause)
    ensures
        final(tasks)@ == old(tasks)@ + panic_handler_tasks::<'a>(*clause),
{
    tasks.push(Task::PanicHandler);
    if clause.args.len() == 1 {
        tasks.push(Task::BindLocal(clause.args[0]));
    } else {
        tasks.push(Task::Discard);
    }
    tasks.push(Task::Statements(&clause.body, 0));
    tasks.push(Task::HandlerEnd);
    assert(tasks@ =~= old(tasks)@ + panic_handler_tasks::<'a>(*clause));
}

/// Adds the tasks for the handler of everything else.
fn plan_fallback_handler<'a>(tasks: &mut Vec<Task<'a>>, clause: &'a TryClause)
    ensures
        final(tasks)@ == old(tasks)@ + fallback_handler_tasks::<'a>(*clause),
{
    if clause.args.len() == 1 {
        tasks.push(Task::Service(Service::ReturndataBytes));
        tasks.push(Task::BindLocal(clause.args[0]));
    }
    tasks.push(Task::Statements(&clause.body, 0));
    tasks.push(Task::FallbackEnd);
    assert(tasks@ =~= old(tasks)@ + fallback_handler_tasks::<'a>(*clause));
}

/// Returns the tasks for the handlers of a try statement.
pub fn plan_catch<'a>(clauses: &'a Vec<TryClause>) -> (r: Vec<Task<'a>>)
    ensures
        r@ == catch_tasks::<'a>(clauses@),
{
    let mut tasks: Vec<Task<'a>> = Vec::new();
    let mut i: usize = 1;
    assert(tasks@ =~= unknown_tasks::<'a>(clauses@, 1));
    while i < clauses.len()
        invariant
            1 <= i,
            i <= clauses@.len() || i == 1,
            tasks@ == unknown_tasks::<'a>(clauses@, i as nat),
        decreases clauses@.len() - i,
    {
        if let Some(name) = &clauses[i].name {
            if !text_is(&name.text, "Error") && !text_is(&name.text, "Panic") {
                tasks.push(Task::Report(Complaint::UnknownHandler(name.symbol), clauses[i].span));
            }
        }
        i = i + 1;
    }
    assert(tasks@ =~= unknown_tasks::<'a>(clauses@, clauses@.len()));
    let found = classify_clauses(clauses);
    tasks.push(Task::HandlersBegin);
    if let Some(index) = found.error {
        plan_error_handler(&mut tasks, &clauses[index]);
    }
    if let Some(index) = found.panic {
        plan_panic_handler(&mut tasks, &clauses[index]);
    }
    tasks.push(Task::FallbackHandler);
    match found.fallback {
        Some(index) => plan_fallback_handler(&mut tasks, &clauses[index]),
        None => tasks.push(Task::NoFallback),
    }
    tasks.push(Task::Rethrow);
    assert(tasks@ =~= catch_tasks::<'a>(clauses@));
    tasks
}

/// The tasks that compute the slot of an array element once the slot of the
/// array and the index are on the stack.
pub open spec fn element_slot_tasks<'a>(fixed_len: Option<u64>, slots: u64) -> Seq<Task<'a>> {
    seq![Task::ArrayLength(fixed_len)]
        .push(Task::Service(Service::BoundsCheck))
        .push(Task::ElementSlot(fixed_len, slots))
}

/// Returns the tasks that compute the slot of an array element once the slot of
/// the array and the index are on the stack.
pub fn plan_element_slot<'a>(fixed_len: Option<u64>, slots: u64) -> (r: Vec<Task<'a>>)
    ensures
        r@ == element_slot_tasks::<'a>(fixed_len, slots),
{
    let tasks: Vec<Task<'a>> = vec![
        Task::ArrayLength(fixed_len),
        Task::Service(Service::BoundsCheck),
        Task::ElementSlot(fixed_len, slots),
    ];
    assert(tasks@ =~= element_slot_tasks::<'a>(fixed_len, slots));
    tasks
}

/// The array in storage that an expression is: its length if it is fixed, and
/// the slots of an element.
pub open spec fn array_in_storage(expr: Expr) -> Option<(Option<u64>, u64)> {
    match storage_array(expr) {
        Some((_, len)) => Some((len, expr.facts.element_slots)),
        None => None,
    }
}

/// Returns the array in storage that an expression is. Its slot is that of the
/// expression.
pub fn storage_array_slot_of_base(expr: &Expr) -> (r: Option<(Option<u64>, u64)>)
    ensures
        r == array_in_storage(*expr),
{
    match storage_array_type_of_expr(expr) {
        Some((_, len)) => Some((len, expr.facts.element_slots)),
        None => None,
    }
}

/// The element type and the slots of an element of an array of any length in
/// storage.
pub open spec fn dynamic_array_in_storage(expr: Expr) -> Option<(Ty, u64)> {
    match storage_array(expr) {
        Some((element, None)) => Some((element, expr.facts.element_slots)),
        _ => None,
    }
}

/// Returns the element type and the slots of an element of an array of any
/// length in storage.
pub fn storage_dynamic_array_info<'a>(expr: &'a Expr) -> (r: Option<(&'a Ty, u64)>)
    ensures
        match r {
            Some((element, slots)) => dynamic_array_in_storage(*expr) == Some((*element, slots)),
            None => dynamic_array_in_storage(*expr) is None,
        },
{
    match storage_array_type_of_expr(expr) {
        Some((element, None)) => Some((element, expr.facts.element_slots)),
        _ => None,
    }
}

/// The tasks that append a zero-initialized element to the array whose slot is
/// on the stack and leave the slot of the element.
pub open spec fn push_slot_tasks<'a>(element: Ty, slots: u64) -> Seq<Task<'a>> {
    seq![Task::PushBegin]
        .push(Task::Service(Service::PanicIf(PanicCode::MemoryAllocationOverflow)))
        .push(Task::PushedElement(slots))
        .push(Task::Service(Service::ClearValueAt(&element)))
        .push(Task::PushEnd)
}

/// The tasks that lower `push()`: a reference is its slot, anything else reads
/// as the zero it was initialized to.
pub open spec fn push_empty_tasks<'a>(element: Ty, slots: u64, is_reference: bool) -> Seq<
    Task<'a>,
> {
    if is_reference {
        push_slot_tasks(element, slots)
    } else {
        push_slot_tasks(element, slots) + seq![Task::Discard].push(Task::Constant(word(0)))
    }
}

/// Returns the tasks that lower `push()` on the array whose slot is on the
/// stack.
pub fn plan_push_empty<'a>(element: &'a Ty, slots: u64, is_reference: bool) -> (r: Vec<Task<'a>>)
    ensures
        r@ == push_empty_tasks::<'a>(*element, slots, is_reference),
{
    let mut tasks: Vec<Task<'a>> = vec![
        Task::PushBegin,
        Task::Service(Service::PanicIf(PanicCode::MemoryAllocationOverflow)),
        Task::PushedElement(slots),
        Task::Service(Service::ClearValueAt(element)),
        Task::PushEnd,
    ];
    if !is_reference {
        tasks.push(Task::Discard);
        tasks.push(Task::Constant(U256::from_u64(0)));
    }
    assert(tasks@ =~= push_empty_tasks::<'a>(*element, slots, is_reference));
    tasks
}

/// The task that lowers a value that is appended.
pub open spec fn pushed_value<'a>(element: Ty, arg: Expr) -> Task<'a> {
    match peeled(element) {
        Ty::Elementary(ElementaryType::Bytes) | Ty::Elementary(ElementaryType::String) => {
            Task::Service(Service::MemoryBytes(&arg))
        },
        Ty::DynArray(_) => Task::Service(Service::MemoryArray(&arg)),
        _ => Task::Value(&arg),
    }
}

/// The tasks that lower `push(arg)` on the array whose slot is on the stack.
/// The argument is evaluated before the length is read.
pub open spec fn push_tasks<'a>(element: Ty, slots: u64, arg: Expr) -> Seq<Task<'a>> {
    seq![pushed_value(element, arg)]
        .push(Task::Pick(1))
        .push(Task::PushBegin)
        .push(Task::Service(Service::PanicIf(PanicCode::MemoryAllocationOverflow)))
        .push(Task::PushedElement(slots))
        .push(Task::Pick(4))
        .push(Task::Pick(1))
        .push(Task::Service(Service::StoreValueAt(&element)))
        .push(Task::PushEnd)
        .push(Task::DropBelow(3, 0))
}

/// Returns the tasks that lower `push(arg)` on the array whose slot is on the
/// stack.
pub fn plan_push<'a>(element: &'a Ty, slots: u64, arg: &'a Expr) -> (r: Vec<Task<'a>>)
    ensures
        r@ == push_tasks::<'a>(*element, slots, *arg),
{
    let value = match element.peel_refs() {
        Ty::Elementary(ElementaryType::Bytes) | Ty::Elementary(ElementaryType::String) => {
            Task::Service(Service::MemoryBytes(arg))
        },
        Ty::DynArray(_) => Task::Service(Service::MemoryArray(arg)),
        _ => Task::Value(arg),
    };
    let tasks: Vec<Task<'a>> = vec![
        value,
        Task::Pick(1),
        Task::PushBegin,
        Task::Service(Service::PanicIf(PanicCode::MemoryAllocationOverflow)),
        Task::PushedElement(slots),
        Task::Pick(4),
        Task::Pick(1),
        Task::Service(Service::StoreValueAt(element)),
        Task::PushEnd,
        Task::DropBelow(3, 0),
    ];
    assert(tasks@ =~= push_tasks::<'a>(*element, slots, *arg));
    tasks
}

/// The tasks that lower `pop()` on the array whose slot is on the stack.
pub open spec fn pop_tasks<'a>(element: Ty, slots: u64) -> Seq<Task<'a>> {
    seq![Task::Duplicate]
        .push(Task::LoadStorage)
        .push(Task::Service(Service::PanicIfZero(PanicCode::PopEmptyArray)))
        .push(Task::PopBegin)
        .push(Task::PoppedElement(slots))
        .push(Task::Service(Service::ClearValueAt(&element)))
        .push(Task::Discard)
        .push(Task::PopEnd)
}

/// Returns the tasks that lower `pop()` on the array whose slot is on the
/// stack.
pub fn plan_pop<'a>(element: &'a Ty, slots: u64) -> (r: Vec<Task<'a>>)
    ensures
        r@ == pop_tasks::<'a>(*element, slots),
{
    let tasks: Vec<Task<'a>> = vec![
        Task::Duplicate,
        Task::LoadStorage,
        Task::Service(Service::PanicIfZero(PanicCode::PopEmptyArray)),
        Task::PopBegin,
        Task::PoppedElement(slots),
        Task::Service(Service::ClearValueAt(element)),
        Task::Discard,
        Task::PopEnd,
    ];
    assert(tasks@ =~= pop_tasks::<'a>(*element, slots));
    tasks
}

/// The tasks that compute the slot of a mapping element, where the mapping has
/// a slot. A constant slot is made after the index, any other before it.
pub open spec fn mapping_element_tasks<'a>(
    lowerer: Lowerer,
    hir: Hir,
    base: Expr,
    index: Option<&'a Expr>,
) -> Option<(Seq<Task<'a>>, bool)> {
    match mapping_shape(base) {
        Some((key_is_dynamic, value_is_mapping)) => {
            let key = Task::Service(Service::IndexValue(index, base.span));
            let slot = Task::MappingSlot(index, key_is_dynamic);
            match mapping_base(lowerer, base) {
                MappingBase::Constant(constant) => Some(
                    (
                        seq![key].push(Task::Constant(constant)).push(Task::Exchange).push(slot),
                        value_is_mapping,
                    ),
                ),
                MappingBase::Value(value) => Some(
                    (seq![Task::Reuse(value)].push(key).push(slot), value_is_mapping),
                ),
                MappingBase::Lvalue => if slot_of::<'a>(lowerer, hir, base) is Some {
                    Some((seq![Task::Slot(&base)].push(key).push(slot), value_is_mapping))
                } else {
                    None
                },
            }
        },
        None => None,
    }
}

/// The tasks that compute the slot of a mapping element from the slot and the
/// key on the stack.
pub open spec fn key_tasks<'a>(hash: KeyHash, index: Option<&'a Expr>) -> Seq<Task<'a>> {
    match hash {
        KeyHash::MemorySlice => seq![Task::Service(Service::MemorySliceBytes)]
            .push(Task::MappingSlotBy(hash, index)),
        KeyHash::Storage => seq![Task::Service(Service::StorageBytes)]
            .push(Task::MappingSlotBy(hash, index)),
        _ => seq![Task::MappingSlotBy(hash, index)],
    }
}

/// Returns the tasks that compute the slot of a mapping element from the slot
/// and the key on the stack.
pub fn plan_key<'a>(hash: KeyHash, index: Option<&'a Expr>) -> (r: Vec<Task<'a>>)
    ensures
        r@ == key_tasks(hash, index),
{
    let mut tasks: Vec<Task<'a>> = Vec::new();
    match hash {
        KeyHash::MemorySlice => {
            tasks.push(Task::Service(Service::MemorySliceBytes));
        },
        KeyHash::Storage => {
            tasks.push(Task::Service(Service::StorageBytes));
        },
        _ => {},
    }
    tasks.push(Task::MappingSlotBy(hash, index));
    assert(tasks@ =~= key_tasks(hash, index));
    tasks
}

impl Lowerer {
    /// Returns the tasks that compute the slot of a mapping element, and
    /// whether the element is itself a mapping, in which case the slot stands
    /// for it.
    pub fn lower_mapping_element_slot<'a>(
        &self,
        hir: &Hir,
        base: &'a Expr,
        index: Option<&'a Expr>,
    ) -> (r: Option<(Vec<Task<'a>>, bool)>)
        requires
            hir_wf(*hir),
        ensures
            match r {
                Some((tasks, value_is_mapping)) => mapping_element_tasks(*self, *hir, *base, index)
                    == Some((tasks@, value_is_mapping)),
                None => mapping_element_tasks(*self, *hir, *base, index) is None,
            },
    {
        let (key_is_dynamic, value_is_mapping) = match mapping_type_info(base) {
            Some(shape) => shape,
            None => {
                return None;
            },
        };
        let mut tasks: Vec<Task<'a>> = Vec::new();
        match self.find_mapping_base(base) {
            MappingBase::Constant(constant) => {
                tasks.push(Task::Service(Service::IndexValue(index, base.span)));
                tasks.push(Task::Constant(constant));
                tasks.push(Task::Exchange);
            },
            MappingBase::Value(value) => {
                tasks.push(Task::Reuse(value));
                tasks.push(Task::Service(Service::IndexValue(index, base.span)));
            },
            MappingBase::Lvalue => {
                if self.slot_plan(hir, base).is_none() {
                    return None;
                }
                tasks.push(Task::Slot(base));
                tasks.push(Task::Service(Service::IndexValue(index, base.span)));
            },
        }
        tasks.push(Task::MappingSlot(index, key_is_dynamic));
        assert(tasks@ =~= (mapping_element_tasks(*self, *hir, *base, index)->0).0);
        Some((tasks, value_is_mapping))
    }
}

/// The tasks that store the first `count` arguments of a struct constructor.
pub open spec fn struct_field_tasks<'a>(
    fields: Seq<VariableId>,
    args: Seq<Expr>,
    count: nat,
) -> Seq<
    Task<'a>,
>
    decreases count,
{
    if count == 0 {
        Seq::empty()
    } else {
        struct_field_tasks(fields, args, (count - 1) as nat)
            + seq![Task::Service(Service::ValueFor(&args[count - 1], fields[count - 1]))]
            .push(Task::KeepField(fields.len() as u64, (count - 1) as u64))
    }
}

/// The tasks that build a struct in memory: every field is a word.
pub open spec fn struct_tasks<'a>(hir: Hir, id: StructId, args: Seq<Expr>) -> Seq<Task<'a>> {
    let fields = hir.structs@[id.0 as int].fields@;
    let count = if args.len() <= fields.len() {
        args.len()
    } else {
        fields.len()
    };
    seq![Task::Allocate((fields.len() * 32) as u64, MemoryObjectKind::Struct)]
        + struct_field_tasks(fields, args, count)
}

/// Returns the tasks that build a struct in memory from its constructor
/// arguments.
pub fn lower_struct_constructor<'a>(hir: &'a Hir, id: StructId, args: &'a Vec<Expr>) -> (r: Vec<
    Task<'a>,
>)
    requires
        id.0 < hir.structs@.len(),
        hir.structs@[id.0 as int].fields@.len() * 32 <= u64::MAX,
    ensures
        r@ == struct_tasks::<'a>(*hir, id, args@),
{
    let fields = &hir.structs[id.0].fields;
    let mut tasks: Vec<Task<'a>> = Vec::new();
    tasks.push(Task::Allocate(fields.len() as u64 * 32, MemoryObjectKind::Struct));
    let ghost begin = tasks@;
    let mut i: usize = 0;
    assert(tasks@ =~= begin + struct_field_tasks::<'a>(fields@, args@, 0));
    while i < args.len() && i < fields.len()
        invariant
            i <= args@.len(),
            i <= fields@.len(),
            tasks@ == begin + struct_field_tasks::<'a>(fields@, args@, i as nat),
        decreases args@.len() - i,
    {
        tasks.push(Task::Service(Service::ValueFor(&args[i], fields[i])));
        tasks.push(Task::KeepField(fields.len() as u64, i as u64));
        i = i + 1;
        assert(tasks@ =~= begin + struct_field_tasks::<'a>(fields@, args@, i as nat));
    }
    assert(tasks@ =~= struct_tasks::<'a>(*hir, id, args@));
    tasks
}

/// Whether an expression of a type is a string.
pub open spec fn is_string(ty: Option<Ty>) -> bool {
    ty matches Some(ty) && (peeled(ty) matches Ty::Elementary(elem) && elem is String)
}

/// Whether tasks revert with the string that an expression is. A constant
/// string of at most a word goes through the shared helper; a longer one is
/// built in memory; any other string is lowered. An expression that is no
/// string has no tasks.
pub open spec fn reverts_with<'a>(hir: Hir, expr: Expr, tasks: Option<Seq<Task<'a>>>) -> bool {
    match string_of(hir, expr, 4) {
        Some(bytes) => exists|text: Vec<u8>|
            #![trigger text@]
            text@ == bytes && tasks == Some(
                if 1 <= bytes.len() <= 32 {
                    seq![Task::HelperRevert(&text)]
                } else {
                    seq![Task::ConstantBytes(&text)].push(Task::StringRevert)
                },
            ),
        None => match expr.kind {
            ExprKind::Lit(_) => tasks is None,
            _ => if is_string(expr.facts.ty) {
                tasks == Some(seq![Task::Value(&expr)].push(Task::StringRevert))
            } else {
                tasks is None
            },
        },
    }
}

/// The tasks that a plan may hold.
pub open spec fn tasks_view<'a>(tasks: Option<Vec<Task<'a>>>) -> Option<Seq<Task<'a>>> {
    match tasks {
        Some(tasks) => Some(tasks@),
        None => None,
    }
}

/// Returns the tasks that revert with the string that an expression is, if it
/// is one.
pub fn emit_revert_error_string_from_expr<'a>(hir: &'a Hir, expr: &'a Expr) -> (r: Option<
    Vec<Task<'a>>,
>)
    ensures
        reverts_with(*hir, *expr, tasks_view(r)),
{
    if let Some(bytes) = constant_string_bytes(hir, expr) {
        if 1 <= bytes.len() && bytes.len() <= 32 {
            let tasks = vec![Task::HelperRevert(bytes)];
            assert(tasks@ =~= seq![Task::<'a>::HelperRevert(bytes)]);
            return Some(tasks);
        }
        let tasks = vec![Task::ConstantBytes(bytes), Task::StringRevert];
        assert(tasks@ =~= seq![Task::<'a>::ConstantBytes(bytes)].push(Task::StringRevert));
        return Some(tasks);
    }
    if let ExprKind::Lit(_) = &expr.kind {
        return None;
    }
    let string = match &expr.facts.ty {
        Some(ty) => match ty.peel_refs() {
            Ty::Elementary(ElementaryType::String) => true,
            _ => false,
        },
        None => false,
    };
    if !string {
        return None;
    }
    let tasks = vec![Task::Value(expr), Task::StringRevert];
    assert(tasks@ =~= seq![Task::<'a>::Value(expr)].push(Task::StringRevert));
    Some(tasks)
}

} // verus!
