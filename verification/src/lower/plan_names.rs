//! Plans for names and members.

use crate::hir::{
    hir_wf, Builtin, DataLocation, Expr, ExprKind, Hir, HirFunctionId, ItemId, Res, StructId, Ty,
    VariableId,
};
use crate::lower::fields::{
    expr_struct, field_named, field_slot_offset, get_struct_field_slot_offset, is_memory_struct,
    is_memory_struct_base, memory_field, named_struct, nested_slot, slot_after, slot_plus,
    state_field, struct_field_index, struct_id_of_expr, struct_of_type,
};
use crate::lower::names::{
    ident_function_selector, left_aligned_selector, lower_resolved_event_selector,
    lower_resolved_function_selector, resolved_event_selector, resolved_selector, selector_word,
    shared_selector,
};
use crate::lower::plan::{Service, Task};
use crate::lower::slots::{matching_field, plan_view, plus_offset, slot_of, SlotPlan, SlotRoot};
use crate::lower::state::{lookup, Complaint, Lowerer};
use crate::lower::types::{
    calldata_dynamic_var_kind, calldata_kind, fixed_array_len_of_expr, fixed_len, storage_array,
    storage_array_type_of_expr,
};
use crate::mir::builder::word;
use crate::mir::function::{Function, FunctionView};
use crate::mir::types::{MemoryObjectKind, MirType, SliceLocation, Span, Value, ValueId};
use crate::text::text_is;
use crate::word::U256;
use vstd::prelude::*;

verus! {

/// The tasks that lower a name of a variable: its value at hand, its place in
/// memory, the initial value of a constant, an immutable, a state variable, or
/// else its default.
pub open spec fn variable_tasks<'a>(
    lowerer: Lowerer,
    hir: Hir,
    id: VariableId,
    span: Span,
) -> Seq<Task<'a>> {
    let var = hir.variables@[id.0 as int];
    if lookup(lowerer.locals@, id) is Some {
        seq![Task::Reuse(lowerer.locals@[id.0])]
    } else if lookup(lowerer.local_memory_slots@, id) is Some {
        if lowerer.slice_slot_locals@.contains(id.0) {
            seq![Task::LoadSlice(lowerer.local_memory_slots@[id.0])]
        } else {
            seq![Task::LoadVariable(lowerer.local_memory_slots@[id.0])]
        }
    } else if var.mutability is Constant && var.initializer is Some {
        seq![Task::Value(&var.initializer->0)]
    } else if lookup(lowerer.immutable_slots@, id) is Some {
        seq![Task::LoadImmutable(lowerer.immutable_slots@[id.0])]
    } else if lookup(lowerer.storage_locations@, id) is Some {
        let location = lowerer.storage_locations@[id.0];
        match named_struct(hir, var.declared) {
            Some(struct_id) => seq![Task::Allocate(
                    hir.structs@[struct_id.0 as int].memory_words.wrapping_mul(32),
                    MemoryObjectKind::Struct,
                )]
                .push(Task::Service(Service::StorageStruct(id, struct_id))),
            None => if crate::lower::types::is_content_key(var.declared) {
                seq![Task::Constant(location.slot)].push(Task::Service(Service::StorageBytes))
            } else {
                seq![Task::Constant(location.slot)]
                    .push(Task::Service(Service::LoadLocation(location)))
            },
        }
    } else {
        seq![Task::DefaultVariable(id, Complaint::ItemValue, span)]
    }
}

/// The tasks that lower a name.
pub open spec fn name_tasks<'a>(lowerer: Lowerer, hir: Hir, expr: Expr) -> Seq<Task<'a>> {
    match expr.facts.res {
        None => seq![Task::Complain(Complaint::OverloadedIdentifier, expr.span)],
        Some(Res::Item(ItemId::Function(id))) => seq![
            Task::FunctionPointer(
                match expr.facts.exact_callee {
                    Some(exact) => exact,
                    None => id,
                },
            ),
        ],
        Some(Res::Item(ItemId::Variable(id))) => if id.0 < hir.variables@.len() {
            variable_tasks(lowerer, hir, id, expr.span)
        } else {
            seq![Task::Complain(Complaint::ItemValue, expr.span)]
        },
        Some(Res::Item(_)) => seq![Task::Complain(Complaint::ItemValue, expr.span)],
        Some(Res::Builtin(builtin)) => seq![Task::Builtin(builtin, expr.span)],
        Some(Res::Namespace) => seq![Task::Complain(Complaint::NamespaceValue, expr.span)],
        Some(Res::Error(guar)) => seq![Task::ErrorValue(guar)],
    }
}

/// Whether a value is a slice of the call data.
pub open spec fn is_calldata_slice(func: FunctionView, value: ValueId) -> bool {
    crate::mir::function::has_value(func, value) && match func.values[value.0 as int] {
        Value::Arg(arg) => arg.ty == MirType::Slice(SliceLocation::Calldata),
        Value::Inst(id) => func.insts[id.0 as int].result_ty == Some(
            MirType::Slice(SliceLocation::Calldata),
        ),
        Value::Undef(ty) => ty == MirType::Slice(SliceLocation::Calldata),
        _ => false,
    }
}

/// The tasks that push the slice that a call-data variable is.
pub open spec fn slice_variable_tasks<'a>(
    lowerer: Lowerer,
    func: FunctionView,
    hir: Hir,
    base: Expr,
) -> Option<Seq<Task<'a>>> {
    match base.facts.variable {
        Some(id) => if id.0 < hir.variables@.len() && calldata_kind(hir.variables@[id.0 as int])
            is Some {
            if lowerer.slice_slot_locals@.contains(id.0) {
                if lookup(lowerer.local_memory_slots@, id) is Some {
                    Some(seq![Task::LoadSlice(lowerer.local_memory_slots@[id.0])])
                } else {
                    None
                }
            } else if lookup(lowerer.locals@, id) is Some && is_calldata_slice(
                func,
                lowerer.locals@[id.0],
            ) {
                Some(seq![Task::Reuse(lowerer.locals@[id.0])])
            } else {
                None
            }
        } else {
            None
        },
        None => None,
    }
}

/// Whether the checked type of an expression is in the call data or a slice.
pub open spec fn is_calldata_typed(expr: Expr) -> bool {
    match expr.facts.ty {
        Some(Ty::Ref(_, DataLocation::Calldata)) => true,
        Some(Ty::Slice(_)) => true,
        _ => false,
    }
}

/// The tasks that lower the length of an array, where it is not simply the
/// first word of an object in memory: of an array in storage, of a slice of the
/// call data, or a constant. `expr` is the whole member expression.
pub open spec fn length_tasks<'a>(
    lowerer: Lowerer,
    func: FunctionView,
    hir: Hir,
    expr: Expr,
    base: Expr,
) -> Option<Seq<Task<'a>>> {
    match (storage_array(base), slot_of::<'a>(lowerer, hir, base)) {
        (Some((_, len)), Some(_)) => {
            let slot = Task::Slot(&base);
            Some(
                match len {
                    Some(len) => seq![slot].push(Task::Discard).push(Task::Constant(word(len))),
                    None => seq![slot].push(Task::LoadStorage),
                },
            )
        },
        _ => match slice_variable_tasks(lowerer, func, hir, base) {
            Some(tasks) => Some(tasks.push(Task::SliceLen)),
            None => if base.facts.builtin == Some(Builtin::MsgData) {
                Some(seq![Task::Value(&base)].push(Task::SliceLen))
            } else if is_calldata_typed(base) {
                Some(seq![Task::Value(&base)].push(Task::CalldataLength(&expr)))
            } else {
                match fixed_len(hir, base) {
                    Some(len) => Some(seq![Task::Constant(word(len))]),
                    None => None,
                }
            },
        },
    }
}

/// How the slot of a struct member is computed when the member is read or
/// assigned: through the slot of its base by the resolved field, as a member of
/// a state variable, as a member of a nested struct, or through the slot of its
/// base by name.
pub open spec fn member_slot<'a>(lowerer: Lowerer, hir: Hir, expr: Expr) -> Option<
    (SlotRoot<'a>, Seq<u64>),
> {
    match expr.kind {
        ExprKind::Member(base, member) => match (
            matching_field(hir, expr, *base),
            slot_of::<'a>(lowerer, hir, *base),
        ) {
            (Some((id, field)), Some((root, offsets))) => Some(
                (root, plus_offset(offsets, field_slot_offset(hir, id, field))),
            ),
            (_, base_slot) => member_slot_by_name(lowerer, hir, *base, member@, base_slot),
        },
        _ => None,
    }
}

/// How the slot of a struct member is computed by its name.
pub open spec fn member_slot_by_name<'a>(
    lowerer: Lowerer,
    hir: Hir,
    base: Expr,
    member: Seq<char>,
    base_slot: Option<(SlotRoot<'a>, Seq<u64>)>,
) -> Option<(SlotRoot<'a>, Seq<u64>)> {
    let bases = lowerer.struct_storage_base_slots@;
    match state_field(bases, hir, base, member) {
        Some((slot, id, field)) => Some(
            (SlotRoot::Constant(slot_after(slot, field_slot_offset(hir, id, field))), Seq::empty()),
        ),
        None => match nested_slot(bases, hir, base, member) {
            Some(slot) => Some((SlotRoot::Constant(slot), Seq::empty())),
            None => match (expr_struct(hir, base), base_slot) {
                (Some(id), Some((root, offsets))) => match field_named(hir, id, member) {
                    Some(field) => Some(
                        (root, plus_offset(offsets, field_slot_offset(hir, id, field))),
                    ),
                    None => None,
                },
                _ => None,
            },
        },
    }
}

/// The tasks that read a struct member: from storage, from a field in memory,
/// or from the base address.
pub open spec fn field_tasks<'a>(lowerer: Lowerer, hir: Hir, expr: Expr, base: Expr, member: Seq<
    char,
>) -> Seq<Task<'a>> {
    if member_slot::<'a>(lowerer, hir, expr) is Some {
        seq![Task::MemberSlot(&expr)].push(Task::LoadStorage)
    } else {
        match member_in_memory(lowerer, hir, expr, base, member) {
            Some((id, field)) => seq![Task::Value(&base)]
                .push(Task::LoadField(
                    hir.structs@[id.0 as int].fields@.len() as u64,
                    field as u64,
                )),
            None => seq![Task::Value(&base)].push(Task::LoadMemory),
        }
    }
}

/// The struct and field that a member in memory is: the resolved field if the
/// base is that struct in memory, else a field of that name.
pub open spec fn member_in_memory(
    lowerer: Lowerer,
    hir: Hir,
    expr: Expr,
    base: Expr,
    member: Seq<char>,
) -> Option<(StructId, usize)> {
    match expr.facts.field {
        Some((id, field)) if is_memory_struct(base, id) && id.0 < hir.structs@.len() => Some(
            (id, field),
        ),
        _ => memory_field(lowerer.struct_storage_base_slots@, hir, base, member),
    }
}

/// The tasks that a built-in member stands for, where it needs no more than its
/// base.
pub open spec fn builtin_member_tasks<'a>(
    lowerer: Lowerer,
    func: FunctionView,
    hir: Hir,
    expr: Expr,
    base: Expr,
    builtin: Builtin,
) -> Option<Seq<Task<'a>>> {
    match builtin {
        Builtin::AddressBalance => Some(seq![Task::Value(&base)].push(Task::Balance)),
        Builtin::FunctionSelector => match resolved_selector(hir, base) {
            Some(selector) => Some(seq![Task::Constant(selector_word(selector))]),
            None => if base.kind is Member {
                Some(seq![Task::Constant(selector_word(base.facts.member_selector))])
            } else {
                match shared_selector(hir, base) {
                    Some(selector) => Some(seq![Task::Constant(selector_word(selector))]),
                    None => None,
                }
            },
        },
        Builtin::EventSelector => match resolved_event_selector(hir, base) {
            Some(selector) => Some(seq![Task::Constant(selector)]),
            None => None,
        },
        Builtin::InterfaceId => match base.kind {
            ExprKind::TypeCall(ty) => Some(seq![Task::InterfaceId(&ty, base.facts.inner_span)]),
            _ => None,
        },
        Builtin::TypeMin | Builtin::TypeMax => match base.kind {
            ExprKind::TypeCall(ty) => Some(
                seq![Task::TypeBound(&ty, builtin is TypeMax, base.facts.inner_span)],
            ),
            _ => None,
        },
        Builtin::ContractCreationCode | Builtin::ContractRuntimeCode => match base.kind {
            ExprKind::TypeCall(ty) => Some(
                seq![Task::Code(&ty, builtin is ContractCreationCode, base.facts.inner_span)],
            ),
            _ => None,
        },
        Builtin::ArrayLength => length_tasks(lowerer, func, hir, expr, base),
        Builtin::BlockCoinbase
        | Builtin::BlockTimestamp
        | Builtin::BlockDifficulty
        | Builtin::BlockPrevrandao
        | Builtin::BlockNumber
        | Builtin::BlockGaslimit
        | Builtin::BlockChainid
        | Builtin::BlockBasefee
        | Builtin::BlockBlobbasefee
        | Builtin::MsgSender
        | Builtin::MsgGas
        | Builtin::MsgValue
        | Builtin::MsgData
        | Builtin::MsgSig
        | Builtin::TxOrigin
        | Builtin::TxGasPrice
        | Builtin::AbiEncode
        | Builtin::AbiEncodePacked
        | Builtin::AbiEncodeWithSelector
        | Builtin::AbiEncodeCall
        | Builtin::AbiEncodeWithSignature
        | Builtin::AbiDecode => Some(seq![Task::Builtin(builtin, expr.span)]),
        _ => None,
    }
}

/// The internal function that a member used as a value is.
pub open spec fn internal_function(expr: Expr) -> Option<HirFunctionId> {
    match (expr.facts.ty, expr.facts.res) {
        (Some(Ty::Fn(function)), Some(Res::Item(ItemId::Function(id)))) => if function.internal {
            Some(
                match expr.facts.exact_callee {
                    Some(exact) => exact,
                    None => id,
                },
            )
        } else {
            None
        },
        _ => None,
    }
}

/// The external function that a member used as a value is.
pub open spec fn external_function(hir: Hir, expr: Expr) -> Option<HirFunctionId> {
    match expr.facts.ty {
        Some(Ty::Fn(function)) => if function.external {
            let id = match function.function_id {
                Some(id) => Some(id),
                None => expr.facts.function,
            };
            match id {
                Some(id) => if id.0 < hir.functions@.len() {
                    Some(id)
                } else {
                    None
                },
                None => None,
            }
        } else {
            None
        },
        _ => None,
    }
}

/// The initial value of the constant that a member names.
pub open spec fn constant_member(hir: Hir, expr: Expr) -> Option<Expr> {
    match expr.facts.res {
        Some(Res::Item(ItemId::Variable(id))) => if id.0 < hir.variables@.len()
            && hir.variables@[id.0 as int].mutability is Constant {
            hir.variables@[id.0 as int].initializer
        } else {
            None
        },
        _ => None,
    }
}

/// The tasks that lower a member that is no built-in.
pub open spec fn plain_member_tasks<'a>(
    lowerer: Lowerer,
    func: FunctionView,
    hir: Hir,
    expr: Expr,
    base: Expr,
    member: Seq<char>,
) -> Seq<Task<'a>> {
    if expr.facts.variant is Some {
        seq![Task::Constant(word(expr.facts.variant->0 as u64))]
    } else if internal_function(expr) is Some {
        seq![Task::FunctionPointer(internal_function(expr)->0)]
    } else if external_function(hir, expr) is Some {
        let id = external_function(hir, expr)->0;
        seq![Task::Value(&base)].push(Task::ExternalPointer(hir.functions@[id.0 as int].selector))
    } else if constant_member(hir, expr) is Some {
        seq![Task::Value(&constant_member(hir, expr)->0)]
    } else if expr.facts.storage_bytes && slot_of::<'a>(lowerer, hir, expr) is Some {
        seq![Task::Slot(&expr)].push(Task::Service(Service::StorageBytes))
    } else {
        let length = if member == "length"@ {
            length_tasks::<'a>(lowerer, func, hir, expr, base)
        } else {
            None
        };
        match length {
            Some(tasks) => tasks,
            None => field_tasks(lowerer, hir, expr, base, member),
        }
    }
}

/// The tasks that lower a member.
pub open spec fn member_tasks<'a>(
    lowerer: Lowerer,
    func: FunctionView,
    hir: Hir,
    expr: Expr,
    base: Expr,
    member: Seq<char>,
) -> Seq<Task<'a>> {
    let builtin = match expr.facts.builtin {
        Some(builtin) => builtin_member_tasks::<'a>(lowerer, func, hir, expr, base, builtin),
        None => None,
    };
    match builtin {
        Some(tasks) => tasks,
        None => plain_member_tasks(lowerer, func, hir, expr, base, member),
    }
}

/// The tasks that lower a length after its base turned out not to be a slice of
/// the call data.
pub open spec fn other_length_tasks<'a>(
    lowerer: Lowerer,
    hir: Hir,
    expr: Expr,
    base: Expr,
    member: Seq<char>,
) -> Seq<Task<'a>> {
    match fixed_len(hir, base) {
        Some(len) => seq![Task::Constant(word(len))],
        None => field_tasks(lowerer, hir, expr, base, member),
    }
}

/// Whether a value is a slice of the call data.
pub fn value_is_calldata_slice(func: &Function, value: ValueId) -> (r: bool)
    requires
        crate::mir::function::function_wf(func@),
    ensures
        r == is_calldata_slice(func@, value),
{
    if value.0 >= func.values.len() {
        return false;
    }
    proof {
        reveal(crate::mir::function::function_wf);
        assert(crate::mir::function::value_fits(func@, func@.values[value.0 as int]));
    }
    let ty: Option<MirType> = match func.values[value.0] {
        Value::Arg(arg) => Some(arg.ty),
        Value::Inst(id) => func.insts[id.0].result_ty,
        Value::Undef(ty) => Some(ty),
        _ => None,
    };
    match ty {
        Some(MirType::Slice(SliceLocation::Calldata)) => true,
        _ => false,
    }
}

impl Lowerer {
    /// Returns the tasks that lower a name of a variable.
    fn plan_variable<'a>(&self, hir: &'a Hir, id: VariableId, span: Span) -> (r: Vec<Task<'a>>)
        requires
            id.0 < hir.variables@.len(),
        ensures
            r@ == variable_tasks::<'a>(*self, *hir, id, span),
    {
        let var = &hir.variables[id.0];
        let mut tasks: Vec<Task<'a>> = Vec::new();
        if let Some(value) = self.get_local(id) {
            tasks.push(Task::Reuse(value));
        } else if let Some(offset) = self.get_local_memory_offset(id) {
            if self.is_slice_slot_local(id) {
                tasks.push(Task::LoadSlice(offset));
            } else {
                tasks.push(Task::LoadVariable(offset));
            }
        } else if var.is_constant() && var.initializer.is_some() {
            if let Some(init) = &var.initializer {
                tasks.push(Task::Value(init));
            }
        } else if let Some(offset) = self.get_immutable_slot(id) {
            tasks.push(Task::LoadImmutable(offset));
        } else if let Some(location) = self.get_storage_location(id) {
            match struct_of_type(hir, &var.declared) {
                Some(struct_id) => {
                    let size: u64 = hir.structs[struct_id.0].memory_words.wrapping_mul(32);
                    tasks.push(Task::Allocate(size, MemoryObjectKind::Struct));
                    tasks.push(Task::Service(Service::StorageStruct(id, struct_id)));
                },
                None => {
                    tasks.push(Task::Constant(location.slot));
                    if crate::lower::types::is_dynamic_mapping_key(&var.declared) {
                        tasks.push(Task::Service(Service::StorageBytes));
                    } else {
                        tasks.push(Task::Service(Service::LoadLocation(location)));
                    }
                },
            }
        } else {
            tasks.push(Task::DefaultVariable(id, Complaint::ItemValue, span));
        }
        assert(tasks@ =~= variable_tasks::<'a>(*self, *hir, id, span));
        tasks
    }

    /// Returns the tasks that lower a name.
    pub fn plan_ident<'a>(&self, hir: &'a Hir, expr: &Expr) -> (r: Vec<Task<'a>>)
        ensures
            r@ == name_tasks::<'a>(*self, *hir, *expr),
    {
        let task = match expr.facts.res {
            None => Task::Complain(Complaint::OverloadedIdentifier, expr.span),
            Some(Res::Item(ItemId::Function(id))) => Task::FunctionPointer(
                match expr.facts.exact_callee {
                    Some(exact) => exact,
                    None => id,
                },
            ),
            Some(Res::Item(ItemId::Variable(id))) => {
                if id.0 < hir.variables.len() {
                    return self.plan_variable(hir, id, expr.span);
                }
                Task::Complain(Complaint::ItemValue, expr.span)
            },
            Some(Res::Item(_)) => Task::Complain(Complaint::ItemValue, expr.span),
            Some(Res::Builtin(builtin)) => Task::Builtin(builtin, expr.span),
            Some(Res::Namespace) => Task::Complain(Complaint::NamespaceValue, expr.span),
            Some(Res::Error(guar)) => Task::ErrorValue(guar),
        };
        let tasks = vec![task];
        assert(tasks@ =~= name_tasks::<'a>(*self, *hir, *expr));
        tasks
    }

    /// Returns the tasks that push the slice that a call-data variable is.
    ///
    /// A call-data declaration does not guarantee a call-data slice: a parameter
    /// of an inlined function can be bound to an object in memory.
    pub fn plan_calldata_slice<'a>(
        &self,
        func: &Function,
        hir: &Hir,
        base: &Expr,
    ) -> (r: Option<Vec<Task<'a>>>)
        requires
            crate::mir::function::function_wf(func@),
        ensures
            tasks_view(r) == slice_variable_tasks::<'a>(*self, func@, *hir, *base),
    {
        let id: VariableId = match base.facts.variable {
            Some(id) => id,
            None => {
                return None;
            },
        };
        if id.0 >= hir.variables.len() {
            return None;
        }
        if calldata_dynamic_var_kind(&hir.variables[id.0]).is_none() {
            return None;
        }
        if self.is_slice_slot_local(id) {
            return match self.get_local_memory_offset(id) {
                Some(offset) => {
                    let tasks = vec![Task::LoadSlice(offset)];
                    assert(tasks@ =~= seq![Task::<'a>::LoadSlice(offset)]);
                    Some(tasks)
                },
                None => None,
            };
        }
        match self.get_local(id) {
            Some(value) => {
                assert(self.locals@.dom().contains(id.0));
                if value_is_calldata_slice(func, value) {
                    let tasks = vec![Task::Reuse(value)];
                    assert(tasks@ =~= seq![Task::<'a>::Reuse(value)]);
                    Some(tasks)
                } else {
                    None
                }
            },
            None => None,
        }
    }

    /// Returns the tasks that lower the length of an array, where it is not
    /// simply the first word of an object in memory.
    pub fn plan_length<'a>(
        &self,
        func: &Function,
        hir: &'a Hir,
        expr: &'a Expr,
        base: &'a Expr,
    ) -> (r: Option<Vec<Task<'a>>>)
        requires
            crate::mir::function::function_wf(func@),
            hir_wf(*hir),
        ensures
            tasks_view(r) == length_tasks::<'a>(*self, func@, *hir, *expr, *base),
    {
        if let Some((_, len)) = storage_array_type_of_expr(base) {
            if self.slot_plan(hir, base).is_some() {
                let mut tasks: Vec<Task<'a>> = Vec::new();
                tasks.push(Task::Slot(base));
                match len {
                    Some(len) => {
                        tasks.push(Task::Discard);
                        tasks.push(Task::Constant(U256::from_u64(len)));
                    },
                    None => {
                        tasks.push(Task::LoadStorage);
                    },
                }
                assert(Some(tasks@) =~= length_tasks::<'a>(*self, func@, *hir, *expr, *base));
                return Some(tasks);
            }
        }
        if let Some(slice) = self.plan_calldata_slice(func, hir, base) {
            let mut tasks: Vec<Task<'a>> = slice;
            tasks.push(Task::SliceLen);
            return Some(tasks);
        }
        let mut tasks: Vec<Task<'a>> = Vec::new();
        if let Some(Builtin::MsgData) = base.facts.builtin {
            tasks.push(Task::Value(base));
            tasks.push(Task::SliceLen);
        } else if matches!(
            base.facts.ty,
            Some(Ty::Ref(_, DataLocation::Calldata)) | Some(Ty::Slice(_))
        ) {
            tasks.push(Task::Value(base));
            tasks.push(Task::CalldataLength(expr));
        } else {
            match fixed_array_len_of_expr(hir, base) {
                Some(len) => {
                    tasks.push(Task::Constant(U256::from_u64(len)));
                },
                None => {
                    return None;
                },
            }
        }
        assert(Some(tasks@) =~= length_tasks::<'a>(*self, func@, *hir, *expr, *base));
        Some(tasks)
    }

    /// Decides how the slot of a struct member is computed when the member is
    /// read or assigned.
    pub fn member_slot_plan_of<'a>(&self, hir: &Hir, expr: &'a Expr) -> (r: Option<SlotPlan<'a>>)
        requires
            hir_wf(*hir),
        ensures
            plan_view(r) == member_slot::<'a>(*self, *hir, *expr),
    {
        let (base, member): (&'a Expr, &'a String) = match &expr.kind {
            ExprKind::Member(base, member) => (&**base, member),
            _ => {
                return None;
            },
        };
        let own = struct_id_of_expr(hir, base);
        let base_plan = self.slot_plan(hir, base);
        if let Some((id, field)) = expr.facts.field {
            let same = match own {
                Some(own) => own == id,
                None => false,
            };
            if same && field < hir.structs[id.0].fields.len() {
                if base_plan.is_some() {
                    return self.extended_plan(hir, base_plan, id, field);
                }
            }
        }
        let name = member.as_str();
        if let Some((slot, id, field)) = self.get_storage_struct_field_info(hir, base, name) {
            let offset = get_struct_field_slot_offset(hir, id, field);
            return Some(
                SlotPlan { root: SlotRoot::Constant(slot_plus(slot, offset)), offsets: Vec::new() },
            );
        }
        if let Some(slot) = self.compute_nested_storage_slot(hir, base, name) {
            return Some(SlotPlan { root: SlotRoot::Constant(slot), offsets: Vec::new() });
        }
        match own {
            Some(id) => match struct_field_index(hir, id, name) {
                Some(field) => self.extended_plan(hir, base_plan, id, field),
                None => None,
            },
            None => None,
        }
    }

    /// Adds a field to a slot plan.
    fn extended_plan<'a>(
        &self,
        hir: &Hir,
        plan: Option<SlotPlan<'a>>,
        id: StructId,
        field: usize,
    ) -> (r: Option<SlotPlan<'a>>)
        requires
            hir_wf(*hir),
            id.0 < hir.structs@.len(),
            field < hir.structs@[id.0 as int].fields@.len(),
        ensures
            plan_view(r) == match plan_view(plan) {
                Some((root, offsets)) => Some(
                    (root, plus_offset(offsets, field_slot_offset(*hir, id, field))),
                ),
                None => None,
            },
    {
        match plan {
            Some(plan) => {
                let offset = get_struct_field_slot_offset(hir, id, field);
                let mut offsets = plan.offsets;
                if offset != 0 {
                    offsets.push(offset);
                }
                Some(SlotPlan { root: plan.root, offsets })
            },
            None => None,
        }
    }

    /// Returns the struct and field that a member in memory is.
    pub fn memory_member(
        &self,
        hir: &Hir,
        expr: &Expr,
        base: &Expr,
        member: &str,
    ) -> (r: Option<(StructId, usize)>)
        requires
            hir_wf(*hir),
        ensures
            r == member_in_memory(*self, *hir, *expr, *base, member@),
            r matches Some((id, _)) ==> id.0 < hir.structs@.len(),
    {
        if let Some((id, field)) = expr.facts.field {
            if is_memory_struct_base(base, id) && id.0 < hir.structs.len() {
                return Some((id, field));
            }
        }
        self.get_memory_struct_field_info(hir, base, member)
    }

    /// Returns the tasks that read a struct member.
    pub fn plan_field<'a>(
        &self,
        hir: &Hir,
        expr: &'a Expr,
        base: &'a Expr,
        member: &str,
    ) -> (r: Vec<Task<'a>>)
        requires
            hir_wf(*hir),
        ensures
            r@ == field_tasks::<'a>(*self, *hir, *expr, *base, member@),
    {
        let mut tasks: Vec<Task<'a>> = Vec::new();
        if self.member_slot_plan_of(hir, expr).is_some() {
            tasks.push(Task::MemberSlot(expr));
            tasks.push(Task::LoadStorage);
        } else {
            tasks.push(Task::Value(base));
            match self.memory_member(hir, expr, base, member) {
                Some((id, field)) => {
                    tasks.push(
                        Task::LoadField(hir.structs[id.0].fields.len() as u64, field as u64),
                    );
                },
                None => {
                    tasks.push(Task::LoadMemory);
                },
            }
        }
        assert(tasks@ =~= field_tasks::<'a>(*self, *hir, *expr, *base, member@));
        tasks
    }

    /// Returns the tasks that a built-in member stands for.
    fn plan_builtin_member<'a>(
        &self,
        func: &Function,
        hir: &'a Hir,
        expr: &'a Expr,
        base: &'a Expr,
        builtin: Builtin,
    ) -> (r: Option<Vec<Task<'a>>>)
        requires
            crate::mir::function::function_wf(func@),
            hir_wf(*hir),
        ensures
            tasks_view(r) == builtin_member_tasks::<'a>(
                *self,
                func@,
                *hir,
                *expr,
                *base,
                builtin,
            ),
    {
        let ghost expected = builtin_member_tasks::<'a>(
            *self,
            func@,
            *hir,
            *expr,
            *base,
            builtin,
        );
        let task: Task<'a> = match builtin {
            Builtin::AddressBalance => {
                let tasks: Vec<Task<'a>> = vec![Task::Value(base), Task::Balance];
                assert(Some(tasks@) =~= expected);
                return Some(tasks);
            },
            Builtin::FunctionSelector => {
                if let Some(selector) = lower_resolved_function_selector(hir, base) {
                    Task::Constant(left_aligned_selector(selector))
                } else if matches!(base.kind, ExprKind::Member(_, _)) {
                    Task::Constant(left_aligned_selector(base.facts.member_selector))
                } else {
                    match ident_function_selector(hir, base) {
                        Some(selector) => Task::Constant(left_aligned_selector(selector)),
                        None => {
                            return None;
                        },
                    }
                }
            },
            Builtin::EventSelector => match lower_resolved_event_selector(hir, base) {
                Some(selector) => Task::Constant(selector),
                None => {
                    return None;
                },
            },
            Builtin::InterfaceId => match &base.kind {
                ExprKind::TypeCall(ty) => Task::InterfaceId(ty, base.facts.inner_span),
                _ => {
                    return None;
                },
            },
            Builtin::TypeMin | Builtin::TypeMax => match &base.kind {
                ExprKind::TypeCall(ty) => Task::TypeBound(
                    ty,
                    matches!(builtin, Builtin::TypeMax),
                    base.facts.inner_span,
                ),
                _ => {
                    return None;
                },
            },
            Builtin::ContractCreationCode | Builtin::ContractRuntimeCode => match &base.kind {
                ExprKind::TypeCall(ty) => Task::Code(
                    ty,
                    matches!(builtin, Builtin::ContractCreationCode),
                    base.facts.inner_span,
                ),
                _ => {
                    return None;
                },
            },
            Builtin::ArrayLength => {
                return self.plan_length(func, hir, expr, base);
            },
            Builtin::BlockCoinbase
            | Builtin::BlockTimestamp
            | Builtin::BlockDifficulty
            | Builtin::BlockPrevrandao
            | Builtin::BlockNumber
            | Builtin::BlockGaslimit
            | Builtin::BlockChainid
            | Builtin::BlockBasefee
            | Builtin::BlockBlobbasefee
            | Builtin::MsgSender
            | Builtin::MsgGas
            | Builtin::MsgValue
            | Builtin::MsgData
            | Builtin::MsgSig
            | Builtin::TxOrigin
            | Builtin::TxGasPrice
            | Builtin::AbiEncode
            | Builtin::AbiEncodePacked
            | Builtin::AbiEncodeWithSelector
            | Builtin::AbiEncodeCall
            | Builtin::AbiEncodeWithSignature
            | Builtin::AbiDecode => Task::Builtin(builtin, expr.span),
            _ => {
                return None;
            },
        };
        let tasks: Vec<Task<'a>> = vec![task];
        assert(Some(tasks@) =~= expected);
        Some(tasks)
    }

    /// Returns the internal function that a member used as a value is.
    fn internal_function_of(expr: &Expr) -> (r: Option<HirFunctionId>)
        ensures
            r == internal_function(*expr),
    {
        match (&expr.facts.ty, expr.facts.res) {
            (Some(Ty::Fn(function)), Some(Res::Item(ItemId::Function(id)))) => {
                if function.internal {
                    Some(
                        match expr.facts.exact_callee {
                            Some(exact) => exact,
                            None => id,
                        },
                    )
                } else {
                    None
                }
            },
            _ => None,
        }
    }

    /// Returns the external function that a member used as a value is.
    fn external_function_of(hir: &Hir, expr: &Expr) -> (r: Option<HirFunctionId>)
        ensures
            r == external_function(*hir, *expr),
            r matches Some(id) ==> id.0 < hir.functions@.len(),
    {
        match &expr.facts.ty {
            Some(Ty::Fn(function)) => {
                if !function.external {
                    return None;
                }
                let id: Option<HirFunctionId> = match function.function_id {
                    Some(id) => Some(id),
                    None => expr.facts.function,
                };
                match id {
                    Some(id) => if id.0 < hir.functions.len() {
                        Some(id)
                    } else {
                        None
                    },
                    None => None,
                }
            },
            _ => None,
        }
    }

    /// Returns the initial value of the constant that a member names.
    fn constant_of_member<'a>(hir: &'a Hir, expr: &Expr) -> (r: Option<&'a Expr>)
        ensures
            (match r {
                Some(init) => Some(*init),
                None => None,
            }) == constant_member(*hir, *expr),
    {
        match expr.facts.res {
            Some(Res::Item(ItemId::Variable(id))) => {
                if id.0 >= hir.variables.len() || !hir.variables[id.0].is_constant() {
                    return None;
                }
                match &hir.variables[id.0].initializer {
                    Some(init) => Some(init),
                    None => None,
                }
            },
            _ => None,
        }
    }

    /// Returns the tasks that lower a member.
    pub fn plan_member<'a>(
        &self,
        func: &Function,
        hir: &'a Hir,
        expr: &'a Expr,
        base: &'a Expr,
        member: &str,
    ) -> (r: Vec<Task<'a>>)
        requires
            crate::mir::function::function_wf(func@),
            hir_wf(*hir),
        ensures
            r@ == member_tasks::<'a>(*self, func@, *hir, *expr, *base, member@),
    {
        let ghost expected = member_tasks::<'a>(*self, func@, *hir, *expr, *base, member@);
        if let Some(builtin) = expr.facts.builtin {
            if let Some(tasks) = self.plan_builtin_member(func, hir, expr, base, builtin) {
                return tasks;
            }
        }
        let mut tasks: Vec<Task<'a>> = Vec::new();
        if let Some(variant) = expr.facts.variant {
            tasks.push(Task::Constant(U256::from_u64(variant as u64)));
            assert(tasks@ =~= expected);
            return tasks;
        }
        if let Some(id) = Lowerer::internal_function_of(expr) {
            tasks.push(Task::FunctionPointer(id));
            assert(tasks@ =~= expected);
            return tasks;
        }
        if let Some(id) = Lowerer::external_function_of(hir, expr) {
            tasks.push(Task::Value(base));
            tasks.push(Task::ExternalPointer(hir.functions[id.0].selector));
            assert(tasks@ =~= expected);
            return tasks;
        }
        if let Some(init) = Lowerer::constant_of_member(hir, expr) {
            tasks.push(Task::Value(init));
            assert(tasks@ =~= expected);
            return tasks;
        }
        if expr.facts.storage_bytes && self.slot_plan(hir, expr).is_some() {
            tasks.push(Task::Slot(expr));
            tasks.push(Task::Service(Service::StorageBytes));
            assert(tasks@ =~= expected);
            return tasks;
        }
        if text_is(member, "length") {
            if let Some(length) = self.plan_length(func, hir, expr, base) {
                return length;
            }
        }
        self.plan_field(hir, expr, base, member)
    }

    /// Returns the tasks that lower a length after its base turned out not to
    /// be a slice of the call data.
    pub fn plan_other_length<'a>(
        &self,
        hir: &Hir,
        expr: &'a Expr,
        base: &'a Expr,
        member: &str,
    ) -> (r: Vec<Task<'a>>)
        requires
            hir_wf(*hir),
        ensures
            r@ == other_length_tasks::<'a>(*self, *hir, *expr, *base, member@),
    {
        match fixed_array_len_of_expr(hir, base) {
            Some(len) => {
                let tasks: Vec<Task<'a>> = vec![Task::Constant(U256::from_u64(len))];
                assert(tasks@ =~= other_length_tasks::<'a>(*self, *hir, *expr, *base, member@));
                tasks
            },
            None => self.plan_field(hir, expr, base, member),
        }
    }
}

/// The mathematical value of optional tasks.
pub open spec fn tasks_view<'a>(tasks: Option<Vec<Task<'a>>>) -> Option<Seq<Task<'a>>> {
    match tasks {
        Some(tasks) => Some(tasks@),
        None => None,
    }
}

} // verus!
