//! Plans for assignments.

use crate::hir::{hir_wf, peeled, ElementaryType, Expr, ExprKind, Hir, Ident, Ty, VariableId};
use crate::lower::names::has_slice_slot;
use crate::lower::plan::{Service, Task};
use crate::lower::plan_names::{member_in_memory, member_slot};
use crate::lower::slots::slot_of;
use crate::lower::state::{lookup, Complaint, Lowerer, StorageLocation};
use crate::lower::types::{calldata_dynamic_var_kind, calldata_kind};
use crate::text::text_is;
use vstd::prelude::*;

verus! {

/// The task that lowers the right side of a plain assignment: the slot of an
/// expression that a storage reference is bound to, a copy in memory where the
/// left side takes one, or the value.
pub open spec fn right_side_task<'a>(lowerer: Lowerer, hir: Hir, lhs: Expr, rhs: Expr) -> Task<'a> {
    if lhs.facts.variable matches Some(id) && lowerer.storage_ref_locals@.contains(id.0) {
        if slot_of::<'a>(lowerer, hir, rhs) is Some {
            Task::Slot(&rhs)
        } else {
            Task::Complain(Complaint::StorageReferenceAssignment, rhs.span)
        }
    } else if lhs.facts.takes_memory_bytes {
        Task::Service(Service::MemoryBytes(&rhs))
    } else if lhs.facts.takes_memory_array {
        Task::Service(Service::MemoryArray(&rhs))
    } else {
        Task::Value(&rhs)
    }
}

/// The tasks that lower the right side of a plain assignment.
pub open spec fn right_side_tasks<'a>(lowerer: Lowerer, hir: Hir, lhs: Expr, rhs: Expr) -> Seq<
    Task<'a>,
> {
    seq![right_side_task(lowerer, hir, lhs, rhs)]
}

/// The tasks that store the top value to a state variable.
pub open spec fn store_state_tasks<'a>(ty: Ty, location: StorageLocation) -> Seq<Task<'a>> {
    match peeled(ty) {
        Ty::Struct(id) => seq![Task::Service(Service::StoreStruct(id, location.slot))],
        Ty::Elementary(ElementaryType::String) | Ty::Elementary(ElementaryType::Bytes) => {
            seq![Task::Constant(location.slot)].push(Task::Service(Service::StoreBytes))
        },
        Ty::DynArray(element) => seq![Task::Constant(location.slot)]
            .push(Task::Service(Service::StoreArray(&*element))),
        Ty::Array(element, len) => seq![Task::Constant(location.slot)]
            .push(Task::Service(Service::StoreFixedArray(&*element, len))),
        _ => seq![Task::Service(Service::StoreLocation(location))],
    }
}

/// The tasks that assign the top value to a variable.
pub open spec fn assign_variable_tasks<'a>(lowerer: Lowerer, hir: Hir, id: VariableId) -> Seq<
    Task<'a>,
> {
    if lookup(lowerer.local_memory_slots@, id) is Some {
        if lowerer.slice_slot_locals@.contains(id.0) {
            seq![Task::StoreSlice(lowerer.local_memory_slots@[id.0])]
        } else {
            seq![Task::StoreVariable(lowerer.local_memory_slots@[id.0])]
        }
    } else if lookup(lowerer.locals@, id) is Some {
        seq![Task::SetLocal(id)]
    } else if lookup(lowerer.immutable_slots@, id) is Some {
        seq![Task::StoreImmutable(lowerer.immutable_slots@[id.0])]
    } else if lookup(lowerer.storage_locations@, id) is Some && id.0 < hir.variables@.len() {
        store_state_tasks(hir.variables@[id.0 as int].ty, lowerer.storage_locations@[id.0])
    } else {
        seq![Task::Discard]
    }
}

/// The tasks that assign the top value to a component of a variable in inline
/// assembly.
pub open spec fn assign_component_tasks<'a>(
    lowerer: Lowerer,
    hir: Hir,
    base: Expr,
    member: Ident,
) -> Seq<Task<'a>> {
    match base.facts.variable {
        Some(id) => if member.text@ == "slot"@ {
            if lookup(lowerer.local_memory_slots@, id) is Some {
                seq![Task::StoreVariable(lowerer.local_memory_slots@[id.0])]
                    .push(Task::MarkStorageRef(id))
            } else {
                seq![Task::SetLocal(id)].push(Task::MarkStorageRef(id))
            }
        } else if (member.text@ == "offset"@ || member.text@ == "length"@) && id.0
            < hir.variables@.len() && calldata_kind(hir.variables@[id.0 as int]) is Some {
            if has_slice_slot(lowerer, id) {
                seq![
                    Task::StoreSliceWord(
                        lowerer.local_memory_slots@[id.0],
                        member.text@ == "length"@,
                    ),
                ]
            } else {
                seq![Task::SetSliceComponent(id, member.text@ == "length"@)]
            }
        } else {
            seq![Task::Discard].push(Task::Report(Complaint::YulTarget(member.symbol), member.span))
        },
        None => seq![Task::Discard]
            .push(Task::Report(Complaint::YulTarget(member.symbol), member.span)),
    }
}

/// The tasks that assign the top value to a struct member.
pub open spec fn assign_member_tasks<'a>(
    lowerer: Lowerer,
    hir: Hir,
    lhs: Expr,
    base: Expr,
    member: Seq<char>,
) -> Seq<Task<'a>> {
    if member_slot::<'a>(lowerer, hir, lhs) is Some {
        seq![Task::MemberSlot(&lhs)].push(Task::StoreStorage)
    } else {
        match member_in_memory(lowerer, hir, lhs, base, member) {
            Some((id, field)) => seq![Task::Value(&base)]
                .push(Task::StoreField(
                    hir.structs@[id.0 as int].fields@.len() as u64,
                    field as u64,
                )),
            None => seq![Task::Value(&base)].push(Task::StoreMemory),
        }
    }
}

/// The tasks that assign the top value to an expression.
pub open spec fn assign_tasks<'a>(lowerer: Lowerer, hir: Hir, lhs: Expr) -> Seq<Task<'a>> {
    match lhs.kind {
        ExprKind::Ident(_) => match lhs.facts.variable {
            Some(id) => assign_variable_tasks(lowerer, hir, id),
            None => seq![Task::Discard],
        },
        ExprKind::Index(_, _) => seq![Task::Service(Service::AssignIndex(&lhs))],
        ExprKind::Member(base, member) => assign_member_tasks(lowerer, hir, lhs, *base, member@),
        ExprKind::Call(_, _, _) => if slot_of::<'a>(lowerer, hir, lhs) is Some {
            match lhs.facts.ty {
                Some(ty) => seq![Task::Slot(&lhs)].push(Task::Service(Service::StoreValueAt(&ty))),
                None => seq![Task::Slot(&lhs)].push(Task::Discard).push(Task::Discard),
            }
        } else {
            seq![Task::Discard]
        },
        ExprKind::YulMember(base, member) => assign_component_tasks(
            lowerer,
            hir,
            *base,
            member,
        ),
        _ => seq![Task::Discard],
    }
}

/// Returns the tasks that store the top value to a state variable.
fn plan_store_state<'a>(ty: &'a Ty, location: StorageLocation) -> (r: Vec<Task<'a>>)
    ensures
        r@ == store_state_tasks::<'a>(*ty, location),
{
    let mut tasks: Vec<Task<'a>> = Vec::new();
    match ty.peel_refs() {
        Ty::Struct(id) => {
            tasks.push(Task::Service(Service::StoreStruct(*id, location.slot)));
        },
        Ty::Elementary(ElementaryType::String) | Ty::Elementary(ElementaryType::Bytes) => {
            tasks.push(Task::Constant(location.slot));
            tasks.push(Task::Service(Service::StoreBytes));
        },
        Ty::DynArray(element) => {
            tasks.push(Task::Constant(location.slot));
            tasks.push(Task::Service(Service::StoreArray(element)));
        },
        Ty::Array(element, len) => {
            tasks.push(Task::Constant(location.slot));
            tasks.push(Task::Service(Service::StoreFixedArray(element, *len)));
        },
        _ => {
            tasks.push(Task::Service(Service::StoreLocation(location)));
        },
    }
    assert(tasks@ =~= store_state_tasks::<'a>(*ty, location));
    tasks
}

impl Lowerer {
    /// Returns the task that lowers the right side of a plain assignment.
    pub fn plan_right_side<'a>(&self, hir: &Hir, lhs: &Expr, rhs: &'a Expr) -> (r: Task<'a>)
        requires
            hir_wf(*hir),
        ensures
            r == right_side_task::<'a>(*self, *hir, *lhs, *rhs),
    {
        let is_ref = match lhs.facts.variable {
            Some(id) => self.is_storage_ref_local(id),
            None => false,
        };
        if is_ref {
            if self.slot_plan(hir, rhs).is_some() {
                Task::Slot(rhs)
            } else {
                Task::Complain(Complaint::StorageReferenceAssignment, rhs.span)
            }
        } else if lhs.facts.takes_memory_bytes {
            Task::Service(Service::MemoryBytes(rhs))
        } else if lhs.facts.takes_memory_array {
            Task::Service(Service::MemoryArray(rhs))
        } else {
            Task::Value(rhs)
        }
    }

    /// Returns the tasks that assign the top value to a variable.
    fn plan_assign_variable<'a>(&self, hir: &'a Hir, id: VariableId) -> (r: Vec<Task<'a>>)
        ensures
            r@ == assign_variable_tasks::<'a>(*self, *hir, id),
    {
        let mut tasks: Vec<Task<'a>> = Vec::new();
        if let Some(offset) = self.get_local_memory_offset(id) {
            if self.is_slice_slot_local(id) {
                tasks.push(Task::StoreSlice(offset));
            } else {
                tasks.push(Task::StoreVariable(offset));
            }
        } else if self.get_local(id).is_some() {
            tasks.push(Task::SetLocal(id));
        } else if let Some(offset) = self.get_immutable_slot(id) {
            tasks.push(Task::StoreImmutable(offset));
        } else {
            if let Some(location) = self.get_storage_location(id) {
                if id.0 < hir.variables.len() {
                    return plan_store_state(&hir.variables[id.0].ty, location);
                }
            }
            tasks.push(Task::Discard);
        }
        assert(tasks@ =~= assign_variable_tasks::<'a>(*self, *hir, id));
        tasks
    }

    /// Returns the tasks that assign the top value to a component of a variable
    /// in inline assembly.
    ///
    /// `r.slot := x` sets the slot that a storage reference holds. `d.offset`
    /// and `d.length` rewrite one component of a call-data slice. A
    /// reassignable slice lives in a two-word slot, so that component writes
    /// merge across control flow.
    fn plan_assign_component<'a>(
        &self,
        hir: &Hir,
        base: &Expr,
        member: &Ident,
    ) -> (r: Vec<Task<'a>>)
        ensures
            r@ == assign_component_tasks::<'a>(*self, *hir, *base, *member),
    {
        let mut tasks: Vec<Task<'a>> = Vec::new();
        if let Some(id) = base.facts.variable {
            if text_is(&member.text, "slot") {
                match self.get_local_memory_offset(id) {
                    Some(offset) => {
                        tasks.push(Task::StoreVariable(offset));
                    },
                    None => {
                        tasks.push(Task::SetLocal(id));
                    },
                }
                tasks.push(Task::MarkStorageRef(id));
                assert(tasks@ =~= assign_component_tasks::<'a>(*self, *hir, *base, *member));
                return tasks;
            }
            let is_length = text_is(&member.text, "length");
            if (text_is(&member.text, "offset") || is_length) && id.0 < hir.variables.len() {
                if calldata_dynamic_var_kind(&hir.variables[id.0]).is_some() {
                    let place: Option<u64> = if self.is_slice_slot_local(id) {
                        self.get_local_memory_offset(id)
                    } else {
                        None
                    };
                    match place {
                        Some(offset) => {
                            tasks.push(Task::StoreSliceWord(offset, is_length));
                        },
                        None => {
                            tasks.push(Task::SetSliceComponent(id, is_length));
                        },
                    }
                    assert(tasks@ =~= assign_component_tasks::<'a>(
                        *self,
                        *hir,
                        *base,
                        *member,
                    ));
                    return tasks;
                }
            }
        }
        tasks.push(Task::Discard);
        tasks.push(Task::Report(Complaint::YulTarget(member.symbol), member.span));
        assert(tasks@ =~= assign_component_tasks::<'a>(*self, *hir, *base, *member));
        tasks
    }

    /// Takes an assignment of the top value apart into tasks.
    pub fn plan_assign<'a>(&self, hir: &'a Hir, lhs: &'a Expr) -> (r: Vec<Task<'a>>)
        requires
            hir_wf(*hir),
        ensures
            r@ == assign_tasks::<'a>(*self, *hir, *lhs),
    {
        let mut tasks: Vec<Task<'a>> = Vec::new();
        match &lhs.kind {
            ExprKind::Ident(_) => match lhs.facts.variable {
                Some(id) => {
                    return self.plan_assign_variable(hir, id);
                },
                None => {
                    tasks.push(Task::Discard);
                },
            },
            ExprKind::Index(_, _) => {
                tasks.push(Task::Service(Service::AssignIndex(lhs)));
            },
            ExprKind::Member(base, member) => {
                if self.member_slot_plan_of(hir, lhs).is_some() {
                    tasks.push(Task::MemberSlot(lhs));
                    tasks.push(Task::StoreStorage);
                } else {
                    tasks.push(Task::Value(base));
                    match self.memory_member(hir, lhs, base, member.as_str()) {
                        Some((id, field)) => {
                            tasks.push(
                                Task::StoreField(
                                    hir.structs[id.0].fields.len() as u64,
                                    field as u64,
                                ),
                            );
                        },
                        None => {
                            tasks.push(Task::StoreMemory);
                        },
                    }
                }
            },
            ExprKind::Call(_, _, _) => {
                if self.slot_plan(hir, lhs).is_some() {
                    tasks.push(Task::Slot(lhs));
                    match &lhs.facts.ty {
                        Some(ty) => {
                            tasks.push(Task::Service(Service::StoreValueAt(ty)));
                        },
                        None => {
                            tasks.push(Task::Discard);
                            tasks.push(Task::Discard);
                        },
                    }
                } else {
                    tasks.push(Task::Discard);
                }
            },
            ExprKind::YulMember(base, member) => {
                return self.plan_assign_component(hir, base, member);
            },
            _ => {
                tasks.push(Task::Discard);
            },
        }
        assert(tasks@ =~= assign_tasks::<'a>(*self, *hir, *lhs));
        tasks
    }
}

} // verus!
