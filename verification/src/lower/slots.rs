//! Storage slots of assignable expressions.

use crate::hir::{hir_wf, Builtin, DataLocation, Expr, ExprKind, Hir, StructId, VariableId};
use crate::lower::emit::extends;
use crate::lower::fields::{
    expr_struct, field_slot_offset, get_struct_field_slot_offset, nested_slot, reference_field,
    slot_after, slot_plus, state_field, struct_id_of_expr,
};
use crate::lower::names::{variable_placed, word_constant};
use crate::lower::state::{lookup, variable_loaded, Lowerer};
use crate::lower::types::{storage_array, storage_array_type_of_expr};
use crate::mir::builder::{
    constant, emitted, group_builder_steps, word, BuilderView, FunctionBuilder,
};
use crate::mir::function::{has_value, next_value};
use crate::mir::inst::{inst, Op};
use crate::mir::types::{MirType, ValueId};
use crate::word::U256;
use vstd::prelude::*;

verus! {

/// Where the slot of an assignable expression starts from.
pub enum SlotRoot<'a> {
    /// The slot that a storage-reference variable holds.
    Reference(VariableId),
    /// A constant slot.
    Constant(U256),
    /// The slot of an element of an array or mapping.
    Element(&'a Expr),
    /// The slot of an element that is appended to an array.
    Pushed(&'a Expr),
    /// The slot that a call returns.
    Called(&'a Expr),
}

/// How the slot of an assignable expression is computed: the nonzero field
/// offsets are added to the root, in order.
pub struct SlotPlan<'a> {
    /// Where it starts from.
    pub root: SlotRoot<'a>,
    /// What is added.
    pub offsets: Vec<u64>,
}

/// Whether the slot that a storage-reference variable holds is known.
pub open spec fn reference_known(lowerer: Lowerer, id: VariableId) -> bool {
    lookup(lowerer.locals@, id) is Some || lookup(lowerer.local_memory_slots@, id) is Some
}

/// Field offsets with one more, unless it is zero.
pub open spec fn plus_offset(offsets: Seq<u64>, offset: u64) -> Seq<u64> {
    if offset == 0 {
        offsets
    } else {
        offsets.push(offset)
    }
}

/// Whether the first result of a called function is a storage reference.
pub open spec fn returns_storage_ref(hir: Hir, callee: Expr) -> bool {
    callee.facts.function matches Some(id) && id.0 < hir.functions@.len()
            && hir.functions@[
            id.0 as int
        ].results@.len() > 0 && hir.functions@[id.0 as int].results@[0].0
        < hir.variables@.len()
        && hir.variables@[hir.functions@[id.0 as int].results@[0].0 as int].location == Some(
        DataLocation::Storage,
    )
}

/// Whether the first result of a called function is a storage reference, so
/// that a call of it yields a slot.
pub fn call_returns_storage_ref(hir: &Hir, callee: &Expr) -> (r: bool)
    ensures
        r == returns_storage_ref(*hir, *callee),
{
    match callee.facts.function {
        Some(id) => {
            if id.0 >= hir.functions.len() {
                return false;
            }
            let results = &hir.functions[id.0].results;
            if results.len() == 0 || results[0].0 >= hir.variables.len() {
                return false;
            }
            matches!(hir.variables[results[0].0].location, Some(DataLocation::Storage))
        },
        None => false,
    }
}

/// How the slot of a name is computed.
pub open spec fn name_slot<'a>(lowerer: Lowerer, expr: Expr) -> Option<(SlotRoot<'a>, Seq<u64>)> {
    match expr.facts.variable {
        Some(id) => if lowerer.storage_ref_locals@.contains(id.0) {
            if reference_known(lowerer, id) {
                Some((SlotRoot::Reference(id), Seq::empty()))
            } else {
                None
            }
        } else if lookup(lowerer.storage_slots@, id) is Some {
            Some((SlotRoot::Constant(lowerer.storage_slots@[id.0]), Seq::empty()))
        } else if lookup(lowerer.struct_storage_base_slots@, id) is Some {
            Some((SlotRoot::Constant(lowerer.struct_storage_base_slots@[id.0]), Seq::empty()))
        } else {
            None
        },
        None => None,
    }
}

/// How the slot of a member is computed when its field is not resolved through
/// the slot of its base.
pub open spec fn named_member_slot<'a>(
    lowerer: Lowerer,
    hir: Hir,
    base: Expr,
    member: Seq<char>,
) -> Option<(SlotRoot<'a>, Seq<u64>)> {
    let bases = lowerer.struct_storage_base_slots@;
    match state_field(bases, hir, base, member) {
        Some((slot, id, field)) => Some(
            (SlotRoot::Constant(slot_after(slot, field_slot_offset(hir, id, field))), Seq::empty()),
        ),
        None => match reference_field(lowerer.storage_ref_locals@, hir, base, member) {
            Some((var, id, field)) => if reference_known(lowerer, var) {
                Some(
                    (
                        SlotRoot::Reference(var),
                        plus_offset(Seq::empty(), field_slot_offset(hir, id, field)),
                    ),
                )
            } else {
                None
            },
            None => match nested_slot(bases, hir, base, member) {
                Some(slot) => Some((SlotRoot::Constant(slot), Seq::empty())),
                None => None,
            },
        },
    }
}

/// The field of a member whose struct is that of its base.
pub open spec fn matching_field(hir: Hir, expr: Expr, base: Expr) -> Option<(StructId, usize)> {
    match expr.facts.field {
        Some((id, field)) => if expr_struct(hir, base) == Some(id) && field
            < hir.structs@[id.0 as int].fields@.len() {
            Some((id, field))
        } else {
            None
        },
        None => None,
    }
}

/// How the storage slot of an assignable expression is computed, where it has
/// one.
pub open spec fn slot_of<'a>(lowerer: Lowerer, hir: Hir, expr: Expr) -> Option<
    (SlotRoot<'a>, Seq<u64>),
>
    decreases expr,
{
    match expr.kind {
        ExprKind::Ident(_) => name_slot(lowerer, expr),
        ExprKind::Index(_, _) => if expr.facts.storage_element {
            Some((SlotRoot::Element(&expr), Seq::empty()))
        } else {
            None
        },
        ExprKind::Member(base, member) => {
            let through_base = match matching_field(hir, expr, *base) {
                Some((id, field)) => match slot_of::<'a>(lowerer, hir, *base) {
                    Some((root, offsets)) => Some(
                        (root, plus_offset(offsets, field_slot_offset(hir, id, field))),
                    ),
                    None => None,
                },
                None => None,
            };
            match through_base {
                Some(plan) => Some(plan),
                None => named_member_slot(lowerer, hir, *base, member@),
            }
        },
        ExprKind::Call(callee, _, _) => if callee.facts.builtin == Some(Builtin::ArrayPush0) {
            match callee.kind {
                ExprKind::Member(base, _) => if storage_array(*base) matches Some((_, None))
                    && slot_of::<'a>(lowerer, hir, *base) is Some {
                    Some((SlotRoot::Pushed(&expr), Seq::empty()))
                } else {
                    None
                },
                _ => None,
            }
        } else if returns_storage_ref(hir, *callee) {
            Some((SlotRoot::Called(&expr), Seq::empty()))
        } else {
            None
        },
        ExprKind::Tuple(elements) => if elements@.len() == 1 {
            match elements@[0] {
                Some(inner) => slot_of(lowerer, hir, inner),
                None => None,
            }
        } else {
            None
        },
        _ => None,
    }
}

/// The mathematical value of an optional slot plan.
pub open spec fn plan_view<'a>(plan: Option<SlotPlan<'a>>) -> Option<(SlotRoot<'a>, Seq<u64>)> {
    match plan {
        Some(plan) => Some((plan.root, plan.offsets@)),
        None => None,
    }
}

/// The slot that a root stands for; `given` is the slot that an element, an
/// appended element or a call has.
pub open spec fn root_slot<'a>(
    b: BuilderView,
    lowerer: Lowerer,
    root: SlotRoot<'a>,
    given: ValueId,
) -> (BuilderView, ValueId) {
    match root {
        SlotRoot::Reference(id) => if lookup(lowerer.locals@, id) is Some {
            (b, lowerer.locals@[id.0])
        } else {
            variable_loaded(
                b,
                lowerer.lowering_internal_function,
                lowerer.local_memory_slots@[id.0],
            )
        },
        SlotRoot::Constant(slot) => word_constant(b, slot),
        _ => (b, given),
    }
}

/// A slot with the first `count` offsets added.
#[verifier::opaque]
pub open spec fn offsets_added(b: BuilderView, slot: ValueId, offsets: Seq<u64>, count: nat) -> (
    BuilderView,
    ValueId,
)
    decreases count,
{
    if count == 0 {
        (b, slot)
    } else {
        let (b, front) = offsets_added(b, slot, offsets, (count - 1) as nat);
        slot_added(b, front, offsets[count - 1])
    }
}

/// A slot with one offset added.
pub open spec fn slot_added(b: BuilderView, slot: ValueId, offset: u64) -> (BuilderView, ValueId) {
    let off = next_value(b.func);
    let b = constant(b, word(offset));
    (emitted(b, inst(Op::Add, seq![slot, off]), Some(MirType::uint256())), next_value(b.func))
}

/// The slot that a plan computes.
pub open spec fn planned_slot<'a>(
    b: BuilderView,
    lowerer: Lowerer,
    plan: (SlotRoot<'a>, Seq<u64>),
    given: ValueId,
) -> (BuilderView, ValueId) {
    let (b, slot) = root_slot(b, lowerer, plan.0, given);
    offsets_added(b, slot, plan.1, plan.1.len())
}

impl Lowerer {
    /// Returns the slot that a storage-reference variable holds.
    pub fn load_storage_ref_slot<'a>(
        &self,
        builder: &mut FunctionBuilder<'a>,
        var_id: VariableId,
    ) -> (r: Option<ValueId>)
        requires
            old(builder).wf(),
            variable_placed(*self, old(builder)@, var_id),
        ensures
            final(builder).wf(),
            r is Some <==> reference_known(*self, var_id),
            r matches Some(slot) ==> (final(builder)@, slot) == root_slot(
                old(builder)@,
                *self,
                SlotRoot::Reference(var_id),
                slot,
            ) && has_value(final(builder)@.func, slot),
            r is None ==> final(builder)@ == old(builder)@,
            extends(old(builder)@, final(builder)@),
            *final(final(builder).func) == *final(old(builder).func),
    {
        if let Some(slot) = self.get_local(var_id) {
            return Some(slot);
        }
        match self.get_local_memory_offset(var_id) {
            Some(offset) => Some(self.load_variable(builder, offset)),
            None => None,
        }
    }

    /// Decides how the storage slot of an assignable expression is computed.
    /// Returns `None` for expressions without a slot.
    pub fn slot_plan<'a>(&self, hir: &Hir, expr: &'a Expr) -> (r: Option<SlotPlan<'a>>)
        requires
            hir_wf(*hir),
        ensures
            plan_view(r) == slot_of(*self, *hir, *expr),
        decreases expr,
    {
        match &expr.kind {
            ExprKind::Ident(_) => {
                let id: VariableId = match expr.facts.variable {
                    Some(id) => id,
                    None => {
                        return None;
                    },
                };
                if self.is_storage_ref_local(id) {
                    if self.get_local(id).is_some() || self.get_local_memory_offset(id).is_some() {
                        return Some(
                            SlotPlan { root: SlotRoot::Reference(id), offsets: Vec::new() },
                        );
                    }
                    return None;
                }
                if let Some(slot) = self.get_storage_slot(id) {
                    return Some(SlotPlan { root: SlotRoot::Constant(slot), offsets: Vec::new() });
                }
                if let Some(slot) = self.get_struct_base_slot(id) {
                    return Some(SlotPlan { root: SlotRoot::Constant(slot), offsets: Vec::new() });
                }
                None
            },
            ExprKind::Index(_, _) => {
                if expr.facts.storage_element {
                    Some(SlotPlan { root: SlotRoot::Element(expr), offsets: Vec::new() })
                } else {
                    None
                }
            },
            ExprKind::Member(base, member) => {
                if let Some((id, field)) = expr.facts.field {
                    let same = match struct_id_of_expr(hir, base) {
                        Some(own) => own == id,
                        None => false,
                    };
                    if same && field < hir.structs[id.0].fields.len() {
                        if let Some(plan) = self.slot_plan(hir, base) {
                            let offset = get_struct_field_slot_offset(hir, id, field);
                            let mut offsets = plan.offsets;
                            if offset != 0 {
                                offsets.push(offset);
                            }
                            return Some(SlotPlan { root: plan.root, offsets });
                        }
                    }
                }
                self.member_slot_plan(hir, base, member.as_str())
            },
            ExprKind::Call(callee, _, _) => {
                if let Some(Builtin::ArrayPush0) = callee.facts.builtin {
                    return match &callee.kind {
                        ExprKind::Member(base, _) => match storage_array_type_of_expr(base) {
                            Some((_, None)) => match self.slot_plan(hir, base) {
                                Some(_) => Some(
                                    SlotPlan { root: SlotRoot::Pushed(expr), offsets: Vec::new() },
                                ),
                                None => None,
                            },
                            _ => None,
                        },
                        _ => None,
                    };
                }
                if call_returns_storage_ref(hir, callee) {
                    Some(SlotPlan { root: SlotRoot::Called(expr), offsets: Vec::new() })
                } else {
                    None
                }
            },
            ExprKind::Tuple(elements) => {
                if elements.len() != 1 {
                    return None;
                }
                match &elements[0] {
                    Some(inner) => self.slot_plan(hir, inner),
                    None => None,
                }
            },
            _ => None,
        }
    }

    /// Decides how the slot of a member is computed when its field is not
    /// resolved through the slot of its base.
    fn member_slot_plan<'a>(&self, hir: &Hir, base: &Expr, member: &str) -> (r: Option<
        SlotPlan<'a>,
    >)
        requires
            hir_wf(*hir),
        ensures
            plan_view(r) == named_member_slot::<'a>(*self, *hir, *base, member@),
    {
        if let Some((slot, id, field)) = self.get_storage_struct_field_info(hir, base, member) {
            let offset = get_struct_field_slot_offset(hir, id, field);
            return Some(
                SlotPlan { root: SlotRoot::Constant(slot_plus(slot, offset)), offsets: Vec::new() },
            );
        }
        if let Some((var, id, field)) = self.get_storage_ref_struct_field_info(hir, base, member) {
            if self.get_local(var).is_none() && self.get_local_memory_offset(var).is_none() {
                return None;
            }
            let offset = get_struct_field_slot_offset(hir, id, field);
            let mut offsets: Vec<u64> = Vec::new();
            if offset != 0 {
                offsets.push(offset);
            }
            return Some(SlotPlan { root: SlotRoot::Reference(var), offsets });
        }
        match self.compute_nested_storage_slot(hir, base, member) {
            Some(slot) => Some(SlotPlan { root: SlotRoot::Constant(slot), offsets: Vec::new() }),
            None => None,
        }
    }

    /// Computes a storage slot as planned. `given` is the slot of an element,
    /// an appended element or a call; other roots do not read it.
    pub fn lower_lvalue_slot<'a, 'b>(
        &self,
        builder: &mut FunctionBuilder<'a>,
        plan: &SlotPlan<'b>,
        given: ValueId,
    ) -> (r: ValueId)
        requires
            old(builder).wf(),
            plan.root matches SlotRoot::Reference(id) ==> reference_known(*self, id)
                && variable_placed(*self, old(builder)@, id),
            !(plan.root is Reference) && !(plan.root is Constant) ==> has_value(
                old(builder)@.func,
                given,
            ),
        ensures
            final(builder).wf(),
            (final(builder)@, r) == planned_slot(
                old(builder)@,
                *self,
                (plan.root, plan.offsets@),
                given,
            ),
            has_value(final(builder)@.func, r),
            extends(old(builder)@, final(builder)@),
            *final(final(builder).func) == *final(old(builder).func),
    {
        broadcast use group_builder_steps;

        let root = match &plan.root {
            SlotRoot::Reference(id) => match self.get_local(*id) {
                Some(slot) => slot,
                None => match self.get_local_memory_offset(*id) {
                    Some(offset) => self.load_variable(builder, offset),
                    None => given,
                },
            },
            SlotRoot::Constant(slot) => builder.imm_u256(*slot),
            _ => given,
        };
        let ghost begin = builder@;
        let mut slot = root;
        let mut i: usize = 0;
        proof {
            reveal(offsets_added);
        }
        while i < plan.offsets.len()
            invariant
                i <= plan.offsets@.len(),
                builder.wf(),
                has_value(builder@.func, slot),
                extends(old(builder)@, begin),
                extends(begin, builder@),
                (builder@, slot) == offsets_added(begin, root, plan.offsets@, i as nat),
                *final(builder.func) == *final(old(builder).func),
            decreases plan.offsets@.len() - i,
        {
            broadcast use group_builder_steps;

            proof {
                reveal(offsets_added);
            }
            let offset = builder.imm_u64(plan.offsets[i]);
            slot = builder.add(slot, offset);
            i = i + 1;
        }
        slot
    }
}

} // verus!
