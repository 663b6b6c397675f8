//! Struct fields and the storage slots of assignable expressions.

use crate::hir::{
    has_variables, hir_wf, peeled, DataLocation, Expr, ExprKind, Hir, ItemId, StructId, Ty,
    TypeKind, VarKind, VariableId,
};
use crate::lower::state::{lookup, Lowerer};
use crate::text::text_is;
use crate::word::{lemma_word_of, word_modulus, word_of, U256};
use vstd::prelude::*;

verus! {

/// The struct that a declared type names.
pub open spec fn named_struct(hir: Hir, ty: TypeKind) -> Option<StructId> {
    match ty {
        TypeKind::Custom(ItemId::Struct(id)) => if id.0 < hir.structs@.len() {
            Some(id)
        } else {
            None
        },
        _ => None,
    }
}

/// Returns the struct that a declared type names.
pub fn struct_of_type(hir: &Hir, ty: &TypeKind) -> (r: Option<StructId>)
    ensures
        r == named_struct(*hir, *ty),
{
    match ty {
        TypeKind::Custom(ItemId::Struct(id)) => if id.0 < hir.structs.len() {
            Some(*id)
        } else {
            None
        },
        _ => None,
    }
}

/// The struct that a variable is declared with.
pub open spec fn variable_struct(hir: Hir, id: VariableId) -> Option<StructId> {
    if id.0 < hir.variables@.len() {
        named_struct(hir, hir.variables@[id.0 as int].declared)
    } else {
        None
    }
}

/// Returns the struct that a variable is declared with.
fn struct_of_variable(hir: &Hir, id: VariableId) -> (r: Option<StructId>)
    ensures
        r == variable_struct(*hir, id),
{
    if id.0 < hir.variables.len() {
        struct_of_type(hir, &hir.variables[id.0].declared)
    } else {
        None
    }
}

/// Whether a field of a struct has the given name.
pub open spec fn field_is_named(hir: Hir, id: StructId, field: int, name: Seq<char>) -> bool {
    hir.variables@[hir.structs@[id.0 as int].fields@[field].0 as int].name matches Some(own)
        && own@ == name
}

/// The first field of a struct, from an index on, that has the given name.
pub open spec fn field_named_from(hir: Hir, id: StructId, name: Seq<char>, from: nat) -> Option<
    usize,
>
    decreases hir.structs@[id.0 as int].fields@.len() - from,
{
    if from >= hir.structs@[id.0 as int].fields@.len() {
        None
    } else if field_is_named(hir, id, from as int, name) {
        Some(from as usize)
    } else {
        field_named_from(hir, id, name, from + 1)
    }
}

/// The first field of a struct that has the given name.
pub open spec fn field_named(hir: Hir, id: StructId, name: Seq<char>) -> Option<usize> {
    field_named_from(hir, id, name, 0)
}

/// Finds the index of a struct field by name.
pub fn struct_field_index(hir: &Hir, id: StructId, member: &str) -> (r: Option<usize>)
    requires
        hir_wf(*hir),
        id.0 < hir.structs@.len(),
    ensures
        r == field_named(*hir, id, member@),
        r matches Some(index) ==> index < hir.structs@[id.0 as int].fields@.len(),
{
    proof {
        reveal(hir_wf);
        assert(has_variables(*hir, hir.structs@[id.0 as int].fields@));
    }
    let fields = &hir.structs[id.0].fields;
    let mut i: usize = 0;
    while i < fields.len()
        invariant
            i <= fields@.len(),
            id.0 < hir.structs@.len(),
            *fields == hir.structs@[id.0 as int].fields,
            has_variables(*hir, fields@),
            field_named(*hir, id, member@) == field_named_from(*hir, id, member@, i as nat),
        decreases fields@.len() - i,
    {
        assert(fields@[i as int].0 < hir.variables@.len());
        if let Some(name) = &hir.variables[fields[i].0].name {
            if text_is(name.as_str(), member) {
                return Some(i);
            }
        }
        i = i + 1;
    }
    None
}

/// The slot of a field, relative to the slot of its struct.
pub open spec fn field_slot_offset(hir: Hir, id: StructId, field: usize) -> u64 {
    hir.structs@[id.0 as int].slot_offsets@[field as int]
}

/// Returns the slot of a field, relative to the slot of its struct.
pub fn get_struct_field_slot_offset(hir: &Hir, id: StructId, field: usize) -> (r: u64)
    requires
        hir_wf(*hir),
        id.0 < hir.structs@.len(),
        field < hir.structs@[id.0 as int].fields@.len(),
    ensures
        r == field_slot_offset(*hir, id, field),
{
    proof {
        reveal(hir_wf);
        assert(has_variables(*hir, hir.structs@[id.0 as int].fields@));
    }
    hir.structs[id.0].slot_offsets[field]
}

/// Whether the base of a member access is a struct in memory.
pub open spec fn is_memory_struct(base: Expr, id: StructId) -> bool {
    match base.facts.ty {
        Some(Ty::Ref(inner, DataLocation::Memory)) => *inner == Ty::Struct(id),
        Some(Ty::Struct(own)) => own == id,
        _ => false,
    }
}

/// Whether the base of a member access is a struct in memory.
pub fn is_memory_struct_base(base: &Expr, id: StructId) -> (r: bool)
    ensures
        r == is_memory_struct(*base, id),
{
    match &base.facts.ty {
        Some(Ty::Ref(inner, DataLocation::Memory)) => match &**inner {
            Ty::Struct(own) => *own == id,
            _ => false,
        },
        Some(Ty::Struct(own)) => *own == id,
        _ => false,
    }
}

/// The struct type of an expression: of the variable it names, of the element
/// it indexes, of what it calls returns, or of its checked type.
pub open spec fn expr_struct(hir: Hir, expr: Expr) -> Option<StructId> {
    let own = match expr.facts.variable {
        Some(id) => variable_struct(hir, id),
        None => None,
    };
    match own {
        Some(id) => Some(id),
        None => match indexed_declaration(hir, expr) {
            Some(declared) => match declared {
                TypeKind::Mapping(_, value) => named_struct(hir, *value),
                TypeKind::Array(element, _) => named_struct(hir, *element),
                _ => None,
            },
            None => match called_struct(hir, expr) {
                Some(id) => Some(id),
                None => checked_struct(hir, expr),
            },
        },
    }
}

/// The declared type of the variable that an expression indexes.
pub open spec fn indexed_declaration(hir: Hir, expr: Expr) -> Option<TypeKind> {
    match expr.kind {
        ExprKind::Index(base, _) => match base.facts.variable {
            Some(id) => if id.0 < hir.variables@.len() {
                Some(hir.variables@[id.0 as int].declared)
            } else {
                None
            },
            None => None,
        },
        _ => None,
    }
}

/// The struct that the function which an expression calls returns first.
pub open spec fn called_struct(hir: Hir, expr: Expr) -> Option<StructId> {
    match expr.kind {
        ExprKind::Call(callee, _, _) => match callee.facts.function {
            Some(id) => if id.0 < hir.functions@.len() && hir.functions@[id.0 as int].results@.len()
                > 0 {
                variable_struct(hir, hir.functions@[id.0 as int].results@[0])
            } else {
                None
            },
            None => None,
        },
        _ => None,
    }
}

/// The struct that the checked type of an expression refers to.
pub open spec fn checked_struct(hir: Hir, expr: Expr) -> Option<StructId> {
    match expr.facts.ty {
        Some(ty) => match peeled(ty) {
            Ty::Struct(id) => if id.0 < hir.structs@.len() {
                Some(id)
            } else {
                None
            },
            _ => None,
        },
        None => None,
    }
}

/// Resolves the struct type of an expression, for storage struct field access.
pub fn struct_id_of_expr(hir: &Hir, expr: &Expr) -> (r: Option<StructId>)
    ensures
        r == expr_struct(*hir, *expr),
        r matches Some(id) ==> id.0 < hir.structs@.len(),
{
    if let Some(var) = expr.facts.variable {
        if let Some(id) = struct_of_variable(hir, var) {
            return Some(id);
        }
    }
    if let ExprKind::Index(base, _) = &expr.kind {
        if let Some(var) = base.facts.variable {
            if var.0 < hir.variables.len() {
                return match &hir.variables[var.0].declared {
                    TypeKind::Mapping(_, value) => struct_of_type(hir, value),
                    TypeKind::Array(element, _) => struct_of_type(hir, element),
                    _ => None,
                };
            }
        }
    }
    if let ExprKind::Call(callee, _, _) = &expr.kind {
        if let Some(func) = callee.facts.function {
            if func.0 < hir.functions.len() {
                let results = &hir.functions[func.0].results;
                if results.len() > 0 {
                    if let Some(id) = struct_of_variable(hir, results[0]) {
                        return Some(id);
                    }
                }
            }
        }
    }
    match &expr.facts.ty {
        Some(ty) => match ty.peel_refs() {
            Ty::Struct(id) => if id.0 < hir.structs.len() {
                Some(*id)
            } else {
                None
            },
            _ => None,
        },
        None => None,
    }
}

/// A slot that is a constant number of slots after another.
pub open spec fn slot_after(slot: U256, offset: u64) -> U256 {
    word_of((slot@ + offset as nat) % word_modulus())
}

/// Returns the slot that is a constant number of slots after another.
pub fn slot_plus(slot: U256, offset: u64) -> (r: U256)
    ensures
        r == slot_after(slot, offset),
{
    let r = slot.wrapping_add(U256::from_u64(offset));
    proof {
        lemma_word_of(r);
    }
    r
}

/// The base slot, struct and field of a member of a struct state variable.
pub open spec fn state_field(
    bases: Map<usize, U256>,
    hir: Hir,
    base: Expr,
    member: Seq<char>,
) -> Option<(U256, StructId, usize)> {
    match base.facts.variable {
        Some(var) => match (variable_struct(hir, var), lookup(bases, var)) {
            (Some(id), Some(slot)) => match field_named(hir, id, member) {
                Some(field) => Some((slot, id, field)),
                None => None,
            },
            _ => None,
        },
        None => None,
    }
}

/// The variable, struct and field of a member of a storage-reference local.
pub open spec fn reference_field(
    references: Set<usize>,
    hir: Hir,
    base: Expr,
    member: Seq<char>,
) -> Option<(VariableId, StructId, usize)> {
    match base.facts.variable {
        Some(var) => if references.contains(var.0) {
            match variable_struct(hir, var) {
                Some(id) => match field_named(hir, id, member) {
                    Some(field) => Some((var, id, field)),
                    None => None,
                },
                None => None,
            }
        } else {
            None
        },
        None => None,
    }
}

/// The struct that a memory or call-data expression refers to directly.
pub open spec fn direct_struct(hir: Hir, base: Expr) -> Option<StructId> {
    match base.facts.ty {
        Some(Ty::Struct(id)) => if id.0 < hir.structs@.len() {
            Some(id)
        } else {
            None
        },
        Some(Ty::Ref(inner, location)) => match (*inner, location) {
            (Ty::Struct(id), DataLocation::Memory) => if id.0 < hir.structs@.len() {
                Some(id)
            } else {
                None
            },
            (Ty::Struct(id), DataLocation::Calldata) => if id.0 < hir.structs@.len() {
                Some(id)
            } else {
                None
            },
            _ => None,
        },
        _ => None,
    }
}

/// The struct and field of a member of a local struct variable that is not in
/// storage.
pub open spec fn local_field(
    bases: Map<usize, U256>,
    hir: Hir,
    base: Expr,
    member: Seq<char>,
) -> Option<(StructId, usize)> {
    match base.facts.variable {
        Some(var) => match variable_struct(hir, var) {
            Some(id) => if is_local_kind(hir.variables@[var.0 as int].kind) && lookup(bases, var)
                is None {
                match field_named(hir, id, member) {
                    Some(field) => Some((id, field)),
                    None => None,
                }
            } else {
                None
            },
            None => None,
        },
        None => None,
    }
}

/// Whether a variable is declared in a function.
pub open spec fn is_local_kind(kind: VarKind) -> bool {
    kind is Parameter || kind is Return || kind is Local
}

/// The struct and field of a member of a struct in memory.
pub open spec fn memory_field(
    bases: Map<usize, U256>,
    hir: Hir,
    base: Expr,
    member: Seq<char>,
) -> Option<(StructId, usize)> {
    match local_field(bases, hir, base, member) {
        Some(found) => Some(found),
        None => match direct_struct(hir, base) {
            Some(id) => match field_named(hir, id, member) {
                Some(field) => Some((id, field)),
                None => None,
            },
            None => None,
        },
    }
}

/// The slot of a nested member of a struct state variable, and the struct that
/// the member is.
pub open spec fn nested_member(bases: Map<usize, U256>, hir: Hir, expr: Expr) -> Option<
    (U256, Option<StructId>),
>
    decreases expr,
{
    match expr.kind {
        ExprKind::Member(base, member) => match state_field(bases, hir, *base, member@) {
            Some((slot, id, field)) => Some(member_of(hir, slot, id, field)),
            None => match nested_member(bases, hir, *base) {
                Some((slot, Some(id))) => match field_named(hir, id, member@) {
                    Some(field) => Some(member_of(hir, slot, id, field)),
                    None => None,
                },
                _ => None,
            },
        },
        _ => None,
    }
}

/// The slot of a field of a struct at a slot, and the struct that the field is.
pub open spec fn member_of(hir: Hir, slot: U256, id: StructId, field: usize) -> (
    U256,
    Option<StructId>,
) {
    (
        slot_after(slot, field_slot_offset(hir, id, field)),
        variable_struct(hir, hir.structs@[id.0 as int].fields@[field as int]),
    )
}

/// The slot of a member of a nested struct of a state variable.
pub open spec fn nested_slot(
    bases: Map<usize, U256>,
    hir: Hir,
    base: Expr,
    member: Seq<char>,
) -> Option<U256> {
    match nested_member(bases, hir, base) {
        Some((slot, Some(id))) => match field_named(hir, id, member) {
            Some(field) => Some(slot_after(slot, field_slot_offset(hir, id, field))),
            None => None,
        },
        _ => None,
    }
}

/// Returns the slot of a field of a struct at a slot, and the struct that the
/// field is.
fn member_at(hir: &Hir, slot: U256, id: StructId, field: usize) -> (r: (U256, Option<StructId>))
    requires
        hir_wf(*hir),
        id.0 < hir.structs@.len(),
        field < hir.structs@[id.0 as int].fields@.len(),
    ensures
        r == member_of(*hir, slot, id, field),
        r.1 matches Some(inner) ==> inner.0 < hir.structs@.len(),
{
    let offset = get_struct_field_slot_offset(hir, id, field);
    (slot_plus(slot, offset), struct_of_variable(hir, hir.structs[id.0].fields[field]))
}

impl Lowerer {
    /// Resolves a member of a struct state variable to its base slot, struct
    /// and field.
    pub fn get_storage_struct_field_info(
        &self,
        hir: &Hir,
        base: &Expr,
        member: &str,
    ) -> (r: Option<(U256, StructId, usize)>)
        requires
            hir_wf(*hir),
        ensures
            r == state_field(self.struct_storage_base_slots@, *hir, *base, member@),
            r matches Some((_, id, field)) ==> id.0 < hir.structs@.len() && field
                < hir.structs@[id.0 as int].fields@.len(),
    {
        let var: VariableId = match base.facts.variable {
            Some(var) => var,
            None => {
                return None;
            },
        };
        match struct_of_variable(hir, var) {
            Some(id) => match self.get_struct_base_slot(var) {
                Some(slot) => match struct_field_index(hir, id, member) {
                    Some(field) => Some((slot, id, field)),
                    None => None,
                },
                None => None,
            },
            None => None,
        }
    }

    /// Resolves a member of a storage-reference local to the variable, struct
    /// and field.
    pub fn get_storage_ref_struct_field_info(
        &self,
        hir: &Hir,
        base: &Expr,
        member: &str,
    ) -> (r: Option<(VariableId, StructId, usize)>)
        requires
            hir_wf(*hir),
        ensures
            r == reference_field(self.storage_ref_locals@, *hir, *base, member@),
            r matches Some((_, id, field)) ==> id.0 < hir.structs@.len() && field
                < hir.structs@[id.0 as int].fields@.len(),
    {
        let var: VariableId = match base.facts.variable {
            Some(var) => var,
            None => {
                return None;
            },
        };
        if !self.is_storage_ref_local(var) {
            return None;
        }
        match struct_of_variable(hir, var) {
            Some(id) => match struct_field_index(hir, id, member) {
                Some(field) => Some((var, id, field)),
                None => None,
            },
            None => None,
        }
    }

    /// Resolves a member of a struct in memory to the struct and field.
    pub fn get_memory_struct_field_info(
        &self,
        hir: &Hir,
        base: &Expr,
        member: &str,
    ) -> (r: Option<(StructId, usize)>)
        requires
            hir_wf(*hir),
        ensures
            r == memory_field(self.struct_storage_base_slots@, *hir, *base, member@),
            r matches Some((id, field)) ==> id.0 < hir.structs@.len() && field
                < hir.structs@[id.0 as int].fields@.len(),
    {
        if let Some(var) = base.facts.variable {
            if let Some(id) = struct_of_variable(hir, var) {
                let local = matches!(
                    hir.variables[var.0].kind,
                    VarKind::Parameter | VarKind::Return | VarKind::Local
                );
                if local && self.get_struct_base_slot(var).is_none() {
                    if let Some(field) = struct_field_index(hir, id, member) {
                        return Some((id, field));
                    }
                }
            }
        }
        let direct: Option<StructId> = match &base.facts.ty {
            Some(Ty::Struct(id)) => Some(*id),
            Some(Ty::Ref(inner, DataLocation::Memory)) => match &**inner {
                Ty::Struct(id) => Some(*id),
                _ => None,
            },
            Some(Ty::Ref(inner, DataLocation::Calldata)) => match &**inner {
                Ty::Struct(id) => Some(*id),
                _ => None,
            },
            _ => None,
        };
        match direct {
            Some(id) => {
                if id.0 >= hir.structs.len() {
                    return None;
                }
                match struct_field_index(hir, id, member) {
                    Some(field) => Some((id, field)),
                    None => None,
                }
            },
            None => None,
        }
    }

    /// Computes the slot of a nested member of a struct state variable, such as
    /// `stored.inner.leaf`, and the struct that the member is.
    pub fn compute_nested_storage_slot_with_type(
        &self,
        hir: &Hir,
        expr: &Expr,
    ) -> (r: Option<(U256, Option<StructId>)>)
        requires
            hir_wf(*hir),
        ensures
            r == nested_member(self.struct_storage_base_slots@, *hir, *expr),
            r matches Some((_, Some(id))) ==> id.0 < hir.structs@.len(),
        decreases expr,
    {
        match &expr.kind {
            ExprKind::Member(base, member) => {
                if let Some((slot, id, field)) = self.get_storage_struct_field_info(
                    hir,
                    base,
                    member.as_str(),
                ) {
                    return Some(member_at(hir, slot, id, field));
                }
                match self.compute_nested_storage_slot_with_type(hir, base) {
                    Some((slot, Some(id))) => match struct_field_index(hir, id, member.as_str()) {
                        Some(field) => Some(member_at(hir, slot, id, field)),
                        None => None,
                    },
                    _ => None,
                }
            },
            _ => None,
        }
    }

    /// Computes the slot of a member of a nested struct of a state variable.
    pub fn compute_nested_storage_slot(&self, hir: &Hir, base: &Expr, member: &str) -> (r: Option<
        U256,
    >)
        requires
            hir_wf(*hir),
        ensures
            r == nested_slot(self.struct_storage_base_slots@, *hir, *base, member@),
    {
        match self.compute_nested_storage_slot_with_type(hir, base) {
            Some((slot, Some(id))) => match struct_field_index(hir, id, member) {
                Some(field) => {
                    let offset = get_struct_field_slot_offset(hir, id, field);
                    Some(slot_plus(slot, offset))
                },
                None => None,
            },
            _ => None,
        }
    }
}

} // verus!
