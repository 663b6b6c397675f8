//! The order in which functions are lowered.

use crate::hir::{
    has_variables, hir_function_fits, hir_wf, peeled, DataLocation, ElementaryType, FunctionKind,
    Hir, HirFunction, Stmt, StructId, Ty, Variable, VariableId,
};
use crate::lower::plan::{Service, Task};
use crate::lower::state::{lookup, Lowerer};
use crate::lower::types::{
    calldata_dynamic_var_kind, calldata_kind, lower_type_from_ty, mir_type_of,
};
use crate::mir::function::Visibility;
use crate::mir::types::{MemoryObjectKind, MirType, SliceLocation};
use vstd::prelude::*;

verus! {

/// How a function is called.
#[derive(Clone, Copy, Debug, PartialEq, Eq, Structural)]
pub struct Convention {
    /// Whether it is called from outside by its selector.
    pub external: bool,
    /// Whether its parameters are decoded.
    pub decodes_params: bool,
    /// Whether its variables live in an internal-call frame.
    pub internal_frame: bool,
}

/// Whether a function is called in a way of its own.
pub open spec fn is_special(kind: FunctionKind) -> bool {
    kind is Constructor || kind is Receive || kind is Fallback
}

/// How a function is called: ordinary public functions by their selector,
/// unless a copy for internal calls is made.
pub open spec fn convention_of(func: HirFunction, force_internal: bool) -> Convention {
    let external = (func.visibility is Public || func.visibility is External) && !is_special(
        func.kind,
    ) && !force_internal;
    Convention {
        external,
        decodes_params: external || func.kind is Constructor,
        internal_frame: !external && !is_special(func.kind),
    }
}

/// Returns how a function is called.
pub fn function_convention(func: &HirFunction, force_internal: bool) -> (r: Convention)
    ensures
        r == convention_of(*func, force_internal),
{
    let special = matches!(
        func.kind,
        FunctionKind::Constructor | FunctionKind::Receive | FunctionKind::Fallback
    );
    let public = matches!(func.visibility, Visibility::Public | Visibility::External);
    let external = public && !special && !force_internal;
    Convention {
        external,
        decodes_params: external || matches!(func.kind, FunctionKind::Constructor),
        internal_frame: !external && !special,
    }
}

/// The shape in which a parameter arrives.
#[derive(Clone, Copy, Debug, PartialEq, Eq, Structural)]
pub enum ParamShape {
    /// A struct with a tail.
    DynamicStruct,
    /// A struct that stands in the head.
    Struct(StructId),
    /// An array of words that stands in the head.
    FixedArray(u64),
    /// An array of words in memory.
    DynArray,
    /// Bytes in memory.
    Bytes,
    /// One word.
    Plain,
}

/// The length of a fixed-size array of words.
pub open spec fn word_array_len(var: Variable) -> Option<u64> {
    match peeled(var.ty) {
        Ty::Array(_, len) => if var.abi.word_elements && len@ <= u16::MAX {
            Some(len@ as u64)
        } else {
            None
        },
        _ => None,
    }
}

/// Returns the length of a parameter that is a fixed-size array of words.
pub fn fixed_word_array_param(var: &Variable) -> (r: Option<u64>)
    ensures
        r == word_array_len(*var),
{
    match var.ty.peel_refs() {
        Ty::Array(_, len) => {
            if !var.abi.word_elements {
                return None;
            }
            match len.to_u64() {
                Some(len) => if len <= 0xffff {
                    Some(len)
                } else {
                    None
                },
                None => None,
            }
        },
        _ => None,
    }
}

/// Whether a parameter is an array of words in memory.
pub open spec fn is_word_array_in_memory(var: Variable) -> bool {
    var.location == Some(DataLocation::Memory) && peeled(var.ty) is DynArray
        && var.abi.word_elements
}

/// Whether a parameter is an array of words in memory, which is decoded to a
/// length and the elements behind it.
pub fn is_dyn_word_array_memory_param(var: &Variable) -> (r: bool)
    ensures
        r == is_word_array_in_memory(*var),
{
    let in_memory = match var.location {
        Some(DataLocation::Memory) => true,
        _ => false,
    };
    if !in_memory {
        return false;
    }
    match var.ty.peel_refs() {
        Ty::DynArray(_) => var.abi.word_elements,
        _ => false,
    }
}

/// Whether a type is `bytes` or `string`.
pub open spec fn is_bytes_or_string(ty: Ty) -> bool {
    ty matches Ty::Elementary(elem) && (elem is Bytes || elem is String)
}

/// The shape in which a parameter arrives. A storage reference travels as its
/// slot: one plain word, never expanded.
pub open spec fn param_shape(var: Variable, decodes: bool) -> ParamShape {
    if !decodes {
        ParamShape::Plain
    } else if !var.storage_ref && peeled(var.ty) is Struct {
        if var.abi.is_dynamic {
            ParamShape::DynamicStruct
        } else {
            ParamShape::Struct(peeled(var.ty)->Struct_0)
        }
    } else if !var.storage_ref && word_array_len(var) is Some {
        ParamShape::FixedArray(word_array_len(var)->0)
    } else if is_word_array_in_memory(var) {
        ParamShape::DynArray
    } else if var.location == Some(DataLocation::Memory) && is_bytes_or_string(peeled(var.ty)) {
        ParamShape::Bytes
    } else {
        ParamShape::Plain
    }
}

/// Returns the shape in which a parameter arrives.
pub fn shape_of_param(var: &Variable, decodes: bool) -> (r: ParamShape)
    ensures
        r == param_shape(*var, decodes),
{
    if !decodes {
        return ParamShape::Plain;
    }
    if !var.storage_ref {
        if let Ty::Struct(id) = var.ty.peel_refs() {
            if var.abi.is_dynamic {
                return ParamShape::DynamicStruct;
            }
            return ParamShape::Struct(*id);
        }
        if let Some(len) = fixed_word_array_param(var) {
            return ParamShape::FixedArray(len);
        }
    }
    if is_dyn_word_array_memory_param(var) {
        return ParamShape::DynArray;
    }
    let in_memory = match var.location {
        Some(DataLocation::Memory) => true,
        _ => false,
    };
    let is_bytes = match var.ty.peel_refs() {
        Ty::Elementary(elem) => matches!(elem, ElementaryType::Bytes | ElementaryType::String),
        _ => false,
    };
    if in_memory && is_bytes {
        ParamShape::Bytes
    } else {
        ParamShape::Plain
    }
}

/// The type of the value that a parameter arrives as.
pub open spec fn param_type(var: Variable) -> MirType {
    if calldata_kind(var) is Some {
        MirType::Slice(SliceLocation::Calldata)
    } else {
        mir_type_of(var.ty)
    }
}

/// Returns the type of the value that a parameter arrives as.
pub fn type_of_param(var: &Variable) -> (r: MirType)
    ensures
        r == param_type(*var),
{
    if calldata_dynamic_var_kind(var).is_some() {
        MirType::Slice(SliceLocation::Calldata)
    } else {
        lower_type_from_ty(&var.ty)
    }
}

/// Whether a field stands in the head as an aggregate.
pub open spec fn is_aggregate(ty: Ty) -> bool {
    peeled(ty) is Struct || peeled(ty) is Array || peeled(ty) is Tuple
}

/// The tasks that decode a field of a struct in the head. A nested aggregate
/// takes several words and is rebuilt from them.
pub open spec fn field_tasks<'a>(field: Variable, fields: u64, index: u64) -> Seq<Task<'a>> {
    if is_aggregate(field.ty) {
        seq![Task::AggregateParam(field.abi.head_size / 32)]
            .push(Task::Service(Service::Materialize(&peeled(field.ty))))
            .push(Task::KeepField(fields, index))
    } else {
        seq![Task::FieldParam(&field.ty)]
            .push(Task::LinkedField(field.abi.field))
            .push(Task::KeepField(fields, index))
    }
}

/// The tasks that decode the first `count` fields of a struct in the head.
pub open spec fn fields_tasks<'a>(hir: Hir, id: StructId, count: nat) -> Seq<Task<'a>>
    decreases count,
{
    if count == 0 {
        Seq::empty()
    } else {
        let fields = hir.structs@[id.0 as int].fields@;
        fields_tasks(hir, id, (count - 1) as nat) + field_tasks(
            hir.variables@[fields[count - 1].0 as int],
            fields.len() as u64,
            (count - 1) as u64,
        )
    }
}

/// The element type of an array.
pub open spec fn element_of(ty: Ty) -> Ty {
    match peeled(ty) {
        Ty::Array(element, _) => *element,
        other => other,
    }
}

/// The tasks that declare, decode and bind a parameter.
pub open spec fn param_tasks<'a>(hir: Hir, id: VariableId, decodes: bool) -> Seq<Task<'a>> {
    let var = hir.variables@[id.0 as int];
    match param_shape(var, decodes) {
        ParamShape::DynamicStruct => seq![Task::DynamicStructParam]
            .push(Task::Service(Service::Materialize(&var.ty)))
            .push(Task::BindParam(id)),
        ParamShape::Struct(struct_id) => {
            let fields = hir.structs@[struct_id.0 as int].fields@;
            seq![Task::Allocate((fields.len() * 32) as u64, MemoryObjectKind::Struct)]
                + fields_tasks(hir, struct_id, fields.len()) + seq![Task::BindParam(id)]
        },
        ParamShape::FixedArray(len) => seq![Task::FixedArrayParam(&element_of(var.ty), len)]
            .push(Task::BindParam(id)),
        ParamShape::DynArray => seq![Task::ArrayParam(param_type(var))].push(Task::BindParam(id)),
        ParamShape::Bytes => seq![Task::BytesParamBegin(param_type(var))]
            .push(Task::Service(Service::AllocateBytes))
            .push(Task::BytesParamEnd)
            .push(Task::BindParam(id)),
        ParamShape::Plain => seq![Task::PlainParam(id, decodes)],
    }
}

/// Whether a parameter can be declared: a struct in the head is declared, and
/// its size is a number of bytes.
pub open spec fn param_fits(hir: Hir, id: VariableId) -> bool {
    let var = hir.variables@[id.0 as int];
    &&& id.0 < hir.variables@.len()
    &&& peeled(var.ty) matches Ty::Struct(struct_id) ==> {
        &&& struct_id.0 < hir.structs@.len()
        &&& hir.structs@[struct_id.0 as int].fields@.len() * 32 <= u64::MAX
    }
}

/// Adds the tasks that decode a field of a struct in the head.
fn plan_field_param<'a>(tasks: &mut Vec<Task<'a>>, field: &'a Variable, fields: u64, index: u64)
    ensures
        final(tasks)@ == old(tasks)@ + field_tasks::<'a>(*field, fields, index),
{
    let inner = field.ty.peel_refs();
    if matches!(inner, Ty::Struct(_) | Ty::Array(_, _) | Ty::Tuple(_)) {
        tasks.push(Task::AggregateParam(field.abi.head_size / 32));
        tasks.push(Task::Service(Service::Materialize(inner)));
        tasks.push(Task::KeepField(fields, index));
    } else {
        tasks.push(Task::FieldParam(&field.ty));
        tasks.push(Task::LinkedField(field.abi.field));
        tasks.push(Task::KeepField(fields, index));
    }
    assert(tasks@ =~= old(tasks)@ + field_tasks::<'a>(*field, fields, index));
}

/// Adds the tasks that declare, decode and bind a parameter.
pub fn plan_param<'a>(tasks: &mut Vec<Task<'a>>, hir: &'a Hir, id: VariableId, decodes: bool)
    requires
        hir_wf(*hir),
        param_fits(*hir, id),
    ensures
        final(tasks)@ == old(tasks)@ + param_tasks::<'a>(*hir, id, decodes),
{
    let var = &hir.variables[id.0];
    match shape_of_param(var, decodes) {
        ParamShape::DynamicStruct => {
            tasks.push(Task::DynamicStructParam);
            tasks.push(Task::Service(Service::Materialize(&var.ty)));
            tasks.push(Task::BindParam(id));
        },
        ParamShape::Struct(struct_id) => {
            let fields = &hir.structs[struct_id.0].fields;
            tasks.push(Task::Allocate(fields.len() as u64 * 32, MemoryObjectKind::Struct));
            let ghost begin = tasks@;
            let mut i: usize = 0;
            assert(tasks@ =~= begin + fields_tasks::<'a>(*hir, struct_id, 0));
            while i < fields.len()
                invariant
                    i <= fields@.len(),
                    hir_wf(*hir),
                    struct_id.0 < hir.structs@.len(),
                    fields@ == hir.structs@[struct_id.0 as int].fields@,
                    tasks@ == begin + fields_tasks::<'a>(*hir, struct_id, i as nat),
                decreases fields@.len() - i,
            {
                proof {
                    reveal(hir_wf);
                    assert(has_variables(*hir, hir.structs@[struct_id.0 as int].fields@));
                    assert(fields@[i as int].0 < hir.variables@.len());
                }
                let count: u64 = fields.len() as u64;
                plan_field_param(tasks, &hir.variables[fields[i].0], count, i as u64);
                i = i + 1;
                assert(tasks@ =~= begin + fields_tasks::<'a>(*hir, struct_id, i as nat));
            }
            tasks.push(Task::BindParam(id));
        },
        ParamShape::FixedArray(len) => {
            if let Ty::Array(element, _) = var.ty.peel_refs() {
                tasks.push(Task::FixedArrayParam(element, len));
                tasks.push(Task::BindParam(id));
            }
        },
        ParamShape::DynArray => {
            tasks.push(Task::ArrayParam(type_of_param(var)));
            tasks.push(Task::BindParam(id));
        },
        ParamShape::Bytes => {
            tasks.push(Task::BytesParamBegin(type_of_param(var)));
            tasks.push(Task::Service(Service::AllocateBytes));
            tasks.push(Task::BytesParamEnd);
            tasks.push(Task::BindParam(id));
        },
        ParamShape::Plain => {
            tasks.push(Task::PlainParam(id, decodes));
        },
    }
    assert(tasks@ =~= old(tasks)@ + param_tasks::<'a>(*hir, id, decodes));
}

/// The bytes of the heads of the first `count` variables.
pub open spec fn heads_size(hir: Hir, ids: Seq<VariableId>, count: nat) -> nat
    decreases count,
{
    if count == 0 {
        0
    } else {
        heads_size(
            hir,
            ids,
            (count - 1) as nat,
        ) + hir.variables@[ids[count - 1].0 as int].abi.head_size as nat
    }
}

/// Fewer variables take no more.
pub proof fn lemma_heads_grow(hir: Hir, ids: Seq<VariableId>, fewer: nat, more: nat)
    requires
        fewer <= more,
    ensures
        heads_size(hir, ids, fewer) <= heads_size(hir, ids, more),
    decreases more,
{
    if fewer < more {
        lemma_heads_grow(hir, ids, fewer, (more - 1) as nat);
    }
}

/// Returns the bytes of the heads of variables.
pub fn head_size_of(hir: &Hir, ids: &Vec<VariableId>) -> (r: u64)
    requires
        has_variables(*hir, ids@),
        heads_size(*hir, ids@, ids@.len()) <= u64::MAX,
    ensures
        r == heads_size(*hir, ids@, ids@.len()),
{
    let mut size: u64 = 0;
    let mut i: usize = 0;
    while i < ids.len()
        invariant
            i <= ids@.len(),
            has_variables(*hir, ids@),
            heads_size(*hir, ids@, ids@.len()) <= u64::MAX,
            size == heads_size(*hir, ids@, i as nat),
        decreases ids@.len() - i,
    {
        proof {
            lemma_heads_grow(*hir, ids@, (i + 1) as nat, ids@.len());
            assert(ids@[i as int].0 < hir.variables@.len());
        }
        size = size + hir.variables[ids[i].0].abi.head_size;
        i = i + 1;
    }
    size
}

/// The tasks that declare the first `count` returned values.
pub open spec fn result_types<'a>(hir: Hir, ids: Seq<VariableId>, count: nat) -> Seq<Task<'a>>
    decreases count,
{
    if count == 0 {
        Seq::empty()
    } else {
        result_types(hir, ids, (count - 1) as nat).push(
            Task::DeclareResult(&hir.variables@[ids[count - 1].0 as int].ty),
        )
    }
}

/// The tasks for the first `count` parameters.
pub open spec fn params_tasks<'a>(
    hir: Hir,
    ids: Seq<VariableId>,
    decodes: bool,
    count: nat,
) -> Seq<Task<'a>>
    decreases count,
{
    if count == 0 {
        Seq::empty()
    } else {
        params_tasks(hir, ids, decodes, (count - 1) as nat) + param_tasks(
            hir,
            ids[count - 1],
            decodes,
        )
    }
}

/// The tasks that reserve places for the named ones of the first `count` return
/// variables. An unnamed one cannot be assigned or read by the body.
pub open spec fn reserve_tasks<'a>(
    hir: Hir,
    ids: Seq<VariableId>,
    body: Option<&'a Vec<Stmt>>,
    count: nat,
) -> Seq<Task<'a>>
    decreases count,
{
    if count == 0 {
        Seq::empty()
    } else {
        let front = reserve_tasks(hir, ids, body, (count - 1) as nat);
        if hir.variables@[ids[count - 1].0 as int].name is Some {
            front.push(Task::ReserveResult(ids[count - 1], body))
        } else {
            front
        }
    }
}

/// The body of a function, if it has one.
pub open spec fn body_of<'a>(func: HirFunction) -> Option<&'a Vec<Stmt>> {
    match func.body {
        Some(body) => Some(&body),
        None => None,
    }
}

/// The tasks that check the head and declare the returned values.
pub open spec fn entry_tasks<'a>(hir: Hir, func: HirFunction, convention: Convention) -> Seq<
    Task<'a>,
> {
    let check = if convention.external {
        seq![Task::HeadSizeCheck(
            heads_size(hir, func.parameters@, func.parameters@.len()) as u64,
        )]
    } else {
        Seq::empty()
    };
    check + result_types(hir, func.results@, func.results@.len())
}

/// The tasks that run the constructors of the bases.
pub open spec fn prelude_tasks<'a>(func: HirFunction) -> Seq<Task<'a>> {
    match func.contract {
        Some(contract) if func.kind is Constructor => seq![Task::ConstructorPrelude(contract)],
        _ => Seq::empty(),
    }
}

/// The tasks that run the body and leave the function.
pub open spec fn body_tasks<'a>(func: HirFunction) -> Seq<Task<'a>> {
    let body = match func.body {
        Some(body) => seq![Task::Statements(&body, 0)],
        None => Seq::empty(),
    };
    body.push(Task::EndFunction(&func.results))
}

/// The tasks that lower a function. The returned values are declared before the
/// parameters, and parameters that live in memory are stored once all are
/// declared: the address of a variable depends on how many there are.
pub open spec fn function_tasks<'a>(hir: Hir, func: HirFunction, convention: Convention) -> Seq<
    Task<'a>,
> {
    entry_tasks(hir, func, convention) + params_tasks(
        hir,
        func.parameters@,
        convention.decodes_params,
        func.parameters@.len(),
    ) + seq![Task::StoreParams] + reserve_tasks(
        hir,
        func.results@,
        body_of(func),
        func.results@.len(),
    ) + prelude_tasks(func) + body_tasks(func)
}

/// Whether the parameters and results of a function can be declared.
pub open spec fn signature_fits(hir: Hir, func: HirFunction) -> bool {
    &&& hir_function_fits(hir, func)
    &&& heads_size(hir, func.parameters@, func.parameters@.len()) <= u64::MAX
    &&& forall|i: int|
        0 <= i < func.parameters@.len() ==> param_fits(hir, #[trigger] func.parameters@[i])
}

/// Returns the tasks that check the head and declare the returned values.
fn plan_entry<'a>(hir: &'a Hir, func: &'a HirFunction, convention: Convention) -> (r: Vec<Task<'a>>)
    requires
        signature_fits(*hir, *func),
    ensures
        r@ == entry_tasks::<'a>(*hir, *func, convention),
{
    let mut tasks: Vec<Task<'a>> = Vec::new();
    if convention.external {
        tasks.push(Task::HeadSizeCheck(head_size_of(hir, &func.parameters)));
    }
    let ghost begin = tasks@;
    let mut i: usize = 0;
    assert(tasks@ =~= begin + result_types::<'a>(*hir, func.results@, 0));
    while i < func.results.len()
        invariant
            i <= func.results@.len(),
            signature_fits(*hir, *func),
            tasks@ == begin + result_types::<'a>(*hir, func.results@, i as nat),
        decreases func.results@.len() - i,
    {
        assert(func.results@[i as int].0 < hir.variables@.len());
        tasks.push(Task::DeclareResult(&hir.variables[func.results[i].0].ty));
        i = i + 1;
        assert(tasks@ =~= begin + result_types::<'a>(*hir, func.results@, i as nat));
    }
    assert(tasks@ =~= entry_tasks::<'a>(*hir, *func, convention));
    tasks
}

/// Adds the tasks that reserve places for named return variables.
fn plan_results<'a>(tasks: &mut Vec<Task<'a>>, hir: &'a Hir, func: &'a HirFunction)
    requires
        signature_fits(*hir, *func),
    ensures
        final(tasks)@ == old(tasks)@ + reserve_tasks(
            *hir,
            func.results@,
            body_of(*func),
            func.results@.len(),
        ),
{
    let body: Option<&'a Vec<Stmt>> = match &func.body {
        Some(body) => Some(body),
        None => None,
    };
    let mut i: usize = 0;
    assert(tasks@ =~= old(tasks)@ + reserve_tasks(*hir, func.results@, body, 0));
    while i < func.results.len()
        invariant
            i <= func.results@.len(),
            signature_fits(*hir, *func),
            body == body_of::<'a>(*func),
            tasks@ == old(tasks)@ + reserve_tasks(*hir, func.results@, body, i as nat),
        decreases func.results@.len() - i,
    {
        assert(func.results@[i as int].0 < hir.variables@.len());
        if hir.variables[func.results[i].0].name.is_some() {
            tasks.push(Task::ReserveResult(func.results[i], body));
        }
        i = i + 1;
        assert(tasks@ =~= old(tasks)@ + reserve_tasks(
            *hir,
            func.results@,
            body,
            i as nat,
        ));
    }
}

/// Returns the tasks that lower a function.
pub fn plan_function<'a>(hir: &'a Hir, func: &'a HirFunction, convention: Convention) -> (r: Vec<
    Task<'a>,
>)
    requires
        hir_wf(*hir),
        signature_fits(*hir, *func),
    ensures
        r@ == function_tasks::<'a>(*hir, *func, convention),
{
    let mut tasks = plan_entry(hir, func, convention);
    let ghost begin = tasks@;
    let decodes = convention.decodes_params;
    let mut i: usize = 0;
    assert(tasks@ =~= begin + params_tasks::<'a>(*hir, func.parameters@, decodes, 0));
    while i < func.parameters.len()
        invariant
            i <= func.parameters@.len(),
            hir_wf(*hir),
            signature_fits(*hir, *func),
            tasks@ == begin + params_tasks::<'a>(*hir, func.parameters@, decodes, i as nat),
        decreases func.parameters@.len() - i,
    {
        assert(param_fits(*hir, func.parameters@[i as int]));
        plan_param(&mut tasks, hir, func.parameters[i], decodes);
        i = i + 1;
        assert(tasks@ =~= begin + params_tasks::<'a>(
            *hir,
            func.parameters@,
            decodes,
            i as nat,
        ));
    }
    tasks.push(Task::StoreParams);
    plan_results(&mut tasks, hir, func);
    let ghost reserved = tasks@;
    if let Some(contract) = func.contract {
        if matches!(func.kind, FunctionKind::Constructor) {
            tasks.push(Task::ConstructorPrelude(contract));
        }
    }
    assert(tasks@ =~= reserved + prelude_tasks::<'a>(*func));
    let ghost prepared = tasks@;
    if let Some(body) = &func.body {
        tasks.push(Task::Statements(body, 0));
    }
    tasks.push(Task::EndFunction(&func.results));
    assert(tasks@ =~= prepared + body_tasks::<'a>(*func));
    tasks
}

/// The task that loads a return variable at the end of a function: from its
/// place, or else its default.
pub open spec fn loaded_result<'a>(lowerer: Lowerer, id: VariableId) -> Task<'a> {
    match lookup(lowerer.local_memory_slots@, id) {
        Some(offset) => if lowerer.slice_slot_locals@.contains(id.0) {
            Task::LoadSlice(offset)
        } else {
            Task::LoadVariable(offset)
        },
        None => Task::DefaultResult(id),
    }
}

/// The tasks that leave a function whose end control reaches.
pub open spec fn end_tasks<'a>(lowerer: Lowerer, results: Vec<VariableId>) -> Seq<Task<'a>> {
    results@.map_values(|id: VariableId| loaded_result(lowerer, id)).push(
        Task::Service(Service::FinishReturn(&results)),
    )
}

/// Returns the tasks that leave a function whose end control reaches, when it
/// returns values.
pub fn plan_end<'a>(lowerer: &Lowerer, results: &'a Vec<VariableId>) -> (r: Vec<Task<'a>>)
    ensures
        r@ == end_tasks::<'a>(*lowerer, *results),
{
    let mut tasks: Vec<Task<'a>> = Vec::new();
    let mut i: usize = 0;
    while i < results.len()
        invariant
            i <= results@.len(),
            tasks@.len() == i,
            forall|k: int|
                0 <= k < i ==> #[trigger] tasks@[k] == loaded_result::<'a>(*lowerer, results@[k]),
        decreases results@.len() - i,
    {
        let id = results[i];
        match lowerer.get_local_memory_offset(id) {
            Some(offset) => {
                if lowerer.is_slice_slot_local(id) {
                    tasks.push(Task::LoadSlice(offset));
                } else {
                    tasks.push(Task::LoadVariable(offset));
                }
            },
            None => {
                tasks.push(Task::DefaultResult(id));
            },
        }
        i = i + 1;
    }
    tasks.push(Task::Service(Service::FinishReturn(results)));
    assert(tasks@ =~= end_tasks::<'a>(*lowerer, *results));
    tasks
}

} // verus!
