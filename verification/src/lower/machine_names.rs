//! Tasks that lower names and literals, and tasks of parameters.

use crate::hir::{Hir, ItemId, Lit, Ty, TypeKind, VariableId};
use crate::lower::bind::{
    bound_as_slice, only_places_differ, places, room, with_local, with_reference, with_word, Places,
};
use crate::lower::emit::{
    emit_external_calldata_head_size_check, extends, head_size_checked, AbiParamSource,
};
use crate::lower::machine::{cut, did, framed, ready, scene, top, Machine, Scene, Step, StepView};
use crate::lower::machine_places::variable_has_place;
use crate::lower::names::{
    bound_value, builtin_value, code_value, interface_id, literal, variable_placed, yul_member,
    Lowered,
};
use crate::lower::params::{
    aggregate_param, aggregate_placed, array_param, begin_bytes_param, bytes_param_begun,
    bytes_param_ended, declare_param, declare_word_param, dynamic_struct_based,
    dynamic_struct_param, finish_bytes_param, fixed_array_param, lemma_new_param,
    lemma_validation_keeps_params, linked_field, lower_array_param, lower_fixed_array_param,
    lower_linked_field, with_new_param, word_param,
};
use crate::lower::plan::Task;
use crate::lower::plan_function::{param_type, type_of_param};
use crate::lower::state::{error_emitted, Lowerer};
use crate::lower::types::{
    abi_word_validator, calldata_dynamic_var_kind, calldata_kind, declared_fits, has_width,
    lower_type_from_ty, mir_type_of, ty_fits, underlying, validator_of, AbiWordValidator,
    ValidatorView,
};
use crate::memory::EvmMemoryLayout;
use crate::mir::builder::{group_builder_steps, BuilderView, FunctionBuilder};
use crate::mir::function::{has_value, next_value, FunctionView};
use crate::mir::types::{MirType, Span, ValueId};
use crate::word::{lemma_word_of, word_of};
use vstd::prelude::*;

verus! {

/// The state after a step that yields a value or makes a complaint.
pub open spec fn named(s: Scene, outcome: Lowered, span: Span) -> Scene {
    match outcome {
        Ok((b, value)) => Scene { b, values: s.values.push(value), ..s },
        Err(complaint) => {
            let (b, value) = error_emitted(s.b);
            Scene {
                b,
                values: s.values.push(value),
                complaints: s.complaints.push((span, complaint)),
                ..s
            }
        },
    }
}

/// Whether a type name is one of a type with known bounds, or of none.
fn is_declared(hir: &Hir, ty: &TypeKind) -> (r: bool)
    ensures
        r == declared_fits(*hir, *ty),
{
    match ty {
        TypeKind::Elementary(elem) => has_width(*elem),
        TypeKind::Custom(ItemId::Enum(id)) => id.0 < hir.enums.len() && hir.enums[id.0] > 0,
        _ => true,
    }
}

/// Whether the type behind a user-defined value type has a known size.
fn underlying_fits(hir: &Hir, ty: &Ty) -> (r: bool)
    ensures
        r == ty_fits(*hir, underlying(*ty)),
{
    let inner: &Ty = match ty {
        Ty::Udvt(inner) => inner,
        _ => ty,
    };
    match inner {
        Ty::Elementary(elem) => has_width(*elem),
        Ty::Enum(id) => id.0 < hir.enums.len(),
        _ => true,
    }
}

/// Whether a literal that is an address fits in a word.
fn literal_fits(lit: &Lit) -> (r: bool)
    ensures
        r == (*lit matches Lit::Address(bytes) ==> bytes@.len() <= 32),
{
    match lit {
        Lit::Address(bytes) => bytes.len() <= 32,
        _ => true,
    }
}

/// Whether the creation codes at hand can be copied to memory.
pub open spec fn codes_fit(lowerer: Lowerer) -> bool {
    forall|id: usize| #[trigger]
        lowerer.contract_bytecodes@.dom().contains(id) ==> lowerer.contract_bytecodes@[id]@.len()
            + 64 <= usize::MAX
}

/// The check with the given value.
pub open spec fn validator_with(view: ValidatorView) -> AbiWordValidator {
    match view {
        ValidatorView::Mask(mask) => AbiWordValidator::Mask(word_of(mask)),
        ValidatorView::SignExtend(byte) => AbiWordValidator::SignExtend(byte as u64),
        ValidatorView::Bool => AbiWordValidator::Bool,
        ValidatorView::EnumRange(count) => AbiWordValidator::EnumRange(count as u64),
    }
}

/// The check that words of a type must pass.
pub open spec fn validator_for(hir: Hir, ty: Ty) -> Option<AbiWordValidator> {
    match validator_of(hir, ty) {
        Some(view) => Some(validator_with(view)),
        None => None,
    }
}

/// Returns the check that words of a type must pass.
fn find_validator(hir: &Hir, ty: &Ty) -> (r: Option<AbiWordValidator>)
    requires
        ty_fits(*hir, underlying(*ty)),
    ensures
        r == validator_for(*hir, *ty),
{
    let validator = abi_word_validator(hir, ty);
    proof {
        if let Some(AbiWordValidator::Mask(mask)) = validator {
            lemma_word_of(mask);
        }
    }
    validator
}

/// Where the encoded arguments of the function being lowered are.
pub open spec fn argument_source(lowerer: Lowerer) -> AbiParamSource {
    if lowerer.lowering_constructor {
        AbiParamSource::ConstructorMemory
    } else {
        AbiParamSource::ExternalCalldata
    }
}

/// Returns where the encoded arguments of the function being lowered are.
fn source_of_arguments(lowerer: &Lowerer) -> (r: AbiParamSource)
    ensures
        r == argument_source(*lowerer),
{
    if lowerer.lowering_constructor {
        AbiParamSource::ConstructorMemory
    } else {
        AbiParamSource::ExternalCalldata
    }
}

/// Whether the heads of so many more parameters have an address.
pub open spec fn heads_fit(func: FunctionView, more: u64) -> bool {
    EvmMemoryLayout::HEAP_START + (func.params.len() + more) * EvmMemoryLayout::WORD_SIZE
        <= u64::MAX
}

/// Whether the heads of so many more parameters have an address.
fn has_heads<'b>(builder: &FunctionBuilder<'b>, more: u64) -> (r: bool)
    requires
        builder.wf(),
    ensures
        r == heads_fit(builder@.func, more),
{
    let end: u128 = EvmMemoryLayout::HEAP_START as u128 + (builder.func.params.len() as u128
        + more as u128) * 32;
    end <= 0xffff_ffff_ffff_ffff
}

/// Whether two words of memory are left for variables once there is one more
/// parameter.
fn has_room_with_param<'b>(lowerer: &Lowerer, builder: &FunctionBuilder<'b>) -> (r: bool)
    requires
        builder.wf(),
    ensures
        forall|ty: MirType|
            r == room(
                lowerer.lowering_internal_function,
                (#[trigger] with_new_param(builder@, ty)).func,
                lowerer.next_local_memory_offset,
                2,
            ),
{
    broadcast use lemma_new_param;

    let end: u128 = lowerer.next_local_memory_offset as u128 + 64;
    if end > 0xffff_ffff_ffff_ffff {
        return false;
    }
    if !lowerer.lowering_internal_function {
        return true;
    }
    let heap: u128 = EvmMemoryLayout::HEAP_START as u128;
    let local: u128 = if end >= heap {
        end - heap
    } else {
        0
    };
    let frame: u128 = 32 + (builder.func.params.len() as u128 + 1) * 32
        + builder.func.return_types.len() as u128 * 32 + local;
    frame <= 0xffff_ffff_ffff_ffff
}

/// What binding a parameter of one word yields: the places, the builder, and
/// the parameters that are to be stored in memory.
pub type Bound = (Places, BuilderView, Seq<(u64, ValueId)>);

/// A parameter of one word with its place. A slice that changes gets two words,
/// anything else that changes one; what refers to storage is marked.
pub open spec fn plain_bound(
    p: Places,
    b: BuilderView,
    deferred: Seq<(u64, ValueId)>,
    lowerer: Lowerer,
    hir: Hir,
    id: VariableId,
    value: ValueId,
) -> Bound {
    let var = hir.variables@[id.0 as int];
    let assigned = lowerer.assigned_vars@.contains(id.0);
    let (p, b, deferred) = if calldata_kind(var) is Some && assigned {
        let (p, b) = bound_as_slice(p, b, lowerer.lowering_internal_function, id, value);
        (p, b, deferred)
    } else if assigned {
        (with_word(p, id), b, deferred.push((p.next, value)))
    } else {
        (with_local(p, id, value), b, deferred)
    };
    (
        if var.storage_ref {
            with_reference(p, id)
        } else {
            p
        },
        b,
        deferred,
    )
}

impl Lowerer {
    /// Binds a parameter of one word. One that changes is stored in memory
    /// later, when every parameter is known; a slice is stored at once.
    pub fn bind_plain_param<'b>(
        &mut self,
        builder: &mut FunctionBuilder<'b>,
        hir: &Hir,
        id: VariableId,
        value: ValueId,
        deferred: &mut Vec<(u64, ValueId)>,
    )
        requires
            old(builder).wf(),
            has_value(old(builder)@.func, value),
            id.0 < hir.variables@.len(),
            room(
                old(self).lowering_internal_function,
                old(builder)@.func,
                old(self).next_local_memory_offset,
                2,
            ),
        ensures
            final(builder).wf(),
            only_places_differ(*old(self), *final(self)),
            (places(*final(self)), final(builder)@, final(deferred)@) == plain_bound(
                places(*old(self)),
                old(builder)@,
                old(deferred)@,
                *old(self),
                *hir,
                id,
                value,
            ),
            extends(old(builder)@, final(builder)@),
            *final(final(builder).func) == *final(old(builder).func),
    {
        let var = &hir.variables[id.0];
        let assigned = self.is_var_assigned(id);
        if calldata_dynamic_var_kind(var).is_some() && assigned {
            self.bind_slice(builder, id, value);
        } else if assigned {
            let offset = self.alloc_local_memory(id);
            deferred.push((offset, value));
            assert(places(*self) =~= with_word(places(*old(self)), id));
        } else {
            self.set_local(id, value);
            assert(places(*self) =~= with_local(places(*old(self)), id, value));
        }
        let ghost middle = places(*self);
        if var.storage_ref {
            self.mark_storage_ref(id);
            assert(places(*self) =~= with_reference(middle, id));
        }
    }
}

/// What performing a task that lowers a name or a literal comes to.
pub open spec fn name_step<'t>(s: Scene, lowerer: Lowerer, hir: Hir, task: Task<'t>) -> StepView {
    match task {
        Task::Literal(lit, span) => {
            if *lit matches Lit::Address(bytes) ==> bytes@.len() <= 32 {
                StepView::Done(named(s, literal(s.b, *lit), span))
            } else {
                StepView::NotReady
            }
        },
        Task::Builtin(builtin, span) => {
            StepView::Done(named(s, builtin_value(s.b, builtin), span))
        },
        Task::InterfaceId(ty, span) => {
            StepView::Done(named(s, interface_id(s.b, hir, *ty), span))
        },
        Task::TypeBound(ty, is_max, span) => {
            if declared_fits(hir, *ty) {
                StepView::Done(named(s, bound_value(s.b, hir, *ty, is_max), span))
            } else {
                StepView::NotReady
            }
        },
        Task::Code(ty, creation, span) => {
            StepView::Done(
                named(s, code_value(s.b, lowerer.contract_bytecodes@, *ty, creation), span),
            )
        },
        Task::YulMember(base, member) => {
            if base.facts.variable matches Some(id) ==> (id.0 < hir.variables@.len() && variable_placed(lowerer, s.b, id)) {
                StepView::Done(named(s, yul_member(s.b, lowerer, hir, *base, *member), member.span))
            } else {
                StepView::NotReady
            }
        },
        _ => StepView::Other,
    }
}

impl Machine {
    /// Performs a task that lowers a name or a literal.
    #[verifier::rlimit(80)]
    pub fn perform_name<'b, 't>(
        &mut self,
        lowerer: &mut Lowerer,
        builder: &mut FunctionBuilder<'b>,
        hir: &Hir,
        task: &Task<'t>,
    ) -> (r: Step)
        requires
            old(builder).wf(),
            codes_fit(*old(lowerer)),
        ensures
            final(builder).wf(),
            did(
                scene(*old(lowerer), *old(self), old(builder)@),
                scene(*final(lowerer), *final(self), final(builder)@),
                r,
                name_step(
                    scene(*old(lowerer), *old(self), old(builder)@),
                    *old(lowerer),
                    *hir,
                    *task,
                ),
            ),
            framed(*old(lowerer), *final(lowerer)),
            !(r is Done) ==> *final(lowerer) == *old(lowerer),
            extends(old(builder)@, final(builder)@),
            *final(final(builder).func) == *final(old(builder).func),
    {
        broadcast use group_builder_steps;

        let ghost before = scene(*lowerer, *self, builder@);
        let ghost expected = name_step(before, *old(lowerer), *hir, *task);
        match task {
            Task::Literal(lit, span) => {
                if !literal_fits(lit) {
                    return Step::NotReady;
                }
                let v = lowerer.lower_literal(builder, lit, *span);
                self.values.push(v);
                assert(scene(*lowerer, *self, builder@) =~= expected->Done_0);
                Step::Done
            },
            Task::Builtin(builtin, span) => {
                let v = lowerer.lower_builtin(builder, *builtin, *span);
                self.values.push(v);
                assert(scene(*lowerer, *self, builder@) =~= expected->Done_0);
                Step::Done
            },
            Task::InterfaceId(ty, span) => {
                let v = lowerer.lower_interface_id(builder, hir, ty, *span);
                self.values.push(v);
                assert(scene(*lowerer, *self, builder@) =~= expected->Done_0);
                Step::Done
            },
            Task::TypeBound(ty, is_max, span) => {
                if !is_declared(hir, ty) {
                    return Step::NotReady;
                }
                let v = lowerer.lower_type_minmax(builder, hir, ty, *is_max, *span);
                self.values.push(v);
                assert(scene(*lowerer, *self, builder@) =~= expected->Done_0);
                Step::Done
            },
            Task::Code(ty, creation, span) => {
                let v = lowerer.lower_type_creation_code(builder, ty, *creation, *span);
                self.values.push(v);
                assert(scene(*lowerer, *self, builder@) =~= expected->Done_0);
                Step::Done
            },
            Task::YulMember(base, member) => {
                let known = match base.facts.variable {
                    Some(id) => id.0 < hir.variables.len() && variable_has_place(
                        lowerer,
                        builder,
                        id,
                    ),
                    None => true,
                };
                if !known {
                    return Step::NotReady;
                }
                let v = lowerer.lower_yul_member(builder, hir, base, member);
                self.values.push(v);
                assert(scene(*lowerer, *self, builder@) =~= expected->Done_0);
                Step::Done
            },
            _ => Step::Other,
        }
    }
}

/// What performing a task of a parameter comes to.
pub open spec fn param_step<'t>(s: Scene, lowerer: Lowerer, hir: Hir, task: Task<'t>) -> StepView {
    match task {
        Task::HeadSizeCheck(size) => {
            StepView::Done(Scene { b: head_size_checked(s.b, size), values: s.values, ..s })
        },
        Task::DeclareResult(ty) => {
            StepView::Done(
                Scene {
                    b: BuilderView {
                        func: FunctionView {
                            return_types: s.b.func.return_types.push(mir_type_of(*ty)),
                            ..s.b.func
                        },
                        block: s.b.block,
                    },
                    values: s.values,
                    ..s
                },
            )
        },
        Task::DynamicStructParam => {
            let (b, v) = dynamic_struct_based(s.b, argument_source(lowerer));
            StepView::Done(Scene { b, values: s.values.push(v), ..s })
        },
        Task::AggregateParam(count) => {
            if heads_fit(s.b.func, 0) {
                let (b, v) = aggregate_placed(s.b, argument_source(lowerer), count);
                StepView::Done(Scene { b, values: s.values.push(v), ..s })
            } else {
                StepView::NotReady
            }
        },
        Task::FieldParam(ty) => {
            if heads_fit(s.b.func, 0) && ty_fits(hir, underlying(*ty)) {
                let (b, v) = word_param(
                    s.b,
                    argument_source(lowerer),
                    MirType::uint256(),
                    validator_for(hir, *ty),
                );
                StepView::Done(Scene { b, values: s.values.push(v), ..s })
            } else {
                StepView::NotReady
            }
        },
        Task::LinkedField(encoding) => {
            if ready(s.b, s.values, 1) {
                let a0 = top(s.values, 0);
                let (b, v) = linked_field(s.b, a0, encoding);
                StepView::Done(Scene { b, values: cut(s.values, 1).push(v), ..s })
            } else {
                StepView::NotReady
            }
        },
        _ => StepView::Other,
    }
}

impl Machine {
    /// Performs a task of a parameter.
    #[verifier::rlimit(80)]
    pub fn perform_param<'b, 't>(
        &mut self,
        lowerer: &mut Lowerer,
        builder: &mut FunctionBuilder<'b>,
        hir: &Hir,
        task: &Task<'t>,
    ) -> (r: Step)
        requires
            old(builder).wf(),
        ensures
            final(builder).wf(),
            did(
                scene(*old(lowerer), *old(self), old(builder)@),
                scene(*final(lowerer), *final(self), final(builder)@),
                r,
                param_step(
                    scene(*old(lowerer), *old(self), old(builder)@),
                    *old(lowerer),
                    *hir,
                    *task,
                ),
            ),
            framed(*old(lowerer), *final(lowerer)),
            !(r is Done) ==> *final(lowerer) == *old(lowerer),
            extends(old(builder)@, final(builder)@),
            *final(final(builder).func) == *final(old(builder).func),
    {
        broadcast use group_builder_steps;

        let ghost before = scene(*lowerer, *self, builder@);
        let ghost expected = param_step(before, *old(lowerer), *hir, *task);
        match task {
            Task::HeadSizeCheck(size) => {
                emit_external_calldata_head_size_check(builder, *size);
                assert(scene(*lowerer, *self, builder@) =~= expected->Done_0);
                Step::Done
            },
            Task::DeclareResult(ty) => {
                builder.add_return(lower_type_from_ty(ty));
                assert(scene(*lowerer, *self, builder@) =~= expected->Done_0);
                Step::Done
            },
            Task::DynamicStructParam => {
                let v = dynamic_struct_param(builder, source_of_arguments(lowerer));
                self.values.push(v);
                assert(scene(*lowerer, *self, builder@) =~= expected->Done_0);
                Step::Done
            },
            Task::AggregateParam(count) => {
                if !has_heads(builder, 0) {
                    return Step::NotReady;
                }
                let v = aggregate_param(builder, source_of_arguments(lowerer), *count);
                self.values.push(v);
                assert(scene(*lowerer, *self, builder@) =~= expected->Done_0);
                Step::Done
            },
            Task::FieldParam(ty) => {
                if !(has_heads(builder, 0) && underlying_fits(hir, ty)) {
                    return Step::NotReady;
                }
                let validator = find_validator(hir, ty);
                let v = declare_word_param(
                    builder,
                    source_of_arguments(lowerer),
                    MirType::uint256(),
                    validator,
                );
                self.values.push(v);
                assert(scene(*lowerer, *self, builder@) =~= expected->Done_0);
                Step::Done
            },
            Task::LinkedField(encoding) => {
                if !self.is_ready(builder, 1) {
                    return Step::NotReady;
                }
                let a0 = self.peek(0);
                assert(has_value(builder@.func, top(self.values@, 0)));
                self.drop_values(1);
                let v = lower_linked_field(builder, a0, *encoding);
                self.values.push(v);
                assert(scene(*lowerer, *self, builder@) =~= expected->Done_0);
                Step::Done
            },
            _ => Step::Other,
        }
    }
}

/// What performing a task of a parameter that is an array or bytes comes to.
pub open spec fn sequence_step<'t>(
    s: Scene,
    lowerer: Lowerer,
    hir: Hir,
    task: Task<'t>,
) -> StepView {
    match task {
        Task::FixedArrayParam(ty, len) => {
            if heads_fit(s.b.func, len) && ty_fits(hir, underlying(*ty)) {
                let (b, v) = fixed_array_param(
                    s.b,
                    argument_source(lowerer),
                    validator_for(hir, *ty),
                    len,
                );
                StepView::Done(Scene { b, values: s.values.push(v), ..s })
            } else {
                StepView::NotReady
            }
        },
        Task::ArrayParam(ty) => {
            let (b, v) = array_param(s.b, argument_source(lowerer), lowerer.has_mcopy, ty);
            StepView::Done(Scene { b, values: s.values.push(v), ..s })
        },
        Task::BytesParamBegin(ty) => {
            let (b, r) = bytes_param_begun(s.b, argument_source(lowerer), ty);
            StepView::Done(
                Scene { b, values: s.values.push(r.0).push(r.1).push(r.2).push(r.3), ..s },
            )
        },
        Task::BytesParamEnd => {
            if ready(s.b, s.values, 4) {
                let a0 = top(s.values, 0);
                let a1 = top(s.values, 1);
                let a2 = top(s.values, 2);
                let a3 = top(s.values, 3);
                StepView::Done(
                    Scene {
                        b: bytes_param_ended(
                            s.b,
                            argument_source(lowerer),
                            lowerer.has_mcopy,
                            a3,
                            a2,
                            a1,
                            a0,
                        ),
                        values: cut(s.values, 4).push(a0),
                        ..s
                    },
                )
            } else {
                StepView::NotReady
            }
        },
        _ => StepView::Other,
    }
}

impl Machine {
    /// Performs a task of a parameter that is an array or bytes.
    #[verifier::rlimit(80)]
    pub fn perform_sequence<'b, 't>(
        &mut self,
        lowerer: &mut Lowerer,
        builder: &mut FunctionBuilder<'b>,
        hir: &Hir,
        task: &Task<'t>,
    ) -> (r: Step)
        requires
            old(builder).wf(),
        ensures
            final(builder).wf(),
            did(
                scene(*old(lowerer), *old(self), old(builder)@),
                scene(*final(lowerer), *final(self), final(builder)@),
                r,
                sequence_step(
                    scene(*old(lowerer), *old(self), old(builder)@),
                    *old(lowerer),
                    *hir,
                    *task,
                ),
            ),
            framed(*old(lowerer), *final(lowerer)),
            !(r is Done) ==> *final(lowerer) == *old(lowerer),
            extends(old(builder)@, final(builder)@),
            *final(final(builder).func) == *final(old(builder).func),
    {
        broadcast use group_builder_steps;

        let ghost before = scene(*lowerer, *self, builder@);
        let ghost expected = sequence_step(before, *old(lowerer), *hir, *task);
        match task {
            Task::FixedArrayParam(ty, len) => {
                if !(has_heads(builder, *len) && underlying_fits(hir, ty)) {
                    return Step::NotReady;
                }
                let validator = find_validator(hir, ty);
                let v = lower_fixed_array_param(
                    builder,
                    source_of_arguments(lowerer),
                    validator,
                    *len,
                );
                self.values.push(v);
                assert(scene(*lowerer, *self, builder@) =~= expected->Done_0);
                Step::Done
            },
            Task::ArrayParam(ty) => {
                let v = lower_array_param(
                    builder,
                    source_of_arguments(lowerer),
                    lowerer.has_mcopy,
                    *ty,
                );
                self.values.push(v);
                assert(scene(*lowerer, *self, builder@) =~= expected->Done_0);
                Step::Done
            },
            Task::BytesParamBegin(ty) => {
                let r = begin_bytes_param(builder, source_of_arguments(lowerer), *ty);
                self.values.push(r.0);
                self.values.push(r.1);
                self.values.push(r.2);
                self.values.push(r.3);
                assert(scene(*lowerer, *self, builder@) =~= expected->Done_0);
                Step::Done
            },
            Task::BytesParamEnd => {
                if !self.is_ready(builder, 4) {
                    return Step::NotReady;
                }
                let a0 = self.peek(0);
                assert(has_value(builder@.func, top(self.values@, 0)));
                let a1 = self.peek(1);
                assert(has_value(builder@.func, top(self.values@, 1)));
                let a2 = self.peek(2);
                assert(has_value(builder@.func, top(self.values@, 2)));
                let a3 = self.peek(3);
                assert(has_value(builder@.func, top(self.values@, 3)));
                self.drop_values(4);
                finish_bytes_param(
                    builder,
                    source_of_arguments(lowerer),
                    lowerer.has_mcopy,
                    a3,
                    a2,
                    a1,
                    a0,
                );
                self.values.push(a0);
                assert(scene(*lowerer, *self, builder@) =~= expected->Done_0);
                Step::Done
            },
            _ => Step::Other,
        }
    }
}

/// What performing the task of a parameter of one word comes to.
pub open spec fn plain_step<'t>(s: Scene, lowerer: Lowerer, hir: Hir, task: Task<'t>) -> StepView {
    match task {
        Task::PlainParam(id, decodes) => {
            if id.0 < hir.variables@.len()
                    && room(
                    lowerer.lowering_internal_function,
                    with_new_param(s.b, param_type(hir.variables@[id.0 as int])).func,
                    s.places.next,
                    2,
                )
                && heads_fit(s.b.func, 0)
                && ty_fits(hir, underlying(hir.variables@[id.0 as int].ty)) {
                StepView::Done({
                        let var = hir.variables@[id.0 as int];
                        let (b, value) = if decodes {
                            word_param(
                                s.b,
                                argument_source(lowerer),
                                param_type(var),
                                validator_for(hir, var.ty),
                            )
                        } else {
                            (with_new_param(s.b, param_type(var)), next_value(s.b.func))
                        };
                        let (p, b, deferred) = plain_bound(
                            s.places,
                            b,
                            s.deferred,
                            lowerer,
                            hir,
                            id,
                            value,
                        );
                        Scene { b, places: p, deferred, ..s }
                })
            } else {
                StepView::NotReady
            }
        },
        _ => StepView::Other,
    }
}

impl Machine {
    /// Performs the task of a parameter of one word.
    #[verifier::rlimit(80)]
    pub fn perform_plain<'b, 't>(
        &mut self,
        lowerer: &mut Lowerer,
        builder: &mut FunctionBuilder<'b>,
        hir: &Hir,
        task: &Task<'t>,
    ) -> (r: Step)
        requires
            old(builder).wf(),
        ensures
            final(builder).wf(),
            did(
                scene(*old(lowerer), *old(self), old(builder)@),
                scene(*final(lowerer), *final(self), final(builder)@),
                r,
                plain_step(
                    scene(*old(lowerer), *old(self), old(builder)@),
                    *old(lowerer),
                    *hir,
                    *task,
                ),
            ),
            framed(*old(lowerer), *final(lowerer)),
            !(r is Done) ==> *final(lowerer) == *old(lowerer),
            extends(old(builder)@, final(builder)@),
            *final(final(builder).func) == *final(old(builder).func),
    {
        broadcast use group_builder_steps;

        let ghost before = scene(*lowerer, *self, builder@);
        let ghost expected = plain_step(before, *old(lowerer), *hir, *task);
        match task {
            Task::PlainParam(id, decodes) => {
                if !(id.0 < hir.variables.len()
                    && has_room_with_param(lowerer, builder)
                    && has_heads(builder, 0)
                    && underlying_fits(hir, &hir.variables[id.0].ty)) {
                    return Step::NotReady;
                }
                broadcast use lemma_new_param;
                let ty = type_of_param(&hir.variables[id.0]);
                let source = source_of_arguments(lowerer);
                proof {
                    lemma_validation_keeps_params(
                        with_new_param(builder@, ty),
                        source,
                        builder@.func.params.len() as u64,
                        validator_for(*hir, hir.variables@[id.0 as int].ty),
                    );
                }
                let value = if *decodes {
                    let validator = find_validator(hir, &hir.variables[id.0].ty);
                    declare_word_param(builder, source, ty, validator)
                } else {
                    declare_param(builder, ty)
                };
                lowerer.bind_plain_param(builder, hir, *id, value, &mut self.deferred);
                assert(scene(*lowerer, *self, builder@) =~= expected->Done_0);
                Step::Done
            },
            _ => Step::Other,
        }
    }
}

} // verus!
