//! What the plans of calls, conditionals, events, decoding and storage elements
//! do to the stack.

use crate::hir::{ElementaryType, Expr, ExprKind, Hir, StructId, TryClause, Ty, VariableId};
use crate::lower::analysis::ternary_arity;
use crate::lower::arrays::KeyHash;
use crate::lower::effects::{
    effect, group_standings, have_effect, inside, layer, of, outside, standing_after, standing_to,
    Layer, Standing,
};
use crate::lower::effects_values::law_push_slot_plans_leave_the_slot;
use crate::lower::handlers::clauses_of;
use crate::lower::machine_flow::clause_fits;
use crate::lower::plan::Task;
use crate::lower::plan_calls::{
    abi_decode_tasks, arguments_tasks, data_count, decode_array_tasks, decode_bytes_tasks,
    decode_members, decode_target, element_tasks, emit_tasks, emitted_event, event_values,
    given_count, member_heads, member_tasks, members_tasks, paired_count, region_tasks,
    return_value_tasks, ternary_tasks, try_call_tasks, tuple_arm, Member,
};
use crate::lower::plan_handlers::{
    bind_tasks, catch_tasks, element_slot_tasks, error_handler_tasks, fallback_handler_tasks,
    handler_binding, key_tasks, mapping_element_tasks, panic_handler_tasks, pop_tasks,
    push_empty_tasks, push_tasks, pushed_value, reverts_with, struct_field_tasks, struct_tasks,
    try_results_tasks, undecodable_from, unknown_tasks, variable_member, variable_members,
};
use crate::lower::state::Lowerer;
use crate::lower::types::{decode_strategy, DecodeStrategy};
use crate::mir::types::Span;
use vstd::prelude::*;

verus! {

/// No more elements are given than there are.
proof fn lemma_given_count(elements: Seq<Option<Expr>>, count: nat)
    ensures
        given_count(elements, count) <= count,
    decreases count,
{
    if count > 0 {
        lemma_given_count(elements, (count - 1) as nat);
    }
}

/// The elements of a tuple leave a value each.
proof fn lemma_element_effect<'t>(hir: Hir, elements: Seq<Option<Expr>>, count: nat)
    ensures
        have_effect(
            hir,
            element_tasks::<'t>(elements, count),
            of(0, given_count(elements, count)),
        ),
    decreases count,
{
    broadcast use group_standings;

    if count > 0 {
        lemma_element_effect(hir, elements, (count - 1) as nat);
    }
}

/// An arm of a conditional that yields a tuple leaves the stack as it was.
proof fn lemma_tuple_arm_effect<'t>(hir: Hir, arm: Expr, arity: nat)
    requires
        1 <= arity <= usize::MAX,
    ensures
        have_effect(hir, tuple_arm::<'t>(arm, arity), of(0, 0)),
{
    broadcast use group_standings;

    reveal_with_fuel(standing_to, 4);
    if let ExprKind::Tuple(elements) = arm.kind {
        assert(elements.len() <= usize::MAX);
        lemma_given_count(elements@, elements@.len());
        lemma_element_effect(hir, elements@, elements@.len());
    }
}

/// The plan of a conditional expression leaves one value more, and no task of it
/// runs short.
pub proof fn law_ternary_plans_leave_one_value<'t>(hir: Hir, expr: Expr)
    requires
        expr.kind is Ternary,
    ensures
        have_effect(hir, ternary_tasks::<'t>(expr), of(0, 1)),
{
    broadcast use group_standings;

    reveal_with_fuel(standing_to, 7);
    if let ExprKind::Ternary(cond, then_val, else_val) = expr.kind {
        if let Some(arity) = ternary_arity(expr) {
            if let ExprKind::Tuple(elements) = then_val.kind {
                assert(elements.len() <= usize::MAX);
            }
            if let ExprKind::Tuple(elements) = else_val.kind {
                assert(elements.len() <= usize::MAX);
            }
            lemma_tuple_arm_effect(hir, *then_val, arity);
            lemma_tuple_arm_effect(hir, *else_val, arity);
        }
    }
}

/// The plan of a return statement leaves the stack as it was.
pub proof fn law_return_plans_leave_the_stack<'t>(
    lowerer: Lowerer,
    hir: Hir,
    is_public: bool,
    value: Option<&'t Expr>,
)
    ensures
        have_effect(hir, return_value_tasks(lowerer, is_public, value), of(0, 0)),
{
    broadcast use group_standings;

    reveal_with_fuel(standing_to, 4);
    if let Some(expr) = value {
        if let ExprKind::Tuple(elements) = expr.kind {
            assert(elements.len() <= usize::MAX);
            lemma_given_count(elements@, elements@.len());
            lemma_element_effect(hir, elements@, elements@.len());
        }
    }
}

/// Arguments leave a value each.
proof fn lemma_arguments_effect<'t>(hir: Hir, args: Seq<Expr>, count: nat)
    ensures
        have_effect(hir, arguments_tasks::<'t>(args, count), of(0, count)),
    decreases count,
{
    broadcast use group_standings;

    if count > 0 {
        lemma_arguments_effect(hir, args, (count - 1) as nat);
    }
}

/// The plan of the call of a try statement leaves one value more: whether it
/// succeeded.
pub proof fn law_try_call_plans_leave_one_value<'t>(hir: Hir, expr: Expr)
    ensures
        have_effect(hir, try_call_tasks::<'t>(expr), of(0, 1)),
{
    broadcast use group_standings;

    reveal_with_fuel(standing_to, 5);
    if let ExprKind::Call(callee, args, _) = expr.kind {
        assert(args.len() <= usize::MAX);
        lemma_arguments_effect(hir, args@, args@.len());
    }
}

/// The arguments of an event leave a value each.
proof fn lemma_event_values_effect<'t>(
    hir: Hir,
    parameters: Seq<VariableId>,
    args: Seq<Expr>,
    count: nat,
)
    ensures
        have_effect(hir, event_values::<'t>(hir, parameters, args, count), of(0, count)),
        data_count(hir, parameters, count) <= count,
    decreases count,
{
    broadcast use group_standings;

    if count > 0 {
        lemma_event_values_effect(hir, parameters, args, (count - 1) as nat);
    }
}

/// The plan that emits an event leaves the stack as it was, and no task of it
/// runs short.
pub proof fn law_emit_plans_leave_the_stack<'t>(hir: Hir, expr: Expr)
    ensures
        have_effect(hir, emit_tasks::<'t>(hir, expr), of(0, 0)),
{
    broadcast use group_standings;

    reveal_with_fuel(standing_to, 4);
    if let Some(id) = emitted_event(expr) {
        let parameters = hir.events@[id.0 as int].parameters;
        let args = expr.kind->Call_1;
        assert(parameters.len() <= usize::MAX);
        lemma_event_values_effect(
            hir,
            parameters@,
            args@,
            paired_count(parameters@, args@),
        );
    }
}

/// The plan that decodes bytes takes a region, its length, the size of its heads
/// and a head word, and leaves the bytes.
proof fn lemma_decode_bytes_effect<'t>(hir: Hir)
    ensures
        have_effect(hir, decode_bytes_tasks::<'t>(), of(4, 1)),
{
    broadcast use group_standings;

    reveal_with_fuel(standing_to, 5);
}

/// The plan that decodes an array takes a region, its length and a head word, and
/// leaves the array.
proof fn lemma_decode_array_effect<'t>(hir: Hir, elem: ElementaryType, head_size: u64)
    ensures
        have_effect(hir, decode_array_tasks::<'t>(elem, head_size), of(3, 1)),
{
    broadcast use group_standings;

    reveal_with_fuel(standing_to, 6);
    lemma_decode_bytes_effect(hir);
}

/// Decoding a member adds its value to those decoded before it.
#[verifier::rlimit(90)]
proof fn lemma_decode_member_effect<'t>(
    hir: Hir,
    member: Member<'t>,
    decoded: nat,
    offset: u64,
    head_size: u64,
)
    requires
        decode_strategy(*member.ty, member.encodable) is Some,
        decoded + 4 <= usize::MAX,
    ensures
        have_effect(
            hir,
            member_tasks(member, decoded, offset, head_size),
            of(decoded + 3, decoded + 4),
        ),
{
    broadcast use group_standings;

    reveal_with_fuel(standing_to, 7);
    lemma_decode_bytes_effect(hir);
    if let Some(DecodeStrategy::ElementaryArray(elem)) = decode_strategy(
        *member.ty,
        member.encodable,
    ) {
        lemma_decode_array_effect(hir, elem, head_size);
    }
}

/// Whether every member can be decoded.
pub open spec fn decodable<'t>(members: Seq<Member<'t>>) -> bool {
    forall|i: int|
        0 <= i < members.len() ==> decode_strategy(
            *(#[trigger] members[i]).ty,
            members[i].encodable,
        ) is Some
}

/// Decoding members adds a value each.
proof fn lemma_decode_members_effect<'t>(
    hir: Hir,
    members: Seq<Member<'t>>,
    head_size: u64,
    count: nat,
)
    requires
        decodable(members),
        count <= members.len(),
        members.len() + 4 <= usize::MAX,
    ensures
        have_effect(hir, members_tasks(members, head_size, count), of(3, count + 3)),
    decreases count,
{
    broadcast use group_standings;

    if count > 0 {
        lemma_decode_members_effect(hir, members, head_size, (count - 1) as nat);
        lemma_decode_member_effect(
            hir,
            members[count - 1],
            (count - 1) as nat,
            member_heads(members, (count - 1) as nat) as u64,
            head_size,
        );
    }
}

/// The plan that decodes a region takes its length and its address and leaves the
/// value of each member.
pub proof fn law_region_plans_leave_the_members<'t>(hir: Hir, members: Seq<Member<'t>>)
    requires
        decodable(members),
        members.len() + 4 <= usize::MAX,
    ensures
        have_effect(hir, region_tasks(members), of(2, members.len())),
{
    broadcast use group_standings;

    reveal_with_fuel(standing_to, 2);
    lemma_decode_members_effect(
        hir,
        members,
        member_heads(members, members.len()) as u64,
        members.len(),
    );
}

/// A decode target holds only what can be decoded.
proof fn lemma_target_decodable<'t>(elements: Seq<Option<Expr>>, span: Span, count: nat)
    ensures
        decode_members::<'t>(elements, span, count) matches Ok(members) ==> decodable(members)
            && members.len() <= count,
    decreases count,
{
    if count > 0 {
        lemma_target_decodable(elements, span, (count - 1) as nat);
    }
}

/// The plan of `abi.decode` leaves one value more: the first member, or the value
/// that stands for a complaint.
pub proof fn law_decode_plans_leave_one_value<'t>(hir: Hir, data: Expr, types: Expr, span: Span)
    requires
        decode_target::<'t>(types, span) matches Ok(members) ==> members.len() + 4 <= usize::MAX,
    ensures
        have_effect(hir, abi_decode_tasks::<'t>(data, types, span), of(0, 1)),
{
    broadcast use group_standings;

    reveal_with_fuel(standing_to, 3);
    if let ExprKind::Tuple(elements) = types.kind {
        lemma_target_decodable(elements@, span, elements@.len());
    }
    if let Ok(members) = decode_target::<'t>(types, span) {
        law_region_plans_leave_the_members(hir, members);
    }
}

/// Binding variables to decoded values keeps the values.
proof fn lemma_bind_effect<'t>(hir: Hir, ids: Seq<VariableId>, count: nat)
    requires
        count <= ids.len() <= usize::MAX,
    ensures
        have_effect(hir, bind_tasks::<'t>(ids, count), of(ids.len(), ids.len())),
    decreases count,
{
    broadcast use group_standings;

    reveal_with_fuel(standing_to, 3);
    if count > 0 {
        lemma_bind_effect(hir, ids, (count - 1) as nat);
    }
}

/// Variables of which none cannot be decoded can all be decoded.
proof fn lemma_variables_decodable<'t>(hir: Hir, ids: Seq<VariableId>, from: nat)
    requires
        undecodable_from(hir, ids, from) is None,
    ensures
        forall|i: int|
            from <= i < ids.len() ==> decode_strategy(
                *(#[trigger] variable_members::<'t>(hir, ids)[i]).ty,
                variable_members::<'t>(hir, ids)[i].encodable,
            ) is Some,
    decreases ids.len() - from,
{
    if from < ids.len() {
        lemma_variables_decodable(hir, ids, from + 1);
        assert(variable_members::<'t>(hir, ids)[from as int] == variable_member::<'t>(
            hir,
            ids[from as int],
        ));
    }
}

/// The plan that binds the results of a successful call leaves the stack as it
/// was.
pub proof fn law_try_results_plans_leave_the_stack<'t>(hir: Hir, clause: TryClause)
    requires
        clause_fits(hir, clause),
    ensures
        have_effect(hir, try_results_tasks::<'t>(hir, clause), of(0, 0)),
{
    broadcast use group_standings;

    reveal_with_fuel(standing_to, 3);
    let ids = clause.args@;
    if undecodable_from(hir, ids, 0) is None {
        lemma_variables_decodable(hir, ids, 0);
        law_region_plans_leave_the_members(hir, variable_members::<'t>(hir, ids));
        lemma_bind_effect(hir, ids, ids.len());
    }
}

/// Complaints about handlers leave the stack as it was.
proof fn lemma_unknown_effect<'t>(hir: Hir, clauses: Seq<TryClause>, count: nat)
    ensures
        have_effect(hir, unknown_tasks::<'t>(clauses, count), of(0, 0)),
    decreases count,
{
    broadcast use group_standings;

    if count > 1 {
        lemma_unknown_effect(hir, clauses, (count - 1) as nat);
    }
}

/// Each handler leaves all as it was.
proof fn lemma_handler_effect<'t>(hir: Hir, clause: TryClause, from: Standing)
    requires
        layer(from.within) == Some(Layer::Handlers),
        layer(outside(from.within)) == Some(Layer::Attempt),
    ensures
        standing_after(hir, error_handler_tasks::<'t>(clause), from) == Some(from),
        standing_after(hir, panic_handler_tasks::<'t>(clause), from) == Some(from),
        standing_after(hir, fallback_handler_tasks::<'t>(clause), from) == Some(from),
{
    broadcast use group_standings;

    reveal_with_fuel(standing_to, 5);
    lemma_decode_bytes_effect(hir);
    assert(effect(hir, handler_binding::<'t>(clause)) == of(1, 0));
}

/// Handlers that each leave all as it was leave it so together.
proof fn lemma_handlers_effect<'t>(
    hir: Hir,
    unknown: Seq<Task<'t>>,
    error: Seq<Task<'t>>,
    panic: Seq<Task<'t>>,
    fallback: Seq<Task<'t>>,
    from: Standing,
    inner: Standing,
)
    requires
        have_effect(hir, unknown, of(0, 0)),
        inner == (Standing { within: inside(Layer::Handlers, from.within), ..from }),
        standing_after(hir, error, inner) == Some(inner),
        standing_after(hir, panic, inner) == Some(inner),
        standing_after(hir, fallback, inner) == Some(inner),
    ensures
        standing_after(
            hir,
            unknown + seq![Task::HandlersBegin] + error + panic + seq![Task::FallbackHandler]
                + fallback + seq![Task::Rethrow],
            from,
        ) == Some(from),
{
    broadcast use group_standings;

}

/// The plan of the handlers of a try statement leaves all as it was, and no task
/// of it runs short.
pub proof fn law_catch_plans_leave_the_stack<'t>(
    hir: Hir,
    clauses: Seq<TryClause>,
    from: Standing,
)
    requires
        layer(from.within) == Some(Layer::Attempt),
    ensures
        standing_after(hir, catch_tasks::<'t>(clauses), from) == Some(from),
{
    let inner = Standing { within: inside(Layer::Handlers, from.within), ..from };
    let found = clauses_of(clauses, clauses.len());
    let error = match found.error {
        Some(index) => error_handler_tasks::<'t>(clauses[index as int]),
        None => Seq::empty(),
    };
    let panic = match found.panic {
        Some(index) => panic_handler_tasks::<'t>(clauses[index as int]),
        None => Seq::empty(),
    };
    let fallback = match found.fallback {
        Some(index) => fallback_handler_tasks::<'t>(clauses[index as int]),
        None => seq![Task::NoFallback],
    };
    lemma_unknown_effect(hir, clauses, clauses.len());
    if let Some(index) = found.error {
        lemma_handler_effect(hir, clauses[index as int], inner);
    }
    if let Some(index) = found.panic {
        lemma_handler_effect(hir, clauses[index as int], inner);
    }
    if let Some(index) = found.fallback {
        lemma_handler_effect(hir, clauses[index as int], inner);
    }
    assert(standing_after(hir, Seq::<Task<'t>>::empty(), inner) == Some(inner)) by {
        broadcast use group_standings;

    }
    assert(standing_after(hir, seq![Task::<'t>::NoFallback], inner) == Some(inner)) by {
        broadcast use group_standings;

    }
    lemma_handlers_effect(
        hir,
        unknown_tasks::<'t>(clauses, clauses.len()),
        error,
        panic,
        fallback,
        from,
        inner,
    );
}

/// The plan of the slot of an element takes the slot of the array and the index
/// and leaves the slot of the element.
pub proof fn law_element_slot_plans_leave_the_slot<'t>(
    hir: Hir,
    fixed_len: Option<u64>,
    slots: u64,
)
    ensures
        have_effect(hir, element_slot_tasks::<'t>(fixed_len, slots), of(2, 1)),
{
    broadcast use group_standings;

    reveal_with_fuel(standing_to, 4);
}

/// The plan of `push()` takes the slot of the array and leaves its value.
pub proof fn law_push_empty_plans_leave_one_value<'t>(
    hir: Hir,
    element: Ty,
    slots: u64,
    is_reference: bool,
)
    ensures
        have_effect(hir, push_empty_tasks::<'t>(element, slots, is_reference), of(1, 1)),
{
    broadcast use group_standings;

    reveal_with_fuel(standing_to, 3);
    law_push_slot_plans_leave_the_slot(hir, element, slots);
}

/// The plans of `push(value)` and `pop()` take the slot of the array and leave
/// nothing.
#[verifier::rlimit(90)]
pub proof fn law_push_and_pop_plans_use_the_slot<'t>(
    hir: Hir,
    element: Ty,
    slots: u64,
    arg: Expr,
)
    ensures
        have_effect(hir, push_tasks::<'t>(element, slots, arg), of(1, 0)),
        have_effect(hir, pop_tasks::<'t>(element, slots), of(1, 0)),
{
    broadcast use group_standings;

    reveal_with_fuel(standing_to, 11);
    assert(effect(hir, pushed_value::<'t>(element, arg)) == of(0, 1));
}

/// The plan of the slot of a mapping element leaves one value more.
pub proof fn law_mapping_plans_leave_the_slot<'t>(
    lowerer: Lowerer,
    hir: Hir,
    base: Expr,
    index: Option<&'t Expr>,
)
    ensures
        mapping_element_tasks(lowerer, hir, base, index) matches Some((tasks, _)) ==> have_effect(
            hir,
            tasks,
            of(0, 1),
        ),
{
    broadcast use group_standings;

    reveal_with_fuel(standing_to, 5);
}

/// The plan that hashes a key takes the slot of the mapping and the key and
/// leaves the slot of the element.
pub proof fn law_key_plans_leave_the_slot<'t>(hir: Hir, hash: KeyHash, index: Option<&'t Expr>)
    ensures
        have_effect(hir, key_tasks(hash, index), of(2, 1)),
{
    broadcast use group_standings;

    reveal_with_fuel(standing_to, 3);
}

/// The fields of a struct are stored to the object at the top.
proof fn lemma_struct_field_effect<'t>(
    hir: Hir,
    fields: Seq<VariableId>,
    args: Seq<Expr>,
    count: nat,
)
    ensures
        have_effect(hir, struct_field_tasks::<'t>(fields, args, count), of(1, 1)),
    decreases count,
{
    broadcast use group_standings;

    reveal_with_fuel(standing_to, 3);
    if count > 0 {
        lemma_struct_field_effect(hir, fields, args, (count - 1) as nat);
    }
}

/// The plan of a struct leaves one value more.
pub proof fn law_struct_plans_leave_one_value<'t>(hir: Hir, id: StructId, args: Seq<Expr>)
    ensures
        have_effect(hir, struct_tasks::<'t>(hir, id, args), of(0, 1)),
{
    broadcast use group_standings;

    reveal_with_fuel(standing_to, 2);
    let fields = hir.structs@[id.0 as int].fields@;
    lemma_struct_field_effect(
        hir,
        fields,
        args,
        if args.len() <= fields.len() {
            args.len()
        } else {
            fields.len()
        },
    );
}

/// The plan of a revert with a string leaves the stack as it was.
pub proof fn law_revert_plans_leave_the_stack<'t>(hir: Hir, expr: Expr, tasks: Seq<Task<'t>>)
    requires
        reverts_with(hir, expr, Some(tasks)),
    ensures
        have_effect(hir, tasks, of(0, 0)),
{
    broadcast use group_standings;

    reveal_with_fuel(standing_to, 3);
}

} // verus!
