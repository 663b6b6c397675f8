//! Lowering of literals, built-ins and other names that need no operands.

use crate::hir::{
    Builtin, Contract, Expr, ExprKind, Hir, Ident, ItemId, Lit, Res, Symbol, TypeKind, VariableId,
};
use crate::lower::emit::extends;
use crate::lower::objects::{constant_bytes, left_word, lower_constant_bytes, pad_to_word};
use crate::lower::state::{
    error_emitted, lookup, offset_fits, slice_offset_fits, variable_loaded, Complaint, Lowerer,
};
use crate::lower::types::{
    calldata_dynamic_var_kind, calldata_kind, declared_fits, lower_type_minmax, type_bound,
};
use crate::memory::EvmMemoryLayout;
use crate::mir::builder::{
    constant, emitted, group_builder_steps, valued, word, BuilderView, FunctionBuilder,
};
use crate::mir::function::{has_value, next_value};
use crate::mir::inst::{inst, Op};
use crate::mir::types::{Immediate, MirType, SliceLocation, Span, Value, ValueId};
use crate::text::text_is;
use crate::word::{be_value, lemma_word_of, word_modulus, word_of, U256};
use vstd::arithmetic::power2::pow2;
use vstd::prelude::*;

verus! {

/// What lowering something yields: the builder and the value, or the complaint
/// that is made.
pub type Lowered = Result<(BuilderView, ValueId), Complaint>;

/// Whether a lowering step did what it should: it emitted the value and left
/// the state alone, or it made the complaint and emitted the error value.
pub open spec fn settled(
    before: Lowerer,
    after: Lowerer,
    b: BuilderView,
    after_b: BuilderView,
    r: ValueId,
    span: Span,
    outcome: Lowered,
) -> bool {
    match outcome {
        Ok(result) => after == before && (after_b, r) == result,
        Err(complaint) => {
            &&& after == (Lowerer { complaints: after.complaints, ..before })
            &&& after.complaints@ == before.complaints@.push((span, complaint))
            &&& (after_b, r) == error_emitted(b)
        },
    }
}

/// A 256-bit constant.
pub open spec fn word_constant(b: BuilderView, value: U256) -> (BuilderView, ValueId) {
    (constant(b, value), next_value(b.func))
}

/// The value of a literal. Strings take the highest bytes of a word, cut off
/// after it.
pub open spec fn literal(b: BuilderView, lit: Lit) -> Lowered {
    match lit {
        Lit::Bool(value) => Ok(
            (valued(b, Value::Immediate(Immediate::Bool(value))), next_value(b.func)),
        ),
        Lit::Number(value) => Ok(word_constant(b, value)),
        Lit::Rational => Err(Complaint::FractionalLiteral),
        Lit::Str(bytes) => Ok(
            word_constant(
                b,
                left_word(
                    if bytes@.len() <= 32 {
                        bytes@
                    } else {
                        bytes@.take(32)
                    },
                ),
            ),
        ),
        Lit::Address(bytes) => Ok(word_constant(b, word_of(be_value(bytes@)))),
        Lit::Error(guar) => Ok((valued(b, Value::Error(guar)), next_value(b.func))),
    }
}

/// The value of a built-in that needs no operands.
pub open spec fn builtin_value(b: BuilderView, builtin: Builtin) -> Lowered {
    let address = Some(MirType::Address);
    let number = Some(MirType::uint256());
    let one = |op: Op, ty: Option<MirType>| -> Lowered
        { Ok((emitted(b, inst(op, seq![]), ty), next_value(b.func))) };
    match builtin {
        Builtin::MsgSender => one(Op::Caller, address),
        Builtin::MsgValue => one(Op::CallValue, number),
        Builtin::MsgData => Ok(message_data(b)),
        Builtin::MsgSig => Ok(message_selector(b)),
        Builtin::BlockCoinbase => one(Op::Coinbase, address),
        Builtin::BlockTimestamp => one(Op::Timestamp, number),
        Builtin::BlockDifficulty | Builtin::BlockPrevrandao => one(Op::PrevRandao, number),
        Builtin::BlockNumber => one(Op::BlockNumber, number),
        Builtin::BlockGaslimit => one(Op::GasLimit, number),
        Builtin::BlockChainid => one(Op::ChainId, number),
        Builtin::BlockBasefee => one(Op::BaseFee, number),
        Builtin::BlockBlobbasefee => one(Op::BlobBaseFee, number),
        Builtin::TxOrigin => one(Op::Origin, address),
        Builtin::TxGasPrice => one(Op::GasPrice, number),
        Builtin::Gasleft | Builtin::MsgGas => one(Op::Gas, number),
        Builtin::This => one(Op::Address, address),
        _ => Err(Complaint::BuiltinValue(builtin)),
    }
}

/// The whole call data as a slice.
#[verifier::opaque]
pub open spec fn message_data(b: BuilderView) -> (BuilderView, ValueId) {
    let zero = next_value(b.func);
    let b = constant(b, word(0));
    let size = next_value(b.func);
    let b = emitted(b, inst(Op::CalldataSize, seq![]), Some(MirType::uint256()));
    (
        emitted(
            b,
            inst(Op::MakeSlice { location: SliceLocation::Calldata }, seq![zero, size]),
            Some(MirType::Slice(SliceLocation::Calldata)),
        ),
        next_value(b.func),
    )
}

/// The selector of the call, in the highest bytes of a word.
#[verifier::opaque]
pub open spec fn message_selector(b: BuilderView) -> (BuilderView, ValueId) {
    let zero = next_value(b.func);
    let b = constant(b, word(0));
    let first = next_value(b.func);
    let b = emitted(b, inst(Op::CalldataLoad, seq![zero]), Some(MirType::uint256()));
    let shift = next_value(b.func);
    let b = constant(b, word(224));
    let selector = next_value(b.func);
    let b = emitted(b, inst(Op::Shr, seq![shift, first]), Some(MirType::uint256()));
    (
        emitted(b, inst(Op::Shl, seq![shift, selector]), Some(MirType::uint256())),
        next_value(b.func),
    )
}

/// A selector in the highest bytes of a word.
pub open spec fn selector_word(selector: u32) -> U256 {
    word_of((selector as nat * pow2(224)) % word_modulus())
}

/// Returns a selector in the highest bytes of a word.
pub fn left_aligned_selector(selector: u32) -> (r: U256)
    ensures
        r == selector_word(selector),
{
    let r = U256::from_u64(selector as u64).shl(224);
    proof {
        lemma_word_of(r);
    }
    r
}

/// The selector of a function or custom error.
pub open spec fn item_selector(hir: Hir, item: ItemId) -> Option<u32> {
    match item {
        ItemId::Function(id) => if id.0 < hir.functions@.len() {
            Some(hir.functions@[id.0 as int].selector)
        } else {
            None
        },
        ItemId::Error(id) => if id.0 < hir.errors@.len() {
            Some(hir.errors@[id.0 as int])
        } else {
            None
        },
        _ => None,
    }
}

/// Returns the selector of a function or custom error.
fn selector_of_item(hir: &Hir, item: ItemId) -> (r: Option<u32>)
    ensures
        r == item_selector(*hir, item),
{
    match item {
        ItemId::Function(id) => if id.0 < hir.functions.len() {
            Some(hir.functions[id.0].selector)
        } else {
            None
        },
        ItemId::Error(id) => if id.0 < hir.errors.len() {
            Some(hir.errors[id.0])
        } else {
            None
        },
        _ => None,
    }
}

/// The selector of the function or error that an expression resolves to.
pub open spec fn resolved_selector(hir: Hir, expr: Expr) -> Option<u32> {
    match expr.facts.res {
        Some(Res::Item(item)) => item_selector(hir, item),
        _ => None,
    }
}

/// Returns the selector of the function or error that an expression resolves
/// to.
pub fn lower_resolved_function_selector(hir: &Hir, expr: &Expr) -> (r: Option<u32>)
    ensures
        r == resolved_selector(*hir, *expr),
{
    match expr.facts.res {
        Some(Res::Item(item)) => selector_of_item(hir, item),
        _ => None,
    }
}

/// The selector of one candidate of a name.
pub open spec fn candidate_selector(hir: Hir, res: Res) -> Option<u32> {
    match res {
        Res::Item(item) => item_selector(hir, item),
        _ => None,
    }
}

/// The selector that all candidates of a bare function name share.
pub open spec fn shared_selector(hir: Hir, expr: Expr) -> Option<u32> {
    match expr.kind {
        ExprKind::Ident(candidates) => if candidates@.len() > 0 && forall|i: int|
            0 <= i < candidates@.len() ==> candidate_selector(hir, #[trigger] candidates@[i])
                is Some && candidate_selector(hir, candidates@[i]) == candidate_selector(
                hir,
                candidates@[0],
            ) {
            candidate_selector(hir, candidates@[0])
        } else {
            None
        },
        _ => None,
    }
}

/// The selector of a bare function name used as `f.selector`.
///
/// A name reached through an override chain, or visible along several
/// inheritance paths, has several candidates. They all describe the same
/// signature and so share one selector. A set that disagrees is ambiguous.
pub fn ident_function_selector(hir: &Hir, expr: &Expr) -> (r: Option<u32>)
    ensures
        r == shared_selector(*hir, *expr),
{
    match &expr.kind {
        ExprKind::Ident(candidates) => {
            let mut selector: Option<u32> = None;
            let mut i: usize = 0;
            while i < candidates.len()
                invariant
                    i <= candidates@.len(),
                    expr.kind == ExprKind::Ident(*candidates),
                    i == 0 ==> selector is None,
                    i > 0 ==> selector is Some && selector == candidate_selector(
                        *hir,
                        candidates@[0],
                    ),
                    forall|k: int|
                        0 <= k < i ==> candidate_selector(*hir, #[trigger] candidates@[k])
                            == selector,
                decreases candidates@.len() - i,
            {
                let candidate = match candidates[i] {
                    Res::Item(item) => selector_of_item(hir, item),
                    _ => None,
                };
                assert(candidate == candidate_selector(*hir, candidates@[i as int]));
                let number: u32 = match candidate {
                    Some(number) => number,
                    None => {
                        return None;
                    },
                };
                match selector {
                    None => {
                        selector = Some(number);
                    },
                    Some(first) => {
                        if first != number {
                            return None;
                        }
                    },
                }
                i = i + 1;
            }
            selector
        },
        _ => None,
    }
}

/// The selector of the event that an expression resolves to.
pub open spec fn resolved_event_selector(hir: Hir, expr: Expr) -> Option<U256> {
    match expr.facts.res {
        Some(Res::Item(ItemId::Event(id))) => if id.0 < hir.events@.len() {
            Some(hir.events@[id.0 as int].selector)
        } else {
            None
        },
        _ => None,
    }
}

/// Returns the selector of the event that an expression resolves to.
pub fn lower_resolved_event_selector(hir: &Hir, expr: &Expr) -> (r: Option<U256>)
    ensures
        r == resolved_event_selector(*hir, *expr),
{
    match expr.facts.res {
        Some(Res::Item(ItemId::Event(id))) => if id.0 < hir.events.len() {
            Some(hir.events[id.0].selector)
        } else {
            None
        },
        _ => None,
    }
}

/// The value of `type(I).interfaceId`.
pub open spec fn interface_id(b: BuilderView, hir: Hir, ty: TypeKind) -> Lowered {
    match ty {
        TypeKind::Custom(ItemId::Contract(id)) => if id.0 < hir.contracts@.len()
            && hir.contracts@[id.0 as int].is_interface {
            Ok(word_constant(b, selector_word(hir.contracts@[id.0 as int].interface_id)))
        } else {
            Err(Complaint::NotAnInterface)
        },
        _ => Err(Complaint::NotAnInterface),
    }
}

/// The value of `type(T).min` or `type(T).max`.
pub open spec fn bound_value(b: BuilderView, hir: Hir, ty: TypeKind, is_max: bool) -> Lowered {
    match type_bound(hir, ty, is_max) {
        Some(bound) => Ok(word_constant(b, word_of(bound))),
        None => Err(Complaint::NotAnInteger),
    }
}

/// The value of `type(C).creationCode` or `type(C).runtimeCode`: a pointer to
/// bytes in memory.
pub open spec fn code_value(
    b: BuilderView,
    bytecodes: Map<usize, Vec<u8>>,
    ty: TypeKind,
    is_creation_code: bool,
) -> Lowered {
    match ty {
        TypeKind::Custom(ItemId::Contract(id)) => if !is_creation_code {
            Err(Complaint::RuntimeCode)
        } else if bytecodes.dom().contains(id.0) {
            Ok(constant_bytes(b, bytecodes[id.0]@))
        } else {
            Err(Complaint::MissingBytecode)
        },
        _ => Err(Complaint::NotAContract),
    }
}

/// A component of a variable in inline assembly.
pub open spec fn yul_member(
    b: BuilderView,
    lowerer: Lowerer,
    hir: Hir,
    base: Expr,
    member: Ident,
) -> Lowered {
    match base.facts.variable {
        None => Err(Complaint::YulMember(member.symbol)),
        Some(id) => if member.text@ == "slot"@ {
            yul_slot(b, lowerer, id, member.symbol)
        } else if member.text@ == "offset"@ {
            yul_offset(b, lowerer, hir, id, member.symbol)
        } else if member.text@ == "length"@ && calldata_kind(hir.variables@[id.0 as int]) is Some {
            Ok(yul_length(b, lowerer, id))
        } else {
            Err(Complaint::YulMember(member.symbol))
        },
    }
}

/// The slot of a variable in inline assembly.
pub open spec fn yul_slot(
    b: BuilderView,
    lowerer: Lowerer,
    id: VariableId,
    name: Symbol,
) -> Lowered {
    if lookup(lowerer.storage_slots@, id) is Some {
        Ok(word_constant(b, lowerer.storage_slots@[id.0]))
    } else if lookup(lowerer.locals@, id) is Some {
        Ok((b, lowerer.locals@[id.0]))
    } else if lookup(lowerer.local_memory_slots@, id) is Some {
        Ok(
            variable_loaded(
                b,
                lowerer.lowering_internal_function,
                lowerer.local_memory_slots@[id.0],
            ),
        )
    } else {
        Err(Complaint::YulMember(name))
    }
}

/// The offset of a variable in inline assembly: its byte in the slot, or where
/// a call-data slice starts.
pub open spec fn yul_offset(
    b: BuilderView,
    lowerer: Lowerer,
    hir: Hir,
    id: VariableId,
    name: Symbol,
) -> Lowered {
    if lookup(lowerer.storage_locations@, id) is Some {
        Ok(word_constant(b, word(lowerer.storage_locations@[id.0].offset as u64)))
    } else if calldata_kind(hir.variables@[id.0 as int]) is Some {
        if has_slice_slot(lowerer, id) {
            Ok(
                variable_loaded(
                    b,
                    lowerer.lowering_internal_function,
                    lowerer.local_memory_slots@[id.0],
                ),
            )
        } else if lookup(lowerer.locals@, id) is Some {
            Ok(
                (
                    emitted(
                        b,
                        inst(Op::SlicePtr, seq![lowerer.locals@[id.0]]),
                        Some(MirType::uint256()),
                    ),
                    next_value(b.func),
                ),
            )
        } else {
            Ok(word_constant(b, word(0)))
        }
    } else {
        Err(Complaint::YulMember(name))
    }
}

/// The length of a call-data slice in inline assembly.
pub open spec fn yul_length(b: BuilderView, lowerer: Lowerer, id: VariableId) -> (
    BuilderView,
    ValueId,
) {
    if has_slice_slot(lowerer, id) {
        variable_loaded(
            b,
            lowerer.lowering_internal_function,
            (lowerer.local_memory_slots@[id.0] + EvmMemoryLayout::WORD_SIZE) as u64,
        )
    } else if lookup(lowerer.locals@, id) is Some {
        (
            emitted(
                b,
                inst(Op::SliceLen, seq![lowerer.locals@[id.0]]),
                Some(MirType::uint256()),
            ),
            next_value(b.func),
        )
    } else {
        word_constant(b, word(0))
    }
}

/// Whether a variable lives in a two-word slot.
pub open spec fn has_slice_slot(lowerer: Lowerer, id: VariableId) -> bool {
    lowerer.slice_slot_locals@.contains(id.0) && lookup(lowerer.local_memory_slots@, id) is Some
}

/// Whether the value and the place of a variable belong to the function.
pub open spec fn variable_placed(lowerer: Lowerer, b: BuilderView, id: VariableId) -> bool {
    &&& lookup(lowerer.locals@, id) matches Some(value) ==> has_value(b.func, value)
    &&& lookup(lowerer.local_memory_slots@, id) matches Some(offset) ==> offset_fits(
        lowerer.lowering_internal_function,
        b.func,
        offset,
    )
    &&& has_slice_slot(lowerer, id) ==> slice_offset_fits(
        lowerer.lowering_internal_function,
        b.func,
        lowerer.local_memory_slots@[id.0],
    )
}

impl Lowerer {
    /// Lowers a literal.
    pub fn lower_literal<'a>(
        &mut self,
        builder: &mut FunctionBuilder<'a>,
        lit: &Lit,
        span: Span,
    ) -> (r: ValueId)
        requires
            old(builder).wf(),
            *lit matches Lit::Address(bytes) ==> bytes@.len() <= 32,
        ensures
            final(builder).wf(),
            settled(
                *old(self),
                *final(self),
                old(builder)@,
                final(builder)@,
                r,
                span,
                literal(old(builder)@, *lit),
            ),
            has_value(final(builder)@.func, r),
            extends(old(builder)@, final(builder)@),
            *final(final(builder).func) == *final(old(builder).func),
    {
        broadcast use group_builder_steps;

        match lit {
            Lit::Bool(value) => builder.imm_bool(*value),
            Lit::Number(value) => builder.imm_u256(*value),
            Lit::Rational => self.err_value(builder, span, Complaint::FractionalLiteral),
            Lit::Str(bytes) => {
                let end: usize = if bytes.len() < 32 {
                    bytes.len()
                } else {
                    32
                };
                proof {
                    assert(bytes@.subrange(0, bytes@.len() as int) =~= bytes@);
                    if bytes@.len() > 32 {
                        assert(bytes@.subrange(0, 32) =~= bytes@.take(32));
                    }
                }
                builder.imm_u256(pad_to_word(bytes, 0, end))
            },
            Lit::Address(bytes) => {
                let value = U256::from_be_slice(bytes.as_slice());
                proof {
                    lemma_word_of(value);
                }
                builder.imm_u256(value)
            },
            Lit::Error(guar) => builder.error_value(*guar),
        }
    }

    /// Lowers a built-in that needs no operands.
    pub fn lower_builtin<'a>(
        &mut self,
        builder: &mut FunctionBuilder<'a>,
        builtin: Builtin,
        span: Span,
    ) -> (r: ValueId)
        requires
            old(builder).wf(),
        ensures
            final(builder).wf(),
            settled(
                *old(self),
                *final(self),
                old(builder)@,
                final(builder)@,
                r,
                span,
                builtin_value(old(builder)@, builtin),
            ),
            has_value(final(builder)@.func, r),
            extends(old(builder)@, final(builder)@),
            *final(final(builder).func) == *final(old(builder).func),
    {
        broadcast use group_builder_steps;

        match builtin {
            Builtin::MsgSender => builder.caller(),
            Builtin::MsgValue => builder.callvalue(),
            Builtin::MsgData => {
                proof {
                    reveal(message_data);
                }
                let zero = builder.imm_u64(0);
                let size = builder.calldatasize();
                builder.make_slice(zero, size, SliceLocation::Calldata)
            },
            Builtin::MsgSig => {
                proof {
                    reveal(message_selector);
                }
                let zero = builder.imm_u64(0);
                let first = builder.calldataload(zero);
                let shift = builder.imm_u64(224);
                let selector = builder.shr(shift, first);
                builder.shl(shift, selector)
            },
            Builtin::BlockCoinbase => builder.coinbase(),
            Builtin::BlockTimestamp => builder.timestamp(),
            Builtin::BlockDifficulty | Builtin::BlockPrevrandao => builder.prevrandao(),
            Builtin::BlockNumber => builder.number(),
            Builtin::BlockGaslimit => builder.gaslimit(),
            Builtin::BlockChainid => builder.chainid(),
            Builtin::BlockBasefee => builder.basefee(),
            Builtin::BlockBlobbasefee => builder.blobbasefee(),
            Builtin::TxOrigin => builder.origin(),
            Builtin::TxGasPrice => builder.gasprice(),
            Builtin::Gasleft | Builtin::MsgGas => builder.gas(),
            Builtin::This => builder.address(),
            _ => self.err_value(builder, span, Complaint::BuiltinValue(builtin)),
        }
    }

    /// Lowers `type(Interface).interfaceId` to its left-aligned value.
    pub fn lower_interface_id<'a>(
        &mut self,
        builder: &mut FunctionBuilder<'a>,
        hir: &Hir,
        ty: &TypeKind,
        span: Span,
    ) -> (r: ValueId)
        requires
            old(builder).wf(),
        ensures
            final(builder).wf(),
            settled(
                *old(self),
                *final(self),
                old(builder)@,
                final(builder)@,
                r,
                span,
                interface_id(old(builder)@, *hir, *ty),
            ),
            has_value(final(builder)@.func, r),
            extends(old(builder)@, final(builder)@),
            *final(final(builder).func) == *final(old(builder).func),
    {
        broadcast use group_builder_steps;

        match ty {
            TypeKind::Custom(ItemId::Contract(id)) => {
                if id.0 < hir.contracts.len() && hir.contracts[id.0].is_interface {
                    builder.imm_u256(left_aligned_selector(hir.contracts[id.0].interface_id))
                } else {
                    self.err_value(builder, span, Complaint::NotAnInterface)
                }
            },
            _ => self.err_value(builder, span, Complaint::NotAnInterface),
        }
    }

    /// Lowers `type(T).min` or `type(T).max` to a constant.
    pub fn lower_type_minmax<'a>(
        &mut self,
        builder: &mut FunctionBuilder<'a>,
        hir: &Hir,
        ty: &TypeKind,
        is_max: bool,
        span: Span,
    ) -> (r: ValueId)
        requires
            old(builder).wf(),
            declared_fits(*hir, *ty),
        ensures
            final(builder).wf(),
            settled(
                *old(self),
                *final(self),
                old(builder)@,
                final(builder)@,
                r,
                span,
                bound_value(old(builder)@, *hir, *ty, is_max),
            ),
            has_value(final(builder)@.func, r),
            extends(old(builder)@, final(builder)@),
            *final(final(builder).func) == *final(old(builder).func),
    {
        broadcast use group_builder_steps;

        match lower_type_minmax(hir, ty, is_max) {
            Some(bound) => {
                proof {
                    lemma_word_of(bound);
                }
                builder.imm_u256(bound)
            },
            None => self.err_value(builder, span, Complaint::NotAnInteger),
        }
    }

    /// Lowers `type(Contract).creationCode` or `type(Contract).runtimeCode`.
    /// Returns a pointer to `[length][bytecode...]` in memory.
    pub fn lower_type_creation_code<'a>(
        &mut self,
        builder: &mut FunctionBuilder<'a>,
        ty: &TypeKind,
        is_creation_code: bool,
        span: Span,
    ) -> (r: ValueId)
        requires
            old(builder).wf(),
            forall|id: usize| #[trigger]
                old(self).contract_bytecodes@.dom().contains(id)
                    ==> old(self).contract_bytecodes@[id]@.len() + 64 <= usize::MAX,
        ensures
            final(builder).wf(),
            settled(
                *old(self),
                *final(self),
                old(builder)@,
                final(builder)@,
                r,
                span,
                code_value(old(builder)@, old(self).contract_bytecodes@, *ty, is_creation_code),
            ),
            has_value(final(builder)@.func, r),
            extends(old(builder)@, final(builder)@),
            *final(final(builder).func) == *final(old(builder).func),
    {
        broadcast use vstd::std_specs::hash::group_hash_axioms;

        match ty {
            TypeKind::Custom(ItemId::Contract(id)) => {
                if !is_creation_code {
                    return self.err_value(builder, span, Complaint::RuntimeCode);
                }
                match self.contract_bytecodes.get(&id.0) {
                    Some(bytecode) => lower_constant_bytes(builder, bytecode),
                    None => self.err_value(builder, span, Complaint::MissingBytecode),
                }
            },
            _ => self.err_value(builder, span, Complaint::NotAContract),
        }
    }

    /// Lowers a component of a variable in inline assembly.
    pub fn lower_yul_member<'a>(
        &mut self,
        builder: &mut FunctionBuilder<'a>,
        hir: &Hir,
        base: &Expr,
        member: &Ident,
    ) -> (r: ValueId)
        requires
            old(builder).wf(),
            base.facts.variable matches Some(id) ==> id.0 < hir.variables@.len()
                && variable_placed(*old(self), old(builder)@, id),
        ensures
            final(builder).wf(),
            settled(
                *old(self),
                *final(self),
                old(builder)@,
                final(builder)@,
                r,
                member.span,
                yul_member(old(builder)@, *old(self), *hir, *base, *member),
            ),
            has_value(final(builder)@.func, r),
            extends(old(builder)@, final(builder)@),
            *final(final(builder).func) == *final(old(builder).func),
    {
        broadcast use group_builder_steps;

        let id: VariableId = match base.facts.variable {
            Some(id) => id,
            None => {
                return self.err_value(builder, member.span, Complaint::YulMember(member.symbol));
            },
        };
        if text_is(&member.text, "slot") {
            if let Some(slot) = self.get_storage_slot(id) {
                return builder.imm_u256(slot);
            }
            if let Some(value) = self.get_local(id) {
                return value;
            }
            if let Some(offset) = self.get_local_memory_offset(id) {
                return self.load_variable(builder, offset);
            }
            return self.err_value(builder, member.span, Complaint::YulMember(member.symbol));
        }
        if text_is(&member.text, "offset") {
            if let Some(location) = self.get_storage_location(id) {
                return builder.imm_u64(location.offset as u64);
            }
            if calldata_dynamic_var_kind(&hir.variables[id.0]).is_some() {
                if self.is_slice_slot_local(id) {
                    if let Some(offset) = self.get_local_memory_offset(id) {
                        return self.load_variable(builder, offset);
                    }
                }
                if let Some(slice) = self.get_local(id) {
                    return builder.slice_ptr(slice);
                }
                return builder.imm_u64(0);
            }
            return self.err_value(builder, member.span, Complaint::YulMember(member.symbol));
        }
        if text_is(&member.text, "length") && calldata_dynamic_var_kind(
            &hir.variables[id.0],
        ).is_some() {
            if self.is_slice_slot_local(id) {
                if let Some(offset) = self.get_local_memory_offset(id) {
                    return self.load_variable(builder, offset + EvmMemoryLayout::WORD_SIZE);
                }
            }
            if let Some(slice) = self.get_local(id) {
                return builder.slice_len(slice);
            }
            return builder.imm_u64(0);
        }
        self.err_value(builder, member.span, Complaint::YulMember(member.symbol))
    }
}

} // verus!
