//! Questions about types and the constants they imply.

use crate::hir::{
    has_variables, peeled, DataLocation, ElementaryType, Event, Expr, Hir, ItemId, Ty, TypeKind,
    Variable, VariableId,
};
use crate::mir::types::{MemoryObjectKind, MirType};
use crate::text::{concat, decimal, decimal_text};
use crate::word::{word_modulus, U256};
use vstd::arithmetic::div_mod::lemma_fundamental_div_mod_converse;
use vstd::arithmetic::power2::{
    lemma_pow2_adds, lemma_pow2_pos, lemma_pow2_strictly_increases, pow2,
};
use vstd::prelude::*;

verus! {

/// Whether the size of an elementary type is one that the language has.
pub open spec fn elementary_fits(elem: ElementaryType) -> bool {
    match elem {
        ElementaryType::UInt(bits) => 8 <= bits <= 256 && bits % 8 == 0,
        ElementaryType::Int(bits) => 8 <= bits <= 256 && bits % 8 == 0,
        ElementaryType::FixedBytes(bytes) => 1 <= bytes <= 32,
        _ => true,
    }
}

/// Whether the size of an elementary type is one that the language has.
pub fn has_width(elem: ElementaryType) -> (r: bool)
    ensures
        r == elementary_fits(elem),
{
    match elem {
        ElementaryType::UInt(bits) => 8 <= bits && bits <= 256 && bits % 8 == 0,
        ElementaryType::Int(bits) => 8 <= bits && bits <= 256 && bits % 8 == 0,
        ElementaryType::FixedBytes(bytes) => 1 <= bytes && bytes <= 32,
        _ => true,
    }
}

/// The type behind user-defined value types, one level.
pub open spec fn underlying(ty: Ty) -> Ty {
    match ty {
        Ty::Udvt(inner) => *inner,
        _ => ty,
    }
}

/// Whether the sizes of a type are ones that the language has and its enum is
/// declared.
pub open spec fn ty_fits(hir: Hir, ty: Ty) -> bool {
    match ty {
        Ty::Elementary(elem) => elementary_fits(elem),
        Ty::Enum(id) => id.0 < hir.enums@.len(),
        _ => true,
    }
}

/// The coarse type of a value of an elementary type.
pub open spec fn elementary_mir_type(elem: ElementaryType) -> MirType {
    match elem {
        ElementaryType::Bool => MirType::Bool,
        ElementaryType::Address(_) => MirType::Address,
        ElementaryType::Int(bits) => MirType::Int(bits),
        ElementaryType::UInt(bits) => MirType::UInt(bits),
        ElementaryType::Fixed(_, _) => MirType::Int(256),
        ElementaryType::UFixed(_, _) => MirType::UInt(256),
        ElementaryType::FixedBytes(bytes) => MirType::FixedBytes(bytes),
        ElementaryType::String | ElementaryType::Bytes => {
            MirType::MemoryObject(MemoryObjectKind::Bytes)
        },
    }
}

/// The coarse type of a value of a checked type.
pub open spec fn mir_type_of(ty: Ty) -> MirType {
    match peeled(ty) {
        Ty::Elementary(elem) => elementary_mir_type(elem),
        Ty::Mapping(_, _) => MirType::StoragePtr,
        Ty::DynArray(_) | Ty::Slice(_) => MirType::MemoryObject(MemoryObjectKind::DynamicArray),
        Ty::Array(_, _) => MirType::MemoryObject(MemoryObjectKind::FixedArray),
        Ty::Fn(_) => MirType::Function,
        Ty::Struct(_) => MirType::MemoryObject(MemoryObjectKind::Struct),
        Ty::Enum(_) => MirType::UInt(8),
        Ty::Contract(_) | Ty::Super(_) => MirType::Address,
        _ => MirType::uint256(),
    }
}

/// Lowers a checked type to the coarse type of its values.
pub fn lower_type_from_ty(ty: &Ty) -> (r: MirType)
    ensures
        r == mir_type_of(*ty),
{
    match ty.peel_refs() {
        Ty::Elementary(elem) => match elem {
            ElementaryType::Bool => MirType::Bool,
            ElementaryType::Address(_) => MirType::Address,
            ElementaryType::Int(bits) => MirType::Int(*bits),
            ElementaryType::UInt(bits) => MirType::UInt(*bits),
            ElementaryType::Fixed(_, _) => MirType::Int(256),
            ElementaryType::UFixed(_, _) => MirType::UInt(256),
            ElementaryType::FixedBytes(bytes) => MirType::FixedBytes(*bytes),
            ElementaryType::String | ElementaryType::Bytes => {
                MirType::MemoryObject(MemoryObjectKind::Bytes)
            },
        },
        Ty::Mapping(_, _) => MirType::StoragePtr,
        Ty::DynArray(_) | Ty::Slice(_) => MirType::MemoryObject(MemoryObjectKind::DynamicArray),
        Ty::Array(_, _) => MirType::MemoryObject(MemoryObjectKind::FixedArray),
        Ty::Fn(_) => MirType::Function,
        Ty::Struct(_) => MirType::MemoryObject(MemoryObjectKind::Struct),
        Ty::Enum(_) => MirType::UInt(8),
        Ty::Contract(_) | Ty::Super(_) => MirType::Address,
        _ => MirType::uint256(),
    }
}

/// The word with the lowest `bits` bits set.
pub open spec fn low_mask(bits: nat) -> nat {
    (pow2(bits) - 1) as nat
}

/// The word with all but the lowest `bits` bits set.
pub open spec fn high_mask(bits: nat) -> nat {
    (word_modulus() - pow2(bits)) as nat
}

/// A power of two below the modulus divides it.
pub proof fn lemma_pow2_split(bits: nat)
    requires
        bits <= 256,
    ensures
        pow2(bits) * pow2((256 - bits) as nat) == word_modulus(),
        pow2(bits) > 0,
        pow2((256 - bits) as nat) > 0,
        pow2(bits) <= word_modulus(),
{
    lemma_pow2_adds(bits, (256 - bits) as nat);
    lemma_pow2_pos(bits);
    lemma_pow2_pos((256 - bits) as nat);
    if bits < 256 {
        lemma_pow2_strictly_increases(bits, 256);
    }
}

/// Returns the word with the lowest `bits` bits set.
pub fn low_bits(bits: usize) -> (r: U256)
    requires
        bits <= 256,
    ensures
        r@ == low_mask(bits as nat),
{
    let r = U256::max().shr(256 - bits);
    proof {
        let a = pow2(bits as nat) as int;
        let b = pow2((256 - bits) as nat) as int;
        lemma_pow2_split(bits as nat);
        assert(word_modulus() - 1 == (a - 1) * b + (b - 1)) by (nonlinear_arith)
            requires
                a * b == word_modulus(),
        ;
        lemma_fundamental_div_mod_converse(word_modulus() - 1, b, a - 1, b - 1);
    }
    r
}

/// Returns the word with all but the lowest `bits` bits set.
pub fn high_bits(bits: usize) -> (r: U256)
    requires
        bits <= 256,
    ensures
        r@ == high_mask(bits as nat),
{
    let r = U256::max().shl(bits);
    proof {
        let m = word_modulus() as int;
        let b = pow2(bits as nat) as int;
        lemma_pow2_split(bits as nat);
        assert((m - 1) * b == (b - 1) * m + (m - b)) by (nonlinear_arith);
        lemma_fundamental_div_mod_converse((m - 1) * b, m, b - 1, m - b);
    }
    r
}

/// How a word is checked for being the canonical encoding of a value.
#[derive(Clone, Copy, Debug, PartialEq, Eq, Structural)]
pub enum AbiWordValidator {
    /// The word must equal itself masked with the given mask.
    Mask(U256),
    /// The word must equal its sign extension from the given byte.
    SignExtend(u64),
    /// The word must be 0 or 1.
    Bool,
    /// The word must be less than the number of members.
    EnumRange(u64),
}

/// The mathematical value of an [`AbiWordValidator`].
pub enum ValidatorView {
    /// The word must equal itself masked with the given mask.
    Mask(nat),
    /// The word must equal its sign extension from the given byte.
    SignExtend(nat),
    /// The word must be 0 or 1.
    Bool,
    /// The word must be less than the number of members.
    EnumRange(nat),
}

impl View for AbiWordValidator {
    type V = ValidatorView;

    open spec fn view(&self) -> ValidatorView {
        match *self {
            AbiWordValidator::Mask(mask) => ValidatorView::Mask(mask@),
            AbiWordValidator::SignExtend(byte) => ValidatorView::SignExtend(byte as nat),
            AbiWordValidator::Bool => ValidatorView::Bool,
            AbiWordValidator::EnumRange(count) => ValidatorView::EnumRange(count as nat),
        }
    }
}

/// The check that words of a value type must pass, where any word is not fine.
pub open spec fn validator_of(hir: Hir, ty: Ty) -> Option<ValidatorView> {
    match underlying(ty) {
        Ty::Elementary(elem) => match elem {
            ElementaryType::UInt(bits) => if bits >= 256 {
                None
            } else {
                Some(ValidatorView::Mask(low_mask(bits as nat)))
            },
            ElementaryType::Int(bits) => if bits >= 256 {
                None
            } else {
                Some(ValidatorView::SignExtend((bits / 8 - 1) as nat))
            },
            ElementaryType::Address(_) => Some(ValidatorView::Mask(low_mask(160))),
            ElementaryType::Bool => Some(ValidatorView::Bool),
            ElementaryType::FixedBytes(bytes) => if bytes >= 32 {
                None
            } else {
                Some(ValidatorView::Mask(high_mask((256 - 8 * bytes) as nat)))
            },
            _ => None,
        },
        Ty::Contract(_) => Some(ValidatorView::Mask(low_mask(160))),
        Ty::Enum(id) => Some(ValidatorView::EnumRange(hir.enums@[id.0 as int] as nat)),
        _ => None,
    }
}

/// Selects the clean-word validator for a value type decoded from ABI data, if
/// it has one. Value types narrower than a word must equal their canonical
/// form; wider or reference types have no word validator.
pub fn abi_word_validator(hir: &Hir, ty: &Ty) -> (r: Option<AbiWordValidator>)
    requires
        ty_fits(*hir, underlying(*ty)),
    ensures
        (match r {
            Some(validator) => Some(validator@),
            None => None,
        }) == validator_of(*hir, *ty),
{
    let ty = match ty {
        Ty::Udvt(inner) => &**inner,
        _ => ty,
    };
    match ty {
        Ty::Elementary(elem) => match elem {
            ElementaryType::UInt(bits) => {
                if *bits >= 256 {
                    return None;
                }
                Some(AbiWordValidator::Mask(low_bits(*bits as usize)))
            },
            ElementaryType::Int(bits) => {
                if *bits >= 256 {
                    return None;
                }
                Some(AbiWordValidator::SignExtend((*bits / 8) as u64 - 1))
            },
            ElementaryType::Address(_) => Some(AbiWordValidator::Mask(low_bits(160))),
            ElementaryType::Bool => Some(AbiWordValidator::Bool),
            ElementaryType::FixedBytes(bytes) => {
                if *bytes >= 32 {
                    return None;
                }
                Some(AbiWordValidator::Mask(high_bits(256 - 8 * (*bytes as usize))))
            },
            _ => None,
        },
        Ty::Contract(_) => Some(AbiWordValidator::Mask(low_bits(160))),
        Ty::Enum(id) => Some(AbiWordValidator::EnumRange(hir.enums[id.0] as u64)),
        _ => None,
    }
}

/// The value of `type(T).min` or `type(T).max`, as a word. A negative bound is
/// its two's complement.
pub open spec fn type_bound(hir: Hir, ty: TypeKind, is_max: bool) -> Option<nat> {
    match ty {
        TypeKind::Custom(ItemId::Enum(id)) => Some(
            if is_max {
                (hir.enums@[id.0 as int] - 1) as nat
            } else {
                0
            },
        ),
        TypeKind::Elementary(ElementaryType::UInt(bits)) => Some(
            if is_max {
                low_mask(bits as nat)
            } else {
                0
            },
        ),
        TypeKind::Elementary(ElementaryType::Int(bits)) => Some(
            if is_max {
                low_mask((bits - 1) as nat)
            } else {
                high_mask((bits - 1) as nat)
            },
        ),
        _ => None,
    }
}

/// Whether the sizes of a declared type are ones that the language has, and its
/// enum is declared and has members.
pub open spec fn declared_fits(hir: Hir, ty: TypeKind) -> bool {
    match ty {
        TypeKind::Elementary(elem) => elementary_fits(elem),
        TypeKind::Custom(ItemId::Enum(id)) => id.0 < hir.enums@.len()
            && hir.enums@[id.0 as int] > 0,
        _ => true,
    }
}

/// Returns the value of `type(T).min` or `type(T).max`, or `None` where the
/// type has no bounds.
pub fn lower_type_minmax(hir: &Hir, ty: &TypeKind, is_max: bool) -> (r: Option<U256>)
    requires
        declared_fits(*hir, *ty),
    ensures
        (match r {
            Some(bound) => Some(bound@),
            None => None,
        }) == type_bound(*hir, *ty, is_max),
{
    match ty {
        TypeKind::Custom(ItemId::Enum(id)) => Some(
            U256::from_u64(
                if is_max {
                    (hir.enums[id.0] - 1) as u64
                } else {
                    0
                },
            ),
        ),
        TypeKind::Elementary(elem) => match elem {
            ElementaryType::UInt(bits) => Some(
                if is_max {
                    low_bits(*bits as usize)
                } else {
                    U256::zero()
                },
            ),
            ElementaryType::Int(bits) => Some(
                if is_max {
                    low_bits(*bits as usize - 1)
                } else {
                    high_bits(*bits as usize - 1)
                },
            ),
            _ => None,
        },
        _ => None,
    }
}

/// The name of an elementary type in signatures.
pub open spec fn elementary_name(elem: ElementaryType) -> Seq<char> {
    match elem {
        ElementaryType::Bool => "bool"@,
        ElementaryType::Address(_) => "address"@,
        ElementaryType::UInt(bits) => "uint"@ + decimal(bits as nat),
        ElementaryType::Int(bits) => "int"@ + decimal(bits as nat),
        ElementaryType::Fixed(bits, places) => "fixed"@ + decimal(bits as nat) + "x"@ + decimal(
            places as nat,
        ),
        ElementaryType::UFixed(bits, places) => "ufixed"@ + decimal(bits as nat) + "x"@ + decimal(
            places as nat,
        ),
        ElementaryType::FixedBytes(bytes) => "bytes"@ + decimal(bytes as nat),
        ElementaryType::String => "string"@,
        ElementaryType::Bytes => "bytes"@,
    }
}

/// Returns the name of an elementary type in signatures.
pub fn elementary_abi_string(elem: ElementaryType) -> (r: String)
    ensures
        r@ == elementary_name(elem),
{
    match elem {
        ElementaryType::Bool => "bool".to_owned(),
        ElementaryType::Address(_) => "address".to_owned(),
        ElementaryType::UInt(bits) => concat("uint", decimal_text(bits as u64).as_str()),
        ElementaryType::Int(bits) => concat("int", decimal_text(bits as u64).as_str()),
        ElementaryType::Fixed(bits, places) => {
            let mut text = concat("fixed", decimal_text(bits as u64).as_str());
            text.append("x");
            text.append(decimal_text(places as u64).as_str());
            text
        },
        ElementaryType::UFixed(bits, places) => {
            let mut text = concat("ufixed", decimal_text(bits as u64).as_str());
            text.append("x");
            text.append(decimal_text(places as u64).as_str());
            text
        },
        ElementaryType::FixedBytes(bytes) => concat("bytes", decimal_text(bytes as u64).as_str()),
        ElementaryType::String => "string".to_owned(),
        ElementaryType::Bytes => "bytes".to_owned(),
    }
}

/// The name of a declared type in event signatures: contracts are addresses, an
/// array is written with its length if that is fixed, and anything else that is
/// not elementary is a 256-bit number.
pub open spec fn abi_name(ty: TypeKind) -> Seq<char>
    decreases ty,
{
    match ty {
        TypeKind::Elementary(elem) => elementary_name(elem),
        TypeKind::Custom(ItemId::Contract(_)) => "address"@,
        TypeKind::Array(element, Some(len)) => abi_name(*element) + "["@ + decimal(len@) + "]"@,
        TypeKind::Array(element, None) => abi_name(*element) + "[]"@,
        _ => "uint256"@,
    }
}

/// Converts a declared type to its name in event signatures.
pub fn type_to_abi_string(ty: &TypeKind) -> (r: String)
    ensures
        r@ == abi_name(*ty),
    decreases ty,
{
    match ty {
        TypeKind::Elementary(elem) => elementary_abi_string(*elem),
        TypeKind::Custom(ItemId::Contract(_)) => "address".to_owned(),
        TypeKind::Array(element, Some(len)) => {
            let mut text = type_to_abi_string(element);
            text.append("[");
            text.append(len.to_decimal().as_str());
            text.append("]");
            text
        },
        TypeKind::Array(element, None) => {
            let mut text = type_to_abi_string(element);
            text.append("[]");
            text
        },
        _ => "uint256".to_owned(),
    }
}

/// The names of the first `count` parameter types, separated by commas.
pub open spec fn parameter_names(hir: Hir, ids: Seq<VariableId>, count: nat) -> Seq<char>
    decreases count,
{
    if count == 0 || count > ids.len() {
        Seq::empty()
    } else {
        let name = abi_name(hir.variables@[ids[count - 1].0 as int].declared);
        let front = parameter_names(hir, ids, (count - 1) as nat);
        if count == 1 {
            name
        } else {
            front + ","@ + name
        }
    }
}

/// The signature of an event: its name and the types of its parameters.
pub open spec fn event_signature(hir: Hir, event: Event) -> Seq<char> {
    event.name@ + "("@ + parameter_names(hir, event.parameters@, event.parameters@.len()) + ")"@
}

/// Computes the event signature string: `EventName(type1,type2,...)`.
pub fn compute_event_signature(hir: &Hir, event: &Event) -> (r: String)
    requires
        has_variables(*hir, event.parameters@),
    ensures
        r@ == event_signature(*hir, *event),
{
    let mut text = concat(event.name.as_str(), "(");
    let mut i: usize = 0;
    assert(text@ =~= event.name@ + "("@ + parameter_names(*hir, event.parameters@, 0));
    while i < event.parameters.len()
        invariant
            i <= event.parameters@.len(),
            has_variables(*hir, event.parameters@),
            text@ == event.name@ + "("@ + parameter_names(*hir, event.parameters@, i as nat),
        decreases event.parameters@.len() - i,
    {
        let ghost before = text@;
        assert(event.parameters@[i as int].0 < hir.variables@.len());
        if i > 0 {
            text.append(",");
        }
        let name = type_to_abi_string(&hir.variables[event.parameters[i].0].declared);
        text.append(name.as_str());
        i = i + 1;
        assert(text@ =~= event.name@ + "("@ + parameter_names(
            *hir,
            event.parameters@,
            i as nat,
        ));
    }
    text.append(")");
    assert(text@ =~= event_signature(*hir, *event));
    text
}

/// The Keccak-256 hash of the UTF-8 bytes of a text, as a word.
pub uninterp spec fn keccak_of_text(text: Seq<char>) -> nat;

/// `alloy_primitives::keccak256` of the UTF-8 bytes of a text, read as a
/// big-endian word: the claim is that it is a function of the text alone.
#[verifier::external_body]
fn hash_text(text: &str) -> (r: U256)
    ensures
        r@ == keccak_of_text(text@),
{
    let hash = alloy_primitives::keccak256(text.as_bytes());
    let limbs = alloy_primitives::U256::from_be_bytes(hash.0).into_limbs();
    U256 { l0: limbs[0], l1: limbs[1], l2: limbs[2], l3: limbs[3] }
}

/// Returns the first topic of an event: the hash of its signature.
pub fn event_topic(hir: &Hir, event: &Event) -> (r: U256)
    requires
        has_variables(*hir, event.parameters@),
    ensures
        r@ == keccak_of_text(event_signature(*hir, *event)),
{
    let signature = compute_event_signature(hir, event);
    hash_text(signature.as_str())
}

/// How one member of an ABI tuple is decoded into memory.
pub enum DecodeStrategy<'a> {
    /// An elementary value word, validated for cleanliness.
    Word(ElementaryType),
    /// `bytes` or `string`.
    DynBytes,
    /// An array of any length with an elementary element type.
    ElementaryArray(ElementaryType),
    /// A struct, tuple, fixed array, or aggregate array.
    General(&'a Ty),
}

/// The type behind references and user-defined value types.
pub open spec fn decoded_ty(ty: Ty) -> Ty
    decreases ty,
{
    proof {
        lemma_peeled_smaller(ty);
    }
    match peeled(ty) {
        Ty::Udvt(inner) => decoded_ty(*inner),
        other => other,
    }
}

/// A type behind references is not larger.
pub proof fn lemma_peeled_smaller(ty: Ty)
    ensures
        peeled(ty) is Udvt ==> decreases_to!(ty => *peeled(ty)->Udvt_0),
    decreases ty,
{
    match ty {
        Ty::Ref(inner, _) => lemma_peeled_smaller(*inner),
        _ => {},
    }
}

/// How a member type of an ABI tuple is decoded; `encodable` says whether a
/// type that is neither elementary nor an array of elementary values has an
/// ABI encoding.
pub open spec fn decode_strategy<'a>(ty: Ty, encodable: bool) -> Option<DecodeStrategy<'a>> {
    match decoded_ty(ty) {
        Ty::Elementary(ElementaryType::Bytes) | Ty::Elementary(ElementaryType::String) => Some(
            DecodeStrategy::DynBytes,
        ),
        Ty::Elementary(elem) => Some(DecodeStrategy::Word(elem)),
        Ty::DynArray(element) => match peeled(*element) {
            Ty::Elementary(elem) => Some(DecodeStrategy::ElementaryArray(elem)),
            _ => if encodable {
                Some(DecodeStrategy::General(&decoded_ty(ty)))
            } else {
                None
            },
        },
        _ => if encodable {
            Some(DecodeStrategy::General(&decoded_ty(ty)))
        } else {
            None
        },
    }
}

/// The decode strategy for an ABI member type, or `None` when it cannot be
/// decoded.
pub fn abi_decode_strategy<'a>(ty: &'a Ty, encodable: bool) -> (r: Option<DecodeStrategy<'a>>)
    ensures
        r == decode_strategy(*ty, encodable),
    decreases ty,
{
    let inner_ty = ty.peel_refs();
    proof {
        lemma_peeled_smaller(*ty);
    }
    match inner_ty {
        Ty::Udvt(inner) => abi_decode_strategy(inner, encodable),
        Ty::Elementary(ElementaryType::Bytes) | Ty::Elementary(ElementaryType::String) => Some(
            DecodeStrategy::DynBytes,
        ),
        Ty::Elementary(elem) => Some(DecodeStrategy::Word(*elem)),
        Ty::DynArray(element) => match element.peel_refs() {
            Ty::Elementary(elem) => Some(DecodeStrategy::ElementaryArray(*elem)),
            _ => if encodable {
                Some(DecodeStrategy::General(inner_ty))
            } else {
                None
            },
        },
        _ => if encodable {
            Some(DecodeStrategy::General(inner_ty))
        } else {
            None
        },
    }
}

/// Whether decoding a copied element of an array must check it: its type does
/// not span the whole word.
pub open spec fn is_narrow(elem: ElementaryType) -> bool {
    elem != ElementaryType::UInt(256) && elem != ElementaryType::Int(256) && elem
        != ElementaryType::FixedBytes(32)
}

/// Whether decoding a copied element of an array must check it.
pub fn needs_validation(elem: ElementaryType) -> (r: bool)
    ensures
        r == is_narrow(elem),
{
    match elem {
        ElementaryType::UInt(bits) => bits != 256,
        ElementaryType::Int(bits) => bits != 256,
        ElementaryType::FixedBytes(bytes) => bytes != 32,
        _ => true,
    }
}

/// Whether a call-data variable is a slice, and then whether it is `bytes` or
/// `string`.
pub open spec fn calldata_kind(var: Variable) -> Option<bool> {
    if var.location == Some(DataLocation::Calldata) {
        match var.declared {
            TypeKind::Array(_, None) => Some(false),
            TypeKind::Elementary(ElementaryType::Bytes) => Some(true),
            TypeKind::Elementary(ElementaryType::String) => Some(true),
            _ => None,
        }
    } else {
        None
    }
}

/// Returns whether a call-data variable is a slice, and then whether it is
/// `bytes` or `string`.
pub fn calldata_dynamic_var_kind(var: &Variable) -> (r: Option<bool>)
    ensures
        r == calldata_kind(*var),
{
    match var.location {
        Some(DataLocation::Calldata) => match &var.declared {
            TypeKind::Array(_, len) => if len.is_some() {
                None
            } else {
                Some(false)
            },
            TypeKind::Elementary(ElementaryType::Bytes) | TypeKind::Elementary(
                ElementaryType::String,
            ) => Some(true),
            _ => None,
        },
        _ => None,
    }
}

/// Whether mapping keys of a declared type are hashed by their contents.
pub open spec fn is_content_key(ty: TypeKind) -> bool {
    ty matches TypeKind::Elementary(elem) && (elem is String || elem is Bytes)
}

/// Whether mapping keys of a declared type are hashed by their contents.
pub fn is_dynamic_mapping_key(ty: &TypeKind) -> (r: bool)
    ensures
        r == is_content_key(*ty),
{
    matches!(
        ty,
        TypeKind::Elementary(ElementaryType::String) | TypeKind::Elementary(ElementaryType::Bytes)
    )
}

/// Whether mapping keys of a checked type are hashed by their contents.
pub open spec fn is_content_key_ty(ty: Ty) -> bool {
    peeled(ty) matches Ty::Elementary(elem) && (elem is String || elem is Bytes)
}

/// Whether mapping keys of a checked type are hashed by their contents.
pub fn is_dynamic_mapping_key_ty(ty: &Ty) -> (r: bool)
    ensures
        r == is_content_key_ty(*ty),
{
    matches!(
        ty.peel_refs(),
        Ty::Elementary(ElementaryType::String) | Ty::Elementary(ElementaryType::Bytes)
    )
}

/// The key and value shape of the mapping that an expression represents:
/// whether keys are hashed by their contents, and whether values are mappings.
pub open spec fn mapping_shape(expr: Expr) -> Option<(bool, bool)> {
    match expr.facts.ty {
        Some(ty) => match peeled(ty) {
            Ty::Mapping(key, value) => Some((is_content_key_ty(*key), peeled(*value) is Mapping)),
            _ => None,
        },
        None => None,
    }
}

/// Returns the key and value shape of the mapping represented by `expr`.
pub fn mapping_type_info(expr: &Expr) -> (r: Option<(bool, bool)>)
    ensures
        r == mapping_shape(*expr),
{
    match &expr.facts.ty {
        Some(ty) => match ty.peel_refs() {
            Ty::Mapping(key, value) => Some(
                (is_dynamic_mapping_key_ty(key), matches!(value.peel_refs(), Ty::Mapping(_, _))),
            ),
            _ => None,
        },
        None => None,
    }
}

/// The length of an array type as a `u64`, where it fits.
pub open spec fn small_len(len: U256) -> Option<u64> {
    if len@ <= u64::MAX {
        Some(len@ as u64)
    } else {
        None
    }
}

/// The constant length of an array of fixed length: of the declared type where
/// the expression names a variable, of its checked type otherwise.
pub open spec fn fixed_len(hir: Hir, expr: Expr) -> Option<u64> {
    match expr.facts.variable {
        Some(id) => if id.0 < hir.variables@.len() {
            match (
                hir.variables@[id.0 as int].declared,
                peeled(hir.variables@[id.0 as int].ty),
            ) {
                (TypeKind::Array(_, Some(_)), Ty::Array(_, len)) => small_len(len),
                _ => None,
            }
        } else {
            None
        },
        None => match expr.facts.ty {
            Some(ty) => match peeled(ty) {
                Ty::Array(_, len) => small_len(len),
                _ => None,
            },
            None => None,
        },
    }
}

/// Returns the constant length of a fixed-size array expression, if its type
/// is known.
pub fn fixed_array_len_of_expr(hir: &Hir, expr: &Expr) -> (r: Option<u64>)
    ensures
        r == fixed_len(*hir, *expr),
{
    match expr.facts.variable {
        Some(id) => {
            if id.0 >= hir.variables.len() {
                return None;
            }
            let var = &hir.variables[id.0];
            match &var.declared {
                TypeKind::Array(_, declared_len) => {
                    if declared_len.is_none() {
                        return None;
                    }
                    match var.ty.peel_refs() {
                        Ty::Array(_, len) => len.to_u64(),
                        _ => None,
                    }
                },
                _ => None,
            }
        },
        None => match &expr.facts.ty {
            Some(ty) => match ty.peel_refs() {
                Ty::Array(_, len) => len.to_u64(),
                _ => None,
            },
            None => None,
        },
    }
}

/// The element type and constant length of an array in storage.
pub open spec fn storage_array(expr: Expr) -> Option<(Ty, Option<u64>)> {
    match expr.facts.ty {
        Some(Ty::Ref(inner, DataLocation::Storage)) => match *inner {
            Ty::Array(element, len) => match small_len(len) {
                Some(len) => Some((*element, Some(len))),
                None => None,
            },
            Ty::DynArray(element) => Some((*element, None)),
            _ => None,
        },
        _ => None,
    }
}

/// Resolves an array living in storage and returns its element type and
/// constant length (`None` for an array of any length).
pub fn storage_array_type_of_expr<'a>(expr: &'a Expr) -> (r: Option<(&'a Ty, Option<u64>)>)
    ensures
        (match r {
            Some((element, len)) => Some((*element, len)),
            None => None,
        }) == storage_array(*expr),
{
    match &expr.facts.ty {
        Some(Ty::Ref(inner, DataLocation::Storage)) => match &**inner {
            Ty::Array(element, len) => match len.to_u64() {
                Some(len) => Some((&**element, Some(len))),
                None => None,
            },
            Ty::DynArray(element) => Some((&**element, None)),
            _ => None,
        },
        _ => None,
    }
}

} // verus!
