//! Laws of lowering.

use crate::hir::{
    contract_fits, has_contracts, hir_wf, Contract, ContractId, ElementaryType, Event, Hir,
    HirFunction, HirFunctionId, Ty, VariableId,
};
use crate::lower::agenda::turn;
use crate::lower::bind::{with_local, with_reference, with_two_words, with_word, Places};
use crate::lower::bytecode::{
    bytecode_dependencies, embedded_in_bases, embedded_in_function, embedded_in_functions,
    embedded_in_variable, embedded_in_variables,
};
use crate::lower::construct::{
    base_resolved, bases_resolved, constructor_arguments, is_resolved, lemma_distinct_contracts,
    lemma_providers_declared, provider_of, providers_declared, BaseArguments,
};
use crate::lower::function::{resumed, state_of_function};
use crate::lower::handlers::{data_of, leading_topics, topics_of};
use crate::lower::inherit::{
    all_variables, found_in_base, found_in_bases, inherited_functions, is_exposed, is_ordinary,
    is_stored, looked_at, offsets_given, slots_given, storage_order_of, stored_among, variables_of,
    Found, IMMUTABLE_WORD_SIZE,
};
use crate::lower::machine::Scene;
use crate::lower::plan::Task;
use crate::lower::plan_calls::data_count;
use crate::lower::state::{Lowerer, MAX_INLINE_DEPTH, StorageLocation};
use crate::lower::types::{
    high_mask, lemma_pow2_split, low_mask, ty_fits, underlying, validator_of, ValidatorView,
};
use crate::memory::EvmMemoryLayout;
use crate::mir::types::ValueId;
use crate::word::{word_modulus, U256};
use vstd::arithmetic::div_mod::{
    lemma_basic_div, lemma_fundamental_div_mod, lemma_fundamental_div_mod_converse, lemma_mod_bound,
    lemma_small_mod,
};
use vstd::arithmetic::power2::{
    lemma2_to64, lemma_pow2_adds, lemma_pow2_pos, lemma_pow2_strictly_increases, pow2,
};
use vstd::prelude::*;

verus! {

/// Whether a bit of a word is set.
pub open spec fn bit(word: nat, index: nat) -> bool {
    (word / pow2(index)) % 2 == 1
}

/// Whether masking a word with a mask leaves it as it is: every set bit of the
/// word is set in the mask.
pub open spec fn is_masked(word: nat, mask: nat) -> bool {
    forall|index: nat| index < 256 && #[trigger] bit(word, index) ==> bit(mask, index)
}

/// A word sign-extended from a byte.
pub open spec fn extended(word: nat, byte: nat) -> nat {
    let width = 8 * (byte + 1);
    let low = word % pow2(width);
    if low < pow2((width - 1) as nat) {
        low
    } else {
        (low + word_modulus() - pow2(width)) as nat
    }
}

/// Whether a word passes the check of a validator.
pub open spec fn passes(validator: ValidatorView, word: nat) -> bool {
    match validator {
        ValidatorView::Mask(mask) => is_masked(word, mask),
        ValidatorView::SignExtend(byte) => word == extended(word, byte),
        ValidatorView::Bool => word == 0 || word == 1,
        ValidatorView::EnumRange(count) => word < count,
    }
}

/// Whether a word is the encoding of a value of a type.
pub open spec fn is_canonical(hir: Hir, ty: Ty, word: nat) -> bool {
    match underlying(ty) {
        Ty::Elementary(elem) => match elem {
            ElementaryType::UInt(bits) => bits >= 256 || word < pow2(bits as nat),
            ElementaryType::Int(bits) => bits >= 256 || word < pow2((bits - 1) as nat) || word
                >= word_modulus() - pow2((bits - 1) as nat),
            ElementaryType::Address(_) => word < pow2(160),
            ElementaryType::Bool => word < 2,
            ElementaryType::FixedBytes(bytes) => bytes >= 32 || word % pow2(
                (256 - 8 * bytes) as nat,
            ) == 0,
            _ => true,
        },
        Ty::Contract(_) => word < pow2(160),
        Ty::Enum(id) => word < hir.enums@[id.0 as int],
        _ => true,
    }
}

/// A number below a power of two has no bit from there on, and one without such
/// bits is below it.
pub proof fn lemma_bits_below(word: nat, count: nat)
    requires
        count <= 256,
        word < word_modulus(),
    ensures
        word < pow2(count) <==> forall|index: nat|
            count <= index < 256 ==> !#[trigger] bit(word, index),
    decreases 256 - count,
{
    lemma_pow2_split(count);
    if count < 256 {
        lemma_bits_below(word, count + 1);
        lemma_pow2_adds(1, count);
        lemma2_to64();
        lemma_pow2_pos(count);
        let p = pow2(count) as int;
        let w = word as int;
        assert(pow2(count + 1) == 2 * pow2(count));
        if word < pow2(count) {
            lemma_basic_div(w, p);
            assert(!bit(word, count));
            assert(word < pow2(count + 1));
        }
        if word < pow2(count + 1) && !bit(word, count) {
            lemma_fundamental_div_mod(w, p);
            let q = w / p;
            assert(q < 2) by (nonlinear_arith)
                requires
                    w < 2 * p,
                    w == p * q + w % p,
                    0 <= w % p,
                    p > 0,
            ;
            assert(q >= 0) by (nonlinear_arith)
                requires
                    w == p * q + w % p,
                    w % p < p,
                    w >= 0,
                    p > 0,
            ;
            lemma_mod_bound(w, p);
            assert(q == 0);
            assert(w < p) by (nonlinear_arith)
                requires
                    w == p * q + w % p,
                    q == 0,
                    w % p < p,
            ;
        }
    } else {
        lemma_pow2_split(256);
        assert(pow2(0) == 1) by {
            lemma2_to64();
        }
    }
}

/// The bits of a low mask are the low ones.
pub proof fn lemma_low_mask_bits(count: nat, index: nat)
    requires
        count <= 256,
        index < 256,
    ensures
        bit(low_mask(count), index) <==> index < count,
{
    lemma_pow2_split(count);
    lemma_pow2_pos(index);
    if index < count {
        lemma_pow2_adds(index, (count - index) as nat);
        lemma_pow2_adds(1, (count - index - 1) as nat);
        lemma2_to64();
        let p = pow2(index) as int;
        let q = pow2((count - index) as nat) as int;
        let half = pow2((count - index - 1) as nat) as int;
        lemma_pow2_pos((count - index) as nat);
        lemma_pow2_pos((count - index - 1) as nat);
        assert(pow2(count) - 1 == (q - 1) * p + (p - 1)) by (nonlinear_arith)
            requires
                pow2(count) == p * q,
        ;
        lemma_fundamental_div_mod_converse(pow2(count) - 1, p, q - 1, p - 1);
        assert((q - 1) % 2 == 1) by (nonlinear_arith)
            requires
                q == 2 * half,
        ;
    } else {
        lemma_pow2_split(256);
        let mask = low_mask(count);
        if count < index {
            lemma_pow2_strictly_increases(count, index);
        }
        assert(mask < pow2(index));
        lemma_basic_div(mask as int, pow2(index) as int);
    }
}

/// A word passes a low mask if and only if it is below the power of two.
proof fn lemma_low_mask(word: nat, count: nat)
    requires
        count <= 256,
        word < word_modulus(),
    ensures
        is_masked(word, low_mask(count)) <==> word < pow2(count),
{
    lemma_bits_below(word, count);
    if word < pow2(count) {
        assert forall|index: nat| index < 256 && #[trigger] bit(word, index) implies bit(
            low_mask(count),
            index,
        ) by {
            lemma_low_mask_bits(count, index);
        }
    }
    if is_masked(word, low_mask(count)) {
        assert forall|index: nat| count <= index < 256 implies !#[trigger] bit(word, index) by {
            lemma_low_mask_bits(count, index);
        }
    }
}

/// The bits of a high mask are the others.
pub proof fn lemma_high_mask_bits(count: nat, index: nat)
    requires
        count <= 256,
        index < 256,
    ensures
        bit(high_mask(count), index) <==> index >= count,
{
    lemma_pow2_split(count);
    lemma_pow2_pos(index);
    lemma2_to64();
    let m = word_modulus() as int;
    let c = pow2(count) as int;
    let p = pow2(index) as int;
    let k = pow2((256 - count) as nat) as int;
    assert(m - c == (k - 1) * c) by (nonlinear_arith)
        requires
            c * k == m,
    ;
    if index < count {
        lemma_pow2_adds(index, (count - index) as nat);
        lemma_pow2_adds(1, (count - index - 1) as nat);
        let d = pow2((count - index) as nat) as int;
        let half = pow2((count - index - 1) as nat) as int;
        let q = (k - 1) * d;
        assert(m - c == q * p + 0) by (nonlinear_arith)
            requires
                m - c == (k - 1) * c,
                c == p * d,
                q == (k - 1) * d,
        ;
        lemma_fundamental_div_mod_converse(m - c, p, q, 0);
        let even = (k - 1) * half;
        assert(q == 2 * even) by (nonlinear_arith)
            requires
                q == (k - 1) * d,
                d == 2 * half,
                even == (k - 1) * half,
        ;
    } else {
        lemma_pow2_adds(count, (index - count) as nat);
        lemma_pow2_adds(index, (256 - index) as nat);
        lemma_pow2_adds(1, (255 - index) as nat);
        lemma_pow2_pos((index - count) as nat);
        lemma_pow2_pos((255 - index) as nat);
        lemma_pow2_pos((256 - index) as nat);
        lemma_pow2_split(256);
        let e = pow2((index - count) as nat) as int;
        let f = pow2((256 - index) as nat) as int;
        let half = pow2((255 - index) as nat) as int;
        assert(p == c * e);
        assert(m == p * f);
        assert(f == 2 * half);
        // The mask is one `c` short of a multiple of `p`.
        assert(m - c == (f - 1) * p + (p - c)) by (nonlinear_arith)
            requires
                m == p * f,
        ;
        assert(0 <= p - c < p) by (nonlinear_arith)
            requires
                p == c * e,
                e >= 1,
                c > 0,
        ;
        lemma_fundamental_div_mod_converse(m - c, p, f - 1, p - c);
        assert((f - 1) % 2 == 1) by (nonlinear_arith)
            requires
                f == 2 * half,
        ;
    }
}

/// A number is a multiple of a power of two if and only if it has no bit below
/// it.
pub proof fn lemma_no_low_bits(word: nat, count: nat)
    requires
        count <= 256,
    ensures
        word % pow2(count) == 0 <==> forall|index: nat|
            index < count ==> !#[trigger] bit(word, index),
    decreases count,
{
    lemma2_to64();
    lemma_pow2_pos(count);
    if count == 0 {
        assert(word % 1 == 0);
    } else {
        let below = (count - 1) as nat;
        lemma_no_low_bits(word, below);
        lemma_pow2_adds(1, below);
        lemma_pow2_pos(below);
        let p = pow2(below) as int;
        let w = word as int;
        lemma_fundamental_div_mod(w, p);
        lemma_fundamental_div_mod(w, 2 * p);
        let q = w / p;
        let r = w % p;
        lemma_mod_bound(w, p);
        lemma_fundamental_div_mod(q, 2);
        // The quotient by `2 p` and the rest.
        assert(w == (q / 2) * (2 * p) + ((q % 2) * p + r)) by (nonlinear_arith)
            requires
                w == p * q + r,
                q == 2 * (q / 2) + q % 2,
        ;
        assert(0 <= (q % 2) * p + r < 2 * p) by (nonlinear_arith)
            requires
                0 <= q % 2 < 2,
                0 <= r < p,
        ;
        lemma_fundamental_div_mod_converse(w, 2 * p, q / 2, (q % 2) * p + r);
        assert(w % (2 * p) == (q % 2) * p + r);
        if word % pow2(count) == 0 {
            assert(q % 2 == 0 && r == 0) by (nonlinear_arith)
                requires
                    (q % 2) * p + r == 0,
                    0 <= q % 2,
                    0 <= r,
                    p > 0,
            ;
            assert(!bit(word, below));
        }
        if forall|index: nat| index < count ==> !#[trigger] bit(word, index) {
            assert(!bit(word, below));
            assert(forall|index: nat| index < below ==> !#[trigger] bit(word, index));
            assert(q % 2 == 0);
            assert((q % 2) * p + r == 0);
        }
    }
}

/// A word passes a high mask if and only if it is a multiple of the power of
/// two.
proof fn lemma_high_mask(word: nat, count: nat)
    requires
        count <= 256,
        word < word_modulus(),
    ensures
        is_masked(word, high_mask(count)) <==> word % pow2(count) == 0,
{
    lemma_no_low_bits(word, count);
    if word % pow2(count) == 0 {
        assert forall|index: nat| index < 256 && #[trigger] bit(word, index) implies bit(
            high_mask(count),
            index,
        ) by {
            lemma_high_mask_bits(count, index);
        }
    }
    if is_masked(word, high_mask(count)) {
        assert forall|index: nat| index < count implies !#[trigger] bit(word, index) by {
            lemma_high_mask_bits(count, index);
        }
    }
}

/// A word equals its sign extension if and only if it is a small number or the
/// complement of one.
proof fn lemma_extended(word: nat, bits: nat)
    requires
        8 <= bits < 256,
        bits % 8 == 0,
        word < word_modulus(),
    ensures
        word == extended(word, (bits / 8 - 1) as nat) <==> (word < pow2((bits - 1) as nat) || word
            >= word_modulus() - pow2((bits - 1) as nat)),
{
    let width = 8 * ((bits / 8 - 1) as nat + 1);
    assert(width == bits);
    lemma2_to64();
    lemma_pow2_split(bits);
    lemma_pow2_adds(1, (bits - 1) as nat);
    lemma_pow2_pos((bits - 1) as nat);
    let h = pow2((bits - 1) as nat) as int;
    let p = pow2(bits) as int;
    let m = word_modulus() as int;
    let k = pow2((256 - bits) as nat) as int;
    let w = word as int;
    assert(p == 2 * h);
    lemma_mod_bound(w, p);
    if w < h {
        lemma_small_mod(word, pow2(bits));
    }
    if w >= m - h {
        assert(w == (k - 1) * p + (w - (m - p))) by (nonlinear_arith)
            requires
                p * k == m,
        ;
        lemma_fundamental_div_mod_converse(w, p, k - 1, w - (m - p));
    }
}

/// A word passes the check for a value type if and only if it is the encoding of
/// a value of that type.
pub proof fn law_validator_accepts_canonical_words(hir: Hir, ty: Ty, word: nat)
    requires
        word < word_modulus(),
        ty_fits(hir, underlying(ty)),
    ensures
        is_canonical(hir, ty, word) <==> (validator_of(hir, ty) matches Some(validator) ==> passes(
            validator,
            word,
        )),
{
    match underlying(ty) {
        Ty::Elementary(elem) => match elem {
            ElementaryType::UInt(bits) => {
                if bits < 256 {
                    lemma_low_mask(word, bits as nat);
                }
            },
            ElementaryType::Int(bits) => {
                if bits < 256 {
                    lemma_extended(word, bits as nat);
                }
            },
            ElementaryType::Address(_) => {
                lemma_low_mask(word, 160);
            },
            ElementaryType::FixedBytes(bytes) => {
                if bytes < 32 {
                    lemma_high_mask(word, (256 - 8 * bytes) as nat);
                }
            },
            _ => {},
        },
        Ty::Contract(_) => {
            lemma_low_mask(word, 160);
        },
        _ => {},
    }
}

/// The bytes that a variable in memory takes.
pub open spec fn place_size(p: Places, id: usize) -> int {
    if p.slices.contains(id) {
        2 * EvmMemoryLayout::WORD_SIZE as int
    } else {
        EvmMemoryLayout::WORD_SIZE as int
    }
}

/// Whether the variables in memory lie apart from each other and below the next
/// available offset.
pub open spec fn places_apart(p: Places) -> bool {
    &&& forall|id: usize| #[trigger]
        p.memory.contains_key(id) ==> p.memory[id] + place_size(p, id) <= p.next
    &&& forall|a: usize, b: usize|
        #![trigger p.memory.contains_key(a), p.memory.contains_key(b)]
        p.memory.contains_key(a) && p.memory.contains_key(b) && a != b ==> {
            ||| p.memory[a] + place_size(p, a) <= p.memory[b]
            ||| p.memory[b] + place_size(p, b) <= p.memory[a]
        }
}

/// Giving a variable a place in memory keeps the variables apart.
pub proof fn law_new_places_are_apart(p: Places, id: VariableId)
    requires
        places_apart(p),
        p.next + 2 * EvmMemoryLayout::WORD_SIZE <= u64::MAX,
    ensures
        !p.slices.contains(id.0) ==> places_apart(with_word(p, id)),
        places_apart(with_two_words(p, id)),
{
    let one = with_word(p, id);
    let two = with_two_words(p, id);
    assert forall|a: usize| #[trigger] one.memory.contains_key(a) && a != id.0 implies p.memory.contains_key(a)
        && one.memory[a] == p.memory[a] by {}
    assert forall|a: usize| #[trigger] two.memory.contains_key(a) && a != id.0 implies p.memory.contains_key(a)
        && two.memory[a] == p.memory[a] by {}
}

/// Binding a value or marking a reference moves no variable.
pub proof fn law_values_take_no_place(p: Places, id: VariableId, value: ValueId)
    requires
        places_apart(p),
    ensures
        places_apart(with_local(p, id, value)),
        places_apart(with_reference(p, id)),
{
    let a = with_local(p, id, value);
    let b = with_reference(p, id);
    assert(a.memory == p.memory && a.slices == p.slices && a.next == p.next);
    assert(b.memory == p.memory && b.slices == p.slices && b.next == p.next);
    assert(forall|x: usize| place_size(a, x) == place_size(p, x));
    assert(forall|x: usize| place_size(b, x) == place_size(p, x));
}

/// Whether the functions found are told apart by their selectors.
pub open spec fn selectors_unique(hir: Hir, functions: Seq<HirFunctionId>) -> bool {
    forall|i: int, j: int|
        #![trigger functions[i], functions[j]]
        0 <= i < j < functions.len() && is_exposed(hir.functions@[functions[i].0 as int])
            && is_ordinary(hir.functions@[functions[i].0 as int]) && is_exposed(
            hir.functions@[functions[j].0 as int],
        ) && is_ordinary(hir.functions@[functions[j].0 as int])
            ==> hir.functions@[functions[i].0 as int].selector
            != hir.functions@[functions[j].0 as int].selector
}

/// Whether the selectors taken are those of the exposed functions found.
pub open spec fn selectors_known(hir: Hir, found: Found) -> bool {
    &&& forall|i: int|
        0 <= i < found.functions.len() && is_exposed(
            hir.functions@[(#[trigger] found.functions[i]).0 as int],
        ) && is_ordinary(hir.functions@[found.functions[i].0 as int]) ==> found.selectors.contains(
            hir.functions@[found.functions[i].0 as int].selector,
        )
    &&& selectors_unique(hir, found.functions)
}

/// Looking at one more function keeps the selectors apart.
proof fn lemma_looked_at(
    found: Found,
    hir: Hir,
    contract: ContractId,
    base: ContractId,
    id: HirFunctionId,
)
    requires
        selectors_known(hir, found),
    ensures
        selectors_known(hir, looked_at(found, hir, contract, base, id)),
        found.selectors.subset_of(looked_at(found, hir, contract, base, id).selectors),
        found.functions.len() <= looked_at(found, hir, contract, base, id).functions.len(),
        is_exposed(hir.functions@[id.0 as int]) && is_ordinary(hir.functions@[id.0 as int])
            ==> looked_at(found, hir, contract, base, id).selectors.contains(
            hir.functions@[id.0 as int].selector,
        ),
{
    let after = looked_at(found, hir, contract, base, id);
    assert forall|i: int|
        0 <= i < after.functions.len() && is_exposed(
            hir.functions@[(#[trigger] after.functions[i]).0 as int],
        ) && is_ordinary(
            hir.functions@[after.functions[i].0 as int],
        ) implies after.selectors.contains(
        hir.functions@[after.functions[i].0 as int].selector,
    ) by {
        if i < found.functions.len() {
            assert(after.functions[i] == found.functions[i]);
        }
    }
    assert forall|i: int, j: int|
        #![trigger after.functions[i], after.functions[j]]
        0 <= i < j < after.functions.len() && is_exposed(
            hir.functions@[after.functions[i].0 as int],
        ) && is_ordinary(hir.functions@[after.functions[i].0 as int]) && is_exposed(
            hir.functions@[after.functions[j].0 as int],
        ) && is_ordinary(
            hir.functions@[after.functions[j].0 as int],
        ) implies hir.functions@[after.functions[i].0 as int].selector
        != hir.functions@[after.functions[j].0 as int].selector by {
        assert(after.functions[i] == found.functions[i]);
        if j < found.functions.len() {
            assert(after.functions[j] == found.functions[j]);
        }
    }
}

/// Looking at the functions of a base keeps the selectors apart.
proof fn lemma_found_in_base(
    found: Found,
    hir: Hir,
    contract: ContractId,
    base: ContractId,
    count: nat,
)
    requires
        selectors_known(hir, found),
    ensures
        selectors_known(hir, found_in_base(found, hir, contract, base, count)),
        found.selectors.subset_of(found_in_base(found, hir, contract, base, count).selectors),
        forall|k: int|
            0 <= k < count && is_exposed(
                hir.functions@[(#[trigger] hir.contracts@[base.0 as int].functions@[k]).0 as int],
            ) && is_ordinary(
                hir.functions@[hir.contracts@[base.0 as int].functions@[k].0 as int],
            ) ==> found_in_base(found, hir, contract, base, count).selectors.contains(
                hir.functions@[hir.contracts@[base.0 as int].functions@[k].0 as int].selector,
            ),
    decreases count,
{
    if count > 0 {
        lemma_found_in_base(found, hir, contract, base, (count - 1) as nat);
        lemma_looked_at(
            found_in_base(found, hir, contract, base, (count - 1) as nat),
            hir,
            contract,
            base,
            hir.contracts@[base.0 as int].functions@[count - 1],
        );
    }
}

/// Looking at the functions of bases keeps the selectors apart.
proof fn lemma_found_in_bases(hir: Hir, contract: ContractId, count: nat)
    ensures
        selectors_known(hir, found_in_bases(hir, contract, count)),
    decreases count,
{
    if count > 0 {
        lemma_found_in_bases(hir, contract, (count - 1) as nat);
        let base = hir.contracts@[contract.0 as int].linearized_bases@[count - 1];
        lemma_found_in_base(
            found_in_bases(hir, contract, (count - 1) as nat),
            hir,
            contract,
            base,
            hir.contracts@[base.0 as int].functions@.len(),
        );
    }
}

/// No two functions of a contract that are called from outside have the same
/// selector: the most derived one overrides the others.
pub proof fn law_selectors_are_unique(hir: Hir, contract: ContractId)
    ensures
        selectors_unique(hir, inherited_functions(hir, contract)),
{
    lemma_found_in_bases(
        hir,
        contract,
        hir.contracts@[contract.0 as int].linearized_bases@.len(),
    );
}

/// Every selector that is taken is that of a function found.
proof fn lemma_selectors_backed(hir: Hir, contract: ContractId, count: nat, selector: u32)
    requires
        found_in_bases(hir, contract, count).selectors.contains(selector),
    ensures
        exists|i: int|
            0 <= i < found_in_bases(hir, contract, count).functions.len()
                && hir.functions@[(#[trigger] found_in_bases(
                hir,
                contract,
                count,
            ).functions[i]).0 as int].selector == selector,
    decreases count,
{
    if count > 0 {
        let base = hir.contracts@[contract.0 as int].linearized_bases@[count - 1];
        lemma_selectors_backed_in_base(
            hir,
            contract,
            (count - 1) as nat,
            base,
            hir.contracts@[base.0 as int].functions@.len(),
            selector,
        );
    }
}

/// Every selector that is taken in a base is that of a function found.
proof fn lemma_selectors_backed_in_base(
    hir: Hir,
    contract: ContractId,
    bases: nat,
    base: ContractId,
    count: nat,
    selector: u32,
)
    requires
        found_in_base(
            found_in_bases(hir, contract, bases),
            hir,
            contract,
            base,
            count,
        ).selectors.contains(selector),
    ensures
        exists|i: int|
            0 <= i < found_in_base(
                found_in_bases(hir, contract, bases),
                hir,
                contract,
                base,
                count,
            ).functions.len() && hir.functions@[(#[trigger] found_in_base(
                found_in_bases(hir, contract, bases),
                hir,
                contract,
                base,
                count,
            ).functions[i]).0 as int].selector == selector,
    decreases bases, count + 1,
{
    let start = found_in_bases(hir, contract, bases);
    if count == 0 {
        if bases > 0 {
            lemma_selectors_backed_again(hir, contract, bases, selector);
        }
    } else {
        let before = found_in_base(start, hir, contract, base, (count - 1) as nat);
        let id = hir.contracts@[base.0 as int].functions@[count - 1];
        let after = looked_at(before, hir, contract, base, id);
        if before.selectors.contains(selector) {
            lemma_selectors_backed_in_base(
                hir,
                contract,
                bases,
                base,
                (count - 1) as nat,
                selector,
            );
            let i = choose|i: int|
                0 <= i < before.functions.len() && hir.functions@[(
                #[trigger] before.functions[i]).0 as int].selector == selector;
            assert(after.functions[i] == before.functions[i]);
        } else {
            assert(after.functions[after.functions.len() - 1] == id);
        }
    }
}

/// The step back to the bases before.
proof fn lemma_selectors_backed_again(hir: Hir, contract: ContractId, bases: nat, selector: u32)
    requires
        bases > 0,
        found_in_bases(hir, contract, bases).selectors.contains(selector),
    ensures
        exists|i: int|
            0 <= i < found_in_bases(hir, contract, bases).functions.len()
                && hir.functions@[(#[trigger] found_in_bases(
                hir,
                contract,
                bases,
            ).functions[i]).0 as int].selector == selector,
    decreases bases, 0nat,
{
    let base = hir.contracts@[contract.0 as int].linearized_bases@[bases - 1];
    lemma_selectors_backed_in_base(
        hir,
        contract,
        (bases - 1) as nat,
        base,
        hir.contracts@[base.0 as int].functions@.len(),
        selector,
    );
}

/// A function of a base of a contract.
pub open spec fn declared_function(
    hir: Hir,
    contract: ContractId,
    base_index: int,
    function_index: int,
) -> HirFunction {
    let base = hir.contracts@[contract.0 as int].linearized_bases@[base_index];
    hir.functions@[hir.contracts@[base.0 as int].functions@[function_index].0 as int]
}

/// Every ordinary function of a base that is called from outside is there, or
/// one with the same selector that overrides it.
pub proof fn law_exposed_functions_are_kept(
    hir: Hir,
    contract: ContractId,
    base_index: int,
    function_index: int,
)
    requires
        0 <= base_index < hir.contracts@[contract.0 as int].linearized_bases@.len(),
        0 <= function_index < hir.contracts@[hir.contracts@[contract.0 as int].linearized_bases@[
        base_index].0 as int].functions@.len(),
        is_exposed(declared_function(hir, contract, base_index, function_index)),
        is_ordinary(declared_function(hir, contract, base_index, function_index)),
    ensures
        exists|i: int|
            0 <= i < inherited_functions(hir, contract).len()
                && hir.functions@[(#[trigger] inherited_functions(
                hir,
                contract,
            )[i]).0 as int].selector
                == declared_function(hir, contract, base_index, function_index).selector,
{
    let bases = hir.contracts@[contract.0 as int].linearized_bases@;
    let base = bases[base_index];
    let id = hir.contracts@[base.0 as int].functions@[function_index];
    let selector = hir.functions@[id.0 as int].selector;
    let start = found_in_bases(hir, contract, base_index as nat);
    lemma_found_in_bases(hir, contract, base_index as nat);
    lemma_found_in_base(
        start,
        hir,
        contract,
        base,
        hir.contracts@[base.0 as int].functions@.len(),
    );
    assert(found_in_bases(hir, contract, (base_index + 1) as nat).selectors.contains(selector));
    lemma_selectors_grow(hir, contract, (base_index + 1) as nat, bases.len(), selector);
    lemma_selectors_backed(hir, contract, bases.len(), selector);
    let all = found_in_bases(hir, contract, bases.len()).functions;
    let i = choose|i: int|
        0 <= i < all.len() && hir.functions@[(#[trigger] all[i]).0 as int].selector == selector;
    assert(inherited_functions(hir, contract)[i] == all[i]);
}

/// A selector that is taken stays taken.
proof fn lemma_selectors_grow(
    hir: Hir,
    contract: ContractId,
    fewer: nat,
    more: nat,
    selector: u32,
)
    requires
        fewer <= more,
        found_in_bases(hir, contract, fewer).selectors.contains(selector),
    ensures
        found_in_bases(hir, contract, more).selectors.contains(selector),
    decreases more,
{
    if fewer < more {
        lemma_selectors_grow(hir, contract, fewer, (more - 1) as nat, selector);
        let base = hir.contracts@[contract.0 as int].linearized_bases@[more - 1];
        lemma_found_in_bases(hir, contract, (more - 1) as nat);
        lemma_found_in_base(
            found_in_bases(hir, contract, (more - 1) as nat),
            hir,
            contract,
            base,
            hir.contracts@[base.0 as int].functions@.len(),
        );
    }
}

/// What stored variables are found.
proof fn lemma_stored_among(hir: Hir, ids: Seq<VariableId>, count: nat)
    requires
        count <= ids.len(),
    ensures
        stored_among(hir, ids, count).no_duplicates(),
        forall|k: int|
            0 <= k < count && is_stored(hir.variables@[(#[trigger] ids[k]).0 as int])
                ==> stored_among(hir, ids, count).contains(ids[k]),
        forall|i: int|
            0 <= i < stored_among(hir, ids, count).len() ==> is_stored(
                hir.variables@[(#[trigger] stored_among(hir, ids, count)[i]).0 as int],
            ),
    decreases count,
{
    if count > 0 {
        lemma_stored_among(hir, ids, (count - 1) as nat);
        let front = stored_among(hir, ids, (count - 1) as nat);
        let all = stored_among(hir, ids, count);
        let id = ids[count - 1];
        assert forall|k: int|
            0 <= k < count && is_stored(
                hir.variables@[(#[trigger] ids[k]).0 as int],
            ) implies all.contains(ids[k]) by {
            if k < count - 1 {
                let i = choose|i: int| 0 <= i < front.len() && front[i] == ids[k];
                assert(all[i] == ids[k]);
            } else if !front.contains(id) {
                assert(all[all.len() - 1] == id);
            }
        }
    }
}

/// Every state variable that takes storage gets one place in the layout, and
/// nothing else does.
pub proof fn law_storage_order_is_complete(hir: Hir, contract: ContractId)
    ensures
        storage_order_of(hir, contract).no_duplicates(),
        forall|k: int|
            0 <= k < all_variables(hir, contract).len() && is_stored(
                hir.variables@[(#[trigger] all_variables(hir, contract)[k]).0 as int],
            ) ==> storage_order_of(hir, contract).contains(all_variables(hir, contract)[k]),
        forall|i: int|
            0 <= i < storage_order_of(hir, contract).len() ==> is_stored(
                hir.variables@[(#[trigger] storage_order_of(hir, contract)[i]).0 as int],
            ),
{
    lemma_stored_among(hir, all_variables(hir, contract), all_variables(hir, contract).len());
}

/// Variables of more bases follow those of fewer.
proof fn lemma_variables_prefix(hir: Hir, bases: Seq<ContractId>, fewer: nat, more: nat)
    requires
        fewer <= more <= bases.len(),
    ensures
        variables_of(hir, bases, fewer).is_prefix_of(variables_of(hir, bases, more)),
    decreases more,
{
    if fewer < more {
        lemma_variables_prefix(hir, bases, fewer, (more - 1) as nat);
    }
}

/// The variables of a base come before those of the contracts derived from it.
pub proof fn law_base_variables_come_first(hir: Hir, contract: ContractId, count: nat)
    requires
        count <= hir.contracts@[contract.0 as int].linearized_bases@.len(),
    ensures
        variables_of(
            hir,
            hir.contracts@[contract.0 as int].linearized_bases@,
            count,
        ).is_prefix_of(all_variables(hir, contract)),
{
    let bases = hir.contracts@[contract.0 as int].linearized_bases@;
    lemma_variables_prefix(hir, bases, count, bases.len());
}

/// The slots that variables get are those of their locations.
proof fn lemma_slots_given(
    slots: Map<usize, U256>,
    order: Seq<VariableId>,
    locations: Seq<StorageLocation>,
    count: nat,
    index: int,
)
    requires
        order.no_duplicates(),
        count <= order.len(),
        0 <= index < count,
    ensures
        slots_given(slots, order, locations, count).contains_key(order[index].0),
        slots_given(slots, order, locations, count)[order[index].0] == locations[index].slot,
    decreases count,
{
    if index < count - 1 {
        lemma_slots_given(slots, order, locations, (count - 1) as nat, index);
        assert(order[index] != order[count - 1]);
    }
}

/// The variable at a place of the layout gets the location for that place.
pub proof fn law_variables_get_their_locations(
    hir: Hir,
    contract: ContractId,
    locations: Seq<StorageLocation>,
    index: int,
)
    requires
        locations.len() == storage_order_of(hir, contract).len(),
        0 <= index < locations.len(),
    ensures
        slots_given(
            Map::empty(),
            storage_order_of(hir, contract),
            locations,
            locations.len(),
        )[storage_order_of(hir, contract)[index].0] == locations[index].slot,
{
    law_storage_order_is_complete(hir, contract);
    lemma_slots_given(
        Map::empty(),
        storage_order_of(hir, contract),
        locations,
        locations.len(),
        index,
    );
}

/// Offsets of immutables that are each declared once lie a word apart.
pub proof fn law_immutables_lie_apart(
    offsets: Map<usize, u32>,
    order: Seq<VariableId>,
    first: u32,
    count: nat,
    a: int,
    b: int,
)
    requires
        order.no_duplicates(),
        count <= order.len(),
        0 <= a < b < count,
        first + count * IMMUTABLE_WORD_SIZE <= u32::MAX,
    ensures
        offsets_given(offsets, order, first, count)[order[a].0] + IMMUTABLE_WORD_SIZE
            <= offsets_given(offsets, order, first, count)[order[b].0],
{
    lemma_offset_given(offsets, order, first, count, a);
    lemma_offset_given(offsets, order, first, count, b);
}

/// The offset of an immutable.
proof fn lemma_offset_given(
    offsets: Map<usize, u32>,
    order: Seq<VariableId>,
    first: u32,
    count: nat,
    index: int,
)
    requires
        order.no_duplicates(),
        count <= order.len(),
        0 <= index < count,
    ensures
        offsets_given(offsets, order, first, count)[order[index].0] == (first + index
            * IMMUTABLE_WORD_SIZE) as u32,
    decreases count,
{
    if index < count - 1 {
        lemma_offset_given(offsets, order, first, (count - 1) as nat, index);
        assert(order[index] != order[count - 1]);
    }
}

/// Going on with a suspended function gives back its whole state, whatever
/// happened in between, and touches nothing else.
pub proof fn law_resuming_undoes_suspending(before: Lowerer, after: Lowerer)
    ensures
        state_of_function(resumed(after, state_of_function(before))) == state_of_function(before),
        resumed(before, state_of_function(before)) == before,
        resumed(after, state_of_function(before)).module == after.module,
        resumed(after, state_of_function(before)).hir_to_mir_functions
            == after.hir_to_mir_functions,
        resumed(after, state_of_function(before)).complaints == after.complaints,
{
}

/// Whether the functions being inlined are different ones and not too many.
pub open spec fn inlining_fits(stack: Seq<HirFunctionId>) -> bool {
    stack.no_duplicates() && stack.len() <= MAX_INLINE_DEPTH
}

/// Entering a function that may be inlined keeps the nesting bounded and free of
/// cycles, and leaving it undoes that.
pub proof fn law_inlining_is_bounded(stack: Seq<HirFunctionId>, id: HirFunctionId)
    requires
        inlining_fits(stack),
        !stack.contains(id) && stack.len() < MAX_INLINE_DEPTH,
    ensures
        inlining_fits(stack.push(id)),
        stack.push(id).drop_last() == stack,
{
    assert(stack.push(id).drop_last() =~= stack);
}

/// Every value of an event becomes either a topic or data: the topics are the
/// indexed values, and the signature unless the event is anonymous.
pub proof fn law_event_values_are_split(hir: Hir, event: Event, values: Seq<ValueId>, count: nat)
    requires
        leading_topics(event) <= values.len(),
    ensures
        data_of(hir, event, values, count).len() == data_count(hir, event.parameters@, count),
        topics_of(hir, event, values, count).len() == count - data_count(
            hir,
            event.parameters@,
            count,
        ) + leading_topics(event),
    decreases count,
{
    if count > 0 {
        law_event_values_are_split(hir, event, values, (count - 1) as nat);
    }
}

/// Bases whose arguments are resolved stay resolved, and none is resolved twice.
proof fn lemma_base_resolved(
    hir: Hir,
    contract: ContractId,
    base: ContractId,
    done: Seq<BaseArguments>,
    active: Seq<ContractId>,
)
    requires
        active.no_duplicates(),
        has_contracts(hir, active),
        base.0 < hir.contracts@.len(),
        providers_declared(hir, contract),
        distinct_bases(done),
        forall|k: int| 0 <= k < active.len() ==> !is_resolved(done, #[trigger] active[k]),
    ensures
        distinct_bases(base_resolved(hir, contract, base, done, active).0),
        done.is_prefix_of(base_resolved(hir, contract, base, done, active).0),
        forall|k: int|
            0 <= k < active.len() ==> !is_resolved(
                base_resolved(hir, contract, base, done, active).0,
                #[trigger] active[k],
            ) || active[k] == base && is_resolved(done, base),
        base_resolved(hir, contract, base, done, active).1 is None ==> is_resolved(
            base_resolved(hir, contract, base, done, active).0,
            base,
        ),
    decreases hir.contracts@.len() - active.len(),
{
    if is_resolved(done, base) || active.contains(base) {
    } else {
        let after = base_resolved(hir, contract, base, done, active).0;
        match provider_of(hir, contract, base) {
            None => {
                if after != done {
                    lemma_resolved_push(done, BaseArguments { base, provider: None });
                }
            },
            Some(provider) => {
                lemma_distinct_contracts(hir, active, base);
                let inner = if provider.0 != contract
                    && hir.contracts@[provider.0.0 as int].ctor is Some {
                    assert forall|k: int| 0 <= k < active.push(base).len() implies !is_resolved(
                        done,
                        #[trigger] active.push(base)[k],
                    ) by {
                        if k < active.len() {
                            assert(active.push(base)[k] == active[k]);
                        }
                    }
                    assert(active.push(base).no_duplicates());
                    lemma_base_resolved(hir, contract, provider.0, done, active.push(base));
                    base_resolved(hir, contract, provider.0, done, active.push(base)).0
                } else {
                    done
                };
                assert forall|k: int| 0 <= k < active.len() implies !is_resolved(
                    inner,
                    #[trigger] active[k],
                ) by {
                    if inner != done {
                        assert(active.push(base)[k] == active[k]);
                    }
                }
                assert(!is_resolved(inner, base)) by {
                    if inner != done {
                        assert(active.push(base)[active.len() as int] == base);
                    }
                }
                if after != inner {
                    lemma_resolved_push(inner, BaseArguments { base, provider: Some(provider) });
                }
            },
        }
    }
}

/// Whether no base occurs twice among resolved arguments.
pub open spec fn distinct_bases(done: Seq<BaseArguments>) -> bool {
    forall|i: int, j: int|
        #![trigger done[i], done[j]]
        0 <= i < j < done.len() ==> done[i].base != done[j].base
}

/// Resolving one more base.
proof fn lemma_resolved_push(done: Seq<BaseArguments>, more: BaseArguments)
    requires
        distinct_bases(done),
        !is_resolved(done, more.base),
    ensures
        distinct_bases(done.push(more)),
        is_resolved(done.push(more), more.base),
        forall|base: ContractId|
            base != more.base && !is_resolved(done, base) ==> !#[trigger] is_resolved(
                done.push(more),
                base,
            ),
{
    let all = done.push(more);
    assert(all[done.len() as int].base == more.base);
    assert forall|i: int, j: int|
        #![trigger all[i], all[j]]
        0 <= i < j < all.len() implies all[i].base != all[j].base by {
        assert(all[i] == done[i]);
        if j < done.len() {
            assert(all[j] == done[j]);
        }
    }
    assert forall|base: ContractId|
        base != more.base && !is_resolved(done, base) implies !#[trigger] is_resolved(
        all,
        base,
    ) by {
        if is_resolved(all, base) {
            let i = choose|i: int| 0 <= i < all.len() && (#[trigger] all[i]).base == base;
            if i < done.len() {
                assert(done[i].base == base);
            }
        }
    }
}

/// The arguments of the first `count` bases are resolved once each.
proof fn lemma_bases_resolved(hir: Hir, contract: ContractId, count: nat)
    requires
        providers_declared(hir, contract),
        count <= hir.contracts@[contract.0 as int].linearized_bases@.len(),
        has_contracts(hir, hir.contracts@[contract.0 as int].linearized_bases@),
    ensures
        distinct_bases(bases_resolved(hir, contract, count).0),
        bases_resolved(hir, contract, count).1 is None ==> forall|k: int|
            1 <= k < count && hir.contracts@[
                (#[trigger] hir.contracts@[contract.0 as int].linearized_bases@[k]).0 as int
            ].ctor is Some
                ==> is_resolved(
                bases_resolved(hir, contract, count).0,
                hir.contracts@[contract.0 as int].linearized_bases@[k],
            ),
    decreases count,
{
    let bases = hir.contracts@[contract.0 as int].linearized_bases@;
    if count > 1 {
        lemma_bases_resolved(hir, contract, (count - 1) as nat);
        let (done, problem) = bases_resolved(hir, contract, (count - 1) as nat);
        let base = bases[count - 1];
        assert(base.0 < hir.contracts@.len());
        if problem is None && hir.contracts@[base.0 as int].ctor is Some {
            lemma_base_resolved(hir, contract, base, done, Seq::empty());
            let after = base_resolved(hir, contract, base, done, Seq::empty()).0;
            assert forall|b: ContractId| is_resolved(done, b) implies #[trigger] is_resolved(
                after,
                b,
            ) by {
                let i = choose|i: int| 0 <= i < done.len() && (#[trigger] done[i]).base == b;
                assert(after[i] == done[i]);
            }
        }
    }
}

/// When nothing stops it, the arguments of every base with a constructor are
/// evaluated, and those of no base twice.
pub proof fn law_base_arguments_are_evaluated_once(hir: Hir, contract: ContractId)
    requires
        hir_wf(hir),
        contract.0 < hir.contracts@.len(),
    ensures
        distinct_bases(constructor_arguments(hir, contract).0),
        constructor_arguments(hir, contract).1 is None ==> forall|k: int|
            1 <= k < hir.contracts@[contract.0 as int].linearized_bases@.len()
                    && hir.contracts@[
                    (#[trigger] hir.contracts@[contract.0 as int].linearized_bases@[k]).0 as int
                ].ctor is Some
                ==> is_resolved(
                constructor_arguments(hir, contract).0,
                hir.contracts@[contract.0 as int].linearized_bases@[k],
            ),
{
    lemma_providers_declared(hir, contract);
    reveal(hir_wf);
    assert(contract_fits(hir, hir.contracts@[contract.0 as int]));
    lemma_bases_resolved(
        hir,
        contract,
        hir.contracts@[contract.0 as int].linearized_bases@.len(),
    );
}

/// What one of the first `count` functions embeds, all of them do.
proof fn lemma_functions_embed(hir: Hir, base: Contract, count: nat, i: int)
    requires
        0 <= i < count <= base.functions@.len(),
    ensures
        embedded_in_function(hir, hir.functions@[base.functions@[i].0 as int]).subset_of(
            embedded_in_functions(hir, base, count),
        ),
    decreases count,
{
    if i + 1 < count {
        lemma_functions_embed(hir, base, (count - 1) as nat, i);
    }
}

/// What one of the first `count` variables embeds, all of them do.
proof fn lemma_variables_embed(hir: Hir, ids: Seq<VariableId>, count: nat, i: int)
    requires
        0 <= i < count <= ids.len(),
    ensures
        embedded_in_variable(hir, ids[i]).subset_of(embedded_in_variables(hir, ids, count)),
    decreases count,
{
    if i + 1 < count {
        lemma_variables_embed(hir, ids, (count - 1) as nat, i);
    }
}

/// What one of the first `count` bases embeds, all of them do.
proof fn lemma_bases_embed(hir: Hir, contract: Contract, count: nat, i: int)
    requires
        0 <= i < count <= contract.linearized_bases@.len(),
    ensures
        ({
            let base = hir.contracts@[contract.linearized_bases@[i].0 as int];
            let all = embedded_in_bases(hir, contract, count);
            &&& embedded_in_variables(hir, base.variables@, base.variables@.len()).subset_of(all)
            &&& embedded_in_functions(hir, base, base.functions@.len()).subset_of(all)
        }),
    decreases count,
{
    if i + 1 < count {
        lemma_bases_embed(hir, contract, (count - 1) as nat, i);
    }
}

/// The creation code that a state variable or a function of a contract, or of
/// any of its bases, refers to is among the dependencies of the contract.
pub proof fn law_dependencies_cover_bases(hir: Hir, contract: Contract, index: int)
    requires
        0 <= index < contract.linearized_bases@.len(),
    ensures
        ({
            let base = hir.contracts@[contract.linearized_bases@[index].0 as int];
            let found = bytecode_dependencies(hir, contract);
            &&& forall|i: int|
                0 <= i < base.variables@.len() ==> embedded_in_variable(
                    hir,
                    #[trigger] base.variables@[i],
                ).subset_of(found)
            &&& forall|i: int|
                0 <= i < base.functions@.len() ==> embedded_in_function(
                    hir,
                    hir.functions@[(#[trigger] base.functions@[i]).0 as int],
                ).subset_of(found)
        }),
{
    let base = hir.contracts@[contract.linearized_bases@[index].0 as int];
    let found = bytecode_dependencies(hir, contract);
    lemma_bases_embed(hir, contract, contract.linearized_bases@.len(), index);
    assert forall|i: int| 0 <= i < base.variables@.len() implies embedded_in_variable(
        hir,
        #[trigger] base.variables@[i],
    ).subset_of(found) by {
        lemma_variables_embed(hir, base.variables@, base.variables@.len(), i);
    }
    assert forall|i: int| 0 <= i < base.functions@.len() implies embedded_in_function(
        hir,
        hir.functions@[(#[trigger] base.functions@[i]).0 as int],
    ).subset_of(found) by {
        lemma_functions_embed(hir, base, base.functions@.len(), i);
    }
}

/// A task whose operands are not there changes nothing, and it still waits.
pub proof fn law_stuck_turn_changes_nothing<'t>(
    s: Scene,
    lowerer: Lowerer,
    hir: Hir,
    waiting: Seq<Task<'t>>,
)
    requires
        turn(s, lowerer, hir, waiting).action is Stuck,
    ensures
        turn(s, lowerer, hir, waiting).scene == s,
        turn(s, lowerer, hir, waiting).waiting == waiting,
        waiting.len() > 0,
{
}

/// Handing a task out to another part of the compiler changes nothing else, and
/// only that task no longer waits.
pub proof fn law_asking_changes_nothing<'t>(
    s: Scene,
    lowerer: Lowerer,
    hir: Hir,
    waiting: Seq<Task<'t>>,
)
    requires
        turn(s, lowerer, hir, waiting).action is Ask,
    ensures
        turn(s, lowerer, hir, waiting).scene == s,
        waiting == turn(s, lowerer, hir, waiting).waiting.push(
            Task::Service(turn(s, lowerer, hir, waiting).action->Ask_0),
        ),
{
    assert(waiting =~= waiting.drop_last().push(waiting.last()));
}

/// Tasks that wait keep waiting, in their order, while the tasks that the next
/// one stands for are done.
pub proof fn law_waiting_tasks_keep_their_order<'t>(
    s: Scene,
    lowerer: Lowerer,
    hir: Hir,
    waiting: Seq<Task<'t>>,
)
    requires
        turn(s, lowerer, hir, waiting).action is Continue,
    ensures
        waiting.drop_last().is_prefix_of(turn(s, lowerer, hir, waiting).waiting),
{
}

} // verus!
