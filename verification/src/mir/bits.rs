//! Words as numbers, as bits and as bytes.

use crate::mir::meaning::{byte_of, bytes_number, has_bit, of_bits, with_word, word_at};
use crate::word::{lemma_limb_powers, word_modulus, word_of, U256};
use vstd::arithmetic::div_mod::{
    lemma_div_denominator, lemma_fundamental_div_mod, lemma_fundamental_div_mod_converse,
    lemma_mod_bound, lemma_small_mod,
};
use vstd::arithmetic::power2::{lemma2_to64, lemma_pow2_adds, lemma_pow2_pos, pow2};
use vstd::prelude::*;

verus! {

/// Every number below the modulus is a word.
pub proof fn lemma_word_exists(number: nat)
    requires
        number < word_modulus(),
    ensures
        word_of(number)@ == number,
{
    lemma_limb_powers();
    let base: int = 0x1_0000_0000_0000_0000;
    let n = number as int;
    let (n1, l0) = (n / base, n % base);
    let (n2, l1) = (n1 / base, n1 % base);
    let (n3, l2) = (n2 / base, n2 % base);
    lemma_fundamental_div_mod(n, base);
    lemma_fundamental_div_mod(n1, base);
    lemma_fundamental_div_mod(n2, base);
    let found = U256 { l0: l0 as u64, l1: l1 as u64, l2: l2 as u64, l3: n3 as u64 };
    assert(found@ == number);
}

/// Numbers with the same bits are the same.
pub proof fn lemma_same_bits(f: spec_fn(nat) -> bool, g: spec_fn(nat) -> bool, count: nat)
    requires
        forall|i: nat| i < count ==> #[trigger] f(i) == g(i),
    ensures
        of_bits(f, count) == of_bits(g, count),
    decreases count,
{
    if count > 0 {
        lemma_same_bits(f, g, (count - 1) as nat);
    }
}

/// The lowest bits of a number are its rest by a power of two.
pub proof fn lemma_low_bits(number: nat, count: nat)
    ensures
        of_bits(|i: nat| has_bit(number, i), count) == number % pow2(count),
    decreases count,
{
    lemma2_to64();
    if count == 0 {
        assert(number % 1 == 0);
    } else {
        let below = (count - 1) as nat;
        lemma_low_bits(number, below);
        lemma_pow2_adds(1, below);
        lemma_pow2_pos(below);
        let p = pow2(below) as int;
        let w = number as int;
        lemma_fundamental_div_mod(w, p);
        lemma_mod_bound(w, p);
        let q = w / p;
        let r = w % p;
        lemma_fundamental_div_mod(q, 2);
        assert(w == (q / 2) * (2 * p) + ((q % 2) * p + r)) by (nonlinear_arith)
            requires
                w == p * q + r,
                q == 2 * (q / 2) + q % 2,
        ;
        assert(0 <= (q % 2) * p + r < 2 * p) by (nonlinear_arith)
            requires
                0 <= q % 2 < 2,
                0 <= r < p,
        ;
        lemma_fundamental_div_mod_converse(w, 2 * p, q / 2, (q % 2) * p + r);
        assert((q % 2) * p == if q % 2 == 1 {
            p
        } else {
            0
        }) by (nonlinear_arith)
            requires
                0 <= q % 2 < 2,
        ;
    }
}

/// A word is the number that its bits make.
pub proof fn lemma_word_bits(number: nat)
    requires
        number < word_modulus(),
    ensures
        of_bits(|i: nat| has_bit(number, i), 256) == number,
{
    lemma_low_bits(number, 256);
    lemma_small_mod(number, pow2(256));
}

/// Bits make a number below a power of two.
pub proof fn lemma_bits_bound(f: spec_fn(nat) -> bool, count: nat)
    ensures
        of_bits(f, count) < pow2(count),
    decreases count,
{
    lemma2_to64();
    if count > 0 {
        lemma_bits_bound(f, (count - 1) as nat);
        lemma_pow2_adds(1, (count - 1) as nat);
    }
}

/// Bits that are not set do not count.
pub proof fn lemma_upper_bits(f: spec_fn(nat) -> bool, low: nat, count: nat)
    requires
        low <= count,
        forall|i: nat| low <= i < count ==> !#[trigger] f(i),
    ensures
        of_bits(f, count) == of_bits(f, low),
    decreases count,
{
    if low < count {
        lemma_upper_bits(f, low, (count - 1) as nat);
    }
}

/// Bits that are divided among two numbers make their sum.
pub proof fn lemma_divided_bits(
    f: spec_fn(nat) -> bool,
    g: spec_fn(nat) -> bool,
    both: spec_fn(nat) -> bool,
    count: nat,
)
    requires
        forall|i: nat| i < count ==> #[trigger] both(i) == (f(i) || g(i)) && !(f(i) && g(i)),
    ensures
        of_bits(both, count) == of_bits(f, count) + of_bits(g, count),
    decreases count,
{
    if count > 0 {
        lemma_divided_bits(f, g, both, (count - 1) as nat);
    }
}

/// Some of the bits of a number make it only if they are all.
pub proof fn lemma_some_bits(f: spec_fn(nat) -> bool, g: spec_fn(nat) -> bool, count: nat)
    requires
        forall|i: nat| #![trigger f(i)] #![trigger g(i)] i < count && f(i) ==> g(i),
    ensures
        of_bits(f, count) <= of_bits(g, count),
        of_bits(f, count) == of_bits(g, count) <==> forall|i: nat|
            #![trigger f(i)]
            #![trigger g(i)]
            i < count ==> f(i) == g(i),
    decreases count,
{
    if count > 0 {
        let last = (count - 1) as nat;
        lemma_some_bits(f, g, last);
        lemma_pow2_pos(last);
        if of_bits(f, count) == of_bits(g, count) {
            assert(f(last) == g(last));
        } else {
            assert(!(forall|i: nat|
                #![trigger f(i)]
                #![trigger g(i)]
                i < count ==> f(i) == g(i))) by {
                if forall|i: nat|
                    #![trigger f(i)]
                    #![trigger g(i)]
                    i < count ==> f(i) == g(i) {
                    lemma_same_bits(f, g, count);
                }
            }
        }
    }
}

/// The first bytes of a stored word are its upper part.
proof fn lemma_upper_bytes(bytes: spec_fn(int) -> nat, addr: nat, number: nat, count: nat)
    requires
        count <= 32,
        number < word_modulus(),
        forall|i: int| addr <= i < addr + 32 ==> #[trigger] bytes(i) == byte_of(number, i - addr),
    ensures
        bytes_number(bytes, addr as int, count) == number / pow2((8 * (32 - count)) as nat),
    decreases count,
{
    lemma2_to64();
    if count == 0 {
        lemma_pow2_pos(256);
        vstd::arithmetic::div_mod::lemma_basic_div(number as int, pow2(256) as int);
    } else {
        lemma_upper_bytes(bytes, addr, number, (count - 1) as nat);
        let low = (8 * (32 - count)) as nat;
        lemma_pow2_adds(low, 8);
        lemma_pow2_pos(low);
        lemma_div_denominator(number as int, pow2(low) as int, 256);
        let q = number / pow2(low);
        lemma_fundamental_div_mod(q as int, 256);
        assert(low + 8 == 8 * (32 - (count - 1)));
        assert(pow2(low) * 256 == pow2(low + 8));
        assert(bytes(addr + count - 1) == byte_of(number, count - 1));
        assert(31 - (count - 1) == 32 - count);
    }
}

/// A stored word is read back.
pub proof fn lemma_stored_word(bytes: spec_fn(int) -> nat, addr: nat, number: nat)
    requires
        number < word_modulus(),
    ensures
        word_at(with_word(bytes, addr, number), addr) == number,
{
    lemma_upper_bytes(with_word(bytes, addr, number), addr, number, 32);
    lemma2_to64();
    assert(number / 1 == number);
}

/// Bytes that are the same make the same number.
pub proof fn lemma_same_bytes(
    first: spec_fn(int) -> nat,
    second: spec_fn(int) -> nat,
    start: int,
    count: nat,
)
    requires
        forall|i: int| start <= i < start + count ==> #[trigger] first(i) == second(i),
    ensures
        bytes_number(first, start, count) == bytes_number(second, start, count),
    decreases count,
{
    if count > 0 {
        lemma_same_bytes(first, second, start, (count - 1) as nat);
    }
}

/// A word that lies apart from a stored one is kept.
pub proof fn lemma_other_word(bytes: spec_fn(int) -> nat, addr: nat, number: nat, other: nat)
    requires
        other + 32 <= addr || addr + 32 <= other,
    ensures
        word_at(with_word(bytes, addr, number), other) == word_at(bytes, other),
{
    lemma_same_bytes(with_word(bytes, addr, number), bytes, other as int, 32);
}

/// Bytes make a number below a power of two.
pub proof fn lemma_bytes_bound(bytes: spec_fn(int) -> nat, start: int, count: nat)
    requires
        forall|i: int| #[trigger] bytes(i) < 256,
    ensures
        bytes_number(bytes, start, count) < pow2(8 * count),
    decreases count,
{
    lemma2_to64();
    if count > 0 {
        let less = (count - 1) as nat;
        lemma_bytes_bound(bytes, start, less);
        lemma_pow2_adds(8 * less, 8);
        assert(bytes(start + count - 1) < 256);
        assert(8 * less + 8 == 8 * count);
    }
}

} // verus!
