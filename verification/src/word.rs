//! 256-bit machine words.
//!
//! A [`U256`] holds its value as four little-endian limbs. The arithmetic is
//! that of `alloy_primitives::U256`, reached through the small wrappers at the
//! end of this file.

use crate::text::decimal;
use vstd::arithmetic::power2::lemma2_to64;
use vstd::arithmetic::power2::lemma_pow2_adds;
use vstd::arithmetic::power2::pow2;
use vstd::prelude::*;

verus! {

/// A 256-bit unsigned word, least significant limb first.
#[derive(Clone, Copy, Debug, PartialEq, Eq, Hash, Structural)]
pub struct U256 {
    /// Bits 0 to 63.
    pub l0: u64,
    /// Bits 64 to 127.
    pub l1: u64,
    /// Bits 128 to 191.
    pub l2: u64,
    /// Bits 192 to 255.
    pub l3: u64,
}

/// The number of distinct 256-bit words.
pub open spec fn word_modulus() -> nat {
    pow2(256)
}

/// The value of four little-endian 64-bit limbs.
pub open spec fn limbs_value(l0: u64, l1: u64, l2: u64, l3: u64) -> nat {
    (l0 + 0x1_0000_0000_0000_0000 * l1 + 0x1_0000_0000_0000_0000_0000_0000_0000_0000 * l2
        + 0x1_0000_0000_0000_0000_0000_0000_0000_0000_0000_0000_0000_0000 * l3) as nat
}

/// The value of a byte string read as a big-endian number.
pub open spec fn be_value(bytes: Seq<u8>) -> nat
    decreases bytes.len(),
{
    if bytes.len() == 0 {
        0
    } else {
        be_value(bytes.drop_last()) * 256 + bytes.last() as nat
    }
}

impl View for U256 {
    type V = nat;

    open spec fn view(&self) -> nat {
        limbs_value(self.l0, self.l1, self.l2, self.l3)
    }
}

/// The powers of two that separate the limbs, written out.
pub proof fn lemma_limb_powers()
    ensures
        pow2(64) == 0x1_0000_0000_0000_0000,
        pow2(128) == 0x1_0000_0000_0000_0000_0000_0000_0000_0000,
        pow2(192) == 0x1_0000_0000_0000_0000_0000_0000_0000_0000_0000_0000_0000_0000,
        pow2(256)
            == 0x1_0000_0000_0000_0000_0000_0000_0000_0000_0000_0000_0000_0000_0000_0000_0000_0000,
{
    lemma2_to64();
    lemma_pow2_adds(64, 64);
    lemma_pow2_adds(128, 64);
    lemma_pow2_adds(192, 64);
}

/// The value of a digit in any base up to 36.
pub open spec fn digit_value(c: char) -> Option<nat> {
    if '0' <= c && c <= '9' {
        Some((c as nat - '0' as nat) as nat)
    } else if 'a' <= c && c <= 'z' {
        Some((c as nat - 'a' as nat + 10) as nat)
    } else if 'A' <= c && c <= 'Z' {
        Some((c as nat - 'A' as nat + 10) as nat)
    } else {
        None
    }
}

/// The number that a text denotes in a base: underscores are skipped, and
/// every other character must be a digit of the base.
pub open spec fn numeral_value(text: Seq<char>, radix: nat) -> Option<nat>
    decreases text.len(),
{
    if text.len() == 0 {
        Some(0)
    } else {
        match (numeral_value(text.drop_last(), radix), digit_value(text.last())) {
            (Some(front), _) if text.last() == '_' => Some(front),
            (Some(front), Some(digit)) if digit < radix => Some(front * radix + digit),
            _ => None,
        }
    }
}

/// The base that the first two characters of a text announce.
pub open spec fn announced_radix(text: Seq<char>) -> Option<nat> {
    if text.len() < 2 || text[0] != '0' {
        None
    } else if text[1] == 'x' || text[1] == 'X' {
        Some(16)
    } else if text[1] == 'o' || text[1] == 'O' {
        Some(8)
    } else if text[1] == 'b' || text[1] == 'B' {
        Some(2)
    } else {
        None
    }
}

/// The word that an integer literal denotes: decimal, or in the base that a
/// prefix announces.
pub open spec fn literal_value(text: Seq<char>) -> Option<nat> {
    let value = match announced_radix(text) {
        Some(radix) => numeral_value(text.skip(2), radix),
        None => numeral_value(text, 10),
    };
    match value {
        Some(number) if number < word_modulus() => Some(number),
        _ => None,
    }
}

/// The word that has the given value.
pub open spec fn word_of(value: nat) -> U256 {
    choose|word: U256| word@ == value
}

/// A word is the one that has its value.
pub proof fn lemma_word_of(word: U256)
    ensures
        word_of(word@) == word,
{
    lemma_word_bounds(word_of(word@), word);
}

/// Every word is below the modulus, and a word is determined by its value.
pub proof fn lemma_word_bounds(a: U256, b: U256)
    ensures
        a@ < word_modulus(),
        a@ == b@ ==> a == b,
{
    lemma_limb_powers();
    if a.l3 != b.l3 {
        assert(a@ != b@);
    } else if a.l2 != b.l2 {
        assert(a@ != b@);
    } else if a.l1 != b.l1 {
        assert(a@ != b@);
    } else if a.l0 != b.l0 {
        assert(a@ != b@);
    }
}

impl U256 {
    /// The word holding `value`.
    pub fn from_u64(value: u64) -> (r: U256)
        ensures
            r@ == value,
            r == (U256 { l0: value, l1: 0, l2: 0, l3: 0 }),
    {
        U256 { l0: value, l1: 0, l2: 0, l3: 0 }
    }

    /// The word zero.
    pub fn zero() -> (r: U256)
        ensures
            r@ == 0,
            r == (U256 { l0: 0, l1: 0, l2: 0, l3: 0 }),
    {
        U256 { l0: 0, l1: 0, l2: 0, l3: 0 }
    }

    /// The largest word.
    pub fn max() -> (r: U256)
        ensures
            r@ == word_modulus() - 1,
    {
        proof {
            lemma_limb_powers();
        }
        U256 { l0: u64::MAX, l1: u64::MAX, l2: u64::MAX, l3: u64::MAX }
    }

    /// Whether this word is the smaller of the two.
    pub fn less_than(self, other: U256) -> (r: bool)
        ensures
            r == (self@ < other@),
    {
        if self.l3 != other.l3 {
            self.l3 < other.l3
        } else if self.l2 != other.l2 {
            self.l2 < other.l2
        } else if self.l1 != other.l1 {
            self.l1 < other.l1
        } else {
            self.l0 < other.l0
        }
    }

    /// The sum, reduced modulo the number of words.
    pub fn wrapping_add(self, other: U256) -> (r: U256)
        ensures
            r@ == (self@ + other@) % word_modulus(),
    {
        word_add(self, other)
    }

    /// The difference, reduced modulo the number of words.
    pub fn wrapping_sub(self, other: U256) -> (r: U256)
        ensures
            r@ == (self@ - other@) % (word_modulus() as int),
    {
        word_sub(self, other)
    }

    /// This word shifted towards the most significant end; the bits shifted
    /// out are lost.
    pub fn shl(self, bits: usize) -> (r: U256)
        ensures
            r@ == (self@ * pow2(bits as nat)) % word_modulus(),
    {
        word_shl(self, bits)
    }

    /// This word shifted towards the least significant end.
    pub fn shr(self, bits: usize) -> (r: U256)
        ensures
            r@ == self@ / pow2(bits as nat),
    {
        word_shr(self, bits)
    }

    /// The word whose big-endian bytes are `bytes`.
    pub fn from_be_slice(bytes: &[u8]) -> (r: U256)
        requires
            bytes@.len() <= 32,
        ensures
            r@ == be_value(bytes@),
    {
        word_from_be_slice(bytes)
    }

    /// The word that an integer literal denotes.
    pub fn from_literal(text: &str) -> (r: Option<U256>)
        ensures
            r is Some <==> literal_value(text@) is Some,
            r matches Some(word) ==> Some(word@) == literal_value(text@),
    {
        word_from_str(text)
    }

    /// The decimal digits of the value.
    pub fn to_decimal(self) -> (r: String)
        ensures
            r@ == decimal(self@),
    {
        word_to_text(self)
    }

    /// The value as a `u64`, where it fits.
    pub fn to_u64(self) -> (r: Option<u64>)
        ensures
            r is Some <==> self@ <= u64::MAX,
            r matches Some(value) ==> value == self@,
    {
        word_to_u64(self)
    }
}

/// The `+` of `alloy_primitives::U256`, which wraps: the claim is that the
/// result is the sum reduced modulo two to the 256.
#[verifier::external_body]
fn word_add(a: U256, b: U256) -> (r: U256)
    ensures
        r@ == (a@ + b@) % word_modulus(),
{
    let x = alloy_primitives::U256::from_limbs([a.l0, a.l1, a.l2, a.l3]);
    let y = alloy_primitives::U256::from_limbs([b.l0, b.l1, b.l2, b.l3]);
    let limbs = (x + y).into_limbs();
    U256 { l0: limbs[0], l1: limbs[1], l2: limbs[2], l3: limbs[3] }
}

/// The `-` of `alloy_primitives::U256`, which wraps: the claim is that the
/// result is the difference reduced modulo two to the 256.
#[verifier::external_body]
fn word_sub(a: U256, b: U256) -> (r: U256)
    ensures
        r@ == (a@ - b@) % (word_modulus() as int),
{
    let x = alloy_primitives::U256::from_limbs([a.l0, a.l1, a.l2, a.l3]);
    let y = alloy_primitives::U256::from_limbs([b.l0, b.l1, b.l2, b.l3]);
    let limbs = (x - y).into_limbs();
    U256 { l0: limbs[0], l1: limbs[1], l2: limbs[2], l3: limbs[3] }
}

/// The `<<` of `alloy_primitives::U256` by a `usize`: the claim is that the
/// result is the value times two to the shift, reduced modulo two to the 256,
/// for every shift amount.
#[verifier::external_body]
fn word_shl(a: U256, bits: usize) -> (r: U256)
    ensures
        r@ == (a@ * pow2(bits as nat)) % word_modulus(),
{
    let x = alloy_primitives::U256::from_limbs([a.l0, a.l1, a.l2, a.l3]);
    let limbs = (x << bits).into_limbs();
    U256 { l0: limbs[0], l1: limbs[1], l2: limbs[2], l3: limbs[3] }
}

/// The `>>` of `alloy_primitives::U256` by a `usize`: the claim is that the
/// result is the value divided by two to the shift, rounded down, for every
/// shift amount.
#[verifier::external_body]
fn word_shr(a: U256, bits: usize) -> (r: U256)
    ensures
        r@ == a@ / pow2(bits as nat),
{
    let x = alloy_primitives::U256::from_limbs([a.l0, a.l1, a.l2, a.l3]);
    let limbs = (x >> bits).into_limbs();
    U256 { l0: limbs[0], l1: limbs[1], l2: limbs[2], l3: limbs[3] }
}

/// `alloy_primitives::U256::from_be_slice`: the claim is that a slice of at
/// most 32 bytes is read as a big-endian number. A longer slice panics.
#[verifier::external_body]
fn word_from_be_slice(bytes: &[u8]) -> (r: U256)
    requires
        bytes@.len() <= 32,
    ensures
        r@ == be_value(bytes@),
{
    let limbs = alloy_primitives::U256::from_be_slice(bytes).into_limbs();
    U256 { l0: limbs[0], l1: limbs[1], l2: limbs[2], l3: limbs[3] }
}

/// The `TryFrom` conversion of `alloy_primitives::U256` to `u64`: the claim is
/// that it yields the value when the value fits and an error otherwise.
#[verifier::external_body]
fn word_to_u64(a: U256) -> (r: Option<u64>)
    ensures
        r is Some <==> a@ <= u64::MAX,
        r matches Some(value) ==> value == a@,
{
    let x = alloy_primitives::U256::from_limbs([a.l0, a.l1, a.l2, a.l3]);
    u64::try_from(x).ok()
}

/// The `Display` of `alloy_primitives::U256`: the claim is that it writes the
/// decimal digits of the value, without leading zeros.
#[verifier::external_body]
fn word_to_text(a: U256) -> (r: String)
    ensures
        r@ == decimal(a@),
{
    let x = alloy_primitives::U256::from_limbs([a.l0, a.l1, a.l2, a.l3]);
    format!("{}", x)
}

/// The `FromStr` conversion of `alloy_primitives::U256`: the claim is that it
/// reads a decimal number, or one in the base that a prefix announces, skips
/// underscores, and fails exactly on a character that is no digit of the base
/// and on a number that does not fit.
#[verifier::external_body]
fn word_from_str(text: &str) -> (r: Option<U256>)
    ensures
        r is Some <==> literal_value(text@) is Some,
        r matches Some(word) ==> Some(word@) == literal_value(text@),
{
    let parsed: Result<alloy_primitives::U256, _> = text.parse();
    let limbs = parsed.ok()?.into_limbs();
    Some(U256 { l0: limbs[0], l1: limbs[1], l2: limbs[2], l3: limbs[3] })
}

} // verus!
