//! Names and numbers in text.

use vstd::prelude::*;
use vstd::string::StrSliceExecFns;
use vstd::string::StringExecFns;

verus! {

/// The value of a decimal digit.
pub open spec fn is_digit(c: char) -> bool {
    '0' <= c && c <= '9'
}

/// The number that a string of decimal digits denotes.
pub open spec fn digits_value(text: Seq<char>) -> nat
    decreases text.len(),
{
    if text.len() == 0 {
        0
    } else {
        digits_value(text.drop_last()) * 10 + (text.last() as nat - '0' as nat) as nat
    }
}

/// Whether a text is one or more decimal digits.
pub open spec fn is_digits(text: Seq<char>) -> bool {
    text.len() > 0 && forall|i: int| 0 <= i < text.len() ==> is_digit(#[trigger] text[i])
}

/// A text without a leading plus sign.
pub open spec fn unsigned(text: Seq<char>) -> Seq<char> {
    if text.len() > 0 && text[0] == '+' {
        text.skip(1)
    } else {
        text
    }
}

/// The number of at most `max` that a text denotes: an optional plus sign
/// followed by decimal digits.
pub open spec fn number_of(text: Seq<char>, max: nat) -> Option<nat> {
    let digits = unsigned(text);
    if is_digits(digits) && digits_value(digits) <= max {
        Some(digits_value(digits))
    } else {
        None
    }
}

/// What follows a prefix of a text.
pub open spec fn after_prefix(text: Seq<char>, prefix: Seq<char>) -> Option<Seq<char>> {
    if prefix.len() <= text.len() && text.take(prefix.len() as int) == prefix {
        Some(text.skip(prefix.len() as int))
    } else {
        None
    }
}

/// What precedes the last character of a text, where it is the given one.
pub open spec fn before_last(text: Seq<char>, last: char) -> Option<Seq<char>> {
    if text.len() > 0 && text.last() == last {
        Some(text.drop_last())
    } else {
        None
    }
}

/// The decimal digits of a number.
pub open spec fn decimal(value: nat) -> Seq<char>
    decreases value,
{
    let last = digit_char(value % 10);
    if value < 10 {
        seq![last]
    } else {
        decimal(value / 10).push(last)
    }
}

/// The decimal digit of a number below ten.
pub open spec fn digit_char(value: nat) -> char {
    (value + '0' as nat) as char
}

/// Whether a text is the given one.
pub fn text_is(text: &str, expected: &str) -> (r: bool)
    ensures
        r == (text@ == expected@),
{
    let count: usize = text.unicode_len();
    if count != expected.unicode_len() {
        return false;
    }
    let mut i: usize = 0;
    while i < count
        invariant
            i <= count,
            count == text@.len(),
            count == expected@.len(),
            forall|k: int| 0 <= k < i ==> text@[k] == expected@[k],
        decreases count - i,
    {
        if text.get_char(i) != expected.get_char(i) {
            return false;
        }
        i = i + 1;
    }
    assert(text@ =~= expected@);
    true
}

/// What follows a prefix of a text.
pub fn strip_prefix(text: &str, prefix: &str) -> (r: Option<String>)
    ensures
        match after_prefix(text@, prefix@) {
            Some(rest) => r matches Some(s) && s@ == rest,
            None => r is None,
        },
{
    let count: usize = text.unicode_len();
    let skip: usize = prefix.unicode_len();
    if skip > count {
        return None;
    }
    let head = text.substring_char(0, skip);
    assert(text@.subrange(0, skip as int) =~= text@.take(skip as int));
    if !text_is(head, prefix) {
        return None;
    }
    let rest = text.substring_char(skip, count);
    assert(text@.subrange(skip as int, count as int) =~= text@.skip(skip as int));
    Some(rest.to_owned())
}

/// What precedes the last character of a text, where it is the given one.
pub fn strip_last(text: &str, last: char) -> (r: Option<String>)
    ensures
        match before_last(text@, last) {
            Some(rest) => r matches Some(s) && s@ == rest,
            None => r is None,
        },
{
    let count: usize = text.unicode_len();
    if count == 0 {
        return None;
    }
    if text.get_char(count - 1) != last {
        return None;
    }
    let rest = text.substring_char(0, count - 1);
    assert(text@.subrange(0, count - 1) =~= text@.drop_last());
    Some(rest.to_owned())
}

/// The value of digits only grows with more of them.
proof fn lemma_digits_grow(text: Seq<char>, i: int)
    requires
        0 <= i <= text.len(),
        forall|k: int| 0 <= k < text.len() ==> is_digit(#[trigger] text[k]),
    ensures
        digits_value(text.take(i)) <= digits_value(text),
    decreases text.len(),
{
    if i < text.len() {
        lemma_digits_grow(text.drop_last(), i);
        assert(text.drop_last().take(i) =~= text.take(i));
    } else {
        assert(text.take(i) =~= text);
    }
}

/// Whether a text is one or more decimal digits.
pub fn text_is_digits(text: &str) -> (r: bool)
    ensures
        r == is_digits(text@),
{
    let count: usize = text.unicode_len();
    let mut i: usize = 0;
    while i < count
        invariant
            i <= count,
            count == text@.len(),
            forall|k: int| 0 <= k < i ==> is_digit(#[trigger] text@[k]),
        decreases count - i,
    {
        let c = text.get_char(i);
        if c < '0' || c > '9' {
            assert(!is_digit(text@[i as int]));
            return false;
        }
        i = i + 1;
    }
    count > 0
}

/// The number of at most `max` that a text denotes.
pub fn parse_number(text: &str, max: u64) -> (r: Option<u64>)
    ensures
        match number_of(text@, max as nat) {
            Some(value) => r == Some(value as u64) && value <= max,
            None => r is None,
        },
{
    let count: usize = text.unicode_len();
    let start: usize = if count > 0 && text.get_char(0) == '+' { 1 } else { 0 };
    let rest = text.substring_char(start, count);
    proof {
        assert(text@.subrange(start as int, count as int) =~= unsigned(text@));
    }
    if !text_is_digits(rest) {
        return None;
    }
    let len: usize = count - start;
    let mut value: u64 = 0;
    let mut i: usize = 0;
    assert(rest@.take(0) =~= Seq::empty());
    while i < len
        invariant
            i <= len,
            len == rest@.len(),
            rest@ == unsigned(text@),
            is_digits(rest@),
            value == digits_value(rest@.take(i as int)),
            value <= max,
        decreases len - i,
    {
        let c = rest.get_char(i);
        proof {
            assert(is_digit(rest@[i as int]));
            assert(rest@.take(i + 1).drop_last() =~= rest@.take(i as int));
            assert(rest@.take(i + 1).last() == c);
            lemma_digits_grow(rest@, i + 1);
        }
        let digit: u64 = (c as u32 - '0' as u32) as u64;
        if value > max / 10 {
            return None;
        }
        let scaled: u64 = value * 10;
        if digit > max - scaled {
            return None;
        }
        value = scaled + digit;
        i = i + 1;
    }
    assert(rest@.take(i as int) =~= rest@);
    Some(value)
}

/// The digit as a text.
fn digit_text(digit: u64) -> (r: &'static str)
    requires
        digit < 10,
    ensures
        r@ == seq![digit_char(digit as nat)],
{
    proof {
        reveal_strlit("0");
        reveal_strlit("1");
        reveal_strlit("2");
        reveal_strlit("3");
        reveal_strlit("4");
        reveal_strlit("5");
        reveal_strlit("6");
        reveal_strlit("7");
        reveal_strlit("8");
        reveal_strlit("9");
    }
    let r = if digit == 0 {
        "0"
    } else if digit == 1 {
        "1"
    } else if digit == 2 {
        "2"
    } else if digit == 3 {
        "3"
    } else if digit == 4 {
        "4"
    } else if digit == 5 {
        "5"
    } else if digit == 6 {
        "6"
    } else if digit == 7 {
        "7"
    } else if digit == 8 {
        "8"
    } else {
        "9"
    };
    assert(r@ =~= seq![digit_char(digit as nat)]);
    r
}

/// The decimal digits of a number.
pub fn decimal_text(value: u64) -> (r: String)
    ensures
        r@ == decimal(value as nat),
    decreases value,
{
    let mut text = if value < 10 {
        String::new()
    } else {
        decimal_text(value / 10)
    };
    text.append(digit_text(value % 10));
    proof {
        if value < 10 {
            assert(text@ =~= decimal(value as nat));
        } else {
            assert(text@ =~= decimal(value as nat));
        }
    }
    text
}

/// One text after another.
pub fn concat(first: &str, second: &str) -> (r: String)
    ensures
        r@ == first@ + second@,
{
    let mut text = first.to_owned();
    text.append(second);
    text
}

} // verus!
