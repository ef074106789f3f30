//! Decimal numbers as text.

use vstd::prelude::*;

use crate::text::{chars_of, is_digit};

verus! {

/// The value of an ASCII digit.
pub open spec fn digit_value(c: char) -> nat {
    (c as u32 - '0' as u32) as nat
}

/// The ASCII digit with a value below ten.
pub open spec fn digit_char(value: nat) -> char {
    ('0' as u32 + value) as char
}

/// Whether a text is made of one or more ASCII digits.
pub open spec fn is_numeral(text: Seq<char>) -> bool {
    text.len() > 0 && forall|i: int| 0 <= i < text.len() ==> is_digit(#[trigger] text[i])
}

/// The number that a row of digits stands for.
pub open spec fn numeral_value(text: Seq<char>) -> nat
    decreases text.len(),
{
    if text.len() == 0 {
        0
    } else {
        10 * numeral_value(text.drop_last()) + digit_value(text.last())
    }
}

/// The shortest row of digits that stands for a number.
pub open spec fn numeral(value: nat) -> Seq<char>
    decreases value,
{
    if value < 10 {
        seq![digit_char(value)]
    } else {
        numeral(value / 10).push(digit_char(value % 10))
    }
}

/// The digits of a number that may carry a plus sign.
pub open spec fn without_plus(text: Seq<char>) -> Seq<char> {
    if text.len() > 0 && text[0] == '+' {
        text.drop_first()
    } else {
        text
    }
}

/// The number that a text stands for: one or more digits, after a plus sign or
/// without one, with a value up to `limit`.
pub open spec fn parsed(text: Seq<char>, limit: nat) -> Option<nat> {
    let digits = without_plus(text);
    if is_numeral(digits) && numeral_value(digits) <= limit {
        Some(numeral_value(digits))
    } else {
        None
    }
}

/// More digits never make a number smaller.
proof fn lemma_numeral_value_grows(text: Seq<char>, k: int)
    requires
        0 <= k <= text.len(),
    ensures
        numeral_value(text.take(k)) <= numeral_value(text),
    decreases text.len() - k,
{
    if k == text.len() {
        assert(text.take(k) =~= text);
    } else {
        lemma_numeral_value_grows(text, k + 1);
        assert(text.take(k + 1).drop_last() =~= text.take(k));
    }
}

/// A number written in decimal is read back as that number, if it is within
/// the limit.
pub proof fn law_numeral_reads_back(value: nat, limit: nat)
    requires
        value <= limit,
    ensures
        parsed(numeral(value), limit) == Some(value),
{
    lemma_numeral(value);
    assert(without_plus(numeral(value)) == numeral(value));
}

proof fn lemma_numeral(value: nat)
    ensures
        is_numeral(numeral(value)),
        numeral_value(numeral(value)) == value,
    decreases value,
{
    if value < 10 {
        let digits = seq![digit_char(value)];
        assert(digits.drop_last() =~= seq![]);
        assert(numeral_value(digits.drop_last()) == 0);
        assert(digits.last() == digit_char(value));
    } else {
        lemma_numeral(value / 10);
        let front = numeral(value / 10);
        let digits = front.push(digit_char(value % 10));
        assert(digits.drop_last() =~= front);
        assert(is_digit(digit_char(value % 10)));
        assert forall|i: int| 0 <= i < digits.len() implies is_digit(#[trigger] digits[i]) by {
            if i < front.len() {
                assert(digits[i] == front[i]);
            }
        }
    }
}

/// Reads a number up to `limit`.
fn parse_number(text: &str, limit: u64) -> (value: Option<u64>)
    ensures
        match value {
            Some(value) => parsed(text@, limit as nat) == Some(value as nat),
            None => parsed(text@, limit as nat) is None,
        },
{
    let chars = chars_of(text);
    let ghost digits = without_plus(chars@);
    let start: usize = if chars.len() > 0 && chars[0] == '+' {
        1
    } else {
        0
    };
    assert(digits =~= chars@.skip(start as int));
    if start == chars.len() {
        return None;
    }
    let mut value: u64 = 0;
    let mut i: usize = start;
    assert(digits.take(0) =~= seq![]);
    while i < chars.len()
        invariant
            start <= i <= chars@.len(),
            digits == chars@.skip(start as int),
            digits == without_plus(text@),
            value <= limit,
            value == numeral_value(digits.take(i - start)),
            forall|k: int| 0 <= k < i - start ==> is_digit(#[trigger] digits[k]),
        decreases chars@.len() - i,
    {
        let c = chars[i];
        assert(digits[i - start] == c);
        if !('0' <= c && c <= '9') {
            return None;
        }
        let digit: u64 = c as u64 - 48;
        assert(digits.take(i - start + 1).drop_last() =~= digits.take(i - start));
        assert(numeral_value(digits.take(i - start + 1)) == 10 * value + digit);
        proof {
            lemma_numeral_value_grows(digits, i - start + 1);
        }
        let next: u128 = value as u128 * 10 + digit as u128;
        if next > limit as u128 {
            return None;
        }
        value = next as u64;
        i += 1;
    }
    assert(digits.take(i - start) =~= digits);
    Some(value)
}

/// Reads a number that fits in 32 bits.
pub fn parse_u32(text: &str) -> (value: Option<u32>)
    ensures
        match value {
            Some(value) => parsed(text@, u32::MAX as nat) == Some(value as nat),
            None => parsed(text@, u32::MAX as nat) is None,
        },
{
    match parse_number(text, u32::MAX as u64) {
        Some(value) => Some(value as u32),
        None => None,
    }
}

/// Reads a number that fits in an index.
pub fn parse_usize(text: &str) -> (value: Option<usize>)
    ensures
        match value {
            Some(value) => parsed(text@, usize::MAX as nat) == Some(value as nat),
            None => parsed(text@, usize::MAX as nat) is None,
        },
{
    match parse_number(text, usize::MAX as u64) {
        Some(value) => Some(value as usize),
        None => None,
    }
}

/// Writes a number in decimal.
pub fn write_number(value: u64) -> (text: String)
    ensures
        text@ == numeral(value as nat),
    decreases value,
{
    let mut text = if value < 10 {
        String::new()
    } else {
        write_number(value / 10)
    };
    text.push((48 + (value % 10) as u8) as char);
    assert(text@ =~= numeral(value as nat));
    text
}

} // verus!
