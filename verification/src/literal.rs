//! The values of numeric lexemes.

use crate::text::{chars_of, is_digit};
use vstd::prelude::*;

verus! {

/// The number that a decimal digit stands for.
pub open spec fn digit_value(c: char) -> nat {
    (c as int - '0' as int) as nat
}

/// The number that a run of decimal digits reads as; the empty run reads as 0.
pub open spec fn decimal_value(digits: Seq<char>) -> nat
    decreases digits.len(),
{
    if digits.len() == 0 {
        0
    } else {
        10 * decimal_value(digits.drop_last()) + digit_value(digits.last())
    }
}

/// Every character of `text` is a decimal digit.
pub open spec fn all_digits(text: Seq<char>) -> bool {
    forall|i: int| 0 <= i < text.len() ==> is_digit(#[trigger] text[i])
}

/// The value of an integer lexeme: `text` is one or more decimal digits and
/// reads as a number that a signed 64-bit integer holds.
pub open spec fn int_literal(text: Seq<char>) -> Option<i64> {
    if text.len() > 0 && all_digits(text) && decimal_value(text) <= i64::MAX {
        Some(decimal_value(text) as i64)
    } else {
        None
    }
}

/// The shape of a decimal lexeme: exactly one point, which is not the first
/// character, and decimal digits everywhere else.
pub open spec fn float_literal(text: Seq<char>) -> bool {
    exists|dot: int| is_point_of(text, dot)
}

/// `dot` is the index of the one point of the decimal lexeme `text`.
pub open spec fn is_point_of(text: Seq<char>, dot: int) -> bool {
    &&& 0 < dot < text.len()
    &&& text[dot] == '.'
    &&& forall|i: int| 0 <= i < text.len() && i != dot ==> is_digit(#[trigger] text[i])
}

/// A run of digits reads as no less than any of its prefixes.
pub proof fn lemma_decimal_value_grows(digits: Seq<char>, n: int)
    requires
        0 <= n <= digits.len(),
    ensures
        decimal_value(digits.take(n)) <= decimal_value(digits),
    decreases digits.len(),
{
    if n == digits.len() {
        assert(digits.take(n) =~= digits);
    } else {
        assert(digits.drop_last().take(n) =~= digits.take(n));
        lemma_decimal_value_grows(digits.drop_last(), n);
    }
}

/// The value of the integer lexeme `text`, if it is one.
pub fn int_value(text: &str) -> (value: Option<i64>)
    ensures
        value == int_literal(text@),
{
    let chars = chars_of(text);
    let n: usize = chars.len();
    if n == 0 {
        return None;
    }
    let mut acc: i64 = 0;
    let mut i: usize = 0;
    while i < n
        invariant
            i <= n,
            n == chars@.len(),
            chars@ == text@,
            all_digits(chars@.take(i as int)),
            0 <= acc,
            acc == decimal_value(chars@.take(i as int)),
        decreases n - i,
    {
        let c: char = chars[i];
        let ghost next = chars@.take(i + 1);
        assert(next.drop_last() =~= chars@.take(i as int));
        if !(c >= '0' && c <= '9') {
            return None;
        }
        let d: i64 = ((c as u32) - ('0' as u32)) as i64;
        if acc > (i64::MAX - d) / 10 {
            proof {
                lemma_decimal_value_grows(chars@, i + 1);
            }
            return None;
        }
        acc = acc * 10 + d;
        i = i + 1;
        assert(all_digits(next));
    }
    assert(chars@.take(n as int) =~= chars@);
    Some(acc)
}

/// Whether `text` has the shape of a decimal lexeme.
pub fn is_float(text: &str) -> (shaped: bool)
    ensures
        shaped == float_literal(text@),
{
    let chars = chars_of(text);
    let n: usize = chars.len();
    let mut seen: bool = false;
    let mut dot: usize = 0;
    let mut i: usize = 0;
    while i < n
        invariant
            i <= n,
            n == chars@.len(),
            chars@ == text@,
            seen ==> 0 < dot < i && chars@[dot as int] == '.',
            forall|k: int| 0 <= k < i && !(seen && k == dot) ==> is_digit(#[trigger] chars@[k]),
        decreases n - i,
    {
        let c: char = chars[i];
        if !(c >= '0' && c <= '9') {
            if c == '.' && !seen && i > 0 {
                seen = true;
                dot = i;
            } else {
                return false;
            }
        }
        i = i + 1;
    }
    if seen {
        assert(is_point_of(chars@, dot as int));
    }
    seen
}

} // verus!
