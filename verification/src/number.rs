//! Decimal numbers as they are written in a command.

use vstd::prelude::*;

verus! {

/// Whether `c` is one of the ten decimal digits.
pub open spec fn is_digit(c: char) -> bool {
    '0' <= c <= '9'
}

/// The value of the digit `c`.
pub open spec fn digit_value(c: char) -> nat {
    (c as nat - '0' as nat) as nat
}

/// The number that a run of digits denotes in base ten, the last digit
/// counting least.
pub open spec fn decimal_value(digits: Seq<char>) -> nat
    decreases digits.len(),
{
    if digits.len() == 0 {
        0
    } else {
        decimal_value(digits.drop_last()) * 10 + digit_value(digits.last())
    }
}

/// Whether `s` holds digits only.
pub open spec fn all_digits(s: Seq<char>) -> bool {
    forall|i: int| 0 <= i < s.len() ==> is_digit(#[trigger] s[i])
}

/// `s` without the plus sign that may lead it.
pub open spec fn unsigned_part(s: Seq<char>) -> Seq<char> {
    if s.len() > 0 && s.first() == '+' {
        s.drop_first()
    } else {
        s
    }
}

/// The number that `s` is read as: an optional plus sign followed by at
/// least one digit and nothing else, with a value that fits a `usize`.
/// Every other text is no number.
pub open spec fn parsed_number(s: Seq<char>) -> Option<usize> {
    let digits = unsigned_part(s);
    if digits.len() > 0 && all_digits(digits) && decimal_value(digits) <= usize::MAX {
        Some(decimal_value(digits) as usize)
    } else {
        None
    }
}

/// A run of digits is worth at least as much as any of its prefixes.
proof fn lemma_prefix_value(digits: Seq<char>, k: int)
    requires
        0 <= k <= digits.len(),
    ensures
        decimal_value(digits.take(k)) <= decimal_value(digits),
    decreases digits.len() - k,
{
    if k == digits.len() {
        assert(digits.take(k) == digits);
    } else {
        lemma_prefix_value(digits.drop_last(), k);
        assert(digits.drop_last().take(k) == digits.take(k));
    }
}

/// Reads `s` as a number, as `str::parse` does for a `usize`.
pub fn parse_number(s: &str) -> (number: Option<usize>)
    ensures
        number == parsed_number(s@),
{
    // The length bounds the count of the characters read.
    let n: usize = s.unicode_len();
    let mut value: usize = 0;
    let mut i: usize = 0;
    let mut signed = false;
    for c in it: s.chars()
        invariant
            it.seq() == s@,
            n == s@.len(),
            i == it.index(),
            signed <==> i > 0 && s@[0] == '+',
            all_digits(s@.subrange(if signed { 1int } else { 0 }, i as int)),
            value == decimal_value(s@.subrange(if signed { 1int } else { 0 }, i as int)),
    {
        let ghost from = if signed { 1int } else { 0 };
        let ghost read = s@.subrange(from, i as int);
        if i == 0 && c == '+' {
            signed = true;
        } else if c >= '0' && c <= '9' {
            let digit: usize = (c as u32 - '0' as u32) as usize;
            let ghost grown = s@.subrange(from, i + 1);
            assert(grown.drop_last() == read);
            if value > (usize::MAX - digit) / 10 {
                proof {
                    let digits = unsigned_part(s@);
                    assert(digits.take(i + 1 - from) == grown);
                    lemma_prefix_value(digits, i + 1 - from);
                }
                return None;
            }
            value = value * 10 + digit;
        } else {
            proof {
                let digits = unsigned_part(s@);
                assert(digits[i - from] == c);
            }
            return None;
        }
        i = i + 1;
    }
    let ghost from = if signed { 1int } else { 0 };
    assert(s@.subrange(from, n as int) == unsigned_part(s@));
    if (signed && i == 1) || i == 0 {
        None
    } else {
        Some(value)
    }
}

} // verus!
