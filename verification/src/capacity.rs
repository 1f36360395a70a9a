//! Reading the bound on memoized values that a query declares.

use vstd::prelude::*;
use vstd::string::StrSliceExecFns;

verus! {

/// Whether `c` is a decimal digit.
pub open spec fn is_digit(c: char) -> bool {
    '0' <= c && c <= '9'
}

/// The number that the decimal digit `c` stands for.
pub open spec fn digit_value(c: char) -> nat
    recommends
        is_digit(c),
{
    (c as u32 - '0' as u32) as nat
}

/// Whether `digits` is made of decimal digits only.
pub open spec fn all_digits(digits: Seq<char>) -> bool {
    forall|i: int| 0 <= i < digits.len() ==> is_digit(#[trigger] digits[i])
}

/// The number that the decimal digits `digits` write.
pub open spec fn decimal(digits: Seq<char>) -> nat
    decreases digits.len(),
{
    if digits.len() == 0 {
        0
    } else {
        decimal(digits.drop_last()) * 10 + digit_value(digits.last())
    }
}

/// `text` without the parentheses around it, if it has any.
pub open spec fn unwrapped(text: Seq<char>) -> Seq<char> {
    if text.len() >= 2 && text[0] == '(' && text.last() == ')' {
        text.subrange(1, text.len() - 1)
    } else {
        text
    }
}

/// The bound that `text` declares: `text` is to be a decimal number, with or
/// without parentheses around it, that fits in 32 bits.
pub open spec fn capacity_of(text: Seq<char>) -> Option<nat> {
    let digits = unwrapped(text);
    if digits.len() > 0 && all_digits(digits) && decimal(digits) <= u32::MAX {
        Some(decimal(digits))
    } else {
        None
    }
}

/// A number written with more digits is no smaller than the number written
/// with the first of them.
pub proof fn lemma_decimal_grows(digits: Seq<char>, n: int)
    requires
        0 <= n <= digits.len(),
    ensures
        decimal(digits.take(n)) <= decimal(digits),
    decreases digits.len() - n,
{
    if n < digits.len() {
        lemma_decimal_grows(digits, n + 1);
        assert(digits.take(n + 1).drop_last() =~= digits.take(n));
    } else {
        assert(digits.take(n) =~= digits);
    }
}

/// Reads the bound on memoized values that `text` declares; `None` if `text`
/// is not a decimal number, with or without parentheses around it, or the
/// number does not fit in 32 bits.
pub fn parse_capacity(text: &str) -> (capacity: Option<u32>)
    ensures
        match capacity {
            Some(n) => capacity_of(text@) == Some(n as nat),
            None => capacity_of(text@) is None,
        },
{
    let len = text.unicode_len();
    let mut start: usize = 0;
    let mut end: usize = len;
    if len >= 2 && text.get_char(0) == '(' && text.get_char(len - 1) == ')' {
        start = 1;
        end = len - 1;
    }
    let ghost digits = text@.subrange(start as int, end as int);
    assert(digits =~= unwrapped(text@));
    if start == end {
        return None;
    }
    let mut value: u64 = 0;
    let mut i: usize = start;
    assert(digits.take(0) =~= Seq::<char>::empty());
    while i < end
        invariant
            start <= i <= end <= len,
            len == text@.len(),
            digits == text@.subrange(start as int, end as int),
            digits == unwrapped(text@),
            all_digits(digits.take(i - start)),
            value == decimal(digits.take(i - start)),
            value <= u32::MAX,
        decreases end - i,
    {
        let c = text.get_char(i);
        let ghost seen = digits.take(i - start);
        let ghost next = digits.take(i - start + 1);
        proof {
            assert(next.drop_last() =~= seen);
            assert(next.last() == c);
        }
        if !('0' <= c && c <= '9') {
            assert(!is_digit(digits[i - start]));
            return None;
        }
        let digit = (c as u32 - '0' as u32) as u64;
        value = value * 10 + digit;
        proof {
            assert(value == decimal(next));
            assert forall|j: int| 0 <= j < next.len() implies is_digit(#[trigger] next[j]) by {
                if j < seen.len() {
                    assert(seen[j] == next[j]);
                }
            }
        }
        if value > 0xffff_ffff {
            proof {
                lemma_decimal_grows(digits, i - start + 1);
            }
            return None;
        }
        i += 1;
    }
    assert(digits.take(end - start) =~= digits);
    Some(value as u32)
}

} // verus!
