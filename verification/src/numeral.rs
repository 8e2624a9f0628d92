//! Decimal numerals: how a number is written, and how it is read.

use crate::text::{chain, to_chars};
use vstd::prelude::*;

verus! {

/// The decimal digit character for `d`, where `0 <= d <= 9`.
pub open spec fn digit_char(d: int) -> char {
    if d == 0 {
        '0'
    } else if d == 1 {
        '1'
    } else if d == 2 {
        '2'
    } else if d == 3 {
        '3'
    } else if d == 4 {
        '4'
    } else if d == 5 {
        '5'
    } else if d == 6 {
        '6'
    } else if d == 7 {
        '7'
    } else if d == 8 {
        '8'
    } else {
        '9'
    }
}

/// The decimal numeral of `n`, most significant digit first, without leading
/// zeros (`0` is written as the single digit `0`).
pub open spec fn decimal(n: nat) -> Seq<char>
    decreases n,
{
    if n < 10 {
        seq![digit_char(n as int)]
    } else {
        decimal(n / 10).push(digit_char((n % 10) as int))
    }
}

/// The one-character string of the decimal digit `d`.
fn digit_string(d: u64) -> (s: String)
    requires
        d < 10,
    ensures
        s@ == seq![digit_char(d as int)],
{
    proof {
        reveal_strlit("0");
        reveal_strlit("1");
        reveal_strlit("2");
        reveal_strlit("3");
        reveal_strlit("4");
        reveal_strlit("5");
        reveal_strlit("6");
        reveal_strlit("7");
        reveal_strlit("8");
        reveal_strlit("9");
    }
    let lit: &str = if d == 0 {
        "0"
    } else if d == 1 {
        "1"
    } else if d == 2 {
        "2"
    } else if d == 3 {
        "3"
    } else if d == 4 {
        "4"
    } else if d == 5 {
        "5"
    } else if d == 6 {
        "6"
    } else if d == 7 {
        "7"
    } else if d == 8 {
        "8"
    } else {
        "9"
    };
    assert(lit@ =~= seq![digit_char(d as int)]);
    lit.to_owned()
}

/// The decimal numeral of `n`.
pub fn decimal_string(n: u64) -> (s: String)
    ensures
        s@ == decimal(n as nat),
{
    let mut s: String = digit_string(n % 10);
    let mut rest: u64 = n / 10;
    while rest > 0
        invariant
            rest > 0 ==> decimal(n as nat) == decimal(rest as nat) + s@,
            rest == 0 ==> decimal(n as nat) == s@,
        decreases rest,
    {
        let digit: String = digit_string(rest % 10);
        proof {
            let r = rest as nat;
            if r >= 10 {
                assert(decimal(r) + s@ =~= decimal(r / 10) + (seq![digit_char((r % 10) as int)]
                    + s@));
            } else {
                assert((r / 10) as u64 == 0);
                assert(decimal(r) + s@ =~= seq![digit_char((r % 10) as int)] + s@);
            }
        }
        s = chain(digit.as_str(), s.as_str());
        rest = rest / 10;
    }
    s
}

/// The value of the decimal digit `c`, where it is one.
pub open spec fn digit_value(c: char) -> Option<nat> {
    if 48 <= c as u32 <= 57 {
        Some((c as u32 - 48) as nat)
    } else {
        None
    }
}

/// The number that `digits` write in decimal, where every one of them is a
/// decimal digit. No digits write zero.
pub open spec fn digits_value(digits: Seq<char>) -> Option<nat>
    decreases digits.len(),
{
    if digits.len() == 0 {
        Some(0)
    } else {
        match (digits_value(digits.drop_last()), digit_value(digits.last())) {
            (Some(high), Some(low)) => Some(high * 10 + low),
            _ => None,
        }
    }
}

/// What remains of `text` after a plus sign at its start, if it has one.
pub open spec fn unsigned_part(text: Seq<char>) -> Seq<char> {
    if text.len() > 0 && text[0] == '+' {
        text.skip(1)
    } else {
        text
    }
}

/// The number below 256 that `text` writes: at least one decimal digit and
/// nothing else, but for a plus sign that may stand in front.
pub open spec fn parse_u8_spec(text: Seq<char>) -> Option<u8> {
    let digits = unsigned_part(text);
    match digits_value(digits) {
        Some(value) => if digits.len() > 0 && value <= 255 {
            Some(value as u8)
        } else {
            None
        },
        None => None,
    }
}

/// Where `digits` write a number, each of their prefixes writes one that is
/// not greater, and each of them is a digit.
proof fn lemma_digits_prefix(digits: Seq<char>, i: int)
    requires
        0 <= i <= digits.len(),
        digits_value(digits) is Some,
    ensures
        digits_value(digits.take(i)) is Some,
        digits_value(digits.take(i))->0 <= digits_value(digits)->0,
        i < digits.len() ==> digit_value(digits[i]) is Some,
    decreases digits.len() - i,
{
    if i == digits.len() {
        assert(digits.take(i) =~= digits);
    } else {
        let shorter = digits.drop_last();
        assert(shorter.take(i) =~= digits.take(i));
        if i < shorter.len() {
            assert(shorter[i] == digits[i]);
        }
        lemma_digits_prefix(shorter, i);
    }
}

/// Reads a number below 256 from its decimal numeral.
pub fn parse_u8(text: &str) -> (parsed: Option<u8>)
    ensures
        parsed == parse_u8_spec(text@),
{
    let chars: Vec<char> = to_chars(text);
    let len: usize = chars.len();
    let first: usize = if len > 0 && chars[0] == '+' {
        1
    } else {
        0
    };
    if first == len {
        return None;
    }
    let ghost digits = unsigned_part(text@);
    proof {
        assert(digits =~= chars@.skip(first as int));
        assert(digits.take(0) =~= Seq::<char>::empty());
    }
    let mut value: u32 = 0;
    let mut i: usize = first;
    while i < len
        invariant
            first <= i <= len,
            len == chars.len(),
            digits == chars@.skip(first as int),
            digits == unsigned_part(text@),
            digits.len() == len - first,
            digits_value(digits.take(i - first)) == Some(value as nat),
            value <= 255,
        decreases len - i,
    {
        let code: u32 = chars[i] as u32;
        let ghost upto = digits.take(i - first + 1);
        proof {
            assert(upto.drop_last() =~= digits.take(i - first));
            assert(upto.last() == chars@[i as int]);
            assert(digits[i - first] == chars@[i as int]);
            if digits_value(digits) is Some {
                lemma_digits_prefix(digits, i - first + 1);
                lemma_digits_prefix(digits, i - first);
            }
        }
        if code < 48 || code > 57 {
            return None;
        }
        let next: u32 = value * 10 + (code - 48);
        if next > 255 {
            return None;
        }
        value = next;
        i = i + 1;
    }
    proof {
        assert(digits.take(len - first) =~= digits);
    }
    Some(value as u8)
}

} // verus!
