//! Unsigned integers written as text in a given radix.

use vstd::prelude::*;
use vstd::string::*;

verus! {

/// The value of `c` as a digit: `0`-`9` stand for 0 to 9, and the letters
/// `a`-`z` and `A`-`Z` for 10 to 35. Every other character has no value.
pub open spec fn digit_value(c: char) -> Option<nat> {
    if '0' <= c <= '9' {
        Some((c as int - '0' as int) as nat)
    } else if 'a' <= c <= 'z' {
        Some((c as int - 'a' as int + 10) as nat)
    } else if 'A' <= c <= 'Z' {
        Some((c as int - 'A' as int + 10) as nat)
    } else {
        None
    }
}

/// Whether `c` is a digit of `radix`.
pub open spec fn is_digit(c: char, radix: nat) -> bool {
    digit_value(c) matches Some(d) && d < radix
}

/// The number that a run of digits of `radix` denotes, most significant digit
/// first. Only meaningful when every character is a digit of `radix`.
pub open spec fn digits_value(digits: Seq<char>, radix: nat) -> nat
    decreases digits.len(),
{
    if digits.len() == 0 {
        0
    } else {
        digits_value(digits.drop_last(), radix) * radix + digit_value(digits.last()).unwrap()
    }
}

/// The digits of a numeral: the text without its optional leading `+`.
pub open spec fn numeral_digits(text: Seq<char>) -> Seq<char> {
    if text.len() > 0 && text[0] == '+' {
        text.drop_first()
    } else {
        text
    }
}

/// The `u64` that `text` denotes in `radix`, if any: an optional `+`, then one
/// or more digits of `radix` and nothing else, whose value fits in 64 bits.
pub open spec fn unsigned_value(text: Seq<char>, radix: nat) -> Option<u64> {
    let digits = numeral_digits(text);
    let all_digits = forall|i: int|
        0 <= i < digits.len() ==> is_digit(#[trigger] digits[i], radix);
    if digits.len() > 0 && all_digits && digits_value(digits, radix) <= u64::MAX {
        Some(digits_value(digits, radix) as u64)
    } else {
        None
    }
}

/// A longer run of digits never denotes less than one of its prefixes.
pub proof fn lemma_digits_value_monotonic(digits: Seq<char>, radix: nat, k: int)
    requires
        radix >= 1,
        0 <= k <= digits.len(),
    ensures
        digits_value(digits.take(k), radix) <= digits_value(digits, radix),
    decreases digits.len(),
{
    if k == digits.len() {
        assert(digits.take(k) =~= digits);
    } else {
        let shorter = digits.drop_last();
        lemma_digits_value_monotonic(shorter, radix, k);
        assert(shorter.take(k) =~= digits.take(k));
        let value = digits_value(shorter, radix);
        assert(value <= value * radix) by (nonlinear_arith)
            requires
                radix >= 1,
        ;
    }
}

/// The value of an ASCII byte as a digit, if it has one.
fn digit_of_byte(b: u8) -> (r: Option<u8>)
    ensures
        match r {
            Some(d) => d < 36 && digit_value(b as char) == Some(d as nat),
            None => digit_value(b as char) is None,
        },
{
    if 48 <= b && b <= 57 {
        Some(b - 48)
    } else if 97 <= b && b <= 122 {
        Some(b - 97 + 10)
    } else if 65 <= b && b <= 90 {
        Some(b - 65 + 10)
    } else {
        None
    }
}

/// Reads `text` as an unsigned integer in `radix`.
pub fn parse_unsigned(text: &str, radix: u8) -> (r: Option<u64>)
    requires
        2 <= radix <= 36,
    ensures
        r == unsigned_value(text@, radix as nat),
{
    broadcast use is_ascii_spec_bytes;

    let ghost digits = numeral_digits(text@);
    if !text.is_ascii() {
        proof {
            let i = choose|i: int|
                0 <= i < text@.len() && !('\0' <= #[trigger] text@[i] <= '\u{7f}');
            if text@[0] == '+' {
                assert(digits[i - 1] == text@[i]);
            } else {
                assert(digits[i] == text@[i]);
            }
        }
        return None;
    }
    let bytes = text.as_bytes();
    let n = bytes.len();
    let start: usize = if n > 0 && bytes[0] == 43 { 1 } else { 0 };
    assert(digits =~= text@.subrange(start as int, n as int));
    if start == n {
        return None;
    }
    let mut acc: u64 = 0;
    let mut i: usize = start;
    while i < n
        invariant
            2 <= radix <= 36,
            start <= i <= n,
            n == text@.len(),
            is_ascii(text),
            bytes@ == text.spec_bytes(),
            digits == numeral_digits(text@),
            digits == text@.subrange(start as int, n as int),
            forall|j: int| 0 <= j < i - start ==> is_digit(#[trigger] digits[j], radix as nat),
            digits_value(digits.take(i - start), radix as nat) == acc,
        decreases n - i,
    {
        let ghost k = i - start;
        let b = bytes[i];
        assert(digits[k] == text@[i as int]);
        assert(b == text@[i as int] as u8);
        assert(b as char == text@[i as int]);
        assert(digits.take(k + 1).drop_last() =~= digits.take(k));
        assert(digits.take(k + 1).last() == digits[k]);
        let d = match digit_of_byte(b) {
            Some(d) => d,
            None => {
                return None;
            },
        };
        if d >= radix {
            return None;
        }
        let next = match acc.checked_mul(radix as u64) {
            Some(m) => m.checked_add(d as u64),
            None => None,
        };
        match next {
            Some(v) => {
                acc = v;
            },
            None => {
                proof {
                    lemma_digits_value_monotonic(digits, radix as nat, k + 1);
                }
                return None;
            },
        }
        i += 1;
    }
    assert(digits.take(n - start) =~= digits);
    Some(acc)
}

} // verus!
