//! Reading the extra-padding setting: an unsigned decimal number, where
//! anything that is not one counts as zero.

use vstd::prelude::*;
use vstd::string::StringSliceAdditionalSpecFns;

verus! {

/// Whether `b` is an ASCII decimal digit.
pub open spec fn is_digit(b: u8) -> bool {
    48 <= b <= 57
}

/// Whether every byte of `s` is an ASCII decimal digit.
pub open spec fn all_digits(s: Seq<u8>) -> bool {
    forall|i: int| 0 <= i < s.len() ==> is_digit(#[trigger] s[i])
}

/// The number that a run of decimal digits denotes, most significant first.
pub open spec fn decimal_value(digits: Seq<u8>) -> nat
    decreases digits.len(),
{
    if digits.len() == 0 {
        0
    } else {
        decimal_value(digits.drop_last()) * 10 + (digits.last() - 48) as nat
    }
}

/// The text without its optional leading plus sign.
pub open spec fn unsigned_part(text: Seq<u8>) -> Seq<u8> {
    if text.len() > 0 && text[0] == 43 {
        text.skip(1)
    } else {
        text
    }
}

/// The number that `text` denotes: an optional plus sign, then at least one
/// decimal digit and nothing else, with a value that fits in a machine word.
pub open spec fn spec_parse_decimal(text: Seq<u8>) -> Option<usize> {
    let digits = unsigned_part(text);
    if digits.len() > 0 && all_digits(digits) && decimal_value(digits) <= usize::MAX {
        Some(decimal_value(digits) as usize)
    } else {
        None
    }
}

/// The padding that a setting stands for: its number where it is present and
/// well formed, zero otherwise.
pub open spec fn spec_extra_memory(text: Option<Seq<u8>>) -> usize {
    match text {
        Some(t) => match spec_parse_decimal(t) {
            Some(n) => n,
            None => 0,
        },
        None => 0,
    }
}

/// A run of digits denotes at least as much as any of its prefixes.
pub proof fn lemma_decimal_value_monotone(digits: Seq<u8>, k: int)
    requires
        0 <= k <= digits.len(),
        all_digits(digits),
    ensures
        decimal_value(digits.subrange(0, k)) <= decimal_value(digits),
    decreases digits.len() - k,
{
    if k == digits.len() {
        assert(digits.subrange(0, k) =~= digits);
    } else {
        lemma_decimal_value_monotone(digits, k + 1);
        let longer = digits.subrange(0, k + 1);
        assert(longer.drop_last() =~= digits.subrange(0, k));
        assert(is_digit(digits[k]));
        assert(longer.last() == digits[k]);
    }
}

/// Parses an unsigned decimal number. Returns `None` for an empty text, a
/// lone sign, any byte that is not a digit, and a value too large for a
/// machine word.
pub fn parse_decimal(text: &[u8]) -> (value: Option<usize>)
    ensures
        value == spec_parse_decimal(text@),
{
    let n: usize = text.len();
    let start: usize = if n > 0 && text[0] == 43 {
        1
    } else {
        0
    };
    let ghost digits = unsigned_part(text@);
    assert(digits =~= text@.subrange(start as int, n as int));
    if start == n {
        return None;
    }
    let mut acc: usize = 0;
    let mut i: usize = start;
    while i < n
        invariant
            start <= i <= n,
            n == text@.len(),
            digits == unsigned_part(text@),
            digits == text@.subrange(start as int, n as int),
            all_digits(digits.subrange(0, i - start)),
            acc == decimal_value(digits.subrange(0, i - start)),
        decreases n - i,
    {
        let b: u8 = text[i];
        let ghost seen = digits.subrange(0, i - start);
        let ghost longer = digits.subrange(0, i - start + 1);
        proof {
            assert(longer.drop_last() =~= seen);
            assert(longer.last() == b);
        }
        if b < 48 || b > 57 {
            assert(digits[i - start] == b);
            assert(!is_digit(digits[i - start]));
            return None;
        }
        assert(all_digits(longer)) by {
            assert forall|j: int| 0 <= j < longer.len() implies is_digit(#[trigger] longer[j]) by {
                if j < seen.len() {
                    assert(longer[j] == seen[j]);
                }
            }
        }
        let digit: usize = (b - 48) as usize;
        let next: Option<usize> = match acc.checked_mul(10) {
            Some(tens) => tens.checked_add(digit),
            None => None,
        };
        match next {
            Some(v) => {
                acc = v;
            },
            None => {
                proof {
                    assert(decimal_value(longer) > usize::MAX);
                    if all_digits(digits) {
                        lemma_decimal_value_monotone(digits, i - start + 1);
                    }
                }
                return None;
            },
        }
        i = i + 1;
    }
    assert(digits.subrange(0, n - start) =~= digits);
    Some(acc)
}

/// Reads the extra-padding setting: the number it holds, or zero where the
/// setting is absent or does not parse.
pub fn extra_memory(text: Option<&str>) -> (extra: usize)
    ensures
        extra == spec_extra_memory(
            match text {
                Some(t) => Some(t.spec_bytes()),
                None => None,
            },
        ),
{
    match text {
        Some(t) => match parse_decimal(t.as_bytes()) {
            Some(n) => n,
            None => 0,
        },
        None => 0,
    }
}

} // verus!
