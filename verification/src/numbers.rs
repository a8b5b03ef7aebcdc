//! Reading a numeric literal's text as a decimal signed 32-bit integer.
//!
//! The lexer's numeric buffer may pick up characters that are no ASCII
//! digits (other Unicode digits, or characters absorbed before the digit run
//! began). Such a buffer, like one whose value exceeds the 32-bit signed
//! range, does not read as a number, and the whole capture run fails on it.

use vstd::prelude::*;
use vstd::string::*;

use crate::chars::spec_is_ascii_digit;

verus! {

/// The value of one decimal ASCII digit.
pub open spec fn spec_digit_value(c: char) -> int {
    c as u32 - 0x30
}

/// Whether every character of `s` is a decimal ASCII digit.
pub open spec fn spec_all_digits(s: Seq<char>) -> bool {
    forall|j: int| 0 <= j < s.len() ==> spec_is_ascii_digit(#[trigger] s[j])
}

/// The value of a digit string, most significant digit first.
pub open spec fn spec_digits_value(s: Seq<char>) -> int
    decreases s.len(),
{
    if s.len() == 0 {
        0
    } else {
        spec_digits_value(s.drop_last()) * 10 + spec_digit_value(s.last())
    }
}

/// What a buffer reads as: its value, when it is a non-empty run of decimal
/// ASCII digits within the 32-bit signed range, and nothing otherwise.
pub open spec fn spec_parse_i32(s: Seq<char>) -> Option<i32> {
    if s.len() > 0 && spec_all_digits(s) && spec_digits_value(s) <= i32::MAX {
        Some(spec_digits_value(s) as i32)
    } else {
        None
    }
}

/// A digit string's value is never negative.
pub proof fn lemma_digits_value_nonneg(s: Seq<char>)
    requires
        spec_all_digits(s),
    ensures
        spec_digits_value(s) >= 0,
    decreases s.len(),
{
    if s.len() > 0 {
        assert(spec_all_digits(s.drop_last())) by {
            assert(forall|j: int|
                0 <= j < s.len() - 1 ==> s.drop_last()[j] == #[trigger] s[j]);
        }
        lemma_digits_value_nonneg(s.drop_last());
    }
}

/// Reads `text` as a decimal signed 32-bit integer, exactly as
/// `spec_parse_i32` describes.
pub fn parse_number(text: &String) -> (r: Option<i32>)
    ensures
        r == spec_parse_i32(text@),
{
    let s = text.as_str();
    let n = s.unicode_len();
    if n == 0 {
        return None;
    }
    let mut value: u64 = 0;
    let mut overflow: bool = false;
    let mut k: usize = 0;
    while k < n
        invariant
            k <= n,
            n == text@.len(),
            s@ == text@,
            spec_all_digits(text@.subrange(0, k as int)),
            !overflow ==> value == spec_digits_value(text@.subrange(0, k as int)) && value
                <= i32::MAX,
            overflow ==> spec_digits_value(text@.subrange(0, k as int)) > i32::MAX,
        decreases n - k,
    {
        let c = s.get_char(k);
        let u = c as u32;
        if u < 0x30 || u > 0x39 {
            assert(!spec_is_ascii_digit(text@[k as int]));
            return None;
        }
        let d: u64 = (u - 0x30) as u64;
        let ghost prefix = text@.subrange(0, k as int);
        let ghost extended = text@.subrange(0, k as int + 1);
        proof {
            assert(extended =~= prefix.push(text@[k as int]));
            assert(extended.drop_last() =~= prefix);
            lemma_digits_value_nonneg(prefix);
        }
        if !overflow {
            let next = value * 10 + d;
            if next > 0x7fff_ffff {
                overflow = true;
            } else {
                value = next;
            }
        } else {
            proof {
                assert(spec_digits_value(extended) == spec_digits_value(prefix) * 10
                    + spec_digit_value(text@[k as int]));
                assert(spec_digits_value(prefix) * 10 >= spec_digits_value(prefix));
            }
        }
        k += 1;
    }
    proof {
        assert(text@.subrange(0, n as int) =~= text@);
    }
    if overflow {
        None
    } else {
        Some(value as i32)
    }
}

} // verus!
