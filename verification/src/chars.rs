//! Character classification for the lexer.
//!
//! The classes the lexer distinguishes are white space, ASCII punctuation,
//! quote characters, alphabetic characters and numeric characters. The first
//! three are small, fully documented sets and are defined and implemented
//! here outright. Alphabetic and numeric membership beyond ASCII is a large
//! Unicode property; for those two the library leans on the standard
//! library's `char` methods and pins down only their documented ASCII and
//! white-space behaviour.

use vstd::prelude::*;

verus! {

/// Whether `c` is one of the two quote characters that delimit string
/// literals. Both quote styles are interchangeable.
pub open spec fn spec_is_quote(c: char) -> bool {
    c == '"' || c == '\''
}

/// Whether `c` delimits a string literal.
pub fn is_string_token(c: char) -> (r: bool)
    ensures
        r == spec_is_quote(c),
{
    c == '"' || c == '\''
}

/// The ASCII punctuation characters, exactly as the standard library
/// documents `char::is_ascii_punctuation`: U+0021..=U+002F, U+003A..=U+0040,
/// U+005B..=U+0060 and U+007B..=U+007E.
pub open spec fn spec_is_ascii_punctuation(c: char) -> bool {
    let u = c as u32;
    (0x21 <= u && u <= 0x2f) || (0x3a <= u && u <= 0x40) || (0x5b <= u && u <= 0x60) || (0x7b
        <= u && u <= 0x7e)
}

/// Whether `c` is an ASCII punctuation character.
pub fn is_ascii_punctuation_char(c: char) -> (r: bool)
    ensures
        r == spec_is_ascii_punctuation(c),
{
    let u = c as u32;
    (0x21 <= u && u <= 0x2f) || (0x3a <= u && u <= 0x40) || (0x5b <= u && u <= 0x60) || (0x7b
        <= u && u <= 0x7e)
}

/// The White_Space characters, exactly as the standard library documents
/// `char::is_whitespace`: the ASCII controls U+0009..=U+000D, the space, and
/// the further Unicode space and line separators.
pub open spec fn spec_is_whitespace(c: char) -> bool {
    let u = c as u32;
    (0x09 <= u && u <= 0x0d) || u == 0x20 || u == 0x85 || u == 0xa0 || u == 0x1680 || (0x2000
        <= u && u <= 0x200a) || u == 0x2028 || u == 0x2029 || u == 0x202f || u == 0x205f || u
        == 0x3000
}

/// Whether `c` is a white-space character.
pub fn is_whitespace_char(c: char) -> (r: bool)
    ensures
        r == spec_is_whitespace(c),
{
    let u = c as u32;
    (0x09 <= u && u <= 0x0d) || u == 0x20 || u == 0x85 || u == 0xa0 || u == 0x1680 || (0x2000
        <= u && u <= 0x200a) || u == 0x2028 || u == 0x2029 || u == 0x202f || u == 0x205f || u
        == 0x3000
}

/// Whether `c` is a decimal ASCII digit.
pub open spec fn spec_is_ascii_digit(c: char) -> bool {
    0x30 <= c as u32 && c as u32 <= 0x39
}

/// What `char::is_alphabetic` answers beyond ASCII.
pub uninterp spec fn alphabetic_outside_ascii(c: char) -> bool;

/// What `char::is_numeric` answers beyond ASCII and white space.
pub uninterp spec fn numeric_outside_ascii(c: char) -> bool;

/// Whether `c` counts as alphabetic: within ASCII exactly the letters, and
/// beyond ASCII whatever `char::is_alphabetic` answers.
pub open spec fn spec_is_alphabetic(c: char) -> bool {
    let u = c as u32;
    if (0x41 <= u && u <= 0x5a) || (0x61 <= u && u <= 0x7a) {
        true
    } else if u < 0x80 {
        false
    } else {
        alphabetic_outside_ascii(c)
    }
}

/// Whether `c` counts as numeric: within ASCII exactly the digits, never a
/// white-space character, and beyond those whatever `char::is_numeric`
/// answers.
pub open spec fn spec_is_numeric(c: char) -> bool {
    let u = c as u32;
    if 0x30 <= u && u <= 0x39 {
        true
    } else if u < 0x80 {
        false
    } else if spec_is_whitespace(c) {
        false
    } else {
        numeric_outside_ascii(c)
    }
}

/// Relies on `char::is_alphabetic`: within ASCII it accepts exactly the
/// letters, as its documentation states, and its answer is a fixed property
/// of the character.
#[verifier::external_body]
pub fn is_alphabetic_char(c: char) -> (r: bool)
    ensures
        r == spec_is_alphabetic(c),
        c as u32 >= 0x80 ==> r == alphabetic_outside_ascii(c),
{
    c.is_alphabetic()
}

/// Relies on `char::is_numeric`: within ASCII it accepts exactly the decimal
/// digits, it rejects every white-space character, and its answer is a fixed
/// property of the character.
#[verifier::external_body]
pub fn is_numeric_char(c: char) -> (r: bool)
    ensures
        r == spec_is_numeric(c),
        c as u32 >= 0x80 && !spec_is_whitespace(c) ==> r == numeric_outside_ascii(c),
{
    c.is_numeric()
}

} // verus!
