//! Laws the lexer obeys, stated over its mathematical model and proved once
//! and for all.

use vstd::prelude::*;

use crate::chars::{
    spec_is_alphabetic, spec_is_ascii_digit, spec_is_ascii_punctuation, spec_is_numeric,
    spec_is_quote, spec_is_whitespace,
};
use crate::model::{spec_capture, spec_capture_token, spec_classify, spec_scan, Mode, ScanStep};
use crate::numbers::{spec_all_digits, spec_digits_value, spec_parse_i32};
use crate::token::SpecToken;
use crate::tokenizer::Tokenizer;

verus! {

/// An input of nothing but white space yields the empty token sequence.
pub proof fn lemma_whitespace_yields_no_tokens(s: Seq<char>)
    requires
        forall|j: int| 0 <= j < s.len() ==> spec_is_whitespace(#[trigger] s[j]),
    ensures
        spec_capture(s, 0) == Some(Seq::<SpecToken>::empty()),
{
    lemma_whitespace_tail(s, 0);
}

proof fn lemma_whitespace_tail(s: Seq<char>, i: int)
    requires
        0 <= i <= s.len(),
        forall|j: int| 0 <= j < s.len() ==> spec_is_whitespace(#[trigger] s[j]),
    ensures
        spec_capture(s, i) == Some(Seq::<SpecToken>::empty()),
    decreases s.len() - i,
{
    if i < s.len() {
        let c = s[i];
        assert(spec_is_whitespace(c));
        assert(!spec_is_ascii_punctuation(c));
        assert(!spec_is_numeric(c));
        assert(spec_classify(Mode::Malformed, c) == Mode::Break);
        assert(spec_capture_token(s, i) == (ScanStep::Done {
            token: None::<SpecToken>,
            next: i + 1,
        }));
        lemma_whitespace_tail(s, i + 1);
    }
}

/// Capture is a pure function of the input text and the cursor: two lexers
/// over equal input, with equal cursors, are promised the very same outcome,
/// however often either is run afresh.
pub proof fn lemma_capture_deterministic(a: Tokenizer, b: Tokenizer)
    requires
        a.input() == b.input(),
        a.cursor() == b.cursor(),
    ensures
        spec_capture(a.input(), a.cursor()) == spec_capture(b.input(), b.cursor()),
{
}

/// A digit run whose value exceeds the 32-bit signed range fails the whole
/// capture run: such an input never yields a token sequence at all, partial
/// or otherwise.
pub proof fn lemma_overflowing_number_aborts(s: Seq<char>)
    requires
        s.len() > 0,
        spec_all_digits(s),
        spec_digits_value(s) > i32::MAX,
    ensures
        spec_capture(s, 0) == None::<Seq<SpecToken>>,
{
    lemma_digit_scan_fatal(s, 0, Mode::Malformed, None);
    assert(s.subrange(0, 0) =~= Seq::<char>::empty());
}

proof fn lemma_digit_scan_fatal(s: Seq<char>, i: int, mode: Mode, tok: Option<SpecToken>)
    requires
        0 <= i < s.len(),
        spec_all_digits(s),
        spec_digits_value(s) > i32::MAX,
        mode == (if i == 0 {
            Mode::Malformed
        } else {
            Mode::Number
        }),
    ensures
        spec_scan(s, i, mode, s.subrange(0, i), tok) == ScanStep::Fatal,
    decreases s.len() - i,
{
    let c = s[i];
    assert(spec_is_ascii_digit(c));
    assert(!spec_is_alphabetic(c));
    assert(!spec_is_whitespace(c));
    assert(!spec_is_ascii_punctuation(c));
    assert(spec_is_numeric(c));
    assert(spec_classify(mode, c) == Mode::Number);
    let buf2 = s.subrange(0, i + 1);
    assert(buf2 =~= s.subrange(0, i).push(c));
    if spec_parse_i32(buf2) is None {
        assert(spec_scan(s, i, mode, s.subrange(0, i), tok) == ScanStep::Fatal);
    } else {
        if i + 1 == s.len() {
            assert(buf2 =~= s);
            assert(false);
        }
        let n = s[i + 1];
        assert(spec_is_ascii_digit(n));
        assert(!spec_is_whitespace(n));
        assert(!spec_is_ascii_punctuation(n));
        assert(!spec_is_quote(n));
        let tok2 = Some(SpecToken::NumberLiteral(spec_parse_i32(buf2).unwrap()));
        lemma_digit_scan_fatal(s, i + 1, Mode::Number, tok2);
    }
}

} // verus!
