//! The mathematical model of the lexer: what one capture step does, and what
//! draining the whole input yields.
//!
//! A capture step starts in the `Malformed` mode with an empty buffer and
//! walks the input one character at a time. Each character first picks the
//! mode, then acts under it, and a one-character boundary lookahead decides
//! whether the forming token is complete. `spec_scan` states this walk;
//! `spec_capture` chains capture steps until the cursor reaches the end of
//! the input.

use vstd::prelude::*;

use crate::chars::{
    spec_is_alphabetic, spec_is_ascii_punctuation, spec_is_numeric, spec_is_quote,
    spec_is_whitespace,
};
use crate::numbers::spec_parse_i32;
use crate::token::{KeywordType, SpecToken};

verus! {

/// The transient classification state of the token being formed. It exists
/// only within one capture step and is reset for the next.
#[derive(Clone, Copy, PartialEq, Eq, Structural)]
pub enum Mode {
    /// Nothing classifiable seen yet: characters are absorbed silently.
    Malformed,
    /// A digit run is forming.
    Number,
    /// An identifier or reserved word is forming.
    Identifier,
    /// A string literal is forming; every other classification is suspended.
    Str,
    /// White space: the step consumes it and emits nothing.
    Break,
    /// A single punctuation character stands alone as a token.
    Operator,
}

/// How one character moves the mode. The rules apply in order and a later
/// rule overrides an earlier one; each guard reads the mode as already moved
/// by the rules before it. A character that no rule covers leaves the mode
/// unchanged.
pub open spec fn spec_classify(mode: Mode, c: char) -> Mode {
    let m1 = if spec_is_alphabetic(c) && mode != Mode::Str {
        Mode::Identifier
    } else {
        mode
    };
    let m2 = if spec_is_whitespace(c) && m1 != Mode::Str {
        Mode::Break
    } else {
        m1
    };
    let m3 = if spec_is_ascii_punctuation(c) {
        if spec_is_quote(c) {
            Mode::Str
        } else if m2 != Mode::Str {
            Mode::Operator
        } else {
            m2
        }
    } else {
        m2
    };
    if spec_is_numeric(c) && m3 != Mode::Str && m3 != Mode::Identifier {
        Mode::Number
    } else {
        m3
    }
}

/// The token a lone punctuation character stands for.
pub open spec fn spec_operator_token(c: char) -> SpecToken {
    if c == '=' {
        SpecToken::Assign
    } else if c == '(' {
        SpecToken::LeftParenthesis
    } else if c == ')' {
        SpecToken::RightParenthesis
    } else {
        SpecToken::UnexpectedSymbol(seq![c])
    }
}

/// The token an identifier buffer stands for: a keyword on an exact match of
/// a reserved word's spelling, an identifier otherwise.
pub open spec fn spec_identifier_token(buf: Seq<char>) -> SpecToken {
    if buf == "local"@ {
        SpecToken::Keyword(KeywordType::Local)
    } else if buf == "function"@ {
        SpecToken::Keyword(KeywordType::Function)
    } else if buf == "end"@ {
        SpecToken::Keyword(KeywordType::End)
    } else {
        SpecToken::Identifier(buf)
    }
}

/// How one capture step ends: with a token (or none) and the cursor moved,
/// or fatally, on a numeric buffer that does not read as a number.
pub ghost enum ScanStep {
    Done { token: Option<SpecToken>, next: int },
    Fatal,
}

/// The boundary lookahead after the character at `i` was acted on: `Some`
/// holds the cursor position at which the step stops. Outside the
/// string-literal mode, white space or punctuation next means the forming
/// token is complete. A quote next is consumed along with the current
/// character, closing a string literal. Otherwise the step walks on.
pub open spec fn spec_boundary(s: Seq<char>, i: int, mode: Mode) -> Option<int> {
    if i + 1 >= s.len() {
        None
    } else {
        let n = s[i + 1];
        if mode != Mode::Str && (spec_is_whitespace(n) || spec_is_ascii_punctuation(n)) {
            Some(i + 1)
        } else if spec_is_quote(n) {
            Some(i + 2)
        } else {
            None
        }
    }
}

/// One capture step from position `i` in mode `mode` with buffer `buf` and
/// forming token `tok`: classify the character, act under the mode, consult
/// the boundary lookahead, and walk on until the step stops or the input
/// ends.
pub open spec fn spec_scan(
    s: Seq<char>,
    i: int,
    mode: Mode,
    buf: Seq<char>,
    tok: Option<SpecToken>,
) -> ScanStep
    decreases s.len() - i,
{
    if i < 0 || i >= s.len() {
        ScanStep::Done { token: tok, next: i }
    } else {
        let c = s[i];
        let m = spec_classify(mode, c);
        if m == Mode::Break {
            ScanStep::Done { token: tok, next: i + 1 }
        } else if m == Mode::Operator {
            ScanStep::Done { token: Some(spec_operator_token(c)), next: i + 1 }
        } else {
            let buf2 = if m == Mode::Str && spec_is_quote(c) {
                buf
            } else {
                buf.push(c)
            };
            if m == Mode::Number && spec_parse_i32(buf2) is None {
                ScanStep::Fatal
            } else {
                let tok2 = if m == Mode::Str {
                    Some(SpecToken::StringLiteral(buf2))
                } else if m == Mode::Identifier {
                    Some(spec_identifier_token(buf2))
                } else if m == Mode::Number {
                    Some(SpecToken::NumberLiteral(spec_parse_i32(buf2).unwrap()))
                } else {
                    tok
                };
                match spec_boundary(s, i, m) {
                    Some(next) => ScanStep::Done { token: tok2, next },
                    None => spec_scan(s, i + 1, m, buf2, tok2),
                }
            }
        }
    }
}

/// One capture step as it begins: fresh mode, empty buffer, no token.
pub open spec fn spec_capture_token(s: Seq<char>, i: int) -> ScanStep {
    spec_scan(s, i, Mode::Malformed, Seq::empty(), None)
}

/// A capture step that starts inside the input always moves the cursor
/// forward, and never past the end.
pub proof fn lemma_scan_bounds(
    s: Seq<char>,
    i: int,
    mode: Mode,
    buf: Seq<char>,
    tok: Option<SpecToken>,
)
    requires
        0 <= i <= s.len(),
    ensures
        (match spec_scan(s, i, mode, buf, tok) {
            ScanStep::Done { token, next } => i <= next <= s.len() && (i < s.len() ==> i < next),
            ScanStep::Fatal => true,
        }),
    decreases s.len() - i,
{
    if i < s.len() {
        let c = s[i];
        let m = spec_classify(mode, c);
        if m != Mode::Break && m != Mode::Operator {
            let buf2 = if m == Mode::Str && spec_is_quote(c) {
                buf
            } else {
                buf.push(c)
            };
            if !(m == Mode::Number && spec_parse_i32(buf2) is None) {
                let tok2 = if m == Mode::Str {
                    Some(SpecToken::StringLiteral(buf2))
                } else if m == Mode::Identifier {
                    Some(spec_identifier_token(buf2))
                } else if m == Mode::Number {
                    Some(SpecToken::NumberLiteral(spec_parse_i32(buf2).unwrap()))
                } else {
                    tok
                };
                if spec_boundary(s, i, m) is None {
                    lemma_scan_bounds(s, i + 1, m, buf2, tok2);
                }
            }
        }
    }
}

/// Draining the input from position `i`: the ordered token sequence, in the
/// textual left-to-right order of the corresponding input spans, or nothing
/// when some capture step fails fatally. Steps that emit no token (white
/// space, absorbed characters) leave no trace in the sequence.
pub open spec fn spec_capture(s: Seq<char>, i: int) -> Option<Seq<SpecToken>>
    decreases s.len() - i
        when 0 <= i <= s.len()
        via spec_capture_decreases
{
    if i >= s.len() {
        Some(Seq::empty())
    } else {
        match spec_capture_token(s, i) {
            ScanStep::Fatal => None,
            ScanStep::Done { token, next } => match spec_capture(s, next) {
                None => None,
                Some(rest) => match token {
                    None => Some(rest),
                    Some(t) => Some(seq![t] + rest),
                },
            },
        }
    }
}

#[via_fn]
proof fn spec_capture_decreases(s: Seq<char>, i: int) {
    if i < s.len() {
        lemma_scan_bounds(s, i, Mode::Malformed, Seq::empty(), None);
    }
}

} // verus!
