//! The lexer: a cursor over the input text that drains it into an ordered
//! token sequence, one capture step at a time.

use vstd::prelude::*;
use vstd::string::*;

use crate::chars::{is_alphabetic_char, is_ascii_punctuation_char, is_numeric_char,
    is_string_token, is_whitespace_char};
use crate::model::{spec_boundary, spec_capture, spec_capture_token, spec_classify,
    spec_identifier_token, spec_operator_token, spec_scan, Mode, ScanStep};
use crate::numbers::parse_number;
use crate::token::{opt_token_view, tokens_view, CaptureError, KeywordType, SpecToken, Token};

verus! {

/// The lexer. It owns the input text for its whole lifetime and keeps a
/// cursor into it; tokens are produced by value.
pub struct Tokenizer {
    content: String,
    len: usize,
    current: usize,
}

/// The token an identifier buffer yields: a keyword on an exact match of a
/// reserved word's spelling, an identifier carrying the text otherwise.
fn identifier_token(text: &String) -> (t: Token)
    ensures
        t@ == spec_identifier_token(text@),
{
    if text.eq(&String::from_str("local")) {
        Token::Keyword(KeywordType::Local)
    } else if text.eq(&String::from_str("function")) {
        Token::Keyword(KeywordType::Function)
    } else if text.eq(&String::from_str("end")) {
        Token::Keyword(KeywordType::End)
    } else {
        Token::Identifier(text.clone())
    }
}

impl Tokenizer {
    /// The input text, as a character sequence.
    pub closed spec fn input(&self) -> Seq<char> {
        self.content@
    }

    /// The cursor: how many characters are already consumed.
    pub closed spec fn cursor(&self) -> int {
        self.current as int
    }

    /// The cursor never leaves the input, and the recorded length is the
    /// input's.
    pub closed spec fn wf(&self) -> bool {
        self.len == self.content@.len() && self.current <= self.len
    }

    /// A fresh lexer over `content`, with the cursor at the start.
    pub fn new(content: String) -> (t: Tokenizer)
        ensures
            t.wf(),
            t.input() == content@,
            t.cursor() == 0,
    {
        let len = content.as_str().unicode_len();
        Tokenizer { content, len, current: 0 }
    }

    /// Drains the input from the cursor to the end and returns the tokens in
    /// the textual left-to-right order of their input spans, exactly as
    /// `spec_capture` describes; white space and absorbed characters leave
    /// no token. When some numeric literal does not read as a decimal
    /// signed 32-bit integer the whole run fails instead, with no partial
    /// sequence.
    pub fn capture(&mut self) -> (r: Result<Vec<Token>, CaptureError>)
        requires
            old(self).wf(),
        ensures
            final(self).wf(),
            final(self).input() == old(self).input(),
            (match spec_capture(old(self).input(), old(self).cursor()) {
                Some(toks) => r matches Ok(v) && tokens_view(v@) == toks && final(self).cursor()
                    == final(self).input().len(),
                None => r matches Err(e) && e == CaptureError::InvalidNumberLiteral,
            }),
    {
        let ghost s = self.content@;
        let ghost i0 = self.current as int;
        let mut tokens: Vec<Token> = Vec::new();
        while self.current < self.len
            invariant
                self.wf(),
                self.content@ == s,
                s == old(self).input(),
                i0 == old(self).cursor(),
                i0 <= self.current as int <= s.len(),
                spec_capture(s, i0) == (match spec_capture(s, self.current as int) {
                    None => None::<Seq<SpecToken>>,
                    Some(rest) => Some(tokens_view(tokens@) + rest),
                }),
            decreases s.len() - self.current as int,
        {
            let ghost cur = self.current as int;
            match self.capture_token() {
                Err(e) => {
                    proof {
                        assert(spec_capture(s, cur) == None::<Seq<SpecToken>>);
                    }
                    return Err(e);
                },
                Ok(opt) => {
                    let ghost next = self.current as int;
                    let ghost tk = opt_token_view(opt);
                    let ghost pre_tokens = tokens@;
                    if let Some(t) = opt {
                        tokens.push(t);
                    }
                    proof {
                        match spec_capture(s, next) {
                            None => {
                                assert(spec_capture(s, cur) == None::<Seq<SpecToken>>);
                            },
                            Some(rest) => {
                                match tk {
                                    None => {
                                        assert(spec_capture(s, cur) == Some(rest));
                                    },
                                    Some(tv) => {
                                        assert(spec_capture(s, cur) == Some(seq![tv] + rest));
                                        assert(tokens_view(tokens@) =~= tokens_view(
                                            pre_tokens,
                                        ).push(tv));
                                        assert(tokens_view(pre_tokens) + (seq![tv] + rest)
                                            =~= tokens_view(tokens@) + rest);
                                    },
                                }
                            },
                        }
                    }
                },
            }
        }
        proof {
            assert(spec_capture(s, self.current as int) == Some(Seq::<SpecToken>::empty()));
            assert(tokens_view(tokens@) + Seq::<SpecToken>::empty() =~= tokens_view(tokens@));
        }
        Ok(tokens)
    }

    /// One capture step: forms at most one token starting at the cursor and
    /// moves the cursor past the span it consumed, exactly as
    /// `spec_capture_token` describes. A numeric buffer that does not read
    /// as a number fails the step fatally.
    fn capture_token(&mut self) -> (r: Result<Option<Token>, CaptureError>)
        requires
            old(self).wf(),
            old(self).cursor() < old(self).input().len(),
        ensures
            final(self).wf(),
            final(self).input() == old(self).input(),
            (match spec_capture_token(old(self).input(), old(self).cursor()) {
                ScanStep::Done { token, next } => r matches Ok(t) && opt_token_view(t) == token
                    && final(self).cursor() == next && old(self).cursor() < final(self).cursor(),
                ScanStep::Fatal => r matches Err(e) && e == CaptureError::InvalidNumberLiteral,
            }),
    {
        let ghost s = self.content@;
        let ghost i0 = self.current as int;
        let mut mode = Mode::Malformed;
        let mut formed = String::new();
        let mut token: Option<Token> = None;

        loop
            invariant_except_break
                self.wf(),
                self.content@ == s,
                s == old(self).input(),
                i0 == old(self).cursor(),
                i0 <= self.current as int <= s.len(),
                i0 < s.len(),
                spec_scan(s, i0, Mode::Malformed, Seq::empty(), None) == spec_scan(
                    s,
                    self.current as int,
                    mode,
                    formed@,
                    opt_token_view(token),
                ),
            ensures
                self.wf(),
                self.content@ == s,
                s == old(self).input(),
                i0 == old(self).cursor(),
                i0 < self.current as int <= s.len(),
                spec_scan(s, i0, Mode::Malformed, Seq::empty(), None) == (ScanStep::Done {
                    token: opt_token_view(token),
                    next: self.current as int,
                }),
            decreases s.len() - self.current as int,
        {
            if self.current >= self.len {
                break;
            }
            let ghost i = self.current as int;
            let ghost pre_mode = mode;
            let ghost pre_buf = formed@;
            let ghost pre_tok = opt_token_view(token);

            let c = self.content.as_str().get_char(self.current);
            self.current += 1;

            // Pick the mode: each rule may override the one before it, and
            // each guard reads the mode as already moved.
            if is_alphabetic_char(c) && mode != Mode::Str {
                mode = Mode::Identifier;
            }
            if is_whitespace_char(c) && mode != Mode::Str {
                mode = Mode::Break;
            }
            if is_ascii_punctuation_char(c) {
                if is_string_token(c) {
                    mode = Mode::Str;
                } else if mode != Mode::Str {
                    mode = Mode::Operator;
                }
            }
            if is_numeric_char(c) && mode != Mode::Str && mode != Mode::Identifier {
                mode = Mode::Number;
            }
            proof {
                assert(mode == spec_classify(pre_mode, c));
            }

            // Act under the mode.
            match mode {
                Mode::Break => {
                    proof {
                        assert(spec_scan(s, i, pre_mode, pre_buf, pre_tok) == (ScanStep::Done {
                            token: pre_tok,
                            next: i + 1,
                        }));
                    }
                    break;
                },
                Mode::Operator => {
                    let t = if c == '=' {
                        Token::Assign
                    } else if c == '(' {
                        Token::LeftParenthesis
                    } else if c == ')' {
                        Token::RightParenthesis
                    } else {
                        let piece = self.content.as_str().substring_char(
                            self.current - 1,
                            self.current,
                        );
                        proof {
                            assert(s.subrange(i, i + 1) =~= seq![c]);
                        }
                        Token::UnexpectedSymbol(String::from_str(piece))
                    };
                    token = Some(t);
                    proof {
                        assert(spec_scan(s, i, pre_mode, pre_buf, pre_tok) == (ScanStep::Done {
                            token: Some(spec_operator_token(c)),
                            next: i + 1,
                        }));
                    }
                    break;
                },
                Mode::Str => {
                    if !is_string_token(c) {
                        let piece = self.content.as_str().substring_char(
                            self.current - 1,
                            self.current,
                        );
                        formed.append(piece);
                        proof {
                            assert(s.subrange(i, i + 1) =~= seq![c]);
                            assert(formed@ =~= pre_buf.push(c));
                        }
                    }
                    token = Some(Token::StringLiteral(formed.clone()));
                },
                Mode::Identifier => {
                    let piece = self.content.as_str().substring_char(
                        self.current - 1,
                        self.current,
                    );
                    formed.append(piece);
                    proof {
                        assert(s.subrange(i, i + 1) =~= seq![c]);
                        assert(formed@ =~= pre_buf.push(c));
                    }
                    token = Some(identifier_token(&formed));
                },
                Mode::Number => {
                    let piece = self.content.as_str().substring_char(
                        self.current - 1,
                        self.current,
                    );
                    formed.append(piece);
                    proof {
                        assert(s.subrange(i, i + 1) =~= seq![c]);
                        assert(formed@ =~= pre_buf.push(c));
                    }
                    match parse_number(&formed) {
                        None => {
                            proof {
                                assert(spec_scan(s, i, pre_mode, pre_buf, pre_tok)
                                    == ScanStep::Fatal);
                            }
                            return Err(CaptureError::InvalidNumberLiteral);
                        },
                        Some(v) => {
                            token = Some(Token::NumberLiteral(v));
                        },
                    }
                },
                Mode::Malformed => {
                    let piece = self.content.as_str().substring_char(
                        self.current - 1,
                        self.current,
                    );
                    formed.append(piece);
                    proof {
                        assert(s.subrange(i, i + 1) =~= seq![c]);
                        assert(formed@ =~= pre_buf.push(c));
                    }
                },
            }

            // Boundary lookahead: does the next character complete this
            // token?
            if self.current < self.len {
                let n = self.content.as_str().get_char(self.current);
                if mode != Mode::Str {
                    if is_whitespace_char(n) {
                        proof {
                            assert(spec_boundary(s, i, mode) == Some(i + 1));
                        }
                        break;
                    }
                    if is_ascii_punctuation_char(n) {
                        proof {
                            assert(spec_boundary(s, i, mode) == Some(i + 1));
                        }
                        break;
                    }
                }
                if is_string_token(n) {
                    self.current += 1;
                    proof {
                        assert(spec_boundary(s, i, mode) == Some(i + 2));
                    }
                    break;
                }
                proof {
                    assert(spec_boundary(s, i, mode) is None);
                }
            } else {
                proof {
                    assert(spec_boundary(s, i, mode) is None);
                }
            }
        }

        Ok(token)
    }
}

} // verus!
