//! The token type the lexer emits, and its mathematical view.

use vstd::prelude::*;

verus! {

/// The reserved words of the language.
#[derive(Debug, Clone, Copy, PartialEq, Eq, Structural)]
pub enum KeywordType {
    Local,
    Function,
    End,
}

/// One token of the source text. A token is immutable once emitted and
/// carries no position information.
#[derive(Debug)]
pub enum Token {
    /// A name that matches no reserved word.
    Identifier(String),
    /// The contents between two quote characters, quotes stripped.
    StringLiteral(String),
    /// A contiguous digit run, read as a decimal signed 32-bit integer.
    NumberLiteral(i32),
    /// A reserved word, matched exactly.
    Keyword(KeywordType),
    /// The `=` character.
    Assign,
    /// The `(` character.
    LeftParenthesis,
    /// The `)` character.
    RightParenthesis,
    /// Any other ASCII punctuation character, carried as text.
    UnexpectedSymbol(String),
}

/// The mathematical shape of a token: text payloads as character sequences.
pub ghost enum SpecToken {
    Identifier(Seq<char>),
    StringLiteral(Seq<char>),
    NumberLiteral(i32),
    Keyword(KeywordType),
    Assign,
    LeftParenthesis,
    RightParenthesis,
    UnexpectedSymbol(Seq<char>),
}

impl View for Token {
    type V = SpecToken;

    open spec fn view(&self) -> SpecToken {
        match self {
            Token::Identifier(s) => SpecToken::Identifier(s@),
            Token::StringLiteral(s) => SpecToken::StringLiteral(s@),
            Token::NumberLiteral(n) => SpecToken::NumberLiteral(*n),
            Token::Keyword(k) => SpecToken::Keyword(*k),
            Token::Assign => SpecToken::Assign,
            Token::LeftParenthesis => SpecToken::LeftParenthesis,
            Token::RightParenthesis => SpecToken::RightParenthesis,
            Token::UnexpectedSymbol(s) => SpecToken::UnexpectedSymbol(s@),
        }
    }
}

impl PartialEq for Token {
    /// Two tokens are equal when their views are: same variant, same payload
    /// text or value.
    fn eq(&self, other: &Token) -> (r: bool) {
        match (self, other) {
            (Token::Identifier(a), Token::Identifier(b)) => a.eq(b),
            (Token::StringLiteral(a), Token::StringLiteral(b)) => a.eq(b),
            (Token::NumberLiteral(a), Token::NumberLiteral(b)) => *a == *b,
            (Token::Keyword(a), Token::Keyword(b)) => *a == *b,
            (Token::Assign, Token::Assign) => true,
            (Token::LeftParenthesis, Token::LeftParenthesis) => true,
            (Token::RightParenthesis, Token::RightParenthesis) => true,
            (Token::UnexpectedSymbol(a), Token::UnexpectedSymbol(b)) => a.eq(b),
            _ => false,
        }
    }
}

impl vstd::std_specs::cmp::PartialEqSpecImpl for Token {
    open spec fn obeys_eq_spec() -> bool {
        true
    }

    open spec fn eq_spec(&self, other: &Token) -> bool {
        self@ == other@
    }
}

/// The one failure the lexer reports: a numeric literal that does not read
/// as a decimal signed 32-bit integer. It ends the whole capture run; no
/// partial token sequence is handed back.
#[derive(Debug, Clone, Copy, PartialEq, Eq, Structural)]
pub enum CaptureError {
    InvalidNumberLiteral,
}

/// The view of an optional token.
pub open spec fn opt_token_view(t: Option<Token>) -> Option<SpecToken> {
    match t {
        Some(tok) => Some(tok@),
        None => None,
    }
}

/// The view of a token sequence, element by element.
pub open spec fn tokens_view(ts: Seq<Token>) -> Seq<SpecToken> {
    ts.map_values(|t: Token| t@)
}

} // verus!
