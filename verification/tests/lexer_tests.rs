use lexer::token::{CaptureError, KeywordType, Token};
use lexer::tokenizer::Tokenizer;

fn capture_all(input: &str) -> Vec<Token> {
    let mut t = Tokenizer::new(String::from(input));
    t.capture().expect("capture failed")
}

#[test]
fn whitespace_only_yields_no_tokens() {
    assert_eq!(capture_all("   \t\n  \r "), Vec::<Token>::new());
    assert_eq!(capture_all(" "), Vec::<Token>::new());
    assert_eq!(capture_all("\u{a0}\u{2003}"), Vec::<Token>::new());
}

#[test]
fn empty_input_yields_no_tokens() {
    assert_eq!(capture_all(""), Vec::<Token>::new());
}

#[test]
fn local_assignment_statement() {
    assert_eq!(
        capture_all("local x = 12"),
        vec![
            Token::Keyword(KeywordType::Local),
            Token::Identifier(String::from("x")),
            Token::Assign,
            Token::NumberLiteral(12),
        ]
    );
}

#[test]
fn both_quote_styles_accepted() {
    assert_eq!(
        capture_all("\"hi\" 'yo'"),
        vec![
            Token::StringLiteral(String::from("hi")),
            Token::StringLiteral(String::from("yo")),
        ]
    );
}

#[test]
fn reserved_words_match_exactly() {
    assert_eq!(
        capture_all("function end"),
        vec![
            Token::Keyword(KeywordType::Function),
            Token::Keyword(KeywordType::End),
        ]
    );
}

#[test]
fn reserved_word_prefix_is_an_identifier() {
    assert_eq!(
        capture_all("endless"),
        vec![Token::Identifier(String::from("endless"))]
    );
}

#[test]
fn unknown_punctuation_surfaces_as_data() {
    assert_eq!(
        capture_all("a@b"),
        vec![
            Token::Identifier(String::from("a")),
            Token::UnexpectedSymbol(String::from("@")),
            Token::Identifier(String::from("b")),
        ]
    );
}

#[test]
fn unterminated_string_yields_its_contents() {
    assert_eq!(
        capture_all("\"abc"),
        vec![Token::StringLiteral(String::from("abc"))]
    );
}

#[test]
fn capture_is_deterministic_across_fresh_lexers() {
    let input = "local x = 12 function end \"hi\" (y)";
    let first = capture_all(input);
    let second = capture_all(input);
    assert_eq!(first, second);
}

#[test]
fn overflowing_number_aborts_the_run() {
    let mut t = Tokenizer::new(String::from("99999999999"));
    assert_eq!(t.capture(), Err(CaptureError::InvalidNumberLiteral));
}

#[test]
fn overflowing_number_later_in_input_leaves_no_partial_sequence() {
    let mut t = Tokenizer::new(String::from("local x = 99999999999"));
    assert_eq!(t.capture(), Err(CaptureError::InvalidNumberLiteral));
}

#[test]
fn largest_number_still_fits() {
    assert_eq!(capture_all("2147483647"), vec![Token::NumberLiteral(2147483647)]);
    let mut t = Tokenizer::new(String::from("2147483648"));
    assert_eq!(t.capture(), Err(CaptureError::InvalidNumberLiteral));
}

#[test]
fn non_ascii_digit_in_number_aborts_the_run() {
    // A Unicode digit counts as numeric but does not read as decimal.
    let mut t = Tokenizer::new(String::from("1\u{660}"));
    assert_eq!(t.capture(), Err(CaptureError::InvalidNumberLiteral));
}

#[test]
fn operators_are_single_characters() {
    assert_eq!(
        capture_all("(x)=y"),
        vec![
            Token::LeftParenthesis,
            Token::Identifier(String::from("x")),
            Token::RightParenthesis,
            Token::Assign,
            Token::Identifier(String::from("y")),
        ]
    );
}

#[test]
fn digits_stay_inside_a_started_identifier() {
    assert_eq!(
        capture_all("ab1 x2y"),
        vec![
            Token::Identifier(String::from("ab1")),
            Token::Identifier(String::from("x2y")),
        ]
    );
}

#[test]
fn digit_run_followed_by_letters_becomes_an_identifier() {
    assert_eq!(
        capture_all("1a"),
        vec![Token::Identifier(String::from("1a"))]
    );
}

#[test]
fn empty_string_literal() {
    assert_eq!(
        capture_all("''"),
        vec![Token::StringLiteral(String::new())]
    );
}

#[test]
fn string_literal_keeps_spaces_and_symbols() {
    assert_eq!(
        capture_all("\"a = (1)\""),
        vec![Token::StringLiteral(String::from("a = (1)"))]
    );
}

#[test]
fn mismatched_quotes_still_close_a_string() {
    assert_eq!(
        capture_all("\"ab'"),
        vec![Token::StringLiteral(String::from("ab"))]
    );
}

#[test]
fn unclassifiable_characters_vanish_silently() {
    assert_eq!(capture_all("\u{1}\u{2}"), Vec::<Token>::new());
    assert_eq!(
        capture_all("\u{1}="),
        vec![Token::Assign]
    );
}

#[test]
fn keyword_inside_string_stays_text() {
    assert_eq!(
        capture_all("'local'"),
        vec![Token::StringLiteral(String::from("local"))]
    );
}

#[test]
fn identifiers_may_hold_letters_beyond_ascii() {
    assert_eq!(
        capture_all("héllo"),
        vec![Token::Identifier(String::from("héllo"))]
    );
}

#[test]
fn quote_ends_a_forming_identifier() {
    assert_eq!(
        capture_all("a\"b"),
        vec![
            Token::Identifier(String::from("a")),
            Token::StringLiteral(String::from("b")),
        ]
    );
}

#[test]
fn number_at_end_of_input() {
    assert_eq!(capture_all("local x = 7"), vec![
        Token::Keyword(KeywordType::Local),
        Token::Identifier(String::from("x")),
        Token::Assign,
        Token::NumberLiteral(7),
    ]);
    assert_eq!(capture_all("0"), vec![Token::NumberLiteral(0)]);
}
