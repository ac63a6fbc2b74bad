use minilang::error::ErrorType;
use minilang::lex;
use minilang::position::Position;
use minilang::token::Keyword;
use minilang::token::TokenType;
use minilang::value::Value;

fn kinds(source: &str) -> Vec<TokenType> {
    lex(source.to_string()).unwrap().into_iter().map(|t| t.token_type).collect()
}

#[test]
fn integer_literal_round_trip() {
    for text in ["0", "7", "42", "2147483647"] {
        let tokens = lex(text.to_string()).unwrap();
        assert_eq!(tokens.len(), 1);
        let value = match &tokens[0].token_type {
            TokenType::IntegerLiteral(v) => *v,
            other => panic!("unexpected token {:?}", other),
        };
        assert_eq!(Value::Integer(value).display(), text);
    }
}

#[test]
fn leading_zeros_keep_the_value() {
    assert_eq!(kinds("007"), vec![TokenType::IntegerLiteral(7)]);
}

#[test]
fn let_statement_tokens_and_positions() {
    let tokens = lex("let x = 1".to_string()).unwrap();
    let got: Vec<(TokenType, Position)> =
        tokens.into_iter().map(|t| (t.token_type, t.position)).collect();
    assert_eq!(
        got,
        vec![
            (TokenType::Keyword(Keyword::Let), Position::new(3, 0)),
            (TokenType::Identifier("x".to_string()), Position::new(5, 0)),
            (TokenType::Equals, Position::new(7, 0)),
            (TokenType::IntegerLiteral(1), Position::new(9, 0)),
        ]
    );
}

#[test]
fn single_character_tokens() {
    assert_eq!(
        kinds("= + - * / : ( ) ,"),
        vec![
            TokenType::Equals,
            TokenType::Plus,
            TokenType::Minus,
            TokenType::Asterisk,
            TokenType::Slash,
            TokenType::Colon,
            TokenType::OpenParenthesis,
            TokenType::CloseParenthesis,
            TokenType::Comma,
        ]
    );
}

#[test]
fn keywords_and_identifiers() {
    assert_eq!(
        kinds("let return lets été"),
        vec![
            TokenType::Keyword(Keyword::Let),
            TokenType::Keyword(Keyword::Return),
            TokenType::Identifier("lets".to_string()),
            TokenType::Identifier("été".to_string()),
        ]
    );
}

#[test]
fn string_literal_keeps_its_text() {
    let tokens = lex("\"hello world\"".to_string()).unwrap();
    assert_eq!(tokens[0].token_type, TokenType::StringLiteral("hello world".to_string()));
    assert_eq!(tokens[0].position, Position::new(13, 0));
}

#[test]
fn newline_moves_to_next_line() {
    let tokens = lex("1\n22".to_string()).unwrap();
    assert_eq!(tokens[0].position, Position::new(1, 0));
    assert_eq!(tokens[1].position, Position::new(2, 1));
}

#[test]
fn comment_runs_to_end_of_line() {
    let tokens = lex("1 // a comment\n2".to_string()).unwrap();
    let got: Vec<(TokenType, Position)> =
        tokens.into_iter().map(|t| (t.token_type, t.position)).collect();
    assert_eq!(
        got,
        vec![
            (TokenType::IntegerLiteral(1), Position::new(1, 0)),
            (TokenType::IntegerLiteral(2), Position::new(1, 1)),
        ]
    );
}

#[test]
fn comment_at_end_of_input() {
    assert_eq!(kinds("5 // done"), vec![TokenType::IntegerLiteral(5)]);
}

#[test]
fn empty_input_has_no_tokens() {
    assert!(lex(String::new()).unwrap().is_empty());
}

#[test]
fn unterminated_string_at_end_of_input() {
    let error = lex("\"abc".to_string()).unwrap_err();
    assert!(matches!(error.error_type, ErrorType::ExpectedCharacter('"')));
    assert_eq!(error.position, Position::new(4, 0));
}

#[test]
fn unterminated_string_at_newline() {
    let error = lex("\"ab\nc\"".to_string()).unwrap_err();
    assert!(matches!(error.error_type, ErrorType::ExpectedCharacter('"')));
    assert_eq!(error.position, Position::new(4, 0));
}

#[test]
fn unexpected_character() {
    let error = lex("let x = #".to_string()).unwrap_err();
    assert!(matches!(error.error_type, ErrorType::UnexpectedCharacter('#')));
    assert_eq!(error.position, Position::new(9, 0));
}

#[test]
fn integer_too_large_is_invalid() {
    let error = lex("2147483648".to_string()).unwrap_err();
    match error.error_type {
        ErrorType::InvalidNumber(text) => assert_eq!(text, "2147483648"),
        other => panic!("unexpected error {:?}", other),
    }
    assert_eq!(error.position, Position::new(10, 0));
}

#[test]
fn non_ascii_numeral_is_invalid_number() {
    let error = lex("½".to_string()).unwrap_err();
    match error.error_type {
        ErrorType::InvalidNumber(text) => assert_eq!(text, "½"),
        other => panic!("unexpected error {:?}", other),
    }
}

#[test]
fn tab_is_unexpected() {
    let error = lex("\t".to_string()).unwrap_err();
    assert!(matches!(error.error_type, ErrorType::UnexpectedCharacter('\t')));
}
