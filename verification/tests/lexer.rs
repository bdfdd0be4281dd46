use tank::lexer::Lexer;
use tank::token::{Token, TokenType};

#[test]
fn test_lex_single_char() {
    let mut left_brace_lex = Lexer::new("{".to_string());
    left_brace_lex.lex();

    let curr_tok = left_brace_lex.curr_tok.unwrap();
    let expected = Token::new_from_value(TokenType::LeftBrace, "{", 1, 1);

    assert_eq!(curr_tok, expected);
}

#[test]
fn test_lex_arrow() {
    let mut arrow_lex = Lexer::new("->".to_string());
    arrow_lex.lex();

    let curr_tok = arrow_lex.curr_tok.unwrap();
    let expected = Token::new_from_value(TokenType::Arrow, "->", 1, 1);

    assert_eq!(curr_tok, expected);
}

#[test]
fn test_lex_minus() {
    let mut minus_lex = Lexer::new("-".to_string());
    minus_lex.lex();

    let curr_tok_minus = minus_lex.curr_tok.unwrap();
    let expected_minus = Token::new_from_value(TokenType::Minus, "-", 1, 1);

    assert_eq!(curr_tok_minus, expected_minus);
}

#[test]
fn test_lex_ident_not_reserved() {
    let mut ident_lex = Lexer::new("testIdentifier".to_string());
    ident_lex.lex();

    let curr_tok = ident_lex.curr_tok.unwrap();
    let expected = Token::new_from_value(TokenType::Ident, "testIdentifier", 1, 1);

    assert_eq!(curr_tok, expected);
}

#[test]
fn test_lex_ident_reserved() {
    let mut ident_lex = Lexer::new("int".to_string());
    ident_lex.lex();

    let curr_tok = ident_lex.curr_tok.unwrap();
    let mut expected = Token::new_from_value(TokenType::Ident, "int", 1, 1);
    expected.set_reserved(true);

    assert_eq!(curr_tok, expected);
    assert!(curr_tok.is_reserved);
}

#[test]
fn test_lex_number() {
    let mut num_lex = Lexer::new("8080".to_string());
    num_lex.lex();

    let curr_tok = num_lex.curr_tok.unwrap();
    let expected = Token::new_from_value(TokenType::Number, "8080", 1, 1);

    assert_eq!(curr_tok, expected);
}

#[test]
fn test_lex_empty() {
    let mut empty_lex = Lexer::new("".to_string());
    empty_lex.lex();

    let curr_tok = empty_lex.curr_tok.unwrap();
    let expected = Token::new_from_empty();

    assert_eq!(curr_tok, expected);
}

#[test]
fn test_lex_operators_and_lines() {
    let mut lex = Lexer::new("==\n<=".to_string());
    lex.lex();
    let t1 = lex.curr_tok.clone().unwrap();
    assert_eq!(t1.tok_type, TokenType::EqualsEquals);
    assert_eq!(t1.val, "==");
    assert_eq!(t1.line_num, 1);
    lex.lex();
    let t2 = lex.curr_tok.clone().unwrap();
    assert_eq!(t2.tok_type, TokenType::LtEquals);
    assert_eq!(t2.val, "<=");
    assert_eq!(t2.line_num, 2);
}

#[test]
fn test_lex_is_op() {
    let lex = Lexer::new("".to_string());
    assert!(lex.is_op(&TokenType::EqualsEquals));
    assert!(lex.is_op(&TokenType::Gt));
    assert!(lex.is_op(&TokenType::Lt));
    assert!(lex.is_op(&TokenType::GtEquals));
    assert!(lex.is_op(&TokenType::LtEquals));
    assert!(lex.is_op(&TokenType::NotEquals));
    assert!(!lex.is_op(&TokenType::Equals));
    assert!(!lex.is_op(&TokenType::Ident));
}

#[test]
fn test_peek_tok_sees_left_paren() {
    let mut lex = Lexer::new("div()".to_string());
    lex.lex();
    assert_eq!(lex.peek_tok().tok_type, TokenType::LeftParen);
}
