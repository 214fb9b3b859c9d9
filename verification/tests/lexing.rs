use lang::lexer::Lexer;
use lang::token::{Token, TokenKind};

fn kinds_of(src: &str) -> Vec<TokenKind> {
    let mut lexer = Lexer::new(src.to_string());
    lexer.tokens().iter().map(|t| t.kind()).collect()
}

fn int_value(t: &Token) -> i32 {
    match t {
        Token::LIT_INT32 { value } => *value,
        other => panic!("expected an integer literal, got {:?}", other),
    }
}

fn id_name(t: &Token) -> String {
    match t {
        Token::ID { name } => name.clone(),
        other => panic!("expected an identifier, got {:?}", other),
    }
}

#[test]
fn lex_simple_arithmetic() {
    let mut lexer = Lexer::new("1 + 2 * 3".to_string());
    let toks = lexer.tokens();
    assert_eq!(
        toks.iter().map(|t| t.kind()).collect::<Vec<_>>(),
        vec![
            TokenKind::LIT_INT32,
            TokenKind::ADD,
            TokenKind::LIT_INT32,
            TokenKind::MUL,
            TokenKind::LIT_INT32,
            TokenKind::EOI,
        ],
    );
    assert_eq!(int_value(&toks[0]), 1);
    assert_eq!(int_value(&toks[2]), 2);
    assert_eq!(int_value(&toks[4]), 3);
}

#[test]
fn lex_two_character_relational_operator() {
    let mut lexer = Lexer::new("a >= b".to_string());
    let toks = lexer.tokens();
    assert_eq!(
        toks.iter().map(|t| t.kind()).collect::<Vec<_>>(),
        vec![TokenKind::ID, TokenKind::NLT, TokenKind::ID, TokenKind::EOI],
    );
    assert_eq!(id_name(&toks[0]), "a");
    assert_eq!(id_name(&toks[2]), "b");
}

#[test]
fn lex_all_two_character_operators() {
    assert_eq!(
        kinds_of("== != <= >= && || ->"),
        vec![
            TokenKind::EQ,
            TokenKind::NEQ,
            TokenKind::NGT,
            TokenKind::NLT,
            TokenKind::AND,
            TokenKind::OR,
            TokenKind::ARROW_R,
            TokenKind::EOI,
        ],
    );
}

#[test]
fn lex_single_character_operator_before_other_text() {
    assert_eq!(
        kinds_of("<x=y>z"),
        vec![
            TokenKind::LT,
            TokenKind::ID,
            TokenKind::ASSIGN,
            TokenKind::ID,
            TokenKind::GT,
            TokenKind::ID,
            TokenKind::EOI,
        ],
    );
}

#[test]
fn lex_keywords_and_identifiers() {
    assert_eq!(
        kinds_of("func let if else while print return i32 bool true false iffy"),
        vec![
            TokenKind::FUNC,
            TokenKind::LET,
            TokenKind::IF,
            TokenKind::ELSE,
            TokenKind::WHILE,
            TokenKind::PRINT,
            TokenKind::RETURN,
            TokenKind::TYPE_INT32,
            TokenKind::TYPE_BOOL,
            TokenKind::LIT_BOOL,
            TokenKind::LIT_BOOL,
            TokenKind::ID,
            TokenKind::EOI,
        ],
    );
}

#[test]
fn lex_comment_runs_to_end_of_line() {
    assert_eq!(
        kinds_of("1 // ignored + text\n2"),
        vec![TokenKind::LIT_INT32, TokenKind::LIT_INT32, TokenKind::EOI],
    );
}

#[test]
fn lex_operator_pending_at_end_of_input() {
    assert_eq!(kinds_of("a >"), vec![TokenKind::ID, TokenKind::GT, TokenKind::EOI]);
    assert_eq!(kinds_of("a -"), vec![TokenKind::ID, TokenKind::SUB, TokenKind::EOI]);
}

#[test]
fn lex_identifier_flushed_at_end_of_input() {
    let mut lexer = Lexer::new("count".to_string());
    let toks = lexer.tokens();
    assert_eq!(id_name(&toks[0]), "count");
    assert_eq!(toks[1].kind(), TokenKind::EOI);
}

#[test]
fn lex_trailing_point_backs_out_of_number() {
    // "12." gives back the point: an integer, then the point token
    assert_eq!(kinds_of("12."), vec![TokenKind::LIT_INT32, TokenKind::POINT, TokenKind::EOI]);
}

#[test]
fn lex_float_literal_carries_its_text() {
    let mut lexer = Lexer::new("1.5;".to_string());
    let toks = lexer.tokens();
    match &toks[0] {
        Token::LIT_FLT32 { value } => assert_eq!(value, "1.5"),
        other => panic!("expected a float literal, got {:?}", other),
    }
    assert_eq!(toks[1].kind(), TokenKind::SEMICOLON);
}

#[test]
fn lex_trailing_float_with_zero_fraction_collapses_to_integer() {
    let mut lexer = Lexer::new("2.0".to_string());
    let toks = lexer.tokens();
    assert_eq!(int_value(&toks[0]), 2);
    assert_eq!(toks[1].kind(), TokenKind::EOI);
}

#[test]
fn lex_char_and_string_literals() {
    let mut lexer = Lexer::new("'x' \"hi\"".to_string());
    let toks = lexer.tokens();
    match &toks[0] {
        Token::LIT_CHAR { value } => assert_eq!(*value, 'x'),
        other => panic!("expected a char literal, got {:?}", other),
    }
    match &toks[1] {
        Token::LIT_STRING { value } => assert_eq!(value, "hi"),
        other => panic!("expected a string literal, got {:?}", other),
    }
}

#[test]
fn lex_malformed_char_literal_is_an_error_token() {
    assert_eq!(kinds_of("'ab' 1"), vec![TokenKind::ERROR, TokenKind::LIT_INT32, TokenKind::EOI]);
}

#[test]
fn lex_overlong_integer_is_an_error_token() {
    assert_eq!(
        kinds_of("99999999999;"),
        vec![TokenKind::ERROR, TokenKind::SEMICOLON, TokenKind::EOI],
    );
    // the largest representable literal still lexes
    let mut lexer = Lexer::new("2147483647;".to_string());
    let toks = lexer.tokens();
    assert_eq!(int_value(&toks[0]), 2147483647);
}

#[test]
fn lex_identifier_may_hold_dashes_and_digits() {
    let mut lexer = Lexer::new("a-b_1 c".to_string());
    let toks = lexer.tokens();
    assert_eq!(id_name(&toks[0]), "a-b_1");
    assert_eq!(id_name(&toks[1]), "c");
}

#[test]
fn set_input_restarts_the_lexer() {
    let mut lexer = Lexer::new("1".to_string());
    let _ = lexer.tokens();
    lexer.set_input("2".to_string());
    let toks = lexer.tokens();
    assert_eq!(int_value(&toks[0]), 2);
}

#[test]
fn advance_returns_one_token_per_call_and_curr_repeats_it() {
    let mut lexer = Lexer::new("let x".to_string());
    let t1 = lexer.advance();
    assert_eq!(t1.kind(), TokenKind::LET);
    assert_eq!(lexer.curr().kind(), TokenKind::LET);
    let t2 = lexer.advance();
    assert_eq!(t2.kind(), TokenKind::ID);
    let t3 = lexer.advance();
    assert_eq!(t3.kind(), TokenKind::EOI);
    let t4 = lexer.advance();
    assert_eq!(t4.kind(), TokenKind::EOI);
}
