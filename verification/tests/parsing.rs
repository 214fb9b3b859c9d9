use lang::lexer::Lexer;
use lang::mtree::MTree;
use lang::parser::{Parser, ParseError};
use lang::token::TokenKind;

fn expr_tree(src: &str) -> MTree {
    let lexer = Lexer::new(src.to_string());
    let mut parser = Parser::new(lexer);
    parser.parse_expr().expect("the expression should parse")
}

fn program_tree(src: &str) -> MTree {
    let lexer = Lexer::new(src.to_string());
    let mut parser = Parser::new(lexer);
    parser.analyze().expect("the program should parse")
}

#[test]
fn parse_multiplication_binds_tighter_than_addition() {
    // 1 + 2 * 3 parses as (1 + (2 * 3)), not ((1 + 2) * 3)
    let t = expr_tree("1 + 2 * 3");
    assert_eq!(t.token.kind(), TokenKind::ADD);
    assert_eq!(t.children.len(), 2);
    assert_eq!(t.children[0].token.kind(), TokenKind::LIT_INT32);
    let mul = &t.children[1];
    assert_eq!(mul.token.kind(), TokenKind::MUL);
    assert_eq!(mul.children[0].token.kind(), TokenKind::LIT_INT32);
    assert_eq!(mul.children[1].token.kind(), TokenKind::LIT_INT32);
}

#[test]
fn parse_parentheses_override_precedence() {
    let t = expr_tree("(1 + 2) * 3");
    assert_eq!(t.token.kind(), TokenKind::MUL);
    assert_eq!(t.children[0].token.kind(), TokenKind::ADD);
}

#[test]
fn parse_addition_is_left_associative() {
    let t = expr_tree("1 - 2 - 3");
    // ((1 - 2) - 3)
    assert_eq!(t.token.kind(), TokenKind::SUB);
    assert_eq!(t.children[0].token.kind(), TokenKind::SUB);
    assert_eq!(t.children[1].token.kind(), TokenKind::LIT_INT32);
}

#[test]
fn parse_prefix_minus_binds_tightest() {
    let t = expr_tree("-1 + 2");
    assert_eq!(t.token.kind(), TokenKind::ADD);
    let neg = &t.children[0];
    assert_eq!(neg.token.kind(), TokenKind::SUB);
    assert_eq!(neg.children.len(), 1);
}

#[test]
fn parse_call_with_arguments() {
    let t = expr_tree("f(1, g(2), x)");
    assert_eq!(t.token.kind(), TokenKind::ID);
    assert_eq!(t.children.len(), 3);
    assert_eq!(t.children[1].token.kind(), TokenKind::ID);
    assert_eq!(t.children[1].children.len(), 1);
}

#[test]
fn parse_whole_program_shape() {
    let t = program_tree("func main() -> i32 { return 0; }");
    assert_eq!(t.token.kind(), TokenKind::START);
    assert_eq!(t.children.len(), 1);
    let f = &t.children[0];
    assert_eq!(f.token.kind(), TokenKind::FUNC_DECL);
    // name, parameter list, return type, block
    assert_eq!(f.children.len(), 4);
    assert_eq!(f.children[0].token.kind(), TokenKind::ID);
    assert_eq!(f.children[1].token.kind(), TokenKind::PARAM_LIST);
    assert_eq!(f.children[2].token.kind(), TokenKind::TYPE_INT32);
    assert_eq!(f.children[3].token.kind(), TokenKind::BLOCK);
}

#[test]
fn parse_parameters() {
    let t = program_tree("func f(a: i32, b: bool) { a; }");
    let plist = &t.children[0].children[1];
    assert_eq!(plist.token.kind(), TokenKind::PARAM_LIST);
    assert_eq!(plist.children.len(), 2);
    let p0 = &plist.children[0];
    assert_eq!(p0.token.kind(), TokenKind::PARAM);
    assert_eq!(p0.children[0].token.kind(), TokenKind::ID);
    assert_eq!(p0.children[1].token.kind(), TokenKind::TYPE_INT32);
}

#[test]
fn parse_statement_forms() {
    let t = program_tree(
        "func main() { let x: i32 = 1; if x < 2 { print x; } else { x = 3; } while x > 0 { return x; } }",
    );
    let block = &t.children[0].children[2];
    assert_eq!(block.token.kind(), TokenKind::BLOCK);
    assert_eq!(block.children[0].token.kind(), TokenKind::LET_STMT);
    assert_eq!(block.children[1].token.kind(), TokenKind::IF_STMT);
    assert_eq!(block.children[1].children.len(), 3);
    assert_eq!(block.children[2].token.kind(), TokenKind::WHILE_STMT);
}

#[test]
fn parse_error_names_expected_and_actual() {
    let lexer = Lexer::new("func 1".to_string());
    let mut parser = Parser::new(lexer);
    match parser.analyze() {
        Err(ParseError::Expected { expected, actual }) => {
            assert_eq!(expected, TokenKind::ID);
            assert_eq!(actual.kind(), TokenKind::LIT_INT32);
        },
        other => panic!("expected a syntax error naming the identifier, got {:?}", other),
    }
}

#[test]
fn parse_error_on_missing_type_keyword() {
    let lexer = Lexer::new("func f() -> 3 { }".to_string());
    let mut parser = Parser::new(lexer);
    match parser.analyze() {
        Err(ParseError::ExpectedType { actual }) => {
            assert_eq!(actual.kind(), TokenKind::LIT_INT32);
        },
        other => panic!("expected a type-keyword error, got {:?}", other),
    }
}

#[test]
fn parser_utilities_consume_on_match_only() {
    let lexer = Lexer::new("let x".to_string());
    let mut parser = Parser::new(lexer);
    assert!(parser.peek(lang::token::Token::LET));
    assert_eq!(parser.position, 0);
    assert!(!parser.accept(lang::token::Token::IF));
    assert_eq!(parser.position, 0);
    assert!(parser.accept(lang::token::Token::LET));
    assert_eq!(parser.position, 1);
    assert!(parser.expect(lang::token::Token::id()).is_ok());
    assert_eq!(parser.position, 2);
    assert!(parser.expect(lang::token::Token::SEMICOLON).is_err());
}
