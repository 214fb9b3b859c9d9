use lang::token::{Token, TokenKind};
use lang::pratt_parser::BindingPower;

#[test]
fn token_equality_compares_kind_only() {
    assert!(Token::LIT_INT32 { value: 1 } == Token::LIT_INT32 { value: 999 });
    assert!(Token::ID { name: "a".to_string() } == Token::ID { name: "b".to_string() });
    assert!(Token::LIT_BOOL { value: true } == Token::LIT_BOOL { value: false });
    assert!(Token::LIT_INT32 { value: 1 } != Token::LIT_FLT32 { value: "0.0".to_string() });
    assert!(Token::ADD != Token::SUB);
    assert!(Token::EOI == Token::EOI);
}

#[test]
fn token_prototypes_have_their_kinds() {
    assert_eq!(Token::id().kind(), TokenKind::ID);
    assert_eq!(Token::lit_i32().kind(), TokenKind::LIT_INT32);
    assert_eq!(Token::lit_f32().kind(), TokenKind::LIT_FLT32);
    assert_eq!(Token::lit_char().kind(), TokenKind::LIT_CHAR);
    assert_eq!(Token::lit_bool().kind(), TokenKind::LIT_BOOL);
    assert_eq!(Token::lit_string().kind(), TokenKind::LIT_STRING);
}

#[test]
fn type_keywords_are_types() {
    assert!(Token::TYPE_INT32.is_type());
    assert!(Token::TYPE_FLT32.is_type());
    assert!(Token::TYPE_CHAR.is_type());
    assert!(Token::TYPE_BOOL.is_type());
    assert!(!Token::ID { name: "i32".to_string() }.is_type());
    assert!(!Token::LIT_INT32 { value: 0 }.is_type());
}

#[test]
fn binding_power_table_tiers() {
    assert_eq!(Token::OR.binding_power(), BindingPower { left: 10, right: 11, unary: 0 });
    assert_eq!(Token::AND.binding_power(), BindingPower { left: 11, right: 12, unary: 0 });
    assert_eq!(Token::LT.binding_power(), BindingPower { left: 30, right: 30, unary: 0 });
    assert_eq!(Token::ADD.binding_power(), BindingPower { left: 30, right: 31, unary: 0 });
    assert_eq!(Token::SUB.binding_power(), BindingPower { left: 30, right: 31, unary: 100 });
    assert_eq!(Token::MUL.binding_power(), BindingPower { left: 31, right: 32, unary: 0 });
    assert_eq!(Token::DIV.binding_power(), BindingPower { left: 31, right: 32, unary: 100 });
    assert_eq!(Token::NOT.binding_power().unary, 100);
    assert_eq!(Token::ASSIGN.binding_power(), BindingPower { left: 5, right: 4, unary: 0 });
    assert_eq!(Token::EOI.binding_power(), BindingPower { left: 0, right: 0, unary: 0 });
}

#[test]
fn prefix_operators_and_atoms() {
    assert!(Token::NOT.is_prefix_operator());
    assert!(Token::SUB.is_prefix_operator());
    assert!(Token::DIV.is_prefix_operator());
    assert!(!Token::ADD.is_prefix_operator());
    assert!(Token::ID { name: "x".to_string() }.is_id());
    assert!(!Token::EOI.is_id());
    assert!(Token::LIT_INT32 { value: 3 }.is_value_atom());
    assert!(Token::LIT_STRING { value: "s".to_string() }.is_value_atom());
    assert!(!Token::ID { name: "x".to_string() }.is_value_atom());
}
