use lang::lexer::Lexer;
use lang::parser::Parser;
use lang::semantic::{MTree, SymbolTable, Type, analyze, fold_constants, from_parse_tree};

fn lower_expr(src: &str) -> MTree {
    let lexer = Lexer::new(src.to_string());
    let mut parser = Parser::new(lexer);
    let pt = parser.parse_expr().expect("the expression should parse");
    from_parse_tree(&pt).expect("the expression should lower")
}

fn lower_program(src: &str) -> MTree {
    let lexer = Lexer::new(src.to_string());
    let mut parser = Parser::new(lexer);
    let pt = parser.analyze().expect("the program should parse");
    from_parse_tree(&pt).expect("the program should lower")
}

#[test]
fn symbol_table_declares_and_checks() {
    let mut st = SymbolTable::new();
    assert!(st.declare("x", Type::Int).is_ok());
    assert_eq!(st.check("x").unwrap(), Type::Int);
    assert_eq!(
        st.declare("x", Type::Bool).unwrap_err(),
        "Variable 'x' already declared".to_string(),
    );
    assert_eq!(st.check("x").unwrap(), Type::Int);
    assert_eq!(st.check("y").unwrap_err(), "Variable 'y' not declared".to_string());
}

#[test]
fn lowering_shapes_a_let_statement() {
    let t = lower_program("func main() { let x: i32 = 1; }");
    match t {
        MTree::START { funcs } => match &funcs[0] {
            MTree::FUNC_DECL { name, params, ret_type, body } => {
                assert_eq!(name, "main");
                assert_eq!(params.len(), 0);
                assert_eq!(*ret_type, Type::Unknown);
                match &**body {
                    MTree::BLOCK { stmts } => match &stmts[0] {
                        MTree::LET_STMT { id, ty, expr } => {
                            assert_eq!(id, "x");
                            assert_eq!(*ty, Type::Int);
                            assert!(expr.is_some());
                        },
                        other => panic!("expected a let statement, got {:?}", other),
                    },
                    other => panic!("expected a block, got {:?}", other),
                }
            },
            other => panic!("expected a function declaration, got {:?}", other),
        },
        other => panic!("expected a program root, got {:?}", other),
    }
}

#[test]
fn lowering_rejects_a_float_literal() {
    let lexer = Lexer::new("1.5".to_string());
    let mut parser = Parser::new(lexer);
    let pt = parser.parse_expr().expect("the expression should parse");
    assert_eq!(from_parse_tree(&pt).unwrap_err(), "Unhandled token in converter".to_string());
}

#[test]
fn lowering_marks_unary_minus() {
    let t = lower_expr("-x");
    match t {
        MTree::EXPR { left, op, right } => {
            assert_eq!(op, "unary-");
            assert!(matches!(*left, MTree::LIT_INT { value: 0 }));
            assert!(matches!(*right, MTree::ID { .. }));
        },
        other => panic!("expected a unary expression, got {:?}", other),
    }
}

#[test]
fn fold_collapses_a_literal_subtree() {
    // 2 * (3 + 4) folds to the single literal 14
    let mut t = lower_expr("2 * (3 + 4)");
    fold_constants(&mut t);
    assert!(matches!(t, MTree::LIT_INT { value: 14 }));
}

#[test]
fn fold_keeps_nonliteral_parts() {
    // x + (3 + 4) folds only the literal subtree, leaving x + 7
    let mut t = lower_expr("x + (3 + 4)");
    fold_constants(&mut t);
    match t {
        MTree::EXPR { left, op, right } => {
            assert_eq!(op, "+");
            assert!(matches!(*left, MTree::ID { .. }));
            assert!(matches!(*right, MTree::LIT_INT { value: 7 }));
        },
        other => panic!("expected a partly folded expression, got {:?}", other),
    }
}

#[test]
fn fold_leaves_division_by_zero_unfolded() {
    let mut t = lower_expr("1 / 0");
    fold_constants(&mut t);
    match t {
        MTree::EXPR { left, op, right } => {
            assert_eq!(op, "/");
            assert!(matches!(*left, MTree::LIT_INT { value: 1 }));
            assert!(matches!(*right, MTree::LIT_INT { value: 0 }));
        },
        other => panic!("expected the division to stay unfolded, got {:?}", other),
    }
}

#[test]
fn fold_leaves_overflowing_arithmetic_unfolded() {
    let mut t = lower_expr("2147483647 + 1");
    fold_constants(&mut t);
    assert!(matches!(t, MTree::EXPR { .. }));
}

#[test]
fn fold_is_idempotent_on_a_mixed_tree() {
    let mut once = lower_expr("x + (3 + 4) * 2 - 1 / 0");
    fold_constants(&mut once);
    let mut twice = lower_expr("x + (3 + 4) * 2 - 1 / 0");
    fold_constants(&mut twice);
    fold_constants(&mut twice);
    assert_eq!(format!("{:?}", once), format!("{:?}", twice));
}

#[test]
fn checker_reports_return_type_mismatch() {
    let t = lower_program("func f() -> i32 { let x: bool = true; return x; }");
    let mut st = SymbolTable::new();
    let errors = analyze(&t, &mut st).unwrap_err();
    assert!(!errors.is_empty());
    assert_eq!(
        errors,
        vec!["Function 'f' declared return type Int, but body returns Bool".to_string()],
    );
}

#[test]
fn checker_accepts_a_well_typed_program() {
    let t = lower_program(
        "func add(a: i32, b: i32) -> i32 { return a + b; } func main() -> i32 { return add(1, 2); }",
    );
    let mut st = SymbolTable::new();
    assert!(analyze(&t, &mut st).is_ok());
}

#[test]
fn checker_accumulates_every_error() {
    let t = lower_program("func main() { let b: bool = 1; print y; if 3 { print 1; } }");
    let mut st = SymbolTable::new();
    let errors = analyze(&t, &mut st).unwrap_err();
    assert_eq!(
        errors,
        vec![
            "Type mismatch for 'b': expected Bool, found Int".to_string(),
            "Variable 'y' not declared".to_string(),
            "If condition must be Bool, found Int".to_string(),
        ],
    );
}

#[test]
fn checker_reports_call_errors() {
    let t = lower_program(
        "func f(a: i32) -> i32 { return a; } func main() { f(1, 2); f(true); g(3); }",
    );
    let mut st = SymbolTable::new();
    let errors = analyze(&t, &mut st).unwrap_err();
    assert_eq!(
        errors,
        vec![
            "Function 'f' expects 1 args but 2 provided".to_string(),
            "Argument 1 of 'f' expects Int, found Bool".to_string(),
            "Call to unknown function 'g'".to_string(),
        ],
    );
}

#[test]
fn checker_reports_duplicate_functions_and_missing_return() {
    let t = lower_program("func f() -> i32 { let x: i32 = 1; } func f() { }");
    let mut st = SymbolTable::new();
    let errors = analyze(&t, &mut st).unwrap_err();
    assert_eq!(
        errors,
        vec![
            "Function 'f' already declared".to_string(),
            "Function 'f' declares return type Int but has no return statement".to_string(),
        ],
    );
}

#[test]
fn checker_treats_unknown_as_no_constraint() {
    // an undeclared-type let infers from its initializer; a call of unknown
    // return type mismatches nothing
    let t = lower_program("func f(n: i32) { } func main() { let x = 1; x = f(2); }");
    let mut st = SymbolTable::new();
    assert!(analyze(&t, &mut st).is_ok());
}

#[test]
fn semantic_helper_constructors() {
    assert!(matches!(MTree::lit_int(3), MTree::LIT_INT { value: 3 }));
    assert!(matches!(MTree::lit_bool(true), MTree::LIT_BOOL { value: true }));
    assert!(matches!(MTree::id("v".to_string()), MTree::ID { .. }));
}
