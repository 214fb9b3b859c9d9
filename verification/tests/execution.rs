use lang::interpreter::{Environment, Interpreter, Value};
use lang::lexer::Lexer;
use lang::parser::Parser;
use lang::semantic::{MTree, SymbolTable, analyze, fold_constants, from_parse_tree};

fn lower_program(src: &str) -> MTree {
    let lexer = Lexer::new(src.to_string());
    let mut parser = Parser::new(lexer);
    let pt = parser.analyze().expect("the program should parse");
    from_parse_tree(&pt).expect("the program should lower")
}

/// Run the full pipeline: parse, lower, fold, check, interpret.
fn run(src: &str) -> (Result<(), String>, Vec<Value>) {
    let mut ast = lower_program(src);
    fold_constants(&mut ast);
    let mut st = SymbolTable::new();
    analyze(&ast, &mut st).expect("the program should type-check");
    let mut interp = Interpreter::new();
    let r = interp.execute(ast);
    (r, interp.output)
}

/// Run without the checker, as the interpreter alone would.
fn run_unchecked(src: &str) -> (Result<(), String>, Vec<Value>) {
    let ast = lower_program(src);
    let mut interp = Interpreter::new();
    let r = interp.execute(ast);
    (r, interp.output)
}

#[test]
fn end_to_end_prints_the_smaller_number() {
    let src = "
func main() -> i32 {
    let x: i32 = 3;
    let y: i32 = 4;
    if x < y { print x; } else { print y; }
    return 0;
}
";
    let ast = lower_program(src);
    let mut st = SymbolTable::new();
    assert!(analyze(&ast, &mut st).is_ok());
    let (r, out) = run(src);
    assert!(r.is_ok());
    assert_eq!(out, vec![Value::Int(3)]);
}

#[test]
fn runtime_error_on_undeclared_function() {
    let (r, _) = run_unchecked("func main() -> i32 { return g(1); }");
    assert_eq!(r.unwrap_err(), "Runtime error: Function 'g' not found".to_string());
    // a call with no arguments parses as a bare identifier, so the error
    // names an unbound variable instead
    let (r2, _) = run_unchecked("func main() -> i32 { return g(); }");
    assert_eq!(r2.unwrap_err(), "Runtime error: Variable 'g' not found".to_string());
}

#[test]
fn division_by_a_runtime_zero_fails() {
    let src = "func main() -> i32 { let x: i32 = 0; return 1 / x; }";
    // the program is statically well typed but fails at run time
    let (r, _) = run(src);
    assert_eq!(r.unwrap_err(), "Runtime error: Division by zero".to_string());
}

#[test]
fn runtime_error_on_arity_mismatch() {
    let (r, _) = run_unchecked(
        "func f(a: i32, b: i32) -> i32 { return a; } func main() { f(1); }",
    );
    assert_eq!(r.unwrap_err(), "Runtime error: Function 'f' expects 2 arguments, got 1".to_string());
}

#[test]
fn call_binds_arguments_positionally() {
    let (r, out) = run(
        "func add(a: i32, b: i32) -> i32 { return a + b; } func main() { print add(1, 2); }",
    );
    assert!(r.is_ok());
    assert_eq!(out, vec![Value::Int(3)]);
}

#[test]
fn while_loop_counts() {
    let (r, out) = run("func main() { let i: i32 = 0; while i < 3 { print i; i = i + 1; } }");
    assert!(r.is_ok());
    assert_eq!(out, vec![Value::Int(0), Value::Int(1), Value::Int(2)]);
}

#[test]
fn return_bubbles_out_of_a_loop() {
    let (r, out) = run(
        "func f(n: i32) -> i32 { let i: i32 = n; while true { i = i + 1; if i > 2 { return i; } } return 0; } func main() { print f(0); }",
    );
    assert!(r.is_ok());
    assert_eq!(out, vec![Value::Int(3)]);
}

#[test]
fn logical_operators_do_not_short_circuit() {
    // both operands are always evaluated, so the side effect shows twice
    let (r, out) = run(
        "func t(n: i32) -> bool { print n; return false; } func main() { let b: bool = t(1) && t(1); print 99; }",
    );
    assert!(r.is_ok());
    assert_eq!(out, vec![Value::Int(1), Value::Int(1), Value::Int(99)]);
}

#[test]
fn unary_operators_evaluate() {
    let (r, out) = run("func main() { print -3; print !true; }");
    assert!(r.is_ok());
    assert_eq!(out, vec![Value::Int(-3), Value::Bool(false)]);
}

#[test]
fn blocks_scope_the_interpreter_environment() {
    // the interpreter gives each block its own frame, so the inner binding
    // shadows and the outer one survives; the checker's flat table would
    // reject the redeclaration, so this runs unchecked
    let (r, out) = run_unchecked(
        "func main() { let x: i32 = 1; { let x: i32 = 2; print x; } print x; }",
    );
    assert!(r.is_ok());
    assert_eq!(out, vec![Value::Int(2), Value::Int(1)]);
}

#[test]
fn assignment_statement_updates_the_binding() {
    let (r, out) = run("func main() { let x: i32 = 0; x = 5; print x; }");
    assert!(r.is_ok());
    assert_eq!(out, vec![Value::Int(5)]);
}

#[test]
fn let_without_initializer_takes_the_default() {
    let (r, out) = run("func main() { let x: i32; let b: bool; print x; print b; }");
    assert!(r.is_ok());
    assert_eq!(out, vec![Value::Int(0), Value::Bool(false)]);
}

#[test]
fn runtime_error_on_overflow() {
    let src = "func main() -> i32 { let x: i32 = 2147483647; return x + 1; }";
    let (r, _) = run(src);
    assert_eq!(r.unwrap_err(), "Runtime error: Arithmetic overflow".to_string());
}

#[test]
fn division_truncates_toward_zero() {
    let (r, out) = run("func main() { print (0 - 7) / 2; print 7 / 2; }");
    assert!(r.is_ok());
    assert_eq!(out, vec![Value::Int(-3), Value::Int(3)]);
}

#[test]
fn value_accessors_and_messages() {
    assert_eq!(Value::Int(3).as_int().unwrap(), 3);
    assert_eq!(Value::Bool(true).as_bool().unwrap(), true);
    assert_eq!(Value::Bool(true).as_int().unwrap_err(), "Expected Int, found Bool(true)");
    assert_eq!(Value::Int(-2).as_bool().unwrap_err(), "Expected Bool, found Int(-2)");
    assert_eq!(Value::Void.as_int().unwrap_err(), "Expected Int, found Void");
}

#[test]
fn environment_scopes_and_lookup() {
    let mut env = Environment::new();
    env.declare("x".to_string(), Value::Int(1));
    assert_eq!(env.get("x").unwrap(), Value::Int(1));
    env.push_scope();
    env.declare("x".to_string(), Value::Int(2));
    assert_eq!(env.get("x").unwrap(), Value::Int(2));
    assert!(env.set("x", Value::Int(5)).is_ok());
    assert_eq!(env.get("x").unwrap(), Value::Int(5));
    env.pop_scope();
    assert_eq!(env.get("x").unwrap(), Value::Int(1));
    assert_eq!(env.get("y").unwrap_err(), "Variable 'y' not found");
    assert_eq!(env.set("y", Value::Void).unwrap_err(), "Variable 'y' not found");
}

#[test]
fn set_reaches_outer_frames() {
    let mut env = Environment::new();
    env.declare("x".to_string(), Value::Int(1));
    env.push_scope();
    assert!(env.set("x", Value::Int(9)).is_ok());
    env.pop_scope();
    assert_eq!(env.get("x").unwrap(), Value::Int(9));
}

#[test]
fn callee_falls_through_to_void() {
    let (r, out) = run_unchecked("func f(n: i32) { } func main() { print f(1); }");
    assert!(r.is_ok());
    assert_eq!(out, vec![Value::Void]);
}
