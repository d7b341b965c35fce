use chinese_compiler::evaluator::{evaluate_expression, Expr, Term};
use chinese_compiler::executor::{execute_program, Program, Stmt};
use chinese_compiler::parser::parse_value;
use chinese_compiler::{Environment, EvalError, Value};

fn num(s: &str) -> Term {
    Term::NumberLiteral(s.to_string())
}

fn text(s: &str) -> Term {
    Term::StringLiteral(s.to_string())
}

fn var(s: &str) -> Term {
    Term::VariableName(s.to_string())
}

fn expr(terms: Vec<Term>) -> Expr {
    Expr { terms }
}

fn decl(name: &str, e: Expr) -> Stmt {
    Stmt::VarDecl { name: name.to_string(), value: e }
}

fn print(e: Expr) -> Stmt {
    Stmt::Print { value: e }
}

#[test]
fn declare_then_print_renders_value_and_newline() {
    let prog = Program {
        statements: vec![
            decl("x", expr(vec![num("42")])),
            print(expr(vec![var("x")])),
        ],
    };
    let mut env = Environment::new();
    let mut out = String::new();
    assert!(execute_program(&prog, &mut env, &mut out).is_ok());
    assert_eq!(out, "42\n");
}

#[test]
fn redeclaration_rebinds_and_prints_latest_value() {
    let prog = Program {
        statements: vec![
            decl("x", expr(vec![num("1")])),
            decl("x", expr(vec![num("7")])),
            print(expr(vec![var("x")])),
        ],
    };
    let mut env = Environment::new();
    let mut out = String::new();
    assert!(execute_program(&prog, &mut env, &mut out).is_ok());
    assert_eq!(out, "7\n");
}

#[test]
fn printing_undefined_variable_names_it() {
    let prog = Program { statements: vec![print(expr(vec![var("甲")]))] };
    let mut env = Environment::new();
    let mut out = String::new();
    let r = execute_program(&prog, &mut env, &mut out);
    assert!(matches!(r, Err(EvalError::UndefinedVariable(n)) if n == "甲"));
    assert_eq!(out, "");
}

#[test]
fn output_accumulates_in_document_order() {
    let prog = Program {
        statements: vec![
            decl("a", expr(vec![num("1")])),
            print(expr(vec![var("a")])),
            decl("b", expr(vec![text("\"好\"")])),
            print(expr(vec![var("b")])),
        ],
    };
    let mut env = Environment::new();
    let mut out = String::new();
    assert!(execute_program(&prog, &mut env, &mut out).is_ok());
    assert_eq!(out, "1\n好\n");
}

#[test]
fn text_then_numeral_concatenates_in_term_order() {
    let env = Environment::new();
    let e = expr(vec![text("\"你好\""), num("五")]);
    let v = evaluate_expression(&e, &env).unwrap();
    assert!(matches!(v, Value::Text(s) if s == "你好5"));
}

#[test]
fn two_numeric_terms_concatenate_digits() {
    let env = Environment::new();
    let e = expr(vec![num("1"), num("2")]);
    let v = evaluate_expression(&e, &env).unwrap();
    assert!(matches!(v, Value::Integer(12)));
}

#[test]
fn overflowing_buffer_reparse_defaults_to_zero() {
    let env = Environment::new();
    let e = expr(vec![num("9223372036854775807"), num("1")]);
    let v = evaluate_expression(&e, &env).unwrap();
    assert!(matches!(v, Value::Integer(0)));
}

#[test]
fn numeral_literal_evaluates_to_integer() {
    let env = Environment::new();
    let e = expr(vec![num("三千零五")]);
    let v = evaluate_expression(&e, &env).unwrap();
    assert!(matches!(v, Value::Integer(3005)));
}

#[test]
fn signed_ascii_literals_parse() {
    let env = Environment::new();
    let v = evaluate_expression(&expr(vec![num("-5")]), &env).unwrap();
    assert!(matches!(v, Value::Integer(-5)));
    let v = evaluate_expression(&expr(vec![num("+7")]), &env).unwrap();
    assert!(matches!(v, Value::Integer(7)));
}

#[test]
fn empty_number_literal_is_invalid() {
    let env = Environment::new();
    let r = evaluate_expression(&expr(vec![num("")]), &env);
    assert!(matches!(r, Err(EvalError::InvalidNumeral(s)) if s == ""));
}

#[test]
fn overflowing_ascii_literal_is_invalid() {
    let env = Environment::new();
    let r = evaluate_expression(&expr(vec![num("99999999999999999999")]), &env);
    assert!(matches!(r, Err(EvalError::InvalidNumeral(_))));
}

#[test]
fn overflowing_numeral_literal_is_invalid() {
    let env = Environment::new();
    let r = evaluate_expression(&expr(vec![num("万万万万万")]), &env);
    assert!(matches!(r, Err(EvalError::InvalidNumeral(s)) if s == "万万万万万"));
}

#[test]
fn nested_expression_contributes_its_rendering() {
    let env = Environment::new();
    let inner = expr(vec![text("\"a\""), num("1")]);
    let e = expr(vec![text("\"x\""), Term::Nested(inner)]);
    let v = evaluate_expression(&e, &env).unwrap();
    assert!(matches!(v, Value::Text(s) if s == "xa1"));
}

#[test]
fn short_string_literal_has_empty_content() {
    let env = Environment::new();
    let v = evaluate_expression(&expr(vec![text("\"")]), &env).unwrap();
    assert!(matches!(v, Value::Text(s) if s == ""));
}

#[test]
fn parse_value_resolves_a_variable() {
    let mut env = Environment::new();
    env.set_var("n".to_string(), Value::Integer(9));
    let v = parse_value(&var("n"), &env).unwrap();
    assert!(matches!(v, Value::Integer(9)));
}

#[test]
fn environment_lookup_and_rebinding() {
    let mut env = Environment::new();
    assert!(env.get_var("k").is_none());
    env.set_var("k".to_string(), Value::Integer(1));
    assert!(matches!(env.get_var("k"), Some(Value::Integer(1))));
    env.set_var("k".to_string(), Value::Text("t".to_string()));
    assert!(matches!(env.get_var("k"), Some(Value::Text(s)) if s == "t"));
}
