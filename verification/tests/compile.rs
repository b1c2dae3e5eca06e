//! End-to-end tests of the formula compiler: compilation, the error
//! taxonomy, and numeric evaluation through the step machine with an
//! IEEE-754 operation table supplied by the test driver.

use formula::errors::{CompileError, EvalError, LexError, SyntaxError};
use formula::eval::{CompiledExpression, EvalStep};
use formula::registry::{BinaryOp, ConstantDecl, DeclaredValue, FunctionDecl, Parser, UnaryOp};

fn decl(name: &str, tag: &str, prec: i32) -> FunctionDecl {
    FunctionDecl { name: name.to_string(), type_tag: tag.to_string(), precedence: prec }
}

fn constant(name: &str, value: f64) -> ConstantDecl {
    ConstantDecl { name: name.to_string(), value: DeclaredValue::Numeric(value.to_bits()) }
}

/// The precedence table: `+ -` at 1, `* /` at 2, `^` at 3, named unary
/// functions highest.
fn standard_registry() -> Parser {
    let functions = vec![
        decl("+", "binary", 1),
        decl("-", "binary", 1),
        decl("*", "binary", 2),
        decl("/", "binary", 2),
        decl("^", "binary", 3),
        decl("max", "binary", 1),
        decl("exp", "unary", 4),
        decl("sin", "unary", 4),
        decl("cos", "unary", 4),
        decl("tan", "unary", 4),
        decl("sqrt", "unary", 4),
        decl("ln", "unary", 4),
    ];
    let constants = vec![
        constant("pi", std::f64::consts::PI),
        constant("e", std::f64::consts::E),
    ];
    Parser::new(functions, constants).unwrap()
}

/// Drives one evaluation, applying the native f64 operations the machine
/// asks for.
fn evaluate(expr: &CompiledExpression, x: f64) -> f64 {
    let mut ev = expr.begin(x.to_bits());
    loop {
        match ev.step() {
            EvalStep::Done { value } => return f64::from_bits(value),
            EvalStep::Literal { text } => {
                let v: f64 = text.parse().unwrap();
                ev.provide(v.to_bits());
            }
            EvalStep::Unary { op, arg } => {
                let a = f64::from_bits(arg);
                let r = match op {
                    UnaryOp::Exp => a.exp(),
                    UnaryOp::Sin => a.sin(),
                    UnaryOp::Cos => a.cos(),
                    UnaryOp::Tan => a.tan(),
                    UnaryOp::Sqrt => a.sqrt(),
                    UnaryOp::Ln => a.ln(),
                };
                ev.provide(r.to_bits());
            }
            EvalStep::Binary { op, lhs, rhs } => {
                let a = f64::from_bits(lhs);
                let b = f64::from_bits(rhs);
                let r = match op {
                    BinaryOp::Add => a + b,
                    BinaryOp::Sub => a - b,
                    BinaryOp::Mul => a * b,
                    BinaryOp::Div => a / b,
                    BinaryOp::Pow => a.powf(b),
                    BinaryOp::Max => a.max(b),
                };
                ev.provide(r.to_bits());
            }
        }
    }
}

fn compile_and_eval(src: &str, x: f64) -> f64 {
    let reg = standard_registry();
    let expr = reg.parse(src).unwrap();
    evaluate(&expr, x)
}

fn compile_err(src: &str) -> CompileError {
    standard_registry().parse(src).unwrap_err()
}

#[test]
fn five_plus_sin_at_zero() {
    assert_eq!(compile_and_eval("5 + sin(x)", 0.0), 5.0);
}

#[test]
fn variable_alone() {
    assert_eq!(compile_and_eval("x", 7.0), 7.0);
    assert_eq!(compile_and_eval("x", -2.5), -2.5);
}

#[test]
fn implicit_multiplication_matches_explicit() {
    let reg = standard_registry();
    let implicit = reg.parse("2x").unwrap();
    let explicit = reg.parse("2*x").unwrap();
    assert_eq!(implicit.postfix(), explicit.postfix());
    for v in [-2.5, 0.0, 1.0, 3.25, 10.0] {
        assert_eq!(evaluate(&implicit, v), evaluate(&explicit, v));
    }
}

#[test]
fn implicit_multiplication_value() {
    assert_eq!(compile_and_eval("2x", 4.0), 8.0);
}

#[test]
fn negation_binds_looser_than_power() {
    // `-x^2` is rewritten to `0 - x^2` before `^` binds: 0 - (3^2) = -9.
    assert_eq!(compile_and_eval("-x^2", 3.0), -9.0);
}

#[test]
fn leading_negation() {
    assert_eq!(compile_and_eval("-5", 0.0), -5.0);
    assert_eq!(compile_and_eval("-x", 4.0), -4.0);
}

#[test]
fn unmatched_open_paren_is_error() {
    assert_eq!(
        compile_err("(1+2"),
        CompileError::Syntax(SyntaxError::UnmatchedOpenParen)
    );
}

#[test]
fn unmatched_close_paren_is_error() {
    assert_eq!(
        compile_err("1+2)"),
        CompileError::Syntax(SyntaxError::UnmatchedCloseParen)
    );
}

#[test]
fn unknown_symbol_identifies_it() {
    assert_eq!(
        compile_err("5 @ 3"),
        CompileError::Lex(LexError::UnknownSymbol('@'))
    );
}

#[test]
fn unknown_expression_names_it() {
    assert_eq!(
        compile_err("foo(2)"),
        CompileError::Lex(LexError::UnknownExpression("foo".to_string()))
    );
}

#[test]
fn missing_operand_names_sin_and_arity() {
    assert_eq!(
        compile_err("sin()"),
        CompileError::Eval(EvalError::MissingOperand { name: "sin".to_string(), expected: 1 })
    );
}

#[test]
fn missing_operand_of_binary_function() {
    assert_eq!(
        compile_err("1+"),
        CompileError::Eval(EvalError::MissingOperand { name: "+".to_string(), expected: 2 })
    );
}

#[test]
fn empty_formula_is_empty_result() {
    assert_eq!(compile_err(""), CompileError::Eval(EvalError::EmptyResult));
    assert_eq!(compile_err("()"), CompileError::Eval(EvalError::EmptyResult));
}

#[test]
fn leftover_operands_are_counted() {
    // Parentheses do not trigger implicit multiplication, so two values
    // remain on the stack.
    assert_eq!(
        compile_err("sin(x) 5"),
        CompileError::Eval(EvalError::LeftoverOperands(2))
    );
}

#[test]
fn malformed_number_is_rejected() {
    assert_eq!(
        compile_err("1.2.3"),
        CompileError::Lex(LexError::MalformedNumber("1.2.3".to_string()))
    );
    assert_eq!(
        compile_err("."),
        CompileError::Lex(LexError::MalformedNumber(".".to_string()))
    );
}

#[test]
fn constants_evaluate_to_their_value() {
    for x in [0.0, 1.5, -3.0] {
        assert_eq!(compile_and_eval("pi", x), std::f64::consts::PI);
        assert_eq!(compile_and_eval("e", x), std::f64::consts::E);
    }
}

#[test]
fn compiling_twice_is_idempotent() {
    let reg = standard_registry();
    let first = reg.parse("5 + sin(x)").unwrap();
    let second = reg.parse("5 + sin(x)").unwrap();
    assert_eq!(first.postfix(), second.postfix());
    for x in [0.0, 0.5, 2.0, -1.25] {
        assert_eq!(evaluate(&first, x), evaluate(&second, x));
    }
}

#[test]
fn decimal_literals() {
    assert_eq!(compile_and_eval("1.5 + 2.25", 0.0), 3.75);
    assert_eq!(compile_and_eval(".5 * 4", 0.0), 2.0);
    assert_eq!(compile_and_eval("2.", 0.0), 2.0);
}

#[test]
fn precedence_table() {
    assert_eq!(compile_and_eval("2+3*4", 0.0), 14.0);
    assert_eq!(compile_and_eval("2*3^2", 0.0), 18.0);
    assert_eq!(compile_and_eval("(2+3)*4", 0.0), 20.0);
}

#[test]
fn equal_precedence_associates_left() {
    assert_eq!(compile_and_eval("8-3-2", 0.0), 3.0);
    assert_eq!(compile_and_eval("16/4/2", 0.0), 2.0);
}

#[test]
fn unary_functions_apply() {
    assert_eq!(compile_and_eval("sqrt(x)", 9.0), 3.0);
    assert_eq!(compile_and_eval("sin(cos(x))", 0.0), 1.0f64.sin());
    assert_eq!(compile_and_eval("ln(e)", 0.0), std::f64::consts::E.ln());
}

#[test]
fn binary_max_with_comma() {
    assert_eq!(compile_and_eval("max(2,10)", 0.0), 10.0);
    assert_eq!(compile_and_eval("max(x, 0 - x)", -4.0), 4.0);
}

#[test]
fn whitespace_is_skipped() {
    assert_eq!(compile_and_eval("  1 \t+\r\n 2  ", 0.0), 3.0);
}

#[test]
fn expression_reusable_across_values() {
    let reg = standard_registry();
    let expr = reg.parse("x^2 + 1").unwrap();
    assert_eq!(evaluate(&expr, 0.0), 1.0);
    assert_eq!(evaluate(&expr, 2.0), 5.0);
    assert_eq!(evaluate(&expr, -3.0), 10.0);
}

#[test]
fn division_by_zero_is_not_an_error() {
    assert!(compile_and_eval("1/x", 0.0).is_infinite());
}
