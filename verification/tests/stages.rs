//! Tests of the pipeline's individual stages through their public
//! interfaces: the lexer, the two normalizer passes, the shunting-yard
//! conversion, and the evaluation machine's request protocol.

use formula::errors::LexError;
use formula::eval::EvalStep;
use formula::registry::{
    BinaryOp, ConstantDecl, DeclaredValue, FunctionBox, FunctionDecl, Parser,
};
use formula::shunting_yard::infix_to_postfix;
use formula::token::{Number, Token};

fn decl(name: &str, tag: &str, prec: i32) -> FunctionDecl {
    FunctionDecl { name: name.to_string(), type_tag: tag.to_string(), precedence: prec }
}

fn small_registry() -> Parser {
    let functions = vec![
        decl("+", "binary", 1),
        decl("-", "binary", 1),
        decl("*", "binary", 2),
        decl("^", "binary", 3),
        decl("sin", "unary", 4),
    ];
    let constants = vec![ConstantDecl {
        name: "pi".to_string(),
        value: DeclaredValue::Numeric(std::f64::consts::PI.to_bits()),
    }];
    Parser::new(functions, constants).unwrap()
}

#[test]
fn tokenize_keeps_literals_as_text() {
    let reg = small_registry();
    let tokens = reg.tokenize("3.14 + x").unwrap();
    assert_eq!(tokens.len(), 3);
    assert!(matches!(&tokens[0], Token::Number(Number::Literal(t)) if t == "3.14"));
    assert!(matches!(&tokens[1], Token::Function(f) if f.name == "+"));
    assert!(matches!(&tokens[2], Token::X));
}

#[test]
fn tokenize_inlines_constants() {
    let reg = small_registry();
    let tokens = reg.tokenize("pi").unwrap();
    assert_eq!(tokens.len(), 1);
    assert_eq!(
        tokens[0],
        Token::Number(Number::Bits(std::f64::consts::PI.to_bits()))
    );
}

#[test]
fn tokenize_rejects_unknown_identifier() {
    let reg = small_registry();
    assert_eq!(
        reg.tokenize("2 + tau").unwrap_err(),
        LexError::UnknownExpression("tau".to_string())
    );
}

#[test]
fn insert_multiplications_between_values() {
    let reg = small_registry();
    let tokens = reg.tokenize("2x").unwrap();
    let rewritten = reg.insert_multiplications(tokens).unwrap();
    assert_eq!(rewritten.len(), 3);
    assert!(matches!(&rewritten[1], Token::Function(f)
        if f.name == "*" && f.func == FunctionBox::Binary(BinaryOp::Mul) && f.precedence == 2));
}

#[test]
fn insert_multiplications_needs_star_registered() {
    let reg = Parser::new(vec![decl("+", "binary", 1)], vec![]).unwrap();
    let tokens = reg.tokenize("2 x").unwrap();
    assert_eq!(
        reg.insert_multiplications(tokens).unwrap_err(),
        LexError::UnknownExpression("*".to_string())
    );
}

#[test]
fn fix_negations_inserts_zero_before_prefix_minus() {
    let reg = small_registry();
    let tokens = reg.tokenize("-x").unwrap();
    let fixed = reg.fix_negations(tokens);
    assert_eq!(fixed.len(), 3);
    assert_eq!(fixed[0], Token::Number(Number::Bits(0)));
    assert!(matches!(&fixed[1], Token::Function(f) if f.name == "-"));
    assert!(matches!(&fixed[2], Token::X));
}

#[test]
fn fix_negations_leaves_infix_minus_alone() {
    let reg = small_registry();
    let tokens = reg.tokenize("x-1").unwrap();
    let fixed = reg.fix_negations(tokens);
    assert_eq!(fixed.len(), 3);
}

#[test]
fn shunting_yard_orders_by_precedence() {
    let reg = small_registry();
    let tokens = reg.tokenize("1+2*3").unwrap();
    let postfix = infix_to_postfix(tokens).unwrap();
    let shape: Vec<String> = postfix
        .iter()
        .map(|t| match t {
            Token::Number(Number::Literal(s)) => s.clone(),
            Token::Function(f) => f.name.clone(),
            _ => "?".to_string(),
        })
        .collect();
    assert_eq!(shape, ["1", "2", "3", "*", "+"]);
}

#[test]
fn evaluation_requests_follow_the_program() {
    let reg = small_registry();
    let expr = reg.parse("sin(x) + 2").unwrap();
    // Postfix: x sin 2 +
    let mut ev = expr.begin(0.25f64.to_bits());
    assert!(!ev.awaiting());
    match ev.step() {
        EvalStep::Unary { arg, .. } => {
            assert!(ev.awaiting());
            assert_eq!(f64::from_bits(arg), 0.25);
            ev.provide(0.5f64.to_bits());
        }
        other => panic!("unexpected request: {:?}", other),
    }
    match ev.step() {
        EvalStep::Literal { text } => {
            assert_eq!(text, "2");
            ev.provide(2.0f64.to_bits());
        }
        other => panic!("unexpected request: {:?}", other),
    }
    match ev.step() {
        EvalStep::Binary { lhs, rhs, .. } => {
            assert_eq!(f64::from_bits(lhs), 0.5);
            assert_eq!(f64::from_bits(rhs), 2.0);
            ev.provide(2.5f64.to_bits());
        }
        other => panic!("unexpected request: {:?}", other),
    }
    // The final request repeats the same value if asked again.
    assert!(matches!(ev.step(), EvalStep::Done { value } if f64::from_bits(value) == 2.5));
    assert!(matches!(ev.step(), EvalStep::Done { value } if f64::from_bits(value) == 2.5));
}
