//! Tests of registry construction and its error taxonomy.

use formula::errors::ConfigError;
use formula::registry::{
    ConstantDecl, DeclaredValue, FunctionBox, FunctionDecl, Parser, UnaryOp,
};

fn decl(name: &str, tag: &str, prec: i32) -> FunctionDecl {
    FunctionDecl { name: name.to_string(), type_tag: tag.to_string(), precedence: prec }
}

#[test]
fn unknown_type_tag_is_rejected() {
    let err = Parser::new(vec![decl("sin", "ternary", 4)], vec![]).unwrap_err();
    assert_eq!(err, ConfigError::UnknownType("ternary".to_string()));
}

#[test]
fn unimplemented_operation_is_rejected() {
    let err = Parser::new(vec![decl("foo", "unary", 4)], vec![]).unwrap_err();
    assert_eq!(err, ConfigError::UnimplementedOperation("foo".to_string()));
    let err = Parser::new(vec![decl("foo", "binary", 1)], vec![]).unwrap_err();
    assert_eq!(err, ConfigError::UnimplementedOperation("foo".to_string()));
}

#[test]
fn non_numeric_constant_is_rejected() {
    let bad = ConstantDecl { name: "bad".to_string(), value: DeclaredValue::NotNumeric };
    let err = Parser::new(vec![], vec![bad]).unwrap_err();
    assert_eq!(err, ConfigError::NotANumber("bad".to_string()));
}

#[test]
fn first_bad_declaration_is_reported() {
    let err = Parser::new(
        vec![decl("sin", "unary", 4), decl("mystery", "mystic", 0), decl("foo", "unary", 1)],
        vec![],
    )
    .unwrap_err();
    assert_eq!(err, ConfigError::UnknownType("mystic".to_string()));
}

#[test]
fn lookups_reflect_registration() {
    let reg = Parser::new(
        vec![decl("sin", "unary", 4), decl("+", "binary", 1)],
        vec![ConstantDecl { name: "pi".to_string(), value: DeclaredValue::Numeric(3.0f64.to_bits()) }],
    )
    .unwrap();
    assert!(reg.is_function("sin"));
    assert!(reg.is_function("+"));
    assert!(!reg.is_function("cos"));
    assert!(reg.is_constant("pi"));
    assert!(!reg.is_constant("tau"));
    assert_eq!(reg.find_constant("pi"), Some(3.0f64.to_bits()));
    let sin = reg.find_function("sin").unwrap();
    assert_eq!(sin.func, FunctionBox::Unary(UnaryOp::Sin));
    assert_eq!(sin.precedence, 4);
}

#[test]
fn redeclared_name_replaces_earlier_entry() {
    let reg = Parser::new(vec![decl("sin", "unary", 4), decl("sin", "unary", 9)], vec![]).unwrap();
    let sin = reg.find_function("sin").unwrap();
    assert_eq!(sin.precedence, 9);
}
