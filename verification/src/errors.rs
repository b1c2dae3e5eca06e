//! The error taxonomy of the compiler.
//!
//! Every stage reports failure through a `Result`; nothing in this crate
//! panics or aborts.  Each executable error type has a ghost mirror over
//! `Seq<char>` so that contracts can state exactly which error an input
//! produces.

use vstd::prelude::*;

verus! {

/// Failure while building the registry from declarative data.
#[derive(Debug, Clone, PartialEq, Eq)]
pub enum ConfigError {
    /// The declarative data was not shaped as expected (not an array of
    /// function descriptors, or not a map of constants).  Produced by the
    /// unverified layer that decodes the raw data, never by `Parser::new`.
    InvalidFormat,
    /// A function descriptor carried a type tag other than `unary`/`binary`.
    UnknownType(String),
    /// A function name with no native operation behind it.
    UnimplementedOperation(String),
    /// A constant whose declared value is not numeric.
    NotANumber(String),
}

/// Failure while scanning the source text.
#[derive(Debug, Clone, PartialEq, Eq)]
pub enum LexError {
    /// A character that starts no token while input remains.
    UnknownSymbol(char),
    /// An identifier that is neither `x`, a constant, nor a function.
    UnknownExpression(String),
    /// A digit run with more than one decimal point, or no digit at all.
    MalformedNumber(String),
}

/// Failure while converting infix tokens to postfix order.
#[derive(Debug, Clone, PartialEq, Eq)]
pub enum SyntaxError {
    /// A `)` with no `(` left on the operator stack.
    UnmatchedCloseParen,
    /// A `(` still on the operator stack when the input ends.
    UnmatchedOpenParen,
}

/// Structural failure of a postfix program, found by the validation pass
/// that `Parser::parse` runs before handing out a compiled expression.
#[derive(Debug, Clone, PartialEq, Eq)]
pub enum EvalError {
    /// A function reached with fewer operands on the stack than its arity.
    MissingOperand { name: String, expected: u32 },
    /// The program leaves no value on the stack.
    EmptyResult,
    /// The program leaves more than one value on the stack.
    LeftoverOperands(usize),
}

/// Everything `Parser::parse` can report: the union of the stage errors.
#[derive(Debug, Clone, PartialEq, Eq)]
pub enum CompileError {
    Lex(LexError),
    Syntax(SyntaxError),
    Eval(EvalError),
}

/// Ghost mirror of [`ConfigError`].
pub ghost enum ConfigErrorV {
    InvalidFormat,
    UnknownType(Seq<char>),
    UnimplementedOperation(Seq<char>),
    NotANumber(Seq<char>),
}

/// Ghost mirror of [`LexError`].
pub ghost enum LexErrorV {
    UnknownSymbol(char),
    UnknownExpression(Seq<char>),
    MalformedNumber(Seq<char>),
}

/// Ghost mirror of [`SyntaxError`].
pub ghost enum SyntaxErrorV {
    UnmatchedCloseParen,
    UnmatchedOpenParen,
}

/// Ghost mirror of [`EvalError`].
pub ghost enum EvalErrorV {
    MissingOperand { name: Seq<char>, expected: int },
    EmptyResult,
    LeftoverOperands(int),
}

/// Ghost mirror of [`CompileError`].
pub ghost enum CompileErrorV {
    Lex(LexErrorV),
    Syntax(SyntaxErrorV),
    Eval(EvalErrorV),
}

impl View for ConfigError {
    type V = ConfigErrorV;

    open spec fn view(&self) -> ConfigErrorV {
        match self {
            ConfigError::InvalidFormat => ConfigErrorV::InvalidFormat,
            ConfigError::UnknownType(s) => ConfigErrorV::UnknownType(s@),
            ConfigError::UnimplementedOperation(s) => ConfigErrorV::UnimplementedOperation(s@),
            ConfigError::NotANumber(s) => ConfigErrorV::NotANumber(s@),
        }
    }
}

impl View for LexError {
    type V = LexErrorV;

    open spec fn view(&self) -> LexErrorV {
        match self {
            LexError::UnknownSymbol(c) => LexErrorV::UnknownSymbol(*c),
            LexError::UnknownExpression(s) => LexErrorV::UnknownExpression(s@),
            LexError::MalformedNumber(s) => LexErrorV::MalformedNumber(s@),
        }
    }
}

impl View for SyntaxError {
    type V = SyntaxErrorV;

    open spec fn view(&self) -> SyntaxErrorV {
        match self {
            SyntaxError::UnmatchedCloseParen => SyntaxErrorV::UnmatchedCloseParen,
            SyntaxError::UnmatchedOpenParen => SyntaxErrorV::UnmatchedOpenParen,
        }
    }
}

impl View for EvalError {
    type V = EvalErrorV;

    open spec fn view(&self) -> EvalErrorV {
        match self {
            EvalError::MissingOperand { name, expected } => EvalErrorV::MissingOperand {
                name: name@,
                expected: *expected as int,
            },
            EvalError::EmptyResult => EvalErrorV::EmptyResult,
            EvalError::LeftoverOperands(n) => EvalErrorV::LeftoverOperands(*n as int),
        }
    }
}

impl View for CompileError {
    type V = CompileErrorV;

    open spec fn view(&self) -> CompileErrorV {
        match self {
            CompileError::Lex(e) => CompileErrorV::Lex(e@),
            CompileError::Syntax(e) => CompileErrorV::Syntax(e@),
            CompileError::Eval(e) => CompileErrorV::Eval(e@),
        }
    }
}

} // verus!
