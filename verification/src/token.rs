//! Tokens of the formula language.
//!
//! A token owns everything the later stages need: a function token carries a
//! copy of its registry descriptor, so a token sequence is self-contained.
//! A numeric token is either the text of a literal, parsed later by whoever
//! drives an evaluation, or the bit pattern of an IEEE-754 double, which is
//! how inlined constants and the normalizer's zeros travel.

use vstd::prelude::*;
use crate::registry::{Function, FunctionV};

verus! {

/// The payload of a numeric token.
#[derive(Debug, PartialEq, Eq)]
pub enum Number {
    /// The text of a literal from the source, e.g. `3.14`.
    Literal(String),
    /// The bit pattern of an IEEE-754 double.
    Bits(u64),
}

/// One token of the formula language.
#[derive(Debug, PartialEq, Eq)]
pub enum Token {
    Number(Number),
    Function(Function),
    X,
    OpenParen,
    CloseParen,
    Comma,
}

/// Ghost mirror of [`Number`].
pub ghost enum NumberV {
    Literal(Seq<char>),
    Bits(u64),
}

/// Ghost mirror of [`Token`].
pub ghost enum TokenV {
    Number(NumberV),
    Function(FunctionV),
    X,
    OpenParen,
    CloseParen,
    Comma,
}

impl View for Number {
    type V = NumberV;

    open spec fn view(&self) -> NumberV {
        match self {
            Number::Literal(s) => NumberV::Literal(s@),
            Number::Bits(b) => NumberV::Bits(*b),
        }
    }
}

impl DeepView for Number {
    type V = NumberV;

    open spec fn deep_view(&self) -> NumberV {
        self.view()
    }
}

impl View for Token {
    type V = TokenV;

    open spec fn view(&self) -> TokenV {
        match self {
            Token::Number(n) => TokenV::Number(n@),
            Token::Function(f) => TokenV::Function(f@),
            Token::X => TokenV::X,
            Token::OpenParen => TokenV::OpenParen,
            Token::CloseParen => TokenV::CloseParen,
            Token::Comma => TokenV::Comma,
        }
    }
}

impl DeepView for Token {
    type V = TokenV;

    open spec fn deep_view(&self) -> TokenV {
        self.view()
    }
}

impl Clone for Number {
    fn clone(&self) -> (r: Self)
        ensures
            r == *self,
    {
        match self {
            Number::Literal(s) => Number::Literal(s.clone()),
            Number::Bits(b) => Number::Bits(*b),
        }
    }
}

impl Clone for Token {
    fn clone(&self) -> (r: Self)
        ensures
            r == *self,
    {
        match self {
            Token::Number(n) => Token::Number(n.clone()),
            Token::Function(f) => Token::Function(f.clone()),
            Token::X => Token::X,
            Token::OpenParen => Token::OpenParen,
            Token::CloseParen => Token::CloseParen,
            Token::Comma => Token::Comma,
        }
    }
}

impl TokenV {
    /// A value token: a number or the variable.
    pub open spec fn is_value(self) -> bool {
        self is Number || self is X
    }
}

impl Token {
    /// A value token: a number or the variable.
    pub fn is_value(&self) -> (r: bool)
        ensures
            r == self@.is_value(),
    {
        match self {
            Token::Number(_) => true,
            Token::X => true,
            _ => false,
        }
    }
}

} // verus!
