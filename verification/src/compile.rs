//! The compiler entry point: from source text to a compiled expression.
//!
//! `Parser::parse` lexes the text, normalizes the tokens, converts them to
//! postfix order, and validates the program structurally before handing it
//! out — so a returned [`CompiledExpression`] is guaranteed to evaluate to
//! completion for every `x`, and every rejected formula earns exactly the
//! error the pipeline's spec functions assign to it.

use vstd::prelude::*;
use crate::errors::{CompileError, CompileErrorV};
use crate::eval::{CompiledExpression, spec_validate};
use crate::lexer::spec_lex;
use crate::normalize::{spec_fix_negations, spec_insert_mults};
use crate::registry::{Parser, RegistryV};
use crate::shunting_yard::{infix_to_postfix, spec_postfix_shape, spec_to_postfix};
use crate::token::{Token, TokenV};

verus! {

/// The postfix program a source text compiles to: lexing, implicit
/// multiplication, negation fix-up, then shunting-yard.
pub open spec fn spec_tokenize_to_postfix(reg: RegistryV, s: Seq<char>) -> Result<
    Seq<TokenV>,
    CompileErrorV,
> {
    match spec_lex(reg, s) {
        Err(e) => Err(CompileErrorV::Lex(e)),
        Ok(ts) => match spec_insert_mults(reg, ts) {
            Err(e) => Err(CompileErrorV::Lex(e)),
            Ok(ts1) => match spec_to_postfix(spec_fix_negations(ts1)) {
                Err(e) => Err(CompileErrorV::Syntax(e)),
                Ok(p) => Ok(p),
            },
        },
    }
}

/// What compilation returns: the postfix program, provided it also passes
/// the structural validation.
pub open spec fn spec_parse(reg: RegistryV, s: Seq<char>) -> Result<Seq<TokenV>, CompileErrorV> {
    match spec_tokenize_to_postfix(reg, s) {
        Err(e) => Err(e),
        Ok(p) => match spec_validate(p) {
            Err(e) => Err(CompileErrorV::Eval(e)),
            Ok(_) => Ok(p),
        },
    }
}

impl Parser {
    /// Lexes, normalizes and converts a formula to postfix order.
    pub fn tokenize_to_postfix(&self, s: &str) -> (r: Result<Vec<Token>, CompileError>)
        ensures
            match r {
                Ok(v) => spec_tokenize_to_postfix(self@, s@) == Ok::<Seq<TokenV>, CompileErrorV>(
                    v.deep_view(),
                ) && spec_postfix_shape(v.deep_view()),
                Err(e) => spec_tokenize_to_postfix(self@, s@) == Err::<Seq<TokenV>, CompileErrorV>(
                    e@,
                ),
            },
    {
        let tokens = match self.tokenize(s) {
            Ok(t) => t,
            Err(e) => {
                return Err(CompileError::Lex(e));
            },
        };
        let tokens = match self.insert_multiplications(tokens) {
            Ok(t) => t,
            Err(e) => {
                return Err(CompileError::Lex(e));
            },
        };
        let tokens = self.fix_negations(tokens);
        match infix_to_postfix(tokens) {
            Ok(p) => Ok(p),
            Err(e) => Err(CompileError::Syntax(e)),
        }
    }

    /// The compiler entry point.
    ///
    /// The formula is compiled and then validated structurally, so that the
    /// returned expression is guaranteed to evaluate to completion for any
    /// value of `x`; the validation errors surface here, at compile time.
    pub fn parse(&self, s: &str) -> (r: Result<CompiledExpression, CompileError>)
        ensures
            match r {
                Ok(ce) => spec_parse(self@, s@) == Ok::<Seq<TokenV>, CompileErrorV>(ce@)
                    && ce.wf(),
                Err(e) => spec_parse(self@, s@) == Err::<Seq<TokenV>, CompileErrorV>(e@),
            },
    {
        let postfix = match self.tokenize_to_postfix(s) {
            Ok(p) => p,
            Err(e) => {
                return Err(e);
            },
        };
        match CompiledExpression::new(postfix) {
            Ok(ce) => Ok(ce),
            Err(e) => Err(CompileError::Eval(e)),
        }
    }
}

} // verus!
