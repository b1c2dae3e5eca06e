//! The token normalizer: two rewrite passes over the flat token sequence.
//!
//! First, implicit multiplication is made explicit: a `*` function token is
//! inserted between two adjacent value tokens, so `2x` means `2*x`.  Second,
//! unary negation is made explicit: a `-` in prefix position gets a zero
//! inserted in front of it, so `-x` means `0 - x`.  The passes run in this
//! order, so the negation pass sees the final prefix-position context.

use vstd::prelude::*;
use crate::errors::{LexError, LexErrorV};
use crate::registry::{FunctionV, Parser, RegistryV, spec_find_function};
use crate::text::str_eq;
use crate::token::{Number, NumberV, Token, TokenV};

verus! {

/// The multiplication pass: `star` is the registered `*` descriptor, `prev`
/// the token emitted before `ts` (if any).  A `star` token goes in between
/// two adjacent value tokens.
pub open spec fn spec_norm_mults(star: FunctionV, prev: Option<TokenV>, ts: Seq<TokenV>) -> Seq<
    TokenV,
>
    decreases ts.len(),
{
    if ts.len() == 0 {
        Seq::empty()
    } else {
        let t = ts[0];
        let ins = (match prev {
            Some(p) => p.is_value(),
            None => false,
        }) && t.is_value();
        (if ins {
            seq![TokenV::Function(star), t]
        } else {
            seq![t]
        }) + spec_norm_mults(star, Some(t), ts.drop_first())
    }
}

/// Whether the multiplication pass would insert anything at all.
pub open spec fn spec_needs_mult(ts: Seq<TokenV>) -> bool {
    exists|i: int| 0 <= i < ts.len() - 1 && #[trigger] ts[i].is_value() && ts[i + 1].is_value()
}

/// What the multiplication pass yields: the rewritten sequence, or, when an
/// insertion is needed and no `*` is registered, the same unknown-name
/// error that an explicit `*` would have earned in the lexer.
pub open spec fn spec_insert_mults(reg: RegistryV, ts: Seq<TokenV>) -> Result<
    Seq<TokenV>,
    LexErrorV,
> {
    match spec_find_function(reg.functions, "*"@) {
        Some(star) => Ok(spec_norm_mults(star, None, ts)),
        None => if spec_needs_mult(ts) {
            Err(LexErrorV::UnknownExpression("*"@))
        } else {
            Ok(ts)
        },
    }
}

/// A position where a `-` denotes negation: the very beginning, or right
/// after a function token, an opening parenthesis, or a comma.
pub open spec fn spec_prefix_position(prev: Option<TokenV>) -> bool {
    match prev {
        None => true,
        Some(p) => p is Function || p is OpenParen || p is Comma,
    }
}

/// A token that is the registered `-` function.
pub open spec fn spec_is_minus(t: TokenV) -> bool {
    t matches TokenV::Function(f) && f.name == "-"@
}

/// The negation pass: a zero (the bit pattern of `+0.0` is 0) is inserted
/// before every `-` standing in prefix position, turning `-x` into `0 - x`.
pub open spec fn spec_fix_negations_from(prev: Option<TokenV>, ts: Seq<TokenV>) -> Seq<TokenV>
    decreases ts.len(),
{
    if ts.len() == 0 {
        Seq::empty()
    } else {
        let t = ts[0];
        let ins = spec_prefix_position(prev) && spec_is_minus(t);
        (if ins {
            seq![TokenV::Number(NumberV::Bits(0)), t]
        } else {
            seq![t]
        }) + spec_fix_negations_from(Some(t), ts.drop_first())
    }
}

/// The negation pass over a whole sequence.
pub open spec fn spec_fix_negations(ts: Seq<TokenV>) -> Seq<TokenV> {
    spec_fix_negations_from(None, ts)
}

/// Whether this token is the registered `-` function.
fn is_minus(t: &Token) -> (r: bool)
    ensures
        r == spec_is_minus(t@),
{
    match t {
        Token::Function(f) => str_eq(f.name.as_str(), "-"),
        _ => false,
    }
}

/// Whether the previous token (if any) puts the next one in prefix
/// position.
fn in_prefix_position(prev: Option<&Token>) -> (r: bool)
    ensures
        r == spec_prefix_position(match prev {
            Some(p) => Some(p@),
            None => None,
        }),
{
    match prev {
        None => true,
        Some(p) => match p {
            Token::Function(_) => true,
            Token::OpenParen => true,
            Token::Comma => true,
            _ => false,
        },
    }
}

impl Parser {
    /// Makes implicit multiplication explicit.
    ///
    /// A `*` token, copied from the registry, is inserted between two
    /// adjacent value tokens.  When an insertion is needed but no `*` is
    /// registered, the pass fails exactly as lexing an explicit `*` would:
    /// with an unknown-expression error naming `*`.
    pub fn insert_multiplications(&self, tokens: Vec<Token>) -> (r: Result<Vec<Token>, LexError>)
        ensures
            match r {
                Ok(v) => spec_insert_mults(self@, tokens.deep_view()) == Ok::<Seq<TokenV>,
                    LexErrorV>(v.deep_view()),
                Err(e) => spec_insert_mults(self@, tokens.deep_view()) == Err::<Seq<TokenV>,
                    LexErrorV>(e@),
            },
    {
        let ghost ts = tokens.deep_view();
        match self.find_function("*") {
            Some(star) => {
                let ghost starv = star@;
                let mut result: Vec<Token> = Vec::new();
                let mut i: usize = 0;
                proof {
                    assert(result.deep_view() =~= Seq::<TokenV>::empty());
                    assert(ts.skip(0) =~= ts);
                    assert(Seq::<TokenV>::empty() + spec_norm_mults(starv, None, ts)
                        =~= spec_norm_mults(starv, None, ts));
                }
                while i < tokens.len()
                    invariant
                        i <= tokens.len(),
                        ts == tokens.deep_view(),
                        ts.len() == tokens.len(),
                        starv == star@,
                        spec_norm_mults(starv, None, ts) == result.deep_view() + spec_norm_mults(
                            starv,
                            if i == 0 {
                                None
                            } else {
                                Some(ts[i - 1])
                            },
                            ts.skip(i as int),
                        ),
                    decreases tokens.len() - i,
                {
                    let ghost done = result.deep_view();
                    let ghost prev: Option<TokenV> = if i == 0 {
                        None
                    } else {
                        Some(ts[i - 1])
                    };
                    let ghost rest = ts.skip(i as int);
                    proof {
                        assert(rest.len() > 0);
                        assert(rest[0] == ts[i as int]);
                        assert(ts[i as int] == tokens@[i as int].deep_view());
                        assert(rest.drop_first() =~= ts.skip(i as int + 1));
                    }
                    let ins = i > 0 && tokens[i - 1].is_value() && tokens[i].is_value();
                    if ins {
                        result.push(Token::Function(star.clone()));
                        result.push(tokens[i].clone());
                        proof {
                            assert(result.deep_view() =~= done + seq![
                                TokenV::Function(starv),
                                ts[i as int],
                            ]);
                        }
                    } else {
                        result.push(tokens[i].clone());
                        proof {
                            assert(result.deep_view() =~= done + seq![ts[i as int]]);
                        }
                    }
                    proof {
                        let emitted = if ins {
                            seq![TokenV::Function(starv), ts[i as int]]
                        } else {
                            seq![ts[i as int]]
                        };
                        assert(spec_norm_mults(starv, prev, rest) == emitted + spec_norm_mults(
                            starv,
                            Some(ts[i as int]),
                            rest.drop_first(),
                        ));
                        assert(done + (emitted + spec_norm_mults(
                            starv,
                            Some(ts[i as int]),
                            ts.skip(i as int + 1),
                        )) =~= (done + emitted) + spec_norm_mults(
                            starv,
                            Some(ts[i as int]),
                            ts.skip(i as int + 1),
                        ));
                    }
                    i = i + 1;
                }
                proof {
                    assert(ts.skip(i as int) =~= Seq::<TokenV>::empty());
                    assert(result.deep_view() + Seq::<TokenV>::empty() =~= result.deep_view());
                }
                Ok(result)
            },
            None => {
                let mut i: usize = 1;
                while i < tokens.len()
                    invariant
                        1 <= i,
                        ts == tokens.deep_view(),
                        ts.len() == tokens.len(),
                        spec_find_function(self@.functions, "*"@) is None,
                        forall|j: int|
                            0 <= j < i - 1 ==> !(#[trigger] ts[j].is_value() && ts[j
                                + 1].is_value()),
                    decreases tokens.len() - i,
                {
                    if tokens[i - 1].is_value() && tokens[i].is_value() {
                        proof {
                            assert(ts[i - 1].is_value() && ts[i - 1 + 1].is_value());
                            assert(spec_needs_mult(ts));
                        }
                        return Err(LexError::UnknownExpression("*".to_owned()));
                    }
                    i = i + 1;
                }
                proof {
                    if spec_needs_mult(ts) {
                        let j = choose|j: int|
                            0 <= j < ts.len() - 1 && #[trigger] ts[j].is_value() && ts[j
                                + 1].is_value();
                        assert(!(ts[j].is_value() && ts[j + 1].is_value()));
                    }
                }
                Ok(tokens)
            },
        }
    }

    /// Makes unary negation explicit.
    ///
    /// A zero token is inserted before every `-` that stands at the
    /// beginning, or right after a function token, an opening parenthesis,
    /// or a comma, turning `-x` into `0 - x`.
    pub fn fix_negations(&self, tokens: Vec<Token>) -> (r: Vec<Token>)
        ensures
            r.deep_view() == spec_fix_negations(tokens.deep_view()),
    {
        let ghost ts = tokens.deep_view();
        let mut result: Vec<Token> = Vec::new();
        let mut i: usize = 0;
        proof {
            assert(result.deep_view() =~= Seq::<TokenV>::empty());
            assert(ts.skip(0) =~= ts);
            assert(Seq::<TokenV>::empty() + spec_fix_negations_from(None, ts)
                =~= spec_fix_negations_from(None, ts));
        }
        while i < tokens.len()
            invariant
                i <= tokens.len(),
                ts == tokens.deep_view(),
                ts.len() == tokens.len(),
                spec_fix_negations_from(None, ts) == result.deep_view()
                    + spec_fix_negations_from(
                    if i == 0 {
                        None
                    } else {
                        Some(ts[i - 1])
                    },
                    ts.skip(i as int),
                ),
            decreases tokens.len() - i,
        {
            let ghost done = result.deep_view();
            let ghost prev: Option<TokenV> = if i == 0 {
                None
            } else {
                Some(ts[i - 1])
            };
            let ghost rest = ts.skip(i as int);
            proof {
                assert(rest.len() > 0);
                assert(rest[0] == ts[i as int]);
                assert(ts[i as int] == tokens@[i as int].deep_view());
                assert(rest.drop_first() =~= ts.skip(i as int + 1));
            }
            let at_prefix = if i == 0 {
                in_prefix_position(None)
            } else {
                in_prefix_position(Some(&tokens[i - 1]))
            };
            let ins = at_prefix && is_minus(&tokens[i]);
            if ins {
                result.push(Token::Number(Number::Bits(0)));
                result.push(tokens[i].clone());
                proof {
                    assert(result.deep_view() =~= done + seq![
                        TokenV::Number(NumberV::Bits(0)),
                        ts[i as int],
                    ]);
                }
            } else {
                result.push(tokens[i].clone());
                proof {
                    assert(result.deep_view() =~= done + seq![ts[i as int]]);
                }
            }
            proof {
                let emitted = if ins {
                    seq![TokenV::Number(NumberV::Bits(0)), ts[i as int]]
                } else {
                    seq![ts[i as int]]
                };
                assert(spec_fix_negations_from(prev, rest) == emitted + spec_fix_negations_from(
                    Some(ts[i as int]),
                    rest.drop_first(),
                ));
                assert(done + (emitted + spec_fix_negations_from(
                    Some(ts[i as int]),
                    ts.skip(i as int + 1),
                )) =~= (done + emitted) + spec_fix_negations_from(
                    Some(ts[i as int]),
                    ts.skip(i as int + 1),
                ));
            }
            i = i + 1;
        }
        proof {
            assert(ts.skip(i as int) =~= Seq::<TokenV>::empty());
            assert(result.deep_view() + Seq::<TokenV>::empty() =~= result.deep_view());
        }
        result
    }
}

} // verus!
