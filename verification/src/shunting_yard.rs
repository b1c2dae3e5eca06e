//! Infix to postfix conversion: the shunting-yard algorithm.
//!
//! Values go straight to the output; a function pops every stacked function
//! of precedence at least its own (equal precedence pops, so operators of
//! one precedence level associate to the left) and then stacks itself; an
//! opening parenthesis is stacked; a closing one pops functions until its
//! opening partner.  A `)` with no `(` on the stack, or a `(` still stacked
//! at the end, is a syntax error.  Commas are skipped: they take no part in
//! this grammar's stack logic.

use vstd::prelude::*;
use crate::errors::{SyntaxError, SyntaxErrorV};
use crate::registry::FunctionV;
use crate::token::{Token, TokenV};

verus! {

/// Only function tokens and opening parentheses live on the operator stack.
pub open spec fn spec_stack_shape(stack: Seq<TokenV>) -> bool {
    forall|i: int|
        0 <= i < stack.len() ==> (#[trigger] stack[i]) is Function || stack[i] is OpenParen
}

/// A postfix program holds only values and functions.
pub open spec fn spec_postfix_shape(ts: Seq<TokenV>) -> bool {
    forall|i: int| 0 <= i < ts.len() ==> (#[trigger] ts[i]).is_value() || ts[i] is Function
}

/// Popping every stacked function whose precedence is at least `f`'s,
/// stopping at an opening parenthesis or an emptied stack; yields the new
/// stack and output.
pub open spec fn spec_pop_ge(f: FunctionV, stack: Seq<TokenV>, out: Seq<TokenV>) -> (
    Seq<TokenV>,
    Seq<TokenV>,
)
    decreases stack.len(),
{
    if stack.len() == 0 {
        (stack, out)
    } else {
        match stack.last() {
            TokenV::Function(g) => if g.precedence >= f.precedence {
                spec_pop_ge(f, stack.drop_last(), out.push(TokenV::Function(g)))
            } else {
                (stack, out)
            },
            _ => (stack, out),
        }
    }
}

/// Handling a closing parenthesis: functions are popped to the output until
/// the opening partner, which is discarded; an emptied stack is the
/// unmatched-parenthesis error.
pub open spec fn spec_close_paren(stack: Seq<TokenV>, out: Seq<TokenV>) -> Result<
    (Seq<TokenV>, Seq<TokenV>),
    SyntaxErrorV,
>
    decreases stack.len(),
{
    if stack.len() == 0 {
        Err(SyntaxErrorV::UnmatchedCloseParen)
    } else {
        match stack.last() {
            TokenV::Function(g) => spec_close_paren(
                stack.drop_last(),
                out.push(TokenV::Function(g)),
            ),
            TokenV::OpenParen => Ok((stack.drop_last(), out)),
            _ => Err(SyntaxErrorV::UnmatchedCloseParen),
        }
    }
}

/// Draining the stack at the end of input: functions are emitted; an
/// opening parenthesis still stacked is the unmatched-parenthesis error.
pub open spec fn spec_drain(stack: Seq<TokenV>, out: Seq<TokenV>) -> Result<
    Seq<TokenV>,
    SyntaxErrorV,
>
    decreases stack.len(),
{
    if stack.len() == 0 {
        Ok(out)
    } else {
        match stack.last() {
            TokenV::Function(g) => spec_drain(stack.drop_last(), out.push(TokenV::Function(g))),
            _ => Err(SyntaxErrorV::UnmatchedOpenParen),
        }
    }
}

/// The whole conversion, one input token at a time.
pub open spec fn spec_shunt(ts: Seq<TokenV>, stack: Seq<TokenV>, out: Seq<TokenV>) -> Result<
    Seq<TokenV>,
    SyntaxErrorV,
>
    decreases ts.len(),
{
    if ts.len() == 0 {
        spec_drain(stack, out)
    } else {
        let t = ts[0];
        let rest = ts.drop_first();
        match t {
            TokenV::Function(f) => {
                let popped = spec_pop_ge(f, stack, out);
                spec_shunt(rest, popped.0.push(t), popped.1)
            },
            TokenV::OpenParen => spec_shunt(rest, stack.push(t), out),
            TokenV::CloseParen => match spec_close_paren(stack, out) {
                Ok(popped) => spec_shunt(rest, popped.0, popped.1),
                Err(e) => Err(e),
            },
            TokenV::Comma => spec_shunt(rest, stack, out),
            _ => spec_shunt(rest, stack, out.push(t)),
        }
    }
}

/// Postfix order of an infix token sequence, or its syntax error.
pub open spec fn spec_to_postfix(ts: Seq<TokenV>) -> Result<Seq<TokenV>, SyntaxErrorV> {
    spec_shunt(ts, Seq::empty(), Seq::empty())
}

/// The conversion only ever outputs values and functions.
pub proof fn lemma_pop_ge_shape(f: FunctionV, stack: Seq<TokenV>, out: Seq<TokenV>)
    requires
        spec_stack_shape(stack),
        spec_postfix_shape(out),
    ensures
        spec_stack_shape(spec_pop_ge(f, stack, out).0),
        spec_postfix_shape(spec_pop_ge(f, stack, out).1),
    decreases stack.len(),
{
    if stack.len() > 0 {
        match stack.last() {
            TokenV::Function(g) => {
                if g.precedence >= f.precedence {
                    assert(spec_postfix_shape(out.push(TokenV::Function(g))));
                    lemma_pop_ge_shape(f, stack.drop_last(), out.push(TokenV::Function(g)));
                }
            },
            _ => {},
        }
    }
}

/// Shape preservation for the closing-parenthesis pops.
pub proof fn lemma_close_paren_shape(stack: Seq<TokenV>, out: Seq<TokenV>)
    requires
        spec_stack_shape(stack),
        spec_postfix_shape(out),
    ensures
        match spec_close_paren(stack, out) {
            Ok(popped) => spec_stack_shape(popped.0) && spec_postfix_shape(popped.1),
            Err(_) => true,
        },
    decreases stack.len(),
{
    if stack.len() > 0 {
        match stack.last() {
            TokenV::Function(g) => {
                assert(spec_postfix_shape(out.push(TokenV::Function(g))));
                lemma_close_paren_shape(stack.drop_last(), out.push(TokenV::Function(g)));
            },
            _ => {},
        }
    }
}

/// Shape preservation for the final drain.
pub proof fn lemma_drain_shape(stack: Seq<TokenV>, out: Seq<TokenV>)
    requires
        spec_stack_shape(stack),
        spec_postfix_shape(out),
    ensures
        match spec_drain(stack, out) {
            Ok(p) => spec_postfix_shape(p),
            Err(_) => true,
        },
    decreases stack.len(),
{
    if stack.len() > 0 {
        match stack.last() {
            TokenV::Function(g) => {
                assert(spec_postfix_shape(out.push(TokenV::Function(g))));
                lemma_drain_shape(stack.drop_last(), out.push(TokenV::Function(g)));
            },
            _ => {},
        }
    }
}

/// A successful conversion yields a postfix-shaped program.
pub proof fn lemma_shunt_shape(ts: Seq<TokenV>, stack: Seq<TokenV>, out: Seq<TokenV>)
    requires
        spec_stack_shape(stack),
        spec_postfix_shape(out),
    ensures
        match spec_shunt(ts, stack, out) {
            Ok(p) => spec_postfix_shape(p),
            Err(_) => true,
        },
    decreases ts.len(),
{
    if ts.len() == 0 {
        lemma_drain_shape(stack, out);
    } else {
        let t = ts[0];
        let rest = ts.drop_first();
        match t {
            TokenV::Function(f) => {
                lemma_pop_ge_shape(f, stack, out);
                let popped = spec_pop_ge(f, stack, out);
                assert(spec_stack_shape(popped.0.push(t)));
                lemma_shunt_shape(rest, popped.0.push(t), popped.1);
            },
            TokenV::OpenParen => {
                assert(spec_stack_shape(stack.push(t)));
                lemma_shunt_shape(rest, stack.push(t), out);
            },
            TokenV::CloseParen => {
                lemma_close_paren_shape(stack, out);
                match spec_close_paren(stack, out) {
                    Ok(popped) => {
                        lemma_shunt_shape(rest, popped.0, popped.1);
                    },
                    Err(_) => {},
                }
            },
            TokenV::Comma => {
                lemma_shunt_shape(rest, stack, out);
            },
            _ => {
                assert(spec_postfix_shape(out.push(t)));
                lemma_shunt_shape(rest, stack, out.push(t));
            },
        }
    }
}

/// Converts an infix token sequence to postfix order.
pub fn infix_to_postfix(tokens: Vec<Token>) -> (r: Result<Vec<Token>, SyntaxError>)
    ensures
        match r {
            Ok(v) => spec_to_postfix(tokens.deep_view()) == Ok::<Seq<TokenV>, SyntaxErrorV>(
                v.deep_view(),
            ) && spec_postfix_shape(v.deep_view()),
            Err(e) => spec_to_postfix(tokens.deep_view()) == Err::<Seq<TokenV>, SyntaxErrorV>(e@),
        },
{
    let ghost ts = tokens.deep_view();
    let mut result: Vec<Token> = Vec::new();
    let mut stack: Vec<Token> = Vec::new();
    let mut i: usize = 0;
    proof {
        assert(result.deep_view() =~= Seq::<TokenV>::empty());
        assert(stack.deep_view() =~= Seq::<TokenV>::empty());
        assert(ts.skip(0) =~= ts);
    }
    while i < tokens.len()
        invariant
            i <= tokens.len(),
            ts == tokens.deep_view(),
            ts.len() == tokens.len(),
            spec_stack_shape(stack.deep_view()),
            spec_postfix_shape(result.deep_view()),
            spec_shunt(ts.skip(i as int), stack.deep_view(), result.deep_view())
                == spec_to_postfix(ts),
        decreases tokens.len() - i,
    {
        let ghost rest0 = ts.skip(i as int);
        let ghost rest1 = ts.skip(i as int + 1);
        let ghost s0 = stack.deep_view();
        let ghost o0 = result.deep_view();
        let ghost tv = ts[i as int];
        proof {
            assert(rest0.len() > 0);
            assert(rest0[0] == tv);
            assert(tv == tokens@[i as int].deep_view());
            assert(rest0.drop_first() =~= rest1);
        }
        match &tokens[i] {
            Token::Number(_) => {
                result.push(tokens[i].clone());
                proof {
                    assert(result.deep_view() =~= o0.push(tv));
                    assert(spec_postfix_shape(result.deep_view()));
                }
            },
            Token::X => {
                result.push(tokens[i].clone());
                proof {
                    assert(result.deep_view() =~= o0.push(tv));
                    assert(spec_postfix_shape(result.deep_view()));
                }
            },
            Token::Function(f) => {
                let ghost fv: FunctionV = f@;
                let fprec = f.precedence;
                let ghost target = spec_pop_ge(fv, s0, o0);
                proof {
                    assert(spec_shunt(rest0, s0, o0) == spec_shunt(
                        rest1,
                        target.0.push(tv),
                        target.1,
                    ));
                }
                loop
                    invariant
                        spec_stack_shape(stack.deep_view()),
                        spec_postfix_shape(result.deep_view()),
                        spec_pop_ge(fv, stack.deep_view(), result.deep_view()) == target,
                        fv.precedence == fprec as int,
                    ensures
                        spec_stack_shape(stack.deep_view()),
                        spec_postfix_shape(result.deep_view()),
                        (stack.deep_view(), result.deep_view()) == target,
                    decreases stack.len(),
                {
                    let ghost pres = stack.deep_view();
                    let ghost preo = result.deep_view();
                    if stack.len() == 0 {
                        break ;
                    }
                    let k = stack.len() - 1;
                    proof {
                        assert(pres[k as int] == stack@[k as int].deep_view());
                        assert(pres.last() == pres[k as int]);
                    }
                    let stop = match &stack[k] {
                        Token::Function(g) => g.precedence < fprec,
                        Token::OpenParen => true,
                        _ => {
                            proof {
                                assert(false);
                            }
                            true
                        },
                    };
                    if stop {
                        break ;
                    }
                    match stack.pop() {
                        Some(popped) => {
                            result.push(popped);
                            proof {
                                assert(stack.deep_view() =~= pres.drop_last());
                                assert(result.deep_view() =~= preo.push(pres.last()));
                                assert(spec_postfix_shape(result.deep_view()));
                                assert(spec_stack_shape(stack.deep_view()));
                            }
                        },
                        None => {
                            proof {
                                assert(false);
                            }
                        },
                    }
                }
                stack.push(tokens[i].clone());
                proof {
                    assert(stack.deep_view() =~= target.0.push(tv));
                    assert(spec_stack_shape(stack.deep_view()));
                    assert(spec_shunt(rest0, s0, o0) == spec_shunt(
                        rest1,
                        stack.deep_view(),
                        result.deep_view(),
                    ));
                }
            },
            Token::OpenParen => {
                stack.push(tokens[i].clone());
                proof {
                    assert(stack.deep_view() =~= s0.push(tv));
                    assert(spec_stack_shape(stack.deep_view()));
                }
            },
            Token::CloseParen => {
                let ghost target = spec_close_paren(s0, o0);
                proof {
                    assert(spec_shunt(rest0, s0, o0) == (match target {
                        Ok(popped) => spec_shunt(rest1, popped.0, popped.1),
                        Err(e) => Err(e),
                    }));
                }
                loop
                    invariant_except_break
                        spec_close_paren(stack.deep_view(), result.deep_view()) == target,
                    invariant
                        spec_stack_shape(stack.deep_view()),
                        spec_postfix_shape(result.deep_view()),
                        ts == tokens.deep_view(),
                        spec_shunt(rest0, s0, o0) == spec_to_postfix(ts),
                        spec_shunt(rest0, s0, o0) == (match target {
                            Ok(popped) => spec_shunt(rest1, popped.0, popped.1),
                            Err(e) => Err::<Seq<TokenV>, SyntaxErrorV>(e),
                        }),
                    ensures
                        spec_stack_shape(stack.deep_view()),
                        spec_postfix_shape(result.deep_view()),
                        target matches Ok(popped) && popped == (
                            stack.deep_view(),
                            result.deep_view(),
                        ),
                    decreases stack.len(),
                {
                    let ghost pres = stack.deep_view();
                    let ghost preo = result.deep_view();
                    if stack.len() == 0 {
                        proof {
                            assert(target == Err::<(Seq<TokenV>, Seq<TokenV>), SyntaxErrorV>(
                                SyntaxErrorV::UnmatchedCloseParen,
                            ));
                        }
                        return Err(SyntaxError::UnmatchedCloseParen);
                    }
                    let k = stack.len() - 1;
                    proof {
                        assert(pres[k as int] == stack@[k as int].deep_view());
                        assert(pres.last() == pres[k as int]);
                    }
                    let found_open = match &stack[k] {
                        Token::Function(_) => false,
                        Token::OpenParen => true,
                        _ => {
                            proof {
                                assert(false);
                            }
                            true
                        },
                    };
                    if found_open {
                        stack.pop();
                        proof {
                            assert(stack.deep_view() =~= pres.drop_last());
                        }
                        break ;
                    }
                    match stack.pop() {
                        Some(popped) => {
                            result.push(popped);
                            proof {
                                assert(stack.deep_view() =~= pres.drop_last());
                                assert(result.deep_view() =~= preo.push(pres.last()));
                                assert(spec_postfix_shape(result.deep_view()));
                                assert(spec_stack_shape(stack.deep_view()));
                            }
                        },
                        None => {
                            proof {
                                assert(false);
                            }
                        },
                    }
                }
            },
            Token::Comma => {},
        }
        i = i + 1;
    }
    proof {
        assert(ts.skip(i as int) =~= Seq::<TokenV>::empty());
    }
    let ghost target = spec_drain(stack.deep_view(), result.deep_view());
    proof {
        assert(target == spec_to_postfix(ts));
    }
    loop
        invariant
            ts == tokens.deep_view(),
            spec_stack_shape(stack.deep_view()),
            spec_postfix_shape(result.deep_view()),
            spec_drain(stack.deep_view(), result.deep_view()) == target,
            target == spec_to_postfix(ts),
        decreases stack.len(),
    {
        let ghost pres = stack.deep_view();
        let ghost preo = result.deep_view();
        if stack.len() == 0 {
            proof {
                assert(target == Ok::<Seq<TokenV>, SyntaxErrorV>(preo));
            }
            return Ok(result);
        }
        let k = stack.len() - 1;
        proof {
            assert(pres[k as int] == stack@[k as int].deep_view());
            assert(pres.last() == pres[k as int]);
        }
        let is_open = match &stack[k] {
            Token::Function(_) => false,
            Token::OpenParen => true,
            _ => {
                proof {
                    assert(false);
                }
                true
            },
        };
        if is_open {
            proof {
                assert(target == Err::<Seq<TokenV>, SyntaxErrorV>(SyntaxErrorV::UnmatchedOpenParen));
            }
            return Err(SyntaxError::UnmatchedOpenParen);
        }
        match stack.pop() {
            Some(popped) => {
                result.push(popped);
                proof {
                    assert(stack.deep_view() =~= pres.drop_last());
                    assert(result.deep_view() =~= preo.push(pres.last()));
                    assert(spec_postfix_shape(result.deep_view()));
                    assert(spec_stack_shape(stack.deep_view()));
                }
            },
            None => {
                proof {
                    assert(false);
                }
            },
        }
    }
}

} // verus!
