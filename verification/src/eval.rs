//! The postfix program: structural validation and a stack-machine evaluation.
//!
//! A postfix program is validated once, by simulating the stack depth the
//! evaluator will see: a function reached with fewer operands than its
//! arity, an empty final stack, or leftover operands are the structural
//! errors of [`crate::errors::EvalError`].  A program that passes becomes a
//! [`CompiledExpression`], and every [`Evaluation`] built from one is proved
//! to run to completion: the machine has no failure outcome at all.
//!
//! Numeric work is not done here.  The machine pushes constants, the
//! variable, and provided values, and whenever a literal must be parsed or
//! an operation applied it hands the caller an [`EvalStep`] naming the
//! operation and its operands as IEEE-754 bit patterns; the caller computes
//! and answers through [`Evaluation::provide`].

use vstd::prelude::*;
use crate::errors::{EvalError, EvalErrorV};
use crate::registry::{BinaryOp, FunctionBox, UnaryOp};
use crate::shunting_yard::spec_postfix_shape;
use crate::token::{Number, NumberV, Token, TokenV};

verus! {

/// The stack depth after checking the tokens from `i` on, starting from
/// `depth`; or the first structural error.  A unary function needs one
/// operand and leaves the depth alone; a binary one needs two and lowers it
/// by one; every value raises it by one.
pub open spec fn spec_check_from(ts: Seq<TokenV>, i: int, depth: int) -> Result<int, EvalErrorV>
    decreases ts.len() - i,
{
    if i < 0 || i >= ts.len() {
        Ok(depth)
    } else {
        match ts[i] {
            TokenV::Function(f) => match f.func {
                FunctionBox::Unary(_) => if depth < 1 {
                    Err(EvalErrorV::MissingOperand { name: f.name, expected: 1 })
                } else {
                    spec_check_from(ts, i + 1, depth)
                },
                FunctionBox::Binary(_) => if depth < 2 {
                    Err(EvalErrorV::MissingOperand { name: f.name, expected: 2 })
                } else {
                    spec_check_from(ts, i + 1, depth - 1)
                },
            },
            _ => spec_check_from(ts, i + 1, depth + 1),
        }
    }
}

/// Structural validity of a whole postfix program: the stack never
/// underruns an arity, and exactly one value is left at the end.
pub open spec fn spec_validate(ts: Seq<TokenV>) -> Result<(), EvalErrorV> {
    match spec_check_from(ts, 0, 0) {
        Err(e) => Err(e),
        Ok(d) => if d == 0 {
            Err(EvalErrorV::EmptyResult)
        } else if d != 1 {
            Err(EvalErrorV::LeftoverOperands(d))
        } else {
            Ok(())
        },
    }
}

/// Checks a postfix program structurally, reporting exactly the error the
/// stack machine would run into.
pub fn validate_postfix(tokens: &Vec<Token>) -> (r: Result<(), EvalError>)
    requires
        spec_postfix_shape(tokens.deep_view()),
    ensures
        match r {
            Ok(_) => spec_validate(tokens.deep_view()) == Ok::<(), EvalErrorV>(()),
            Err(e) => spec_validate(tokens.deep_view()) == Err::<(), EvalErrorV>(e@),
        },
{
    let ghost ts = tokens.deep_view();
    let mut depth: usize = 0;
    let mut i: usize = 0;
    while i < tokens.len()
        invariant
            i <= tokens.len(),
            depth <= i,
            ts == tokens.deep_view(),
            ts.len() == tokens.len(),
            spec_check_from(ts, 0, 0) == spec_check_from(ts, i as int, depth as int),
        decreases tokens.len() - i,
    {
        proof {
            assert(ts[i as int] == tokens@[i as int].deep_view());
        }
        match &tokens[i] {
            Token::Function(f) => match f.func {
                FunctionBox::Unary(_) => {
                    if depth < 1 {
                        return Err(
                            EvalError::MissingOperand { name: f.name.clone(), expected: 1 },
                        );
                    }
                },
                FunctionBox::Binary(_) => {
                    if depth < 2 {
                        return Err(
                            EvalError::MissingOperand { name: f.name.clone(), expected: 2 },
                        );
                    }
                    depth = depth - 1;
                },
            },
            _ => {
                depth = depth + 1;
            },
        }
        i = i + 1;
    }
    if depth == 0 {
        Err(EvalError::EmptyResult)
    } else if depth != 1 {
        Err(EvalError::LeftoverOperands(depth))
    } else {
        Ok(())
    }
}

/// A structurally validated postfix program, ready to evaluate any number
/// of times.  Immutable after construction.
#[derive(Debug)]
pub struct CompiledExpression {
    postfix: Vec<Token>,
}

impl View for CompiledExpression {
    type V = Seq<TokenV>;

    closed spec fn view(&self) -> Seq<TokenV> {
        self.postfix.deep_view()
    }
}

/// What one evaluation step asks of the caller.  Bit patterns of IEEE-754
/// doubles stand for the numeric values.
#[derive(Debug, PartialEq, Eq)]
pub enum EvalStep {
    /// Parse this literal text as a number and provide its bits.
    Literal { text: String },
    /// Apply the operation to the operand and provide the result.
    Unary { op: UnaryOp, arg: u64 },
    /// Apply the operation to the operands and provide the result.
    Binary { op: BinaryOp, lhs: u64, rhs: u64 },
    /// The evaluation is complete with this value.
    Done { value: u64 },
}

/// Ghost mirror of [`EvalStep`].
pub ghost enum StepV {
    Literal(Seq<char>),
    Unary(UnaryOp, u64),
    Binary(BinaryOp, u64, u64),
    Done(u64),
}

impl View for EvalStep {
    type V = StepV;

    open spec fn view(&self) -> StepV {
        match self {
            EvalStep::Literal { text } => StepV::Literal(text@),
            EvalStep::Unary { op, arg } => StepV::Unary(*op, *arg),
            EvalStep::Binary { op, lhs, rhs } => StepV::Binary(*op, *lhs, *rhs),
            EvalStep::Done { value } => StepV::Done(*value),
        }
    }
}

/// One evaluation of a compiled expression at a fixed `x`, step by step.
pub struct Evaluation<'a> {
    tokens: &'a Vec<Token>,
    x: u64,
    pos: usize,
    stack: Vec<u64>,
    waiting: bool,
}

/// Ghost mirror of [`Evaluation`].
pub ghost struct EvaluationV {
    pub tokens: Seq<TokenV>,
    pub x: u64,
    pub pos: int,
    pub stack: Seq<u64>,
    pub waiting: bool,
}

impl<'a> View for Evaluation<'a> {
    type V = EvaluationV;

    closed spec fn view(&self) -> EvaluationV {
        EvaluationV {
            tokens: self.tokens.deep_view(),
            x: self.x,
            pos: self.pos as int,
            stack: self.stack@,
            waiting: self.waiting,
        }
    }
}

impl EvaluationV {
    /// The machine's invariant: the program is postfix-shaped and, from the
    /// current position and stack depth on, checks out to a final depth of
    /// one.  A value owed to a pending request counts toward the depth.
    pub open spec fn wf(self) -> bool {
        &&& spec_postfix_shape(self.tokens)
        &&& 0 <= self.pos <= self.tokens.len()
        &&& spec_check_from(
            self.tokens,
            self.pos,
            self.stack.len() + if self.waiting {
                1int
            } else {
                0int
            },
        ) == Ok::<int, EvalErrorV>(1)
    }
}

/// What the machine does next from a given state: constants, the variable
/// and provided values are pushed silently; the first token needing the
/// caller yields a request, the end of the program the final value.
/// Returns the request, the position after the requesting token, and the
/// stack with the request's operands consumed.
pub open spec fn spec_next_step(ts: Seq<TokenV>, x: u64, i: int, stack: Seq<u64>) -> (
    StepV,
    int,
    Seq<u64>,
)
    decreases ts.len() - i,
{
    if i < 0 || i >= ts.len() {
        (StepV::Done(stack.last()), i, stack)
    } else {
        match ts[i] {
            TokenV::Number(NumberV::Bits(b)) => spec_next_step(ts, x, i + 1, stack.push(b)),
            TokenV::Number(NumberV::Literal(t)) => (StepV::Literal(t), i + 1, stack),
            TokenV::X => spec_next_step(ts, x, i + 1, stack.push(x)),
            TokenV::Function(f) => match f.func {
                FunctionBox::Unary(op) => (StepV::Unary(op, stack.last()), i + 1, stack.drop_last()),
                FunctionBox::Binary(op) => (
                    StepV::Binary(op, stack[stack.len() - 2], stack.last()),
                    i + 1,
                    stack.drop_last().drop_last(),
                ),
            },
            _ => (StepV::Done(stack.last()), i, stack),
        }
    }
}

impl CompiledExpression {
    /// Structural validity, established at construction and relied on by
    /// every evaluation.
    pub open spec fn wf(self) -> bool {
        &&& spec_postfix_shape(self@)
        &&& spec_check_from(self@, 0, 0) == Ok::<int, EvalErrorV>(1)
    }

    /// Wraps a postfix program after checking it structurally.
    pub fn new(postfix: Vec<Token>) -> (r: Result<CompiledExpression, EvalError>)
        requires
            spec_postfix_shape(postfix.deep_view()),
        ensures
            match r {
                Ok(ce) => ce@ == postfix.deep_view() && ce.wf() && spec_validate(
                    postfix.deep_view(),
                ) == Ok::<(), EvalErrorV>(()),
                Err(e) => spec_validate(postfix.deep_view()) == Err::<(), EvalErrorV>(e@),
            },
    {
        match validate_postfix(&postfix) {
            Ok(_) => Ok(CompiledExpression { postfix }),
            Err(e) => Err(e),
        }
    }

    /// The postfix program, for inspection.
    pub fn postfix(&self) -> (r: &Vec<Token>)
        ensures
            r.deep_view() == self@,
    {
        &self.postfix
    }

    /// Starts one evaluation at the given `x` (as IEEE-754 bits).
    pub fn begin(&self, x: u64) -> (ev: Evaluation<'_>)
        requires
            self.wf(),
        ensures
            ev@ == (EvaluationV {
                tokens: self@,
                x: x,
                pos: 0,
                stack: Seq::empty(),
                waiting: false,
            }),
            ev@.wf(),
    {
        let ev = Evaluation { tokens: &self.postfix, x, pos: 0, stack: Vec::new(), waiting: false };
        proof {
            assert(ev@.stack =~= Seq::<u64>::empty());
        }
        ev
    }
}

impl<'a> Evaluation<'a> {
    /// Whether the machine owes the caller nothing or awaits a provided
    /// value.
    pub fn awaiting(&self) -> (r: bool)
        ensures
            r == self@.waiting,
    {
        self.waiting
    }

    /// Runs the machine until it needs the caller: the returned request is
    /// exactly `spec_next_step` of the current state.  After any request
    /// but `Done` the machine waits for [`Self::provide`]; `Done` may be
    /// asked for again and returns the same value.
    pub fn step(&mut self) -> (r: EvalStep)
        requires
            old(self)@.wf(),
            !old(self)@.waiting,
        ensures
            final(self)@.wf(),
            final(self)@.tokens == old(self)@.tokens,
            final(self)@.x == old(self)@.x,
            ({
                let (req, j, st) = spec_next_step(
                    old(self)@.tokens,
                    old(self)@.x,
                    old(self)@.pos,
                    old(self)@.stack,
                );
                &&& r@ == req
                &&& final(self)@.pos == j
                &&& final(self)@.stack == st
                &&& final(self)@.waiting == !(req is Done)
            }),
    {
        loop
            invariant
                self@.wf(),
                !self@.waiting,
                self@.tokens == old(self)@.tokens,
                self@.x == old(self)@.x,
                spec_next_step(self@.tokens, self@.x, old(self)@.pos, old(self)@.stack)
                    == spec_next_step(self@.tokens, self@.x, self@.pos, self@.stack),
            decreases self@.tokens.len() - self@.pos,
        {
            let toks: &Vec<Token> = self.tokens;
            let n = toks.len();
            if self.pos >= n {
                proof {
                    assert(self@.stack.len() == 1);
                }
                let v = self.stack[self.stack.len() - 1];
                proof {
                    assert(v == self@.stack.last());
                }
                return EvalStep::Done { value: v };
            }
            let ghost pre = self@;
            proof {
                assert(pre.tokens[pre.pos] == toks@[pre.pos].deep_view());
            }
            match &toks[self.pos] {
                Token::Number(num) => match num {
                    Number::Bits(b) => {
                        self.stack.push(*b);
                        self.pos = self.pos + 1;
                        proof {
                            assert(self@.stack =~= pre.stack.push(pre.tokens[pre.pos]->Number_0->Bits_0));
                        }
                    },
                    Number::Literal(t) => {
                        let text = t.clone();
                        self.pos = self.pos + 1;
                        self.waiting = true;
                        return EvalStep::Literal { text };
                    },
                },
                Token::X => {
                    let xv = self.x;
                    self.stack.push(xv);
                    self.pos = self.pos + 1;
                    proof {
                        assert(self@.stack =~= pre.stack.push(pre.x));
                    }
                },
                Token::Function(f) => match f.func {
                    FunctionBox::Unary(op) => {
                        proof {
                            assert(pre.stack.len() >= 1);
                        }
                        let arg = match self.stack.pop() {
                            Some(v) => v,
                            None => {
                                proof {
                                    assert(false);
                                }
                                0
                            },
                        };
                        self.pos = self.pos + 1;
                        self.waiting = true;
                        proof {
                            assert(self@.stack =~= pre.stack.drop_last());
                            assert(arg == pre.stack.last());
                        }
                        return EvalStep::Unary { op, arg };
                    },
                    FunctionBox::Binary(op) => {
                        proof {
                            assert(pre.stack.len() >= 2);
                        }
                        let rhs = match self.stack.pop() {
                            Some(v) => v,
                            None => {
                                proof {
                                    assert(false);
                                }
                                0
                            },
                        };
                        let lhs = match self.stack.pop() {
                            Some(v) => v,
                            None => {
                                proof {
                                    assert(false);
                                }
                                0
                            },
                        };
                        self.pos = self.pos + 1;
                        self.waiting = true;
                        proof {
                            assert(self@.stack =~= pre.stack.drop_last().drop_last());
                            assert(rhs == pre.stack.last());
                            assert(lhs == pre.stack[pre.stack.len() - 2]);
                        }
                        return EvalStep::Binary { op, lhs, rhs };
                    },
                },
                _ => {
                    proof {
                        assert(false);
                    }
                },
            }
        }
    }

    /// Answers the machine's pending request with a value.
    pub fn provide(&mut self, v: u64)
        requires
            old(self)@.wf(),
            old(self)@.waiting,
        ensures
            final(self)@.wf(),
            final(self)@ == (EvaluationV {
                stack: old(self)@.stack.push(v),
                waiting: false,
                ..old(self)@
            }),
    {
        self.stack.push(v);
        self.waiting = false;
    }
}

} // verus!
