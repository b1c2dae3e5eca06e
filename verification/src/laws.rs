//! Laws of the compiler, stated and proved over its spec functions.

use vstd::prelude::*;
use crate::compile::spec_parse;
use crate::errors::CompileErrorV;
use crate::eval::{StepV, spec_next_step};
use crate::lexer::{spec_is_alpha, spec_lex};
use crate::normalize::{spec_insert_mults, spec_norm_mults};
use crate::registry::{ConstantV, FunctionV, RegistryV, spec_find_constant, spec_find_function};
use crate::token::{NumberV, TokenV};

verus! {

/// Compiling is deterministic: the same source text with the same registry
/// yields the same outcome, program or error.  `Parser::parse` ensures its
/// result equals `spec_parse` of the registry and text alone, so two calls
/// agree; and since `spec_next_step` is a function of the machine state,
/// evaluations of equal programs issue identical requests at every step and
/// so produce identical outputs for identical provided values.
pub proof fn lemma_parse_deterministic(
    reg: RegistryV,
    s: Seq<char>,
    r1: Result<Seq<TokenV>, CompileErrorV>,
    r2: Result<Seq<TokenV>, CompileErrorV>,
)
    requires
        r1 == spec_parse(reg, s),
        r2 == spec_parse(reg, s),
    ensures
        r1 == r2,
{
}

/// Evaluation is deterministic: what a machine does next is a function of
/// the program, the value of `x`, the position and the stack alone.  So two
/// evaluations of equal programs at the same `x`, answered with equal
/// provided values, pass through equal states and finish with equal values.
pub proof fn lemma_evaluation_deterministic(
    ts: Seq<TokenV>,
    x: u64,
    i: int,
    stack: Seq<u64>,
    r1: (StepV, int, Seq<u64>),
    r2: (StepV, int, Seq<u64>),
)
    requires
        r1 == spec_next_step(ts, x, i, stack),
        r2 == spec_next_step(ts, x, i, stack),
    ensures
        r1 == r2,
{
}

/// The multiplication pass distributes over concatenation: the second part
/// is rewritten as if entered right after the first part's last token.
proof fn lemma_norm_mults_concat(star: FunctionV, prev: Option<TokenV>, p: Seq<TokenV>, q: Seq<
    TokenV,
>)
    requires
        p.len() > 0,
    ensures
        spec_norm_mults(star, prev, p + q) == spec_norm_mults(star, prev, p) + spec_norm_mults(
            star,
            Some(p.last()),
            q,
        ),
    decreases p.len(),
{
    let pq = p + q;
    assert(pq[0] == p[0]);
    if p.len() == 1 {
        assert(pq.drop_first() =~= q);
        assert(p.drop_first() =~= Seq::<TokenV>::empty());
        assert(spec_norm_mults(star, Some(p[0]), Seq::empty()) == Seq::<TokenV>::empty());
        let emitted = if (match prev {
            Some(pr) => pr.is_value(),
            None => false,
        }) && p[0].is_value() {
            seq![TokenV::Function(star), p[0]]
        } else {
            seq![p[0]]
        };
        assert(spec_norm_mults(star, prev, p) =~= emitted);
        assert(p.last() == p[0]);
        assert(emitted + spec_norm_mults(star, Some(p[0]), q) =~= spec_norm_mults(star, prev, pq));
    } else {
        assert(pq.drop_first() =~= p.drop_first() + q);
        lemma_norm_mults_concat(star, Some(p[0]), p.drop_first(), q);
        assert(p.drop_first().last() == p.last());
        let emitted = if (match prev {
            Some(pr) => pr.is_value(),
            None => false,
        }) && p[0].is_value() {
            seq![TokenV::Function(star), p[0]]
        } else {
            seq![p[0]]
        };
        assert(spec_norm_mults(star, prev, pq) == emitted + spec_norm_mults(
            star,
            Some(p[0]),
            p.drop_first() + q,
        ));
        assert(spec_norm_mults(star, prev, p) == emitted + spec_norm_mults(
            star,
            Some(p[0]),
            p.drop_first(),
        ));
        assert(emitted + (spec_norm_mults(star, Some(p[0]), p.drop_first()) + spec_norm_mults(
            star,
            Some(p.last()),
            q,
        )) =~= (emitted + spec_norm_mults(star, Some(p[0]), p.drop_first())) + spec_norm_mults(
            star,
            Some(p.last()),
            q,
        ));
    }
}

/// Implicit multiplication is equivalent to the explicit form: wherever two
/// value tokens meet, writing the registry's `*` between them changes
/// nothing about the normalized sequence — so `2x` compiles to the very
/// program `2*x` does, and the two evaluate identically for every `x`.
pub proof fn lemma_implicit_mult_equivalence(
    reg: RegistryV,
    star: FunctionV,
    p: Seq<TokenV>,
    q: Seq<TokenV>,
)
    requires
        spec_find_function(reg.functions, "*"@) == Some(star),
        p.len() > 0,
        q.len() > 0,
        p.last().is_value(),
        q[0].is_value(),
    ensures
        spec_insert_mults(reg, p + q) == spec_insert_mults(
            reg,
            p + seq![TokenV::Function(star)] + q,
        ),
{
    let st = seq![TokenV::Function(star)];
    lemma_norm_mults_concat(star, None, p, q);
    lemma_norm_mults_concat(star, None, p, st + q);
    assert(p + st + q =~= p + (st + q));
    // The implicit side: a `*` goes in between the two values.
    assert((st + q)[0] == TokenV::Function(star));
    assert((st + q).drop_first() =~= q);
    assert(spec_norm_mults(star, Some(p.last()), q) == seq![TokenV::Function(star), q[0]]
        + spec_norm_mults(star, Some(q[0]), q.drop_first()));
    // The explicit side: the written `*` is emitted bare, and the value
    // after it sees a non-value on its left.
    assert(spec_norm_mults(star, Some(p.last()), st + q) == seq![TokenV::Function(star)]
        + spec_norm_mults(star, Some(TokenV::Function(star)), q));
    assert(spec_norm_mults(star, Some(TokenV::Function(star)), q) == seq![q[0]]
        + spec_norm_mults(star, Some(q[0]), q.drop_first()));
    let tail = spec_norm_mults(star, Some(q[0]), q.drop_first());
    assert(seq![TokenV::Function(star), q[0]] + tail =~= seq![TokenV::Function(star)] + (seq![q[0]]
        + tail));
    assert(spec_norm_mults(star, None, p + q) =~= spec_norm_mults(star, None, p + st + q));
}

/// A registered constant compiles, under any registry, to the one-token
/// program that pushes its value; evaluating that program at any `x`
/// finishes at once with exactly the constant's value.  The name must be a
/// nonempty run of letters other than `x`, as the registry invariant asks.
pub proof fn lemma_constant_compiles(reg: RegistryV, c: ConstantV, x: u64)
    requires
        c.name.len() > 0,
        forall|k: int| 0 <= k < c.name.len() ==> spec_is_alpha(#[trigger] c.name[k]),
        c.name != "x"@,
        spec_find_constant(reg.constants, c.name) == Some(c),
    ensures
        spec_parse(reg, c.name) == Ok::<Seq<TokenV>, CompileErrorV>(
            seq![TokenV::Number(NumberV::Bits(c.value))],
        ),
        spec_next_step(seq![TokenV::Number(NumberV::Bits(c.value))], x, 0, Seq::empty()) == (
            StepV::Done(c.value),
            1int,
            seq![c.value],
        ),
{
    let s = c.name;
    let tok = TokenV::Number(NumberV::Bits(c.value));
    // Lexing: the whole text is one letter run, resolved as the constant.
    assert(spec_is_alpha(s[0]));
    assert(crate::lexer::spec_ws_end(s, 0) == 0);
    crate::lexer::lemma_alpha_end(s, 0);
    let j = crate::lexer::spec_alpha_end(s, 0);
    assert(j == s.len()) by {
        if j < s.len() {
            assert(spec_is_alpha(s[j]));
        }
    }
    assert(s.subrange(0, s.len() as int) =~= s);
    assert(crate::lexer::spec_next_token(reg, s, 0) == Ok::<(TokenV, int), crate::errors::LexErrorV>(
        (tok, s.len() as int),
    )) by {
        assert(!crate::lexer::spec_is_digit(s[0]));
    }
    assert(crate::lexer::spec_ws_end(s, s.len() as int) == s.len());
    assert(crate::lexer::spec_lex_from(reg, s, s.len() as int) == Ok::<Seq<TokenV>,
        crate::errors::LexErrorV>(Seq::empty()));
    assert(seq![tok] + Seq::<TokenV>::empty() =~= seq![tok]);
    assert(spec_lex(reg, s) == Ok::<Seq<TokenV>, crate::errors::LexErrorV>(seq![tok]));
    // Normalizing: a single value token is left alone by both passes.
    let one = seq![tok];
    assert(one.drop_first() =~= Seq::<TokenV>::empty());
    match spec_find_function(reg.functions, "*"@) {
        Some(star) => {
            assert(spec_norm_mults(star, Some(tok), Seq::<TokenV>::empty())
                == Seq::<TokenV>::empty());
            assert(seq![tok] + Seq::<TokenV>::empty() =~= one);
            assert(spec_norm_mults(star, None, one) =~= one);
        },
        None => {
            assert(!crate::normalize::spec_needs_mult(one));
        },
    }
    assert(spec_insert_mults(reg, one) == Ok::<Seq<TokenV>, crate::errors::LexErrorV>(one));
    assert(crate::normalize::spec_fix_negations_from(Some(tok), Seq::<TokenV>::empty())
        == Seq::<TokenV>::empty());
    assert(!crate::normalize::spec_is_minus(tok));
    assert(crate::normalize::spec_fix_negations(one) =~= one);
    // Shunting-yard: the value goes straight to the output.
    assert(crate::shunting_yard::spec_to_postfix(one) == Ok::<Seq<TokenV>,
        crate::errors::SyntaxErrorV>(one)) by {
        assert(Seq::<TokenV>::empty().push(tok) =~= one);
        assert(crate::shunting_yard::spec_drain(Seq::<TokenV>::empty(), one) == Ok::<Seq<TokenV>,
            crate::errors::SyntaxErrorV>(one));
        assert(crate::shunting_yard::spec_shunt(Seq::<TokenV>::empty(), Seq::<TokenV>::empty(), one)
            == Ok::<Seq<TokenV>, crate::errors::SyntaxErrorV>(one));
        assert(crate::shunting_yard::spec_shunt(one, Seq::<TokenV>::empty(), Seq::<TokenV>::empty())
            == Ok::<Seq<TokenV>, crate::errors::SyntaxErrorV>(one));
    }
    // Validation: one value means a final stack depth of one.
    assert(crate::eval::spec_check_from(one, 1, 1) == Ok::<int, crate::errors::EvalErrorV>(1));
    assert(crate::eval::spec_check_from(one, 0, 0) == Ok::<int, crate::errors::EvalErrorV>(1));
    // Evaluation: push the constant, reach the end, report it.
    assert(spec_next_step(one, x, 0, Seq::empty()) == spec_next_step(
        one,
        x,
        1,
        Seq::<u64>::empty().push(c.value),
    ));
    assert(Seq::<u64>::empty().push(c.value) =~= seq![c.value]);
    assert(seq![c.value].last() == c.value);
}

} // verus!
