//! The lexer: from source text to a flat token sequence.
//!
//! Scanning consults the registry to resolve identifiers: `x` is the
//! variable, a constant is inlined at once as its bit pattern, any other
//! known name becomes a function token, and an unknown name or symbol is a
//! hard error.  The spec functions here define lexing character by
//! character, and `Parser::tokenize` is proved to return exactly what they
//! say.

use vstd::prelude::*;
use vstd::string::StrSliceExecFns;
use crate::errors::{LexError, LexErrorV};
use crate::registry::{Parser, RegistryV, spec_find_constant, spec_find_function};
use crate::text::str_eq;
use crate::token::{Number, NumberV, Token, TokenV};

verus! {

/// The characters a digit run is made of: digits and the decimal point.
pub open spec fn spec_is_digit(c: char) -> bool {
    (48 <= c as u32 && c as u32 <= 57) || c == '.'
}

/// Lower-case letters, the alphabet of identifiers.
pub open spec fn spec_is_alpha(c: char) -> bool {
    97 <= c as u32 && c as u32 <= 122
}

/// The single-character primitive operators.
pub open spec fn spec_is_primitive(c: char) -> bool {
    c == '+' || c == '-' || c == '*' || c == '/' || c == '^'
}

/// The whitespace class skipped between tokens.
pub open spec fn spec_is_whitespace(c: char) -> bool {
    c == ' ' || c == '\r' || c == '\n' || c == '\t'
}

/// Digits `0`-`9` or the decimal point (code points 48 to 57, and `.`).
pub fn is_digit(c: char) -> (r: bool)
    ensures
        r == spec_is_digit(c),
{
    let u = c as u32;
    (48 <= u && u <= 57) || c == '.'
}

/// Lower-case letters (code points 97 to 122).
pub fn is_alpha(c: char) -> (r: bool)
    ensures
        r == spec_is_alpha(c),
{
    let u = c as u32;
    97 <= u && u <= 122
}

/// One of `+ - * / ^`.
pub fn is_primitive(c: char) -> (r: bool)
    ensures
        r == spec_is_primitive(c),
{
    c == '+' || c == '-' || c == '*' || c == '/' || c == '^'
}

/// Space, carriage return, newline or tab.
pub fn is_whitespace(c: char) -> (r: bool)
    ensures
        r == spec_is_whitespace(c),
{
    c == ' ' || c == '\r' || c == '\n' || c == '\t'
}

/// First index at or after `i` holding no whitespace (or the end).
pub open spec fn spec_ws_end(s: Seq<char>, i: int) -> int
    decreases s.len() - i,
{
    if 0 <= i < s.len() && spec_is_whitespace(s[i]) {
        spec_ws_end(s, i + 1)
    } else {
        i
    }
}

/// First index at or after `i` ending the digit run (or the end).
pub open spec fn spec_digit_end(s: Seq<char>, i: int) -> int
    decreases s.len() - i,
{
    if 0 <= i < s.len() && spec_is_digit(s[i]) {
        spec_digit_end(s, i + 1)
    } else {
        i
    }
}

/// First index at or after `i` ending the letter run (or the end).
pub open spec fn spec_alpha_end(s: Seq<char>, i: int) -> int
    decreases s.len() - i,
{
    if 0 <= i < s.len() && spec_is_alpha(s[i]) {
        spec_alpha_end(s, i + 1)
    } else {
        i
    }
}

/// Bounds and character classes of a whitespace run.
pub proof fn lemma_ws_end(s: Seq<char>, i: int)
    requires
        0 <= i <= s.len(),
    ensures
        i <= spec_ws_end(s, i) <= s.len(),
        spec_ws_end(s, i) < s.len() ==> !spec_is_whitespace(s[spec_ws_end(s, i)]),
        forall|k: int| i <= k < spec_ws_end(s, i) ==> spec_is_whitespace(s[k]),
    decreases s.len() - i,
{
    if i < s.len() && spec_is_whitespace(s[i]) {
        lemma_ws_end(s, i + 1);
    }
}

/// Bounds and character classes of a digit run.
pub proof fn lemma_digit_end(s: Seq<char>, i: int)
    requires
        0 <= i <= s.len(),
    ensures
        i <= spec_digit_end(s, i) <= s.len(),
        spec_digit_end(s, i) < s.len() ==> !spec_is_digit(s[spec_digit_end(s, i)]),
        forall|k: int| i <= k < spec_digit_end(s, i) ==> spec_is_digit(s[k]),
        i < s.len() && spec_is_digit(s[i]) ==> spec_digit_end(s, i) >= i + 1,
    decreases s.len() - i,
{
    if i < s.len() && spec_is_digit(s[i]) {
        lemma_digit_end(s, i + 1);
    }
}

/// Bounds and character classes of a letter run.
pub proof fn lemma_alpha_end(s: Seq<char>, i: int)
    requires
        0 <= i <= s.len(),
    ensures
        i <= spec_alpha_end(s, i) <= s.len(),
        spec_alpha_end(s, i) < s.len() ==> !spec_is_alpha(s[spec_alpha_end(s, i)]),
        forall|k: int| i <= k < spec_alpha_end(s, i) ==> spec_is_alpha(s[k]),
        i < s.len() && spec_is_alpha(s[i]) ==> spec_alpha_end(s, i) >= i + 1,
    decreases s.len() - i,
{
    if i < s.len() && spec_is_alpha(s[i]) {
        lemma_alpha_end(s, i + 1);
    }
}

/// How many decimal points a piece of text holds.
pub open spec fn spec_dot_count(t: Seq<char>) -> int
    decreases t.len(),
{
    if t.len() == 0 {
        0
    } else {
        spec_dot_count(t.drop_last()) + if t.last() == '.' {
            1int
        } else {
            0int
        }
    }
}

/// A digit run makes a number when it has at most one decimal point and at
/// least one digit.
pub open spec fn spec_valid_number(t: Seq<char>) -> bool {
    spec_dot_count(t) <= 1 && spec_dot_count(t) < t.len()
}

/// The token starting at position `i`, which must hold no whitespace, and
/// the position just after it; or the lexing error found there.
pub open spec fn spec_next_token(reg: RegistryV, s: Seq<char>, i: int) -> Result<
    (TokenV, int),
    LexErrorV,
>
    recommends
        0 <= i < s.len(),
        !spec_is_whitespace(s[i]),
{
    let c = s[i];
    if spec_is_digit(c) {
        let j = spec_digit_end(s, i);
        let text = s.subrange(i, j);
        if spec_valid_number(text) {
            Ok((TokenV::Number(NumberV::Literal(text)), j))
        } else {
            Err(LexErrorV::MalformedNumber(text))
        }
    } else if spec_is_alpha(c) || spec_is_primitive(c) {
        let j = if spec_is_primitive(c) {
            i + 1
        } else {
            spec_alpha_end(s, i)
        };
        let name = s.subrange(i, j);
        if name == "x"@ {
            Ok((TokenV::X, j))
        } else {
            match spec_find_constant(reg.constants, name) {
                Some(k) => Ok((TokenV::Number(NumberV::Bits(k.value)), j)),
                None => match spec_find_function(reg.functions, name) {
                    Some(f) => Ok((TokenV::Function(f), j)),
                    None => Err(LexErrorV::UnknownExpression(name)),
                },
            }
        }
    } else if c == '(' {
        Ok((TokenV::OpenParen, i + 1))
    } else if c == ')' {
        Ok((TokenV::CloseParen, i + 1))
    } else if c == ',' {
        Ok((TokenV::Comma, i + 1))
    } else {
        Err(LexErrorV::UnknownSymbol(c))
    }
}

/// A successfully scanned token always moves the position forward and
/// stays inside the text.
pub proof fn lemma_next_token_bounds(reg: RegistryV, s: Seq<char>, i: int)
    requires
        0 <= i < s.len(),
    ensures
        match spec_next_token(reg, s, i) {
            Ok((t, j)) => i < j <= s.len(),
            Err(e) => true,
        },
{
    lemma_digit_end(s, i);
    lemma_alpha_end(s, i);
}

/// The token sequence from position `i` to the end, or the first lexing
/// error at or after `i`.
pub open spec fn spec_lex_from(reg: RegistryV, s: Seq<char>, i: int) -> Result<
    Seq<TokenV>,
    LexErrorV,
>
    decreases s.len() - i,
    when 0 <= i <= s.len()
    via spec_lex_from_decreases
{
    let w = spec_ws_end(s, i);
    if w >= s.len() {
        Ok(Seq::empty())
    } else {
        match spec_next_token(reg, s, w) {
            Err(e) => Err(e),
            Ok((t, j)) => match spec_lex_from(reg, s, j) {
                Err(e) => Err(e),
                Ok(rest) => Ok(seq![t] + rest),
            },
        }
    }
}

#[via_fn]
proof fn spec_lex_from_decreases(reg: RegistryV, s: Seq<char>, i: int) {
    lemma_ws_end(s, i);
    let w = spec_ws_end(s, i);
    if w < s.len() {
        lemma_next_token_bounds(reg, s, w);
    }
}

/// The token sequence of the whole text, or its first lexing error.
pub open spec fn spec_lex(reg: RegistryV, s: Seq<char>) -> Result<Seq<TokenV>, LexErrorV> {
    spec_lex_from(reg, s, 0)
}

/// Prefixing a done part onto the outcome of the remaining text.
pub open spec fn spec_lex_glue(done: Seq<TokenV>, rest: Result<Seq<TokenV>, LexErrorV>) -> Result<
    Seq<TokenV>,
    LexErrorV,
> {
    match rest {
        Ok(ts) => Ok(done + ts),
        Err(e) => Err(e),
    }
}

/// Skips the whitespace run starting at `start`.
fn skip_ws(s: &str, start: usize) -> (r: usize)
    requires
        start as int <= s@.len(),
    ensures
        r as int == spec_ws_end(s@, start as int),
        start <= r,
        r as int <= s@.len(),
        (r as int) < s@.len() ==> !spec_is_whitespace(s@[r as int]),
{
    let n = s.unicode_len();
    let mut i = start;
    while i < n && is_whitespace(s.get_char(i))
        invariant
            start <= i <= n,
            n == s@.len(),
            spec_ws_end(s@, start as int) == spec_ws_end(s@, i as int),
        decreases n - i,
    {
        i = i + 1;
    }
    proof {
        lemma_ws_end(s@, start as int);
    }
    i
}

/// Scans the digit run starting at `start`.
fn scan_digits(s: &str, start: usize) -> (r: usize)
    requires
        start as int <= s@.len(),
    ensures
        r as int == spec_digit_end(s@, start as int),
        start <= r,
        r as int <= s@.len(),
{
    let n = s.unicode_len();
    let mut i = start;
    while i < n && is_digit(s.get_char(i))
        invariant
            start <= i <= n,
            n == s@.len(),
            spec_digit_end(s@, start as int) == spec_digit_end(s@, i as int),
        decreases n - i,
    {
        i = i + 1;
    }
    proof {
        lemma_digit_end(s@, start as int);
    }
    i
}

/// Scans the letter run starting at `start`.
fn scan_letters(s: &str, start: usize) -> (r: usize)
    requires
        start as int <= s@.len(),
    ensures
        r as int == spec_alpha_end(s@, start as int),
        start <= r,
        r as int <= s@.len(),
{
    let n = s.unicode_len();
    let mut i = start;
    while i < n && is_alpha(s.get_char(i))
        invariant
            start <= i <= n,
            n == s@.len(),
            spec_alpha_end(s@, start as int) == spec_alpha_end(s@, i as int),
        decreases n - i,
    {
        i = i + 1;
    }
    proof {
        lemma_alpha_end(s@, start as int);
    }
    i
}

/// Counts the decimal points in a piece of text.
fn count_dots(t: &str) -> (r: usize)
    ensures
        r as int == spec_dot_count(t@),
{
    let n = t.unicode_len();
    let mut i: usize = 0;
    let mut dots: usize = 0;
    while i < n
        invariant
            0 <= i <= n,
            n == t@.len(),
            dots <= i,
            dots as int == spec_dot_count(t@.subrange(0, i as int)),
        decreases n - i,
    {
        proof {
            assert(t@.subrange(0, i as int + 1).drop_last() =~= t@.subrange(0, i as int));
            assert(t@.subrange(0, i as int + 1).last() == t@[i as int]);
        }
        if t.get_char(i) == '.' {
            dots = dots + 1;
        }
        i = i + 1;
    }
    proof {
        assert(t@.subrange(0, n as int) =~= t@);
    }
    dots
}

impl Parser {
    /// Scans the next token at or after `pos`, skipping whitespace first.
    /// Returns the token, or `None` once only whitespace is left, together
    /// with the position where scanning stopped.
    pub fn read_next(&self, s: &str, pos: usize) -> (r: (Result<Option<Token>, LexError>, usize))
        requires
            pos as int <= s@.len(),
        ensures
            ({
                let w = spec_ws_end(s@, pos as int);
                &&& pos <= r.1
                &&& r.1 as int <= s@.len()
                &&& if w >= s@.len() {
                    r.0 == Ok::<Option<Token>, LexError>(None) && r.1 as int == w
                } else {
                    match spec_next_token(self@, s@, w) {
                        Ok((tv, j)) => (match r.0 {
                            Ok(o) => o matches Some(t) && t@ == tv,
                            Err(_) => false,
                        }) && r.1 as int == j && pos < r.1,
                        Err(e) => r.0 matches Err(x) && x@ == e,
                    }
                }
            }),
    {
        let n = s.unicode_len();
        let i = skip_ws(s, pos);
        if i >= n {
            return (Ok(None), i);
        }
        proof {
            lemma_next_token_bounds(self@, s@, i as int);
        }
        let c = s.get_char(i);
        if is_digit(c) {
            let j = scan_digits(s, i);
            proof {
                lemma_digit_end(s@, i as int);
            }
            let text = s.substring_char(i, j).to_owned();
            let dots = count_dots(text.as_str());
            if dots <= 1 && dots < j - i {
                (Ok(Some(Token::Number(Number::Literal(text)))), j)
            } else {
                (Err(LexError::MalformedNumber(text)), j)
            }
        } else if is_alpha(c) || is_primitive(c) {
            let j = if is_primitive(c) {
                i + 1
            } else {
                scan_letters(s, i)
            };
            proof {
                lemma_alpha_end(s@, i as int);
            }
            let name = s.substring_char(i, j).to_owned();
            if str_eq(name.as_str(), "x") {
                (Ok(Some(Token::X)), j)
            } else {
                match self.find_constant(name.as_str()) {
                    Some(b) => (Ok(Some(Token::Number(Number::Bits(b)))), j),
                    None => match self.find_function(name.as_str()) {
                        Some(f) => (Ok(Some(Token::Function(f))), j),
                        None => (Err(LexError::UnknownExpression(name)), j),
                    },
                }
            }
        } else if c == '(' {
            (Ok(Some(Token::OpenParen)), i + 1)
        } else if c == ')' {
            (Ok(Some(Token::CloseParen)), i + 1)
        } else if c == ',' {
            (Ok(Some(Token::Comma)), i + 1)
        } else {
            (Err(LexError::UnknownSymbol(c)), i)
        }
    }

    /// Scans the whole text into tokens, or reports its first lexing error.
    pub fn tokenize(&self, s: &str) -> (r: Result<Vec<Token>, LexError>)
        ensures
            match r {
                Ok(v) => spec_lex(self@, s@) == Ok::<Seq<TokenV>, LexErrorV>(v.deep_view()),
                Err(e) => spec_lex(self@, s@) == Err::<Seq<TokenV>, LexErrorV>(e@),
            },
    {
        let n = s.unicode_len();
        let mut tokens: Vec<Token> = Vec::new();
        let mut pos: usize = 0;
        proof {
            assert(tokens.deep_view() =~= Seq::<TokenV>::empty());
        }
        loop
            invariant
                pos as int <= s@.len(),
                n == s@.len(),
                spec_lex(self@, s@) == spec_lex_glue(
                    tokens.deep_view(),
                    spec_lex_from(self@, s@, pos as int),
                ),
            decreases s@.len() - pos,
        {
            let ghost done = tokens.deep_view();
            let (res, next) = self.read_next(s, pos);
            proof {
                lemma_ws_end(s@, pos as int);
            }
            match res {
                Ok(Some(t)) => {
                    let ghost tv = t@;
                    let ghost w = spec_ws_end(s@, pos as int);
                    tokens.push(t);
                    proof {
                        assert(tokens.deep_view() =~= done + seq![tv]);
                        assert(spec_lex_from(self@, s@, pos as int) == spec_lex_glue(
                            seq![tv],
                            spec_lex_from(self@, s@, next as int),
                        ));
                        match spec_lex_from(self@, s@, next as int) {
                            Ok(rest) => {
                                assert(done + (seq![tv] + rest) =~= (done + seq![tv]) + rest);
                            },
                            Err(_) => {},
                        }
                    }
                    pos = next;
                },
                Ok(None) => {
                    proof {
                        assert(spec_lex_from(self@, s@, pos as int) == Ok::<Seq<TokenV>,
                            LexErrorV>(Seq::empty()));
                        assert(done + Seq::<TokenV>::empty() =~= done);
                    }
                    return Ok(tokens);
                },
                Err(e) => {
                    return Err(e);
                },
            }
        }
    }
}

} // verus!
