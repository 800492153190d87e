//! Selector paths over tokens: a head expression, then `.name` or `.index`
//! steps.
use vstd::prelude::*;

use crate::ast::{Expression, PositionedItem, SelectorList, Token, TokenType, Value};
use super::{ParseError, ParseErrorKind, ParseResult};
use super::precedence::carry;

verus! {

/// Whether a token is a dot.
pub open spec fn is_dot(tok: Token) -> bool {
    tok.typ == TokenType::PUNCT && tok.fragment@ == "."@
}

/// Whether a token can be a step of a selector path: a bare word or a number.
pub open spec fn is_step(tok: Token) -> bool {
    tok.typ == TokenType::BAREWORD || tok.typ == TokenType::DIGIT
}

/// The further steps of a path from `p`, right after a step: each `.step`
/// pair is taken in turn. The path ends where no dot follows, the end of the
/// input included; the input ending right after a dot leaves the path
/// incomplete, and a dot without a step after it is not taken.
pub open spec fn steps_from(toks: Seq<Token>, p: int) -> ParseResult<Seq<Token>>
    decreases toks.len() - p,
{
    if p < 0 || p >= toks.len() {
        ParseResult::Complete(p as usize, Seq::empty())
    } else if !is_dot(toks[p]) {
        ParseResult::Complete(p as usize, Seq::empty())
    } else if p + 1 >= toks.len() {
        ParseResult::Incomplete((p + 1) as usize)
    } else if !is_step(toks[p + 1]) {
        ParseResult::Complete(p as usize, Seq::empty())
    } else {
        match steps_from(toks, p + 2) {
            ParseResult::Complete(m, s) => ParseResult::Complete(m, seq![toks[p + 1]] + s),
            other => other,
        }
    }
}

/// The tail of a selector after its head ends at `n`: none where no dot
/// follows (the end of the input included), else at least one step after the
/// dot; the input ending right after the dot leaves it incomplete.
pub open spec fn spec_selector_tail(toks: Seq<Token>, n: usize) -> ParseResult<Option<Seq<Token>>> {
    if n >= toks.len() {
        ParseResult::Complete(n, None)
    } else if !is_dot(toks[n as int]) {
        ParseResult::Complete(n, None)
    } else if n + 1 >= toks.len() {
        ParseResult::Incomplete((n + 1) as usize)
    } else if !is_step(toks[n + 1]) {
        ParseResult::Fail(ParseError::at(ParseErrorKind::ExpectedSelectorName, (n + 1) as usize))
    } else {
        match steps_from(toks, n + 2) {
            ParseResult::Complete(m, s) => ParseResult::Complete(m, Some(seq![toks[n + 1]] + s)),
            ParseResult::Incomplete(k) => ParseResult::Incomplete(k),
            ParseResult::Fail(e) => ParseResult::Fail(e),
            ParseResult::Abort(e) => ParseResult::Abort(e),
        }
    }
}

proof fn lemma_steps_from(toks: Seq<Token>, p: int)
    requires
        toks.len() <= usize::MAX,
        0 <= p <= toks.len(),
    ensures
        steps_from(toks, p) is Complete || steps_from(toks, p) is Incomplete,
        steps_from(toks, p) matches ParseResult::Complete(m, s) ==> p <= m <= toks.len() && m == p + 2 * s.len(),
    decreases toks.len() - p,
{
    if p < toks.len() && is_dot(toks[p]) && p + 1 < toks.len() && is_step(toks[p + 1]) {
        lemma_steps_from(toks, p + 2);
    }
}

fn is_dot_token(tok: &Token) -> (r: bool)
    ensures
        r == is_dot(*tok),
{
    let dot = ".".to_owned();
    tok.typ == TokenType::PUNCT && tok.fragment == dot
}

fn is_step_token(tok: &Token) -> (r: bool)
    ensures
        r == is_step(*tok),
{
    tok.typ == TokenType::BAREWORD || tok.typ == TokenType::DIGIT
}

/// Parses the tail of a selector whose head ends at `n`.
pub fn selector_tail(toks: &Vec<Token>, n: usize) -> (r: ParseResult<Option<Vec<Token>>>)
    ensures
        match spec_selector_tail(toks@, n) {
            ParseResult::Complete(m, None) => r == ParseResult::<Option<Vec<Token>>>::Complete(m, None),
            ParseResult::Complete(m, Some(s)) => r matches ParseResult::Complete(k, Some(v)) && k == m && v@ == s,
            ParseResult::Incomplete(k) => r == ParseResult::<Option<Vec<Token>>>::Incomplete(k),
            ParseResult::Fail(e) => r == ParseResult::<Option<Vec<Token>>>::Fail(e),
            ParseResult::Abort(e) => r == ParseResult::<Option<Vec<Token>>>::Abort(e),
        },
{
    let len = toks.len();
    if n >= len {
        return ParseResult::Complete(n, None);
    }
    if !is_dot_token(&toks[n]) {
        return ParseResult::Complete(n, None);
    }
    if len - n < 2 {
        return ParseResult::Incomplete(n + 1);
    }
    if !is_step_token(&toks[n + 1]) {
        return ParseResult::Fail(ParseError::new(ParseErrorKind::ExpectedSelectorName, n + 1));
    }
    let mut steps: Vec<Token> = Vec::new();
    steps.push(toks[n + 1].copy());
    let mut p: usize = n + 2;
    proof {
        lemma_steps_from(toks@, p as int);
    }
    loop
        invariant_except_break
            len == toks@.len(),
            n + 2 <= p <= len,
            (p - n) % 2 == 0,
            steps@.len() == (p - n) / 2,
            spec_selector_tail(toks@, n) == match steps_from(toks@, p as int) {
                ParseResult::Complete(m, s) => ParseResult::Complete(m, Some(steps@ + s)),
                ParseResult::Incomplete(k) => ParseResult::<Option<Seq<Token>>>::Incomplete(k),
                _ => ParseResult::<Option<Seq<Token>>>::Incomplete(0),
            },
            steps_from(toks@, p as int) is Complete || steps_from(toks@, p as int) is Incomplete,
        ensures
            spec_selector_tail(toks@, n) == ParseResult::Complete(p, Some(steps@)),
        decreases len - p,
    {
        proof {
            lemma_steps_from(toks@, p as int);
        }
        if p >= len {
            assert(steps@ + Seq::<Token>::empty() =~= steps@);
            break;
        }
        if !is_dot_token(&toks[p]) {
            assert(steps@ + Seq::<Token>::empty() =~= steps@);
            break;
        }
        if len - p < 2 {
            return ParseResult::Incomplete(p + 1);
        }
        if !is_step_token(&toks[p + 1]) {
            assert(steps@ + Seq::<Token>::empty() =~= steps@);
            break;
        }
        proof {
            lemma_steps_from(toks@, p + 2);
            let ghost next = steps@.push(toks@[p + 1]);
            assert forall|s: Seq<Token>| steps@ + (seq![toks@[p + 1]] + s) =~= next + s by {}
        }
        steps.push(toks[p + 1].copy());
        p = p + 2;
    }
    ParseResult::Complete(p, Some(steps))
}

/// What the head of a selector is at `i`: a bare word is a symbol, anything
/// else is what the grouped expression at `i` parsed to.
pub open spec fn spec_symbol_or_expression(
    toks: Seq<Token>,
    i: usize,
    grouped: ParseResult<Expression>,
) -> ParseResult<Expression> {
    if i >= toks.len() {
        ParseResult::Incomplete(i)
    } else if toks[i as int].typ == TokenType::BAREWORD {
        ParseResult::Complete(
            (i + 1) as usize,
            Expression::Simple(Value::Symbol(PositionedItem { pos: toks[i as int].pos, val: toks[i as int].fragment })),
        )
    } else {
        grouped
    }
}

/// Parses the head of a selector at `i`: a symbol, else the grouped
/// expression that `grouped` holds the parse of.
pub fn symbol_or_expression(toks: &Vec<Token>, i: usize, grouped: ParseResult<Expression>) -> (r: ParseResult<Expression>)
    ensures
        r == spec_symbol_or_expression(toks@, i, grouped),
{
    if i >= toks.len() {
        return ParseResult::Incomplete(i);
    }
    let tok = &toks[i];
    if tok.typ == TokenType::BAREWORD {
        ParseResult::Complete(i + 1, Expression::Simple(Value::Symbol(PositionedItem { pos: tok.pos, val: tok.fragment.clone() })))
    } else {
        grouped
    }
}

/// Parses a selector path: the head that was parsed, then its tail.
///
/// A head that did not parse is the result; a dot must be followed by a name
/// or an index, and further `.step` pairs are taken while there are.
pub fn selector_list(toks: &Vec<Token>, head: ParseResult<Expression>) -> (r: ParseResult<SelectorList>)
    ensures
        match head {
            ParseResult::Complete(n, e) => match spec_selector_tail(toks@, n) {
                ParseResult::Complete(m, None) => r == ParseResult::Complete(m, SelectorList { head: Box::new(e), tail: None }),
                ParseResult::Complete(m, Some(s)) => r matches ParseResult::Complete(k, sl) && k == m
                    && *sl.head == e && (sl.tail matches Some(v) && v@ == s),
                ParseResult::Incomplete(k) => r == ParseResult::<SelectorList>::Incomplete(k),
                ParseResult::Fail(err) => r == ParseResult::<SelectorList>::Fail(err),
                ParseResult::Abort(err) => r == ParseResult::<SelectorList>::Abort(err),
            },
            other => r == carry::<Expression, SelectorList>(other),
        },
{
    match head {
        ParseResult::Complete(n, e) => match selector_tail(toks, n) {
            ParseResult::Complete(m, tail) => ParseResult::Complete(m, SelectorList { head: Box::new(e), tail: tail }),
            ParseResult::Incomplete(k) => ParseResult::Incomplete(k),
            ParseResult::Fail(err) => ParseResult::Fail(err),
            ParseResult::Abort(err) => ParseResult::Abort(err),
        },
        ParseResult::Incomplete(k) => ParseResult::Incomplete(k),
        ParseResult::Fail(err) => ParseResult::Fail(err),
        ParseResult::Abort(err) => ParseResult::Abort(err),
    }
}

} // verus!
