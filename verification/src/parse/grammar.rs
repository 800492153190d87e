//! The grammar of ucg statements and expressions over tokens.
//!
//! ```text
//! statement  := 'import' QUOTED 'as' WORD ';' | 'let' WORD '=' expression ';'
//!             | 'assert' PIPEQUOTE ';' | 'out' WORD expression ';' | expression ';'
//! expression := operand (operator operand)*
//! operand    := 'macro' '(' [WORD (',' WORD)*] ')' '=>' '{' fields
//!             | 'select' expression ',' expression ',' '{' fields
//!             | QUOTED '%' '(' args(')') | QUOTED | number | BOOLEAN
//!             | '{' fields | '[' args(']')
//!             | WORD tail [ '{' fields | '(' args(')') ]
//!             | '(' expression ')' [ tail [ '{' fields | '(' args(')') ] ]
//! fields     := '}' | WORD '=' expression (',' fields | '}')
//! args(c)    := c | expression (',' args(c) | c)
//! number     := DIGIT ['.' [DIGIT]] | '.' DIGIT
//! tail       := ('.' (WORD | DIGIT))*
//! ```
//!
//! An operator expression goes through the precedence parser; a parenthesised
//! expression with no tail is a grouped expression, and a word or a
//! parenthesised expression with a tail is a selector.
use vstd::prelude::*;

use crate::ast::{
    BinaryExprType, Expression, FieldList, ImportDef, MacroDef,
    Position, PositionedItem, SelectDef, SelectorDef, SelectorList, Statement, Token, TokenType, Value,
};
use super::{ParseError, ParseErrorKind, ParseResult};
use super::nodes::{
    expression_to_grouped_expression, expression_to_statement, str_to_value, symbol_to_value, tuple_to_call,
    tuple_to_copy, tuple_to_format, tuple_to_import, tuple_to_let, tuple_to_list, value_to_expression, vec_to_selector_value,
    vec_to_tuple,
};
use super::numbers::{float_text_ok, int_of_text, triple_to_number};
use super::precedence::{
    Element, Shape, carry, lemma_found_binary, next_offset, op_expression, op_type, shape_expr, shape_ok,
    spec_binary, spec_class_operator, spec_compare, spec_compare_operand, spec_compare_operator, spec_math,
    spec_op_of, spec_parse_expression, spec_product, spec_sum, spec_sum_operand,
};
use super::lexer::{lexemes, tokenize, tokens_of};
use super::selector::{selector_list, selector_tail, spec_selector_tail, symbol_or_expression};
use super::syntax::{
    ElemSyntax, ExprSyntax, SelectorSyntax, StatementSyntax, ValueSyntax, elem_syntax, elems_syntax,
    expr_syntax, exprs_syntax, fields_syntax, lemma_syntax_position, selector_syntax, shape_syntax, skeleton,
    statement_syntax, statements_syntax, value_syntax,
};

verus! {

/// Whether the token at `p` has the type and the text.
pub open spec fn tok_is(t: Seq<Token>, p: int, typ: TokenType, text: Seq<char>) -> bool {
    0 <= p < t.len() && t[p].typ == typ && t[p].fragment@ == text
}

/// Whether the token at `p` is the punctuation `text`.
pub open spec fn punct_at(t: Seq<Token>, p: int, text: Seq<char>) -> bool {
    tok_is(t, p, TokenType::PUNCT, text)
}

/// Whether the token at `p` is the bare word `text`.
pub open spec fn word_at(t: Seq<Token>, p: int, text: Seq<char>) -> bool {
    tok_is(t, p, TokenType::BAREWORD, text)
}

/// Whether there is a token of the type at `p`.
pub open spec fn typ_at(t: Seq<Token>, p: int, typ: TokenType) -> bool {
    0 <= p < t.len() && t[p].typ == typ
}

/// The result where the token at `p` may not stand: a failure there, or, where
/// the input ends at `p`, an incomplete input.
pub open spec fn unexpected<T>(t: Seq<Token>, p: int) -> ParseResult<T> {
    if p >= t.len() {
        ParseResult::Incomplete(p as usize)
    } else {
        ParseResult::Fail(ParseError::at(ParseErrorKind::UnexpectedToken, p as usize))
    }
}

/// The operator at `p`, if there is one.
pub open spec fn op_at(t: Seq<Token>, p: int) -> Option<BinaryExprType> {
    if 0 <= p < t.len() {
        spec_op_of(t[p])
    } else {
        None
    }
}

/// Whether a parse that started at `p` ended after it, within the input.
pub open spec fn moved(p: int, n: usize, t: Seq<Token>) -> bool {
    p < n <= t.len()
}

/// A number literal at `i`.
pub open spec fn spec_number(t: Seq<Token>, i: int) -> ParseResult<ExprSyntax> {
    if typ_at(t, i, TokenType::DIGIT) {
        if punct_at(t, i + 1, "."@) {
            if typ_at(t, i + 2, TokenType::DIGIT) {
                float_at(t[i].fragment@, t[i + 2].fragment@, t[i].pos, i, i + 3)
            } else {
                float_at(t[i].fragment@, Seq::empty(), t[i].pos, i, i + 2)
            }
        } else {
            match int_of_text(t[i].fragment@) {
                Ok(v) => ParseResult::Complete(
                    (i + 1) as usize,
                    ExprSyntax::Simple(ValueSyntax::Plain(Value::Int(PositionedItem { pos: t[i].pos, val: v as i64 }))),
                ),
                Err(_) => ParseResult::Fail(ParseError::at(ParseErrorKind::BadNumber, i as usize)),
            }
        }
    } else if punct_at(t, i, "."@) && typ_at(t, i + 1, TokenType::DIGIT) {
        float_at(Seq::empty(), t[i + 1].fragment@, t[i].pos, i, i + 2)
    } else {
        unexpected(t, i)
    }
}

/// A float literal `pref.suf` at `i`, ending at `n`.
pub open spec fn float_at(pref: Seq<char>, suf: Seq<char>, pos: Position, i: int, n: int) -> ParseResult<ExprSyntax> {
    if float_text_ok(pref, suf) {
        ParseResult::Complete(n as usize, ExprSyntax::Simple(ValueSyntax::Float(pref + "."@ + suf, pos)))
    } else {
        ParseResult::Fail(ParseError::at(ParseErrorKind::BadNumber, i as usize))
    }
}

/// The argument names of a macro from `p` on, after `acc`, up to and with the
/// closing parenthesis.
pub open spec fn spec_names(t: Seq<Token>, p: int, acc: Seq<PositionedItem<String>>) -> ParseResult<
    Seq<PositionedItem<String>>,
>
    decreases t.len() - p,
{
    if punct_at(t, p, ")"@) {
        ParseResult::Complete((p + 1) as usize, acc)
    } else if typ_at(t, p, TokenType::BAREWORD) {
        let acc2 = acc.push(PositionedItem { pos: t[p].pos, val: t[p].fragment });
        if punct_at(t, p + 1, ","@) {
            spec_names(t, p + 2, acc2)
        } else if punct_at(t, p + 1, ")"@) {
            ParseResult::Complete((p + 2) as usize, acc2)
        } else {
            unexpected(t, p + 1)
        }
    } else {
        unexpected(t, p)
    }
}

/// An operand of an operator expression at `i`.
pub open spec fn spec_operand(t: Seq<Token>, i: int) -> ParseResult<ExprSyntax>
    decreases t.len() - i, 0int,
{
    if i < 0 || i >= t.len() {
        unexpected(t, i)
    } else if word_at(t, i, "macro"@) {
        spec_macro_rest(t, i + 1, t[i].pos)
    } else if word_at(t, i, "select"@) {
        spec_select_rest(t, i + 1, t[i].pos)
    } else if t[i].typ == TokenType::QUOTED {
        if punct_at(t, i + 1, "%"@) {
            if punct_at(t, i + 2, "("@) {
                match spec_args(t, i + 3, ")"@, Seq::empty()) {
                    ParseResult::Complete(n, args) => ParseResult::Complete(
                        n,
                        ExprSyntax::Format(t[i].fragment, args, t[i].pos),
                    ),
                    other => carry(other),
                }
            } else {
                unexpected(t, i + 2)
            }
        } else {
            ParseResult::Complete(
                (i + 1) as usize,
                ExprSyntax::Simple(ValueSyntax::Plain(Value::Str(PositionedItem { pos: t[i].pos, val: t[i].fragment }))),
            )
        }
    } else if t[i].typ == TokenType::DIGIT || punct_at(t, i, "."@) {
        spec_number(t, i)
    } else if t[i].typ == TokenType::BOOLEAN {
        ParseResult::Complete(
            (i + 1) as usize,
            ExprSyntax::Simple(ValueSyntax::Plain(Value::Boolean(PositionedItem { pos: t[i].pos, val: t[i].fragment@ == "true"@ }))),
        )
    } else if punct_at(t, i, "{"@) {
        match spec_fields(t, i + 1, Seq::empty()) {
            ParseResult::Complete(n, fs) => ParseResult::Complete(n, ExprSyntax::Simple(ValueSyntax::Tuple(fs, t[i].pos))),
            other => carry(other),
        }
    } else if punct_at(t, i, "["@) {
        match spec_args(t, i + 1, "]"@, Seq::empty()) {
            ParseResult::Complete(n, es) => ParseResult::Complete(n, ExprSyntax::Simple(ValueSyntax::List(es, t[i].pos))),
            other => carry(other),
        }
    } else if t[i].typ == TokenType::BAREWORD {
        let head = ExprSyntax::Simple(ValueSyntax::Plain(Value::Symbol(PositionedItem { pos: t[i].pos, val: t[i].fragment })));
        spec_after_head(t, t[i].pos, head, i + 1)
    } else if punct_at(t, i, "("@) {
        match spec_expression(t, i + 1) {
            ParseResult::Complete(n, e) => if !moved(i + 1, n, t) {
                unexpected(t, i + 1)
            } else if !punct_at(t, n as int, ")"@) {
                unexpected(t, n as int)
            } else if punct_at(t, n + 1, "."@) {
                spec_after_head(t, t[i].pos, ExprSyntax::Grouped(Box::new(e)), n + 1)
            } else {
                ParseResult::Complete((n + 1) as usize, ExprSyntax::Grouped(Box::new(e)))
            },
            other => other,
        }
    } else {
        unexpected(t, i)
    }
}

/// What follows the head of a selector that starts at `pos` and whose head
/// ends at `n`: its tail, then fields for a copy, arguments for a call, or
/// nothing for a selector value.
pub open spec fn spec_after_head(t: Seq<Token>, pos: Position, head: ExprSyntax, n: int) -> ParseResult<ExprSyntax>
    decreases t.len() - n, 0int,
{
    match spec_selector_tail(t, n as usize) {
        ParseResult::Complete(m, tail) => {
            let sel = SelectorSyntax { head: Box::new(head), tail: tail };
            if !(n <= m) {
                unexpected(t, n)
            } else if punct_at(t, m as int, "{"@) {
                match spec_fields(t, m + 1, Seq::empty()) {
                    ParseResult::Complete(k, fs) => ParseResult::Complete(k, ExprSyntax::Copy(sel, pos, fs, pos)),
                    other => carry(other),
                }
            } else if punct_at(t, m as int, "("@) {
                match spec_args(t, m + 1, ")"@, Seq::empty()) {
                    ParseResult::Complete(k, args) => ParseResult::Complete(k, ExprSyntax::Call(sel, pos, args, pos)),
                    other => carry(other),
                }
            } else {
                ParseResult::Complete(m, ExprSyntax::Simple(ValueSyntax::Selector(sel, pos)))
            }
        },
        other => carry(other),
    }
}

/// A macro after its keyword, at `p`: its argument names, `=>` and its tuple.
pub open spec fn spec_macro_rest(t: Seq<Token>, p: int, pos: Position) -> ParseResult<ExprSyntax>
    decreases t.len() - p, 0int,
{
    if !punct_at(t, p, "("@) {
        unexpected(t, p)
    } else {
        match spec_names(t, p + 1, Seq::empty()) {
            ParseResult::Complete(k, names) => if !moved(p, k, t) {
                unexpected(t, p)
            } else if !punct_at(t, k as int, "=>"@) {
                unexpected(t, k as int)
            } else if !punct_at(t, k + 1, "{"@) {
                unexpected(t, k + 1)
            } else {
                match spec_fields(t, k + 2, Seq::empty()) {
                    ParseResult::Complete(m, fs) => ParseResult::Complete(m, ExprSyntax::Macro(names, fs, pos)),
                    other => carry(other),
                }
            },
            other => carry(other),
        }
    }
}

/// A select after its keyword, at `p`: the value, the default and the tuple
/// of branches.
pub open spec fn spec_select_rest(t: Seq<Token>, p: int, pos: Position) -> ParseResult<ExprSyntax>
    decreases t.len() - p, 2int,
{
    match spec_expression(t, p) {
        ParseResult::Complete(n, v) => if !moved(p, n, t) {
            unexpected(t, p)
        } else if !punct_at(t, n as int, ","@) {
            unexpected(t, n as int)
        } else {
            match spec_expression(t, n + 1) {
                ParseResult::Complete(m, d) => if !moved(n + 1, m, t) {
                    unexpected(t, n + 1)
                } else if !punct_at(t, m as int, ","@) {
                    unexpected(t, m as int)
                } else if !punct_at(t, m + 1, "{"@) {
                    unexpected(t, m + 1)
                } else {
                    match spec_fields(t, m + 2, Seq::empty()) {
                        ParseResult::Complete(k, fs) => ParseResult::Complete(
                            k,
                            ExprSyntax::Select(Box::new(v), Box::new(d), fs, pos),
                        ),
                        other => carry(other),
                    }
                },
                other => other,
            }
        },
        other => other,
    }
}

/// The fields of a tuple from `p` on, after `acc`, up to and with the closing brace.
pub open spec fn spec_fields(t: Seq<Token>, p: int, acc: Seq<(Token, ExprSyntax)>) -> ParseResult<
    Seq<(Token, ExprSyntax)>,
>
    decreases t.len() - p, 2int,
{
    if punct_at(t, p, "}"@) {
        ParseResult::Complete((p + 1) as usize, acc)
    } else if !typ_at(t, p, TokenType::BAREWORD) {
        unexpected(t, p)
    } else if !punct_at(t, p + 1, "="@) {
        unexpected(t, p + 1)
    } else {
        match spec_expression(t, p + 2) {
            ParseResult::Complete(n, e) => {
                let acc2 = acc.push((t[p], e));
                if !moved(p + 2, n, t) {
                    unexpected(t, p + 2)
                } else if punct_at(t, n as int, ","@) {
                    spec_fields(t, n + 1, acc2)
                } else if punct_at(t, n as int, "}"@) {
                    ParseResult::Complete((n + 1) as usize, acc2)
                } else {
                    unexpected(t, n as int)
                }
            },
            other => carry(other),
        }
    }
}

/// A list of expressions from `p` on, after `acc`, up to and with `close`.
pub open spec fn spec_args(t: Seq<Token>, p: int, close: Seq<char>, acc: Seq<ExprSyntax>) -> ParseResult<
    Seq<ExprSyntax>,
>
    decreases t.len() - p, 2int,
{
    if punct_at(t, p, close) {
        ParseResult::Complete((p + 1) as usize, acc)
    } else {
        match spec_expression(t, p) {
            ParseResult::Complete(n, e) => {
                let acc2 = acc.push(e);
                if !moved(p, n, t) {
                    unexpected(t, p)
                } else if punct_at(t, n as int, ","@) {
                    spec_args(t, n + 1, close, acc2)
                } else if punct_at(t, n as int, close) {
                    ParseResult::Complete((n + 1) as usize, acc2)
                } else {
                    unexpected(t, n as int)
                }
            },
            other => carry(other),
        }
    }
}

/// An expression at `i`: an operand, or operands joined by operators.
pub open spec fn spec_expression(t: Seq<Token>, i: int) -> ParseResult<ExprSyntax>
    decreases t.len() - i, 1int,
{
    match spec_operand(t, i) {
        ParseResult::Complete(n, e) => if !moved(i, n, t) {
            unexpected(t, i)
        } else {
            match op_at(t, n as int) {
                Some(op) => spec_op_rest(t, i, n + 1, seq![ElemSyntax::Expr(e), ElemSyntax::Op(op)]),
                None => ParseResult::Complete(n, e),
            }
        },
        other => other,
    }
}

/// The rest of an operator expression that started at `start`, from `p` on,
/// after the elements `acc`.
pub open spec fn spec_op_rest(t: Seq<Token>, start: int, p: int, acc: Seq<ElemSyntax>) -> ParseResult<ExprSyntax>
    decreases t.len() - p, 1int,
{
    match spec_operand(t, p) {
        ParseResult::Complete(n, e) => if !moved(p, n, t) {
            unexpected(t, p)
        } else {
            let acc2 = acc.push(ElemSyntax::Expr(e));
            match op_at(t, n as int) {
                Some(op) => spec_op_rest(t, start, n + 1, acc2.push(ElemSyntax::Op(op))),
                None => spec_join(start, n, acc2),
            }
        },
        other => other,
    }
}

/// The operator expression over the elements of a list that started at
/// `start` and ended at `n`, as the precedence parser builds it.
pub open spec fn spec_join(start: int, n: usize, ms: Seq<ElemSyntax>) -> ParseResult<ExprSyntax> {
    match spec_binary(skeleton(ms), 0) {
        ParseResult::Complete(_, p) => ParseResult::Complete(n, shape_syntax(p, ms)),
        ParseResult::Fail(_) => ParseResult::Fail(ParseError::at(ParseErrorKind::OperatorExpression, n)),
        ParseResult::Abort(_) => ParseResult::Abort(ParseError::at(ParseErrorKind::OperatorExpression, n)),
        ParseResult::Incomplete(_) => ParseResult::Incomplete(start as usize),
    }
}

/// An expression followed by a semicolon, from `p` on.
pub open spec fn spec_terminated(t: Seq<Token>, p: int) -> ParseResult<ExprSyntax> {
    match spec_expression(t, p) {
        ParseResult::Complete(n, e) => if !moved(p, n, t) {
            unexpected(t, p)
        } else if punct_at(t, n as int, ";"@) {
            ParseResult::Complete((n + 1) as usize, e)
        } else {
            unexpected(t, n as int)
        },
        other => other,
    }
}

/// A statement at `i`.
pub open spec fn spec_statement(t: Seq<Token>, i: int) -> ParseResult<StatementSyntax> {
    if word_at(t, i, "import"@) {
        if !typ_at(t, i + 1, TokenType::QUOTED) {
            unexpected(t, i + 1)
        } else if !word_at(t, i + 2, "as"@) {
            unexpected(t, i + 2)
        } else if !typ_at(t, i + 3, TokenType::BAREWORD) {
            unexpected(t, i + 3)
        } else if !punct_at(t, i + 4, ";"@) {
            unexpected(t, i + 4)
        } else {
            ParseResult::Complete((i + 5) as usize, StatementSyntax::Import(ImportDef { path: t[i + 1], name: t[i + 3] }))
        }
    } else if word_at(t, i, "let"@) {
        if !typ_at(t, i + 1, TokenType::BAREWORD) {
            unexpected(t, i + 1)
        } else if !punct_at(t, i + 2, "="@) {
            unexpected(t, i + 2)
        } else {
            match spec_terminated(t, i + 3) {
                ParseResult::Complete(n, e) => ParseResult::Complete(n, StatementSyntax::Let(t[i + 1], e)),
                other => carry(other),
            }
        }
    } else if word_at(t, i, "assert"@) {
        if !typ_at(t, i + 1, TokenType::PIPEQUOTE) {
            unexpected(t, i + 1)
        } else if !punct_at(t, i + 2, ";"@) {
            unexpected(t, i + 2)
        } else {
            ParseResult::Complete((i + 3) as usize, StatementSyntax::Assert(t[i + 1]))
        }
    } else if word_at(t, i, "out"@) {
        if !typ_at(t, i + 1, TokenType::BAREWORD) {
            unexpected(t, i + 1)
        } else {
            match spec_terminated(t, i + 2) {
                ParseResult::Complete(n, e) => ParseResult::Complete(n, StatementSyntax::Output(t[i + 1], e)),
                other => carry(other),
            }
        }
    } else {
        match spec_terminated(t, i) {
            ParseResult::Complete(n, e) => ParseResult::Complete(n, StatementSyntax::Expression(e)),
            other => carry(other),
        }
    }
}

/// The statements from `i` on, after `acc`, or the error of the first one that does not parse.
pub open spec fn spec_statements(t: Seq<Token>, i: int, acc: Seq<StatementSyntax>) -> Result<
    Seq<StatementSyntax>,
    ParseError,
>
    decreases t.len() - i,
{
    if i < 0 || i >= t.len() {
        Ok(acc)
    } else {
        match spec_statement(t, i) {
            ParseResult::Complete(n, s) => if moved(i, n, t) {
                spec_statements(t, n as int, acc.push(s))
            } else {
                Err(ParseError::at(ParseErrorKind::UnexpectedToken, i as usize))
            },
            ParseResult::Fail(e) => Err(e),
            ParseResult::Abort(e) => Err(e),
            ParseResult::Incomplete(n) => Err(ParseError::at(ParseErrorKind::ExpectedExpressionAtEnd, n)),
        }
    }
}

/// The statements that a list of tokens holds, at least one, or the first error.
pub open spec fn statements_of(t: Seq<Token>) -> Result<Seq<StatementSyntax>, ParseError> {
    if t.len() == 0 {
        Err(ParseError::at(ParseErrorKind::ExpectedExpressionAtEnd, 0))
    } else {
        spec_statements(t, 0, Seq::empty())
    }
}

/// Whether two element lists have the same length, expressions at the same
/// places and the same operators.
pub open spec fn same_kinds(s1: Seq<Element>, s2: Seq<Element>) -> bool {
    &&& s1.len() == s2.len()
    &&& forall|k: int| 0 <= k < s1.len() ==> (#[trigger] s1[k] is Expr <==> s2[k] is Expr)
    &&& forall|k: int| 0 <= k < s1.len() ==> (#[trigger] s1[k] is Op ==> s2[k] == s1[k])
}

/// The precedence parser reads only the kinds of the elements and the operators.
proof fn lemma_binary_kinds(s1: Seq<Element>, s2: Seq<Element>, i: usize)
    requires
        same_kinds(s1, s2),
    ensures
        spec_binary(s1, i) == spec_binary(s2, i),
{
    assert forall|j: usize| spec_parse_expression(s1, j) == spec_parse_expression(s2, j) by {
        if j < s1.len() {
            assert(s1[j as int] is Expr <==> s2[j as int] is Expr);
        }
    }
    assert forall|j: usize, sum: bool| spec_class_operator(s1, j, sum) == spec_class_operator(s2, j, sum) by {
        if j < s1.len() {
            assert(s1[j as int] is Expr <==> s2[j as int] is Expr);
        }
    }
    assert forall|j: usize| spec_compare_operator(s1, j) == spec_compare_operator(s2, j) by {
        if j < s1.len() {
            assert(s1[j as int] is Expr <==> s2[j as int] is Expr);
        }
    }
    assert forall|j: usize| spec_product(s1, j) == spec_product(s2, j) by {
        assert(spec_parse_expression(s1, j) == spec_parse_expression(s2, j));
        let n1 = next_offset(spec_parse_expression(s1, j));
        assert(spec_class_operator(s1, n1, false) == spec_class_operator(s2, n1, false));
        let n2 = next_offset(spec_class_operator(s1, n1, false));
        assert(spec_parse_expression(s1, n2) == spec_parse_expression(s2, n2));
    }
    assert forall|j: usize| spec_sum_operand(s1, j) == spec_sum_operand(s2, j) by {
        assert(spec_product(s1, j) == spec_product(s2, j));
        assert(spec_parse_expression(s1, j) == spec_parse_expression(s2, j));
    }
    assert forall|j: usize| spec_sum(s1, j) == spec_sum(s2, j) by {
        assert(spec_sum_operand(s1, j) == spec_sum_operand(s2, j));
        let n1 = next_offset(spec_sum_operand(s1, j));
        assert(spec_class_operator(s1, n1, true) == spec_class_operator(s2, n1, true));
        let n2 = next_offset(spec_class_operator(s1, n1, true));
        assert(spec_sum_operand(s1, n2) == spec_sum_operand(s2, n2));
    }
    assert forall|j: usize| spec_math(s1, j) == spec_math(s2, j) by {
        assert(spec_sum(s1, j) == spec_sum(s2, j));
        assert(spec_product(s1, j) == spec_product(s2, j));
    }
    assert forall|j: usize| spec_compare_operand(s1, j) == spec_compare_operand(s2, j) by {
        assert(spec_math(s1, j) == spec_math(s2, j));
        assert(spec_parse_expression(s1, j) == spec_parse_expression(s2, j));
    }
    assert forall|j: usize| spec_compare(s1, j) == spec_compare(s2, j) by {
        assert(spec_compare_operand(s1, j) == spec_compare_operand(s2, j));
        let n1 = next_offset(spec_compare_operand(s1, j));
        assert(spec_compare_operator(s1, n1) == spec_compare_operator(s2, n1));
        let n2 = next_offset(spec_compare_operator(s1, n1));
        assert(spec_compare_operand(s1, n2) == spec_compare_operand(s2, n2));
    }
    assert(spec_compare(s1, i) == spec_compare(s2, i));
    assert(spec_math(s1, i) == spec_math(s2, i));
    assert(spec_parse_expression(s1, i) == spec_parse_expression(s2, i));
}

/// An operator expression built over elements has the syntax that its shape
/// describes over their syntaxes.
proof fn lemma_shape_syntax(p: Shape, s: Seq<Element>)
    requires
        shape_ok(p, s),
    ensures
        expr_syntax(shape_expr(p, s)) == shape_syntax(p, elems_syntax(s)),
    decreases p,
{
    match p {
        Shape::Leaf(k) => {
            assert(elems_syntax(s)[k as int] == elem_syntax(s[k as int]));
        },
        Shape::Node(t, l, r) => {
            lemma_shape_syntax(*l, s);
            lemma_shape_syntax(*r, s);
            lemma_syntax_position(shape_expr(*l, s));
        },
    }
}

proof fn lemma_skeleton_kinds(s: Seq<Element>)
    ensures
        same_kinds(s, skeleton(elems_syntax(s))),
{
    let s2 = skeleton(elems_syntax(s));
    assert forall|k: int| 0 <= k < s.len() implies (#[trigger] s[k] is Expr <==> s2[k] is Expr) by {
        assert(elems_syntax(s)[k] == elem_syntax(s[k]));
    }
    assert forall|k: int| 0 <= k < s.len() && #[trigger] s[k] is Op implies s2[k] == s[k] by {
        assert(elems_syntax(s)[k] == elem_syntax(s[k]));
    }
}

proof fn lemma_fields_push(fs: Seq<(Token, Expression)>, x: (Token, Expression))
    ensures
        fields_syntax(fs.push(x)) == fields_syntax(fs).push((x.0, expr_syntax(x.1))),
{
    assert(fs.push(x).subrange(0, fs.len() as int) =~= fs);
}

proof fn lemma_exprs_push(es: Seq<Expression>, x: Expression)
    ensures
        exprs_syntax(es.push(x)) == exprs_syntax(es).push(expr_syntax(x)),
{
    assert(es.push(x).subrange(0, es.len() as int) =~= es);
}

/// The syntax of the result of an expression parse.
pub open spec fn expr_result(r: ParseResult<Expression>) -> ParseResult<ExprSyntax> {
    match r {
        ParseResult::Complete(n, e) => ParseResult::Complete(n, expr_syntax(e)),
        ParseResult::Incomplete(n) => ParseResult::Incomplete(n),
        ParseResult::Fail(e) => ParseResult::Fail(e),
        ParseResult::Abort(e) => ParseResult::Abort(e),
    }
}

/// The syntax of the result of a parse of fields.
pub open spec fn fields_result(r: ParseResult<FieldList>) -> ParseResult<Seq<(Token, ExprSyntax)>> {
    match r {
        ParseResult::Complete(n, fs) => ParseResult::Complete(n, fields_syntax(fs@)),
        ParseResult::Incomplete(n) => ParseResult::Incomplete(n),
        ParseResult::Fail(e) => ParseResult::Fail(e),
        ParseResult::Abort(e) => ParseResult::Abort(e),
    }
}

/// The syntax of the result of a parse of a list of expressions.
pub open spec fn exprs_result(r: ParseResult<Vec<Expression>>) -> ParseResult<Seq<ExprSyntax>> {
    match r {
        ParseResult::Complete(n, es) => ParseResult::Complete(n, exprs_syntax(es@)),
        ParseResult::Incomplete(n) => ParseResult::Incomplete(n),
        ParseResult::Fail(e) => ParseResult::Fail(e),
        ParseResult::Abort(e) => ParseResult::Abort(e),
    }
}

/// The syntax of the result of a parse of argument names.
pub open spec fn names_result(r: ParseResult<Vec<PositionedItem<String>>>) -> ParseResult<
    Seq<PositionedItem<String>>,
> {
    match r {
        ParseResult::Complete(n, v) => ParseResult::Complete(n, v@),
        ParseResult::Incomplete(n) => ParseResult::Incomplete(n),
        ParseResult::Fail(e) => ParseResult::Fail(e),
        ParseResult::Abort(e) => ParseResult::Abort(e),
    }
}

fn pass<A, B>(r: ParseResult<A>) -> (o: ParseResult<B>)
    requires
        !(r is Complete),
    ensures
        o == carry::<A, B>(r),
{
    match r {
        ParseResult::Complete(n, _) => ParseResult::Incomplete(n),
        ParseResult::Incomplete(n) => ParseResult::Incomplete(n),
        ParseResult::Fail(e) => ParseResult::Fail(e),
        ParseResult::Abort(e) => ParseResult::Abort(e),
    }
}

fn unexpected_at<T>(t: &Vec<Token>, p: usize) -> (r: ParseResult<T>)
    ensures
        r == unexpected::<T>(t@, p as int),
{
    if p >= t.len() {
        ParseResult::Incomplete(p)
    } else {
        ParseResult::Fail(ParseError::new(ParseErrorKind::UnexpectedToken, p))
    }
}

fn tok_matches(t: &Vec<Token>, p: usize, typ: TokenType, text: &str) -> (r: bool)
    ensures
        r == tok_is(t@, p as int, typ, text@),
        r ==> p < t.len(),
{
    p < t.len() && t[p].typ == typ && t[p].fragment == text.to_owned()
}

fn punct_tok(t: &Vec<Token>, p: usize, text: &str) -> (r: bool)
    ensures
        r == punct_at(t@, p as int, text@),
        r ==> p < t.len(),
{
    tok_matches(t, p, TokenType::PUNCT, text)
}

fn word_tok(t: &Vec<Token>, p: usize, text: &str) -> (r: bool)
    ensures
        r == word_at(t@, p as int, text@),
        r ==> p < t.len(),
{
    tok_matches(t, p, TokenType::BAREWORD, text)
}

fn has_typ(t: &Vec<Token>, p: usize, typ: TokenType) -> (r: bool)
    ensures
        r == typ_at(t@, p as int, typ),
        r ==> p < t.len(),
{
    p < t.len() && t[p].typ == typ
}

fn operator_at(t: &Vec<Token>, p: usize) -> (r: Option<BinaryExprType>)
    ensures
        r == op_at(t@, p as int),
{
    match op_type(t, p) {
        ParseResult::Complete(_, Element::Op(op)) => Some(op),
        _ => None,
    }
}

fn number_value(v: Result<Value, super::super::error::BuildError>, i: usize, n: usize) -> (r: ParseResult<Expression>)
    ensures
        match v {
            Ok(x) => r == ParseResult::Complete(n, Expression::Simple(x)),
            Err(_) => r == ParseResult::<Expression>::Fail(ParseError::at(ParseErrorKind::BadNumber, i)),
        },
{
    match v {
        Ok(x) => ParseResult::Complete(n, Expression::Simple(x)),
        Err(_) => ParseResult::Fail(ParseError::new(ParseErrorKind::BadNumber, i)),
    }
}

fn number(t: &Vec<Token>, i: usize) -> (r: ParseResult<Expression>)
    requires
        i < t.len(),
        t@[i as int].typ == TokenType::DIGIT || punct_at(t@, i as int, "."@),
    ensures
        expr_result(r) == spec_number(t@, i as int),
{
    proof {
        reveal_strlit(".");
        reveal_with_fuel(expr_syntax, 2);
        reveal_with_fuel(value_syntax, 2);
    }
    if t[i].typ == TokenType::DIGIT {
        if punct_tok(t, i + 1, ".") {
            if has_typ(t, i + 2, TokenType::DIGIT) {
                let v = triple_to_number((Some(t[i].copy()), Some(t[i + 1].copy()), Some(t[i + 2].copy())));
                number_value(v, i, i + 3)
            } else {
                let v = triple_to_number((Some(t[i].copy()), Some(t[i + 1].copy()), None));
                number_value(v, i, i + 2)
            }
        } else {
            let v = triple_to_number((Some(t[i].copy()), None, None));
            number_value(v, i, i + 1)
        }
    } else if has_typ(t, i + 1, TokenType::DIGIT) {
        let v = triple_to_number((None, Some(t[i].copy()), Some(t[i + 1].copy())));
        number_value(v, i, i + 2)
    } else {
        unexpected_at(t, i)
    }
}

fn names(t: &Vec<Token>, p: usize, acc: Vec<PositionedItem<String>>) -> (r: ParseResult<Vec<PositionedItem<String>>>)
    requires
        p <= t@.len(),
    ensures
        names_result(r) == spec_names(t@, p as int, acc@),
    decreases t@.len() - p,
{
    if punct_tok(t, p, ")") {
        return ParseResult::Complete(p + 1, acc);
    }
    if !has_typ(t, p, TokenType::BAREWORD) {
        return unexpected_at(t, p);
    }
    let mut acc = acc;
    acc.push(PositionedItem::from_token(&t[p]));
    if punct_tok(t, p + 1, ",") {
        names(t, p + 2, acc)
    } else if punct_tok(t, p + 1, ")") {
        ParseResult::Complete(p + 2, acc)
    } else {
        unexpected_at(t, p + 1)
    }
}

fn fields(t: &Vec<Token>, p: usize, acc: FieldList) -> (r: ParseResult<FieldList>)
    requires
        p <= t@.len(),
    ensures
        fields_result(r) == spec_fields(t@, p as int, fields_syntax(acc@)),
    decreases t@.len() - p, 2int,
{
    if punct_tok(t, p, "}") {
        return ParseResult::Complete(p + 1, acc);
    }
    if !has_typ(t, p, TokenType::BAREWORD) {
        return unexpected_at(t, p);
    }
    if !punct_tok(t, p + 1, "=") {
        return unexpected_at(t, p + 1);
    }
    match expression(t, p + 2) {
        ParseResult::Complete(n, e) => {
            let name = t[p].copy();
            let ghost before = acc@;
            let ghost ge = e;
            let mut acc = acc;
            acc.push((name, e));
            proof {
                lemma_fields_push(before, (name, ge));
            }
            if n <= p + 2 || n > t.len() {
                unexpected_at(t, p + 2)
            } else if punct_tok(t, n, ",") {
                fields(t, n + 1, acc)
            } else if punct_tok(t, n, "}") {
                ParseResult::Complete(n + 1, acc)
            } else {
                unexpected_at(t, n)
            }
        },
        other => pass(other),
    }
}

fn args(t: &Vec<Token>, p: usize, close: &str, acc: Vec<Expression>) -> (r: ParseResult<Vec<Expression>>)
    requires
        p <= t@.len(),
    ensures
        exprs_result(r) == spec_args(t@, p as int, close@, exprs_syntax(acc@)),
    decreases t@.len() - p, 2int,
{
    if punct_tok(t, p, close) {
        return ParseResult::Complete(p + 1, acc);
    }
    match expression(t, p) {
        ParseResult::Complete(n, e) => {
            let ghost before = acc@;
            let ghost ge = e;
            let mut acc = acc;
            acc.push(e);
            proof {
                lemma_exprs_push(before, ge);
            }
            if n <= p || n > t.len() {
                unexpected_at(t, p)
            } else if punct_tok(t, n, ",") {
                args(t, n + 1, close, acc)
            } else if punct_tok(t, n, close) {
                ParseResult::Complete(n + 1, acc)
            } else {
                unexpected_at(t, n)
            }
        },
        other => pass(other),
    }
}

fn after_head(t: &Vec<Token>, pos: Position, head: Expression, n: usize) -> (r: ParseResult<Expression>)
    requires
        n <= t@.len(),
    ensures
        expr_result(r) == spec_after_head(t@, pos, expr_syntax(head), n as int),
    decreases t@.len() - n, 0int,
{
    proof {
        reveal_with_fuel(expr_syntax, 3);
        reveal_with_fuel(selector_syntax, 3);
    }
    match selector_tail(t, n) {
        ParseResult::Complete(m, tail) => {
            let sel = SelectorList { head: Box::new(head), tail: tail };
            if m < n {
                unexpected_at(t, n)
            } else if punct_tok(t, m, "{") {
                match fields(t, m + 1, Vec::new()) {
                    ParseResult::Complete(k, fs) => ParseResult::Complete(
                        k,
                        tuple_to_copy((pos, SelectorDef::new(sel, pos), fs)).unwrap(),
                    ),
                    other => pass(other),
                }
            } else if punct_tok(t, m, "(") {
                match args(t, m + 1, ")", Vec::new()) {
                    ParseResult::Complete(k, es) => ParseResult::Complete(
                        k,
                        tuple_to_call((pos, vec_to_selector_value((pos, sel)).unwrap(), es)).unwrap(),
                    ),
                    other => pass(other),
                }
            } else {
                ParseResult::Complete(m, Expression::Simple(vec_to_selector_value((pos, sel)).unwrap()))
            }
        },
        ParseResult::Incomplete(k) => ParseResult::Incomplete(k),
        ParseResult::Fail(e) => ParseResult::Fail(e),
        ParseResult::Abort(e) => ParseResult::Abort(e),
    }
}

fn macro_rest(t: &Vec<Token>, p: usize, pos: Position) -> (r: ParseResult<Expression>)
    requires
        p <= t@.len(),
    ensures
        expr_result(r) == spec_macro_rest(t@, p as int, pos),
    decreases t@.len() - p, 0int,
{
    if !punct_tok(t, p, "(") {
        return unexpected_at(t, p);
    }
    match names(t, p + 1, Vec::new()) {
        ParseResult::Complete(k, argdefs) => {
            if k <= p || k > t.len() {
                unexpected_at(t, p)
            } else if !punct_tok(t, k, "=>") {
                unexpected_at(t, k)
            } else if !punct_tok(t, k + 1, "{") {
                unexpected_at(t, k + 1)
            } else {
                match fields(t, k + 2, Vec::new()) {
                    ParseResult::Complete(m, fs) => ParseResult::Complete(
                        m,
                        Expression::Macro(MacroDef { argdefs: argdefs, fields: fs, pos: pos }),
                    ),
                    other => pass(other),
                }
            }
        },
        other => pass(other),
    }
}

fn select_rest(t: &Vec<Token>, p: usize, pos: Position) -> (r: ParseResult<Expression>)
    requires
        p <= t@.len(),
    ensures
        expr_result(r) == spec_select_rest(t@, p as int, pos),
    decreases t@.len() - p, 2int,
{
    match expression(t, p) {
        ParseResult::Complete(n, v) => {
            if n <= p || n > t.len() {
                return unexpected_at(t, p);
            }
            if !punct_tok(t, n, ",") {
                return unexpected_at(t, n);
            }
            match expression(t, n + 1) {
                ParseResult::Complete(m, d) => {
                    if m <= n + 1 || m > t.len() {
                        unexpected_at(t, n + 1)
                    } else if !punct_tok(t, m, ",") {
                        unexpected_at(t, m)
                    } else if !punct_tok(t, m + 1, "{") {
                        unexpected_at(t, m + 1)
                    } else {
                        match fields(t, m + 2, Vec::new()) {
                            ParseResult::Complete(k, fs) => ParseResult::Complete(
                                k,
                                Expression::Select(
                                    SelectDef { val: Box::new(v), default: Box::new(d), tuple: fs, pos: pos },
                                ),
                            ),
                            other => pass(other),
                        }
                    }
                },
                other => other,
            }
        },
        other => other,
    }
}

fn operand(t: &Vec<Token>, i: usize) -> (r: ParseResult<Expression>)
    requires
        i <= t@.len(),
    ensures
        expr_result(r) == spec_operand(t@, i as int),
    decreases t@.len() - i, 0int,
{
    proof {
        reveal_with_fuel(expr_syntax, 3);
        reveal_with_fuel(value_syntax, 3);
    }
    if i >= t.len() {
        return unexpected_at(t, i);
    }
    if word_tok(t, i, "macro") {
        return macro_rest(t, i + 1, t[i].pos);
    }
    if word_tok(t, i, "select") {
        return select_rest(t, i + 1, t[i].pos);
    }
    let typ = t[i].typ;
    let pos = t[i].pos;
    if typ == TokenType::QUOTED {
        if punct_tok(t, i + 1, "%") {
            if !punct_tok(t, i + 2, "(") {
                return unexpected_at(t, i + 2);
            }
            match args(t, i + 3, ")", Vec::new()) {
                ParseResult::Complete(n, es) => ParseResult::Complete(
                    n,
                    tuple_to_format((t[i].copy(), es)).unwrap(),
                ),
                other => pass(other),
            }
        } else {
            ParseResult::Complete(i + 1, value_to_expression(str_to_value(t[i].copy()).unwrap()).unwrap())
        }
    } else if typ == TokenType::DIGIT || punct_tok(t, i, ".") {
        number(t, i)
    } else if typ == TokenType::BOOLEAN {
        let val = t[i].fragment == "true".to_owned();
        proof {
            reveal_strlit("true");
        }
        ParseResult::Complete(i + 1, Expression::Simple(Value::Boolean(PositionedItem { pos: pos, val: val })))
    } else if punct_tok(t, i, "{") {
        match fields(t, i + 1, Vec::new()) {
            ParseResult::Complete(n, fs) => ParseResult::Complete(
                n,
                value_to_expression(vec_to_tuple((pos, fs)).unwrap()).unwrap(),
            ),
            other => pass(other),
        }
    } else if punct_tok(t, i, "[") {
        match args(t, i + 1, "]", Vec::new()) {
            ParseResult::Complete(n, es) => ParseResult::Complete(
                n,
                value_to_expression(tuple_to_list((pos, es)).unwrap()).unwrap(),
            ),
            other => pass(other),
        }
    } else if typ == TokenType::BAREWORD {
        let head = value_to_expression(symbol_to_value(t[i].copy()).unwrap()).unwrap();
        after_head(t, pos, head, i + 1)
    } else if punct_tok(t, i, "(") {
        match expression(t, i + 1) {
            ParseResult::Complete(n, e) => {
                if n <= i + 1 || n > t.len() {
                    unexpected_at(t, i + 1)
                } else if !punct_tok(t, n, ")") {
                    unexpected_at(t, n)
                } else if punct_tok(t, n + 1, ".") {
                    after_head(t, pos, expression_to_grouped_expression(e).unwrap(), n + 1)
                } else {
                    ParseResult::Complete(n + 1, expression_to_grouped_expression(e).unwrap())
                }
            },
            other => other,
        }
    } else {
        unexpected_at(t, i)
    }
}

fn join(start: usize, n: usize, acc: Vec<Element>) -> (r: ParseResult<Expression>)
    ensures
        expr_result(r) == spec_join(start as int, n, elems_syntax(acc@)),
{
    let count = acc.len();
    proof {
        assert(acc@.len() == count);
        lemma_found_binary(acc@, 0);
        lemma_skeleton_kinds(acc@);
        lemma_binary_kinds(acc@, skeleton(elems_syntax(acc@)), 0);
        if let ParseResult::Complete(_, p) = spec_binary(acc@, 0) {
            lemma_shape_syntax(p, acc@);
        }
    }
    op_expression(start, ParseResult::Complete(n, acc))
}

/// Parses the expression at `i`: an operand, or operands joined by operators
/// through the precedence parser, as `spec_expression` describes.
pub fn expression(t: &Vec<Token>, i: usize) -> (r: ParseResult<Expression>)
    requires
        i <= t@.len(),
    ensures
        expr_result(r) == spec_expression(t@, i as int),
    decreases t@.len() - i, 1int,
{
    match operand(t, i) {
        ParseResult::Complete(n, e) => {
            if n <= i || n > t.len() {
                return unexpected_at(t, i);
            }
            match operator_at(t, n) {
                Some(op) => {
                    let ghost ge = e;
                    let mut acc: Vec<Element> = Vec::new();
                    acc.push(Element::Expr(e));
                    acc.push(Element::Op(op));
                    proof {
                        assert(elems_syntax(acc@) =~= seq![ElemSyntax::Expr(expr_syntax(ge)), ElemSyntax::Op(op)]);
                    }
                    op_rest(t, i, n + 1, acc)
                },
                None => ParseResult::Complete(n, e),
            }
        },
        other => other,
    }
}

fn op_rest(t: &Vec<Token>, start: usize, p: usize, acc: Vec<Element>) -> (r: ParseResult<Expression>)
    requires
        p <= t@.len(),
    ensures
        expr_result(r) == spec_op_rest(t@, start as int, p as int, elems_syntax(acc@)),
    decreases t@.len() - p, 1int,
{
    match operand(t, p) {
        ParseResult::Complete(n, e) => {
            if n <= p || n > t.len() {
                return unexpected_at(t, p);
            }
            let ghost ge = e;
            let ghost before = acc@;
            let mut acc = acc;
            acc.push(Element::Expr(e));
            proof {
                assert(elems_syntax(acc@) =~= elems_syntax(before).push(ElemSyntax::Expr(expr_syntax(ge))));
            }
            match operator_at(t, n) {
                Some(op) => {
                    let ghost mid = acc@;
                    acc.push(Element::Op(op));
                    proof {
                        assert(elems_syntax(acc@) =~= elems_syntax(mid).push(ElemSyntax::Op(op)));
                    }
                    op_rest(t, start, n + 1, acc)
                },
                None => join(start, n, acc),
            }
        },
        other => other,
    }
}

/// The syntax of the result of a statement parse.
pub open spec fn statement_result(r: ParseResult<Statement>) -> ParseResult<StatementSyntax> {
    match r {
        ParseResult::Complete(n, s) => ParseResult::Complete(n, statement_syntax(s)),
        ParseResult::Incomplete(n) => ParseResult::Incomplete(n),
        ParseResult::Fail(e) => ParseResult::Fail(e),
        ParseResult::Abort(e) => ParseResult::Abort(e),
    }
}

fn terminated(t: &Vec<Token>, p: usize) -> (r: ParseResult<Expression>)
    requires
        p <= t@.len(),
    ensures
        expr_result(r) == spec_terminated(t@, p as int),
{
    match expression(t, p) {
        ParseResult::Complete(n, e) => {
            if n <= p || n > t.len() {
                unexpected_at(t, p)
            } else if punct_tok(t, n, ";") {
                ParseResult::Complete(n + 1, e)
            } else {
                unexpected_at(t, n)
            }
        },
        other => other,
    }
}

/// Parses the statement at `i`: the statement that `spec_statement`
/// describes, its failure at the token that may not stand where it does, or
/// an incomplete input where the tokens end before the statement does.
pub fn statement(t: &Vec<Token>, i: usize) -> (r: ParseResult<Statement>)
    requires
        i < t.len(),
    ensures
        statement_result(r) == spec_statement(t@, i as int),
{
    if word_tok(t, i, "import") {
        if !has_typ(t, i + 1, TokenType::QUOTED) {
            unexpected_at(t, i + 1)
        } else if !word_tok(t, i + 2, "as") {
            unexpected_at(t, i + 2)
        } else if !has_typ(t, i + 3, TokenType::BAREWORD) {
            unexpected_at(t, i + 3)
        } else if !punct_tok(t, i + 4, ";") {
            unexpected_at(t, i + 4)
        } else {
            ParseResult::Complete(i + 5, tuple_to_import((t[i + 3].copy(), t[i + 1].copy())).unwrap())
        }
    } else if word_tok(t, i, "let") {
        if !has_typ(t, i + 1, TokenType::BAREWORD) {
            unexpected_at(t, i + 1)
        } else if !punct_tok(t, i + 2, "=") {
            unexpected_at(t, i + 2)
        } else {
            match terminated(t, i + 3) {
                ParseResult::Complete(n, e) => ParseResult::Complete(
                    n,
                    tuple_to_let((t[i + 1].copy(), e)).unwrap(),
                ),
                other => pass(other),
            }
        }
    } else if word_tok(t, i, "assert") {
        if !has_typ(t, i + 1, TokenType::PIPEQUOTE) {
            unexpected_at(t, i + 1)
        } else if !punct_tok(t, i + 2, ";") {
            unexpected_at(t, i + 2)
        } else {
            ParseResult::Complete(i + 3, Statement::Assert(t[i + 1].copy()))
        }
    } else if word_tok(t, i, "out") {
        if !has_typ(t, i + 1, TokenType::BAREWORD) {
            unexpected_at(t, i + 1)
        } else {
            match terminated(t, i + 2) {
                ParseResult::Complete(n, e) => ParseResult::Complete(n, Statement::Output(t[i + 1].copy(), e)),
                other => pass(other),
            }
        }
    } else {
        match terminated(t, i) {
            ParseResult::Complete(n, e) => ParseResult::Complete(n, expression_to_statement(e).unwrap()),
            other => pass(other),
        }
    }
}

/// Parses the statements of a list of tokens.
///
/// The result is the list of statements that `statements_of` describes, or
/// the first error that it names: the error of the first statement that does
/// not parse, or the end of the input where no statement stands at all.
pub fn parse(toks: &Vec<Token>) -> (r: Result<Vec<Statement>, ParseError>)
    ensures
        match r {
            Ok(s) => statements_of(toks@) == Ok::<Seq<StatementSyntax>, ParseError>(statements_syntax(s@)),
            Err(e) => statements_of(toks@) == Err::<Seq<StatementSyntax>, ParseError>(e),
        },
{
    if toks.len() == 0 {
        return Err(ParseError::new(ParseErrorKind::ExpectedExpressionAtEnd, 0));
    }
    let mut out: Vec<Statement> = Vec::new();
    let mut i: usize = 0;
    assert(statements_syntax(out@) =~= Seq::<StatementSyntax>::empty());
    while i < toks.len()
        invariant
            i <= toks@.len(),
            statements_of(toks@) == spec_statements(toks@, i as int, statements_syntax(out@)),
        decreases toks@.len() - i,
    {
        match statement(toks, i) {
            ParseResult::Complete(n, s) => {
                if n <= i || n > toks.len() {
                    return Err(ParseError::new(ParseErrorKind::UnexpectedToken, i));
                }
                let ghost before = out@;
                let ghost gs = s;
                out.push(s);
                proof {
                    assert(statements_syntax(out@) =~= statements_syntax(before).push(statement_syntax(gs)));
                }
                i = n;
            },
            ParseResult::Fail(e) => {
                return Err(e);
            },
            ParseResult::Abort(e) => {
                return Err(e);
            },
            ParseResult::Incomplete(n) => {
                return Err(ParseError::new(ParseErrorKind::ExpectedExpressionAtEnd, n));
            },
        }
    }
    Ok(out)
}

/// Parses ucg source text: its tokens, then its statements.
///
/// An error of the tokenizer is the result; else the result is what `parse`
/// gives for tokens that the tokenizer describes as `tokens_of` does.
pub fn parse_text(input: &str) -> (r: Result<Vec<Statement>, ParseError>)
    requires
        input@.len() < usize::MAX,
    ensures
        match tokens_of(input@) {
            Err(e) => r == Err::<Vec<Statement>, ParseError>(e),
            Ok(ls) => exists|t: Seq<Token>| {
                &&& lexemes(t) == ls
                &&& match r {
                    Ok(s) => statements_of(t) == Ok::<Seq<StatementSyntax>, ParseError>(statements_syntax(s@)),
                    Err(e) => statements_of(t) == Err::<Seq<StatementSyntax>, ParseError>(e),
                }
            },
        },
{
    match tokenize(input) {
        Err(e) => Err(e),
        Ok(toks) => parse(&toks),
    }
}

/// A parenthesised expression at `i`.
pub open spec fn spec_grouped(t: Seq<Token>, i: int) -> ParseResult<ExprSyntax> {
    if !punct_at(t, i, "("@) {
        unexpected(t, i)
    } else {
        match spec_expression(t, i + 1) {
            ParseResult::Complete(n, e) => if !moved(i + 1, n, t) {
                unexpected(t, i + 1)
            } else if !punct_at(t, n as int, ")"@) {
                unexpected(t, n as int)
            } else {
                ParseResult::Complete((n + 1) as usize, ExprSyntax::Grouped(Box::new(e)))
            },
            other => other,
        }
    }
}

/// A selector value at `i`: a bare word or a parenthesised expression as its
/// head, then its tail; the selector sits at its first token.
pub open spec fn spec_selector_value(t: Seq<Token>, i: int) -> ParseResult<ValueSyntax> {
    let head = if i >= t.len() {
        ParseResult::Incomplete(i as usize)
    } else if t[i].typ == TokenType::BAREWORD {
        ParseResult::Complete(
            (i + 1) as usize,
            ExprSyntax::Simple(ValueSyntax::Plain(Value::Symbol(PositionedItem { pos: t[i].pos, val: t[i].fragment }))),
        )
    } else {
        spec_grouped(t, i)
    };
    match head {
        ParseResult::Complete(n, h) => match spec_selector_tail(t, n) {
            ParseResult::Complete(m, tail) => ParseResult::Complete(
                m,
                ValueSyntax::Selector(SelectorSyntax { head: Box::new(h), tail: tail }, t[i].pos),
            ),
            other => carry(other),
        },
        other => carry(other),
    }
}

/// The syntax of the result of a value parse.
pub open spec fn value_result(r: ParseResult<Value>) -> ParseResult<ValueSyntax> {
    match r {
        ParseResult::Complete(n, v) => ParseResult::Complete(n, value_syntax(v)),
        ParseResult::Incomplete(n) => ParseResult::Incomplete(n),
        ParseResult::Fail(e) => ParseResult::Fail(e),
        ParseResult::Abort(e) => ParseResult::Abort(e),
    }
}

fn grouped(t: &Vec<Token>, i: usize) -> (r: ParseResult<Expression>)
    requires
        i <= t@.len(),
    ensures
        expr_result(r) == spec_grouped(t@, i as int),
{
    if !punct_tok(t, i, "(") {
        return unexpected_at(t, i);
    }
    match expression(t, i + 1) {
        ParseResult::Complete(n, e) => {
            if n <= i + 1 || n > t.len() {
                unexpected_at(t, i + 1)
            } else if !punct_tok(t, n, ")") {
                unexpected_at(t, n)
            } else {
                ParseResult::Complete(n + 1, expression_to_grouped_expression(e).unwrap())
            }
        },
        other => other,
    }
}

/// Parses a selector value at `i`: the head that `symbol_or_expression`
/// reads, a bare word or a parenthesised expression, then the path that
/// `selector_list` reads after it.
pub fn selector_value(t: &Vec<Token>, i: usize) -> (r: ParseResult<Value>)
    requires
        i <= t@.len(),
    ensures
        value_result(r) == spec_selector_value(t@, i as int),
{
    proof {
        reveal_with_fuel(expr_syntax, 2);
        reveal_with_fuel(value_syntax, 2);
        reveal_with_fuel(selector_syntax, 2);
    }
    let word = has_typ(t, i, TokenType::BAREWORD);
    let head_parse: ParseResult<Expression> = if word { unexpected_at(t, i) } else { grouped(t, i) };
    let head = symbol_or_expression(t, i, head_parse);
    match selector_list(t, head) {
        ParseResult::Complete(m, sl) => {
            let pos = t[i].pos;
            ParseResult::Complete(m, vec_to_selector_value((pos, sl)).unwrap())
        },
        other => pass(other),
    }
}

} // verus!
