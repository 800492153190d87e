//! The syntax of a parsed program as a mathematical value: the syntax tree
//! with sequences in place of vectors. The grammar is stated over it.
use vstd::prelude::*;

use crate::ast::{
    BinaryExprType, Expression, ImportDef, Position, PositionedItem, SelectorList, Statement, Token, Value,
};
use super::precedence::{Element, Shape};

verus! {

broadcast use vstd::std_specs::vec::axiom_vec_decreases_to_view;

/// A selector path: its head, and the names or indexes after it.
pub struct SelectorSyntax {
    pub head: Box<ExprSyntax>,
    pub tail: Option<Seq<Token>>,
}

/// A value: those with no parts are kept as they are.
pub enum ValueSyntax {
    Plain(Value),
    Float(Seq<char>, Position),
    Tuple(Seq<(Token, ExprSyntax)>, Position),
    List(Seq<ExprSyntax>, Position),
    Selector(SelectorSyntax, Position),
}

/// An expression.
pub enum ExprSyntax {
    Simple(ValueSyntax),
    Binary(BinaryExprType, Box<ExprSyntax>, Box<ExprSyntax>, Position),
    Copy(SelectorSyntax, Position, Seq<(Token, ExprSyntax)>, Position),
    Grouped(Box<ExprSyntax>),
    Format(String, Seq<ExprSyntax>, Position),
    Call(SelectorSyntax, Position, Seq<ExprSyntax>, Position),
    Macro(Seq<PositionedItem<String>>, Seq<(Token, ExprSyntax)>, Position),
    Select(Box<ExprSyntax>, Box<ExprSyntax>, Seq<(Token, ExprSyntax)>, Position),
    /// A list operation or a module, which the grammar does not produce.
    Unparsed(Position),
}

/// A statement.
pub enum StatementSyntax {
    Expression(ExprSyntax),
    Let(Token, ExprSyntax),
    Import(ImportDef),
    Assert(Token),
    Output(Token, ExprSyntax),
}

/// An element of an operator expression.
pub enum ElemSyntax {
    Expr(ExprSyntax),
    Op(BinaryExprType),
}

/// The syntax of an expression.
pub open spec fn expr_syntax(e: Expression) -> ExprSyntax
    decreases e,
{
    match e {
        Expression::Simple(v) => ExprSyntax::Simple(value_syntax(v)),
        Expression::Binary(d) => ExprSyntax::Binary(
            d.kind,
            Box::new(expr_syntax(*d.left)),
            Box::new(expr_syntax(*d.right)),
            d.pos,
        ),
        Expression::Copy(d) => ExprSyntax::Copy(
            selector_syntax(d.selector.sel),
            d.selector.pos,
            fields_syntax(d.fields@),
            d.pos,
        ),
        Expression::Grouped(x) => ExprSyntax::Grouped(Box::new(expr_syntax(*x))),
        Expression::Format(d) => ExprSyntax::Format(d.template, exprs_syntax(d.args@), d.pos),
        Expression::Call(d) => ExprSyntax::Call(
            selector_syntax(d.macroref.sel),
            d.macroref.pos,
            exprs_syntax(d.arglist@),
            d.pos,
        ),
        Expression::Macro(d) => ExprSyntax::Macro(d.argdefs@, fields_syntax(d.fields@), d.pos),
        Expression::Select(d) => ExprSyntax::Select(
            Box::new(expr_syntax(*d.val)),
            Box::new(expr_syntax(*d.default)),
            fields_syntax(d.tuple@),
            d.pos,
        ),
        Expression::ListOp(d) => ExprSyntax::Unparsed(d.pos),
        Expression::Module(d) => ExprSyntax::Unparsed(d.pos),
    }
}

/// The syntax of a value.
pub open spec fn value_syntax(v: Value) -> ValueSyntax
    decreases v,
{
    match v {
        Value::Float(f) => ValueSyntax::Float(f.val@, f.pos),
        Value::Tuple(fs) => ValueSyntax::Tuple(fields_syntax(fs.val@), fs.pos),
        Value::List(d) => ValueSyntax::List(exprs_syntax(d.elems@), d.pos),
        Value::Selector(d) => ValueSyntax::Selector(selector_syntax(d.sel), d.pos),
        other => ValueSyntax::Plain(other),
    }
}

/// The syntax of a selector path.
pub open spec fn selector_syntax(sl: SelectorList) -> SelectorSyntax
    decreases sl,
{
    SelectorSyntax {
        head: Box::new(expr_syntax(*sl.head)),
        tail: match sl.tail {
            Some(v) => Some(v@),
            None => None,
        },
    }
}

/// The syntax of a list of expressions.
pub open spec fn exprs_syntax(es: Seq<Expression>) -> Seq<ExprSyntax>
    decreases es,
{
    if es.len() == 0 {
        Seq::empty()
    } else {
        proof {
            vstd::seq::axiom_seq_subrange_decreases(es, 0, es.len() - 1);
        }
        exprs_syntax(es.subrange(0, es.len() - 1)).push(expr_syntax(es[es.len() - 1]))
    }
}

/// The syntax of a list of fields.
pub open spec fn fields_syntax(fs: Seq<(Token, Expression)>) -> Seq<(Token, ExprSyntax)>
    decreases fs,
{
    if fs.len() == 0 {
        Seq::empty()
    } else {
        proof {
            vstd::seq::axiom_seq_subrange_decreases(fs, 0, fs.len() - 1);
        }
        fields_syntax(fs.subrange(0, fs.len() - 1)).push((fs[fs.len() - 1].0, expr_syntax(fs[fs.len() - 1].1)))
    }
}

/// The syntax of a statement.
pub open spec fn statement_syntax(s: Statement) -> StatementSyntax {
    match s {
        Statement::Expression(e) => StatementSyntax::Expression(expr_syntax(e)),
        Statement::Let(d) => StatementSyntax::Let(d.name, expr_syntax(d.value)),
        Statement::Import(d) => StatementSyntax::Import(d),
        Statement::Assert(t) => StatementSyntax::Assert(t),
        Statement::Output(t, e) => StatementSyntax::Output(t, expr_syntax(e)),
    }
}

/// The syntax of a list of statements.
pub open spec fn statements_syntax(ss: Seq<Statement>) -> Seq<StatementSyntax> {
    ss.map_values(|s: Statement| statement_syntax(s))
}

/// The syntax of an element of an operator expression.
pub open spec fn elem_syntax(el: Element) -> ElemSyntax {
    match el {
        Element::Expr(e) => ElemSyntax::Expr(expr_syntax(e)),
        Element::Op(t) => ElemSyntax::Op(t),
    }
}

/// The syntax of a list of elements.
pub open spec fn elems_syntax(s: Seq<Element>) -> Seq<ElemSyntax> {
    s.map_values(|el: Element| elem_syntax(el))
}

/// The position of a value's syntax.
pub open spec fn value_syntax_position(v: ValueSyntax) -> Position {
    match v {
        ValueSyntax::Plain(x) => x.position(),
        ValueSyntax::Float(_, pos) => pos,
        ValueSyntax::Tuple(_, pos) => pos,
        ValueSyntax::List(_, pos) => pos,
        ValueSyntax::Selector(_, pos) => pos,
    }
}

/// The position of an expression's syntax.
pub open spec fn syntax_position(e: ExprSyntax) -> Position
    decreases e,
{
    match e {
        ExprSyntax::Simple(v) => value_syntax_position(v),
        ExprSyntax::Binary(_, _, _, pos) => pos,
        ExprSyntax::Copy(_, _, _, pos) => pos,
        ExprSyntax::Grouped(x) => syntax_position(*x),
        ExprSyntax::Format(_, _, pos) => pos,
        ExprSyntax::Call(_, _, _, pos) => pos,
        ExprSyntax::Macro(_, _, pos) => pos,
        ExprSyntax::Select(_, _, _, pos) => pos,
        ExprSyntax::Unparsed(pos) => pos,
    }
}

/// The operator expression that a shape describes over a list of elements:
/// a node takes the position of its left operand.
pub open spec fn shape_syntax(p: Shape, ms: Seq<ElemSyntax>) -> ExprSyntax
    decreases p,
{
    match p {
        Shape::Leaf(k) => match ms[k as int] {
            ElemSyntax::Expr(e) => e,
            ElemSyntax::Op(_) => ExprSyntax::Unparsed(Position { line: 0, column: 0, offset: 0 }),
        },
        Shape::Node(t, l, r) => {
            let le = shape_syntax(*l, ms);
            ExprSyntax::Binary(t, Box::new(le), Box::new(shape_syntax(*r, ms)), syntax_position(le))
        },
    }
}

/// The elements that the precedence parser reads for a list of element
/// syntaxes: each operand stands for an empty value, each operator for itself.
pub open spec fn skeleton(ms: Seq<ElemSyntax>) -> Seq<Element> {
    ms.map_values(
        |m: ElemSyntax|
            match m {
                ElemSyntax::Expr(_) => Element::Expr(Expression::Simple(Value::Empty(Position { line: 0, column: 0, offset: 0 }))),
                ElemSyntax::Op(t) => Element::Op(t),
            },
    )
}

/// The syntax of an expression sits where the expression does.
pub proof fn lemma_syntax_position(e: Expression)
    ensures
        syntax_position(expr_syntax(e)) == e.position(),
    decreases e,
{
    match e {
        Expression::Grouped(x) => {
            lemma_syntax_position(*x);
        },
        Expression::Simple(v) => {
            assert(value_syntax_position(value_syntax(v)) == v.position());
        },
        _ => {},
    }
}

} // verus!
