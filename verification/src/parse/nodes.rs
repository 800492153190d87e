//! The nodes of the syntax tree that the parser builds from what its rules
//! matched.
use vstd::prelude::*;

use crate::ast::{
    CallDef, CopyDef, Expression, FieldList, FormatDef, ImportDef, LetDef, ListDef, MacroDef, Position,
    PositionedItem, SelectDef, SelectorDef, SelectorList, Statement, Token, Value, value_text, value_typ_name,
};
use crate::error::{BuildError, ErrorType, concat3};

verus! {

/// A bare word is a symbol at the word's position.
pub fn symbol_to_value(s: Token) -> (r: Result<Value, BuildError>)
    ensures
        r == Ok::<Value, BuildError>(Value::Symbol(PositionedItem { pos: s.pos, val: s.fragment })),
{
    Ok(Value::Symbol(PositionedItem { pos: s.pos, val: s.fragment }))
}

/// A quoted string is a string value at the string's position.
pub fn str_to_value(s: Token) -> (r: Result<Value, BuildError>)
    ensures
        r == Ok::<Value, BuildError>(Value::Str(PositionedItem { pos: s.pos, val: s.fragment })),
{
    Ok(Value::Str(PositionedItem { pos: s.pos, val: s.fragment }))
}

/// The fields between braces are a tuple at the opening brace.
pub fn vec_to_tuple(t: (Position, FieldList)) -> (r: Result<Value, BuildError>)
    ensures
        r == Ok::<Value, BuildError>(Value::Tuple(PositionedItem { pos: t.0, val: t.1 })),
{
    Ok(Value::Tuple(PositionedItem { pos: t.0, val: t.1 }))
}

/// The elements between brackets are a list at the opening bracket.
pub fn tuple_to_list(t: (Position, Vec<Expression>)) -> (r: Result<Value, BuildError>)
    ensures
        r == Ok::<Value, BuildError>(Value::List(ListDef { elems: t.1, pos: t.0 })),
{
    Ok(Value::List(ListDef { elems: t.1, pos: t.0 }))
}

/// A value on its own is a simple expression.
pub fn value_to_expression(v: Value) -> (r: Result<Expression, BuildError>)
    ensures
        r == Ok::<Expression, BuildError>(Expression::Simple(v)),
{
    Ok(Expression::Simple(v))
}

/// An expression in parentheses is a grouped expression.
pub fn expression_to_grouped_expression(e: Expression) -> (r: Result<Expression, BuildError>)
    ensures
        r == Ok::<Expression, BuildError>(Expression::Grouped(Box::new(e))),
{
    Ok(Expression::Grouped(Box::new(e)))
}

/// A selector followed by fields is a copy expression.
pub fn tuple_to_copy(t: (Position, SelectorDef, FieldList)) -> (r: Result<Expression, BuildError>)
    ensures
        r == Ok::<Expression, BuildError>(Expression::Copy(CopyDef { selector: t.1, fields: t.2, pos: t.0 })),
{
    Ok(Expression::Copy(CopyDef { selector: t.1, fields: t.2, pos: t.0 }))
}

/// An error for a value of an unexpected type where a parser rule expected
/// another: it names the type it got.
fn expected_got(what: &str, got: &Value, pos: Position) -> (e: BuildError)
    ensures
        e.err_type == ErrorType::UnexpectedToken,
        e.pos == pos,
        e.msg@ == "Expected "@ + what@ + " Got "@ + value_typ_name(*got),
{
    let name = got.typ_name();
    let mut msg = concat3("Expected ", what, " Got ");
    msg.append(name.as_str());
    BuildError::new(msg, ErrorType::UnexpectedToken, pos)
}

/// A macro: its argument names, then a tuple of fields.
///
/// Each argument becomes a name at the argument's position; a body that is not
/// a tuple is an error at the macro's position.
pub fn tuple_to_macro(t: (Position, Vec<Value>, Value)) -> (r: Result<Expression, BuildError>)
    ensures
        match t.2 {
            Value::Tuple(v) => r matches Ok(Expression::Macro(def)) && {
                &&& def.fields == v.val
                &&& def.pos == t.0
                &&& def.argdefs@.len() == t.1@.len()
                &&& forall|k: int| 0 <= k < t.1@.len() ==> {
                    &&& (#[trigger] def.argdefs@[k]).pos == t.1@[k].position()
                    &&& def.argdefs@[k].val@ == value_text(t.1@[k])
                }
            },
            other => r matches Err(e) && e.err_type == ErrorType::UnexpectedToken && e.pos == t.0
                && e.msg@ == "Expected Tuple Got "@ + value_typ_name(other),
        },
{
    let (pos, args, body) = t;
    match body {
        Value::Tuple(v) => {
            let mut argdefs: Vec<PositionedItem<String>> = Vec::new();
            let mut i: usize = 0;
            while i < args.len()
                invariant
                    i <= args@.len(),
                    argdefs@.len() == i,
                    forall|k: int| 0 <= k < i ==> {
                        &&& (#[trigger] argdefs@[k]).pos == args@[k].position()
                        &&& argdefs@[k].val@ == value_text(args@[k])
                    },
                decreases args@.len() - i,
            {
                let a = &args[i];
                argdefs.push(PositionedItem { pos: *a.pos(), val: a.to_string() });
                i = i + 1;
            }
            Ok(Expression::Macro(MacroDef { argdefs: argdefs, fields: v.val, pos: pos }))
        },
        other => {
            proof {
                reveal_strlit("Expected ");
                reveal_strlit("Tuple");
                reveal_strlit(" Got ");
                reveal_strlit("Expected Tuple Got ");
            }
            Err(expected_got("Tuple", &other, pos))
        },
    }
}

/// A select: the value to select on, the default, then a tuple of branches; a
/// last part that is not a tuple is an error at the select's position.
pub fn tuple_to_select(t: (Position, Expression, Expression, Value)) -> (r: Result<Expression, BuildError>)
    ensures
        match t.3 {
            Value::Tuple(v) => r == Ok::<Expression, BuildError>(Expression::Select(SelectDef {
                val: Box::new(t.1),
                default: Box::new(t.2),
                tuple: v.val,
                pos: t.0,
            })),
            other => r matches Err(e) && e.err_type == ErrorType::UnexpectedToken && e.pos == t.0
                && e.msg@ == "Expected Tuple Got "@ + value_typ_name(other),
        },
{
    let (pos, val, default, body) = t;
    match body {
        Value::Tuple(v) => Ok(Expression::Select(SelectDef {
            val: Box::new(val),
            default: Box::new(default),
            tuple: v.val,
            pos: pos,
        })),
        other => {
            proof {
                reveal_strlit("Expected ");
                reveal_strlit("Tuple");
                reveal_strlit(" Got ");
                reveal_strlit("Expected Tuple Got ");
            }
            Err(expected_got("Tuple", &other, pos))
        },
    }
}

/// A format: a template string and its arguments, at the template's position.
pub fn tuple_to_format(t: (Token, Vec<Expression>)) -> (r: Result<Expression, BuildError>)
    ensures
        r == Ok::<Expression, BuildError>(Expression::Format(FormatDef {
            template: t.0.fragment,
            args: t.1,
            pos: t.0.pos,
        })),
{
    let (tok, args) = t;
    Ok(Expression::Format(FormatDef { template: tok.fragment, args: args, pos: tok.pos }))
}

/// A macro call: a selector for the macro and the arguments; a macro reference
/// that is not a selector is an error at the call's position.
pub fn tuple_to_call(t: (Position, Value, Vec<Expression>)) -> (r: Result<Expression, BuildError>)
    ensures
        match t.1 {
            Value::Selector(def) => r == Ok::<Expression, BuildError>(Expression::Call(CallDef {
                macroref: def,
                arglist: t.2,
                pos: t.0,
            })),
            other => r matches Err(e) && e.err_type == ErrorType::UnexpectedToken && e.pos == t.0
                && e.msg@ == "Expected Selector Got "@ + value_typ_name(other),
        },
{
    let (pos, mac, args) = t;
    match mac {
        Value::Selector(def) => Ok(Expression::Call(CallDef { macroref: def, arglist: args, pos: pos })),
        other => {
            proof {
                reveal_strlit("Expected ");
                reveal_strlit("Selector");
                reveal_strlit(" Got ");
                reveal_strlit("Expected Selector Got ");
            }
            Err(expected_got("Selector", &other, pos))
        },
    }
}

/// A selector path is a selector value at the path's start.
pub fn vec_to_selector_value(t: (Position, SelectorList)) -> (r: Result<Value, BuildError>)
    ensures
        r == Ok::<Value, BuildError>(Value::Selector(SelectorDef { pos: t.0, sel: t.1 })),
{
    let (pos, sl) = t;
    Ok(Value::Selector(SelectorDef::new(sl, pos)))
}

/// An expression followed by a semicolon is an expression statement.
pub fn expression_to_statement(v: Expression) -> (r: Result<Statement, BuildError>)
    ensures
        r == Ok::<Statement, BuildError>(Statement::Expression(v)),
{
    Ok(Statement::Expression(v))
}

/// A let statement binds a name to an expression.
pub fn tuple_to_let(t: (Token, Expression)) -> (r: Result<Statement, BuildError>)
    ensures
        r == Ok::<Statement, BuildError>(Statement::Let(LetDef { name: t.0, value: t.1 })),
{
    let (name, value) = t;
    Ok(Statement::Let(LetDef { name: name, value: value }))
}

/// An import statement binds a name to the file at a path.
pub fn tuple_to_import(t: (Token, Token)) -> (r: Result<Statement, BuildError>)
    ensures
        r == Ok::<Statement, BuildError>(Statement::Import(ImportDef { name: t.0, path: t.1 })),
{
    let (name, path) = t;
    Ok(Statement::Import(ImportDef { name: name, path: path }))
}

} // verus!
