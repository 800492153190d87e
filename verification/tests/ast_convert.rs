use std::rc::Rc;

use ucg::ast::{
    Expression, ListDef, ModuleDef, Position, PositionedItem, SelectorDef, SelectorList, Token, TokenType, Value,
};
use ucg::build::Val;
use ucg::convert::toml::{ConvertError, TomlConverter, TomlValue};
use ucg::error::{concat3, concat5};
use ucg::text::{i64_to_text, usize_to_text};

fn pos(line: usize, column: usize) -> Position {
    Position::new(line, column, 0)
}

#[test]
fn positions_and_tokens() {
    let p = Position::new(3, 4, 17);
    assert_eq!((p.line, p.column, p.offset), (3, 4, 17));
    let t = Token::new("foo", TokenType::BAREWORD, p);
    assert_eq!(t.fragment, "foo");
    assert_eq!(t.typ, TokenType::BAREWORD);
    assert_eq!(t.pos, p);
    assert_eq!(Token::new_with_pos("foo", TokenType::BAREWORD, p), t);
}

#[test]
fn positioned_items_compare_by_value() {
    let a = PositionedItem::new("x".to_string(), pos(1, 1));
    let b = PositionedItem::new_with_pos("x".to_string(), pos(9, 9));
    assert_eq!(a.pos, pos(1, 1));
    assert_eq!(b.pos, pos(9, 9));
    assert!(a == b);
    assert!(a != PositionedItem::new("y".to_string(), pos(1, 1)));
    let t = Token::new("z", TokenType::BAREWORD, pos(2, 2));
    let from = PositionedItem::from_token(&t);
    assert_eq!(from.val, "z");
    assert_eq!(from.pos, pos(2, 2));
}

#[test]
fn value_texts() {
    assert_eq!(Value::Int(PositionedItem::new(-12, pos(1, 1))).to_string(), "-12");
    assert_eq!(Value::Boolean(PositionedItem::new(true, pos(1, 1))).to_string(), "true");
    assert_eq!(Value::Empty(pos(1, 1)).to_string(), "EmptyValue");
    assert_eq!(Value::Str(PositionedItem::new("s".to_string(), pos(1, 1))).to_string(), "s");
    let fields = vec![
        (Token::new("a", TokenType::BAREWORD, pos(1, 2)), Expression::Simple(Value::Empty(pos(1, 4)))),
        (Token::new("b", TokenType::BAREWORD, pos(1, 6)), Expression::Simple(Value::Empty(pos(1, 8)))),
    ];
    assert_eq!(Value::Tuple(PositionedItem::new(fields, pos(1, 1))).to_string(), "{\n\ta\n\tb\n}");
    let list = ListDef { elems: vec![Expression::Simple(Value::Empty(pos(1, 1)))], pos: pos(1, 1) };
    assert_eq!(Value::List(list).to_string(), "[1]");
}

#[test]
fn value_types_and_positions() {
    let v = Value::Float(PositionedItem::new("2.5".to_string(), pos(4, 4)));
    assert_eq!(v.typ_name(), "Float");
    assert_eq!(*v.pos(), pos(4, 4));
    assert!(v.type_equal(&Value::Float(PositionedItem::new("1.0".to_string(), pos(1, 1)))));
    assert!(!v.type_equal(&Value::Empty(pos(1, 1))));
    let e = Expression::Grouped(Box::new(Expression::Simple(v)));
    assert_eq!(*e.pos(), pos(4, 4));
}

#[test]
fn expression_and_selector_texts() {
    let head = Expression::Simple(Value::Symbol(PositionedItem::new("foo".to_string(), pos(1, 1))));
    let sl = SelectorList {
        head: Box::new(head),
        tail: Some(vec![Token::new("bar", TokenType::BAREWORD, pos(1, 5)), Token::new("0", TokenType::DIGIT, pos(1, 9))]),
    };
    assert_eq!(sl.display_text(), "foo.bar.0");
    assert_eq!(sl.to_string(), "foo.bar.0");
    let def = SelectorDef::new(sl, pos(1, 1));
    assert_eq!(def.pos, pos(1, 1));
    assert_eq!(Value::Selector(def).to_string(), "foo.bar.0");
    let g = Expression::Grouped(Box::new(Expression::Simple(Value::Empty(pos(1, 1)))));
    assert_eq!(g.display_text(), "(<Expr>)");
}

#[test]
fn module_definitions_start_without_arguments() {
    let m = ModuleDef::new(Vec::new(), Vec::new(), pos(2, 2));
    assert!(m.arg_tuple.is_none());
    assert_eq!(m.pos, pos(2, 2));
    assert!(m.statements.is_empty());
}

#[test]
fn numbers_as_text() {
    assert_eq!(usize_to_text(0), "0");
    assert_eq!(usize_to_text(1207), "1207");
    assert_eq!(i64_to_text(i64::MIN), i64::MIN.to_string());
    assert_eq!(i64_to_text(-5), "-5");
    assert_eq!(concat3("a", "b", "c"), "abc");
    assert_eq!(concat5("a", "b", "c", "d", "e"), "abcde");
}

fn field(name: &str, v: Val) -> (PositionedItem<String>, Rc<Val>) {
    (PositionedItem::new(name.to_string(), pos(1, 1)), Rc::new(v))
}

#[test]
fn toml_conversion() {
    let c = TomlConverter::new();
    assert_eq!(c.file_ext(), "toml");
    assert_eq!(c.description(), "Convert ucg Vals into valid ucg.");
    let v = Val::Tuple(vec![
        field("name", Val::Str("x".to_string())),
        field("n", Val::Int(3)),
        field("name", Val::Str("shadowed".to_string())),
        field("l", Val::List(vec![Rc::new(Val::Boolean(true)), Rc::new(Val::Float("1.5".to_string()))])),
    ]);
    let t = c.convert_value(&v).unwrap();
    assert_eq!(
        t,
        TomlValue::Table(vec![
            ("name".to_string(), TomlValue::String("x".to_string())),
            ("n".to_string(), TomlValue::Integer(3)),
            (
                "l".to_string(),
                TomlValue::Array(vec![TomlValue::Boolean(true), TomlValue::Float("1.5".to_string())])
            ),
        ])
    );
}

#[test]
fn toml_conversion_errors() {
    let c = TomlConverter::new();
    assert_eq!(c.convert_value(&Val::Empty), Err(ConvertError::Null));
    assert_eq!(c.convert_value(&Val::Env(Vec::new())), Err(ConvertError::Env));
    let nested = Val::List(vec![
        Rc::new(Val::Int(1)),
        Rc::new(Val::Tuple(vec![field("m", Val::Module(ModuleDef::new(Vec::new(), Vec::new(), pos(1, 1))))])),
        Rc::new(Val::Empty),
    ]);
    // The first thing that cannot be converted decides the error.
    assert_eq!(c.convert_value(&nested), Err(ConvertError::Module));
    assert_eq!(ConvertError::Null.message(), "Nulls are not allowed in Toml Conversions!");
    assert_eq!(ConvertError::Macro.message(), "Macros are not allowed in Toml Conversions!");
}
