use ucg::ast::{
    CallDef, CopyDef, Expression, FormatDef, ImportDef, LetDef, ListDef, MacroDef, Position, PositionedItem,
    SelectDef, SelectorDef, SelectorList, Statement, Token, TokenType, Value,
};
use ucg::error::ErrorType;
use ucg::parse::nodes::{
    expression_to_grouped_expression, expression_to_statement, str_to_value, symbol_to_value, tuple_to_call,
    tuple_to_copy, tuple_to_format, tuple_to_import, tuple_to_let, tuple_to_list, tuple_to_macro, tuple_to_select,
    value_to_expression, vec_to_selector_value, vec_to_tuple,
};
use ucg::parse::numbers::{float_parts_ok, int_from_text, triple_to_number, IntTextError};
use ucg::parse::selector::{selector_list, selector_tail, symbol_or_expression};
use ucg::parse::{ParseError, ParseErrorKind, ParseResult};

fn pos(line: usize, column: usize) -> Position {
    Position::new(line, column, 0)
}

fn tok(s: &str, typ: TokenType, column: usize) -> Token {
    Token::new(s, typ, pos(1, column))
}

fn sym(name: &str, column: usize) -> Expression {
    Expression::Simple(Value::Symbol(PositionedItem::new(name.to_string(), pos(1, column))))
}

#[test]
fn integers() {
    let one = tok("1", TokenType::DIGIT, 1);
    assert_eq!(triple_to_number((Some(one), None, None)).unwrap(), Value::Int(PositionedItem::new(1, pos(1, 1))));
    let big = tok("9223372036854775807", TokenType::DIGIT, 3);
    assert_eq!(
        triple_to_number((Some(big), None, None)).unwrap(),
        Value::Int(PositionedItem::new(i64::MAX, pos(1, 3)))
    );
    let too_big = tok("9223372036854775808", TokenType::DIGIT, 3);
    let err = triple_to_number((Some(too_big), None, None)).unwrap_err();
    assert_eq!(err.err_type, ErrorType::ParseError);
    assert_eq!(err.pos, pos(1, 3));
    assert_eq!(err.msg, "number too large to fit in target type");
}

#[test]
fn floats() {
    let one = || tok("1", TokenType::DIGIT, 1);
    let dot = || tok(".", TokenType::PUNCT, 2);
    let zero = || tok("0", TokenType::DIGIT, 3);
    // 1.0
    let v = triple_to_number((Some(one()), Some(dot()), Some(zero()))).unwrap();
    assert_eq!(v, Value::Float(PositionedItem::new("1.0".to_string(), pos(1, 1))));
    // 1.
    let v = triple_to_number((Some(one()), Some(dot()), None)).unwrap();
    assert_eq!(v, Value::Float(PositionedItem::new("1.".to_string(), pos(1, 1))));
    // .0 sits at the dot.
    let v = triple_to_number((None, Some(dot()), Some(zero()))).unwrap();
    assert_eq!(v, Value::Float(PositionedItem::new(".0".to_string(), pos(1, 2))));
    // A lone dot is no number.
    let err = triple_to_number((None, Some(dot()), None)).unwrap_err();
    assert_eq!(err.err_type, ErrorType::ParseError);
    assert_eq!(err.pos, pos(1, 2));
    assert_eq!(err.msg, "invalid float literal");
}

#[test]
fn integer_texts() {
    assert_eq!(int_from_text("42"), Ok(42));
    assert_eq!(int_from_text("-42"), Ok(-42));
    assert_eq!(int_from_text("+7"), Ok(7));
    assert_eq!(int_from_text("-9223372036854775808"), Ok(i64::MIN));
    assert_eq!(int_from_text(""), Err(IntTextError::Empty));
    assert_eq!(int_from_text("-"), Err(IntTextError::InvalidDigit));
    assert_eq!(int_from_text("1x"), Err(IntTextError::InvalidDigit));
    assert_eq!(int_from_text("-9223372036854775809"), Err(IntTextError::NegOverflow));
    assert_eq!(int_from_text("99999999999999999999x"), Err(IntTextError::PosOverflow));
    // The results agree with the standard library's.
    for s in ["0", "123", "-5", "+", "", "12a", "9223372036854775808", "-9223372036854775808"] {
        assert_eq!(int_from_text(s).is_ok(), s.parse::<i64>().is_ok(), "{}", s);
        if let Ok(v) = int_from_text(s) {
            assert_eq!(v, s.parse::<i64>().unwrap());
        }
    }
}

#[test]
fn float_texts() {
    let cases = [
        ("1", "0"), ("1", ""), ("", "5"), ("", ""), ("-1", "5"), ("+", "5"), ("1", "5e3"), ("1", "5E-3"),
        ("1", "e3"), ("", "e3"), ("1", "5e"), ("1", "5x"), ("1a", "0"), ("inf", ""),
    ];
    for (p, s) in cases {
        let text = format!("{}.{}", p, s);
        assert_eq!(float_parts_ok(p, s), text.parse::<f64>().is_ok(), "{}", text);
    }
}

#[test]
fn simple_nodes() {
    let t = tok("foo", TokenType::BAREWORD, 4);
    assert_eq!(symbol_to_value(t.clone()).unwrap(), Value::Symbol(PositionedItem::new("foo".to_string(), pos(1, 4))));
    assert_eq!(str_to_value(t.clone()).unwrap(), Value::Str(PositionedItem::new("foo".to_string(), pos(1, 4))));
    assert_eq!(vec_to_tuple((pos(2, 2), Vec::new())).unwrap(), Value::Tuple(PositionedItem::new(Vec::new(), pos(2, 2))));
    assert_eq!(tuple_to_list((pos(2, 2), Vec::new())).unwrap(), Value::List(ListDef { elems: Vec::new(), pos: pos(2, 2) }));
    let v = Value::Empty(pos(1, 1));
    assert_eq!(value_to_expression(Value::Empty(pos(1, 1))).unwrap(), Expression::Simple(v));
    assert_eq!(expression_to_grouped_expression(sym("a", 1)).unwrap(), Expression::Grouped(Box::new(sym("a", 1))));
    assert_eq!(expression_to_statement(sym("a", 1)).unwrap(), Statement::Expression(sym("a", 1)));
    assert_eq!(
        tuple_to_let((t.clone(), sym("a", 1))).unwrap(),
        Statement::Let(LetDef { name: t.clone(), value: sym("a", 1) })
    );
    let path = tok("lib.ucg", TokenType::QUOTED, 8);
    assert_eq!(
        tuple_to_import((t.clone(), path.clone())).unwrap(),
        Statement::Import(ImportDef { name: t.clone(), path: path })
    );
    let tmpl = tok("@ is @", TokenType::QUOTED, 1);
    assert_eq!(
        tuple_to_format((tmpl, vec![sym("a", 1)])).unwrap(),
        Expression::Format(FormatDef { template: "@ is @".to_string(), args: vec![sym("a", 1)], pos: pos(1, 1) })
    );
}

fn selector_def(name: &str) -> SelectorDef {
    SelectorDef::new(SelectorList { head: Box::new(sym(name, 1)), tail: None }, pos(1, 1))
}

#[test]
fn selector_values_and_copies() {
    let sl = SelectorList { head: Box::new(sym("foo", 1)), tail: None };
    assert_eq!(vec_to_selector_value((pos(3, 3), sl)).unwrap(), Value::Selector(SelectorDef {
        pos: pos(3, 3),
        sel: SelectorList { head: Box::new(sym("foo", 1)), tail: None },
    }));
    assert_eq!(
        tuple_to_copy((pos(4, 4), selector_def("foo"), Vec::new())).unwrap(),
        Expression::Copy(CopyDef { selector: selector_def("foo"), fields: Vec::new(), pos: pos(4, 4) })
    );
}

#[test]
fn macros_need_a_tuple() {
    let args = vec![
        Value::Symbol(PositionedItem::new("a".to_string(), pos(1, 8))),
        Value::Symbol(PositionedItem::new("b".to_string(), pos(1, 11))),
    ];
    let body = Value::Tuple(PositionedItem::new(Vec::new(), pos(1, 17)));
    match tuple_to_macro((pos(1, 1), args, body)).unwrap() {
        Expression::Macro(MacroDef { argdefs, fields, pos: p }) => {
            assert_eq!(argdefs.len(), 2);
            assert_eq!(argdefs[0].val, "a");
            assert_eq!(argdefs[0].pos, pos(1, 8));
            assert_eq!(argdefs[1].val, "b");
            assert_eq!(argdefs[1].pos, pos(1, 11));
            assert!(fields.is_empty());
            assert_eq!(p, pos(1, 1));
        }
        other => panic!("unexpected {:?}", other),
    }
    let err = tuple_to_macro((pos(1, 1), Vec::new(), Value::Int(PositionedItem::new(1, pos(1, 5))))).unwrap_err();
    assert_eq!(err.err_type, ErrorType::UnexpectedToken);
    assert_eq!(err.pos, pos(1, 1));
    assert_eq!(err.msg, "Expected Tuple Got Integer");
}

#[test]
fn selects_need_a_tuple() {
    let body = Value::Tuple(PositionedItem::new(Vec::new(), pos(1, 17)));
    assert_eq!(
        tuple_to_select((pos(1, 1), sym("a", 8), sym("b", 11), body)).unwrap(),
        Expression::Select(SelectDef {
            val: Box::new(sym("a", 8)),
            default: Box::new(sym("b", 11)),
            tuple: Vec::new(),
            pos: pos(1, 1),
        })
    );
    let err = tuple_to_select((pos(2, 1), sym("a", 8), sym("b", 11), Value::Empty(pos(1, 1)))).unwrap_err();
    assert_eq!(err.pos, pos(2, 1));
    assert_eq!(err.msg, "Expected Tuple Got EmptyValue");
}

#[test]
fn calls_need_a_selector() {
    let mac = Value::Selector(selector_def("m"));
    assert_eq!(
        tuple_to_call((pos(1, 1), mac, vec![sym("a", 3)])).unwrap(),
        Expression::Call(CallDef { macroref: selector_def("m"), arglist: vec![sym("a", 3)], pos: pos(1, 1) })
    );
    let err = tuple_to_call((pos(1, 1), Value::Str(PositionedItem::new("m".to_string(), pos(1, 1))), Vec::new())).unwrap_err();
    assert_eq!(err.err_type, ErrorType::UnexpectedToken);
    assert_eq!(err.msg, "Expected Selector Got String");
}

fn dot(column: usize) -> Token {
    tok(".", TokenType::PUNCT, column)
}

#[test]
fn selector_paths() {
    // foo.bar.0 ;
    let toks = vec![
        tok("foo", TokenType::BAREWORD, 1), dot(4), tok("bar", TokenType::BAREWORD, 5), dot(8),
        tok("0", TokenType::DIGIT, 9), tok(";", TokenType::PUNCT, 10),
    ];
    let head = symbol_or_expression(&toks, 0, ParseResult::Incomplete(0));
    assert_eq!(head, ParseResult::Complete(1, sym("foo", 1)));
    match selector_list(&toks, head) {
        ParseResult::Complete(n, sl) => {
            assert_eq!(n, 5);
            assert_eq!(*sl.head, sym("foo", 1));
            let tail = sl.tail.unwrap();
            assert_eq!(tail.len(), 2);
            assert_eq!(tail[0].fragment, "bar");
            assert_eq!(tail[1].fragment, "0");
        }
        other => panic!("unexpected {:?}", other),
    }
    // A head with no dot after it.
    let head = ParseResult::Complete(5, sym("x", 9));
    assert_eq!(
        selector_list(&toks, head),
        ParseResult::Complete(5, SelectorList { head: Box::new(sym("x", 9)), tail: None })
    );
}

#[test]
fn selector_path_edges() {
    // foo.
    let toks = vec![tok("foo", TokenType::BAREWORD, 1), dot(4)];
    assert_eq!(selector_tail(&toks, 1), ParseResult::Incomplete(2));
    // foo, at the end of the input: a path with no tail.
    assert_eq!(selector_tail(&toks, 2), ParseResult::Complete(2, None));
    // foo.bar, at the end of the input: a complete path.
    let toks = vec![tok("foo", TokenType::BAREWORD, 1), dot(4), tok("bar", TokenType::BAREWORD, 5)];
    match selector_tail(&toks, 1) {
        ParseResult::Complete(n, Some(steps)) => {
            assert_eq!(n, 3);
            assert_eq!(steps.len(), 1);
            assert_eq!(steps[0].fragment, "bar");
        }
        other => panic!("unexpected {:?}", other),
    }
    // foo.;
    let toks = vec![tok("foo", TokenType::BAREWORD, 1), dot(4), tok(";", TokenType::PUNCT, 5)];
    assert_eq!(
        selector_tail(&toks, 1),
        ParseResult::Fail(ParseError::new(ParseErrorKind::ExpectedSelectorName, 2))
    );
    // foo.bar.;  stops before the last dot.
    let toks = vec![
        tok("foo", TokenType::BAREWORD, 1), dot(4), tok("bar", TokenType::BAREWORD, 5), dot(8),
        tok(";", TokenType::PUNCT, 9),
    ];
    match selector_tail(&toks, 1) {
        ParseResult::Complete(n, Some(steps)) => {
            assert_eq!(n, 3);
            assert_eq!(steps.len(), 1);
        }
        other => panic!("unexpected {:?}", other),
    }
    // A head that is not a bare word is the grouped expression.
    let toks = vec![tok("(", TokenType::PUNCT, 1)];
    let grouped = ParseResult::Fail(ParseError::new(ParseErrorKind::ExpectedExpression, 0));
    let head = symbol_or_expression(&toks, 0, grouped);
    assert!(head.is_fail());
    assert!(selector_list(&toks, head).is_fail());
}

#[test]
fn integer_text_reads_back() {
    for i in [0i64, 7, -7, 10, 1234567, -1000, i64::MAX, i64::MIN] {
        let text = ucg::text::i64_to_text(i);
        assert_eq!(int_from_text(&text), Ok(i));
        let shown = Value::Int(PositionedItem::new(i, pos(1, 1))).to_string();
        assert_eq!(int_from_text(&shown), Ok(i));
    }
}
