use ucg::ast::{
    BinaryExprType, BinaryOpDef, CallDef, CopyDef, Expression, FormatDef, ImportDef, LetDef, ListDef, MacroDef,
    Position, PositionedItem, SelectDef, SelectorDef, SelectorList, Statement, Token, TokenType, Value,
};
use ucg::parse::grammar::{expression, parse, parse_text, selector_value, statement};
use ucg::parse::lexer::tokenize;
use ucg::parse::{ParseError, ParseErrorKind, ParseResult};

fn at(column: usize, offset: usize) -> Position {
    Position::new(1, column, offset)
}

fn tok(f: &str, typ: TokenType, column: usize, offset: usize) -> Token {
    Token::new(f, typ, at(column, offset))
}

fn word(f: &str, column: usize, offset: usize) -> Token {
    tok(f, TokenType::BAREWORD, column, offset)
}

fn stmts(s: &str) -> Vec<Statement> {
    parse_text(s).unwrap()
}

fn expr_of(s: &str) -> Expression {
    let mut v = stmts(s);
    assert_eq!(v.len(), 1);
    match v.remove(0) {
        Statement::Expression(e) => e,
        other => panic!("not an expression statement: {:?}", other),
    }
}

fn sym(name: &str, column: usize, offset: usize) -> Expression {
    Expression::Simple(Value::Symbol(PositionedItem::new(name.to_string(), at(column, offset))))
}

fn selector(head: Expression, tail: Option<Vec<Token>>, column: usize, offset: usize) -> SelectorDef {
    SelectorDef::new(SelectorList { head: Box::new(head), tail: tail }, at(column, offset))
}

fn sel_value(head: Expression, tail: Option<Vec<Token>>, column: usize, offset: usize) -> Expression {
    Expression::Simple(Value::Selector(selector(head, tail, column, offset)))
}

fn name_ref(name: &str, column: usize, offset: usize) -> Expression {
    sel_value(sym(name, column, offset), None, column, offset)
}

fn ival(v: i64, column: usize, offset: usize) -> Expression {
    Expression::Simple(Value::Int(PositionedItem::new(v, at(column, offset))))
}

fn fval(text: &str, column: usize, offset: usize) -> Expression {
    Expression::Simple(Value::Float(PositionedItem::new(text.to_string(), at(column, offset))))
}

fn sval(text: &str, column: usize, offset: usize) -> Expression {
    Expression::Simple(Value::Str(PositionedItem::new(text.to_string(), at(column, offset))))
}

fn binary(kind: BinaryExprType, left: Expression, right: Expression, column: usize, offset: usize) -> Expression {
    Expression::Binary(BinaryOpDef { kind: kind, left: Box::new(left), right: Box::new(right), pos: at(column, offset) })
}

#[test]
fn test_symbol_parsing() {
    assert_eq!(expr_of("foo;"), name_ref("foo", 1, 0));
    assert_eq!(expr_of("foo-bar;"), name_ref("foo-bar", 1, 0));
    assert_eq!(expr_of("foo_bar;"), name_ref("foo_bar", 1, 0));
}

fn stmt_at_start(src: &str) -> ParseResult<Statement> {
    let toks = tokenize(src).unwrap();
    statement(&toks, 0)
}

fn expr_at_start(src: &str) -> ParseResult<Expression> {
    let toks = tokenize(src).unwrap();
    expression(&toks, 0)
}

fn selector_at_start(src: &str) -> ParseResult<Value> {
    let toks = tokenize(src).unwrap();
    selector_value(&toks, 0)
}

#[test]
fn test_selector_parsing() {
    assert!(selector_at_start("foo.").is_incomplete());
    assert_eq!(
        selector_at_start("foo.bar "),
        ParseResult::Complete(3, Value::Selector(selector(sym("foo", 1, 0), Some(vec![word("bar", 5, 4)]), 1, 0)))
    );
    assert_eq!(
        selector_at_start("foo.0 "),
        ParseResult::Complete(
            3,
            Value::Selector(selector(sym("foo", 1, 0), Some(vec![tok("0", TokenType::DIGIT, 5, 4)]), 1, 0))
        )
    );
    assert_eq!(
        selector_at_start("foo.bar;"),
        ParseResult::Complete(3, Value::Selector(selector(sym("foo", 1, 0), Some(vec![word("bar", 5, 4)]), 1, 0)))
    );
    let tuple = Expression::Simple(Value::Tuple(PositionedItem::new(
        vec![(word("foo", 3, 2), ival(1, 7, 6))],
        at(2, 1),
    )));
    assert_eq!(
        selector_at_start("({foo=1}).foo "),
        ParseResult::Complete(
            9,
            Value::Selector(selector(Expression::Grouped(Box::new(tuple)), Some(vec![word("foo", 11, 10)]), 1, 0))
        )
    );
}

#[test]
fn selectors_in_statements_end_at_the_semicolon() {
    assert!(parse_text("foo.").is_err());
    assert_eq!(
        expr_of("foo.bar ;"),
        sel_value(sym("foo", 1, 0), Some(vec![word("bar", 5, 4)]), 1, 0)
    );
    assert!(parse_text("foo").is_err());
}

#[test]
fn test_statement_parse() {
    assert_eq!(
        stmts("import \"foo\" as foo;"),
        vec![Statement::Import(ImportDef {
            path: tok("foo", TokenType::QUOTED, 8, 7),
            name: word("foo", 17, 16),
        })]
    );
    assert!(stmt_at_start("import foo").is_fail());
    assert_eq!(
        stmts("let foo = 1.0 ;"),
        vec![Statement::Let(LetDef { name: word("foo", 5, 4), value: fval("1.0", 11, 10) })]
    );
    assert_eq!(stmts("1.0;"), vec![Statement::Expression(fval("1.0", 1, 0))]);
}

#[test]
fn test_import_parse() {
    assert!(stmt_at_start("import").is_incomplete());
    assert!(stmt_at_start("import \"foo\"").is_incomplete());
    assert!(stmt_at_start("import \"foo\" as").is_incomplete());
    assert!(stmt_at_start("import \"foo\" as foo").is_incomplete());
    assert_eq!(
        stmts("import \"foo\" as foo;"),
        vec![Statement::Import(ImportDef {
            path: tok("foo", TokenType::QUOTED, 8, 7),
            name: word("foo", 17, 16),
        })]
    );
}

#[test]
fn test_let_statement_parse() {
    assert!(parse_text("foo").is_err());
    assert!(stmt_at_start("let \"foo\"").is_fail());
    assert!(stmt_at_start("let 1").is_fail());
    assert!(stmt_at_start("let").is_incomplete());
    assert!(stmt_at_start("let foo").is_incomplete());
    assert!(stmt_at_start("let foo =").is_incomplete());
    assert!(stmt_at_start("let foo = ").is_incomplete());
    assert!(stmt_at_start("let foo = 1").is_incomplete());
    assert_eq!(
        stmts("let foo = 1.0 ;"),
        vec![Statement::Let(LetDef { name: word("foo", 5, 4), value: fval("1.0", 11, 10) })]
    );
    assert_eq!(
        stmts("let foo= 1.0;"),
        vec![Statement::Let(LetDef { name: word("foo", 5, 4), value: fval("1.0", 10, 9) })]
    );
    assert_eq!(
        stmts("let foo =1.0;"),
        vec![Statement::Let(LetDef { name: word("foo", 5, 4), value: fval("1.0", 10, 9) })]
    );
}

#[test]
fn test_expression_statement_parse() {
    assert!(parse_text("foo").is_err());
    assert_eq!(expr_of("1.0;"), fval("1.0", 1, 0));
    assert_eq!(expr_of("1.0 ;"), fval("1.0", 1, 0));
    assert_eq!(expr_of(" 1.0;"), fval("1.0", 2, 1));
    assert_eq!(expr_of("foo;"), name_ref("foo", 1, 0));
    assert_eq!(expr_of("foo ;"), name_ref("foo", 1, 0));
    assert_eq!(expr_of(" foo;"), name_ref("foo", 2, 1));
    assert_eq!(expr_of("\"foo\";"), sval("foo", 1, 0));
    assert_eq!(expr_of("\"foo\" ;"), sval("foo", 1, 0));
    assert_eq!(expr_of(" \"foo\";"), sval("foo", 2, 1));
}

#[test]
fn test_expression_parse() {
    assert_eq!(expr_of("foo ;"), name_ref("foo", 1, 0));
    assert_eq!(expr_of("foo;"), name_ref("foo", 1, 0));
    assert_eq!(
        expr_of("foo.bar ;"),
        sel_value(sym("foo", 1, 0), Some(vec![word("bar", 5, 4)]), 1, 0)
    );
    assert_eq!(expr_of("1 + 1;"), binary(BinaryExprType::Add, ival(1, 1, 0), ival(1, 5, 4), 1, 0));
    assert_eq!(expr_of("1 - 1;"), binary(BinaryExprType::Sub, ival(1, 1, 0), ival(1, 5, 4), 1, 0));
    assert_eq!(expr_of("1 * 1;"), binary(BinaryExprType::Mul, ival(1, 1, 0), ival(1, 5, 4), 1, 0));
    assert_eq!(expr_of("1 / 1;"), binary(BinaryExprType::Div, ival(1, 1, 0), ival(1, 5, 4), 1, 0));
    assert_eq!(expr_of("1+1;"), binary(BinaryExprType::Add, ival(1, 1, 0), ival(1, 3, 2), 1, 0));
    assert_eq!(expr_of("1-1;"), binary(BinaryExprType::Sub, ival(1, 1, 0), ival(1, 3, 2), 1, 0));
    assert_eq!(expr_of("1*1;"), binary(BinaryExprType::Mul, ival(1, 1, 0), ival(1, 3, 2), 1, 0));
    assert_eq!(expr_of("1/1;"), binary(BinaryExprType::Div, ival(1, 1, 0), ival(1, 3, 2), 1, 0));
    assert_eq!(
        expr_of("macro (arg1, arg2) => { foo = arg1 };"),
        Expression::Macro(MacroDef {
            argdefs: vec![
                PositionedItem::new("arg1".to_string(), at(8, 7)),
                PositionedItem::new("arg2".to_string(), at(14, 13)),
            ],
            fields: vec![(word("foo", 25, 24), name_ref("arg1", 31, 30))],
            pos: at(1, 0),
        })
    );
    assert_eq!(
        expr_of("select foo, 1, { foo = 2 };"),
        Expression::Select(SelectDef {
            val: Box::new(name_ref("foo", 8, 7)),
            default: Box::new(ival(1, 13, 12)),
            tuple: vec![(word("foo", 18, 17), ival(2, 24, 23))],
            pos: at(1, 0),
        })
    );
    assert_eq!(
        expr_of("foo.bar (1, \"foo\");"),
        Expression::Call(CallDef {
            macroref: selector(sym("foo", 1, 0), Some(vec![word("bar", 5, 4)]), 1, 0),
            arglist: vec![ival(1, 10, 9), sval("foo", 13, 12)],
            pos: at(1, 0),
        })
    );
    assert_eq!(
        expr_of("(1 + 1);"),
        Expression::Grouped(Box::new(binary(BinaryExprType::Add, ival(1, 2, 1), ival(1, 6, 5), 2, 1)))
    );
    assert_eq!(
        expr_of("[1, 1];"),
        Expression::Simple(Value::List(ListDef { elems: vec![ival(1, 2, 1), ival(1, 5, 4)], pos: at(1, 0) }))
    );
}

#[test]
fn test_format_parse() {
    assert!(parse_text("\"foo").is_err());
    assert!(parse_text("\"foo\"").is_err());
    assert!(expr_at_start("\"foo\" %").is_incomplete());
    assert!(expr_at_start("\"foo\" % (1, 2").is_incomplete());
    let expected = Expression::Format(FormatDef {
        template: "foo @ @".to_string(),
        args: vec![ival(1, 14, 13), ival(2, 17, 16)],
        pos: at(1, 0),
    });
    assert_eq!(expr_of("\"foo @ @\" % (1, 2);"), expected);
    let expected = Expression::Format(FormatDef {
        template: "foo @ @".to_string(),
        args: vec![ival(1, 12, 11), ival(2, 15, 14)],
        pos: at(1, 0),
    });
    assert_eq!(expr_of("\"foo @ @\"%(1, 2);"), expected);
}

#[test]
fn test_call_parse() {
    assert!(parse_text("foo").is_err());
    assert!(expr_at_start("foo (").is_incomplete());
    assert!(expr_at_start("foo (1").is_incomplete());
    assert!(expr_at_start("foo (1,").is_incomplete());
    assert!(expr_at_start("foo (1,2").is_incomplete());
    assert_eq!(
        expr_of("foo (1, \"foo\");"),
        Expression::Call(CallDef {
            macroref: selector(sym("foo", 1, 0), None, 1, 0),
            arglist: vec![ival(1, 6, 5), sval("foo", 9, 8)],
            pos: at(1, 0),
        })
    );
    assert_eq!(
        expr_of("foo.bar (1, \"foo\");"),
        Expression::Call(CallDef {
            macroref: selector(sym("foo", 1, 0), Some(vec![word("bar", 5, 4)]), 1, 0),
            arglist: vec![ival(1, 10, 9), sval("foo", 13, 12)],
            pos: at(1, 0),
        })
    );
}

#[test]
fn test_select_parse() {
    assert!(expr_at_start("select").is_incomplete());
    assert!(expr_at_start("select foo").is_incomplete());
    assert!(expr_at_start("select foo, 1").is_incomplete());
    assert!(expr_at_start("select foo, 1, {").is_incomplete());
    assert_eq!(
        expr_of("select foo, 1, { foo = 2 };"),
        Expression::Select(SelectDef {
            val: Box::new(name_ref("foo", 8, 7)),
            default: Box::new(ival(1, 13, 12)),
            tuple: vec![(word("foo", 18, 17), ival(2, 24, 23))],
            pos: at(1, 0),
        })
    );
}

#[test]
fn test_macro_expression_parsing() {
    assert!(parse_text("foo").is_err());
    assert!(expr_at_start("macro \"foo\"").is_fail());
    assert!(expr_at_start("macro 1").is_fail());
    assert!(expr_at_start("macro").is_incomplete());
    assert!(expr_at_start("macro (").is_incomplete());
    assert!(expr_at_start("macro (arg").is_incomplete());
    assert!(expr_at_start("macro (arg, arg2").is_incomplete());
    assert!(expr_at_start("macro (arg1, arg2) =>").is_incomplete());
    assert!(expr_at_start("macro (arg1, arg2) => {").is_incomplete());
    assert!(expr_at_start("macro (arg1, arg2) => { foo").is_incomplete());
    assert!(expr_at_start("macro (arg1, arg2) => { foo =").is_incomplete());
    assert_eq!(
        expr_of("macro (arg1, arg2) => {foo=1,bar=2};"),
        Expression::Macro(MacroDef {
            argdefs: vec![
                PositionedItem::new("arg1".to_string(), at(8, 7)),
                PositionedItem::new("arg2".to_string(), at(14, 13)),
            ],
            fields: vec![(word("foo", 24, 23), ival(1, 28, 27)), (word("bar", 30, 29), ival(2, 34, 33))],
            pos: at(1, 0),
        })
    );
}

#[test]
fn test_copy_parse() {
    assert_eq!(expr_of("foo;"), name_ref("foo", 1, 0));
    assert!(expr_at_start("foo{").is_incomplete());
    assert_eq!(
        expr_of("foo{};"),
        Expression::Copy(CopyDef { selector: selector(sym("foo", 1, 0), None, 1, 0), fields: vec![], pos: at(1, 0) })
    );
    assert_eq!(
        expr_of("foo{bar=1};"),
        Expression::Copy(CopyDef {
            selector: selector(sym("foo", 1, 0), None, 1, 0),
            fields: vec![(word("bar", 5, 4), ival(1, 9, 8))],
            pos: at(1, 0),
        })
    );
}

#[test]
fn test_grouped_expression_parse() {
    assert_eq!(expr_of("foo;"), name_ref("foo", 1, 0));
    assert!(expr_at_start("(foo").is_incomplete());
    assert_eq!(expr_of("(foo);"), Expression::Grouped(Box::new(name_ref("foo", 2, 1))));
    assert_eq!(
        expr_of("(1 + 1);"),
        Expression::Grouped(Box::new(binary(BinaryExprType::Add, ival(1, 2, 1), ival(1, 6, 5), 2, 1)))
    );
}

#[test]
fn test_list_value_parse() {
    assert_eq!(expr_of("foo;"), name_ref("foo", 1, 0));
    assert!(expr_at_start("[foo").is_incomplete());
    assert_eq!(
        expr_of("[foo];"),
        Expression::Simple(Value::List(ListDef { elems: vec![name_ref("foo", 2, 1)], pos: at(1, 0) }))
    );
    assert_eq!(
        expr_of("[1, 1];"),
        Expression::Simple(Value::List(ListDef { elems: vec![ival(1, 2, 1), ival(1, 5, 4)], pos: at(1, 0) }))
    );
}

fn tuple_of(fields: Vec<(Token, Expression)>, column: usize, offset: usize) -> Expression {
    Expression::Simple(Value::Tuple(PositionedItem::new(fields, at(column, offset))))
}

#[test]
fn test_tuple_parse() {
    assert!(expr_at_start("{ foo").is_incomplete());
    assert!(expr_at_start("{ foo =").is_incomplete());
    assert!(expr_at_start("{ foo = 1").is_incomplete());
    assert!(expr_at_start("{ foo = 1,").is_incomplete());
    assert!(expr_at_start("{ foo = 1, bar =").is_incomplete());
    assert_eq!(expr_of("{ };"), tuple_of(vec![], 1, 0));
    assert_eq!(expr_of("{ foo = 1 };"), tuple_of(vec![(word("foo", 3, 2), ival(1, 9, 8))], 1, 0));
    assert_eq!(
        expr_of("{ foo = 1, bar = \"1\" };"),
        tuple_of(vec![(word("foo", 3, 2), ival(1, 9, 8)), (word("bar", 12, 11), sval("1", 18, 17))], 1, 0)
    );
    assert_eq!(
        expr_of("{ foo = 1, bar = {} };"),
        tuple_of(vec![(word("foo", 3, 2), ival(1, 9, 8)), (word("bar", 12, 11), tuple_of(vec![], 18, 17))], 1, 0)
    );
}

#[test]
fn test_field_value_parse() {
    assert!(expr_at_start("{ foo }").is_fail());
    assert!(expr_at_start("{ foo =").is_incomplete());
}

#[test]
fn test_number_parsing() {
    assert!(parse_text(".;").is_err());
    assert!(parse_text(". ;").is_err());
    assert_eq!(expr_of("1.0;"), fval("1.0", 1, 0));
    assert_eq!(expr_of("1.;"), fval("1.", 1, 0));
    assert_eq!(expr_of("1;"), ival(1, 1, 0));
    assert_eq!(expr_of(".1;"), fval(".1", 1, 0));
}

#[test]
fn test_parse() {
    assert!(parse_text("import mylib as lib;").is_err());
    assert_eq!(
        stmts("import \"mylib\" as lib;let foo = 1;1+1;"),
        vec![
            Statement::Import(ImportDef { path: tok("mylib", TokenType::QUOTED, 8, 7), name: word("lib", 19, 18) }),
            Statement::Let(LetDef { name: word("foo", 27, 26), value: ival(1, 33, 32) }),
            Statement::Expression(binary(BinaryExprType::Add, ival(1, 35, 34), ival(1, 37, 36), 35, 34)),
        ]
    );
}

#[test]
fn tokenizer_positions_span_lines_and_skip_comments() {
    let toks = tokenize("let x = 1; // one\n  \"a\\\"b\" |y|").unwrap();
    assert_eq!(
        toks,
        vec![
            word("let", 1, 0),
            word("x", 5, 4),
            tok("=", TokenType::PUNCT, 7, 6),
            tok("1", TokenType::DIGIT, 9, 8),
            tok(";", TokenType::PUNCT, 10, 9),
            Token::new("a\"b", TokenType::QUOTED, Position::new(2, 3, 20)),
            Token::new("y", TokenType::PIPEQUOTE, Position::new(2, 10, 27)),
        ]
    );
}

#[test]
fn tokenizer_reads_booleans_and_two_character_operators() {
    let toks = tokenize("true false => == != <= >= < >").unwrap();
    let typs: Vec<TokenType> = toks.iter().map(|t| t.typ).collect();
    let frags: Vec<String> = toks.iter().map(|t| t.fragment.clone()).collect();
    assert_eq!(typs[0], TokenType::BOOLEAN);
    assert_eq!(typs[1], TokenType::BOOLEAN);
    assert_eq!(frags, vec!["true", "false", "=>", "==", "!=", "<=", ">=", "<", ">"]);
}

#[test]
fn tokenizer_errors_name_the_place() {
    assert_eq!(tokenize("a # b"), Err(ParseError::new(ParseErrorKind::UnexpectedCharacter, 2)));
    assert_eq!(tokenize("x = \"abc"), Err(ParseError::new(ParseErrorKind::UnterminatedString, 4)));
    assert_eq!(tokenize("|abc"), Err(ParseError::new(ParseErrorKind::UnterminatedString, 0)));
    assert_eq!(tokenize("").unwrap(), vec![]);
}

#[test]
fn parser_reads_assert_and_out_statements() {
    assert_eq!(
        stmts("assert |{ok = true, desc = \"d\"}|; out json foo;"),
        vec![
            Statement::Assert(tok("{ok = true, desc = \"d\"}", TokenType::PIPEQUOTE, 8, 7)),
            Statement::Output(word("json", 39, 38), name_ref("foo", 44, 43)),
        ]
    );
}

#[test]
fn parser_errors_give_the_token_index() {
    let toks = tokenize("let = 1;").unwrap();
    assert_eq!(parse(&toks), Err(ParseError::new(ParseErrorKind::UnexpectedToken, 1)));
    let toks = tokenize("let x = 1").unwrap();
    assert_eq!(parse(&toks), Err(ParseError::new(ParseErrorKind::ExpectedExpressionAtEnd, 4)));
    let toks = tokenize("let x = 99999999999999999999;").unwrap();
    assert_eq!(parse(&toks), Err(ParseError::new(ParseErrorKind::BadNumber, 3)));
    assert_eq!(parse(&vec![]), Err(ParseError::new(ParseErrorKind::ExpectedExpressionAtEnd, 0)));
    assert_eq!(parse_text("// only a comment\n"), Err(ParseError::new(ParseErrorKind::ExpectedExpressionAtEnd, 0)));
}

#[test]
fn parser_joins_two_operands_with_precedence() {
    assert_eq!(
        expr_of("1 + 2 * 3;"),
        binary(
            BinaryExprType::Add,
            ival(1, 1, 0),
            binary(BinaryExprType::Mul, ival(2, 5, 4), ival(3, 9, 8), 5, 4),
            1,
            0
        )
    );
    assert_eq!(
        expr_of("true == false;"),
        binary(
            BinaryExprType::Equal,
            Expression::Simple(Value::Boolean(PositionedItem::new(true, at(1, 0)))),
            Expression::Simple(Value::Boolean(PositionedItem::new(false, at(9, 8)))),
            1,
            0
        )
    );
}

#[test]
fn tokens_stand_where_their_text_is() {
    let src = "let foo-bar = [1, 2.5] == x.0; // done";
    let chars: Vec<char> = src.chars().collect();
    let toks = tokenize(src).unwrap();
    let mut last: Option<usize> = None;
    for t in toks.iter() {
        let start = t.pos.offset;
        let text: String = chars[start..start + t.fragment.chars().count()].iter().collect();
        assert_eq!(text, t.fragment);
        if let Some(l) = last {
            assert!(l < start);
        }
        last = Some(start);
    }
    assert_eq!(toks.len(), 15);
}
