use ucg::ast::{BinaryExprType, BinaryOpDef, Expression, Position, PositionedItem, Token, TokenType, Value};
use ucg::parse::precedence::{
    binary_expression, op_expression, op_type, parse_operand_list, tuple_to_binary_expression, Element,
};
use ucg::parse::{ParseError, ParseErrorKind, ParseResult};

fn ival(i: i64, column: usize) -> Expression {
    Expression::Simple(Value::Int(PositionedItem::new(i, Position::new(1, column, column))))
}

fn e(i: i64, column: usize) -> Element {
    Element::Expr(ival(i, column))
}

fn op(t: BinaryExprType) -> Element {
    Element::Op(t)
}

fn bin(kind: BinaryExprType, left: Expression, right: Expression) -> Expression {
    let pos = *left.pos();
    Expression::Binary(BinaryOpDef { kind: kind, left: Box::new(left), right: Box::new(right), pos: pos })
}

#[test]
fn product_binds_tighter_on_the_right() {
    // 1 + 2 * 3
    let list = vec![e(1, 1), op(BinaryExprType::Add), e(2, 5), op(BinaryExprType::Mul), e(3, 9)];
    let expected = bin(BinaryExprType::Add, ival(1, 1), bin(BinaryExprType::Mul, ival(2, 5), ival(3, 9)));
    assert_eq!(binary_expression(list), ParseResult::Complete(5, expected));
}

#[test]
fn product_binds_tighter_on_the_left() {
    // 1 * 2 - 3
    let list = vec![e(1, 1), op(BinaryExprType::Mul), e(2, 5), op(BinaryExprType::Sub), e(3, 9)];
    let expected = bin(BinaryExprType::Sub, bin(BinaryExprType::Mul, ival(1, 1), ival(2, 5)), ival(3, 9));
    assert_eq!(binary_expression(list), ParseResult::Complete(5, expected));
}

#[test]
fn comparison_binds_loosest() {
    // 1 == 2 + 3
    let list = vec![e(1, 1), op(BinaryExprType::Equal), e(2, 6), op(BinaryExprType::Add), e(3, 10)];
    let expected = bin(BinaryExprType::Equal, ival(1, 1), bin(BinaryExprType::Add, ival(2, 6), ival(3, 10)));
    assert_eq!(binary_expression(list), ParseResult::Complete(5, expected));
}

#[test]
fn binary_expression_sits_at_its_leftmost_operand() {
    let list = vec![e(7, 3), op(BinaryExprType::Div), e(8, 7), op(BinaryExprType::GT), e(1, 11)];
    match binary_expression(list) {
        ParseResult::Complete(n, expr) => {
            assert!(n >= 1 && n <= 5);
            assert_eq!(*expr.pos(), Position::new(1, 3, 3));
        }
        other => panic!("unexpected {:?}", other),
    }
}

#[test]
fn simple_pairs() {
    let list = vec![e(1, 1), op(BinaryExprType::Sub), e(2, 5)];
    assert_eq!(binary_expression(list), ParseResult::Complete(3, bin(BinaryExprType::Sub, ival(1, 1), ival(2, 5))));
    let list = vec![e(1, 1), op(BinaryExprType::LTEqual), e(2, 5)];
    assert_eq!(
        binary_expression(list),
        ParseResult::Complete(3, bin(BinaryExprType::LTEqual, ival(1, 1), ival(2, 5)))
    );
    // A single expression is its own result.
    assert_eq!(binary_expression(vec![e(4, 1)]), ParseResult::Complete(1, ival(4, 1)));
}

#[test]
fn binary_expression_errors() {
    assert_eq!(
        binary_expression(Vec::new()),
        ParseResult::Abort(ParseError { kind: ParseErrorKind::ExpectedExpressionAtEnd, offset: 0, cause: None })
    );
    assert_eq!(
        binary_expression(vec![op(BinaryExprType::Add)]),
        ParseResult::Fail(ParseError { kind: ParseErrorKind::ExpectedExpression, offset: 1, cause: None })
    );
    // An operator with nothing after it.
    match binary_expression(vec![e(1, 1), op(BinaryExprType::Add)]) {
        ParseResult::Abort(err) => assert_eq!(err.kind, ParseErrorKind::ExpectedExpressionAtEnd),
        other => panic!("unexpected {:?}", other),
    }
}

#[test]
fn op_expression_outcomes() {
    let list = vec![e(1, 1), op(BinaryExprType::Add), e(2, 5)];
    assert_eq!(
        op_expression(3, ParseResult::Complete(9, list)),
        ParseResult::Complete(9, bin(BinaryExprType::Add, ival(1, 1), ival(2, 5)))
    );
    let cause = ParseError::new(ParseErrorKind::ExpectedOperator, 4);
    assert_eq!(
        op_expression(3, ParseResult::Fail(cause)),
        ParseResult::Fail(ParseError::caused_by(
            ParseErrorKind::OperatorExpression,
            ParseError::new(ParseErrorKind::ExpectedOperator, 4),
            3
        ))
    );
    let cause = ParseError::new(ParseErrorKind::ExpectedOperator, 4);
    assert!(matches!(op_expression(3, ParseResult::Abort(cause)), ParseResult::Fail(_)));
    assert_eq!(op_expression(3, ParseResult::Incomplete(6)), ParseResult::Incomplete(6));
    assert_eq!(
        op_expression(3, ParseResult::Complete(9, Vec::new())),
        ParseResult::Abort(ParseError::new(ParseErrorKind::OperatorExpression, 9))
    );
}

fn punct(s: &str, column: usize) -> Token {
    Token::new(s, TokenType::PUNCT, Position::new(1, column, column))
}

fn digit(s: &str, column: usize) -> Token {
    Token::new(s, TokenType::DIGIT, Position::new(1, column, column))
}

#[test]
fn operator_tokens() {
    let toks = vec![
        punct("+", 1), punct("-", 2), punct("*", 3), punct("/", 4), punct("==", 5), punct("!=", 6),
        punct("<=", 7), punct(">=", 8), punct("<", 9), punct(">", 10), punct(".", 11), digit("1", 12),
    ];
    let kinds = [
        BinaryExprType::Add, BinaryExprType::Sub, BinaryExprType::Mul, BinaryExprType::Div,
        BinaryExprType::Equal, BinaryExprType::NotEqual, BinaryExprType::LTEqual, BinaryExprType::GTEqual,
        BinaryExprType::LT, BinaryExprType::GT,
    ];
    for (i, k) in kinds.iter().enumerate() {
        assert_eq!(op_type(&toks, i), ParseResult::Complete(i + 1, Element::Op(*k)));
    }
    assert_eq!(op_type(&toks, 10), ParseResult::Fail(ParseError::new(ParseErrorKind::ExpectedOperator, 10)));
    assert_eq!(op_type(&toks, 11), ParseResult::Fail(ParseError::new(ParseErrorKind::ExpectedOperator, 11)));
    assert_eq!(op_type(&toks, 12), ParseResult::Incomplete(12));
}

/// An operand parser for tests: a digit token is an integer expression.
fn digit_operand(toks: &Vec<Token>, p: usize) -> ParseResult<Expression> {
    if p >= toks.len() {
        return ParseResult::Incomplete(p);
    }
    let t = &toks[p];
    if t.typ == TokenType::DIGIT {
        ParseResult::Complete(p + 1, ival(t.fragment.parse().unwrap(), t.pos.column))
    } else {
        ParseResult::Fail(ParseError::new(ParseErrorKind::ExpectedExpression, p))
    }
}

#[test]
fn operand_list_alternates() {
    let toks = vec![digit("1", 1), punct("+", 3), digit("2", 5), punct("*", 7), digit("3", 9), punct(";", 10)];
    let r = parse_operand_list(&toks, 0, |p: usize| digit_operand(&toks, p));
    let expected = vec![e(1, 1), op(BinaryExprType::Add), e(2, 5), op(BinaryExprType::Mul), e(3, 9)];
    assert_eq!(r, ParseResult::Complete(5, expected));
}

#[test]
fn operand_list_needs_an_operator() {
    let toks = vec![digit("1", 1), punct(";", 2)];
    let r = parse_operand_list(&toks, 0, |p: usize| digit_operand(&toks, p));
    assert_eq!(r, ParseResult::Fail(ParseError::new(ParseErrorKind::ExpectedOperator, 1)));
}

#[test]
fn operand_list_passes_operand_failures_on() {
    let toks = vec![digit("1", 1), punct("+", 2), punct(";", 3)];
    let r = parse_operand_list(&toks, 0, |p: usize| digit_operand(&toks, p));
    assert_eq!(r, ParseResult::Fail(ParseError::new(ParseErrorKind::ExpectedExpression, 2)));
    let r = parse_operand_list(&toks, 0, |_p: usize| ParseResult::Abort(ParseError::new(ParseErrorKind::ExpectedExpression, 0)));
    assert!(r.is_abort());
}

#[test]
fn operand_list_at_the_end_of_input_is_incomplete() {
    let toks = vec![digit("1", 1), punct("+", 2), digit("2", 3)];
    let r = parse_operand_list(&toks, 0, |p: usize| digit_operand(&toks, p));
    assert_eq!(r, ParseResult::Incomplete(3));
}

#[test]
fn operand_list_then_binary_expression() {
    let toks = vec![digit("4", 1), punct("-", 3), digit("2", 5), punct("<", 7), digit("9", 9), punct(";", 10)];
    let list = parse_operand_list(&toks, 0, |p: usize| digit_operand(&toks, p));
    let r = op_expression(0, list);
    let expected = bin(BinaryExprType::LT, bin(BinaryExprType::Sub, ival(4, 1), ival(2, 5)), ival(9, 9));
    assert_eq!(r, ParseResult::Complete(5, expected));
}

#[test]
fn joined_expression_takes_the_left_position() {
    let j = tuple_to_binary_expression(BinaryExprType::Mul, ival(2, 4), ival(3, 8));
    assert_eq!(*j.pos(), Position::new(1, 4, 4));
    assert_eq!(j, bin(BinaryExprType::Mul, ival(2, 4), ival(3, 8)));
}

#[test]
fn parse_result_predicates() {
    let c: ParseResult<u8> = ParseResult::Complete(1, 0);
    assert!(c.is_complete() && !c.is_incomplete() && !c.is_fail() && !c.is_abort());
    let i: ParseResult<u8> = ParseResult::Incomplete(1);
    assert!(i.is_incomplete());
    let f: ParseResult<u8> = ParseResult::Fail(ParseError::new(ParseErrorKind::ExpectedOperator, 0));
    assert!(f.is_fail());
    assert_eq!(ParseErrorKind::OperatorExpression.message(), "Failed while parsing operator expression");
}

fn flatten(e: &Expression, out: &mut Vec<Element>) {
    match e {
        Expression::Binary(def) => {
            flatten(&def.left, out);
            out.push(Element::Op(def.kind));
            flatten(&def.right, out);
        }
        Expression::Simple(Value::Int(i)) => out.push(Element::Expr(ival(i.val, i.pos.column))),
        other => panic!("unexpected {:?}", other),
    }
}

#[test]
fn binary_expression_reads_in_order() {
    let lists = vec![
        vec![e(1, 1), op(BinaryExprType::Add), e(2, 5), op(BinaryExprType::Mul), e(3, 9), op(BinaryExprType::Sub), e(4, 13)],
        vec![e(1, 1), op(BinaryExprType::Mul), e(2, 5), op(BinaryExprType::GT), e(3, 9), op(BinaryExprType::Div), e(4, 13)],
        vec![e(1, 1), op(BinaryExprType::NotEqual), e(2, 5)],
    ];
    for list in lists {
        let copy: Vec<Element> = list
            .iter()
            .map(|el| match el {
                Element::Expr(Expression::Simple(Value::Int(i))) => Element::Expr(ival(i.val, i.pos.column)),
                Element::Op(k) => Element::Op(*k),
                other => panic!("unexpected {:?}", other),
            })
            .collect();
        match binary_expression(list) {
            ParseResult::Complete(n, expr) => {
                let mut read = Vec::new();
                flatten(&expr, &mut read);
                assert_eq!(read.len(), n);
                assert_eq!(&read[..], &copy[..n]);
            }
            other => panic!("unexpected {:?}", other),
        }
    }
}
