//! Bottom up parser for precedence parsing of expressions separated by binary
//! operators.
//!
//! The parser runs over a list of elements, each an expression or an operator,
//! and finds a tree of binary expressions in it: comparisons bind loosest, then
//! sums, then products.
use vstd::prelude::*;

use crate::ast::{BinaryExprType, BinaryOpDef, Expression, Token, TokenType};
use super::{ParseError, ParseErrorKind, ParseResult};

verus! {

/// Defines the intermediate stages of our bottom up parser for precedence parsing.
#[derive(Debug, PartialEq)]
pub enum Element {
    Expr(Expression),
    Op(BinaryExprType),
}

/// The shape of a binary expression found in a list of elements: a leaf is the
/// index of an expression element, a node joins two shapes with an operator.
#[derive(Debug, PartialEq)]
pub enum Shape {
    Leaf(usize),
    Node(BinaryExprType, Box<Shape>, Box<Shape>),
}

/// Carries a result that is not `Complete` over to another type of result.
pub open spec fn carry<A, B>(r: ParseResult<A>) -> ParseResult<B> {
    match r {
        ParseResult::Complete(n, _) => ParseResult::Incomplete(n),
        ParseResult::Incomplete(n) => ParseResult::Incomplete(n),
        ParseResult::Fail(e) => ParseResult::Fail(e),
        ParseResult::Abort(e) => ParseResult::Abort(e),
    }
}

fn carry_over<A, B>(r: ParseResult<A>) -> (o: ParseResult<B>)
    requires
        !(r is Complete),
    ensures
        o == carry::<A, B>(r),
{
    match r {
        ParseResult::Complete(n, _) => ParseResult::Incomplete(n),
        ParseResult::Incomplete(n) => ParseResult::Incomplete(n),
        ParseResult::Fail(e) => ParseResult::Fail(e),
        ParseResult::Abort(e) => ParseResult::Abort(e),
    }
}

/// An expression element at `i`.
pub open spec fn spec_parse_expression(s: Seq<Element>, i: usize) -> ParseResult<Shape> {
    if i >= s.len() {
        ParseResult::Abort(ParseError::at(ParseErrorKind::ExpectedExpressionAtEnd, i))
    } else {
        match s[i as int] {
            Element::Expr(_) => ParseResult::Complete((i + 1) as usize, Shape::Leaf(i)),
            Element::Op(_) => ParseResult::Fail(
                ParseError::at(ParseErrorKind::ExpectedExpression, (i + 1) as usize),
            ),
        }
    }
}

/// Whether an operator is one of the sum operators.
pub open spec fn is_sum_op(op: BinaryExprType) -> bool {
    op == BinaryExprType::Add || op == BinaryExprType::Sub
}

/// Whether an operator is one of the product operators.
pub open spec fn is_product_op(op: BinaryExprType) -> bool {
    op == BinaryExprType::Mul || op == BinaryExprType::Div
}

/// Whether an operator is one of the comparison operators.
pub open spec fn is_compare_op(op: BinaryExprType) -> bool {
    !is_sum_op(op) && !is_product_op(op)
}

/// An operator element at `i` of the sum or the product class; the offset of a
/// mismatch is the one after the element.
pub open spec fn spec_class_operator(s: Seq<Element>, i: usize, sum: bool) -> ParseResult<BinaryExprType> {
    if i >= s.len() {
        ParseResult::Fail(ParseError::at(ParseErrorKind::ExpectedExpressionAtEnd, i))
    } else {
        match s[i as int] {
            Element::Op(op) => if (sum && is_sum_op(op)) || (!sum && is_product_op(op)) {
                ParseResult::Complete((i + 1) as usize, op)
            } else {
                ParseResult::Fail(ParseError::at(ParseErrorKind::UnexpectedOperator, (i + 1) as usize))
            },
            Element::Expr(_) => ParseResult::Fail(
                ParseError::at(ParseErrorKind::UnexpectedOperator, (i + 1) as usize),
            ),
        }
    }
}

/// A comparison operator element at `i`; the offset of a mismatch is `i` itself.
pub open spec fn spec_compare_operator(s: Seq<Element>, i: usize) -> ParseResult<BinaryExprType> {
    if i >= s.len() {
        ParseResult::Fail(ParseError::at(ParseErrorKind::ExpectedExpressionAtEnd, i))
    } else {
        match s[i as int] {
            Element::Op(op) => if is_compare_op(op) {
                ParseResult::Complete((i + 1) as usize, op)
            } else {
                ParseResult::Fail(ParseError::at(ParseErrorKind::UnexpectedOperator, i))
            },
            Element::Expr(_) => ParseResult::Fail(ParseError::at(ParseErrorKind::UnexpectedOperator, i)),
        }
    }
}

/// `left op right`, given how the left operand, the operator and the right
/// operand were parsed in turn.
pub open spec fn join(
    left: ParseResult<Shape>,
    op: ParseResult<BinaryExprType>,
    right: ParseResult<Shape>,
) -> ParseResult<Shape> {
    match left {
        ParseResult::Complete(_, l) => match op {
            ParseResult::Complete(_, t) => match right {
                ParseResult::Complete(m, r) => ParseResult::Complete(m, Shape::Node(t, Box::new(l), Box::new(r))),
                _ => carry(right),
            },
            _ => carry(op),
        },
        _ => carry(left),
    }
}

/// The offset after a complete result.
pub open spec fn next_offset<T>(r: ParseResult<T>) -> usize {
    match r {
        ParseResult::Complete(n, _) => n,
        _ => 0,
    }
}

/// The first of two alternatives that does not fail, else the second.
pub open spec fn either<T>(first: ParseResult<T>, second: ParseResult<T>) -> ParseResult<T> {
    match first {
        ParseResult::Fail(_) => second,
        _ => first,
    }
}

/// A product: `expr (*|/) expr`.
pub open spec fn spec_product(s: Seq<Element>, i: usize) -> ParseResult<Shape> {
    let left = spec_parse_expression(s, i);
    let op = spec_class_operator(s, next_offset(left), false);
    let right = spec_parse_expression(s, next_offset(op));
    join(left, op, right)
}

/// An operand of a sum: a product, else a single expression.
pub open spec fn spec_sum_operand(s: Seq<Element>, i: usize) -> ParseResult<Shape> {
    either(spec_product(s, i), spec_parse_expression(s, i))
}

/// A sum: `operand (+|-) operand`.
pub open spec fn spec_sum(s: Seq<Element>, i: usize) -> ParseResult<Shape> {
    let left = spec_sum_operand(s, i);
    let op = spec_class_operator(s, next_offset(left), true);
    let right = spec_sum_operand(s, next_offset(op));
    join(left, op, right)
}

/// Arithmetic: a sum, else a product.
pub open spec fn spec_math(s: Seq<Element>, i: usize) -> ParseResult<Shape> {
    either(spec_sum(s, i), spec_product(s, i))
}

/// An operand of a comparison: arithmetic, else a single expression.
pub open spec fn spec_compare_operand(s: Seq<Element>, i: usize) -> ParseResult<Shape> {
    either(spec_math(s, i), spec_parse_expression(s, i))
}

/// A comparison: `operand op operand`.
pub open spec fn spec_compare(s: Seq<Element>, i: usize) -> ParseResult<Shape> {
    let left = spec_compare_operand(s, i);
    let op = spec_compare_operator(s, next_offset(left));
    let right = spec_compare_operand(s, next_offset(op));
    join(left, op, right)
}

/// A binary expression: a comparison, else arithmetic, else a single expression.
pub open spec fn spec_binary(s: Seq<Element>, i: usize) -> ParseResult<Shape> {
    either(spec_compare(s, i), either(spec_math(s, i), spec_parse_expression(s, i)))
}

/// The expression that a shape describes over a list of elements: a node takes
/// the position of its left operand.
pub open spec fn shape_expr(p: Shape, s: Seq<Element>) -> Expression
    decreases p,
{
    match p {
        Shape::Leaf(k) => match s[k as int] {
            Element::Expr(e) => e,
            Element::Op(_) => arbitrary(),
        },
        Shape::Node(t, l, r) => {
            let le = shape_expr(*l, s);
            Expression::Binary(BinaryOpDef {
                kind: t,
                left: Box::new(le),
                right: Box::new(shape_expr(*r, s)),
                pos: le.position(),
            })
        },
    }
}

/// The least index a shape uses.
pub open spec fn shape_lo(p: Shape) -> int
    decreases p,
{
    match p {
        Shape::Leaf(k) => k as int,
        Shape::Node(_, l, _) => shape_lo(*l),
    }
}

/// The greatest index a shape uses.
pub open spec fn shape_hi(p: Shape) -> int
    decreases p,
{
    match p {
        Shape::Leaf(k) => k as int,
        Shape::Node(_, _, r) => shape_hi(*r),
    }
}

/// A shape whose leaves are expression elements, in increasing order.
pub open spec fn shape_ok(p: Shape, s: Seq<Element>) -> bool
    decreases p,
{
    match p {
        Shape::Leaf(k) => k < s.len() && s[k as int] is Expr,
        Shape::Node(_, l, r) => shape_ok(*l, s) && shape_ok(*r, s) && shape_hi(*l) < shape_lo(*r),
    }
}

/// A complete result whose shape uses only elements between `i` and the offset after it.
pub open spec fn found_within(r: ParseResult<Shape>, s: Seq<Element>, i: usize) -> bool {
    r matches ParseResult::Complete(n, p) ==> {
        &&& shape_ok(p, s)
        &&& i <= shape_lo(p)
        &&& shape_lo(p) <= shape_hi(p) < n
        &&& n <= s.len()
    }
}

proof fn lemma_shape_bounds(p: Shape, s: Seq<Element>)
    requires
        shape_ok(p, s),
    ensures
        0 <= shape_lo(p) <= shape_hi(p) < s.len(),
    decreases p,
{
    if let Shape::Node(_, l, r) = p {
        lemma_shape_bounds(*l, s);
        lemma_shape_bounds(*r, s);
    }
}

proof fn lemma_join(
    left: ParseResult<Shape>,
    op: ParseResult<BinaryExprType>,
    right: ParseResult<Shape>,
    s: Seq<Element>,
    i: usize,
)
    requires
        found_within(left, s, i),
        op matches ParseResult::Complete(n, _) ==> n > next_offset(left),
        found_within(right, s, next_offset(op)),
    ensures
        found_within(join(left, op, right), s, i),
{
    if let ParseResult::Complete(n, p) = join(left, op, right) {
        if let (ParseResult::Complete(a, l), ParseResult::Complete(b, r)) = (left, right) {
            lemma_shape_bounds(l, s);
            lemma_shape_bounds(r, s);
        }
    }
}

proof fn lemma_found_product(s: Seq<Element>, i: usize)
    requires
        s.len() <= usize::MAX,
    ensures
        found_within(spec_parse_expression(s, i), s, i),
        found_within(spec_product(s, i), s, i),
        found_within(spec_sum_operand(s, i), s, i),
{
    let left = spec_parse_expression(s, i);
    let op = spec_class_operator(s, next_offset(left), false);
    lemma_join(left, op, spec_parse_expression(s, next_offset(op)), s, i);
}

proof fn lemma_found_math(s: Seq<Element>, i: usize)
    requires
        s.len() <= usize::MAX,
    ensures
        found_within(spec_sum(s, i), s, i),
        found_within(spec_math(s, i), s, i),
        found_within(spec_compare_operand(s, i), s, i),
{
    lemma_found_product(s, i);
    let left = spec_sum_operand(s, i);
    let op = spec_class_operator(s, next_offset(left), true);
    lemma_found_product(s, next_offset(op));
    lemma_join(left, op, spec_sum_operand(s, next_offset(op)), s, i);
}

/// The shape that the binary parser finds uses only expression elements, in
/// order, within what it read.
pub proof fn lemma_found_binary(s: Seq<Element>, i: usize)
    requires
        s.len() <= usize::MAX,
    ensures
        found_within(spec_compare(s, i), s, i),
        found_within(spec_binary(s, i), s, i),
{
    lemma_found_math(s, i);
    lemma_found_product(s, i);
    let left = spec_compare_operand(s, i);
    let op = spec_compare_operator(s, next_offset(left));
    lemma_found_math(s, next_offset(op));
    lemma_found_product(s, next_offset(op));
    lemma_join(left, op, spec_compare_operand(s, next_offset(op)), s, i);
}

/// The indices a shape reads, in order: each leaf's expression, and between
/// the two sides of a node the operator right after its left side.
pub open spec fn reading(p: Shape) -> Seq<int>
    decreases p,
{
    match p {
        Shape::Leaf(k) => seq![k as int],
        Shape::Node(_, l, r) => reading(*l) + seq![shape_hi(*l) + 1] + reading(*r),
    }
}

/// Whether each node of a shape joins its sides with the operator element
/// that stands between them.
pub open spec fn ops_match(p: Shape, s: Seq<Element>) -> bool
    decreases p,
{
    match p {
        Shape::Leaf(_) => true,
        Shape::Node(t, l, r) => s[shape_hi(*l) + 1] == Element::Op(t) && ops_match(*l, s) && ops_match(*r, s),
    }
}

/// The indices from `i` up to `n`, in order.
pub open spec fn index_range(i: int, n: int) -> Seq<int> {
    Seq::new((n - i) as nat, |k: int| i + k)
}

/// A complete result whose shape reads exactly the elements from `i` up to
/// the offset after it, with each operator where it stands.
pub open spec fn reads_all(r: ParseResult<Shape>, s: Seq<Element>, i: usize) -> bool {
    r matches ParseResult::Complete(n, p) ==> {
        &&& i < n
        &&& reading(p) == index_range(i as int, n as int)
        &&& ops_match(p, s)
    }
}

proof fn lemma_reading_ends(p: Shape)
    ensures
        reading(p).len() > 0,
        reading(p)[0] == shape_lo(p),
        reading(p).last() == shape_hi(p),
    decreases p,
{
    if let Shape::Node(_, l, r) = p {
        lemma_reading_ends(*l);
        lemma_reading_ends(*r);
    }
}

proof fn lemma_join_reads(
    left: ParseResult<Shape>,
    op: ParseResult<BinaryExprType>,
    right: ParseResult<Shape>,
    s: Seq<Element>,
    i: usize,
)
    requires
        reads_all(left, s, i),
        op matches ParseResult::Complete(n, t) ==> n == next_offset(left) + 1 && s[next_offset(left) as int] == Element::Op(t),
        reads_all(right, s, next_offset(op)),
    ensures
        reads_all(join(left, op, right), s, i),
{
    if let (ParseResult::Complete(a, l), ParseResult::Complete(b, t), ParseResult::Complete(n, r)) = (left, op, right) {
        lemma_reading_ends(l);
        let rl = index_range(i as int, a as int);
        assert(reading(l).last() == rl.last());
        assert(reading(Shape::Node(t, Box::new(l), Box::new(r))) =~= index_range(i as int, n as int));
    }
}

proof fn lemma_either_reads(a: ParseResult<Shape>, b: ParseResult<Shape>, s: Seq<Element>, i: usize)
    requires
        reads_all(a, s, i),
        reads_all(b, s, i),
    ensures
        reads_all(either(a, b), s, i),
{
}

proof fn lemma_reads_product(s: Seq<Element>, i: usize)
    requires
        s.len() <= usize::MAX,
    ensures
        reads_all(spec_parse_expression(s, i), s, i),
        reads_all(spec_product(s, i), s, i),
        reads_all(spec_sum_operand(s, i), s, i),
{
    let left = spec_parse_expression(s, i);
    if let ParseResult::Complete(n, p) = left {
        assert(reading(p) =~= index_range(i as int, n as int));
    }
    let op = spec_class_operator(s, next_offset(left), false);
    let right = spec_parse_expression(s, next_offset(op));
    if let ParseResult::Complete(n, p) = right {
        assert(reading(p) =~= index_range(next_offset(op) as int, n as int));
    }
    lemma_join_reads(left, op, right, s, i);
}

proof fn lemma_reads_math(s: Seq<Element>, i: usize)
    requires
        s.len() <= usize::MAX,
    ensures
        reads_all(spec_sum(s, i), s, i),
        reads_all(spec_math(s, i), s, i),
        reads_all(spec_compare_operand(s, i), s, i),
{
    lemma_reads_product(s, i);
    let left = spec_sum_operand(s, i);
    let op = spec_class_operator(s, next_offset(left), true);
    lemma_reads_product(s, next_offset(op));
    lemma_join_reads(left, op, spec_sum_operand(s, next_offset(op)), s, i);
}

/// The precedence parser keeps what it consumes, in order: read in order, the
/// tree of a binary expression holds exactly the elements before the offset
/// it stops at, each expression once and each operator between the operands
/// it stood between.
pub proof fn law_binary_reads_in_order(s: Seq<Element>)
    requires
        s.len() <= usize::MAX,
    ensures
        spec_binary(s, 0) matches ParseResult::Complete(n, p) ==> {
            &&& reading(p) == index_range(0, n as int)
            &&& ops_match(p, s)
        },
{
    lemma_reads_math(s, 0);
    lemma_reads_product(s, 0);
    let left = spec_compare_operand(s, 0);
    let op = spec_compare_operator(s, next_offset(left));
    lemma_reads_math(s, next_offset(op));
    lemma_reads_product(s, next_offset(op));
    lemma_join_reads(left, op, spec_compare_operand(s, next_offset(op)), s, 0);
}

fn parse_expression(s: &Vec<Element>, i: usize) -> (r: ParseResult<Shape>)
    ensures
        r == spec_parse_expression(s@, i),
{
    if i >= s.len() {
        return ParseResult::Abort(ParseError::new(ParseErrorKind::ExpectedExpressionAtEnd, i));
    }
    match &s[i] {
        Element::Expr(_) => ParseResult::Complete(i + 1, Shape::Leaf(i)),
        Element::Op(_) => ParseResult::Fail(ParseError::new(ParseErrorKind::ExpectedExpression, i + 1)),
    }
}

fn parse_class_operator(s: &Vec<Element>, i: usize, sum: bool) -> (r: ParseResult<BinaryExprType>)
    ensures
        r == spec_class_operator(s@, i, sum),
{
    if i >= s.len() {
        return ParseResult::Fail(ParseError::new(ParseErrorKind::ExpectedExpressionAtEnd, i));
    }
    match &s[i] {
        Element::Op(op) => {
            let matched = match op {
                BinaryExprType::Add | BinaryExprType::Sub => sum,
                BinaryExprType::Mul | BinaryExprType::Div => !sum,
                _ => false,
            };
            if matched {
                ParseResult::Complete(i + 1, *op)
            } else {
                ParseResult::Fail(ParseError::new(ParseErrorKind::UnexpectedOperator, i + 1))
            }
        },
        Element::Expr(_) => ParseResult::Fail(ParseError::new(ParseErrorKind::UnexpectedOperator, i + 1)),
    }
}

fn parse_sum_operator(s: &Vec<Element>, i: usize) -> (r: ParseResult<BinaryExprType>)
    ensures
        r == spec_class_operator(s@, i, true),
{
    parse_class_operator(s, i, true)
}

fn parse_product_operator(s: &Vec<Element>, i: usize) -> (r: ParseResult<BinaryExprType>)
    ensures
        r == spec_class_operator(s@, i, false),
{
    parse_class_operator(s, i, false)
}

fn parse_compare_operator(s: &Vec<Element>, i: usize) -> (r: ParseResult<BinaryExprType>)
    ensures
        r == spec_compare_operator(s@, i),
{
    if i >= s.len() {
        return ParseResult::Fail(ParseError::new(ParseErrorKind::ExpectedExpressionAtEnd, i));
    }
    match &s[i] {
        Element::Op(op) => match op {
            BinaryExprType::Add | BinaryExprType::Sub | BinaryExprType::Mul | BinaryExprType::Div => {
                ParseResult::Fail(ParseError::new(ParseErrorKind::UnexpectedOperator, i))
            },
            _ => ParseResult::Complete(i + 1, *op),
        },
        Element::Expr(_) => ParseResult::Fail(ParseError::new(ParseErrorKind::UnexpectedOperator, i)),
    }
}

fn join_results(
    left: ParseResult<Shape>,
    op: ParseResult<BinaryExprType>,
    right: ParseResult<Shape>,
) -> (r: ParseResult<Shape>)
    ensures
        r == join(left, op, right),
{
    match left {
        ParseResult::Complete(_, l) => match op {
            ParseResult::Complete(_, t) => match right {
                ParseResult::Complete(m, r) => ParseResult::Complete(m, Shape::Node(t, Box::new(l), Box::new(r))),
                other => carry_over(other),
            },
            other => carry_over(other),
        },
        other => carry_over(other),
    }
}

fn offset_after<T>(r: &ParseResult<T>) -> (n: usize)
    ensures
        n == next_offset(*r),
{
    match r {
        ParseResult::Complete(n, _) => *n,
        _ => 0,
    }
}

fn product_expression(s: &Vec<Element>, i: usize) -> (r: ParseResult<Shape>)
    ensures
        r == spec_product(s@, i),
{
    let left = parse_expression(s, i);
    let op = parse_product_operator(s, offset_after(&left));
    let right = parse_expression(s, offset_after(&op));
    join_results(left, op, right)
}

fn sum_operand(s: &Vec<Element>, i: usize) -> (r: ParseResult<Shape>)
    ensures
        r == spec_sum_operand(s@, i),
{
    let first = product_expression(s, i);
    match first {
        ParseResult::Fail(_) => parse_expression(s, i),
        _ => first,
    }
}

fn sum_expression(s: &Vec<Element>, i: usize) -> (r: ParseResult<Shape>)
    ensures
        r == spec_sum(s@, i),
{
    let left = sum_operand(s, i);
    let op = parse_sum_operator(s, offset_after(&left));
    let right = sum_operand(s, offset_after(&op));
    join_results(left, op, right)
}

fn math_expression(s: &Vec<Element>, i: usize) -> (r: ParseResult<Shape>)
    ensures
        r == spec_math(s@, i),
{
    let first = sum_expression(s, i);
    match first {
        ParseResult::Fail(_) => product_expression(s, i),
        _ => first,
    }
}

fn compare_operand(s: &Vec<Element>, i: usize) -> (r: ParseResult<Shape>)
    ensures
        r == spec_compare_operand(s@, i),
{
    let first = math_expression(s, i);
    match first {
        ParseResult::Fail(_) => parse_expression(s, i),
        _ => first,
    }
}

fn compare_expression(s: &Vec<Element>, i: usize) -> (r: ParseResult<Shape>)
    ensures
        r == spec_compare(s@, i),
{
    let left = compare_operand(s, i);
    let op = parse_compare_operator(s, offset_after(&left));
    let right = compare_operand(s, offset_after(&op));
    join_results(left, op, right)
}

fn binary_shape(s: &Vec<Element>, i: usize) -> (r: ParseResult<Shape>)
    ensures
        r == spec_binary(s@, i),
{
    let first = compare_expression(s, i);
    match first {
        ParseResult::Fail(_) => {
            let second = math_expression(s, i);
            match second {
                ParseResult::Fail(_) => parse_expression(s, i),
                _ => second,
            }
        },
        _ => first,
    }
}

/// Joins two operands with an operator into a binary expression that sits at
/// the position of its left operand.
pub fn tuple_to_binary_expression(kind: BinaryExprType, left: Expression, right: Expression) -> (e: Expression)
    ensures
        e == Expression::Binary(BinaryOpDef {
            kind: kind,
            left: Box::new(left),
            right: Box::new(right),
            pos: left.position(),
        }),
{
    let pos = *left.pos();
    Expression::Binary(BinaryOpDef { kind: kind, left: Box::new(left), right: Box::new(right), pos: pos })
}

/// Builds the expression that a shape describes, moving its expressions out of
/// the element list; elements outside the shape's index range stay as they were.
fn build_shape(p: &Shape, s: &mut Vec<Element>) -> (e: Expression)
    requires
        shape_ok(*p, old(s)@),
    ensures
        e == shape_expr(*p, old(s)@),
        final(s)@.len() == old(s)@.len(),
        forall|k: int| 0 <= k < old(s)@.len() && (k < shape_lo(*p) || k > shape_hi(*p))
            ==> #[trigger] final(s)@[k] == old(s)@[k],
    decreases p,
{
    match p {
        Shape::Leaf(k) => {
            let mut taken = Element::Op(BinaryExprType::Add);
            std::mem::swap(&mut taken, &mut s[*k]);
            match taken {
                Element::Expr(e) => e,
                Element::Op(_) => {
                    proof {
                        assert(false);
                    }
                    Expression::Simple(crate::ast::Value::Empty(crate::ast::Position::new(0, 0, 0)))
                },
            }
        },
        Shape::Node(t, l, r) => {
            let ghost s0 = s@;
            proof {
                lemma_shape_bounds(**l, s0);
                lemma_shape_bounds(**r, s0);
            }
            let le = build_shape(l, s);
            proof {
                assert forall|k: int| shape_lo(**r) <= k <= shape_hi(**r) implies s@[k] == s0[k] by {}
                lemma_shape_ok_frame(**r, s0, s@);
                lemma_shape_expr_frame(**r, s0, s@);
            }
            let re = build_shape(r, s);
            tuple_to_binary_expression(*t, le, re)
        },
    }
}

/// A shape reads only the elements in its index range.
proof fn lemma_shape_ok_frame(p: Shape, s1: Seq<Element>, s2: Seq<Element>)
    requires
        shape_ok(p, s1),
        s1.len() == s2.len(),
        forall|k: int| shape_lo(p) <= k <= shape_hi(p) ==> s1[k] == s2[k],
    ensures
        shape_ok(p, s2),
    decreases p,
{
    if let Shape::Node(_, l, r) = p {
        lemma_shape_bounds(*l, s1);
        lemma_shape_bounds(*r, s1);
        lemma_shape_ok_frame(*l, s1, s2);
        lemma_shape_ok_frame(*r, s1, s2);
    }
}

proof fn lemma_shape_expr_frame(p: Shape, s1: Seq<Element>, s2: Seq<Element>)
    requires
        shape_ok(p, s1),
        s1.len() == s2.len(),
        forall|k: int| shape_lo(p) <= k <= shape_hi(p) ==> s1[k] == s2[k],
    ensures
        shape_expr(p, s2) == shape_expr(p, s1),
    decreases p,
{
    if let Shape::Node(_, l, r) = p {
        lemma_shape_bounds(*l, s1);
        lemma_shape_bounds(*r, s1);
        lemma_shape_expr_frame(*l, s1, s2);
        lemma_shape_expr_frame(*r, s1, s2);
    }
}

/// The operator a token stands for: a punctuation token that reads `+`, `-`,
/// `*` or `/`, or one of the comparisons `==`, `!=`, `<=`, `>=`, `<`, `>`.
pub open spec fn spec_op_of(tok: Token) -> Option<BinaryExprType> {
    if tok.typ != TokenType::PUNCT {
        None
    } else if tok.fragment@ == "+"@ {
        Some(BinaryExprType::Add)
    } else if tok.fragment@ == "-"@ {
        Some(BinaryExprType::Sub)
    } else if tok.fragment@ == "*"@ {
        Some(BinaryExprType::Mul)
    } else if tok.fragment@ == "/"@ {
        Some(BinaryExprType::Div)
    } else if tok.fragment@ == "=="@ {
        Some(BinaryExprType::Equal)
    } else if tok.fragment@ == "!="@ {
        Some(BinaryExprType::NotEqual)
    } else if tok.fragment@ == "<="@ {
        Some(BinaryExprType::LTEqual)
    } else if tok.fragment@ == ">="@ {
        Some(BinaryExprType::GTEqual)
    } else if tok.fragment@ == "<"@ {
        Some(BinaryExprType::LT)
    } else if tok.fragment@ == ">"@ {
        Some(BinaryExprType::GT)
    } else {
        None
    }
}

/// An operator token at `p`: past the end the input is incomplete, a token
/// that is no operator fails there.
pub open spec fn spec_op_type(toks: Seq<Token>, p: usize) -> ParseResult<Element> {
    if p >= toks.len() {
        ParseResult::Incomplete(p)
    } else {
        match spec_op_of(toks[p as int]) {
            Some(op) => ParseResult::Complete((p + 1) as usize, Element::Op(op)),
            None => ParseResult::Fail(ParseError::at(ParseErrorKind::ExpectedOperator, p)),
        }
    }
}

fn fragment_is(tok: &Token, text: &str) -> (r: bool)
    ensures
        r == (tok.fragment@ == text@),
{
    let t = text.to_owned();
    tok.fragment == t
}

/// Parses the operator token at `p`, one of the arithmetic operators or the
/// comparisons.
pub fn op_type(toks: &Vec<Token>, p: usize) -> (r: ParseResult<Element>)
    ensures
        r == spec_op_type(toks@, p),
{
    if p >= toks.len() {
        return ParseResult::Incomplete(p);
    }
    let tok = &toks[p];
    let op = if tok.typ != TokenType::PUNCT {
        None
    } else if fragment_is(tok, "+") {
        Some(BinaryExprType::Add)
    } else if fragment_is(tok, "-") {
        Some(BinaryExprType::Sub)
    } else if fragment_is(tok, "*") {
        Some(BinaryExprType::Mul)
    } else if fragment_is(tok, "/") {
        Some(BinaryExprType::Div)
    } else if fragment_is(tok, "==") {
        Some(BinaryExprType::Equal)
    } else if fragment_is(tok, "!=") {
        Some(BinaryExprType::NotEqual)
    } else if fragment_is(tok, "<=") {
        Some(BinaryExprType::LTEqual)
    } else if fragment_is(tok, ">=") {
        Some(BinaryExprType::GTEqual)
    } else if fragment_is(tok, "<") {
        Some(BinaryExprType::LT)
    } else if fragment_is(tok, ">") {
        Some(BinaryExprType::GT)
    } else {
        None
    };
    match op {
        Some(o) => ParseResult::Complete(p + 1, Element::Op(o)),
        None => ParseResult::Fail(ParseError::new(ParseErrorKind::ExpectedOperator, p)),
    }
}

/// A list of elements that alternates expressions and operators, starting
/// and ending with an expression, with at least one operator.
pub open spec fn alternates(list: Seq<Element>) -> bool {
    &&& list.len() >= 3
    &&& list.len() % 2 == 1
    &&& forall|k: int| 0 <= k < list.len() ==> (#[trigger] list[k] is Expr <==> k % 2 == 0)
}

/// What the operand parser gives at offset `p`, for a parser that gives one
/// result at each offset.
pub open spec fn operand_at<F: Fn(usize) -> ParseResult<Expression>>(operand: F, p: usize) -> ParseResult<Expression> {
    choose|r: ParseResult<Expression>| operand.ensures((p,), r)
}

/// Whether an operand parser gives at most one result at each offset.
pub open spec fn deterministic<F: Fn(usize) -> ParseResult<Expression>>(operand: F) -> bool {
    forall|p: usize, a: ParseResult<Expression>, b: ParseResult<Expression>|
        #[trigger] operand.ensures((p,), a) && #[trigger] operand.ensures((p,), b) ==> a == b
}

/// The operand list from offset `p` on, after the elements `list` were read:
/// an operand, then an operator and the rest, or the end of the list where
/// no operator follows an operand that is not the first. An operand that
/// fails, aborts or is incomplete ends the list with its result, and so does
/// a missing first operator.
pub open spec fn spec_operand_list<F: Fn(usize) -> ParseResult<Expression>>(
    toks: Seq<Token>,
    p: usize,
    operand: F,
    list: Seq<Element>,
    first: bool,
) -> ParseResult<Seq<Element>>
    decreases toks.len() - p,
{
    match operand_at(operand, p) {
        ParseResult::Fail(e) => ParseResult::Fail(e),
        ParseResult::Abort(e) => ParseResult::Abort(e),
        ParseResult::Incomplete(k) => ParseResult::Incomplete(k),
        ParseResult::Complete(n, expr) => {
            let with_expr = list.push(Element::Expr(expr));
            match spec_op_type(toks, n) {
                ParseResult::Fail(e) => if first {
                    ParseResult::Fail(e)
                } else {
                    ParseResult::Complete(n, with_expr)
                },
                ParseResult::Abort(e) => ParseResult::Abort(e),
                ParseResult::Incomplete(k) => ParseResult::Incomplete(k),
                ParseResult::Complete(m, el) => if p < m && m <= toks.len() {
                    spec_operand_list(toks, m, operand, with_expr.push(el), false)
                } else {
                    ParseResult::Incomplete(m)
                },
            }
        },
    }
}

/// Parse a list of expressions separated by operators into a list of elements.
///
/// `operand` parses the expression at an offset of the tokens; each
/// expression must be followed by an operator token, except the last one of a
/// list of at least two. An operand that fails, aborts or is incomplete ends
/// the list with its result, and so does a missing first operator.
pub fn parse_operand_list<F>(toks: &Vec<Token>, i: usize, operand: F) -> (r: ParseResult<Vec<Element>>)
    where
        F: Fn(usize) -> ParseResult<Expression>,
    requires
        i <= toks@.len(),
        forall|p: usize| #[trigger] operand.requires((p,)),
        forall|p: usize, res: ParseResult<Expression>| #[trigger] operand.ensures((p,), res)
            ==> (res matches ParseResult::Complete(n, _) ==> p < n <= toks@.len()),
    ensures
        deterministic(operand) ==> match spec_operand_list(toks@, i, operand, Seq::empty(), true) {
            ParseResult::Complete(n, l) => r matches ParseResult::Complete(m, v) && m == n && v@ == l,
            ParseResult::Incomplete(k) => r == ParseResult::<Vec<Element>>::Incomplete(k),
            ParseResult::Fail(e) => r == ParseResult::<Vec<Element>>::Fail(e),
            ParseResult::Abort(e) => r == ParseResult::<Vec<Element>>::Abort(e),
        },
        r matches ParseResult::Complete(n, list) ==> {
            &&& i < n <= toks@.len()
            &&& alternates(list@)
            &&& forall|k: int| 0 <= k < list@.len() && #[trigger] list@[k] is Op
                ==> exists|p: int| i <= p < n && spec_op_of(toks@[p]) == Some(list@[k]->Op_0)
        },
{
    let mut list: Vec<Element> = Vec::new();
    let mut p: usize = i;
    let mut firstrun = true;
    let len = toks.len();
    loop
        invariant_except_break
            len == toks@.len(),
            i <= p <= toks@.len(),
            firstrun ==> p == i && list@.len() == 0,
            !firstrun ==> list@.len() >= 2 && i < p,
            list@.len() % 2 == 0,
            forall|k: int| 0 <= k < list@.len() ==> (#[trigger] list@[k] is Expr <==> k % 2 == 0),
            forall|k: int| 0 <= k < list@.len() && #[trigger] list@[k] is Op
                ==> exists|q: int| i <= q < p && spec_op_of(toks@[q]) == Some(list@[k]->Op_0),
            forall|q: usize| #[trigger] operand.requires((q,)),
            forall|q: usize, res: ParseResult<Expression>| #[trigger] operand.ensures((q,), res)
                ==> (res matches ParseResult::Complete(n, _) ==> q < n <= toks@.len()),
            deterministic(operand) ==> spec_operand_list(toks@, i, operand, Seq::empty(), true)
                == spec_operand_list(toks@, p, operand, list@, firstrun),
        ensures
            deterministic(operand) ==> spec_operand_list(toks@, i, operand, Seq::empty(), true)
                == ParseResult::Complete(p, list@),
            i < p <= toks@.len(),
            alternates(list@),
            forall|k: int| 0 <= k < list@.len() && #[trigger] list@[k] is Op
                ==> exists|q: int| i <= q < p && spec_op_of(toks@[q]) == Some(list@[k]->Op_0),
        decreases toks@.len() - p,
    {
        let ghost at = p;
        let ghost before = list@;
        let res = operand(p);
        proof {
            assert(operand.ensures((at,), res));
            if deterministic(operand) {
                assert(operand_at(operand, at) == res);
            }
        }
        match res {
            ParseResult::Fail(e) => {
                return ParseResult::Fail(e);
            },
            ParseResult::Abort(e) => {
                return ParseResult::Abort(e);
            },
            ParseResult::Incomplete(k) => {
                return ParseResult::Incomplete(k);
            },
            ParseResult::Complete(n, expr) => {
                list.push(Element::Expr(expr));
                p = n;
            },
        }
        let ghost mid = list@;
        assert forall|k: int| 0 <= k < mid.len() && #[trigger] mid[k] is Op
            implies exists|q: int| i <= q < p && spec_op_of(toks@[q]) == Some(mid[k]->Op_0) by {
            assert(mid[k] == list@[k]);
        }
        match op_type(toks, p) {
            ParseResult::Fail(e) => {
                if firstrun {
                    return ParseResult::Fail(e);
                }
                break;
            },
            ParseResult::Abort(e) => {
                return ParseResult::Abort(e);
            },
            ParseResult::Incomplete(k) => {
                return ParseResult::Incomplete(k);
            },
            ParseResult::Complete(n, el) => {
                let ghost at_op = p;
                list.push(el);
                p = n;
                assert(spec_op_of(toks@[at_op as int]) == Some(list@[list@.len() - 1]->Op_0));
            },
        }
        firstrun = false;
    }
    ParseResult::Complete(p, list)
}

/// The binary expression found at the start of a list of elements.
pub open spec fn spec_binary_expression(s: Seq<Element>) -> ParseResult<Expression> {
    match spec_binary(s, 0) {
        ParseResult::Complete(n, p) => ParseResult::Complete(n, shape_expr(p, s)),
        other => carry(other),
    }
}

/// Parses the binary expression at the start of a list of elements.
///
/// A comparison is tried first, then a sum, then a product, then a single
/// expression. Each joins exactly two operands; elements after the first match
/// are not read.
pub fn binary_expression(s: Vec<Element>) -> (r: ParseResult<Expression>)
    ensures
        r == spec_binary_expression(s@),
{
    let mut s = s;
    let ghost s0 = s@;
    let count = s.len();
    let shape = binary_shape(&s, 0);
    match shape {
        ParseResult::Complete(n, p) => {
            proof {
                assert(s0.len() == count);
                lemma_found_binary(s0, 0);
            }
            let e = build_shape(&p, &mut s);
            ParseResult::Complete(n, e)
        },
        other => carry_over(other),
    }
}

/// An operator expression: the binary expression over the operand list that
/// was parsed from offset `i`, where `preparse` is that parse.
pub open spec fn spec_op_expression(i: usize, preparse: ParseResult<Vec<Element>>) -> ParseResult<Expression> {
    match preparse {
        ParseResult::Fail(e) => ParseResult::Fail(
            ParseError { kind: ParseErrorKind::OperatorExpression, offset: i, cause: Some(Box::new(e)) },
        ),
        ParseResult::Abort(e) => ParseResult::Fail(
            ParseError { kind: ParseErrorKind::OperatorExpression, offset: i, cause: Some(Box::new(e)) },
        ),
        ParseResult::Incomplete(n) => ParseResult::Incomplete(n),
        ParseResult::Complete(rest, oplist) => match spec_binary_expression(oplist@) {
            ParseResult::Fail(_) => ParseResult::Fail(ParseError::at(ParseErrorKind::OperatorExpression, rest)),
            ParseResult::Abort(_) => ParseResult::Abort(ParseError::at(ParseErrorKind::OperatorExpression, rest)),
            ParseResult::Incomplete(_) => ParseResult::Incomplete(i),
            ParseResult::Complete(_, e) => ParseResult::Complete(rest, e),
        },
    }
}

/// Parse a binary operator expression from the operand list that was parsed at
/// offset `i` of the input.
///
/// A failed operand list fails the expression with the list's error as cause;
/// an operand list that holds no binary expression fails or aborts at the
/// offset after the list.
pub fn op_expression(i: usize, preparse: ParseResult<Vec<Element>>) -> (r: ParseResult<Expression>)
    ensures
        r == spec_op_expression(i, preparse),
{
    match preparse {
        ParseResult::Fail(e) => ParseResult::Fail(
            ParseError::caused_by(ParseErrorKind::OperatorExpression, e, i),
        ),
        ParseResult::Abort(e) => ParseResult::Fail(
            ParseError::caused_by(ParseErrorKind::OperatorExpression, e, i),
        ),
        ParseResult::Incomplete(n) => ParseResult::Incomplete(n),
        ParseResult::Complete(rest, oplist) => {
            let parse_result = binary_expression(oplist);
            match parse_result {
                ParseResult::Fail(_) => ParseResult::Fail(
                    ParseError::new(ParseErrorKind::OperatorExpression, rest),
                ),
                ParseResult::Abort(_) => ParseResult::Abort(
                    ParseError::new(ParseErrorKind::OperatorExpression, rest),
                ),
                ParseResult::Incomplete(_) => ParseResult::Incomplete(i),
                ParseResult::Complete(_, expr) => ParseResult::Complete(rest, expr),
            }
        },
    }
}

/// A product binds tighter than a sum: `a + b * c` is `a + (b * c)`.
pub proof fn law_product_binds_tighter_on_the_right(
    a: Expression,
    b: Expression,
    c: Expression,
    sum_op: BinaryExprType,
    product_op: BinaryExprType,
)
    requires
        is_sum_op(sum_op),
        is_product_op(product_op),
    ensures
        spec_binary_expression(seq![Element::Expr(a), Element::Op(sum_op), Element::Expr(b), Element::Op(product_op), Element::Expr(c)])
            == ParseResult::Complete(5, Expression::Binary(BinaryOpDef {
                kind: sum_op,
                left: Box::new(a),
                right: Box::new(Expression::Binary(BinaryOpDef {
                    kind: product_op,
                    left: Box::new(b),
                    right: Box::new(c),
                    pos: b.position(),
                })),
                pos: a.position(),
            })),
{
    let s = seq![Element::Expr(a), Element::Op(sum_op), Element::Expr(b), Element::Op(product_op), Element::Expr(c)];
    assert(s[0] == Element::Expr(a));
    assert(s[1] == Element::Op(sum_op));
    assert(s[2] == Element::Expr(b));
    assert(s[3] == Element::Op(product_op));
    assert(s[4] == Element::Expr(c));
    assert(spec_product(s, 0) is Fail);
    assert(spec_sum_operand(s, 0) == ParseResult::Complete(1usize, Shape::Leaf(0)));
    assert(spec_class_operator(s, 1, true) == ParseResult::Complete(2usize, sum_op));
    let inner = Shape::Node(product_op, Box::new(Shape::Leaf(2)), Box::new(Shape::Leaf(4)));
    assert(spec_product(s, 2) == ParseResult::Complete(5usize, inner));
    assert(spec_sum_operand(s, 2) == ParseResult::Complete(5usize, inner));
    let whole = Shape::Node(sum_op, Box::new(Shape::Leaf(0)), Box::new(inner));
    assert(spec_sum(s, 0) == ParseResult::Complete(5usize, whole));
    assert(spec_math(s, 0) == ParseResult::Complete(5usize, whole));
    assert(spec_compare_operand(s, 0) == ParseResult::Complete(5usize, whole));
    assert(spec_compare(s, 0) is Fail);
    assert(spec_binary(s, 0) == ParseResult::Complete(5usize, whole));
    assert(shape_expr(Shape::Leaf(0), s) == a);
    assert(shape_expr(Shape::Leaf(2), s) == b);
    assert(shape_expr(Shape::Leaf(4), s) == c);
    let inner_e = Expression::Binary(BinaryOpDef {
        kind: product_op,
        left: Box::new(b),
        right: Box::new(c),
        pos: b.position(),
    });
    assert(shape_expr(inner, s) == inner_e);
}

/// A product binds tighter than a sum: `a * b + c` is `(a * b) + c`.
pub proof fn law_product_binds_tighter_on_the_left(
    a: Expression,
    b: Expression,
    c: Expression,
    product_op: BinaryExprType,
    sum_op: BinaryExprType,
)
    requires
        is_sum_op(sum_op),
        is_product_op(product_op),
    ensures
        spec_binary_expression(seq![Element::Expr(a), Element::Op(product_op), Element::Expr(b), Element::Op(sum_op), Element::Expr(c)])
            == ParseResult::Complete(5, Expression::Binary(BinaryOpDef {
                kind: sum_op,
                left: Box::new(Expression::Binary(BinaryOpDef {
                    kind: product_op,
                    left: Box::new(a),
                    right: Box::new(b),
                    pos: a.position(),
                })),
                right: Box::new(c),
                pos: a.position(),
            })),
{
    let s = seq![Element::Expr(a), Element::Op(product_op), Element::Expr(b), Element::Op(sum_op), Element::Expr(c)];
    assert(s[0] == Element::Expr(a));
    assert(s[1] == Element::Op(product_op));
    assert(s[2] == Element::Expr(b));
    assert(s[3] == Element::Op(sum_op));
    assert(s[4] == Element::Expr(c));
    let prod = Shape::Node(product_op, Box::new(Shape::Leaf(0)), Box::new(Shape::Leaf(2)));
    assert(spec_product(s, 0) == ParseResult::Complete(3usize, prod));
    assert(spec_sum_operand(s, 0) == ParseResult::Complete(3usize, prod));
    assert(spec_class_operator(s, 3, true) == ParseResult::Complete(4usize, sum_op));
    assert(spec_product(s, 4) is Fail);
    assert(spec_sum_operand(s, 4) == ParseResult::Complete(5usize, Shape::Leaf(4)));
    let whole = Shape::Node(sum_op, Box::new(prod), Box::new(Shape::Leaf(4)));
    assert(spec_sum(s, 0) == ParseResult::Complete(5usize, whole));
    assert(spec_math(s, 0) == ParseResult::Complete(5usize, whole));
    assert(spec_compare_operand(s, 0) == ParseResult::Complete(5usize, whole));
    assert(spec_compare(s, 0) is Fail);
    assert(spec_binary(s, 0) == ParseResult::Complete(5usize, whole));
    let inner = Expression::Binary(BinaryOpDef {
        kind: product_op,
        left: Box::new(a),
        right: Box::new(b),
        pos: a.position(),
    });
    assert(shape_expr(Shape::Leaf(0), s) == a);
    assert(shape_expr(Shape::Leaf(2), s) == b);
    assert(shape_expr(Shape::Leaf(4), s) == c);
    assert(shape_expr(prod, s) == inner);
    assert(inner.position() == a.position());
}

/// A comparison binds loosest: `a == b + c` compares `a` with `b + c`.
pub proof fn law_comparison_binds_loosest(
    a: Expression,
    b: Expression,
    c: Expression,
    compare_op: BinaryExprType,
    sum_op: BinaryExprType,
)
    requires
        is_compare_op(compare_op),
        is_sum_op(sum_op),
    ensures
        spec_binary_expression(seq![Element::Expr(a), Element::Op(compare_op), Element::Expr(b), Element::Op(sum_op), Element::Expr(c)])
            == ParseResult::Complete(5, Expression::Binary(BinaryOpDef {
                kind: compare_op,
                left: Box::new(a),
                right: Box::new(Expression::Binary(BinaryOpDef {
                    kind: sum_op,
                    left: Box::new(b),
                    right: Box::new(c),
                    pos: b.position(),
                })),
                pos: a.position(),
            })),
{
    let s = seq![Element::Expr(a), Element::Op(compare_op), Element::Expr(b), Element::Op(sum_op), Element::Expr(c)];
    assert(s[0] == Element::Expr(a));
    assert(s[1] == Element::Op(compare_op));
    assert(s[2] == Element::Expr(b));
    assert(s[3] == Element::Op(sum_op));
    assert(s[4] == Element::Expr(c));
    assert(spec_product(s, 0) is Fail);
    assert(spec_sum_operand(s, 0) == ParseResult::Complete(1usize, Shape::Leaf(0)));
    assert(spec_class_operator(s, 1, true) is Fail);
    assert(spec_sum(s, 0) is Fail);
    assert(spec_math(s, 0) is Fail);
    assert(spec_compare_operand(s, 0) == ParseResult::Complete(1usize, Shape::Leaf(0)));
    assert(spec_compare_operator(s, 1) == ParseResult::Complete(2usize, compare_op));
    assert(spec_product(s, 2) is Fail);
    assert(spec_sum_operand(s, 2) == ParseResult::Complete(3usize, Shape::Leaf(2)));
    assert(spec_class_operator(s, 3, true) == ParseResult::Complete(4usize, sum_op));
    assert(spec_product(s, 4) is Fail);
    assert(spec_sum_operand(s, 4) == ParseResult::Complete(5usize, Shape::Leaf(4)));
    let sum = Shape::Node(sum_op, Box::new(Shape::Leaf(2)), Box::new(Shape::Leaf(4)));
    assert(spec_sum(s, 2) == ParseResult::Complete(5usize, sum));
    assert(spec_math(s, 2) == ParseResult::Complete(5usize, sum));
    assert(spec_compare_operand(s, 2) == ParseResult::Complete(5usize, sum));
    let whole = Shape::Node(compare_op, Box::new(Shape::Leaf(0)), Box::new(sum));
    assert(spec_compare(s, 0) == ParseResult::Complete(5usize, whole));
    assert(spec_binary(s, 0) == ParseResult::Complete(5usize, whole));
    assert(shape_expr(Shape::Leaf(0), s) == a);
    assert(shape_expr(Shape::Leaf(2), s) == b);
    assert(shape_expr(Shape::Leaf(4), s) == c);
    let sum_e = Expression::Binary(BinaryOpDef {
        kind: sum_op,
        left: Box::new(b),
        right: Box::new(c),
        pos: b.position(),
    });
    assert(shape_expr(sum, s) == sum_e);
}

/// The operators fall into three classes: `*` and `/` are products, `+` and
/// `-` sums, and `==`, `!=`, `<`, `>`, `<=`, `>=` comparisons; no operator is
/// in two classes.
pub proof fn law_operator_classes(op: BinaryExprType)
    ensures
        is_product_op(op) <==> (op == BinaryExprType::Mul || op == BinaryExprType::Div),
        is_sum_op(op) <==> (op == BinaryExprType::Add || op == BinaryExprType::Sub),
        is_compare_op(op) <==> !(op == BinaryExprType::Mul || op == BinaryExprType::Div || op == BinaryExprType::Add
            || op == BinaryExprType::Sub),
{
}

/// A comparison binds looser than the arithmetic on its left: `a * b == c`
/// and `a + b == c` compare `a * b` and `a + b` with `c`, using all five elements.
pub proof fn law_comparison_binds_loosest_on_the_left(
    a: Expression,
    b: Expression,
    c: Expression,
    arith_op: BinaryExprType,
    compare_op: BinaryExprType,
)
    requires
        is_sum_op(arith_op) || is_product_op(arith_op),
        is_compare_op(compare_op),
    ensures
        spec_binary_expression(seq![Element::Expr(a), Element::Op(arith_op), Element::Expr(b), Element::Op(compare_op), Element::Expr(c)])
            == ParseResult::Complete(5, Expression::Binary(BinaryOpDef {
                kind: compare_op,
                left: Box::new(Expression::Binary(BinaryOpDef {
                    kind: arith_op,
                    left: Box::new(a),
                    right: Box::new(b),
                    pos: a.position(),
                })),
                right: Box::new(c),
                pos: a.position(),
            })),
{
    let s = seq![Element::Expr(a), Element::Op(arith_op), Element::Expr(b), Element::Op(compare_op), Element::Expr(c)];
    assert(s[0] == Element::Expr(a));
    assert(s[1] == Element::Op(arith_op));
    assert(s[2] == Element::Expr(b));
    assert(s[3] == Element::Op(compare_op));
    assert(s[4] == Element::Expr(c));
    let inner = Shape::Node(arith_op, Box::new(Shape::Leaf(0)), Box::new(Shape::Leaf(2)));
    if is_product_op(arith_op) {
        assert(spec_product(s, 0) == ParseResult::Complete(3usize, inner));
        assert(spec_sum_operand(s, 0) == ParseResult::Complete(3usize, inner));
        assert(spec_class_operator(s, 3, true) is Fail);
        assert(spec_sum(s, 0) is Fail);
        assert(spec_math(s, 0) == ParseResult::Complete(3usize, inner));
    } else {
        assert(spec_product(s, 0) is Fail);
        assert(spec_sum_operand(s, 0) == ParseResult::Complete(1usize, Shape::Leaf(0)));
        assert(spec_class_operator(s, 1, true) == ParseResult::Complete(2usize, arith_op));
        assert(spec_product(s, 2) is Fail);
        assert(spec_sum_operand(s, 2) == ParseResult::Complete(3usize, Shape::Leaf(2)));
        assert(spec_sum(s, 0) == ParseResult::Complete(3usize, inner));
        assert(spec_math(s, 0) == ParseResult::Complete(3usize, inner));
    }
    assert(spec_compare_operand(s, 0) == ParseResult::Complete(3usize, inner));
    assert(spec_compare_operator(s, 3) == ParseResult::Complete(4usize, compare_op));
    assert(spec_product(s, 4) is Fail);
    assert(spec_sum_operand(s, 4) == ParseResult::Complete(5usize, Shape::Leaf(4)));
    assert(spec_sum(s, 4) is Fail);
    assert(spec_math(s, 4) is Fail);
    assert(spec_compare_operand(s, 4) == ParseResult::Complete(5usize, Shape::Leaf(4)));
    let whole = Shape::Node(compare_op, Box::new(inner), Box::new(Shape::Leaf(4)));
    assert(spec_compare(s, 0) == ParseResult::Complete(5usize, whole));
    assert(spec_binary(s, 0) == ParseResult::Complete(5usize, whole));
    assert(shape_expr(Shape::Leaf(0), s) == a);
    assert(shape_expr(Shape::Leaf(2), s) == b);
    assert(shape_expr(Shape::Leaf(4), s) == c);
    let inner_e = Expression::Binary(BinaryOpDef {
        kind: arith_op,
        left: Box::new(a),
        right: Box::new(b),
        pos: a.position(),
    });
    assert(shape_expr(inner, s) == inner_e);
    assert(inner_e.position() == a.position());
}

/// A comparison binds looser than a product on its right: `a == b * c`
/// compares `a` with `b * c`.
pub proof fn law_comparison_binds_loosest_over_products(
    a: Expression,
    b: Expression,
    c: Expression,
    compare_op: BinaryExprType,
    product_op: BinaryExprType,
)
    requires
        is_compare_op(compare_op),
        is_product_op(product_op),
    ensures
        spec_binary_expression(seq![Element::Expr(a), Element::Op(compare_op), Element::Expr(b), Element::Op(product_op), Element::Expr(c)])
            == ParseResult::Complete(5, Expression::Binary(BinaryOpDef {
                kind: compare_op,
                left: Box::new(a),
                right: Box::new(Expression::Binary(BinaryOpDef {
                    kind: product_op,
                    left: Box::new(b),
                    right: Box::new(c),
                    pos: b.position(),
                })),
                pos: a.position(),
            })),
{
    let s = seq![Element::Expr(a), Element::Op(compare_op), Element::Expr(b), Element::Op(product_op), Element::Expr(c)];
    assert(s[0] == Element::Expr(a));
    assert(s[1] == Element::Op(compare_op));
    assert(s[2] == Element::Expr(b));
    assert(s[3] == Element::Op(product_op));
    assert(s[4] == Element::Expr(c));
    assert(spec_product(s, 0) is Fail);
    assert(spec_sum_operand(s, 0) == ParseResult::Complete(1usize, Shape::Leaf(0)));
    assert(spec_class_operator(s, 1, true) is Fail);
    assert(spec_sum(s, 0) is Fail);
    assert(spec_math(s, 0) is Fail);
    assert(spec_compare_operand(s, 0) == ParseResult::Complete(1usize, Shape::Leaf(0)));
    assert(spec_compare_operator(s, 1) == ParseResult::Complete(2usize, compare_op));
    let prod = Shape::Node(product_op, Box::new(Shape::Leaf(2)), Box::new(Shape::Leaf(4)));
    assert(spec_product(s, 2) == ParseResult::Complete(5usize, prod));
    assert(spec_sum_operand(s, 2) == ParseResult::Complete(5usize, prod));
    assert(spec_class_operator(s, 5, true) is Fail);
    assert(spec_sum(s, 2) is Fail);
    assert(spec_math(s, 2) == ParseResult::Complete(5usize, prod));
    assert(spec_compare_operand(s, 2) == ParseResult::Complete(5usize, prod));
    let whole = Shape::Node(compare_op, Box::new(Shape::Leaf(0)), Box::new(prod));
    assert(spec_compare(s, 0) == ParseResult::Complete(5usize, whole));
    assert(spec_binary(s, 0) == ParseResult::Complete(5usize, whole));
    assert(shape_expr(Shape::Leaf(0), s) == a);
    assert(shape_expr(Shape::Leaf(2), s) == b);
    assert(shape_expr(Shape::Leaf(4), s) == c);
    let prod_e = Expression::Binary(BinaryOpDef {
        kind: product_op,
        left: Box::new(b),
        right: Box::new(c),
        pos: b.position(),
    });
    assert(shape_expr(prod, s) == prod_e);
}

/// A binary expression found in a list of elements sits at the position of its
/// leftmost operand, and consumes at least that operand.
pub proof fn law_binary_position_is_leftmost(s: Seq<Element>)
    requires
        s.len() <= usize::MAX,
    ensures
        spec_binary(s, 0) matches ParseResult::Complete(n, p) ==> {
            &&& 1 <= n <= s.len()
            &&& shape_expr(p, s).position() == shape_expr(leftmost(p), s).position()
            &&& leftmost(p) == Shape::Leaf(shape_lo(p) as usize)
        },
{
    lemma_found_binary(s, 0);
    if let ParseResult::Complete(n, p) = spec_binary(s, 0) {
        lemma_leftmost(p, s);
    }
}

/// The leftmost leaf of a shape.
pub open spec fn leftmost(p: Shape) -> Shape
    decreases p,
{
    match p {
        Shape::Leaf(k) => Shape::Leaf(k),
        Shape::Node(_, l, _) => leftmost(*l),
    }
}

proof fn lemma_leftmost(p: Shape, s: Seq<Element>)
    ensures
        shape_expr(p, s).position() == shape_expr(leftmost(p), s).position(),
        leftmost(p) == Shape::Leaf(shape_lo(p) as usize),
    decreases p,
{
    match p {
        Shape::Leaf(k) => {},
        Shape::Node(t, l, r) => {
            lemma_leftmost(*l, s);
        },
    }
}

} // verus!
