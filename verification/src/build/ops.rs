//! The binary operators of ucg on values: arithmetic and comparison.
use vstd::prelude::*;
use std::rc::Rc;

use crate::ast::{BinaryExprType, Position};
use crate::error::{BuildError, ErrorType, concat3, concat5};
use super::ir::{Val, eq_failure, val_equal, val_typ_name};
use super::Builder;

verus! {

/// Whether `l + r`, `l - r`, `l * r` or `l / r` leaves the range of a 64 bit integer
/// or divides by zero, for the operator given by its first character.
pub open spec fn int_op_defined(op: char, l: i64, r: i64) -> bool {
    if op == '+' {
        i64::MIN <= l + r <= i64::MAX
    } else if op == '-' {
        i64::MIN <= l - r <= i64::MAX
    } else if op == '*' {
        i64::MIN <= l * r <= i64::MAX
    } else {
        r != 0 && !(l == i64::MIN && r == -1)
    }
}

/// Whether integer arithmetic on two values stays defined: only a pair of
/// integers can leave the range.
pub open spec fn arith_defined(op: char, left: Val, right: Val) -> bool {
    match (left, right) {
        (Val::Int(l), Val::Int(r)) => int_op_defined(op, l, r),
        _ => true,
    }
}

/// Whether both operands are floats: float arithmetic and float comparison are
/// done outside this library.
pub open spec fn both_floats(left: Val, right: Val) -> bool {
    left is Float && right is Float
}

/// The quotient of integer division, rounded toward zero.
pub open spec fn int_div(l: i64, r: i64) -> int {
    let x = l as int;
    let d = r as int;
    if x == 0 {
        0
    } else if x > 0 && d > 0 {
        x / d
    } else if x < 0 && d < 0 {
        (x * -1) / (d * -1)
    } else if x < 0 {
        ((x * -1) / d) * -1
    } else {
        (x / (d * -1)) * -1
    }
}

proof fn lemma_int_div_range(l: i64, r: i64)
    requires
        r != 0,
        !(l == i64::MIN && r == -1),
    ensures
        i64::MIN <= int_div(l, r) <= i64::MAX,
{
    let x = l as int;
    let d = r as int;
    if x > 0 && d > 0 {
        vstd::arithmetic::div_mod::lemma_div_pos_is_pos(x, d);
        vstd::arithmetic::div_mod::lemma_div_nonincreasing(x, d);
    } else if x < 0 && d < 0 {
        vstd::arithmetic::div_mod::lemma_div_pos_is_pos(x * -1, d * -1);
        vstd::arithmetic::div_mod::lemma_div_nonincreasing(x * -1, d * -1);
        if d * -1 > 1 {
            vstd::arithmetic::div_mod::lemma_div_decreases(x * -1, d * -1);
        }
    } else if x < 0 {
        vstd::arithmetic::div_mod::lemma_div_pos_is_pos(x * -1, d);
        vstd::arithmetic::div_mod::lemma_div_nonincreasing(x * -1, d);
    } else if x > 0 {
        vstd::arithmetic::div_mod::lemma_div_pos_is_pos(x, d * -1);
        vstd::arithmetic::div_mod::lemma_div_nonincreasing(x, d * -1);
    }
}

/// Whether a result is an error of the given kind, at the given position,
/// with the given message.
pub open spec fn fails_with(r: Result<Rc<Val>, BuildError>, kind: ErrorType, pos: Position, msg: Seq<char>) -> bool {
    r matches Err(e) && e.err_type == kind && e.pos == pos && e.msg@ =~= msg
}

/// The message of a type error where a value of one type was expected and
/// another came.
pub open spec fn expected_msg(what: Seq<char>, got: Val) -> Seq<char> {
    "Expected "@ + what + " but got "@ + val_typ_name(got)
}

/// The message of an operator that a type does not support.
pub open spec fn unsupported_msg(left: Val, op: Seq<char>) -> Seq<char> {
    val_typ_name(left) + " does not support the '"@ + op + "' operation"@
}

/// The message of a comparison of values that are not both integers.
pub open spec fn incompatible_msg(left: Val, right: Val) -> Seq<char> {
    "Incompatible types for numeric comparison "@ + val_typ_name(left) + " with "@ + val_typ_name(right)
}

/// Addition: integers add, strings and lists concatenate; an integer, float,
/// string or list with a value of another type is a type error, and any other
/// value does not support `+`.
pub open spec fn add_agrees(left: Val, right: Val, pos: Position, r: Result<Rc<Val>, BuildError>) -> bool {
    match (left, right) {
        (Val::Int(l), Val::Int(rr)) => r matches Ok(v) && *v == Val::Int((l + rr) as i64),
        (Val::Str(a), Val::Str(b)) => r matches Ok(v) && *v matches Val::Str(s) && s@ == a@ + b@,
        (Val::List(a), Val::List(b)) => r matches Ok(v) && *v matches Val::List(l) && l@ == a@ + b@,
        (Val::Int(_), _) => fails_with(r, ErrorType::TypeFail, pos, expected_msg("Integer"@, right)),
        (Val::Float(_), _) => fails_with(r, ErrorType::TypeFail, pos, expected_msg("Float"@, right)),
        (Val::Str(_), _) => fails_with(r, ErrorType::TypeFail, pos, expected_msg("String"@, right)),
        (Val::List(_), _) => fails_with(r, ErrorType::TypeFail, pos, expected_msg("List"@, right)),
        _ => fails_with(r, ErrorType::Unsupported, pos, unsupported_msg(left, "+"@)),
    }
}

/// Whether the result of a binary operator on two values is as the operator's
/// own function states it.
pub open spec fn binary_agrees(
    kind: BinaryExprType,
    pos: Position,
    left: Val,
    right: Val,
    r: Result<Rc<Val>, BuildError>,
    file: Seq<char>,
) -> bool {
    match kind {
        BinaryExprType::Add => add_agrees(left, right, pos, r),
        BinaryExprType::Sub => int_arith_agrees(left, right, pos, r, |l: i64, rr: i64| l - rr, "-"@),
        BinaryExprType::Mul => int_arith_agrees(left, right, pos, r, |l: i64, rr: i64| l * rr, "*"@),
        BinaryExprType::Div => int_arith_agrees(left, right, pos, r, |l: i64, rr: i64| int_div(l, rr), "*"@),
        BinaryExprType::Equal => equal_agrees(left, right, pos, r, file, false),
        BinaryExprType::NotEqual => equal_agrees(left, right, pos, r, file, true),
        BinaryExprType::GT => int_compare_agrees(left, right, pos, r, |l: i64, rr: i64| l > rr),
        BinaryExprType::LT => int_compare_agrees(left, right, pos, r, |l: i64, rr: i64| l < rr),
        BinaryExprType::GTEqual => int_compare_agrees(left, right, pos, r, |l: i64, rr: i64| l >= rr),
        BinaryExprType::LTEqual => int_compare_agrees(left, right, pos, r, |l: i64, rr: i64| l <= rr),
    }
}

/// Deep equality, negated where `negate` holds: two values that can be
/// compared give whether they are equal; others are a type error that says
/// where and why the comparison failed.
pub open spec fn equal_agrees(
    left: Val,
    right: Val,
    pos: Position,
    r: Result<Rc<Val>, BuildError>,
    file: Seq<char>,
    negate: bool,
) -> bool {
    match val_equal(left, right) {
        Ok(b) => r matches Ok(v) && *v == Val::Boolean(if negate { !b } else { b }),
        Err(_) => r matches Err(e) && e.err_type == ErrorType::TypeFail
            && (e.pos, e.msg@) =~~= eq_failure(left, right, pos, file),
    }
}

/// Integer arithmetic by `f`: a pair of integers gives `f` of them; an integer
/// or float with another type is a type error; any other value does not
/// support the operator, which the message names as `op`.
pub open spec fn int_arith_agrees(
    left: Val,
    right: Val,
    pos: Position,
    r: Result<Rc<Val>, BuildError>,
    f: spec_fn(i64, i64) -> int,
    op: Seq<char>,
) -> bool {
    match (left, right) {
        (Val::Int(l), Val::Int(rr)) => r matches Ok(v) && *v == Val::Int(f(l, rr) as i64),
        (Val::Int(_), _) => fails_with(r, ErrorType::TypeFail, pos, expected_msg("Integer"@, right)),
        (Val::Float(_), _) => fails_with(r, ErrorType::TypeFail, pos, expected_msg("Float"@, right)),
        _ => fails_with(r, ErrorType::Unsupported, pos, unsupported_msg(left, op)),
    }
}

/// Integer comparison by `f`: a pair of integers gives `f` of them, anything
/// else is a type error.
pub open spec fn int_compare_agrees(left: Val, right: Val, pos: Position, r: Result<Rc<Val>, BuildError>, f: spec_fn(i64, i64) -> bool) -> bool {
    match (left, right) {
        (Val::Int(l), Val::Int(rr)) => r matches Ok(v) && *v == Val::Boolean(f(l, rr)),
        _ => fails_with(r, ErrorType::TypeFail, pos, incompatible_msg(left, right)),
    }
}

impl Builder {
    fn expected_error(pos: &Position, what: &str, got: &Val) -> (e: BuildError)
        ensures
            e.err_type == ErrorType::TypeFail,
            e.pos == *pos,
            e.msg@ =~= expected_msg(what@, *got),
    {
        proof {
            reveal_strlit("");
        }
        let name = got.typ_name();
        let msg = concat5("Expected ", what, " but got ", name.as_str(), "");
        BuildError::new(msg, ErrorType::TypeFail, *pos)
    }

    fn unsupported_error(pos: &Position, left: &Val, op: &str) -> (e: BuildError)
        ensures
            e.err_type == ErrorType::Unsupported,
            e.pos == *pos,
            e.msg@ =~= unsupported_msg(*left, op@),
    {
        proof {
            reveal_strlit("");
        }
        let name = left.typ_name();
        let msg = concat5(name.as_str(), " does not support the '", op, "' operation", "");
        BuildError::new(msg, ErrorType::Unsupported, *pos)
    }

    /// Adds two values: integers add, strings and lists concatenate; other pairs
    /// of the same type do not support `+`, and a mismatched pair is a type error.
    pub fn add_vals(&self, pos: &Position, left: Rc<Val>, right: Rc<Val>) -> (r: Result<Rc<Val>, BuildError>)
        requires
            !both_floats(*left, *right),
            arith_defined('+', *left, *right),
        ensures
            add_agrees(*left, *right, *pos, r),
    {
        match &*left {
            Val::Int(i) => match &*right {
                Val::Int(ii) => Ok(Rc::new(Val::Int(*i + *ii))),
                val => Err(Self::expected_error(pos, "Integer", val)),
            },
            Val::Float(_) => match &*right {
                Val::Float(_) => {
                    proof {
                        assert(false);
                    }
                    Err(Self::expected_error(pos, "Float", &*right))
                },
                val => Err(Self::expected_error(pos, "Float", val)),
            },
            Val::Str(s) => match &*right {
                Val::Str(ss) => {
                    let mut out = s.clone();
                    out.append(ss.as_str());
                    Ok(Rc::new(Val::Str(out)))
                },
                val => Err(Self::expected_error(pos, "String", val)),
            },
            Val::List(l) => match &*right {
                Val::List(rl) => {
                    let mut new_vec: Vec<Rc<Val>> = Vec::new();
                    let mut i: usize = 0;
                    while i < l.len()
                        invariant
                            i <= l@.len(),
                            new_vec@ == l@.take(i as int),
                        decreases l@.len() - i,
                    {
                        new_vec.push(l[i].clone());
                        proof {
                            assert(l@.take(i + 1) =~= l@.take(i as int).push(l@[i as int]));
                        }
                        i = i + 1;
                    }
                    let mut j: usize = 0;
                    while j < rl.len()
                        invariant
                            j <= rl@.len(),
                            new_vec@ == l@ + rl@.take(j as int),
                        decreases rl@.len() - j,
                    {
                        proof {
                            if j == 0 {
                                assert(l@.take(l@.len() as int) =~= l@);
                            }
                        }
                        new_vec.push(rl[j].clone());
                        proof {
                            assert(l@ + rl@.take(j + 1) =~= (l@ + rl@.take(j as int)).push(rl@[j as int]));
                        }
                        j = j + 1;
                    }
                    proof {
                        assert(rl@.take(rl@.len() as int) =~= rl@);
                        assert(l@.take(l@.len() as int) =~= l@);
                    }
                    Ok(Rc::new(Val::List(new_vec)))
                },
                val => Err(Self::expected_error(pos, "List", val)),
            },
            expr => Err(Self::unsupported_error(pos, expr, "+")),
        }
    }

    /// Subtracts two integers; a float pair is handled elsewhere, an integer or
    /// float paired with another type is a type error, any other value does not
    /// support `-`.
    pub fn subtract_vals(&self, pos: &Position, left: Rc<Val>, right: Rc<Val>) -> (r: Result<Rc<Val>, BuildError>)
        requires
            !both_floats(*left, *right),
            arith_defined('-', *left, *right),
        ensures
            int_arith_agrees(*left, *right, *pos, r, |l: i64, rr: i64| l - rr, "-"@),
    {
        match &*left {
            Val::Int(i) => match &*right {
                Val::Int(ii) => Ok(Rc::new(Val::Int(*i - *ii))),
                val => Err(Self::expected_error(pos, "Integer", val)),
            },
            Val::Float(_) => Err(Self::expected_error(pos, "Float", &*right)),
            expr => Err(Self::unsupported_error(pos, expr, "-")),
        }
    }

    /// Multiplies two integers, with the same errors as subtraction.
    pub fn multiply_vals(&self, pos: &Position, left: Rc<Val>, right: Rc<Val>) -> (r: Result<Rc<Val>, BuildError>)
        requires
            !both_floats(*left, *right),
            arith_defined('*', *left, *right),
        ensures
            int_arith_agrees(*left, *right, *pos, r, |l: i64, rr: i64| l * rr, "*"@),
    {
        match &*left {
            Val::Int(i) => match &*right {
                Val::Int(ii) => Ok(Rc::new(Val::Int(*i * *ii))),
                val => Err(Self::expected_error(pos, "Integer", val)),
            },
            Val::Float(_) => Err(Self::expected_error(pos, "Float", &*right)),
            expr => Err(Self::unsupported_error(pos, expr, "*")),
        }
    }

    /// Divides two integers, rounding toward zero, with the same errors as
    /// subtraction; the message of the unsupported case names `*`.
    pub fn divide_vals(&self, pos: &Position, left: Rc<Val>, right: Rc<Val>) -> (r: Result<Rc<Val>, BuildError>)
        requires
            !both_floats(*left, *right),
            arith_defined('/', *left, *right),
        ensures
            int_arith_agrees(*left, *right, *pos, r, |l: i64, rr: i64| int_div(l, rr), "*"@),
    {
        match &*left {
            Val::Int(i) => match &*right {
                Val::Int(ii) => match {
                    proof {
                        lemma_int_div_range(*i, *ii);
                    }
                    i.checked_div(*ii)
                } {
                    Some(q) => Ok(Rc::new(Val::Int(q))),
                    None => {
                        proof {
                            assert(false);
                        }
                        Err(Self::expected_error(pos, "Integer", &*right))
                    },
                },
                val => Err(Self::expected_error(pos, "Integer", val)),
            },
            Val::Float(_) => Err(Self::expected_error(pos, "Float", &*right)),
            expr => Err(Self::unsupported_error(pos, expr, "*")),
        }
    }

    fn incompatible_error(pos: &Position, left: &Val, right: &Val) -> (e: BuildError)
        ensures
            e.err_type == ErrorType::TypeFail,
            e.pos == *pos,
            e.msg@ =~= incompatible_msg(*left, *right),
    {
        proof {
            reveal_strlit("");
        }
        let l = left.typ_name();
        let r = right.typ_name();
        let msg = concat5("Incompatible types for numeric comparison ", l.as_str(), " with ", r.as_str(), "");
        BuildError::new(msg, ErrorType::TypeFail, *pos)
    }

    /// Whether the left integer is greater than the right one; other pairs are type errors.
    pub fn do_gt(&self, pos: &Position, left: Rc<Val>, right: Rc<Val>) -> (r: Result<Rc<Val>, BuildError>)
        requires
            !both_floats(*left, *right),
        ensures
            int_compare_agrees(*left, *right, *pos, r, |l: i64, rr: i64| l > rr),
    {
        if let Val::Int(l) = &*left {
            if let Val::Int(r) = &*right {
                return Ok(Rc::new(Val::Boolean(*l > *r)));
            }
        }
        Err(Self::incompatible_error(pos, &*left, &*right))
    }

    /// Whether the left integer is less than the right one; other pairs are type errors.
    pub fn do_lt(&self, pos: &Position, left: Rc<Val>, right: Rc<Val>) -> (r: Result<Rc<Val>, BuildError>)
        requires
            !both_floats(*left, *right),
        ensures
            int_compare_agrees(*left, *right, *pos, r, |l: i64, rr: i64| l < rr),
    {
        if let Val::Int(l) = &*left {
            if let Val::Int(r) = &*right {
                return Ok(Rc::new(Val::Boolean(*l < *r)));
            }
        }
        Err(Self::incompatible_error(pos, &*left, &*right))
    }

    /// Whether the left integer is at most the right one; other pairs are type errors.
    pub fn do_ltequal(&self, pos: &Position, left: Rc<Val>, right: Rc<Val>) -> (r: Result<Rc<Val>, BuildError>)
        requires
            !both_floats(*left, *right),
        ensures
            int_compare_agrees(*left, *right, *pos, r, |l: i64, rr: i64| l <= rr),
    {
        if let Val::Int(l) = &*left {
            if let Val::Int(r) = &*right {
                return Ok(Rc::new(Val::Boolean(*l <= *r)));
            }
        }
        Err(Self::incompatible_error(pos, &*left, &*right))
    }

    /// Whether the left integer is at least the right one; other pairs are type errors.
    pub fn do_gtequal(&self, pos: &Position, left: Rc<Val>, right: Rc<Val>) -> (r: Result<Rc<Val>, BuildError>)
        requires
            !both_floats(*left, *right),
        ensures
            int_compare_agrees(*left, *right, *pos, r, |l: i64, rr: i64| l >= rr),
    {
        if let Val::Int(l) = &*left {
            if let Val::Int(r) = &*right {
                return Ok(Rc::new(Val::Boolean(*l >= *r)));
            }
        }
        Err(Self::incompatible_error(pos, &*left, &*right))
    }

    /// Whether two values are deeply equal.
    pub fn do_deep_equal(&self, pos: &Position, left: Rc<Val>, right: Rc<Val>) -> (r: Result<Rc<Val>, BuildError>)
        ensures
            equal_agrees(*left, *right, *pos, r, self.file_name(), false),
    {
        match left.equal(&*right, &self.file, *pos) {
            Ok(b) => Ok(Rc::new(Val::Boolean(b))),
            Err(e) => Err(e),
        }
    }

    /// Whether two values are not deeply equal.
    pub fn do_not_deep_equal(&self, pos: &Position, left: Rc<Val>, right: Rc<Val>) -> (r: Result<Rc<Val>, BuildError>)
        ensures
            equal_agrees(*left, *right, *pos, r, self.file_name(), true),
    {
        match left.equal(&*right, &self.file, *pos) {
            Ok(b) => Ok(Rc::new(Val::Boolean(!b))),
            Err(e) => Err(e),
        }
    }
}

/// Comparisons turn around: `a > b` gives what `b < a` gives, and `a >= b`
/// what `b <= a` gives, a type error included.
pub proof fn law_comparison_converse(
    pos: Position,
    file: Seq<char>,
    a: Val,
    b: Val,
    gt: Result<Rc<Val>, BuildError>,
    lt: Result<Rc<Val>, BuildError>,
    ge: Result<Rc<Val>, BuildError>,
    le: Result<Rc<Val>, BuildError>,
)
    requires
        binary_agrees(BinaryExprType::GT, pos, a, b, gt, file),
        binary_agrees(BinaryExprType::LT, pos, b, a, lt, file),
        binary_agrees(BinaryExprType::GTEqual, pos, a, b, ge, file),
        binary_agrees(BinaryExprType::LTEqual, pos, b, a, le, file),
    ensures
        gt is Ok <==> lt is Ok,
        gt is Ok ==> *gt->Ok_0 == *lt->Ok_0,
        ge is Ok <==> le is Ok,
        ge is Ok ==> *ge->Ok_0 == *le->Ok_0,
{
}

/// `!=` negates `==`: where two values can be compared, one is true exactly
/// when the other is false, and where they cannot, both are type errors.
pub proof fn law_not_equal_negates_equal(
    pos: Position,
    file: Seq<char>,
    a: Val,
    b: Val,
    eq: Result<Rc<Val>, BuildError>,
    ne: Result<Rc<Val>, BuildError>,
)
    requires
        binary_agrees(BinaryExprType::Equal, pos, a, b, eq, file),
        binary_agrees(BinaryExprType::NotEqual, pos, a, b, ne, file),
    ensures
        eq is Ok <==> ne is Ok,
        eq is Ok ==> (*eq->Ok_0 == Val::Boolean(true) <==> *ne->Ok_0 == Val::Boolean(false)),
        eq is Ok ==> (*eq->Ok_0 is Boolean && *ne->Ok_0 is Boolean),
        eq is Err ==> eq->Err_0.err_type == ErrorType::TypeFail && ne->Err_0.err_type == ErrorType::TypeFail
            && eq->Err_0.pos == ne->Err_0.pos && eq->Err_0.msg@ == ne->Err_0.msg@,
{
}

/// Whether two sums agree: the same integer, the same text, or the same elements.
pub open spec fn same_sum(x: Val, y: Val) -> bool {
    match (x, y) {
        (Val::Int(a), Val::Int(b)) => a == b,
        (Val::Str(a), Val::Str(b)) => a@ == b@,
        (Val::List(a), Val::List(b)) => a@ == b@,
        _ => false,
    }
}

/// Whether the integer sums of three values all fit in 64 bits, where all
/// three are integers.
pub open spec fn int_sums_fit(a: Val, b: Val, c: Val) -> bool {
    match (a, b, c) {
        (Val::Int(x), Val::Int(y), Val::Int(z)) => {
            &&& i64::MIN <= x + y <= i64::MAX
            &&& i64::MIN <= y + z <= i64::MAX
            &&& i64::MIN <= x + y + z <= i64::MAX
        },
        _ => true,
    }
}

/// Addition is associative: where `a + b` and `b + c` are defined and the
/// integer sums fit, `(a + b) + c` and `a + (b + c)` are both defined and give
/// the same integer, the same text or the same elements.
pub proof fn law_add_is_associative(
    pos: Position,
    a: Val,
    b: Val,
    c: Val,
    ab: Result<Rc<Val>, BuildError>,
    ab_c: Result<Rc<Val>, BuildError>,
    bc: Result<Rc<Val>, BuildError>,
    a_bc: Result<Rc<Val>, BuildError>,
)
    requires
        int_sums_fit(a, b, c),
        add_agrees(a, b, pos, ab),
        ab is Ok,
        add_agrees(*ab->Ok_0, c, pos, ab_c),
        add_agrees(b, c, pos, bc),
        bc is Ok,
        add_agrees(a, *bc->Ok_0, pos, a_bc),
    ensures
        ab_c is Ok,
        a_bc is Ok,
        same_sum(*ab_c->Ok_0, *a_bc->Ok_0),
{
    match (a, b, c) {
        (Val::Str(x), Val::Str(y), Val::Str(z)) => {
            assert(x@ + y@ + z@ =~= x@ + (y@ + z@));
        },
        (Val::List(x), Val::List(y), Val::List(z)) => {
            assert(x@ + y@ + z@ =~= x@ + (y@ + z@));
        },
        _ => {},
    }
}

/// The empty string and the empty list are identities of addition on both
/// sides: adding one to a string or list of its kind gives the same text or
/// the same elements.
pub proof fn law_add_identity(
    pos: Position,
    e: Val,
    x: Val,
    ex: Result<Rc<Val>, BuildError>,
    xe: Result<Rc<Val>, BuildError>,
)
    requires
        (e matches Val::Str(s) && s@.len() == 0 && x is Str) || (e matches Val::List(l) && l@.len() == 0 && x is List),
        add_agrees(e, x, pos, ex),
        add_agrees(x, e, pos, xe),
    ensures
        ex is Ok && same_sum(*ex->Ok_0, x),
        xe is Ok && same_sum(*xe->Ok_0, x),
{
    match (e, x) {
        (Val::Str(s), Val::Str(y)) => {
            assert(s@ + y@ =~= y@);
            assert(y@ + s@ =~= y@);
        },
        (Val::List(l), Val::List(y)) => {
            assert(l@ + y@ =~= y@);
            assert(y@ + l@ =~= y@);
        },
        _ => {},
    }
}

} // verus!
