use std::rc::Rc;

use ucg::ast::{BinaryExprType, Position, PositionedItem};
use ucg::build::{Builder, Val};
use ucg::error::ErrorType;

fn builder() -> Builder {
    Builder::new_with_env_and_scope("ops.ucg".to_string(), Vec::new(), Rc::new(Val::Env(Vec::new())))
}

fn p() -> Position {
    Position::new(7, 3, 0)
}

fn ival(i: i64) -> Rc<Val> {
    Rc::new(Val::Int(i))
}

fn s(t: &str) -> Rc<Val> {
    Rc::new(Val::Str(t.to_string()))
}

fn tuple(fields: Vec<(&str, Rc<Val>)>) -> Rc<Val> {
    Rc::new(Val::Tuple(
        fields
            .into_iter()
            .map(|(n, v)| (PositionedItem::new(n.to_string(), Position::new(1, 1, 0)), v))
            .collect(),
    ))
}

#[test]
fn add_integers_strings_and_lists() {
    let b = builder();
    assert_eq!(*b.add_vals(&p(), ival(2), ival(3)).unwrap(), Val::Int(5));
    assert_eq!(*b.add_vals(&p(), s("foo"), s("bar")).unwrap(), Val::Str("foobar".to_string()));
    let l = b
        .add_vals(&p(), Rc::new(Val::List(vec![ival(1)])), Rc::new(Val::List(vec![ival(2), ival(3)])))
        .unwrap();
    assert_eq!(*l, Val::List(vec![ival(1), ival(2), ival(3)]));
}

#[test]
fn add_mismatched_types_is_a_type_failure() {
    let b = builder();
    let err = b.add_vals(&p(), ival(1), s("x")).unwrap_err();
    assert_eq!(err.err_type, ErrorType::TypeFail);
    assert_eq!(err.pos, p());
    assert_eq!(err.msg, "Expected Integer but got String");
    let err = b.add_vals(&p(), s("x"), ival(1)).unwrap_err();
    assert_eq!(err.msg, "Expected String but got Integer");
}

#[test]
fn add_unsupported_type() {
    let b = builder();
    let err = b.add_vals(&p(), Rc::new(Val::Boolean(true)), Rc::new(Val::Boolean(false))).unwrap_err();
    assert_eq!(err.err_type, ErrorType::Unsupported);
    assert_eq!(err.msg, "Boolean does not support the '+' operation");
}

#[test]
fn subtract_multiply_divide() {
    let b = builder();
    assert_eq!(*b.subtract_vals(&p(), ival(2), ival(5)).unwrap(), Val::Int(-3));
    assert_eq!(*b.multiply_vals(&p(), ival(-4), ival(5)).unwrap(), Val::Int(-20));
    assert_eq!(*b.divide_vals(&p(), ival(7), ival(2)).unwrap(), Val::Int(3));
    // Integer division rounds toward zero.
    assert_eq!(*b.divide_vals(&p(), ival(-7), ival(2)).unwrap(), Val::Int(-3));
    assert_eq!(*b.divide_vals(&p(), ival(7), ival(-2)).unwrap(), Val::Int(-3));
    assert_eq!(*b.divide_vals(&p(), ival(-7), ival(-2)).unwrap(), Val::Int(3));
    let err = b.subtract_vals(&p(), s("a"), s("b")).unwrap_err();
    assert_eq!(err.err_type, ErrorType::Unsupported);
    assert_eq!(err.msg, "String does not support the '-' operation");
    let err = b.divide_vals(&p(), s("a"), s("b")).unwrap_err();
    assert_eq!(err.msg, "String does not support the '*' operation");
    let err = b.multiply_vals(&p(), ival(1), s("b")).unwrap_err();
    assert_eq!(err.err_type, ErrorType::TypeFail);
}

#[test]
fn comparisons() {
    let b = builder();
    assert_eq!(*b.do_gt(&p(), ival(2), ival(1)).unwrap(), Val::Boolean(true));
    assert_eq!(*b.do_lt(&p(), ival(2), ival(1)).unwrap(), Val::Boolean(false));
    assert_eq!(*b.do_gtequal(&p(), ival(2), ival(2)).unwrap(), Val::Boolean(true));
    assert_eq!(*b.do_ltequal(&p(), ival(3), ival(2)).unwrap(), Val::Boolean(false));
    let err = b.do_gt(&p(), s("a"), ival(1)).unwrap_err();
    assert_eq!(err.err_type, ErrorType::TypeFail);
    assert_eq!(err.msg, "Incompatible types for numeric comparison String with Integer");
}

#[test]
fn comparison_converse() {
    let b = builder();
    for (x, y) in [(1, 2), (2, 1), (3, 3)] {
        let gt = b.do_gt(&p(), ival(x), ival(y)).unwrap();
        let lt = b.do_lt(&p(), ival(y), ival(x)).unwrap();
        assert_eq!(*gt, *lt);
        let ge = b.do_gtequal(&p(), ival(x), ival(y)).unwrap();
        let le = b.do_ltequal(&p(), ival(y), ival(x)).unwrap();
        assert_eq!(*ge, *le);
    }
    assert!(b.do_gt(&p(), s("a"), ival(1)).is_err());
    assert!(b.do_lt(&p(), ival(1), s("a")).is_err());
}

#[test]
fn deep_equality() {
    let b = builder();
    let a = tuple(vec![("x", ival(1)), ("y", Rc::new(Val::List(vec![s("a")])))]);
    let same = tuple(vec![("x", ival(1)), ("y", Rc::new(Val::List(vec![s("a")])))]);
    let other = tuple(vec![("x", ival(1)), ("z", Rc::new(Val::List(vec![s("a")])))]);
    assert_eq!(*b.do_deep_equal(&p(), a.clone(), same.clone()).unwrap(), Val::Boolean(true));
    assert_eq!(*b.do_deep_equal(&p(), a.clone(), other.clone()).unwrap(), Val::Boolean(false));
    assert_eq!(*b.do_not_deep_equal(&p(), a.clone(), other.clone()).unwrap(), Val::Boolean(true));
    assert_eq!(*b.do_not_deep_equal(&p(), a.clone(), same).unwrap(), Val::Boolean(false));
    // Lists of different lengths are unequal.
    let l1 = Rc::new(Val::List(vec![ival(1)]));
    let l2 = Rc::new(Val::List(vec![ival(1), ival(2)]));
    assert_eq!(*b.do_deep_equal(&p(), l1, l2).unwrap(), Val::Boolean(false));
}

#[test]
fn equality_is_symmetric() {
    let b = builder();
    let vals = vec![
        ival(1),
        s("1"),
        Rc::new(Val::Empty),
        Rc::new(Val::List(vec![ival(1), s("x")])),
        Rc::new(Val::List(vec![ival(1), ival(2)])),
        tuple(vec![("a", ival(1))]),
    ];
    for x in &vals {
        for y in &vals {
            let xy = b.do_deep_equal(&p(), x.clone(), y.clone());
            let yx = b.do_deep_equal(&p(), y.clone(), x.clone());
            match (xy, yx) {
                (Ok(a), Ok(c)) => assert_eq!(*a, *c),
                (Err(e1), Err(e2)) => assert_eq!(e1.err_type, e2.err_type),
                _ => panic!("asymmetric comparison of {:?} and {:?}", x, y),
            }
        }
    }
}

#[test]
fn equality_of_different_types_is_a_type_failure() {
    let b = builder();
    let err = b.do_deep_equal(&p(), ival(1), s("1")).unwrap_err();
    assert_eq!(err.err_type, ErrorType::TypeFail);
    assert_eq!(err.msg, "Expected Integer but got String in file: ops.ucg");
    let err = b.do_not_deep_equal(&p(), ival(1), s("1")).unwrap_err();
    assert_eq!(err.err_type, ErrorType::TypeFail);
}

#[test]
fn binary_op_dispatch() {
    let b = builder();
    let r = b.eval_binary_op(BinaryExprType::Mul, &p(), ival(6), ival(7)).unwrap();
    assert_eq!(*r, Val::Int(42));
    let r = b.eval_binary_op(BinaryExprType::NotEqual, &p(), ival(6), ival(7)).unwrap();
    assert_eq!(*r, Val::Boolean(true));
    let r = b.eval_binary_op(BinaryExprType::LTEqual, &p(), ival(6), ival(7)).unwrap();
    assert_eq!(*r, Val::Boolean(true));
}

#[test]
fn value_types() {
    assert_eq!(Val::Int(1).typ_name(), "Integer");
    assert_eq!(Val::Env(Vec::new()).typ_name(), "Env");
    assert!(Val::Int(1).type_equal(&Val::Int(2)));
    assert!(!Val::Int(1).type_equal(&Val::Str("1".to_string())));
    assert!(Val::Empty.is_empty());
    assert!(!Val::Boolean(false).is_empty());
}

#[test]
fn nested_comparison_failure_names_the_field() {
    let b = builder();
    let l = Rc::new(Val::Tuple(vec![(PositionedItem::new("x".to_string(), Position::new(4, 9, 0)), ival(1))]));
    let r = tuple(vec![("x", s("one"))]);
    let err = b.do_deep_equal(&p(), l, r).unwrap_err();
    assert_eq!(err.err_type, ErrorType::TypeFail);
    assert_eq!(err.pos, Position::new(4, 9, 0));
    assert_eq!(err.msg, "Expected Integer but got String in file: ops.ucg");
    let m = || {
        Rc::new(Val::Macro(ucg::ast::MacroDef { argdefs: Vec::new(), fields: Vec::new(), pos: Position::new(1, 1, 0) }))
    };
    let err = b.do_deep_equal(&p(), Rc::new(Val::List(vec![m()])), Rc::new(Val::List(vec![m()]))).unwrap_err();
    assert_eq!(err.pos, p());
    assert_eq!(err.msg, "Macros are not comparable in file: ops.ucg");
    let err = b.do_not_deep_equal(&p(), m(), m()).unwrap_err();
    assert_eq!(err.msg, "Macros are not comparable in file: ops.ucg");
}

#[test]
fn values_equal_themselves() {
    let b = builder();
    let vals = vec![
        Rc::new(Val::Empty),
        Rc::new(Val::Float("2.5".to_string())),
        tuple(vec![("a", Rc::new(Val::List(vec![ival(1), s("x")]))), ("b", Rc::new(Val::Boolean(false)))]),
    ];
    for v in vals {
        assert_eq!(*b.do_deep_equal(&p(), v.clone(), v.clone()).unwrap(), Val::Boolean(true));
    }
    let env = Rc::new(Val::Env(Vec::new()));
    assert!(b.do_deep_equal(&p(), env.clone(), env).is_err());
}

#[test]
fn addition_is_associative_with_identities() {
    let b = builder();
    let (x, y, z) = (s("ab"), s("c"), s("de"));
    let left = b.add_vals(&p(), b.add_vals(&p(), x.clone(), y.clone()).unwrap(), z.clone()).unwrap();
    let right = b.add_vals(&p(), x.clone(), b.add_vals(&p(), y, z).unwrap()).unwrap();
    assert_eq!(*left, *right);
    assert_eq!(*b.add_vals(&p(), s(""), x.clone()).unwrap(), *x);
    assert_eq!(*b.add_vals(&p(), x.clone(), s("")).unwrap(), *x);
    let l = Rc::new(Val::List(vec![ival(1), ival(2)]));
    let empty = Rc::new(Val::List(Vec::new()));
    assert_eq!(*b.add_vals(&p(), empty.clone(), l.clone()).unwrap(), *l);
    assert_eq!(*b.add_vals(&p(), l.clone(), empty).unwrap(), *l);
    let (i, j, k) = (ival(1), ival(-5), ival(9));
    let left = b.add_vals(&p(), b.add_vals(&p(), i.clone(), j.clone()).unwrap(), k.clone()).unwrap();
    let right = b.add_vals(&p(), i, b.add_vals(&p(), j, k).unwrap()).unwrap();
    assert_eq!(*left, *right);
}
