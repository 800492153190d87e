use std::rc::Rc;

use ucg::ast::{Expression, Position, PositionedItem, SelectorList, Token, TokenType, Value};
use ucg::build::lookup::parse_index_text;
use ucg::build::{Builder, Fields, Val};
use ucg::error::{BuildError, ErrorType};

fn pos(line: usize, column: usize) -> Position {
    Position::new(line, column, 0)
}

fn builder(strict: bool) -> Builder {
    let env = Rc::new(Val::Env(vec![
        ("HOME".to_string(), "/root".to_string()),
        ("USER".to_string(), "me".to_string()),
    ]));
    let mut b = Builder::new_with_env_and_scope("copy.ucg".to_string(), Vec::new(), env);
    b.set_strict(strict);
    b
}

fn ival(i: i64) -> Rc<Val> {
    Rc::new(Val::Int(i))
}

fn fields(fs: Vec<(&str, Rc<Val>)>) -> Fields {
    fs.into_iter()
        .map(|(n, v)| (PositionedItem::new(n.to_string(), pos(1, 1)), v))
        .collect()
}

fn word(s: &str, line: usize, column: usize) -> Token {
    Token::new(s, TokenType::BAREWORD, pos(line, column))
}

fn selector(head: &str, tail: Vec<Token>) -> SelectorList {
    SelectorList {
        head: Box::new(Expression::Simple(Value::Symbol(PositionedItem::new(head.to_string(), pos(1, 1))))),
        tail: Some(tail),
    }
}

#[test]
fn copy_overrides_and_appends() {
    let mut b = builder(true);
    let base = fields(vec![("a", ival(1)), ("b", ival(2))]);
    b.push_val(Rc::new(Val::Tuple(base.clone())));
    let overrides = vec![
        (word("b", 2, 1), Ok(ival(20))),
        (word("c", 3, 1), Ok(ival(30))),
    ];
    let r = b.copy_from_base(&base, overrides).unwrap();
    match &*r {
        Val::Tuple(out) => {
            assert_eq!(out.len(), 3);
            assert_eq!(out[0].0.val, "a");
            assert_eq!(*out[0].1, Val::Int(1));
            assert_eq!(out[1].0.val, "b");
            assert_eq!(*out[1].1, Val::Int(20));
            assert_eq!(out[2].0.val, "c");
            assert_eq!(out[2].0.pos, pos(3, 1));
            assert_eq!(*out[2].1, Val::Int(30));
        }
        other => panic!("expected a tuple, got {:?}", other),
    }
    // The pushed tuple is popped again.
    assert!(b.peek_val().is_none());
}

#[test]
fn copy_may_not_change_a_type() {
    let mut b = builder(true);
    let base = fields(vec![("a", ival(1))]);
    let overrides = vec![(word("a", 2, 7), Ok(Rc::new(Val::Str("x".to_string()))))];
    let err = b.copy_from_base(&base, overrides).unwrap_err();
    assert_eq!(err.err_type, ErrorType::TypeFail);
    assert_eq!(err.pos, pos(2, 7));
    assert_eq!(err.msg, "Expected type Integer for field a but got String");
}

#[test]
fn copy_may_replace_an_empty_value() {
    let mut b = builder(true);
    let base = fields(vec![("a", Rc::new(Val::Empty))]);
    let overrides = vec![(word("a", 2, 7), Ok(Rc::new(Val::Str("x".to_string()))))];
    let r = b.copy_from_base(&base, overrides).unwrap();
    assert_eq!(*r, Val::Tuple(fields(vec![("a", Rc::new(Val::Str("x".to_string())))])));
}

#[test]
fn copy_of_a_tuple_with_duplicate_fields_fails() {
    let mut b = builder(true);
    let mut base = fields(vec![("a", ival(1))]);
    base.push((PositionedItem::new("a".to_string(), pos(9, 9)), ival(2)));
    let err = b.copy_from_base(&base, Vec::new()).unwrap_err();
    assert_eq!(err.err_type, ErrorType::TypeFail);
    assert_eq!(err.pos, pos(9, 9));
    assert_eq!(err.msg, "Duplicate field: a in tuple");
}

#[test]
fn copy_passes_an_override_error_on() {
    let mut b = builder(true);
    let base = fields(vec![("a", ival(1))]);
    b.push_val(Rc::new(Val::Tuple(base.clone())));
    let e = BuildError::new("bad".to_string(), ErrorType::NoSuchSymbol, pos(5, 5));
    let overrides = vec![(word("a", 2, 7), Err(e))];
    let err = b.copy_from_base(&base, overrides).unwrap_err();
    assert_eq!(err.err_type, ErrorType::NoSuchSymbol);
    assert_eq!(err.msg, "bad");
    // The pushed tuple stays on the stack.
    assert!(b.peek_val().is_some());
}

#[test]
fn copy_keeps_the_base() {
    let mut b = builder(true);
    let base = fields(vec![("a", ival(1)), ("b", ival(2)), ("c", ival(3))]);
    let overrides = vec![(word("b", 2, 1), Ok(ival(5))), (word("d", 3, 1), Ok(ival(4)))];
    let r = b.copy_from_base(&base, overrides).unwrap();
    if let Val::Tuple(out) = &*r {
        assert!(out.len() >= base.len());
        for i in 0..base.len() {
            assert_eq!(out[i].0.val, base[i].0.val);
        }
        assert_eq!(*out[0].1, Val::Int(1));
        assert_eq!(*out[2].1, Val::Int(3));
        assert!(out.iter().any(|f| f.0.val == "d"));
    } else {
        panic!("expected a tuple");
    }
}

#[test]
fn field_index_finds_the_first() {
    let fs = fields(vec![("a", ival(1)), ("b", ival(2)), ("a", ival(3))]);
    assert_eq!(ucg::build::copy::field_index(&fs, &"a".to_string()), Some(0));
    assert_eq!(ucg::build::copy::field_index(&fs, &"b".to_string()), Some(1));
    assert_eq!(ucg::build::copy::field_index(&fs, &"z".to_string()), None);
}

#[test]
fn lookup_through_tuples_and_lists() {
    let b = builder(true);
    let inner = Rc::new(Val::List(vec![ival(10), ival(11)]));
    let root = Rc::new(Val::Tuple(fields(vec![("foo", Rc::new(Val::Tuple(fields(vec![("bar", inner)]))))])));
    let sl = selector("x", vec![word("foo", 1, 3), word("bar", 1, 7), Token::new("1", TokenType::DIGIT, pos(1, 11))]);
    assert_eq!(*b.lookup_selector(&sl, root.clone()).unwrap(), Val::Int(11));
    let no_tail = SelectorList { head: sl.head, tail: None };
    assert_eq!(*b.lookup_selector(&no_tail, root.clone()).unwrap(), *root);
}

#[test]
fn lookup_errors() {
    let b = builder(true);
    let root = Rc::new(Val::Tuple(fields(vec![("foo", Rc::new(Val::List(vec![ival(1)])))])));
    let missing = selector("x", vec![word("nope", 2, 4)]);
    let err = b.lookup_selector(&missing, root.clone()).unwrap_err();
    assert_eq!(err.err_type, ErrorType::NoSuchSymbol);
    assert_eq!(err.pos, pos(2, 4));
    let out_of_range = selector("x", vec![word("foo", 2, 1), Token::new("5", TokenType::DIGIT, pos(2, 5))]);
    let err = b.lookup_selector(&out_of_range, root.clone()).unwrap_err();
    assert_eq!(err.err_type, ErrorType::NoSuchSymbol);
    assert_eq!(err.pos, pos(2, 5));
    let not_index = selector("x", vec![word("foo", 2, 1), word("bar", 2, 5)]);
    let err = b.lookup_selector(&not_index, root.clone()).unwrap_err();
    assert_eq!(err.err_type, ErrorType::ParseError);
    assert_eq!(err.msg, "invalid digit found in string");
    let too_deep = selector("x", vec![word("foo", 2, 1), Token::new("0", TokenType::DIGIT, pos(2, 5)), word("z", 2, 7)]);
    let err = b.lookup_selector(&too_deep, root).unwrap_err();
    assert_eq!(err.err_type, ErrorType::TypeFail);
    assert_eq!(err.pos, pos(2, 7));
}

#[test]
fn environment_lookup_strict_and_lenient() {
    let strict = builder(true);
    let env = vec![("HOME".to_string(), "/root".to_string()), ("USER".to_string(), "me".to_string())];
    assert_eq!(*strict.lookup_in_env(&word("USER", 1, 1), &env).unwrap(), Val::Str("me".to_string()));
    let err = strict.lookup_in_env(&word("SHELL", 1, 1), &env).unwrap_err();
    assert_eq!(err.err_type, ErrorType::NoSuchSymbol);
    assert_eq!(err.msg, "Environment Variable SHELL not set");
    let lenient = builder(false);
    assert_eq!(*lenient.lookup_in_env(&word("SHELL", 1, 1), &env).unwrap(), Val::Empty);
    assert_eq!(*lenient.lookup_in_env(&word("HOME", 1, 1), &env).unwrap(), Val::Str("/root".to_string()));
    // A variable later in the environment is found in lenient mode too.
    assert_eq!(*lenient.lookup_in_env(&word("USER", 1, 1), &env).unwrap(), Val::Str("me".to_string()));
}

#[test]
fn index_text() {
    assert_eq!(parse_index_text(&"0".to_string()), Ok(0));
    assert_eq!(parse_index_text(&"+12".to_string()), Ok(12));
    assert!(parse_index_text(&"".to_string()).is_err());
    assert!(parse_index_text(&"-1".to_string()).is_err());
    assert!(parse_index_text(&"99999999999999999999999".to_string()).is_err());
}

#[test]
fn lookup_error_messages() {
    let b = builder(true);
    let root = Rc::new(Val::Tuple(fields(vec![("foo", Rc::new(Val::List(vec![ival(1)])))])));
    let missing = selector("x", vec![word("nope", 2, 4)]);
    let err = b.lookup_selector(&missing, root.clone()).unwrap_err();
    assert_eq!(err.msg, "Unable to match element nope in selector path [x.nope] in file: copy.ucg");
    let not_container = selector("x", vec![word("foo", 2, 1), Token::new("0", TokenType::DIGIT, pos(2, 5)), word("z", 2, 7)]);
    let err = b.lookup_selector(&not_container, root).unwrap_err();
    assert_eq!(err.msg, "Integer is not a Tuple or List");
}

#[test]
fn copy_last_override_wins() {
    let mut b = builder(true);
    let base = fields(vec![("a", ival(1))]);
    let overrides = vec![
        (word("a", 2, 1), Ok(ival(2))),
        (word("n", 3, 1), Ok(ival(3))),
        (word("a", 4, 1), Ok(ival(4))),
        (word("n", 5, 1), Ok(ival(5))),
    ];
    let r = b.copy_from_base(&base, overrides).unwrap();
    match &*r {
        Val::Tuple(out) => {
            assert_eq!(out.len(), 2);
            assert_eq!(*ucg::build::find_in_fieldlist(&"a".to_string(), out).unwrap(), Val::Int(4));
            assert_eq!(*ucg::build::find_in_fieldlist(&"n".to_string(), out).unwrap(), Val::Int(5));
        }
        other => panic!("expected a tuple, got {:?}", other),
    }
}

#[test]
fn lookup_through_a_scalar_head_is_a_type_error() {
    let b = builder(true);
    let sl = selector("x", vec![word("foo", 3, 4)]);
    let err = b.lookup_selector(&sl, ival(1)).unwrap_err();
    assert_eq!(err.err_type, ErrorType::TypeFail);
    assert_eq!(err.pos, pos(3, 4));
    assert_eq!(err.msg, "Integer is not a Tuple or List");
}

#[test]
fn copy_leaves_an_emptied_stack_in_place() {
    let mut b = builder(true);
    assert!(b.stack.is_none());
    let base = fields(vec![("a", ival(1))]);
    b.push_val(Rc::new(Val::Tuple(base.clone())));
    b.copy_from_base(&base, vec![(word("a", 2, 1), Ok(ival(2)))]).unwrap();
    assert_eq!(b.stack, Some(vec![]));
}
