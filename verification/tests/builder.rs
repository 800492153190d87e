use std::rc::Rc;

use ucg::ast::{Position, PositionedItem, Token, TokenType};
use ucg::build::{Builder, Fields, Val};
use ucg::error::ErrorType;

fn pos(line: usize, column: usize) -> Position {
    Position::new(line, column, 0)
}

fn word(s: &str, line: usize, column: usize) -> Token {
    Token::new(s, TokenType::BAREWORD, pos(line, column))
}

fn field(name: &str, v: Val) -> (PositionedItem<String>, Rc<Val>) {
    (PositionedItem::new(name.to_string(), pos(1, 1)), Rc::new(v))
}

fn builder() -> Builder {
    let env = Rc::new(Val::Env(vec![("HOME".to_string(), "/root".to_string())]));
    Builder::new_with_env_and_scope("test.ucg".to_string(), Vec::new(), env)
}

#[test]
fn new_builder_starts_empty() {
    let b = builder();
    assert_eq!(b.file(), "test.ucg");
    assert!(b.strict);
    assert!(!b.validate_mode);
    assert!(b.assert_collector.success);
    assert_eq!(b.build_output.len(), 0);
    assert!(b.stack.is_none());
    assert!(b.out_lock.is_none());
}

#[test]
fn set_strict_and_validate_mode() {
    let mut b = builder();
    b.set_strict(false);
    assert!(!b.strict);
    b.enable_validate_mode();
    assert!(b.validate_mode);
}

#[test]
fn let_binding_reads_back() {
    let mut b = builder();
    let r = b.build_let(&word("foo", 1, 5), Rc::new(Val::Int(1)));
    assert_eq!(*r.unwrap(), Val::Int(1));
    assert_eq!(*b.get_out_by_name("foo").unwrap(), Val::Int(1));
    assert!(b.get_out_by_name("bar").is_none());
}

#[test]
fn let_binding_is_final() {
    let mut b = builder();
    b.build_let(&word("foo", 1, 5), Rc::new(Val::Int(1))).unwrap();
    let err = b.build_let(&word("foo", 2, 5), Rc::new(Val::Int(2))).unwrap_err();
    assert_eq!(err.err_type, ErrorType::DuplicateBinding);
    assert_eq!(err.pos, pos(2, 5));
    assert_eq!(err.msg, "Binding for foo already exists in file: test.ucg");
    assert_eq!(*b.get_out_by_name("foo").unwrap(), Val::Int(1));
    assert_eq!(b.build_output.len(), 1);
}

#[test]
fn let_reserved_word_is_refused() {
    let mut b = builder();
    let err = b.build_let(&word("select", 3, 5), Rc::new(Val::Int(1))).unwrap_err();
    assert_eq!(err.err_type, ErrorType::ReservedWordError);
    assert_eq!(err.pos, pos(3, 5));
    assert_eq!(err.msg, "Let select binding collides with reserved word");
    assert_eq!(b.build_output.len(), 0);
}

#[test]
fn reserved_words() {
    for w in ["self", "assert", "true", "false", "let", "import", "as", "select", "macro", "module", "env", "map", "filter", "NULL", "out"] {
        assert!(Builder::check_reserved_word(w), "{}", w);
    }
    assert!(!Builder::check_reserved_word("foo"));
    assert!(!Builder::check_reserved_word("Self"));
}

#[test]
fn env_and_self_symbols() {
    let mut b = builder();
    let env = b.get_out_by_name("env").unwrap();
    assert_eq!(*env, Val::Env(vec![("HOME".to_string(), "/root".to_string())]));
    assert!(b.get_out_by_name("self").is_none());
    b.push_val(Rc::new(Val::Int(1)));
    b.push_val(Rc::new(Val::Int(2)));
    assert_eq!(*b.get_out_by_name("self").unwrap(), Val::Int(1));
    assert_eq!(*b.peek_val().unwrap(), Val::Int(1));
    assert_eq!(*b.pop_val().unwrap(), Val::Int(2));
    assert_eq!(*b.pop_val().unwrap(), Val::Int(1));
    assert!(b.pop_val().is_none());
    assert!(b.peek_val().is_none());
}

#[test]
fn outputs_as_tuple_in_binding_order() {
    let mut b = builder();
    b.build_let(&word("b", 1, 5), Rc::new(Val::Int(2))).unwrap();
    b.build_let(&word("a", 2, 5), Rc::new(Val::Int(1))).unwrap();
    let out = b.get_outputs_as_val();
    match &*out {
        Val::Tuple(fs) => {
            assert_eq!(fs.len(), 2);
            assert_eq!(fs[0].0.val, "b");
            assert_eq!(fs[1].0.val, "a");
            assert_eq!(*fs[1].1, Val::Int(1));
        }
        other => panic!("expected a tuple, got {:?}", other),
    }
    assert_eq!(b.build_output.len(), 0);
}

#[test]
fn scope_bindings_are_visible() {
    let scope: Fields = vec![field("x", Val::Str("y".to_string()))];
    let b = Builder::new_with_env_and_scope("f".to_string(), scope, Rc::new(Val::Env(Vec::new())));
    assert_eq!(*b.get_out_by_name("x").unwrap(), Val::Str("y".to_string()));
    let sym = PositionedItem::new("x".to_string(), pos(4, 2));
    assert_eq!(*b.value_of_symbol(&sym).unwrap(), Val::Str("y".to_string()));
    let missing = PositionedItem::new("nope".to_string(), pos(4, 2));
    let err = b.value_of_symbol(&missing).unwrap_err();
    assert_eq!(err.err_type, ErrorType::NoSuchSymbol);
    assert_eq!(err.pos, pos(4, 2));
    assert_eq!(err.msg, "Unable to find nope in file: f");
}

#[test]
fn one_output_per_file() {
    let mut b = builder();
    let json = word("json", 1, 5);
    let r = b.set_output(&json, Rc::new(Val::Int(1)));
    assert_eq!(*r.unwrap(), Val::Int(1));
    let yaml = word("yaml", 2, 5);
    let err = b.set_output(&yaml, Rc::new(Val::Int(2))).unwrap_err();
    assert_eq!(err.err_type, ErrorType::DuplicateBinding);
    assert_eq!(err.pos, pos(2, 5));
    assert_eq!(err.msg, "You can only have one output per file.");
    let (typ, val) = b.out_lock.clone().unwrap();
    assert_eq!(typ, "json");
    assert_eq!(*val, Val::Int(1));
}

#[test]
fn assertion_results_accumulate() {
    let mut b = builder();
    b.enable_validate_mode();
    let ok = Token::new("1 == 1;", TokenType::PIPEQUOTE, pos(3, 8));
    let r = b.record_assert(&ok, Ok(Rc::new(Val::Boolean(true))));
    assert_eq!(*r, Val::Boolean(true));
    assert!(b.assert_collector.success);
    assert_eq!(b.assert_collector.summary, "OK - '1 == 1;' at line: 3 column: 8\n");
    assert_eq!(b.assert_collector.failures, "");

    let bad = Token::new("1 == 2;", TokenType::PIPEQUOTE, pos(4, 8));
    b.record_assert(&bad, Ok(Rc::new(Val::Boolean(false))));
    assert!(!b.assert_collector.success);
    assert_eq!(
        b.assert_collector.summary,
        "OK - '1 == 1;' at line: 3 column: 8\nNOT OK - '1 == 2;' at line: 4 column: 8\n"
    );
    assert_eq!(b.assert_collector.failures, "NOT OK - '1 == 2;' at line: 4 column: 8\n");

    // A later success does not make the run successful again.
    b.record_assert(&ok, Ok(Rc::new(Val::Boolean(true))));
    assert!(!b.assert_collector.success);
}

#[test]
fn assertion_of_another_type_is_a_type_failure() {
    let mut b = builder();
    let tok = Token::new("1;", TokenType::PIPEQUOTE, pos(10, 1));
    let r = b.record_assert(&tok, Ok(Rc::new(Val::Int(1))));
    assert_eq!(*r, Val::Int(1));
    assert!(!b.assert_collector.success);
    assert_eq!(b.assert_collector.failures, "TYPE FAIL - '1;' Expected Boolean got Integer at line: 10 column: 1\n");
    assert_eq!(b.assert_collector.summary, b.assert_collector.failures);
}

#[test]
fn assertion_that_fails_to_evaluate() {
    let mut b = builder();
    let tok = Token::new("x;", TokenType::PIPEQUOTE, pos(2, 3));
    let err = ucg::error::BuildError::new("boom".to_string(), ErrorType::NoSuchSymbol, pos(2, 3));
    let r = b.record_assert(&tok, Err(err));
    assert_eq!(*r, Val::Empty);
    assert!(!b.assert_collector.success);
    assert_eq!(b.assert_collector.failures, "NOT OK - 'x;' at line: 2 column: 3\n\tCompileError: boom\n");
}

#[test]
fn find_in_fieldlist_takes_the_first() {
    let fs: Fields = vec![field("a", Val::Int(1)), field("b", Val::Int(2)), field("a", Val::Int(3))];
    assert_eq!(*ucg::build::find_in_fieldlist(&"a".to_string(), &fs).unwrap(), Val::Int(1));
    assert_eq!(*ucg::build::find_in_fieldlist(&"b".to_string(), &fs).unwrap(), Val::Int(2));
    assert!(ucg::build::find_in_fieldlist(&"c".to_string(), &fs).is_none());
}

#[test]
fn scope_keeps_the_first_of_each_name() {
    let scope: Fields = vec![field("a", Val::Int(1)), field("b", Val::Int(2)), field("a", Val::Int(3))];
    let out = ucg::build::distinct_scope(scope);
    assert_eq!(out.len(), 2);
    assert_eq!(out[0].0.val, "a");
    assert_eq!(*out[0].1, Val::Int(1));
    assert_eq!(out[1].0.val, "b");
}

#[test]
fn pop_undoes_push() {
    let mut b = builder();
    b.push_val(Rc::new(Val::Int(7)));
    b.push_val(Rc::new(Val::Str("top".to_string())));
    assert_eq!(*b.pop_val().unwrap(), Val::Str("top".to_string()));
    assert_eq!(b.stack.as_ref().unwrap().len(), 1);
    assert_eq!(*b.peek_val().unwrap(), Val::Int(7));
}

fn assert_tuple(ok: Val, desc: Val) -> Rc<Val> {
    Rc::new(Val::Tuple(vec![field("ok", ok), field("desc", desc)]))
}

#[test]
fn assertion_tuples_pass_on_their_ok_field() {
    let mut b = builder();
    b.enable_validate_mode();
    let tok = Token::new("{ok = true, desc = \"d\"};", TokenType::PIPEQUOTE, pos(1, 8));
    let r = b.record_assert(&tok, Ok(assert_tuple(Val::Boolean(true), Val::Str("host is set".to_string()))));
    assert!(matches!(*r, Val::Tuple(_)));
    assert!(b.assert_collector.success);
    assert_eq!(b.assert_collector.summary, "OK - host is set\n");
    assert_eq!(b.assert_collector.failures, "");

    b.record_assert(&tok, Ok(assert_tuple(Val::Boolean(false), Val::Str("port is 443".to_string()))));
    assert!(!b.assert_collector.success);
    assert_eq!(b.assert_collector.summary, "OK - host is set\nNOT OK - port is 443\n");
    assert_eq!(b.assert_collector.failures, "NOT OK - port is 443\n");
}

#[test]
fn assertion_tuple_without_its_fields_is_a_type_failure() {
    let mut b = builder();
    let tok = Token::new("{ok = 1};", TokenType::PIPEQUOTE, pos(2, 4));
    b.record_assert(&tok, Ok(assert_tuple(Val::Int(1), Val::Str("d".to_string()))));
    assert!(!b.assert_collector.success);
    assert_eq!(
        b.assert_collector.failures,
        "TYPE FAIL - '{ok = 1};' Expected a tuple with a boolean ok field and a string desc field at line: 2 column: 4\n"
    );
}

#[test]
fn assertions_do_nothing_outside_validation_mode() {
    let mut b = builder();
    let bad = Token::new("1 == 2;", TokenType::PIPEQUOTE, pos(4, 8));
    let r = b.build_assert(&bad, None);
    assert_eq!(*r, Val::Empty);
    assert!(b.assert_collector.success);
    assert_eq!(b.assert_collector.summary, "");
    b.enable_validate_mode();
    let r = b.build_assert(&bad, Some(Ok(Rc::new(Val::Boolean(false)))));
    assert_eq!(*r, Val::Boolean(false));
    assert!(!b.assert_collector.success);
    assert_eq!(b.assert_collector.failures, "NOT OK - '1 == 2;' at line: 4 column: 8\n");
}
