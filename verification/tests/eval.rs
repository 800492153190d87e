use std::rc::Rc;

use ucg::ast::{
    BinaryExprType, BinaryOpDef, Expression, ImportDef, ListOpDef, ListOpType, MacroDef, Position, PositionedItem,
    SelectDef, SelectorDef, SelectorList, Token, TokenType, Value,
};
use ucg::build::{Builder, Fields, Val};
use ucg::error::{BuildError, ErrorType};

fn pos(line: usize, column: usize) -> Position {
    Position::new(line, column, 0)
}

fn builder() -> Builder {
    Builder::new_with_env_and_scope("eval.ucg".to_string(), Vec::new(), Rc::new(Val::Env(Vec::new())))
}

fn word(s: &str, line: usize, column: usize) -> Token {
    Token::new(s, TokenType::BAREWORD, pos(line, column))
}

fn ival(i: i64) -> Rc<Val> {
    Rc::new(Val::Int(i))
}

fn int_expr(i: i64) -> Expression {
    Expression::Simple(Value::Int(PositionedItem::new(i, pos(1, 1))))
}

fn sym(name: &str) -> Expression {
    Expression::Simple(Value::Symbol(PositionedItem::new(name.to_string(), pos(1, 1))))
}

fn fields(fs: Vec<(&str, Rc<Val>)>) -> Fields {
    fs.into_iter()
        .map(|(n, v)| (PositionedItem::new(n.to_string(), pos(1, 1)), v))
        .collect()
}

fn select_def() -> SelectDef {
    SelectDef {
        val: Box::new(sym("x")),
        default: Box::new(int_expr(0)),
        tuple: vec![(word("foo", 2, 1), int_expr(1)), (word("true", 3, 1), int_expr(2)), (word("foo", 4, 1), int_expr(3))],
        pos: pos(1, 1),
    }
}

#[test]
fn select_takes_the_first_named_branch() {
    let b = builder();
    let def = select_def();
    assert_eq!(b.eval_select(&def, &Val::Str("foo".to_string())).unwrap(), Some(0));
    assert_eq!(b.eval_select(&def, &Val::Boolean(true)).unwrap(), Some(1));
    assert_eq!(b.eval_select(&def, &Val::Boolean(false)).unwrap(), None);
    assert_eq!(b.eval_select(&def, &Val::Str("bar".to_string())).unwrap(), None);
    let err = b.eval_select(&def, &Val::Int(1)).unwrap_err();
    assert_eq!(err.err_type, ErrorType::TypeFail);
    assert_eq!(err.pos, pos(1, 1));
    assert_eq!(err.msg, "Expected String but got Integer in Select expression");
}

fn list_op(typ: ListOpType) -> ListOpDef {
    ListOpDef {
        typ: typ,
        mac: SelectorDef::new(SelectorList { head: Box::new(sym("m")), tail: None }, pos(1, 1)),
        field: "out".to_string(),
        target: Box::new(sym("l")),
        pos: pos(1, 1),
    }
}

#[test]
fn map_collects_the_field() {
    let b = builder();
    let items = vec![ival(1), ival(2), ival(3)];
    let outputs = vec![
        Ok(fields(vec![("out", ival(10))])),
        Ok(fields(vec![("other", ival(0))])),
        Ok(fields(vec![("out", ival(30))])),
    ];
    let r = b.eval_list_op(&list_op(ListOpType::MapOp), &items, outputs).unwrap();
    assert_eq!(*r, Val::List(vec![ival(10), ival(30)]));
}

#[test]
fn map_yields_one_value_per_item() {
    let b = builder();
    let items = vec![ival(1), ival(2)];
    let outputs = vec![Ok(fields(vec![("out", ival(5))])), Ok(fields(vec![("out", ival(6))]))];
    let r = b.eval_list_op(&list_op(ListOpType::MapOp), &items, outputs).unwrap();
    assert_eq!(*r, Val::List(vec![ival(5), ival(6)]));
}

#[test]
fn filter_keeps_items() {
    let b = builder();
    let items = vec![ival(1), ival(2), ival(3), ival(4)];
    let outputs = vec![
        Ok(fields(vec![("out", Rc::new(Val::Boolean(true)))])),
        Ok(fields(vec![("out", Rc::new(Val::Boolean(false)))])),
        Ok(fields(vec![("out", Rc::new(Val::Empty))])),
        Ok(fields(vec![("out", ival(0))])),
    ];
    let r = b.eval_list_op(&list_op(ListOpType::Filter), &items, outputs).unwrap();
    assert_eq!(*r, Val::List(vec![ival(1), ival(4)]));
}

#[test]
fn list_op_stops_at_a_failed_output() {
    let b = builder();
    let items = vec![ival(1), ival(2)];
    let outputs = vec![
        Err(BuildError::new("first".to_string(), ErrorType::TypeFail, pos(1, 1))),
        Err(BuildError::new("second".to_string(), ErrorType::TypeFail, pos(1, 1))),
    ];
    let err = b.eval_list_op(&list_op(ListOpType::MapOp), &items, outputs).unwrap_err();
    assert_eq!(err.msg, "first");
}

#[test]
fn list_op_checks() {
    let b = builder();
    let def = list_op(ListOpType::MapOp);
    assert!(b.expect_list_target(&def, &Val::List(Vec::new())).is_ok());
    let err = b.expect_list_target(&def, &Val::Int(1)).unwrap_err();
    assert_eq!(err.msg, "Expected List as target but got Integer");
    assert!(b.expect_macro(&Val::Macro(MacroDef { argdefs: Vec::new(), fields: Vec::new(), pos: pos(1, 1) }), pos(1, 1)).is_ok());
    let err = b.expect_macro(&Val::Int(1), pos(2, 2)).unwrap_err();
    assert_eq!(err.msg, "Integer is not a Macro");
    assert_eq!(err.pos, pos(2, 2));
    assert!(b.expect_copy_base(&Val::Tuple(Vec::new()), pos(1, 1)).is_ok());
    let err = b.expect_copy_base(&Val::List(Vec::new()), pos(3, 3)).unwrap_err();
    assert_eq!(err.msg, "Expected Tuple or Module got List");
}

fn mac(args: Vec<&str>, body: Vec<(&str, Expression)>) -> MacroDef {
    MacroDef {
        argdefs: args.into_iter().map(|a| PositionedItem::new(a.to_string(), pos(1, 1))).collect(),
        fields: body.into_iter().map(|(n, e)| (word(n, 1, 1), e)).collect(),
        pos: pos(5, 5),
    }
}

#[test]
fn macro_arguments_bind_in_order() {
    let m = mac(vec!["a", "b", "a"], Vec::new());
    let scope = m.bind_args(&"eval.ucg".to_string(), &vec![ival(1), ival(2), ival(3)]).unwrap();
    assert_eq!(scope.len(), 2);
    assert_eq!(scope[0].0.val, "a");
    assert_eq!(*scope[0].1, Val::Int(1));
    assert_eq!(scope[1].0.val, "b");
    let partial = m.bind_args(&"eval.ucg".to_string(), &vec![ival(1)]).unwrap();
    assert_eq!(partial.len(), 1);
    let err = m.bind_args(&"eval.ucg".to_string(), &vec![ival(1), ival(2), ival(3), ival(4)]).unwrap_err();
    assert_eq!(err.err_type, ErrorType::BadArgLen);
    assert_eq!(err.pos, pos(5, 5));
    assert_eq!(err.msg, "Macro called with too many args in file: eval.ucg");
}

#[test]
fn macros_may_only_use_their_arguments() {
    let b = builder();
    let sum = Expression::Binary(BinaryOpDef {
        kind: BinaryExprType::Add,
        left: Box::new(sym("a")),
        right: Box::new(sym("c")),
        pos: pos(1, 1),
    });
    let bad = mac(vec!["a"], vec![("x", sum)]);
    let errs = bad.validate_symbols().unwrap_err();
    assert_eq!(errs, vec!["c".to_string()]);
    let err = b.eval_macro_def(bad).unwrap_err();
    assert_eq!(err.err_type, ErrorType::NoSuchSymbol);
    assert_eq!(err.pos, pos(5, 5));
    assert_eq!(err.msg, "Macro has the following undefined symbols: c");

    let good = mac(vec!["a"], vec![("x", sym("a")), ("y", int_expr(1))]);
    assert!(good.validate_symbols().is_ok());
    let v = b.eval_macro_def(mac(vec!["a"], vec![("x", sym("a"))])).unwrap();
    assert!(matches!(*v, Val::Macro(_)));
}

#[test]
fn imports_bind_once() {
    let mut b = builder();
    let def = ImportDef { path: Token::new("lib.ucg", TokenType::QUOTED, pos(1, 8)), name: word("lib", 1, 20) };
    assert!(b.check_import_name(&def).is_ok());
    assert_eq!(*b.bind_import(&def, ival(1)).unwrap(), Val::Int(1));
    assert_eq!(*b.get_out_by_name("lib").unwrap(), Val::Int(1));
    let err = b.bind_import(&def, ival(2)).unwrap_err();
    assert_eq!(err.err_type, ErrorType::DuplicateBinding);
    assert_eq!(err.pos, pos(1, 8));
    assert_eq!(err.msg, "Binding for import name lib already exists");
    let reserved = ImportDef { path: Token::new("x", TokenType::QUOTED, pos(1, 8)), name: word("env", 1, 20) };
    let err = b.check_import_name(&reserved).unwrap_err();
    assert_eq!(err.err_type, ErrorType::ReservedWordError);
    assert_eq!(err.msg, "Import env binding collides with reserved word");
}

#[test]
fn literals_carry_over() {
    let v = Builder::literal_to_val(&Value::Int(PositionedItem::new(4, pos(1, 1)))).unwrap();
    assert_eq!(*v, Val::Int(4));
    let v = Builder::literal_to_val(&Value::Float(PositionedItem::new("1.5".to_string(), pos(1, 1)))).unwrap();
    assert_eq!(*v, Val::Float("1.5".to_string()));
    let v = Builder::literal_to_val(&Value::Empty(pos(1, 1))).unwrap();
    assert_eq!(*v, Val::Empty);
    assert!(Builder::literal_to_val(&Value::Symbol(PositionedItem::new("x".to_string(), pos(1, 1)))).is_none());
}

#[test]
fn each_argument_binds_to_its_parameter() {
    let m = mac(vec!["x", "y", "z"], Vec::new());
    let scope = m.bind_args(&"eval.ucg".to_string(), &vec![ival(10), ival(20), ival(30)]).unwrap();
    assert_eq!(*ucg::build::find_in_fieldlist(&"x".to_string(), &scope).unwrap(), Val::Int(10));
    assert_eq!(*ucg::build::find_in_fieldlist(&"y".to_string(), &scope).unwrap(), Val::Int(20));
    assert_eq!(*ucg::build::find_in_fieldlist(&"z".to_string(), &scope).unwrap(), Val::Int(30));
}

#[test]
fn more_arguments_never_add_undefined_symbols() {
    let body = || vec![("x", sym("a")), ("y", sym("b"))];
    let fewer = mac(vec!["a"], body());
    let more = mac(vec!["a", "b"], body());
    assert_eq!(fewer.validate_symbols().unwrap_err(), vec!["b".to_string()]);
    assert!(more.validate_symbols().is_ok());
}

#[test]
fn module_base_takes_the_parameter_tuple() {
    let b = builder();
    let tpl = Rc::new(Val::Tuple(vec![(PositionedItem::new("a".to_string(), pos(1, 1)), ival(1))]));
    assert_eq!(b.module_base(&Some(tpl.clone()), pos(2, 3)).unwrap(), tpl);
    let err = b.module_base(&Some(ival(1)), pos(2, 3)).unwrap_err();
    assert_eq!(err.err_type, ErrorType::TypeFail);
    assert_eq!(err.pos, pos(2, 3));
    assert_eq!(err.msg, "Weird value stored in our module parameters slot");
}

#[test]
fn module_arguments_are_bound_as_mod_once() {
    let mut b = builder();
    let args = Rc::new(Val::Tuple(vec![]));
    assert_eq!(b.bind_module_args(pos(4, 1), args.clone()).unwrap(), args);
    assert_eq!(b.get_out_by_name("mod"), Some(args.clone()));
    let err = b.bind_module_args(pos(4, 1), args).unwrap_err();
    assert_eq!(err.err_type, ErrorType::DuplicateBinding);
    assert_eq!(err.pos, pos(4, 1));
    assert_eq!(err.msg, "Binding for mod already exists in module");
}

#[test]
fn positioned_items_compare_by_value_only() {
    let a = PositionedItem::new("foo".to_string(), pos(1, 1));
    let b = PositionedItem::new("foo".to_string(), pos(7, 9));
    let c = PositionedItem::new("bar".to_string(), pos(1, 1));
    assert!(a == b);
    assert!(a != c);
}
