//! The decisions of the build stage that follow the evaluation of
//! sub-expressions: which branch a select takes, what a list operation keeps,
//! how a macro binds its arguments, how assertions, outputs and imports are
//! recorded.
use vstd::prelude::*;
use std::rc::Rc;

use crate::ast::{BinaryExprType, FieldList, ImportDef, ListOpDef, ListOpType, MacroDef, Position, PositionedItem, SelectDef, Token, TokenType, Value};
use crate::error::{BuildError, ErrorType, concat3};
use crate::text::{nat_text, usize_to_text};
use super::ir::{Val, val_typ_name};
use super::ops::{arith_defined, binary_agrees, both_floats};
use super::{Builder, Fields, find_in_fieldlist, is_reserved_word, lookup_named, names_distinct};

verus! {

/// The index of the first field whose token holds the given name.
pub open spec fn first_token_named(fs: Seq<(Token, crate::ast::Expression)>, name: Seq<char>) -> Option<int>
    decreases fs.len(),
{
    if fs.len() == 0 {
        None
    } else if fs[0].0.fragment@ == name {
        Some(0)
    } else {
        match first_token_named(fs.drop_first(), name) {
            Some(i) => Some(i + 1),
            None => None,
        }
    }
}

/// The branch a select expression takes for the value of its target: the first
/// field named by a string, or `true`/`false` for a boolean; `Some(None)` is the
/// default, `None` a target of another type.
pub open spec fn select_choice(v: Val, fields: Seq<(Token, crate::ast::Expression)>) -> Option<Option<int>> {
    match v {
        Val::Str(name) => Some(first_token_named(fields, name@)),
        Val::Boolean(b) => Some(first_token_named(fields, if b { "true"@ } else { "false"@ })),
        _ => None,
    }
}

fn first_field_index(fields: &FieldList, name: &String) -> (r: Option<usize>)
    ensures
        match first_token_named(fields@, name@) {
            Some(i) => r == Some(i as usize),
            None => r is None,
        },
{
    let mut i: usize = 0;
    assert(fields@.skip(0) =~= fields@);
    while i < fields.len()
        invariant
            i <= fields@.len(),
            first_token_named(fields@, name@) == (match first_token_named(fields@.skip(i as int), name@) {
                Some(j) => Some(j + i),
                None => None,
            }),
        decreases fields@.len() - i,
    {
        proof {
            assert(fields@.skip(i as int)[0] == fields@[i as int]);
            assert(fields@.skip(i as int).drop_first() =~= fields@.skip(i + 1));
        }
        if fields[i].0.fragment == *name {
            return Some(i);
        }
        i = i + 1;
    }
    None
}

/// What a list operation yields from the outputs of its macro on the list's
/// items, in order: a map collects the named field of each output, a filter
/// keeps the items whose field is neither empty nor false; an output without
/// the field contributes nothing, and the first failed output is the result.
pub open spec fn list_op_result(
    typ: ListOpType,
    field: Seq<char>,
    items: Seq<Rc<Val>>,
    outputs: Seq<Result<Fields, BuildError>>,
) -> Result<Seq<Rc<Val>>, BuildError>
    decreases outputs.len(),
{
    if outputs.len() == 0 {
        Ok(Seq::empty())
    } else {
        let k = outputs.len() - 1;
        match list_op_result(typ, field, items, outputs.drop_last()) {
            Err(e) => Err(e),
            Ok(out) => match outputs[k] {
                Err(e) => Err(e),
                Ok(fs) => match lookup_named(fs@, field) {
                    None => Ok(out),
                    Some(v) => match typ {
                        ListOpType::MapOp => Ok(out.push(v)),
                        ListOpType::Filter => if *v is Empty || *v == Val::Boolean(false) {
                            Ok(out)
                        } else {
                            Ok(out.push(items[k]))
                        },
                    },
                },
            },
        }
    }
}

/// What an assertion's tuple says: its first `ok` field, a boolean, and its
/// first `desc` field, a string; `None` where either is missing or of
/// another type.
pub open spec fn tuple_verdict(fs: Seq<(PositionedItem<String>, Rc<Val>)>) -> Option<(bool, Seq<char>)> {
    match (lookup_named(fs, "ok"@), lookup_named(fs, "desc"@)) {
        (Some(o), Some(d)) => match (*o, *d) {
            (Val::Boolean(b), Val::Str(s)) => Some((b, s@)),
            _ => None,
        },
        _ => None,
    }
}

/// Reads what an assertion's tuple says.
fn tuple_assert_verdict(fs: &Fields) -> (r: Option<(bool, String)>)
    ensures
        match tuple_verdict(fs@) {
            Some((b, d)) => r matches Some((x, s)) && x == b && s@ == d,
            None => r is None,
        },
{
    let ok_name = "ok".to_owned();
    let desc_name = "desc".to_owned();
    match (find_in_fieldlist(&ok_name, fs), find_in_fieldlist(&desc_name, fs)) {
        (Some(o), Some(d)) => match (&*o, &*d) {
            (Val::Boolean(b), Val::Str(s)) => Some((*b, s.clone())),
            _ => None,
        },
        _ => None,
    }
}

/// The text that places an assertion: its expression, line and column.
pub open spec fn assert_place(expr: Seq<char>, pos: Position) -> Seq<char> {
    "'"@ + expr + "' at line: "@ + nat_text(pos.line as nat) + " column: "@ + nat_text(pos.column as nat)
}

impl Builder {
    /// The branch a select expression takes, given the value its target evaluated to.
    pub fn eval_select(&self, def: &SelectDef, v: &Val) -> (r: Result<Option<usize>, BuildError>)
        ensures
            match select_choice(*v, def.tuple@) {
                Some(Some(i)) => r == Ok::<Option<usize>, BuildError>(Some(i as usize)),
                Some(None) => r == Ok::<Option<usize>, BuildError>(None),
                None => r matches Err(e) && e.err_type == ErrorType::TypeFail && e.pos == def.pos
                    && e.msg@ =~= "Expected String but got "@ + val_typ_name(*v) + " in Select expression"@,
            },
    {
        match v {
            Val::Str(name) => Ok(first_field_index(&def.tuple, name)),
            Val::Boolean(b) => {
                let name = if *b { "true".to_owned() } else { "false".to_owned() };
                Ok(first_field_index(&def.tuple, &name))
            },
            _ => {
                let name = v.typ_name();
                let msg = concat3("Expected String but got ", name.as_str(), " in Select expression");
                Err(BuildError::new(msg, ErrorType::TypeFail, def.pos))
            },
        }
    }

    /// Checks that a list operation's target evaluated to a list.
    pub fn expect_list_target(&self, def: &ListOpDef, v: &Val) -> (r: Result<(), BuildError>)
        ensures
            r is Ok <==> *v is List,
            r matches Err(e) ==> e.err_type == ErrorType::TypeFail && e.pos == def.target.position()
                && e.msg@ =~= "Expected List as target but got "@ + val_typ_name(*v),
    {
        proof {
            reveal_strlit("");
        }
        match v {
            Val::List(_) => Ok(()),
            other => {
                let name = other.typ_name();
                let msg = concat3("Expected List as target but got ", name.as_str(), "");
                Err(BuildError::new(msg, ErrorType::TypeFail, *def.target.pos()))
            },
        }
    }

    /// Checks that what a call or a list operation names evaluated to a macro.
    pub fn expect_macro(&self, v: &Val, pos: Position) -> (r: Result<(), BuildError>)
        ensures
            r is Ok <==> *v is Macro,
            r matches Err(e) ==> e.err_type == ErrorType::TypeFail && e.pos == pos
                && e.msg@ =~= val_typ_name(*v) + " is not a Macro"@,
    {
        proof {
            reveal_strlit("");
        }
        match v {
            Val::Macro(_) => Ok(()),
            other => {
                let name = other.typ_name();
                let msg = concat3("", name.as_str(), " is not a Macro");
                Err(BuildError::new(msg, ErrorType::TypeFail, pos))
            },
        }
    }

    /// The default tuple of a module that a copy instantiates: the module's
    /// evaluated parameter tuple; anything else there is a type error at the
    /// copy's selector.
    pub fn module_base(&self, arg_tuple: &Option<Rc<Val>>, pos: Position) -> (r: Result<Rc<Val>, BuildError>)
        requires
            arg_tuple is Some,
        ensures
            match *arg_tuple->Some_0 {
                Val::Tuple(_) => r == Ok::<Rc<Val>, BuildError>(arg_tuple->Some_0),
                _ => r matches Err(e) && e.err_type == ErrorType::TypeFail && e.pos == pos
                    && e.msg@ == "Weird value stored in our module parameters slot"@,
            },
    {
        let tpl = match arg_tuple {
            Some(t) => t,
            None => {
                return Err(BuildError::new("".to_owned(), ErrorType::TypeFail, pos));
            },
        };
        match &**tpl {
            Val::Tuple(_) => Ok(tpl.clone()),
            _ => Err(BuildError::new("Weird value stored in our module parameters slot".to_owned(), ErrorType::TypeFail, pos)),
        }
    }

    /// Binds the arguments of a module instance as `mod` in the builder of the
    /// module's statements. Where `mod` is bound already, that is a duplicate
    /// binding at the module's position and nothing changes.
    pub fn bind_module_args(&mut self, mod_pos: Position, args: Rc<Val>) -> (r: Result<Rc<Val>, BuildError>)
        requires
            old(self).wf(),
        ensures
            final(self).wf(),
            old(self).symbol_value("mod"@) is Some ==> *final(self) == *old(self) && (r matches Err(e)
                && e.err_type == ErrorType::DuplicateBinding && e.pos == mod_pos
                && e.msg@ == "Binding for mod already exists in module"@),
            old(self).symbol_value("mod"@) is None ==> exists|name: Token|
                {
                    &&& name.fragment@ == "mod"@
                    &&& name.typ == TokenType::BAREWORD
                    &&& name.pos == (Position { line: 0, column: 0, offset: 0 })
                    &&& Builder::let_outcome(*old(self), *final(self), name, args, r)
                },
    {
        if self.get_out_by_name("mod").is_some() {
            return Err(BuildError::new("Binding for mod already exists in module".to_owned(), ErrorType::DuplicateBinding, mod_pos));
        }
        let key = Token::new("mod", TokenType::BAREWORD, Position::new(0, 0, 0));
        self.build_let(&key, args)
    }

    /// Checks that what a copy starts from evaluated to a tuple or a module.
    pub fn expect_copy_base(&self, v: &Val, pos: Position) -> (r: Result<(), BuildError>)
        ensures
            r is Ok <==> (*v is Tuple || *v is Module),
            r matches Err(e) ==> e.err_type == ErrorType::TypeFail && e.pos == pos
                && e.msg@ =~= "Expected Tuple or Module got "@ + val_typ_name(*v),
    {
        proof {
            reveal_strlit("");
        }
        match v {
            Val::Tuple(_) => Ok(()),
            Val::Module(_) => Ok(()),
            other => {
                let name = other.typ_name();
                let msg = concat3("Expected Tuple or Module got ", name.as_str(), "");
                Err(BuildError::new(msg, ErrorType::TypeFail, pos))
            },
        }
    }

    /// The list a list operation yields, given the outputs of its macro on the
    /// items of the target list, up to the first output that failed.
    pub fn eval_list_op(&self, def: &ListOpDef, items: &Vec<Rc<Val>>, outputs: Vec<Result<Fields, BuildError>>) -> (r: Result<Rc<Val>, BuildError>)
        requires
            outputs@.len() <= items@.len(),
        ensures
            match list_op_result(def.typ, def.field@, items@, outputs@) {
                Ok(out) => r matches Ok(v) && *v matches Val::List(l) && l@ == out,
                Err(e) => r == Err::<Rc<Val>, BuildError>(e),
            },
    {
        let mut outs = outputs;
        let ghost os = outs@;
        let mut out: Vec<Rc<Val>> = Vec::new();
        let mut k: usize = 0;
        while k < outs.len()
            invariant
                k <= outs@.len(),
                outs@.len() == os.len(),
                os == outputs@,
                os.len() <= items@.len(),
                forall|j: int| k <= j < os.len() ==> #[trigger] outs@[j] == os[j],
                list_op_result(def.typ, def.field@, items@, os.take(k as int)) == Ok::<Seq<Rc<Val>>, BuildError>(out@),
            decreases outs@.len() - k,
        {
            proof {
                assert(os.take(k + 1).drop_last() =~= os.take(k as int));
                assert(os.take(k + 1)[k as int] == os[k as int]);
            }
            let mut res: Result<Fields, BuildError> = Ok(Vec::new());
            std::mem::swap(&mut res, &mut outs[k]);
            assert(res == os[k as int]);
            let fields = match res {
                Ok(fs) => fs,
                Err(e) => {
                    proof {
                        lemma_list_op_error_stays(def.typ, def.field@, items@, os, k as int + 1);
                    }
                    return Err(e);
                },
            };
            match find_in_fieldlist(&def.field, &fields) {
                None => {},
                Some(v) => match def.typ {
                    ListOpType::MapOp => {
                        out.push(v);
                    },
                    ListOpType::Filter => {
                        let keep = match &*v {
                            Val::Empty => false,
                            Val::Boolean(b) => *b,
                            _ => true,
                        };
                        if keep {
                            out.push(items[k].clone());
                        }
                    },
                },
            }
            k = k + 1;
        }
        proof {
            assert(os.take(os.len() as int) =~= os);
        }
        Ok(Rc::new(Val::List(out)))
    }

    /// What recording an assertion's result does to the collector: a true
    /// boolean adds an `OK` line to the summary; false, a failed evaluation or
    /// a value of another type adds a failure line to the summary and to the
    /// failures and marks the collector failed. The returned value is what the
    /// assertion evaluated to, or the empty value where it failed to evaluate.
    pub open spec fn assert_outcome(
        before: Builder,
        after: Builder,
        tok: Token,
        result: Result<Rc<Val>, BuildError>,
        r: Rc<Val>,
    ) -> bool {
        match result {
            Ok(v) => r == v && match *v {
                Val::Boolean(true) => {
                    &&& after.assert_collector.success == before.assert_collector.success
                    &&& after.assert_collector.summary@ =~= before.assert_collector.summary@
                        + "OK - "@ + assert_place(tok.fragment@, tok.pos) + "\n"@
                    &&& after.assert_collector.failures@ =~= before.assert_collector.failures@
                },
                Val::Boolean(false) => {
                    &&& !after.assert_collector.success
                    &&& after.assert_collector.summary@ =~= before.assert_collector.summary@
                        + "NOT OK - "@ + assert_place(tok.fragment@, tok.pos) + "\n"@
                    &&& after.assert_collector.failures@ =~= before.assert_collector.failures@
                        + "NOT OK - "@ + assert_place(tok.fragment@, tok.pos) + "\n"@
                },
                Val::Tuple(fs) => match tuple_verdict(fs@) {
                    Some((true, desc)) => {
                        &&& after.assert_collector.success == before.assert_collector.success
                        &&& after.assert_collector.summary@ =~= before.assert_collector.summary@ + "OK - "@ + desc + "\n"@
                        &&& after.assert_collector.failures@ =~= before.assert_collector.failures@
                    },
                    Some((false, desc)) => {
                        &&& !after.assert_collector.success
                        &&& after.assert_collector.summary@ =~= before.assert_collector.summary@ + "NOT OK - "@ + desc + "\n"@
                        &&& after.assert_collector.failures@ =~= before.assert_collector.failures@ + "NOT OK - "@ + desc + "\n"@
                    },
                    None => {
                        let msg = "TYPE FAIL - '"@ + tok.fragment@ + "' Expected a tuple with a boolean ok field and a string desc field"@
                            + " at line: "@ + nat_text(tok.pos.line as nat) + " column: "@ + nat_text(tok.pos.column as nat) + "\n"@;
                        &&& !after.assert_collector.success
                        &&& after.assert_collector.summary@ =~= before.assert_collector.summary@ + msg
                        &&& after.assert_collector.failures@ =~= before.assert_collector.failures@ + msg
                    },
                },
                other => {
                    let msg = "TYPE FAIL - '"@ + tok.fragment@ + "' Expected Boolean got "@ + val_typ_name(other)
                        + " at line: "@ + nat_text(tok.pos.line as nat) + " column: "@ + nat_text(tok.pos.column as nat) + "\n"@;
                    &&& !after.assert_collector.success
                    &&& after.assert_collector.summary@ =~= before.assert_collector.summary@ + msg
                    &&& after.assert_collector.failures@ =~= before.assert_collector.failures@ + msg
                },
            },
            Err(e) => {
                let msg = "NOT OK - "@ + assert_place(tok.fragment@, tok.pos) + "\n\tCompileError: "@ + e.msg@ + "\n"@;
                &&& *r == Val::Empty
                &&& !after.assert_collector.success
                &&& after.assert_collector.summary@ =~= before.assert_collector.summary@ + msg
                &&& after.assert_collector.failures@ =~= before.assert_collector.failures@ + msg
            },
        }
    }

    /// An assertion statement. Outside validation mode it does nothing and
    /// yields the empty value, and its expression is not evaluated; in it,
    /// `result` is what the expression evaluated to, and it is recorded as
    /// `record_assert` does.
    pub fn build_assert(&mut self, tok: &Token, result: Option<Result<Rc<Val>, BuildError>>) -> (r: Rc<Val>)
        requires
            result is Some <==> old(self).validate_mode,
        ensures
            !old(self).validate_mode ==> *final(self) == *old(self) && *r == Val::Empty,
            old(self).validate_mode ==> {
                &&& *final(self) == (Builder { assert_collector: final(self).assert_collector, ..*old(self) })
                &&& Builder::assert_outcome(*old(self), *final(self), *tok, result->Some_0, r)
            },
    {
        match result {
            None => Rc::new(Val::Empty),
            Some(res) => self.record_assert(tok, res),
        }
    }

    /// Records the result of an assertion in validation mode and returns what
    /// the assertion evaluated to, or the empty value where it failed to evaluate.
    ///
    /// A true boolean, or a tuple whose `ok` field is true and whose `desc`
    /// field is a string, is a success; the tuple's line shows its `desc`.
    /// False, a failed evaluation, a tuple without those fields or a value of
    /// another type is a failure.
    pub fn record_assert(&mut self, tok: &Token, result: Result<Rc<Val>, BuildError>) -> (r: Rc<Val>)
        ensures
            *final(self) == (Builder { assert_collector: final(self).assert_collector, ..*old(self) }),
            Builder::assert_outcome(*old(self), *final(self), *tok, result, r),
    {
        let line = usize_to_text(tok.pos.line);
        let column = usize_to_text(tok.pos.column);
        let mut place = concat3("'", tok.fragment.as_str(), "' at line: ");
        place.append(line.as_str());
        place.append(" column: ");
        place.append(column.as_str());
        match result {
            Err(e) => {
                let mut msg = concat3("NOT OK - ", place.as_str(), "\n\tCompileError: ");
                msg.append(e.msg.as_str());
                msg.append("\n");
                self.assert_collector.summary.append(msg.as_str());
                self.assert_collector.failures.append(msg.as_str());
                self.assert_collector.success = false;
                Rc::new(Val::Empty)
            },
            Ok(ok) => {
                match &*ok {
                    Val::Boolean(b) => {
                        if *b {
                            let msg = concat3("OK - ", place.as_str(), "\n");
                            self.assert_collector.summary.append(msg.as_str());
                        } else {
                            let msg = concat3("NOT OK - ", place.as_str(), "\n");
                            self.assert_collector.summary.append(msg.as_str());
                            self.assert_collector.failures.append(msg.as_str());
                            self.assert_collector.success = false;
                        }
                    },
                    Val::Tuple(fs) => {
                        match tuple_assert_verdict(fs) {
                            Some((true, desc)) => {
                                let msg = concat3("OK - ", desc.as_str(), "\n");
                                self.assert_collector.summary.append(msg.as_str());
                            },
                            Some((false, desc)) => {
                                let msg = concat3("NOT OK - ", desc.as_str(), "\n");
                                self.assert_collector.summary.append(msg.as_str());
                                self.assert_collector.failures.append(msg.as_str());
                                self.assert_collector.success = false;
                            },
                            None => {
                                let mut msg = concat3(
                                    "TYPE FAIL - '",
                                    tok.fragment.as_str(),
                                    "' Expected a tuple with a boolean ok field and a string desc field",
                                );
                                msg.append(" at line: ");
                                msg.append(line.as_str());
                                msg.append(" column: ");
                                msg.append(column.as_str());
                                msg.append("\n");
                                self.assert_collector.failures.append(msg.as_str());
                                self.assert_collector.success = false;
                                self.assert_collector.summary.append(msg.as_str());
                            },
                        }
                    },
                    other => {
                        let name = other.typ_name();
                        let mut msg = concat3("TYPE FAIL - '", tok.fragment.as_str(), "' Expected Boolean got ");
                        msg.append(name.as_str());
                        msg.append(" at line: ");
                        msg.append(line.as_str());
                        msg.append(" column: ");
                        msg.append(column.as_str());
                        msg.append("\n");
                        self.assert_collector.failures.append(msg.as_str());
                        self.assert_collector.success = false;
                        self.assert_collector.summary.append(msg.as_str());
                    },
                }
                ok
            },
        }
    }

    /// What an output statement does: the first one of a file sets the output
    /// to its converter's name and value; any later one is an error and leaves
    /// the output as it was.
    pub open spec fn output_outcome(
        before: Builder,
        after: Builder,
        typ: Token,
        val: Rc<Val>,
        r: Result<Rc<Val>, BuildError>,
    ) -> bool {
        if before.out_lock is None {
            &&& r == Ok::<Rc<Val>, BuildError>(val)
            &&& after.out_lock matches Some((t, v)) && t@ == typ.fragment@ && v == val
        } else {
            &&& r matches Err(e) && e.err_type == ErrorType::DuplicateBinding && e.pos == typ.pos
                && e.msg@ =~= "You can only have one output per file."@
            &&& after.out_lock == before.out_lock
        }
    }

    /// Sets the output of the file: only one output statement may run per file.
    pub fn set_output(&mut self, typ: &Token, val: Rc<Val>) -> (r: Result<Rc<Val>, BuildError>)
        ensures
            *final(self) == (Builder { out_lock: final(self).out_lock, ..*old(self) }),
            Builder::output_outcome(*old(self), *final(self), *typ, val, r),
    {
        if self.out_lock.is_none() {
            self.out_lock = Some((typ.fragment.clone(), val.clone()));
            Ok(val)
        } else {
            Err(BuildError::new("You can only have one output per file.".to_owned(), ErrorType::DuplicateBinding, typ.pos))
        }
    }

    /// Checks that an import's binding name is not a reserved word.
    pub fn check_import_name(&self, def: &ImportDef) -> (r: Result<(), BuildError>)
        ensures
            r is Ok <==> !is_reserved_word(def.name.fragment@),
            r matches Err(e) ==> e.err_type == ErrorType::ReservedWordError && e.pos == def.name.pos
                && e.msg@ =~= "Import "@ + def.name.fragment@ + " binding collides with reserved word"@,
    {
        if Self::check_reserved_word(def.name.fragment.as_str()) {
            let msg = concat3("Import ", def.name.fragment.as_str(), " binding collides with reserved word");
            return Err(BuildError::new(msg, ErrorType::ReservedWordError, def.name.pos));
        }
        Ok(())
    }

    /// Binds the value an import produced to the import's name; a name that
    /// is bound already is an error at the import's path.
    pub fn bind_import(&mut self, def: &ImportDef, result: Rc<Val>) -> (r: Result<Rc<Val>, BuildError>)
        requires
            old(self).wf(),
        ensures
            final(self).wf(),
            *final(self) == (Builder { build_output: final(self).build_output, ..*old(self) }),
            old(self).bound(def.name.fragment@) is Some ==> (r matches Err(e)
                && e.err_type == ErrorType::DuplicateBinding && e.pos == def.path.pos
                && e.msg@ =~= "Binding for import name "@ + def.name.fragment@ + " already exists"@)
                && final(self).bindings() == old(self).bindings(),
            old(self).bound(def.name.fragment@) is None ==> r == Ok::<Rc<Val>, BuildError>(result)
                && final(self).bindings() == old(self).bindings().push((PositionedItem::<String> { pos: def.name.pos, val: def.name.fragment }, result)),
    {
        if find_in_fieldlist(&def.name.fragment, &self.build_output).is_some() {
            let msg = concat3("Binding for import name ", def.name.fragment.as_str(), " already exists");
            return Err(BuildError::new(msg, ErrorType::DuplicateBinding, def.path.pos));
        }
        proof {
            super::lemma_lookup_found(self.build_output@, def.name.fragment@);
        }
        self.build_output.push((PositionedItem::from_token(&def.name), result.clone()));
        Ok(result)
    }
}

/// The value a literal stands for: the empty value, booleans, integers,
/// floats and strings carry over; symbols, lists, tuples and selectors are
/// evaluated and stand for none here.
pub open spec fn literal_val(v: Value) -> Option<Val> {
    match v {
        Value::Empty(_) => Some(Val::Empty),
        Value::Boolean(b) => Some(Val::Boolean(b.val)),
        Value::Int(i) => Some(Val::Int(i.val)),
        Value::Float(f) => Some(Val::Float(f.val)),
        Value::Str(s) => Some(Val::Str(s.val)),
        _ => None,
    }
}

/// The start of the message of a macro that refers to symbols other than its
/// arguments; the symbols follow, separated by commas.
pub open spec fn undefined_prefix() -> Seq<char> {
    "Macro has the following undefined symbols: "@
}

impl Builder {
    /// The value of a literal; `None` for the values that need evaluation.
    pub fn literal_to_val(v: &Value) -> (r: Option<Rc<Val>>)
        ensures
            match literal_val(*v) {
                Some(x) => r matches Some(y) && *y == x,
                None => r is None,
            },
    {
        match v {
            Value::Empty(_) => Some(Rc::new(Val::Empty)),
            Value::Boolean(b) => Some(Rc::new(Val::Boolean(b.val))),
            Value::Int(i) => Some(Rc::new(Val::Int(i.val))),
            Value::Float(f) => Some(Rc::new(Val::Float(f.val.clone()))),
            Value::Str(s) => Some(Rc::new(Val::Str(s.val.clone()))),
            _ => None,
        }
    }

    /// The value a symbol refers to, or an error naming the symbol and the file.
    pub fn value_of_symbol(&self, s: &PositionedItem<String>) -> (r: Result<Rc<Val>, BuildError>)
        ensures
            match self.symbol_value(s.val@) {
                Some(v) => r == Ok::<Rc<Val>, BuildError>(v),
                None => r matches Err(e) && e.err_type == ErrorType::NoSuchSymbol && e.pos == s.pos
                    && e.msg@ =~= "Unable to find "@ + s.val@ + " in file: "@ + self.file_name(),
            },
    {
        match self.lookup_sym(s) {
            Some(v) => Ok(v),
            None => {
                let mut msg = concat3("Unable to find ", s.val.as_str(), " in file: ");
                msg.append(self.file.as_str());
                Err(BuildError::new(msg, ErrorType::NoSuchSymbol, s.pos))
            },
        }
    }

    /// The value of a macro expression: the macro itself, when its fields refer
    /// only to its arguments.
    pub fn eval_macro_def(&self, def: MacroDef) -> (r: Result<Rc<Val>, BuildError>)
        ensures
            crate::symbols::fields_symbols(def.fields@, def.argdefs@) == Set::<Seq<char>>::empty()
                ==> (r matches Ok(v) && *v == Val::Macro(def)),
            crate::symbols::fields_symbols(def.fields@, def.argdefs@) != Set::<Seq<char>>::empty()
                ==> (r matches Err(e) && e.err_type == ErrorType::NoSuchSymbol && e.pos == def.pos
                    && e.msg@.len() >= undefined_prefix().len()
                    && e.msg@.subrange(0, undefined_prefix().len() as int) == undefined_prefix()),
    {
        match def.validate_symbols() {
            Ok(()) => Ok(Rc::new(Val::Macro(def))),
            Err(set) => {
                let mut msg = "Macro has the following undefined symbols: ".to_owned();
                let ghost plen = undefined_prefix().len();
                let mut i: usize = 0;
                while i < set.len()
                    invariant
                        msg@.len() >= plen,
                        plen == undefined_prefix().len(),
                        msg@.subrange(0, plen as int) == undefined_prefix(),
                    decreases set@.len() - i,
                {
                    let ghost before = msg@;
                    if i > 0 {
                        msg.append(", ");
                    }
                    msg.append(set[i].as_str());
                    assert(msg@.subrange(0, plen as int) =~= before.subrange(0, plen as int));
                    i = i + 1;
                }
                Err(BuildError::new(msg, ErrorType::NoSuchSymbol, def.pos))
            },
        }
    }

    /// Applies a binary operator to the values of its operands.
    pub fn eval_binary_op(&self, kind: BinaryExprType, pos: &Position, left: Rc<Val>, right: Rc<Val>) -> (r: Result<Rc<Val>, BuildError>)
        requires
            !both_floats(*left, *right),
            kind == BinaryExprType::Add ==> arith_defined('+', *left, *right),
            kind == BinaryExprType::Sub ==> arith_defined('-', *left, *right),
            kind == BinaryExprType::Mul ==> arith_defined('*', *left, *right),
            kind == BinaryExprType::Div ==> arith_defined('/', *left, *right),
        ensures
            binary_agrees(kind, *pos, *left, *right, r, self.file_name()),
    {
        match kind {
            BinaryExprType::Add => self.add_vals(pos, left, right),
            BinaryExprType::Sub => self.subtract_vals(pos, left, right),
            BinaryExprType::Mul => self.multiply_vals(pos, left, right),
            BinaryExprType::Div => self.divide_vals(pos, left, right),
            BinaryExprType::Equal => self.do_deep_equal(pos, left, right),
            BinaryExprType::NotEqual => self.do_not_deep_equal(pos, left, right),
            BinaryExprType::GT => self.do_gt(pos, left, right),
            BinaryExprType::LT => self.do_lt(pos, left, right),
            BinaryExprType::GTEqual => self.do_gtequal(pos, left, right),
            BinaryExprType::LTEqual => self.do_ltequal(pos, left, right),
        }
    }
}

proof fn lemma_list_op_error_stays(
    typ: ListOpType,
    field: Seq<char>,
    items: Seq<Rc<Val>>,
    os: Seq<Result<Fields, BuildError>>,
    k: int,
)
    requires
        1 <= k <= os.len(),
        list_op_result(typ, field, items, os.take(k)) is Err,
    ensures
        list_op_result(typ, field, items, os) == list_op_result(typ, field, items, os.take(k)),
    decreases os.len() - k,
{
    if k < os.len() {
        assert(os.take(k + 1).drop_last() =~= os.take(k));
        lemma_list_op_error_stays(typ, field, items, os, k + 1);
    } else {
        assert(os.take(k) =~= os);
    }
}

/// The bindings a macro call makes: the i-th argument under the i-th
/// parameter's name, where the first binding of a repeated name wins.
pub open spec fn arg_scope(argdefs: Seq<PositionedItem<String>>, args: Seq<Rc<Val>>) -> Seq<(PositionedItem<String>, Rc<Val>)>
    decreases args.len(),
{
    if args.len() == 0 {
        Seq::empty()
    } else {
        let k = args.len() - 1;
        let before = arg_scope(argdefs, args.drop_last());
        if lookup_named(before, argdefs[k].val@) is Some {
            before
        } else {
            before.push((argdefs[k], args[k]))
        }
    }
}

impl MacroDef {
    /// Binds the arguments of a macro call to the macro's parameters.
    ///
    /// More arguments than parameters is an error; missing arguments are left unbound.
    pub fn bind_args(&self, root: &String, args: &Vec<Rc<Val>>) -> (r: Result<Fields, BuildError>)
        ensures
            args@.len() > self.argdefs@.len() ==> (r matches Err(e) && e.err_type == ErrorType::BadArgLen && e.pos == self.pos
                && e.msg@ =~= "Macro called with too many args in file: "@ + root@),
            args@.len() <= self.argdefs@.len() ==> (r matches Ok(scope) && scope@ == arg_scope(self.argdefs@, args@)
                && names_distinct(scope@)),
    {
        proof {
            reveal_strlit("");
        }
        if args.len() > self.argdefs.len() {
            let msg = concat3("Macro called with too many args in file: ", root.as_str(), "");
            return Err(BuildError::new(msg, ErrorType::BadArgLen, self.pos));
        }
        let mut scope: Fields = Vec::new();
        let mut i: usize = 0;
        while i < args.len()
            invariant
                i <= args@.len(),
                args@.len() <= self.argdefs@.len(),
                scope@ == arg_scope(self.argdefs@, args@.take(i as int)),
                names_distinct(scope@),
            decreases args@.len() - i,
        {
            proof {
                assert(args@.take(i + 1).drop_last() =~= args@.take(i as int));
                super::lemma_lookup_found(scope@, self.argdefs@[i as int].val@);
            }
            let name = &self.argdefs[i];
            if find_in_fieldlist(&name.val, &scope).is_none() {
                scope.push((name.copy(), args[i].clone()));
            }
            i = i + 1;
        }
        assert(args@.take(args@.len() as int) =~= args@);
        Ok(scope)
    }
}

/// Whether an assertion's value passes: a true boolean, or a tuple whose
/// `ok` field is true and whose `desc` field is a string.
pub open spec fn assert_passes(v: Val) -> bool {
    v == Val::Boolean(true) || (v matches Val::Tuple(fs) && tuple_verdict(fs@) matches Some((true, _)))
}

/// Assertion results accumulate: the summary and the failures only grow, and
/// the collector stays successful exactly while every assertion recorded
/// passed.
pub proof fn law_assert_results_accumulate(
    before: Builder,
    after: Builder,
    tok: Token,
    result: Result<Rc<Val>, BuildError>,
    r: Rc<Val>,
)
    requires
        Builder::assert_outcome(before, after, tok, result, r),
    ensures
        after.assert_collector.success == (before.assert_collector.success
            && (result matches Ok(v) && assert_passes(*v))),
        before.assert_collector.summary@.is_prefix_of(after.assert_collector.summary@),
        before.assert_collector.failures@.is_prefix_of(after.assert_collector.failures@),
{
    let s0 = before.assert_collector.summary@;
    let s1 = after.assert_collector.summary@;
    let f0 = before.assert_collector.failures@;
    let f1 = after.assert_collector.failures@;
    assert(s1.subrange(0, s0.len() as int) =~= s0);
    assert(f1.subrange(0, f0.len() as int) =~= f0);
}

/// A file has one output: once an output statement has set the output, a
/// later one fails with a duplicate binding and the first output stays.
pub proof fn law_one_output_per_file(
    first: Builder,
    second: Builder,
    third: Builder,
    typ: Token,
    val: Rc<Val>,
    r1: Result<Rc<Val>, BuildError>,
    typ2: Token,
    val2: Rc<Val>,
    r2: Result<Rc<Val>, BuildError>,
)
    requires
        Builder::output_outcome(first, second, typ, val, r1),
        r1 is Ok,
        Builder::output_outcome(second, third, typ2, val2, r2),
    ensures
        r2 matches Err(e) && e.err_type == ErrorType::DuplicateBinding && e.pos == typ2.pos,
        third.out_lock matches Some((t, v)) && t@ == typ.fragment@ && v == val,
{
}

/// A filter keeps items of its list and nothing else: each item it yields is
/// an item of the list, and it yields at most one per output.
pub proof fn law_filter_keeps_items(
    field: Seq<char>,
    items: Seq<Rc<Val>>,
    outputs: Seq<Result<Fields, BuildError>>,
)
    requires
        outputs.len() <= items.len(),
        list_op_result(ListOpType::Filter, field, items, outputs) is Ok,
    ensures
        ({
            let out = list_op_result(ListOpType::Filter, field, items, outputs)->Ok_0;
            &&& out.len() <= outputs.len()
            &&& forall|x: int| 0 <= x < out.len() ==> exists|k: int| 0 <= k < outputs.len() && #[trigger] out[x] == items[k]
        }),
    decreases outputs.len(),
{
    if outputs.len() > 0 {
        let k = outputs.len() - 1;
        law_filter_keeps_items(field, items, outputs.drop_last());
        let prev = list_op_result(ListOpType::Filter, field, items, outputs.drop_last())->Ok_0;
        let out = list_op_result(ListOpType::Filter, field, items, outputs)->Ok_0;
        assert forall|x: int| 0 <= x < out.len() implies exists|j: int| 0 <= j < outputs.len() && #[trigger] out[x] == items[j] by {
            if x < prev.len() {
                assert(out[x] == prev[x]);
                let j = choose|j: int| 0 <= j < outputs.drop_last().len() && #[trigger] prev[x] == items[j];
                assert(out[x] == items[j]);
            } else {
                assert(out[x] == items[k]);
            }
        }
    }
}

/// What one more output does to a filter: it keeps its item exactly when the
/// output holds the field and the field's value is neither empty nor false
/// (any other value, a string of any length included, keeps it), and leaves
/// what the earlier outputs kept as it was.
pub proof fn law_filter_step(
    field: Seq<char>,
    items: Seq<Rc<Val>>,
    outputs: Seq<Result<Fields, BuildError>>,
    fs: Fields,
)
    requires
        list_op_result(ListOpType::Filter, field, items, outputs) is Ok,
    ensures
        ({
            let before = list_op_result(ListOpType::Filter, field, items, outputs)->Ok_0;
            let after = list_op_result(ListOpType::Filter, field, items, outputs.push(Ok(fs)));
            match lookup_named(fs@, field) {
                Some(v) => if !(*v is Empty) && *v != Val::Boolean(false) {
                    after == Ok::<Seq<Rc<Val>>, BuildError>(before.push(items[outputs.len() as int]))
                } else {
                    after == Ok::<Seq<Rc<Val>>, BuildError>(before)
                },
                None => after == Ok::<Seq<Rc<Val>>, BuildError>(before),
            }
        }),
{
    assert(outputs.push(Ok(fs)).drop_last() =~= outputs);
}

/// A filter whose every output holds the field with a value that is neither
/// empty nor false keeps every item, in order.
pub proof fn law_filter_keeps_every_truthy_item(
    field: Seq<char>,
    items: Seq<Rc<Val>>,
    outputs: Seq<Result<Fields, BuildError>>,
)
    requires
        outputs.len() <= items.len(),
        forall|k: int| 0 <= k < outputs.len() ==> (#[trigger] outputs[k] matches Ok(fs)
            && lookup_named(fs@, field) matches Some(v) && !(*v is Empty) && *v != Val::Boolean(false)),
    ensures
        list_op_result(ListOpType::Filter, field, items, outputs)
            == Ok::<Seq<Rc<Val>>, BuildError>(items.take(outputs.len() as int)),
    decreases outputs.len(),
{
    if outputs.len() > 0 {
        let k = outputs.len() - 1;
        law_filter_keeps_every_truthy_item(field, items, outputs.drop_last());
        assert(outputs[k] matches Ok(_));
        assert(items.take(k).push(items[k]) =~= items.take(k + 1));
    } else {
        assert(items.take(0) =~= Seq::<Rc<Val>>::empty());
    }
}

/// A filter whose every output holds the field as the empty value or false
/// keeps no item.
pub proof fn law_filter_drops_every_falsy_item(
    field: Seq<char>,
    items: Seq<Rc<Val>>,
    outputs: Seq<Result<Fields, BuildError>>,
)
    requires
        forall|k: int| 0 <= k < outputs.len() ==> (#[trigger] outputs[k] matches Ok(fs)
            && lookup_named(fs@, field) matches Some(v) && (*v is Empty || *v == Val::Boolean(false))),
    ensures
        list_op_result(ListOpType::Filter, field, items, outputs) == Ok::<Seq<Rc<Val>>, BuildError>(Seq::empty()),
    decreases outputs.len(),
{
    if outputs.len() > 0 {
        let k = outputs.len() - 1;
        law_filter_drops_every_falsy_item(field, items, outputs.drop_last());
        assert(outputs[k] matches Ok(_));
    }
}

/// A map yields one value per item: where every output of its macro holds
/// the field, the list it yields holds each output's field value, in order.
pub proof fn law_map_yields_one_per_item(
    field: Seq<char>,
    items: Seq<Rc<Val>>,
    outputs: Seq<Result<Fields, BuildError>>,
)
    requires
        forall|k: int| 0 <= k < outputs.len() ==> (#[trigger] outputs[k] matches Ok(fs)
            && lookup_named(fs@, field) is Some),
    ensures
        list_op_result(ListOpType::MapOp, field, items, outputs) is Ok,
        ({
            let out = list_op_result(ListOpType::MapOp, field, items, outputs)->Ok_0;
            &&& out.len() == outputs.len()
            &&& forall|k: int| 0 <= k < out.len() ==> out[k] == lookup_named(#[trigger] outputs[k]->Ok_0@, field)->Some_0
        }),
    decreases outputs.len(),
{
    if outputs.len() > 0 {
        let rest = outputs.drop_last();
        assert forall|k: int| 0 <= k < rest.len() implies (#[trigger] rest[k] matches Ok(fs)
            && lookup_named(fs@, field) is Some) by {
            assert(rest[k] == outputs[k]);
        }
        law_map_yields_one_per_item(field, items, rest);
        let last = outputs.len() - 1;
        assert(outputs[last] matches Ok(fs) && lookup_named(fs@, field) is Some);
        let out = list_op_result(ListOpType::MapOp, field, items, outputs)->Ok_0;
        assert forall|k: int| 0 <= k < out.len() implies out[k] == lookup_named(#[trigger] outputs[k]->Ok_0@, field)->Some_0 by {
            if k < last {
                assert(rest[k] == outputs[k]);
            }
        }
    }
}

/// The names that the bindings of a macro call use are parameter names of
/// the arguments given so far.
proof fn lemma_arg_scope_names(argdefs: Seq<PositionedItem<String>>, args: Seq<Rc<Val>>, name: Seq<char>)
    requires
        args.len() <= argdefs.len(),
        forall|k: int| 0 <= k < args.len() ==> #[trigger] argdefs[k].val@ != name,
    ensures
        lookup_named(arg_scope(argdefs, args), name) is None,
    decreases args.len(),
{
    if args.len() > 0 {
        let k = args.len() - 1;
        lemma_arg_scope_names(argdefs, args.drop_last(), name);
        super::lemma_lookup_push(arg_scope(argdefs, args.drop_last()), (argdefs[k], args[k]), name);
    }
}

/// A macro call binds each argument to its parameter: where the parameter
/// names are distinct, the i-th parameter's name refers to the i-th argument.
pub proof fn law_macro_args_bind(argdefs: Seq<PositionedItem<String>>, args: Seq<Rc<Val>>, i: int)
    requires
        args.len() <= argdefs.len(),
        forall|a: int, b: int| 0 <= a < b < argdefs.len() ==> #[trigger] argdefs[a].val@ != #[trigger] argdefs[b].val@,
        0 <= i < args.len(),
    ensures
        lookup_named(arg_scope(argdefs, args), argdefs[i].val@) == Some(args[i]),
    decreases args.len(),
{
    let k = args.len() - 1;
    let before = arg_scope(argdefs, args.drop_last());
    assert forall|m: int| 0 <= m < args.drop_last().len() implies #[trigger] argdefs[m].val@ != argdefs[k].val@ by {}
    lemma_arg_scope_names(argdefs, args.drop_last(), argdefs[k].val@);
    super::lemma_lookup_push(before, (argdefs[k], args[k]), argdefs[i].val@);
    if i < k {
        law_macro_args_bind(argdefs, args.drop_last(), i);
    }
}

} // verus!
