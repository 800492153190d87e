//! Validation of macros: a macro's body may refer only to its arguments.
use vstd::prelude::*;

use crate::ast::{Expression, ListDef, MacroDef, PositionedItem, Token, Value};

verus! {

broadcast use vstd::std_specs::vec::axiom_vec_decreases_to_view;

/// Whether a name is one of the argument names.
pub open spec fn in_args(args: Seq<PositionedItem<String>>, name: Seq<char>) -> bool {
    exists|i: int| 0 <= i < args.len() && #[trigger] args[i].val@ == name
}

/// The symbols an expression refers to that are not among the arguments.
///
/// Symbols are found in binary operands, grouped expressions, format arguments,
/// select targets, defaults and branches, copy fields, call arguments, selector
/// heads, tuple fields and list elements; macro, module and list operation
/// expressions are not looked into.
pub open spec fn expr_symbols(e: Expression, args: Seq<PositionedItem<String>>) -> Set<Seq<char>>
    decreases e,
{
    match e {
        Expression::Binary(def) => expr_symbols(*def.left, args) + expr_symbols(*def.right, args),
        Expression::Grouped(inner) => expr_symbols(*inner, args),
        Expression::Format(def) => exprs_symbols(def.args@, args),
        Expression::Select(def) => expr_symbols(*def.default, args) + expr_symbols(*def.val, args)
            + fields_symbols(def.tuple@, args),
        Expression::Copy(def) => fields_symbols(def.fields@, args),
        Expression::Call(def) => exprs_symbols(def.arglist@, args),
        Expression::Simple(v) => match v {
            Value::Symbol(name) => if in_args(args, name.val@) { Set::empty() } else { set![name.val@] },
            Value::Selector(sel) => expr_symbols(*sel.sel.head, args),
            Value::Tuple(t) => fields_symbols(t.val@, args),
            Value::List(def) => exprs_symbols(def.elems@, args),
            _ => Set::empty(),
        },
        Expression::Macro(_) => Set::empty(),
        Expression::Module(_) => Set::empty(),
        Expression::ListOp(_) => Set::empty(),
    }
}

/// The symbols of a list of expressions that are not among the arguments.
pub open spec fn exprs_symbols(es: Seq<Expression>, args: Seq<PositionedItem<String>>) -> Set<Seq<char>>
    decreases es,
{
    if es.len() == 0 {
        Set::empty()
    } else {
        proof {
            vstd::seq::axiom_seq_subrange_decreases(es, 0, es.len() - 1);
        }
        exprs_symbols(es.subrange(0, es.len() - 1), args) + expr_symbols(es[es.len() - 1], args)
    }
}

/// The symbols of the values of a list of fields that are not among the arguments.
pub open spec fn fields_symbols(fs: Seq<(Token, Expression)>, args: Seq<PositionedItem<String>>) -> Set<Seq<char>>
    decreases fs,
{
    if fs.len() == 0 {
        Set::empty()
    } else {
        proof {
            vstd::seq::axiom_seq_subrange_decreases(fs, 0, fs.len() - 1);
        }
        fields_symbols(fs.subrange(0, fs.len() - 1), args) + expr_symbols(fs[fs.len() - 1].1, args)
    }
}

/// The texts of a list, as a set.
pub open spec fn names_of(v: Seq<String>) -> Set<Seq<char>> {
    Set::new(|s: Seq<char>| exists|i: int| 0 <= i < v.len() && #[trigger] v[i]@ == s)
}

/// No two texts of a list are the same.
pub open spec fn texts_distinct(v: Seq<String>) -> bool {
    forall|i: int, j: int| 0 <= i < j < v.len() ==> #[trigger] v[i]@ != #[trigger] v[j]@
}

/// Adds a name to a list of distinct names, unless it is there already.
fn add_name(out: &mut Vec<String>, name: &String)
    requires
        texts_distinct(old(out)@),
    ensures
        texts_distinct(final(out)@),
        names_of(final(out)@) == names_of(old(out)@).insert(name@),
{
    let mut i: usize = 0;
    while i < out.len()
        invariant
            i <= out@.len(),
            out@ == old(out)@,
            texts_distinct(out@),
            forall|j: int| 0 <= j < i ==> out@[j]@ != name@,
        decreases out@.len() - i,
    {
        if out[i] == *name {
            assert(names_of(out@) =~= names_of(out@).insert(name@));
            return;
        }
        i = i + 1;
    }
    let ghost before = out@;
    out.push(name.clone());
    assert(names_of(out@) =~= names_of(before).insert(name@)) by {
        assert forall|s: Seq<char>| names_of(out@).contains(s) implies names_of(before).insert(name@).contains(s) by {
            let k = choose|k: int| 0 <= k < out@.len() && #[trigger] out@[k]@ == s;
            if k < before.len() {
                assert(before[k]@ == s);
            }
        }
        assert forall|s: Seq<char>| names_of(before).insert(name@).contains(s) implies names_of(out@).contains(s) by {
            if s == name@ {
                assert(out@[before.len() as int]@ == s);
            } else {
                let k = choose|k: int| 0 <= k < before.len() && #[trigger] before[k]@ == s;
                assert(out@[k]@ == s);
            }
        }
    }
}

impl MacroDef {
    fn symbol_is_in_args(&self, sym: &String) -> (r: bool)
        ensures
            r == in_args(self.argdefs@, sym@),
    {
        let mut i: usize = 0;
        while i < self.argdefs.len()
            invariant
                i <= self.argdefs@.len(),
                forall|j: int| 0 <= j < i ==> self.argdefs@[j].val@ != sym@,
            decreases self.argdefs@.len() - i,
        {
            if self.argdefs[i].val == *sym {
                return true;
            }
            i = i + 1;
        }
        false
    }

    /// Adds the symbols of an expression that are not arguments to `out`.
    fn collect_symbols(&self, e: &Expression, out: &mut Vec<String>)
        requires
            texts_distinct(old(out)@),
        ensures
            texts_distinct(final(out)@),
            names_of(final(out)@) == names_of(old(out)@) + expr_symbols(*e, self.argdefs@),
        decreases *e, 1int,
    {
        match e {
            Expression::Binary(def) => {
                self.collect_symbols(&def.left, out);
                self.collect_symbols(&def.right, out);
                assert(names_of(out@) =~= names_of(old(out)@) + expr_symbols(*e, self.argdefs@));
            },
            Expression::Grouped(inner) => {
                self.collect_symbols(inner, out);
            },
            Expression::Format(def) => {
                self.collect_exprs(&def.args, out);
            },
            Expression::Select(def) => {
                self.collect_symbols(&def.default, out);
                self.collect_symbols(&def.val, out);
                self.collect_fields(&def.tuple, out);
                assert(names_of(out@) =~= names_of(old(out)@) + expr_symbols(*e, self.argdefs@));
            },
            Expression::Copy(def) => {
                self.collect_fields(&def.fields, out);
            },
            Expression::Call(def) => {
                self.collect_exprs(&def.arglist, out);
            },
            Expression::Simple(v) => match v {
                Value::Symbol(name) => {
                    if !self.symbol_is_in_args(&name.val) {
                        add_name(out, &name.val);
                        assert(names_of(out@) =~= names_of(old(out)@) + expr_symbols(*e, self.argdefs@));
                    } else {
                        assert(names_of(out@) =~= names_of(old(out)@) + expr_symbols(*e, self.argdefs@));
                    }
                },
                Value::Selector(sel) => {
                    self.collect_symbols(&sel.sel.head, out);
                },
                Value::Tuple(t) => {
                    self.collect_fields(&t.val, out);
                },
                Value::List(def) => {
                    self.collect_exprs(&def.elems, out);
                },
                _ => {
                    assert(names_of(out@) =~= names_of(old(out)@) + expr_symbols(*e, self.argdefs@));
                },
            },
            _ => {
                assert(names_of(out@) =~= names_of(old(out)@) + expr_symbols(*e, self.argdefs@));
            },
        }
    }

    /// Adds the symbols of a list of expressions that are not arguments to `out`.
    fn collect_exprs(&self, es: &Vec<Expression>, out: &mut Vec<String>)
        requires
            texts_distinct(old(out)@),
        ensures
            texts_distinct(final(out)@),
            names_of(final(out)@) == names_of(old(out)@) + exprs_symbols(es@, self.argdefs@),
        decreases es@, 0int,
    {
        let mut i: usize = 0;
        assert(names_of(out@) =~= names_of(old(out)@) + exprs_symbols(es@.subrange(0, 0), self.argdefs@));
        while i < es.len()
            invariant
                i <= es@.len(),
                texts_distinct(out@),
                names_of(out@) == names_of(old(out)@) + exprs_symbols(es@.subrange(0, i as int), self.argdefs@),
            decreases es@.len() - i,
        {
            proof {
                assert(es@.subrange(0, i + 1).subrange(0, i as int) =~= es@.subrange(0, i as int));
                assert(es@.subrange(0, i + 1)[i as int] == es@[i as int]);
            }
            self.collect_symbols(&es[i], out);
            assert(names_of(out@) =~= names_of(old(out)@) + exprs_symbols(es@.subrange(0, i + 1), self.argdefs@));
            i = i + 1;
        }
        assert(es@.subrange(0, es@.len() as int) =~= es@);
    }

    /// Adds the symbols of the values of a list of fields that are not arguments to `out`.
    fn collect_fields(&self, fs: &Vec<(Token, Expression)>, out: &mut Vec<String>)
        requires
            texts_distinct(old(out)@),
        ensures
            texts_distinct(final(out)@),
            names_of(final(out)@) == names_of(old(out)@) + fields_symbols(fs@, self.argdefs@),
        decreases fs@, 0int,
    {
        let mut i: usize = 0;
        assert(names_of(out@) =~= names_of(old(out)@) + fields_symbols(fs@.subrange(0, 0), self.argdefs@));
        while i < fs.len()
            invariant
                i <= fs@.len(),
                texts_distinct(out@),
                names_of(out@) == names_of(old(out)@) + fields_symbols(fs@.subrange(0, i as int), self.argdefs@),
            decreases fs@.len() - i,
        {
            proof {
                assert(fs@.subrange(0, i + 1).subrange(0, i as int) =~= fs@.subrange(0, i as int));
                assert(fs@.subrange(0, i + 1)[i as int] == fs@[i as int]);
            }
            self.collect_symbols(&fs[i].1, out);
            assert(names_of(out@) =~= names_of(old(out)@) + fields_symbols(fs@.subrange(0, i + 1), self.argdefs@));
            i = i + 1;
        }
        assert(fs@.subrange(0, fs@.len() as int) =~= fs@);
    }

    /// Performs typechecking of a ucg macro's arguments to ensure
    /// that they are valid for the expressions in the macro.
    ///
    /// The error holds, once each, the symbols that the macro's fields refer to
    /// and that are not among its arguments.
    pub fn validate_symbols(&self) -> (r: Result<(), Vec<String>>)
        ensures
            r is Ok <==> fields_symbols(self.fields@, self.argdefs@) == Set::<Seq<char>>::empty(),
            r matches Err(bad) ==> names_of(bad@) == fields_symbols(self.fields@, self.argdefs@)
                && texts_distinct(bad@) && bad@.len() > 0,
    {
        let mut bad_symbols: Vec<String> = Vec::new();
        assert(names_of(bad_symbols@) =~= Set::<Seq<char>>::empty());
        self.collect_fields(&self.fields, &mut bad_symbols);
        assert(names_of(bad_symbols@) =~= fields_symbols(self.fields@, self.argdefs@));
        if bad_symbols.len() > 0 {
            assert(names_of(bad_symbols@).contains(bad_symbols@[0]@));
            return Err(bad_symbols);
        }
        assert(names_of(bad_symbols@) =~= Set::<Seq<char>>::empty());
        Ok(())
    }
}

proof fn lemma_expr_mono(e: Expression, a1: Seq<PositionedItem<String>>, a2: Seq<PositionedItem<String>>)
    requires
        forall|s: Seq<char>| in_args(a1, s) ==> #[trigger] in_args(a2, s),
    ensures
        expr_symbols(e, a2).subset_of(expr_symbols(e, a1)),
    decreases e,
{
    match e {
        Expression::Binary(def) => {
            lemma_expr_mono(*def.left, a1, a2);
            lemma_expr_mono(*def.right, a1, a2);
        },
        Expression::Grouped(inner) => {
            lemma_expr_mono(*inner, a1, a2);
        },
        Expression::Format(def) => {
            lemma_exprs_mono(def.args@, a1, a2);
        },
        Expression::Select(def) => {
            lemma_expr_mono(*def.default, a1, a2);
            lemma_expr_mono(*def.val, a1, a2);
            lemma_fields_mono(def.tuple@, a1, a2);
        },
        Expression::Copy(def) => {
            lemma_fields_mono(def.fields@, a1, a2);
        },
        Expression::Call(def) => {
            lemma_exprs_mono(def.arglist@, a1, a2);
        },
        Expression::Simple(v) => match v {
            Value::Selector(sel) => {
                lemma_expr_mono(*sel.sel.head, a1, a2);
            },
            Value::Tuple(tv) => {
                lemma_fields_mono(tv.val@, a1, a2);
            },
            Value::List(def) => {
                lemma_exprs_mono(def.elems@, a1, a2);
            },
            Value::Symbol(name) => {
                assert(in_args(a1, name.val@) ==> in_args(a2, name.val@));
            },
            _ => {},
        },
        _ => {},
    }
}

proof fn lemma_exprs_mono(es: Seq<Expression>, a1: Seq<PositionedItem<String>>, a2: Seq<PositionedItem<String>>)
    requires
        forall|s: Seq<char>| in_args(a1, s) ==> #[trigger] in_args(a2, s),
    ensures
        exprs_symbols(es, a2).subset_of(exprs_symbols(es, a1)),
    decreases es,
{
    if es.len() > 0 {
        vstd::seq::axiom_seq_subrange_decreases(es, 0, es.len() - 1);
        lemma_exprs_mono(es.subrange(0, es.len() - 1), a1, a2);
        lemma_expr_mono(es[es.len() - 1], a1, a2);
    }
}

proof fn lemma_fields_mono(fs: Seq<(Token, Expression)>, a1: Seq<PositionedItem<String>>, a2: Seq<PositionedItem<String>>)
    requires
        forall|s: Seq<char>| in_args(a1, s) ==> #[trigger] in_args(a2, s),
    ensures
        fields_symbols(fs, a2).subset_of(fields_symbols(fs, a1)),
    decreases fs,
{
    if fs.len() > 0 {
        vstd::seq::axiom_seq_subrange_decreases(fs, 0, fs.len() - 1);
        lemma_fields_mono(fs.subrange(0, fs.len() - 1), a1, a2);
        lemma_expr_mono(fs[fs.len() - 1].1, a1, a2);
    }
}

/// More arguments never add undefined symbols: a macro whose arguments
/// include every argument name of another macro with the same fields refers
/// to no symbol outside them that the other does not, so where the other
/// validates, it validates too.
pub proof fn law_more_arguments_fewer_undefined(m1: MacroDef, m2: MacroDef)
    requires
        m1.fields == m2.fields,
        forall|s: Seq<char>| in_args(m1.argdefs@, s) ==> #[trigger] in_args(m2.argdefs@, s),
    ensures
        fields_symbols(m2.fields@, m2.argdefs@).subset_of(fields_symbols(m1.fields@, m1.argdefs@)),
        fields_symbols(m1.fields@, m1.argdefs@) == Set::<Seq<char>>::empty()
            ==> fields_symbols(m2.fields@, m2.argdefs@) == Set::<Seq<char>>::empty(),
{
    lemma_fields_mono(m1.fields@, m1.argdefs@, m2.argdefs@);
    if fields_symbols(m1.fields@, m1.argdefs@) == Set::<Seq<char>>::empty() {
        assert(fields_symbols(m2.fields@, m2.argdefs@) =~= Set::<Seq<char>>::empty());
    }
}

proof fn lemma_exprs_include(es: Seq<Expression>, args: Seq<PositionedItem<String>>, k: int)
    requires
        0 <= k < es.len(),
    ensures
        expr_symbols(es[k], args).subset_of(exprs_symbols(es, args)),
    decreases es.len(),
{
    if k < es.len() - 1 {
        let front = es.subrange(0, es.len() - 1);
        assert(front[k] == es[k]);
        lemma_exprs_include(front, args, k);
    }
}

proof fn lemma_fields_include(fs: Seq<(Token, Expression)>, args: Seq<PositionedItem<String>>, k: int)
    requires
        0 <= k < fs.len(),
    ensures
        expr_symbols(fs[k].1, args).subset_of(fields_symbols(fs, args)),
    decreases fs.len(),
{
    if k < fs.len() - 1 {
        let front = fs.subrange(0, fs.len() - 1);
        assert(front[k] == fs[k]);
        lemma_fields_include(front, args, k);
    }
}

/// A list refers to every symbol that its elements refer to: each symbol
/// outside the arguments in an element of a list value is a symbol of the list.
pub proof fn law_list_symbols_include_elements(def: ListDef, args: Seq<PositionedItem<String>>, k: int)
    requires
        0 <= k < def.elems@.len(),
    ensures
        expr_symbols(def.elems@[k], args).subset_of(expr_symbols(Expression::Simple(Value::List(def)), args)),
{
    lemma_exprs_include(def.elems@, args, k);
}

/// A macro with a field whose value is a list that holds a symbol outside the
/// arguments does not validate: the symbol is among those that the
/// validation reports.
pub proof fn law_undefined_symbol_in_a_list_is_reported(m: MacroDef, j: int, k: int)
    requires
        0 <= j < m.fields@.len(),
        m.fields@[j].1 is Simple,
        m.fields@[j].1->Simple_0 is List,
        0 <= k < m.fields@[j].1->Simple_0->List_0.elems@.len(),
        m.fields@[j].1->Simple_0->List_0.elems@[k] is Simple,
        m.fields@[j].1->Simple_0->List_0.elems@[k]->Simple_0 is Symbol,
        !in_args(m.argdefs@, m.fields@[j].1->Simple_0->List_0.elems@[k]->Simple_0->Symbol_0.val@),
    ensures
        ({
            let def = m.fields@[j].1->Simple_0->List_0;
            let name = def.elems@[k]->Simple_0->Symbol_0;
            fields_symbols(m.fields@, m.argdefs@).contains(name.val@)
        }),
{
    let def = m.fields@[j].1->Simple_0->List_0;
    let name = def.elems@[k]->Simple_0->Symbol_0;
    assert(expr_symbols(def.elems@[k], m.argdefs@).contains(name.val@));
    law_list_symbols_include_elements(def, m.argdefs@, k);
    lemma_fields_include(m.fields@, m.argdefs@, j);
}

/// An expression refers to every symbol that its parts refer to: the operands
/// of a binary expression, a grouped expression, the arguments of a format or
/// of a call, the value, default and branches of a select, the fields of a
/// copy or of a tuple, the head of a selector and the elements of a list; a
/// symbol outside the arguments refers to itself.
pub proof fn law_symbols_include_parts(e: Expression, args: Seq<PositionedItem<String>>)
    ensures
        match e {
            Expression::Binary(def) => expr_symbols(*def.left, args).subset_of(expr_symbols(e, args))
                && expr_symbols(*def.right, args).subset_of(expr_symbols(e, args)),
            Expression::Grouped(inner) => expr_symbols(*inner, args).subset_of(expr_symbols(e, args)),
            Expression::Format(def) => forall|k: int| 0 <= k < def.args@.len()
                ==> expr_symbols(#[trigger] def.args@[k], args).subset_of(expr_symbols(e, args)),
            Expression::Call(def) => forall|k: int| 0 <= k < def.arglist@.len()
                ==> expr_symbols(#[trigger] def.arglist@[k], args).subset_of(expr_symbols(e, args)),
            Expression::Select(def) => expr_symbols(*def.val, args).subset_of(expr_symbols(e, args))
                && expr_symbols(*def.default, args).subset_of(expr_symbols(e, args))
                && forall|k: int| 0 <= k < def.tuple@.len()
                    ==> expr_symbols((#[trigger] def.tuple@[k]).1, args).subset_of(expr_symbols(e, args)),
            Expression::Copy(def) => forall|k: int| 0 <= k < def.fields@.len()
                ==> expr_symbols((#[trigger] def.fields@[k]).1, args).subset_of(expr_symbols(e, args)),
            Expression::Simple(Value::Symbol(name)) => !in_args(args, name.val@)
                ==> expr_symbols(e, args).contains(name.val@),
            Expression::Simple(Value::Selector(sel)) => expr_symbols(*sel.sel.head, args).subset_of(expr_symbols(e, args)),
            Expression::Simple(Value::Tuple(t)) => forall|k: int| 0 <= k < t.val@.len()
                ==> expr_symbols((#[trigger] t.val@[k]).1, args).subset_of(expr_symbols(e, args)),
            Expression::Simple(Value::List(def)) => forall|k: int| 0 <= k < def.elems@.len()
                ==> expr_symbols(#[trigger] def.elems@[k], args).subset_of(expr_symbols(e, args)),
            _ => true,
        },
{
    match e {
        Expression::Format(def) => {
            assert forall|k: int| 0 <= k < def.args@.len() implies expr_symbols(#[trigger] def.args@[k], args).subset_of(expr_symbols(e, args)) by {
                lemma_exprs_include(def.args@, args, k);
            }
        },
        Expression::Call(def) => {
            assert forall|k: int| 0 <= k < def.arglist@.len() implies expr_symbols(#[trigger] def.arglist@[k], args).subset_of(expr_symbols(e, args)) by {
                lemma_exprs_include(def.arglist@, args, k);
            }
        },
        Expression::Select(def) => {
            assert forall|k: int| 0 <= k < def.tuple@.len() implies expr_symbols((#[trigger] def.tuple@[k]).1, args).subset_of(expr_symbols(e, args)) by {
                lemma_fields_include(def.tuple@, args, k);
            }
        },
        Expression::Copy(def) => {
            assert forall|k: int| 0 <= k < def.fields@.len() implies expr_symbols((#[trigger] def.fields@[k]).1, args).subset_of(expr_symbols(e, args)) by {
                lemma_fields_include(def.fields@, args, k);
            }
        },
        Expression::Simple(Value::Tuple(t)) => {
            assert forall|k: int| 0 <= k < t.val@.len() implies expr_symbols((#[trigger] t.val@[k]).1, args).subset_of(expr_symbols(e, args)) by {
                lemma_fields_include(t.val@, args, k);
            }
        },
        Expression::Simple(Value::List(def)) => {
            assert forall|k: int| 0 <= k < def.elems@.len() implies expr_symbols(#[trigger] def.elems@[k], args).subset_of(expr_symbols(e, args)) by {
                lemma_exprs_include(def.elems@, args, k);
            }
        },
        _ => {},
    }
}

} // verus!
