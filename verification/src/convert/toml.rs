//! Conversion of built values into TOML values.
use vstd::prelude::*;
use std::rc::Rc;

use crate::build::Val;
use crate::build::copy::name_index;

verus! {

broadcast use vstd::std_specs::vec::axiom_vec_decreases_to_view;

/// A TOML value: tables are lists of entries with distinct keys.
///
/// A float is kept as the decimal text it stands for.
#[derive(Debug, PartialEq)]
pub enum TomlValue {
    Boolean(bool),
    Integer(i64),
    Float(String),
    String(String),
    Array(Vec<TomlValue>),
    Table(Vec<(String, TomlValue)>),
}

/// Why a value cannot be converted.
#[derive(Debug, PartialEq, Eq, Structural, Clone, Copy)]
pub enum ConvertError {
    /// An empty value was found.
    Null,
    /// A macro was found.
    Macro,
    /// A module was found.
    Module,
    /// An environment was found.
    Env,
}

impl ConvertError {
    /// The text that describes the error.
    pub open spec fn text(self) -> Seq<char> {
        match self {
            ConvertError::Null => "Nulls are not allowed in Toml Conversions!"@,
            ConvertError::Macro => "Macros are not allowed in Toml Conversions!"@,
            ConvertError::Module => "Modules are not allowed in Toml Conversions!"@,
            ConvertError::Env => "Environments are not allowed in Toml Conversions!"@,
        }
    }

    /// The message that describes the error.
    pub fn message(&self) -> (r: String)
        ensures
            r@ == self.text(),
    {
        match self {
            ConvertError::Null => "Nulls are not allowed in Toml Conversions!".to_owned(),
            ConvertError::Macro => "Macros are not allowed in Toml Conversions!".to_owned(),
            ConvertError::Module => "Modules are not allowed in Toml Conversions!".to_owned(),
            ConvertError::Env => "Environments are not allowed in Toml Conversions!".to_owned(),
        }
    }
}

/// The first thing in a value, in order, that cannot be converted: an empty
/// value, a macro, a module or an environment, each with its kind of error.
pub open spec fn first_bad(v: Val) -> Option<ConvertError>
    decreases v, 1int, 0int,
{
    match v {
        Val::Empty => Some(ConvertError::Null),
        Val::Macro(_) => Some(ConvertError::Macro),
        Val::Module(_) => Some(ConvertError::Module),
        Val::Env(_) => Some(ConvertError::Env),
        Val::List(_) => first_bad_from(v, 0),
        Val::Tuple(_) => first_bad_from(v, 0),
        _ => None,
    }
}

/// The first thing that cannot be converted in the elements (or field
/// values) of a list (or tuple) from index `k` on.
pub open spec fn first_bad_from(v: Val, k: int) -> Option<ConvertError>
    decreases v, 0int, (match v {
        Val::List(l) => l@.len(),
        Val::Tuple(l) => l@.len(),
        _ => 0,
    }) - k,
{
    match v {
        Val::List(l) => if k < 0 || k >= l@.len() {
            None
        } else {
            proof {
                assert(decreases_to!(v => l));
            }
            match first_bad(*l@[k]) {
                Some(e) => Some(e),
                None => first_bad_from(v, k + 1),
            }
        },
        Val::Tuple(l) => if k < 0 || k >= l@.len() {
            None
        } else {
            proof {
                assert(decreases_to!(v => l));
            }
            match first_bad(*l@[k].1) {
                Some(e) => Some(e),
                None => first_bad_from(v, k + 1),
            }
        },
        _ => None,
    }
}

/// Whether a value and everything in it can be converted: no empty value,
/// macro, module or environment occurs in it.
pub open spec fn convertible(v: Val) -> bool {
    first_bad(v) is None
}

/// Whether the elements (or field values) of a list (or tuple) from index `k` on are convertible.
pub open spec fn all_convertible(v: Val, k: int) -> bool {
    first_bad_from(v, k) is None
}

/// The index of the entry with the given key.
pub open spec fn key_index(ts: Seq<(String, TomlValue)>, key: Seq<char>) -> Option<int>
    decreases ts.len(),
{
    if ts.len() == 0 {
        None
    } else if ts[0].0@ == key {
        Some(0)
    } else {
        match key_index(ts.drop_first(), key) {
            Some(i) => Some(i + 1),
            None => None,
        }
    }
}

/// Where a name first occurs among the fields, or -1.
pub open spec fn name_pos(fs: Seq<(crate::ast::PositionedItem<String>, Rc<Val>)>, n: Seq<char>) -> int {
    match name_index(fs, n) {
        Some(k) => k,
        None => -1,
    }
}

/// Whether the keys of a table come in the order in which their names first
/// occur among the fields.
pub open spec fn in_field_order(fs: Seq<(crate::ast::PositionedItem<String>, Rc<Val>)>, ts: Seq<(String, TomlValue)>) -> bool {
    forall|a: int, b: int| 0 <= a < b < ts.len() ==> #[trigger] name_pos(fs, ts[a].0@) < #[trigger] name_pos(fs, ts[b].0@)
}

/// Whether a TOML value is the conversion of a value: scalars carry over,
/// a list becomes an array of the conversions of its elements, and a tuple a
/// table that holds, for each field name, the conversion of the first field
/// of that name.
pub open spec fn toml_of(v: Val, t: TomlValue) -> bool
    decreases v, 1int, 0int,
{
    match (v, t) {
        (Val::Boolean(b), TomlValue::Boolean(c)) => b == c,
        (Val::Int(i), TomlValue::Integer(j)) => i == j,
        (Val::Float(s), TomlValue::Float(u)) => s@ == u@,
        (Val::Str(s), TomlValue::String(u)) => s@ == u@,
        (Val::List(l), TomlValue::Array(a)) => l@.len() == a@.len() && parts_of(v, t, 0),
        (Val::Tuple(fs), TomlValue::Table(ts)) => {
            &&& forall|i: int, j: int| 0 <= i < j < ts@.len() ==> #[trigger] ts@[i].0@ != #[trigger] ts@[j].0@
            &&& forall|j: int| 0 <= j < ts@.len() ==> name_index(fs@, #[trigger] ts@[j].0@) is Some
            &&& in_field_order(fs@, ts@)
            &&& parts_of(v, t, 0)
        },
        _ => false,
    }
}

/// Whether the parts of a conversion from index `k` on agree: array elements
/// pairwise, and each first field of its name with the entry of that key.
pub open spec fn parts_of(v: Val, t: TomlValue, k: int) -> bool
    decreases v, 0int, (match v {
        Val::List(l) => l@.len(),
        Val::Tuple(l) => l@.len(),
        _ => 0,
    }) - k,
{
    match (v, t) {
        (Val::List(l), TomlValue::Array(a)) => if k < 0 || k >= l@.len() || k >= a@.len() {
            true
        } else {
            proof {
                assert(decreases_to!(v => l));
            }
            toml_of(*l@[k], a@[k]) && parts_of(v, t, k + 1)
        },
        (Val::Tuple(fs), TomlValue::Table(ts)) => if k < 0 || k >= fs@.len() {
            true
        } else {
            proof {
                assert(decreases_to!(v => fs));
            }
            &&& (name_index(fs@, fs@[k].0.val@) == Some(k) ==> match key_index(ts@, fs@[k].0.val@) {
                Some(j) => toml_of(*fs@[k].1, ts@[j].1),
                None => false,
            })
            &&& parts_of(v, t, k + 1)
        },
        _ => true,
    }
}

/// Converts ucg values into TOML values.
pub struct TomlConverter {}

impl TomlConverter {
    /// Constructs a converter.
    pub fn new() -> (r: Self)
        ensures
            r == (TomlConverter {}),
    {
        TomlConverter {}
    }

    /// The file extension of converted output.
    pub fn file_ext(&self) -> (r: String)
        ensures
            r@ == "toml"@,
    {
        "toml".to_owned()
    }

    /// A description of the converter.
    pub fn description(&self) -> (r: String)
        ensures
            r@ == "Convert ucg Vals into valid ucg."@,
    {
        "Convert ucg Vals into valid ucg.".to_owned()
    }

    /// Converts a value, and everything in it, into a TOML value.
    ///
    /// An empty value, a macro, a module or an environment anywhere in the
    /// value makes the conversion fail. Of fields that share a name, the first
    /// one's value goes into the table.
    pub fn convert_value(&self, v: &Val) -> (r: Result<TomlValue, ConvertError>)
        ensures
            match first_bad(*v) {
                None => r matches Ok(t) && toml_of(*v, t),
                Some(e) => r == Err::<TomlValue, ConvertError>(e),
            },
        decreases *v,
    {
        match v {
            Val::Boolean(b) => Ok(TomlValue::Boolean(*b)),
            Val::Empty => Err(ConvertError::Null),
            Val::Float(f) => Ok(TomlValue::Float(f.clone())),
            Val::Int(i) => Ok(TomlValue::Integer(*i)),
            Val::Str(s) => Ok(TomlValue::String(s.clone())),
            Val::Macro(_) => Err(ConvertError::Macro),
            Val::Module(_) => Err(ConvertError::Module),
            Val::Env(_) => Err(ConvertError::Env),
            Val::List(l) => {
                let mut out: Vec<TomlValue> = Vec::new();
                let mut i: usize = 0;
                while i < l.len()
                    invariant
                        i <= l@.len(),
                        *v == Val::List(*l),
                        out@.len() == i,
                        forall|k: int| 0 <= k < i ==> #[trigger] toml_of(*l@[k], out@[k]),
                        forall|k: int| 0 <= k < i ==> #[trigger] convertible(*l@[k]),
                    decreases l@.len() - i,
                {
                    proof {
                        crate::build::ir::lemma_list_elem_decreases(*v, i as int);
                    }
                    match self.convert_value(&l[i]) {
                        Ok(t) => {
                            out.push(t);
                        },
                        Err(e) => {
                            proof {
                                lemma_first_bad_at(*v, 0, i as int);
                            }
                            return Err(e);
                        },
                    }
                    i = i + 1;
                }
                let ghost t = TomlValue::Array(out);
                proof {
                    lemma_list_parts(*v, t, 0);
                    lemma_list_convertible(*v, 0);
                }
                Ok(TomlValue::Array(out))
            },
            Val::Tuple(fs) => {
                let mut ts: Vec<(String, TomlValue)> = Vec::new();
                let mut i: usize = 0;
                while i < fs.len()
                    invariant
                        i <= fs@.len(),
                        *v == Val::Tuple(*fs),
                        forall|a: int, b: int| 0 <= a < b < ts@.len() ==> #[trigger] ts@[a].0@ != #[trigger] ts@[b].0@,
                        forall|n: Seq<char>| #[trigger] key_index(ts@, n) is Some <==> name_index(fs@.take(i as int), n) is Some,
                        forall|k: int| 0 <= k < i && name_index(fs@, fs@[k].0.val@) == Some(k) ==>
                            (#[trigger] key_index(ts@, fs@[k].0.val@) matches Some(j) && toml_of(*fs@[k].1, ts@[j].1)),
                        forall|k: int| 0 <= k < i ==> #[trigger] convertible(*fs@[k].1),
                        in_field_order(fs@, ts@),
                        forall|a: int| 0 <= a < ts@.len() ==> 0 <= #[trigger] name_pos(fs@, ts@[a].0@) < i,
                    decreases fs@.len() - i,
                {
                    proof {
                        crate::build::ir::lemma_tuple_elem_decreases(*v, i as int);
                    }
                    let converted = match self.convert_value(&fs[i].1) {
                        Ok(t) => t,
                        Err(e) => {
                            proof {
                                lemma_first_bad_at(*v, 0, i as int);
                            }
                            return Err(e);
                        },
                    };
                    let ghost before = ts@;
                    let name = &fs[i].0.val;
                    proof {
                        lemma_name_index_take(fs@, i as int);
                    }
                    if !has_key(&ts, name) {
                        proof {
                            assert forall|a: int| 0 <= a < before.len() implies before[a].0@ != name@ by {
                                lemma_key_index_found(before, a);
                            }
                        }
                        ts.push((name.clone(), converted));
                        proof {
                            lemma_key_index_push(before, (*name, converted));
                            assert forall|k: int| 0 <= k < i + 1 && name_index(fs@, fs@[k].0.val@) == Some(k) implies
                                (#[trigger] key_index(ts@, fs@[k].0.val@) matches Some(j) && toml_of(*fs@[k].1, ts@[j].1)) by {
                                if k < i {
                                    lemma_key_index_bound(before, fs@[k].0.val@);
                                }
                            }
                        }
                    } else {
                        proof {
                            assert(name_index(fs@, fs@[i as int].0.val@) != Some(i as int));
                        }
                    }
                    i = i + 1;
                }
                let ghost t = TomlValue::Table(ts);
                proof {
                    assert(fs@.take(fs@.len() as int) =~= fs@);
                    lemma_tuple_parts(*v, t, 0);
                    lemma_list_convertible(*v, 0);
                    assert forall|j: int| 0 <= j < ts@.len() implies name_index(fs@, #[trigger] ts@[j].0@) is Some by {
                        lemma_key_index_found(ts@, j);
                    }
                }
                Ok(TomlValue::Table(ts))
            },
        }
    }
}

/// Whether a table has an entry with the given key.
fn has_key(ts: &Vec<(String, TomlValue)>, key: &String) -> (r: bool)
    ensures
        r == (key_index(ts@, key@) is Some),
{
    let mut i: usize = 0;
    assert(ts@.skip(0) =~= ts@);
    while i < ts.len()
        invariant
            i <= ts@.len(),
            (key_index(ts@, key@) is Some) == (key_index(ts@.skip(i as int), key@) is Some),
        decreases ts@.len() - i,
    {
        proof {
            assert(ts@.skip(i as int)[0] == ts@[i as int]);
            assert(ts@.skip(i as int).drop_first() =~= ts@.skip(i + 1));
        }
        if ts[i].0 == *key {
            return true;
        }
        i = i + 1;
    }
    false
}

proof fn lemma_key_index_bound(ts: Seq<(String, TomlValue)>, key: Seq<char>)
    ensures
        key_index(ts, key) matches Some(i) ==> 0 <= i < ts.len() && ts[i].0@ == key,
    decreases ts.len(),
{
    if ts.len() > 0 {
        lemma_key_index_bound(ts.drop_first(), key);
    }
}

proof fn lemma_key_index_found(ts: Seq<(String, TomlValue)>, j: int)
    requires
        0 <= j < ts.len(),
    ensures
        key_index(ts, ts[j].0@) is Some,
    decreases ts.len(),
{
    if j > 0 && ts[0].0@ != ts[j].0@ {
        lemma_key_index_found(ts.drop_first(), j - 1);
    }
}

proof fn lemma_key_index_push(ts: Seq<(String, TomlValue)>, e: (String, TomlValue))
    ensures
        forall|n: Seq<char>| #[trigger] key_index(ts.push(e), n) == (match key_index(ts, n) {
            Some(i) => Some(i),
            None => if e.0@ == n { Some(ts.len() as int) } else { None },
        }),
    decreases ts.len(),
{
    if ts.len() > 0 {
        lemma_key_index_push(ts.drop_first(), e);
        assert(ts.push(e).drop_first() =~= ts.drop_first().push(e));
        assert forall|n: Seq<char>| #[trigger] key_index(ts.push(e), n) == (match key_index(ts, n) {
            Some(i) => Some(i),
            None => if e.0@ == n { Some(ts.len() as int) } else { None },
        }) by {
            assert(ts.push(e)[0] == ts[0]);
            assert(key_index(ts.drop_first().push(e), n) == (match key_index(ts.drop_first(), n) {
                Some(i) => Some(i),
                None => if e.0@ == n { Some(ts.drop_first().len() as int) } else { None },
            }));
        }
    } else {
        assert forall|n: Seq<char>| #[trigger] key_index(ts.push(e), n) == (match key_index(ts, n) {
            Some(i) => Some(i),
            None => if e.0@ == n { Some(ts.len() as int) } else { None },
        }) by {
            assert(ts.push(e).drop_first() =~= Seq::<(String, TomlValue)>::empty());
            assert(ts.push(e)[0] == e);
            assert(key_index(Seq::<(String, TomlValue)>::empty(), n) is None);
        }
    }
}

/// How the first index of a name in a list of fields relates to that in a prefix.
proof fn lemma_name_index_take(fs: Seq<(crate::ast::PositionedItem<String>, Rc<Val>)>, i: int)
    requires
        0 <= i < fs.len(),
    ensures
        forall|n: Seq<char>| #[trigger] name_index(fs.take(i + 1), n) == (match name_index(fs.take(i), n) {
            Some(k) => Some(k),
            None => if fs[i].0.val@ == n { Some(i) } else { None },
        }),
        name_index(fs, fs[i].0.val@) == Some(i) <==> name_index(fs.take(i), fs[i].0.val@) is None,
{
    assert(fs.take(i + 1) =~= fs.take(i).push(fs[i]));
    crate::build::copy::lemma_name_index_push(fs.take(i), fs[i]);
    crate::build::copy::lemma_name_index_prefix(fs, i + 1, fs[i].0.val@);
    crate::build::copy::lemma_name_index_prefix(fs, i, fs[i].0.val@);
    crate::build::copy::lemma_name_index_bound(fs.take(i), fs[i].0.val@);
    assert(name_index(fs.take(i + 1), fs[i].0.val@) == (match name_index(fs.take(i), fs[i].0.val@) {
        Some(k) => Some(k),
        None => if fs[i].0.val@ == fs[i].0.val@ { Some(i) } else { None },
    }));
}

proof fn lemma_first_bad_at(v: Val, k: int, i: int)
    requires
        0 <= k <= i,
        v is List ==> i < v->List_0@.len() && first_bad(*v->List_0@[i]) is Some
            && forall|j: int| k <= j < i ==> #[trigger] convertible(*v->List_0@[j]),
        v is Tuple ==> i < v->Tuple_0@.len() && first_bad(*v->Tuple_0@[i].1) is Some
            && forall|j: int| k <= j < i ==> #[trigger] convertible(*v->Tuple_0@[j].1),
    ensures
        v is List ==> first_bad_from(v, k) == first_bad(*v->List_0@[i]),
        v is Tuple ==> first_bad_from(v, k) == first_bad(*v->Tuple_0@[i].1),
    decreases i - k,
{
    if k < i {
        lemma_first_bad_at(v, k + 1, i);
        if v is List {
            assert(convertible(*v->List_0@[k]));
        }
        if v is Tuple {
            assert(convertible(*v->Tuple_0@[k].1));
        }
    }
}

proof fn lemma_list_convertible(v: Val, k: int)
    requires
        0 <= k,
        v is List ==> forall|j: int| k <= j < v->List_0@.len() ==> #[trigger] convertible(*v->List_0@[j]),
        v is Tuple ==> forall|j: int| k <= j < v->Tuple_0@.len() ==> #[trigger] convertible(*v->Tuple_0@[j].1),
    ensures
        all_convertible(v, k),
    decreases (match v {
        Val::List(l) => l@.len(),
        Val::Tuple(l) => l@.len(),
        _ => 0,
    }) - k,
{
    match v {
        Val::List(l) => if k < l@.len() {
            lemma_list_convertible(v, k + 1);
            assert(convertible(*l@[k]));
        },
        Val::Tuple(l) => if k < l@.len() {
            lemma_list_convertible(v, k + 1);
            assert(convertible(*l@[k].1));
        },
        _ => {},
    }
}

proof fn lemma_list_parts(v: Val, t: TomlValue, k: int)
    requires
        0 <= k,
        v is List && t is Array,
        v->List_0@.len() == t->Array_0@.len(),
        forall|j: int| k <= j < v->List_0@.len() ==> #[trigger] toml_of(*v->List_0@[j], t->Array_0@[j]),
    ensures
        parts_of(v, t, k),
    decreases v->List_0@.len() - k,
{
    if k < v->List_0@.len() {
        lemma_list_parts(v, t, k + 1);
        assert(toml_of(*v->List_0@[k], t->Array_0@[k]));
    }
}

proof fn lemma_tuple_parts(v: Val, t: TomlValue, k: int)
    requires
        0 <= k,
        v is Tuple && t is Table,
        forall|j: int| k <= j < v->Tuple_0@.len() && name_index(v->Tuple_0@, v->Tuple_0@[j].0.val@) == Some(j) ==>
            (#[trigger] key_index(t->Table_0@, v->Tuple_0@[j].0.val@) matches Some(i) && toml_of(*v->Tuple_0@[j].1, t->Table_0@[i].1)),
    ensures
        parts_of(v, t, k),
    decreases v->Tuple_0@.len() - k,
{
    if k < v->Tuple_0@.len() {
        lemma_tuple_parts(v, t, k + 1);
    }
}

} // verus!
