//! The values that ucg code evaluates to.
use vstd::prelude::*;
use std::rc::Rc;

use crate::ast::{MacroDef, ModuleDef, Position, PositionedItem};
use crate::error::{BuildError, ErrorType, concat3, concat5};

verus! {

/// A value computed by the build stage.
///
/// A float is kept as the decimal text it was written or computed as.
#[derive(Debug, PartialEq)]
pub enum Val {
    Empty,
    Boolean(bool),
    Int(i64),
    Float(String),
    Str(String),
    List(Vec<Rc<Val>>),
    Tuple(Vec<(PositionedItem<String>, Rc<Val>)>),
    Env(Vec<(String, String)>),
    Macro(MacroDef),
    Module(ModuleDef),
}

/// The name of a value's type.
pub open spec fn val_typ_name(v: Val) -> Seq<char> {
    match v {
        Val::Empty => "EmptyValue"@,
        Val::Boolean(_) => "Boolean"@,
        Val::Int(_) => "Integer"@,
        Val::Float(_) => "Float"@,
        Val::Str(_) => "String"@,
        Val::List(_) => "List"@,
        Val::Tuple(_) => "Tuple"@,
        Val::Env(_) => "Env"@,
        Val::Macro(_) => "Macro"@,
        Val::Module(_) => "Module"@,
    }
}

/// Whether two values are of the same variant.
pub open spec fn same_val_type(a: Val, b: Val) -> bool {
    match (a, b) {
        (Val::Empty, Val::Empty) => true,
        (Val::Boolean(_), Val::Boolean(_)) => true,
        (Val::Int(_), Val::Int(_)) => true,
        (Val::Float(_), Val::Float(_)) => true,
        (Val::Str(_), Val::Str(_)) => true,
        (Val::List(_), Val::List(_)) => true,
        (Val::Tuple(_), Val::Tuple(_)) => true,
        (Val::Env(_), Val::Env(_)) => true,
        (Val::Macro(_), Val::Macro(_)) => true,
        (Val::Module(_), Val::Module(_)) => true,
        _ => false,
    }
}

impl Val {
    /// Returns the name of the value's type.
    pub fn typ_name(&self) -> (r: String)
        ensures
            r@ == val_typ_name(*self),
    {
        match self {
            Val::Empty => "EmptyValue".to_owned(),
            Val::Boolean(_) => "Boolean".to_owned(),
            Val::Int(_) => "Integer".to_owned(),
            Val::Float(_) => "Float".to_owned(),
            Val::Str(_) => "String".to_owned(),
            Val::List(_) => "List".to_owned(),
            Val::Tuple(_) => "Tuple".to_owned(),
            Val::Env(_) => "Env".to_owned(),
            Val::Macro(_) => "Macro".to_owned(),
            Val::Module(_) => "Module".to_owned(),
        }
    }

    /// Returns true if the two values are of the same type.
    pub fn type_equal(&self, target: &Val) -> (r: bool)
        ensures
            r == same_val_type(*self, *target),
    {
        match (self, target) {
            (Val::Empty, Val::Empty) => true,
            (Val::Boolean(_), Val::Boolean(_)) => true,
            (Val::Int(_), Val::Int(_)) => true,
            (Val::Float(_), Val::Float(_)) => true,
            (Val::Str(_), Val::Str(_)) => true,
            (Val::List(_), Val::List(_)) => true,
            (Val::Tuple(_), Val::Tuple(_)) => true,
            (Val::Env(_), Val::Env(_)) => true,
            (Val::Macro(_), Val::Macro(_)) => true,
            (Val::Module(_), Val::Module(_)) => true,
            _ => false,
        }
    }

    /// Returns true if the value is the empty value.
    pub fn is_empty(&self) -> (r: bool)
        ensures
            r == (*self is Empty),
    {
        match self {
            Val::Empty => true,
            _ => false,
        }
    }
}

/// Deep equality of two values: `Ok` with whether they are equal, or `Err` where
/// the two cannot be compared (values of different types, two macros, two modules).
///
/// Lists are equal when their elements are, tuples when their field names and
/// values are, in order; a difference in length makes them unequal, and the
/// first pair of elements that cannot be compared makes the whole comparison fail.
pub open spec fn val_equal(a: Val, b: Val) -> Result<bool, ()>
    decreases a, 1int, 0int,
{
    match (a, b) {
        (Val::Empty, Val::Empty) => Ok(true),
        (Val::Boolean(x), Val::Boolean(y)) => Ok(x == y),
        (Val::Int(x), Val::Int(y)) => Ok(x == y),
        (Val::Float(x), Val::Float(y)) => Ok(x@ == y@),
        (Val::Str(x), Val::Str(y)) => Ok(x@ == y@),
        (Val::List(l), Val::List(r)) => if l@.len() != r@.len() {
            Ok(false)
        } else {
            elems_equal(a, b, 0)
        },
        (Val::Tuple(l), Val::Tuple(r)) => if l@.len() != r@.len() {
            Ok(false)
        } else {
            elems_equal(a, b, 0)
        },
        _ => Err(()),
    }
}

/// Deep equality of the elements (or fields) of two lists (or tuples) of the
/// same length, from index `k` on.
pub open spec fn elems_equal(a: Val, b: Val, k: int) -> Result<bool, ()>
    decreases a, 0int, (match a {
        Val::List(l) => l@.len(),
        Val::Tuple(l) => l@.len(),
        _ => 0,
    }) - k,
{
    match (a, b) {
        (Val::List(l), Val::List(r)) => if k < 0 || k >= l@.len() || k >= r@.len() {
            Ok(true)
        } else {
            proof {
                assert(decreases_to!(a => l));
                assert(decreases_to!(l => l@));
            }
            match val_equal(*l@[k], *r@[k]) {
                Ok(true) => elems_equal(a, b, k + 1),
                other => other,
            }
        },
        (Val::Tuple(l), Val::Tuple(r)) => if k < 0 || k >= l@.len() || k >= r@.len() {
            Ok(true)
        } else if l@[k].0.val@ != r@[k].0.val@ {
            Ok(false)
        } else {
            proof {
                assert(decreases_to!(a => l));
                assert(decreases_to!(l => l@));
            }
            match val_equal(*l@[k].1, *r@[k].1) {
                Ok(true) => elems_equal(a, b, k + 1),
                other => other,
            }
        },
        _ => Ok(true),
    }
}

/// Where and why a deep comparison that cannot be made fails, for a
/// comparison at `pos` in the file `file`: the first pair of elements, in
/// order, that cannot be compared decides; the fields of a tuple are compared
/// at their own positions.
pub open spec fn eq_failure(a: Val, b: Val, pos: Position, file: Seq<char>) -> (Position, Seq<char>)
    decreases a, 1int, 0int,
{
    match (a, b) {
        (Val::Macro(_), Val::Macro(_)) => (pos, "Macros are not comparable in file: "@ + file),
        (Val::Module(_), Val::Module(_)) => (pos, "Modules are not comparable in file: "@ + file),
        (Val::List(_), Val::List(_)) => elems_failure(a, b, 0, pos, file),
        (Val::Tuple(_), Val::Tuple(_)) => elems_failure(a, b, 0, pos, file),
        _ => (pos, "Expected "@ + val_typ_name(a) + " but got "@ + val_typ_name(b) + " in file: "@ + file),
    }
}

/// Where and why the comparison of the elements (or fields) of two lists (or
/// tuples) from index `k` on fails.
pub open spec fn elems_failure(a: Val, b: Val, k: int, pos: Position, file: Seq<char>) -> (Position, Seq<char>)
    decreases a, 0int, (match a {
        Val::List(l) => l@.len(),
        Val::Tuple(l) => l@.len(),
        _ => 0,
    }) - k,
{
    match (a, b) {
        (Val::List(l), Val::List(r)) => if k < 0 || k >= l@.len() || k >= r@.len() {
            (pos, Seq::empty())
        } else {
            proof {
                assert(decreases_to!(a => l));
                assert(decreases_to!(l => l@));
            }
            match val_equal(*l@[k], *r@[k]) {
                Ok(true) => elems_failure(a, b, k + 1, pos, file),
                Ok(false) => (pos, Seq::empty()),
                Err(_) => eq_failure(*l@[k], *r@[k], pos, file),
            }
        },
        (Val::Tuple(l), Val::Tuple(r)) => if k < 0 || k >= l@.len() || k >= r@.len() || l@[k].0.val@ != r@[k].0.val@ {
            (pos, Seq::empty())
        } else {
            proof {
                assert(decreases_to!(a => l));
                assert(decreases_to!(l => l@));
            }
            match val_equal(*l@[k].1, *r@[k].1) {
                Ok(true) => elems_failure(a, b, k + 1, pos, file),
                Ok(false) => (pos, Seq::empty()),
                Err(_) => eq_failure(*l@[k].1, *r@[k].1, l@[k].0.pos, file),
            }
        },
        _ => (pos, Seq::empty()),
    }
}

impl Val {
    /// Compares two values deeply, as `val_equal` says; a comparison that
    /// cannot be made is a type error that names the file.
    pub fn equal(&self, target: &Val, file_name: &String, pos: Position) -> (r: Result<bool, BuildError>)
        ensures
            match val_equal(*self, *target) {
                Ok(b) => r matches Ok(x) && x == b,
                Err(_) => r matches Err(e) && e.err_type == ErrorType::TypeFail
                    && (e.pos, e.msg@) =~~= eq_failure(*self, *target, pos, file_name@),
            },
        decreases *self,
    {
        proof {
            reveal_strlit("");
        }
        match (self, target) {
            (Val::Empty, Val::Empty) => Ok(true),
            (Val::Int(i), Val::Int(ii)) => Ok(*i == *ii),
            (Val::Float(f), Val::Float(ff)) => Ok(*f == *ff),
            (Val::Boolean(b), Val::Boolean(bb)) => Ok(*b == *bb),
            (Val::Str(x), Val::Str(y)) => Ok(*x == *y),
            (Val::List(ldef), Val::List(rdef)) => {
                if ldef.len() != rdef.len() {
                    return Ok(false);
                }
                let mut i: usize = 0;
                while i < ldef.len()
                    invariant
                        i <= ldef@.len(),
                        ldef@.len() == rdef@.len(),
                        *self == Val::List(*ldef),
                        *target == Val::List(*rdef),
                        val_equal(*self, *target) == elems_equal(*self, *target, i as int),
                        eq_failure(*self, *target, pos, file_name@) == elems_failure(*self, *target, i as int, pos, file_name@),
                    decreases ldef@.len() - i,
                {
                    proof {
                        assert(decreases_to!(*self => *ldef));
                        assert(decreases_to!(*ldef => ldef@));
                        assert(decreases_to!(ldef@ => ldef@[i as int]));
                    }
                    let ok = match ldef[i].equal(&rdef[i], file_name, pos) {
                        Ok(b) => b,
                        Err(e) => {
                            return Err(e);
                        },
                    };
                    if !ok {
                        return Ok(false);
                    }
                    i = i + 1;
                }
                Ok(true)
            },
            (Val::Tuple(ldef), Val::Tuple(rdef)) => {
                if ldef.len() != rdef.len() {
                    return Ok(false);
                }
                let mut i: usize = 0;
                while i < ldef.len()
                    invariant
                        i <= ldef@.len(),
                        ldef@.len() == rdef@.len(),
                        *self == Val::Tuple(*ldef),
                        *target == Val::Tuple(*rdef),
                        val_equal(*self, *target) == elems_equal(*self, *target, i as int),
                        eq_failure(*self, *target, pos, file_name@) == elems_failure(*self, *target, i as int, pos, file_name@),
                    decreases ldef@.len() - i,
                {
                    if ldef[i].0.val != rdef[i].0.val {
                        return Ok(false);
                    }
                    proof {
                        assert(decreases_to!(*self => *ldef));
                        assert(decreases_to!(*ldef => ldef@));
                        assert(decreases_to!(ldef@ => ldef@[i as int]));
                    }
                    let ok = match ldef[i].1.equal(&rdef[i].1, file_name, ldef[i].0.pos) {
                        Ok(b) => b,
                        Err(e) => {
                            return Err(e);
                        },
                    };
                    if !ok {
                        return Ok(false);
                    }
                    i = i + 1;
                }
                Ok(true)
            },
            (Val::Macro(_), Val::Macro(_)) => Err(BuildError::new(
                concat3("Macros are not comparable in file: ", file_name.as_str(), ""),
                ErrorType::TypeFail,
                pos,
            )),
            (Val::Module(_), Val::Module(_)) => Err(BuildError::new(
                concat3("Modules are not comparable in file: ", file_name.as_str(), ""),
                ErrorType::TypeFail,
                pos,
            )),
            (me, tgt) => {
                let l = me.typ_name();
                let r = tgt.typ_name();
                let mut msg = concat5("Expected ", l.as_str(), " but got ", r.as_str(), " in file: ");
                msg.append(file_name.as_str());
                Err(BuildError::new(msg, ErrorType::TypeFail, pos))
            },
        }
    }
}

/// An element of a list value is smaller than the list.
pub proof fn lemma_list_elem_decreases(v: Val, i: int)
    requires
        v is List,
        0 <= i < v->List_0@.len(),
    ensures
        decreases_to!(v => *v->List_0@[i]),
{
    let l = v->List_0;
    assert(decreases_to!(v => l));
    assert(decreases_to!(l => l@));
    assert(decreases_to!(l@ => l@[i]));
}

/// A field value of a tuple value is smaller than the tuple.
pub proof fn lemma_tuple_elem_decreases(v: Val, i: int)
    requires
        v is Tuple,
        0 <= i < v->Tuple_0@.len(),
    ensures
        decreases_to!(v => *v->Tuple_0@[i].1),
{
    let l = v->Tuple_0;
    assert(decreases_to!(v => l));
    assert(decreases_to!(l => l@));
    assert(decreases_to!(l@ => l@[i]));
    assert(decreases_to!(l@[i] => l@[i].1));
}

/// Deep equality is symmetric: comparing `a` with `b` gives what comparing
/// `b` with `a` gives, an error included.
pub proof fn law_equality_is_symmetric(a: Val, b: Val)
    ensures
        val_equal(a, b) == val_equal(b, a),
    decreases a, 1int, 0int,
{
    match (a, b) {
        (Val::List(l), Val::List(r)) => {
            if l@.len() == r@.len() {
                lemma_elems_symmetric(a, b, 0);
            }
        },
        (Val::Tuple(l), Val::Tuple(r)) => {
            if l@.len() == r@.len() {
                lemma_elems_symmetric(a, b, 0);
            }
        },
        _ => {},
    }
}

/// The `k`-th element of a list, or the value of the `k`-th field of a tuple.
spec fn item_at(v: Val, k: int) -> Val {
    match v {
        Val::List(l) => *l@[k],
        Val::Tuple(l) => *l@[k].1,
        _ => Val::Empty,
    }
}

proof fn lemma_elems_symmetric(a: Val, b: Val, k: int)
    ensures
        elems_equal(a, b, k) == elems_equal(b, a, k),
    decreases a, 0int, (match a {
        Val::List(l) => l@.len(),
        Val::Tuple(l) => l@.len(),
        _ => 0,
    }) - k,
{
    match (a, b) {
        (Val::List(l), Val::List(r)) => {
            if 0 <= k < l@.len() && k < r@.len() {
                lemma_list_elem_decreases(a, k);
                law_equality_is_symmetric(item_at(a, k), item_at(b, k));
                lemma_elems_symmetric(a, b, k + 1);
            }
        },
        (Val::Tuple(l), Val::Tuple(r)) => {
            if 0 <= k < l@.len() && k < r@.len() {
                lemma_tuple_elem_decreases(a, k);
                law_equality_is_symmetric(item_at(a, k), item_at(b, k));
                lemma_elems_symmetric(a, b, k + 1);
            }
        },
        _ => {},
    }
}

/// The length of a list or the number of fields of a tuple.
spec fn items_len(v: Val) -> int {
    match v {
        Val::List(l) => l@.len() as int,
        Val::Tuple(l) => l@.len() as int,
        _ => 0,
    }
}

/// Whether the `j`-th elements (or fields, names included) of two lists (or
/// tuples) are equal.
spec fn pair_equal(a: Val, b: Val, j: int) -> bool {
    &&& (a is Tuple ==> a->Tuple_0@[j].0.val@ == b->Tuple_0@[j].0.val@)
    &&& val_equal(item_at(a, j), item_at(b, j)) == Ok::<bool, ()>(true)
}

proof fn lemma_elems_true(a: Val, b: Val, k: int)
    requires
        (a is List && b is List) || (a is Tuple && b is Tuple),
        items_len(a) == items_len(b),
        0 <= k <= items_len(a),
    ensures
        elems_equal(a, b, k) == Ok::<bool, ()>(true) <==> (forall|j: int| k <= j < items_len(a) ==> #[trigger] pair_equal(a, b, j)),
    decreases items_len(a) - k,
{
    if k < items_len(a) {
        lemma_elems_true(a, b, k + 1);
        if elems_equal(a, b, k) == Ok::<bool, ()>(true) {
            assert(pair_equal(a, b, k));
        }
        if forall|j: int| k <= j < items_len(a) ==> #[trigger] pair_equal(a, b, j) {
            assert(pair_equal(a, b, k));
            assert forall|j: int| k + 1 <= j < items_len(a) implies #[trigger] pair_equal(a, b, j) by {}
        }
    }
}

proof fn lemma_elems_false(a: Val, b: Val, k: int, j: int)
    requires
        (a is List && b is List) || (a is Tuple && b is Tuple),
        items_len(a) == items_len(b),
        0 <= k <= j < items_len(a),
        forall|i: int| k <= i < j ==> #[trigger] pair_equal(a, b, i),
        (a is Tuple && a->Tuple_0@[j].0.val@ != b->Tuple_0@[j].0.val@)
            || val_equal(item_at(a, j), item_at(b, j)) == Ok::<bool, ()>(false),
    ensures
        elems_equal(a, b, k) == Ok::<bool, ()>(false),
    decreases j - k,
{
    if k < j {
        assert(pair_equal(a, b, k));
        lemma_elems_false(a, b, k + 1, j);
    }
}

/// Two lists are equal exactly when they have the same length and the
/// elements at each index are equal; where the elements at some index are
/// unequal and all before them equal, the lists are unequal.
pub proof fn law_lists_equal_elementwise(a: Val, b: Val)
    requires
        a is List,
        b is List,
    ensures
        val_equal(a, b) == Ok::<bool, ()>(true) <==> {
            &&& a->List_0@.len() == b->List_0@.len()
            &&& forall|k: int| 0 <= k < a->List_0@.len() ==>
                val_equal(*#[trigger] a->List_0@[k], *b->List_0@[k]) == Ok::<bool, ()>(true)
        },
        forall|k: int| {
            &&& a->List_0@.len() == b->List_0@.len()
            &&& 0 <= k < a->List_0@.len()
            &&& val_equal(*#[trigger] a->List_0@[k], *b->List_0@[k]) == Ok::<bool, ()>(false)
            &&& forall|j: int| 0 <= j < k ==> val_equal(*#[trigger] a->List_0@[j], *b->List_0@[j]) == Ok::<bool, ()>(true)
        } ==> val_equal(a, b) == Ok::<bool, ()>(false),
{
    let l = a->List_0;
    let r = b->List_0;
    if l@.len() == r@.len() {
        lemma_elems_true(a, b, 0);
        if forall|k: int| 0 <= k < l@.len() ==> val_equal(*#[trigger] l@[k], *r@[k]) == Ok::<bool, ()>(true) {
            assert forall|j: int| 0 <= j < items_len(a) implies #[trigger] pair_equal(a, b, j) by {
                assert(val_equal(*l@[j], *r@[j]) == Ok::<bool, ()>(true));
            }
        }
        if val_equal(a, b) == Ok::<bool, ()>(true) {
            assert forall|k: int| 0 <= k < l@.len() implies val_equal(*#[trigger] l@[k], *r@[k]) == Ok::<bool, ()>(true) by {
                assert(pair_equal(a, b, k));
            }
        }
        assert forall|k: int| {
            &&& 0 <= k < l@.len()
            &&& val_equal(*#[trigger] l@[k], *r@[k]) == Ok::<bool, ()>(false)
            &&& forall|j: int| 0 <= j < k ==> val_equal(*#[trigger] l@[j], *r@[j]) == Ok::<bool, ()>(true)
        } implies val_equal(a, b) == Ok::<bool, ()>(false) by {
            assert forall|i: int| 0 <= i < k implies #[trigger] pair_equal(a, b, i) by {
                assert(val_equal(*l@[i], *r@[i]) == Ok::<bool, ()>(true));
            }
            lemma_elems_false(a, b, 0, k);
        }
    }
}

/// Two tuples are equal exactly when they have the same number of fields and
/// the fields at each index have the same name and equal values; where the
/// fields at some index differ in name, or have unequal values, and all
/// before them are equal, the tuples are unequal.
pub proof fn law_tuples_equal_fieldwise(a: Val, b: Val)
    requires
        a is Tuple,
        b is Tuple,
    ensures
        val_equal(a, b) == Ok::<bool, ()>(true) <==> {
            &&& a->Tuple_0@.len() == b->Tuple_0@.len()
            &&& forall|k: int| 0 <= k < a->Tuple_0@.len() ==> {
                &&& (#[trigger] a->Tuple_0@[k]).0.val@ == b->Tuple_0@[k].0.val@
                &&& val_equal(*a->Tuple_0@[k].1, *b->Tuple_0@[k].1) == Ok::<bool, ()>(true)
            }
        },
        forall|k: int| {
            &&& a->Tuple_0@.len() == b->Tuple_0@.len()
            &&& 0 <= k < a->Tuple_0@.len()
            &&& ((#[trigger] a->Tuple_0@[k]).0.val@ != b->Tuple_0@[k].0.val@
                || val_equal(*a->Tuple_0@[k].1, *b->Tuple_0@[k].1) == Ok::<bool, ()>(false))
            &&& forall|j: int| 0 <= j < k ==> {
                &&& (#[trigger] a->Tuple_0@[j]).0.val@ == b->Tuple_0@[j].0.val@
                &&& val_equal(*a->Tuple_0@[j].1, *b->Tuple_0@[j].1) == Ok::<bool, ()>(true)
            }
        } ==> val_equal(a, b) == Ok::<bool, ()>(false),
{
    let l = a->Tuple_0;
    let r = b->Tuple_0;
    if l@.len() == r@.len() {
        lemma_elems_true(a, b, 0);
        if val_equal(a, b) == Ok::<bool, ()>(true) {
            assert forall|k: int| 0 <= k < l@.len() implies {
                &&& (#[trigger] l@[k]).0.val@ == r@[k].0.val@
                &&& val_equal(*l@[k].1, *r@[k].1) == Ok::<bool, ()>(true)
            } by {
                assert(pair_equal(a, b, k));
            }
        }
        if forall|k: int| 0 <= k < l@.len() ==> {
            &&& (#[trigger] l@[k]).0.val@ == r@[k].0.val@
            &&& val_equal(*l@[k].1, *r@[k].1) == Ok::<bool, ()>(true)
        } {
            assert forall|j: int| 0 <= j < items_len(a) implies #[trigger] pair_equal(a, b, j) by {
                assert(l@[j].0.val@ == r@[j].0.val@);
            }
        }
        assert forall|k: int| {
            &&& 0 <= k < l@.len()
            &&& ((#[trigger] l@[k]).0.val@ != r@[k].0.val@ || val_equal(*l@[k].1, *r@[k].1) == Ok::<bool, ()>(false))
            &&& forall|j: int| 0 <= j < k ==> {
                &&& (#[trigger] l@[j]).0.val@ == r@[j].0.val@
                &&& val_equal(*l@[j].1, *r@[j].1) == Ok::<bool, ()>(true)
            }
        } implies val_equal(a, b) == Ok::<bool, ()>(false) by {
            assert forall|i: int| 0 <= i < k implies #[trigger] pair_equal(a, b, i) by {
                assert(l@[i].0.val@ == r@[i].0.val@);
            }
            lemma_elems_false(a, b, 0, k);
        }
    }
}

/// Scalars are equal exactly when they are the same: an empty value, a
/// boolean or an integer equals just itself, and two strings or two floats
/// are equal when their texts are; two scalars of the same kind can always be
/// compared, and scalars of different kinds cannot.
pub proof fn law_scalar_equality(a: Val, b: Val)
    ensures
        (a is Empty || a is Boolean || a is Int) ==> (val_equal(a, b) == Ok::<bool, ()>(true) <==> a == b),
        (a is Str && b is Str) ==> (val_equal(a, b) == Ok::<bool, ()>(true) <==> a->Str_0@ == b->Str_0@),
        (a is Float && b is Float) ==> (val_equal(a, b) == Ok::<bool, ()>(true) <==> a->Float_0@ == b->Float_0@),
        ((a is Empty && b is Empty) || (a is Boolean && b is Boolean) || (a is Int && b is Int)
            || (a is Str && b is Str) || (a is Float && b is Float)) ==> val_equal(a, b) is Ok,
        (a is Int && (b is Boolean || b is Str || b is Float || b is Empty)) ==> val_equal(a, b) is Err,
{
}

/// Whether a value can be compared with itself: no macro, module or
/// environment occurs in it.
pub open spec fn comparable(v: Val) -> bool
    decreases v, 1int, 0int,
{
    match v {
        Val::Macro(_) => false,
        Val::Module(_) => false,
        Val::Env(_) => false,
        Val::List(_) => items_comparable(v, 0),
        Val::Tuple(_) => items_comparable(v, 0),
        _ => true,
    }
}

/// Whether the elements (or field values) of a list (or tuple) from index `k`
/// on can be compared with themselves.
pub open spec fn items_comparable(v: Val, k: int) -> bool
    decreases v, 0int, (match v {
        Val::List(l) => l@.len(),
        Val::Tuple(l) => l@.len(),
        _ => 0,
    }) - k,
{
    match v {
        Val::List(l) => if k < 0 || k >= l@.len() {
            true
        } else {
            proof {
                assert(decreases_to!(v => l));
                assert(decreases_to!(l => l@));
            }
            comparable(*l@[k]) && items_comparable(v, k + 1)
        },
        Val::Tuple(l) => if k < 0 || k >= l@.len() {
            true
        } else {
            proof {
                assert(decreases_to!(v => l));
                assert(decreases_to!(l => l@));
            }
            comparable(*l@[k].1) && items_comparable(v, k + 1)
        },
        _ => true,
    }
}

/// Deep equality is reflexive where it is defined: a value in which no
/// macro, module or environment occurs equals itself.
pub proof fn law_equality_is_reflexive(v: Val)
    requires
        comparable(v),
    ensures
        val_equal(v, v) == Ok::<bool, ()>(true),
    decreases v, 1int, 0int,
{
    match v {
        Val::List(_) => lemma_elems_reflexive(v, 0),
        Val::Tuple(_) => lemma_elems_reflexive(v, 0),
        _ => {},
    }
}

proof fn lemma_elems_reflexive(v: Val, k: int)
    requires
        items_comparable(v, k),
        0 <= k,
    ensures
        elems_equal(v, v, k) == Ok::<bool, ()>(true),
    decreases v, 0int, (match v {
        Val::List(l) => l@.len(),
        Val::Tuple(l) => l@.len(),
        _ => 0,
    }) - k,
{
    match v {
        Val::List(l) => {
            if k < l@.len() {
                lemma_list_elem_decreases(v, k);
                law_equality_is_reflexive(item_at(v, k));
                lemma_elems_reflexive(v, k + 1);
            }
        },
        Val::Tuple(l) => {
            if k < l@.len() {
                lemma_tuple_elem_decreases(v, k);
                law_equality_is_reflexive(item_at(v, k));
                lemma_elems_reflexive(v, k + 1);
            }
        },
        _ => {},
    }
}

} // verus!
