//! Tuple copies: a tuple with some of its fields overridden and new ones added.
use vstd::prelude::*;
use std::rc::Rc;

use crate::ast::{Position, PositionedItem, Token};
use crate::error::{BuildError, ErrorType, concat3, concat5};
use super::ir::{Val, same_val_type, val_typ_name};
use super::{Builder, Fields, has_name, lookup_named, names_distinct};

verus! {

/// The index of the first field with the given name.
pub open spec fn name_index(fs: Seq<(PositionedItem<String>, Rc<Val>)>, name: Seq<char>) -> Option<int>
    decreases fs.len(),
{
    if fs.len() == 0 {
        None
    } else if fs[0].0.val@ == name {
        Some(0)
    } else {
        match name_index(fs.drop_first(), name) {
            Some(i) => Some(i + 1),
            None => None,
        }
    }
}

/// The first field, from `k` on, whose name an earlier field has already.
pub open spec fn first_duplicate(fs: Seq<(PositionedItem<String>, Rc<Val>)>, k: int) -> Option<int>
    decreases fs.len() - k,
{
    if k < 0 || k >= fs.len() {
        None
    } else if name_index(fs.take(k), fs[k].0.val@) is Some {
        Some(k)
    } else {
        first_duplicate(fs, k + 1)
    }
}

/// How a copy fails.
pub enum CopyFailure {
    /// A base field whose name occurs earlier in the base.
    Duplicate(PositionedItem<String>),
    /// An override evaluated to an error.
    Evaluation(BuildError),
    /// An override, the field's old value and the override's value of another type.
    TypeChange(Token, Rc<Val>, Rc<Val>),
}

/// Whether an override may replace a field's value: same type, or either is empty.
pub open spec fn may_replace(old_val: Val, new_val: Val) -> bool {
    same_val_type(old_val, new_val) || old_val is Empty || new_val is Empty
}

/// Applies the evaluated overrides in order: a field of the same name has its
/// value replaced and keeps its key, another is appended.
pub open spec fn apply_overrides(
    fs: Seq<(PositionedItem<String>, Rc<Val>)>,
    ov: Seq<(Token, Result<Rc<Val>, BuildError>)>,
) -> Result<Seq<(PositionedItem<String>, Rc<Val>)>, CopyFailure>
    decreases ov.len(),
{
    if ov.len() == 0 {
        Ok(fs)
    } else {
        let (key, res) = ov[0];
        match res {
            Err(e) => Err(CopyFailure::Evaluation(e)),
            Ok(v) => match name_index(fs, key.fragment@) {
                None => apply_overrides(
                    fs.push((PositionedItem { pos: key.pos, val: key.fragment }, v)),
                    ov.drop_first(),
                ),
                Some(i) => if may_replace(*fs[i].1, *v) {
                    apply_overrides(fs.update(i, (fs[i].0, v)), ov.drop_first())
                } else {
                    Err(CopyFailure::TypeChange(key, fs[i].1, v))
                },
            },
        }
    }
}

/// A copy of a base tuple with evaluated overrides.
pub open spec fn copy_result(
    base: Seq<(PositionedItem<String>, Rc<Val>)>,
    ov: Seq<(Token, Result<Rc<Val>, BuildError>)>,
) -> Result<Seq<(PositionedItem<String>, Rc<Val>)>, CopyFailure> {
    match first_duplicate(base, 0) {
        Some(k) => Err(CopyFailure::Duplicate(base[k].0)),
        None => apply_overrides(base, ov),
    }
}

/// Finds the index of the first field with the given name.
pub fn field_index(fs: &Fields, name: &String) -> (r: Option<usize>)
    ensures
        match name_index(fs@, name@) {
            Some(i) => r == Some(i as usize),
            None => r is None,
        },
{
    let mut i: usize = 0;
    assert(fs@.skip(0) =~= fs@);
    while i < fs.len()
        invariant
            i <= fs@.len(),
            name_index(fs@, name@) == (match name_index(fs@.skip(i as int), name@) {
                Some(j) => Some(j + i),
                None => None,
            }),
        decreases fs@.len() - i,
    {
        proof {
            assert(fs@.skip(i as int)[0] == fs@[i as int]);
            assert(fs@.skip(i as int).drop_first() =~= fs@.skip(i + 1));
        }
        if fs[i].0.val == *name {
            return Some(i);
        }
        i = i + 1;
    }
    None
}

/// A name found among the fields is found at an index that holds it.
pub proof fn lemma_name_index_bound(fs: Seq<(PositionedItem<String>, Rc<Val>)>, name: Seq<char>)
    ensures
        name_index(fs, name) matches Some(i) ==> 0 <= i < fs.len() && fs[i].0.val@ == name,
    decreases fs.len(),
{
    if fs.len() > 0 {
        lemma_name_index_bound(fs.drop_first(), name);
    }
}

/// Whether a copy's result agrees with the spec: the copied fields, or an
/// error of the failure's kind at its position, or the override's own error.
pub open spec fn copy_agrees(r: Result<Rc<Val>, BuildError>, c: Result<Seq<(PositionedItem<String>, Rc<Val>)>, CopyFailure>) -> bool {
    match c {
        Ok(fs) => r matches Ok(v) && *v matches Val::Tuple(out) && out@ == fs,
        Err(CopyFailure::Duplicate(key)) => r matches Err(e) && e.err_type == ErrorType::TypeFail && e.pos == key.pos
            && e.msg@ =~= "Duplicate field: "@ + key.val@ + " in tuple"@,
        Err(CopyFailure::TypeChange(key, old_val, new_val)) => r matches Err(e) && e.err_type == ErrorType::TypeFail
            && e.pos == key.pos && e.msg@ =~= "Expected type "@ + val_typ_name(*old_val) + " for field "@
                + key.fragment@ + " but got "@ + val_typ_name(*new_val),
        Err(CopyFailure::Evaluation(err)) => r == Err::<Rc<Val>, BuildError>(err),
    }
}

impl Builder {
    /// Copies a base tuple with overrides, given what each override's expression
    /// evaluated to, in order.
    ///
    /// A base with a duplicate field name is an error. An override of an
    /// existing field must keep its type unless the old or the new value is
    /// empty; it keeps the field's place and key. Other overrides are appended.
    /// The tuple pushed for the copy is popped, except when an override failed
    /// to evaluate; then nothing changes. A stack that was there stays there,
    /// emptied where its last tuple came off.
    pub fn copy_from_base(&mut self, src_fields: &Fields, overrides: Vec<(Token, Result<Rc<Val>, BuildError>)>) -> (r: Result<Rc<Val>, BuildError>)
        ensures
            copy_agrees(r, copy_result(src_fields@, overrides@)),
            *final(self) == (Builder { stack: final(self).stack, ..*old(self) }),
            final(self).stack is Some <==> old(self).stack is Some,
            copy_result(src_fields@, overrides@) matches Err(CopyFailure::Evaluation(_)) ==> *final(self) == *old(self),
            final(self).stack_seq() == (if copy_result(src_fields@, overrides@) matches Err(CopyFailure::Evaluation(_)) {
                old(self).stack_seq()
            } else if old(self).stack_seq().len() == 0 {
                old(self).stack_seq()
            } else {
                old(self).stack_seq().drop_last()
            }),
    {
        let mut fields: Fields = Vec::new();
        let mut k: usize = 0;
        while k < src_fields.len()
            invariant
                k <= src_fields@.len(),
                fields@ == src_fields@.take(k as int),
                first_duplicate(src_fields@, 0) == first_duplicate(src_fields@, k as int),
                self == old(self),
            decreases src_fields@.len() - k,
        {
            let key = &src_fields[k].0;
            if field_index(&fields, &key.val).is_some() {
                self.pop_val();
                let msg = concat3("Duplicate field: ", key.val.as_str(), " in tuple");
                return Err(BuildError::new(msg, ErrorType::TypeFail, key.pos));
            }
            fields.push((key.copy(), src_fields[k].1.clone()));
            proof {
                assert(src_fields@.take(k + 1) =~= src_fields@.take(k as int).push(src_fields@[k as int]));
            }
            k = k + 1;
        }
        proof {
            assert(src_fields@.take(src_fields@.len() as int) =~= src_fields@);
        }
        let mut ovs = overrides;
        let ghost ov = ovs@;
        let mut i: usize = 0;
        assert(ov.skip(0) =~= ov);
        while i < ovs.len()
            invariant
                i <= ovs@.len(),
                ovs@.len() == ov.len(),
                ov == overrides@,
                forall|j: int| i <= j < ov.len() ==> #[trigger] ovs@[j] == ov[j],
                first_duplicate(src_fields@, 0) is None,
                copy_result(src_fields@, ov) == apply_overrides(fields@, ov.skip(i as int)),
                self == old(self),
            decreases ovs@.len() - i,
        {
            proof {
                assert(ov.skip(i as int)[0] == ov[i as int]);
                assert(ov.skip(i as int).drop_first() =~= ov.skip(i + 1));
            }
            let mut res: Result<Rc<Val>, BuildError> = Ok(Rc::new(Val::Empty));
            let ghost before = ovs@;
            std::mem::swap(&mut res, &mut ovs[i].1);
            assert(res == ov[i as int].1);
            let key = &ovs[i].0;
            assert(*key == ov[i as int].0);
            let expr_result = match res {
                Ok(v) => v,
                Err(e) => {
                    assert(copy_result(src_fields@, ov) == Err::<Seq<(PositionedItem<String>, Rc<Val>)>, CopyFailure>(CopyFailure::Evaluation(e)));
                    return Err(e);
                },
            };
            match field_index(&fields, &key.fragment) {
                None => {
                    fields.push((PositionedItem::from_token(key), expr_result));
                },
                Some(idx) => {
                    proof {
                        lemma_name_index_bound(fields@, key.fragment@);
                    }
                    let src_val = fields[idx].1.clone();
                    let n_fields = fields.len();
                    assert(n_fields == fields@.len());
                    if src_val.type_equal(&expr_result) || src_val.is_empty() || expr_result.is_empty() {
                        let old_key = fields[idx].0.copy();
                        fields.set(idx, (old_key, expr_result));
                    } else {
                        proof {
                            assert(copy_result(src_fields@, ov) == Err::<Seq<(PositionedItem<String>, Rc<Val>)>, CopyFailure>(
                                CopyFailure::TypeChange(*key, fields@[idx as int].1, expr_result),
                            ));
                        }
                        self.pop_val();
                        let src_name = src_val.typ_name();
                        let new_name = expr_result.typ_name();
                        let mut msg = concat5("Expected type ", src_name.as_str(), " for field ", key.fragment.as_str(), " but got ");
                        msg.append(new_name.as_str());
                        return Err(BuildError::new(msg, ErrorType::TypeFail, key.pos));
                    }
                },
            }
            i = i + 1;
        }
        proof {
            assert(ov.skip(i as int).len() == 0);
        }
        self.pop_val();
        Ok(Rc::new(Val::Tuple(fields)))
    }
}

/// The first index of a name after appending a field.
pub proof fn lemma_name_index_push(fs: Seq<(PositionedItem<String>, Rc<Val>)>, f: (PositionedItem<String>, Rc<Val>))
    ensures
        forall|n: Seq<char>| #[trigger] name_index(fs.push(f), n) == (match name_index(fs, n) {
            Some(k) => Some(k),
            None => if f.0.val@ == n { Some(fs.len() as int) } else { None },
        }),
    decreases fs.len(),
{
    if fs.len() > 0 {
        lemma_name_index_push(fs.drop_first(), f);
        assert(fs.push(f).drop_first() =~= fs.drop_first().push(f));
        assert forall|n: Seq<char>| #[trigger] name_index(fs.push(f), n) == (match name_index(fs, n) {
            Some(k) => Some(k),
            None => if f.0.val@ == n { Some(fs.len() as int) } else { None },
        }) by {
            assert(fs.push(f)[0] == fs[0]);
            assert(name_index(fs.drop_first().push(f), n) == (match name_index(fs.drop_first(), n) {
                Some(k) => Some(k),
                None => if f.0.val@ == n { Some(fs.drop_first().len() as int) } else { None },
            }));
        }
    } else {
        assert forall|n: Seq<char>| #[trigger] name_index(fs.push(f), n) == (match name_index(fs, n) {
            Some(k) => Some(k),
            None => if f.0.val@ == n { Some(fs.len() as int) } else { None },
        }) by {
            assert(fs.push(f)[0] == f);
            assert(fs.push(f).drop_first() =~= Seq::<(PositionedItem<String>, Rc<Val>)>::empty());
            assert(name_index(Seq::<(PositionedItem<String>, Rc<Val>)>::empty(), n) is None);
        }
    }
}

/// A name found in a prefix is found at the same index in the whole list; one
/// not in the prefix is found, if at all, at or after the prefix.
pub proof fn lemma_name_index_prefix(fs: Seq<(PositionedItem<String>, Rc<Val>)>, k: int, n: Seq<char>)
    requires
        0 <= k <= fs.len(),
    ensures
        name_index(fs.take(k), n) is Some ==> name_index(fs, n) == name_index(fs.take(k), n),
        name_index(fs.take(k), n) is None ==> (name_index(fs, n) matches Some(i) ==> i >= k),
    decreases k,
{
    lemma_name_index_bound(fs, n);
    if k > 0 {
        lemma_name_index_prefix(fs.drop_first(), k - 1, n);
        assert(fs.take(k).drop_first() =~= fs.drop_first().take(k - 1));
        assert(fs.take(k)[0] == fs[0]);
    } else {
        assert(fs.take(0) =~= Seq::<(PositionedItem<String>, Rc<Val>)>::empty());
        assert(name_index(Seq::<(PositionedItem<String>, Rc<Val>)>::empty(), n) is None);
    }
}

proof fn lemma_type_change_only(
    fs: Seq<(PositionedItem<String>, Rc<Val>)>,
    ov: Seq<(Token, Result<Rc<Val>, BuildError>)>,
)
    ensures
        apply_overrides(fs, ov) matches Err(CopyFailure::TypeChange(_, old_val, new_val)) ==> {
            &&& !(*old_val is Empty)
            &&& !(*new_val is Empty)
            &&& !same_val_type(*old_val, *new_val)
        },
    decreases ov.len(),
{
    if ov.len() > 0 {
        let (key, res) = ov[0];
        if let Ok(v) = res {
            match name_index(fs, key.fragment@) {
                None => lemma_type_change_only(
                    fs.push((PositionedItem { pos: key.pos, val: key.fragment }, v)),
                    ov.drop_first(),
                ),
                Some(i) => lemma_type_change_only(fs.update(i, (fs[i].0, v)), ov.drop_first()),
            }
        }
    }
}

/// A copy refuses an override only for a change of type: where it fails on
/// an override of an existing field, the field's old value and the new one
/// are of different types and neither is empty. An override to or from the
/// empty value never fails the copy.
pub proof fn law_copy_refuses_only_type_changes(
    base: Seq<(PositionedItem<String>, Rc<Val>)>,
    ov: Seq<(Token, Result<Rc<Val>, BuildError>)>,
)
    ensures
        copy_result(base, ov) matches Err(CopyFailure::TypeChange(_, old_val, new_val)) ==> {
            &&& !(*old_val is Empty)
            &&& !(*new_val is Empty)
            &&& !same_val_type(*old_val, *new_val)
        },
{
    lemma_type_change_only(base, ov);
}

/// An override of a field of a one-field base with the empty value succeeds
/// and leaves the field empty under its key.
pub proof fn law_copy_accepts_an_empty_override(
    field: (PositionedItem<String>, Rc<Val>),
    key: Token,
    empty: Rc<Val>,
)
    requires
        key.fragment@ == field.0.val@,
        *empty == Val::Empty,
    ensures
        copy_result(seq![field], seq![(key, Ok::<Rc<Val>, BuildError>(empty))])
            == Ok::<Seq<(PositionedItem<String>, Rc<Val>)>, CopyFailure>(seq![(field.0, empty)]),
{
    let base = seq![field];
    let ov = seq![(key, Ok::<Rc<Val>, BuildError>(empty))];
    assert(base.take(0) =~= Seq::<(PositionedItem<String>, Rc<Val>)>::empty());
    assert(first_duplicate(base, 1) is None);
    assert(first_duplicate(base, 0) is None);
    assert(name_index(base, key.fragment@) == Some(0int));
    assert(ov[0] == (key, Ok::<Rc<Val>, BuildError>(empty)));
    assert(may_replace(*base[0].1, *empty));
    assert(ov.drop_first() =~= Seq::<(Token, Result<Rc<Val>, BuildError>)>::empty());
    assert(base.update(0, (field.0, empty)) =~= seq![(field.0, empty)]);
    assert(apply_overrides(seq![(field.0, empty)], ov.drop_first())
        == Ok::<Seq<(PositionedItem<String>, Rc<Val>)>, CopyFailure>(seq![(field.0, empty)]));
    assert(apply_overrides(base, ov) == apply_overrides(base.update(0, (field.0, empty)), ov.drop_first()));
}

/// A copy keeps its base: every field of the base stays in its place under
/// its key, a field that no override names keeps its value, and every
/// override's name is a field of the copy.
pub proof fn law_copy_keeps_base(
    base: Seq<(PositionedItem<String>, Rc<Val>)>,
    ov: Seq<(Token, Result<Rc<Val>, BuildError>)>,
)
    requires
        copy_result(base, ov) is Ok,
    ensures
        ({
            let out = copy_result(base, ov)->Ok_0;
            &&& out.len() >= base.len()
            &&& forall|i: int| 0 <= i < base.len() ==> #[trigger] out[i].0 == base[i].0
            &&& forall|i: int| 0 <= i < base.len()
                && (forall|j: int| 0 <= j < ov.len() ==> #[trigger] ov[j].0.fragment@ != base[i].0.val@)
                ==> out[i].1 == base[i].1
            &&& forall|j: int| 0 <= j < ov.len() ==> has_name(out, #[trigger] ov[j].0.fragment@)
        }),
{
    lemma_apply_keeps(base, ov);
}

proof fn lemma_apply_keeps(
    fs: Seq<(PositionedItem<String>, Rc<Val>)>,
    ov: Seq<(Token, Result<Rc<Val>, BuildError>)>,
)
    ensures
        apply_overrides(fs, ov) matches Ok(out) ==> {
            &&& out.len() >= fs.len()
            &&& forall|i: int| 0 <= i < fs.len() ==> #[trigger] out[i].0 == fs[i].0
            &&& forall|i: int| 0 <= i < fs.len()
                && (forall|j: int| 0 <= j < ov.len() ==> #[trigger] ov[j].0.fragment@ != fs[i].0.val@)
                ==> out[i].1 == fs[i].1
            &&& forall|j: int| 0 <= j < ov.len() ==> has_name(out, #[trigger] ov[j].0.fragment@)
        },
    decreases ov.len(),
{
    if ov.len() > 0 {
        let (key, res) = ov[0];
        if let Ok(v) = res {
            let rest = ov.drop_first();
            assert forall|j: int| 1 <= j < ov.len() implies #[trigger] ov[j] == rest[j - 1] by {}
            match name_index(fs, key.fragment@) {
                None => {
                    let next = fs.push((PositionedItem { pos: key.pos, val: key.fragment }, v));
                    lemma_apply_keeps(next, rest);
                    if let Ok(out) = apply_overrides(fs, ov) {
                        assert forall|i: int| 0 <= i < fs.len()
                            && (forall|j: int| 0 <= j < ov.len() ==> #[trigger] ov[j].0.fragment@ != fs[i].0.val@)
                            implies out[i].1 == fs[i].1 by {
                            assert forall|j: int| 0 <= j < rest.len() implies #[trigger] rest[j].0.fragment@ != next[i].0.val@ by {
                                assert(ov[j + 1] == rest[j]);
                            }
                        }
                        assert forall|j: int| 0 <= j < ov.len() implies has_name(out, #[trigger] ov[j].0.fragment@) by {
                            if j == 0 {
                                assert(out[fs.len() as int].0 == next[fs.len() as int].0);
                                assert(out[fs.len() as int].0.val@ == ov[0].0.fragment@);
                            } else {
                                assert(ov[j] == rest[j - 1]);
                            }
                        }
                    }
                },
                Some(i0) => {
                    lemma_name_index_bound(fs, key.fragment@);
                    let next = fs.update(i0, (fs[i0].0, v));
                    lemma_apply_keeps(next, rest);
                    if let Ok(out) = apply_overrides(fs, ov) {
                        assert forall|i: int| 0 <= i < fs.len() implies #[trigger] out[i].0 == fs[i].0 by {
                            assert(next[i].0 == fs[i].0);
                        }
                        assert forall|i: int| 0 <= i < fs.len()
                            && (forall|j: int| 0 <= j < ov.len() ==> #[trigger] ov[j].0.fragment@ != fs[i].0.val@)
                            implies out[i].1 == fs[i].1 by {
                            assert(ov[0].0.fragment@ != fs[i].0.val@);
                            assert(i != i0);
                            assert forall|j: int| 0 <= j < rest.len() implies #[trigger] rest[j].0.fragment@ != next[i].0.val@ by {
                                assert(ov[j + 1] == rest[j]);
                            }
                        }
                        assert forall|j: int| 0 <= j < ov.len() implies has_name(out, #[trigger] ov[j].0.fragment@) by {
                            if j == 0 {
                                assert(out[i0].0 == next[i0].0);
                                assert(out[i0].0.val@ == ov[0].0.fragment@);
                            } else {
                                assert(ov[j] == rest[j - 1]);
                            }
                        }
                    }
                },
            }
        }
    }
}

proof fn lemma_name_index_none(fs: Seq<(PositionedItem<String>, Rc<Val>)>, n: Seq<char>)
    ensures
        name_index(fs, n) is None ==> forall|k: int| 0 <= k < fs.len() ==> #[trigger] fs[k].0.val@ != n,
    decreases fs.len(),
{
    if fs.len() > 0 {
        lemma_name_index_none(fs.drop_first(), n);
        if name_index(fs, n) is None {
            assert forall|k: int| 0 <= k < fs.len() implies #[trigger] fs[k].0.val@ != n by {
                if k > 0 {
                    assert(fs[k] == fs.drop_first()[k - 1]);
                }
            }
        }
    }
}

proof fn lemma_no_duplicate_from(fs: Seq<(PositionedItem<String>, Rc<Val>)>, k: int)
    requires
        0 <= k,
        first_duplicate(fs, k) is None,
    ensures
        forall|a: int, b: int| 0 <= a < b < fs.len() && k <= b ==> #[trigger] fs[a].0.val@ != #[trigger] fs[b].0.val@,
    decreases fs.len() - k,
{
    if k < fs.len() {
        lemma_no_duplicate_from(fs, k + 1);
        lemma_name_index_none(fs.take(k), fs[k].0.val@);
        assert forall|a: int, b: int| 0 <= a < b < fs.len() && k <= b implies #[trigger] fs[a].0.val@ != #[trigger] fs[b].0.val@ by {
            if b == k {
                assert(fs.take(k)[a] == fs[a]);
            }
        }
    }
}

proof fn lemma_lookup_distinct(fs: Seq<(PositionedItem<String>, Rc<Val>)>, i: int)
    requires
        names_distinct(fs),
        0 <= i < fs.len(),
    ensures
        lookup_named(fs, fs[i].0.val@) == Some(fs[i].1),
    decreases i,
{
    if i > 0 {
        let rest = fs.drop_first();
        assert(fs[0].0.val@ != fs[i].0.val@);
        assert forall|a: int, b: int| 0 <= a < b < rest.len() implies #[trigger] rest[a].0.val@ != #[trigger] rest[b].0.val@ by {
            assert(rest[a] == fs[a + 1]);
            assert(rest[b] == fs[b + 1]);
        }
        assert(rest[i - 1] == fs[i]);
        lemma_lookup_distinct(rest, i - 1);
    }
}

/// One override applied to distinct fields keeps them distinct.
proof fn lemma_step_distinct(
    fs: Seq<(PositionedItem<String>, Rc<Val>)>,
    key: Token,
    v: Rc<Val>,
)
    requires
        names_distinct(fs),
    ensures
        name_index(fs, key.fragment@) is None ==> names_distinct(fs.push((PositionedItem { pos: key.pos, val: key.fragment }, v))),
        name_index(fs, key.fragment@) matches Some(i) ==> names_distinct(fs.update(i, (fs[i].0, v))),
{
    lemma_name_index_none(fs, key.fragment@);
    lemma_name_index_bound(fs, key.fragment@);
    let pushed = fs.push((PositionedItem { pos: key.pos, val: key.fragment }, v));
    if name_index(fs, key.fragment@) is None {
        assert forall|a: int, b: int| 0 <= a < b < pushed.len() implies #[trigger] pushed[a].0.val@ != #[trigger] pushed[b].0.val@ by {
            if b == fs.len() {
                assert(pushed[a] == fs[a]);
            } else {
                assert(pushed[a] == fs[a] && pushed[b] == fs[b]);
            }
        }
    }
    if let Some(i) = name_index(fs, key.fragment@) {
        let updated = fs.update(i, (fs[i].0, v));
        assert forall|a: int, b: int| 0 <= a < b < updated.len() implies #[trigger] updated[a].0.val@ != #[trigger] updated[b].0.val@ by {
            assert(updated[a].0 == fs[a].0);
            assert(updated[b].0 == fs[b].0);
        }
    }
}

proof fn lemma_apply_distinct(
    fs: Seq<(PositionedItem<String>, Rc<Val>)>,
    ov: Seq<(Token, Result<Rc<Val>, BuildError>)>,
)
    requires
        names_distinct(fs),
    ensures
        apply_overrides(fs, ov) matches Ok(out) ==> names_distinct(out),
    decreases ov.len(),
{
    if ov.len() > 0 {
        let (key, res) = ov[0];
        if let Ok(v) = res {
            lemma_step_distinct(fs, key, v);
            match name_index(fs, key.fragment@) {
                None => {
                    lemma_apply_distinct(fs.push((PositionedItem { pos: key.pos, val: key.fragment }, v)), ov.drop_first());
                },
                Some(i) => {
                    lemma_apply_distinct(fs.update(i, (fs[i].0, v)), ov.drop_first());
                },
            }
        }
    }
}

proof fn lemma_override_wins(
    fs: Seq<(PositionedItem<String>, Rc<Val>)>,
    ov: Seq<(Token, Result<Rc<Val>, BuildError>)>,
    j: int,
)
    requires
        names_distinct(fs),
        apply_overrides(fs, ov) is Ok,
        0 <= j < ov.len(),
        forall|k: int| j < k < ov.len() ==> #[trigger] ov[k].0.fragment@ != ov[j].0.fragment@,
    ensures
        ov[j].1 is Ok,
        lookup_named(apply_overrides(fs, ov)->Ok_0, ov[j].0.fragment@) == Some(ov[j].1->Ok_0),
    decreases ov.len(),
{
    let (key, res) = ov[0];
    let v = res->Ok_0;
    let rest = ov.drop_first();
    lemma_step_distinct(fs, key, v);
    lemma_name_index_bound(fs, key.fragment@);
    let next = match name_index(fs, key.fragment@) {
        None => fs.push((PositionedItem { pos: key.pos, val: key.fragment }, v)),
        Some(i) => fs.update(i, (fs[i].0, v)),
    };
    assert(apply_overrides(fs, ov) == apply_overrides(next, rest));
    if j > 0 {
        assert forall|k: int| j - 1 < k < rest.len() implies #[trigger] rest[k].0.fragment@ != rest[j - 1].0.fragment@ by {
            assert(rest[k] == ov[k + 1]);
            assert(rest[j - 1] == ov[j]);
        }
        lemma_override_wins(next, rest, j - 1);
        assert(rest[j - 1] == ov[j]);
    } else {
        let i0: int = match name_index(fs, key.fragment@) {
            None => fs.len() as int,
            Some(i) => i,
        };
        assert(next[i0].0.val@ == key.fragment@ && next[i0].1 == v);
        lemma_apply_keeps(next, rest);
        lemma_apply_distinct(next, rest);
        let out = apply_overrides(next, rest)->Ok_0;
        assert forall|k: int| 0 <= k < rest.len() implies #[trigger] rest[k].0.fragment@ != next[i0].0.val@ by {
            assert(rest[k] == ov[k + 1]);
        }
        assert(out[i0] == next[i0]);
        lemma_lookup_distinct(out, i0);
    }
}

/// An override wins: in a copy, no two fields share a name, and the field
/// that an override names holds the value of the last override of that name.
pub proof fn law_copy_override_wins(
    base: Seq<(PositionedItem<String>, Rc<Val>)>,
    ov: Seq<(Token, Result<Rc<Val>, BuildError>)>,
    j: int,
)
    requires
        copy_result(base, ov) is Ok,
        0 <= j < ov.len(),
        forall|k: int| j < k < ov.len() ==> #[trigger] ov[k].0.fragment@ != ov[j].0.fragment@,
    ensures
        names_distinct(copy_result(base, ov)->Ok_0),
        ov[j].1 is Ok,
        lookup_named(copy_result(base, ov)->Ok_0, ov[j].0.fragment@) == Some(ov[j].1->Ok_0),
{
    lemma_no_duplicate_from(base, 0);
    lemma_apply_distinct(base, ov);
    lemma_override_wins(base, ov, j);
}

} // verus!
