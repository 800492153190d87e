//! The build stage of the ucg compiler: the rules by which values are
//! bound, looked up, combined, compared, selected and copied.
//!
//! The functions here take the values that sub-expressions evaluated to and
//! decide what the expression they belong to evaluates to.
use vstd::prelude::*;
use std::rc::Rc;

use crate::ast::{Position, PositionedItem, Token};
use crate::error::{BuildError, ErrorType, concat3};

pub mod copy;
pub mod eval;
pub mod ir;
pub mod lookup;
pub mod ops;

pub use self::ir::Val;

verus! {

/// The fields of a tuple value: names with their values.
pub type Fields = Vec<(PositionedItem<String>, Rc<Val>)>;

/// The value of the first field with the given name.
pub open spec fn lookup_named(fs: Seq<(PositionedItem<String>, Rc<Val>)>, name: Seq<char>) -> Option<Rc<Val>>
    decreases fs.len(),
{
    if fs.len() == 0 {
        None
    } else if fs[0].0.val@ == name {
        Some(fs[0].1)
    } else {
        lookup_named(fs.drop_first(), name)
    }
}

/// Whether some field has the given name.
pub open spec fn has_name(fs: Seq<(PositionedItem<String>, Rc<Val>)>, name: Seq<char>) -> bool {
    exists|k: int| 0 <= k < fs.len() && #[trigger] fs[k].0.val@ == name
}

/// No two fields share a name.
pub open spec fn names_distinct(fs: Seq<(PositionedItem<String>, Rc<Val>)>) -> bool {
    forall|i: int, j: int| 0 <= i < j < fs.len() ==> #[trigger] fs[i].0.val@ != #[trigger] fs[j].0.val@
}

/// A field list looked up past a prefix that does not hold the name.
proof fn lemma_lookup_skip(fs: Seq<(PositionedItem<String>, Rc<Val>)>, name: Seq<char>, i: int)
    requires
        0 <= i <= fs.len(),
        forall|j: int| 0 <= j < i ==> fs[j].0.val@ != name,
    ensures
        lookup_named(fs, name) == lookup_named(fs.skip(i), name),
    decreases i,
{
    if i > 0 {
        lemma_lookup_skip(fs.drop_first(), name, i - 1);
        assert(fs.drop_first().skip(i - 1) =~= fs.skip(i));
    } else {
        assert(fs.skip(0) =~= fs);
    }
}

/// Lookup finds a value exactly when some field has the name.
pub proof fn lemma_lookup_found(fs: Seq<(PositionedItem<String>, Rc<Val>)>, name: Seq<char>)
    ensures
        lookup_named(fs, name) is Some <==> has_name(fs, name),
    decreases fs.len(),
{
    if fs.len() > 0 {
        lemma_lookup_found(fs.drop_first(), name);
        if has_name(fs, name) && fs[0].0.val@ != name {
            let k = choose|k: int| 0 <= k < fs.len() && #[trigger] fs[k].0.val@ == name;
            assert(fs.drop_first()[k - 1].0.val@ == name);
        }
        if has_name(fs.drop_first(), name) {
            let k = choose|k: int| 0 <= k < fs.drop_first().len() && #[trigger] fs.drop_first()[k].0.val@ == name;
            assert(fs[k + 1].0.val@ == name);
        }
    }
}

/// Lookup after appending a field: an earlier field with that name still wins.
pub proof fn lemma_lookup_push(
    fs: Seq<(PositionedItem<String>, Rc<Val>)>,
    f: (PositionedItem<String>, Rc<Val>),
    name: Seq<char>,
)
    ensures
        lookup_named(fs.push(f), name) == (match lookup_named(fs, name) {
            Some(v) => Some(v),
            None => if f.0.val@ == name { Some(f.1) } else { None },
        }),
    decreases fs.len(),
{
    if fs.len() > 0 {
        lemma_lookup_push(fs.drop_first(), f, name);
        assert(fs.push(f).drop_first() =~= fs.drop_first().push(f));
        assert(fs.push(f)[0] == fs[0]);
    } else {
        assert(fs.push(f).drop_first() =~= Seq::<(PositionedItem<String>, Rc<Val>)>::empty());
        assert(lookup_named(Seq::<(PositionedItem<String>, Rc<Val>)>::empty(), name) is None);
        assert(fs.push(f)[0] == f);
    }
}

/// Returns the value of the first field named `target`.
pub fn find_in_fieldlist(target: &String, fs: &Fields) -> (r: Option<Rc<Val>>)
    ensures
        r == lookup_named(fs@, target@),
{
    let mut i: usize = 0;
    while i < fs.len()
        invariant
            i <= fs@.len(),
            forall|j: int| 0 <= j < i ==> fs@[j].0.val@ != target@,
        decreases fs@.len() - i,
    {
        if *target == fs[i].0.val {
            proof {
                lemma_lookup_skip(fs@, target@, i as int);
                assert(fs@.skip(i as int)[0] == fs@[i as int]);
            }
            return Some(fs[i].1.clone());
        }
        i = i + 1;
    }
    proof {
        lemma_lookup_skip(fs@, target@, i as int);
    }
    None
}

/// Keeps the first field of each name, in order: a scope binds each name once.
pub fn distinct_scope(scope: Fields) -> (r: Fields)
    ensures
        names_distinct(r@),
        forall|name: Seq<char>| #[trigger] lookup_named(r@, name) == lookup_named(scope@, name),
{
    let mut out: Fields = Vec::new();
    let mut i: usize = 0;
    while i < scope.len()
        invariant
            i <= scope@.len(),
            names_distinct(out@),
            forall|name: Seq<char>| #[trigger] lookup_named(out@, name) == lookup_named(scope@.take(i as int), name),
        decreases scope@.len() - i,
    {
        let ghost before = out@;
        proof {
            assert(scope@.take(i + 1) =~= scope@.take(i as int).push(scope@[i as int]));
            lemma_lookup_found(out@, scope@[i as int].0.val@);
        }
        if find_in_fieldlist(&scope[i].0.val, &out).is_none() {
            out.push((scope[i].0.copy(), scope[i].1.clone()));
            proof {
                assert(out@ == before.push(scope@[i as int]));
                assert forall|name: Seq<char>| #[trigger] lookup_named(out@, name) == lookup_named(scope@.take(i + 1), name) by {
                    lemma_lookup_push(before, scope@[i as int], name);
                    lemma_lookup_push(scope@.take(i as int), scope@[i as int], name);
                }
                assert forall|a: int, b: int| 0 <= a < b < out@.len() implies #[trigger] out@[a].0.val@ != #[trigger] out@[b].0.val@ by {
                    if b == out@.len() - 1 {
                        if out@[a].0.val@ == out@[b].0.val@ {
                            assert(before[a].0.val@ == scope@[i as int].0.val@);
                        }
                    }
                }
            }
        } else {
            proof {
                assert forall|name: Seq<char>| #[trigger] lookup_named(out@, name) == lookup_named(scope@.take(i + 1), name) by {
                    lemma_lookup_push(scope@.take(i as int), scope@[i as int], name);
                }
            }
        }
        i = i + 1;
    }
    assert(scope@.take(scope@.len() as int) =~= scope@);
    out
}

/// Whether a name is a reserved word of the language, which no binding may take.
pub open spec fn is_reserved_word(name: Seq<char>) -> bool {
    name == "self"@ || name == "assert"@ || name == "true"@ || name == "false"@ || name == "let"@
        || name == "import"@ || name == "as"@ || name == "select"@ || name == "macro"@
        || name == "module"@ || name == "env"@ || name == "map"@ || name == "filter"@
        || name == "NULL"@ || name == "out"@
}

/// AssertCollector collects the results of assertions in the UCG AST.
pub struct AssertCollector {
    pub success: bool,
    pub summary: String,
    pub failures: String,
}

/// Builder handles building ucg code for a single file: it holds the bindings
/// made so far, the stack of tuples that `self` refers to, the output, and the
/// results of the assertions.
pub struct Builder {
    pub file: String,
    pub validate_mode: bool,
    pub assert_collector: AssertCollector,
    pub strict: bool,
    pub env: Rc<Val>,
    pub build_output: Fields,
    pub stack: Option<Vec<Rc<Val>>>,
    pub is_module: bool,
    pub last: Option<Rc<Val>>,
    pub out_lock: Option<(String, Rc<Val>)>,
}

impl Builder {
    /// The bindings made so far, in the order they were made.
    pub open spec fn bindings(&self) -> Seq<(PositionedItem<String>, Rc<Val>)> {
        self.build_output@
    }

    /// The environment value that `env` refers to.
    pub open spec fn env_val(&self) -> Rc<Val> {
        self.env
    }

    /// Whether undefined environment variables are errors.
    pub open spec fn is_strict(&self) -> bool {
        self.strict
    }

    /// Whether assertions are evaluated.
    pub open spec fn in_validate_mode(&self) -> bool {
        self.validate_mode
    }

    /// The file being built.
    pub open spec fn file_name(&self) -> Seq<char> {
        self.file@
    }

    /// A builder is well formed when no two bindings share a name.
    pub open spec fn wf(&self) -> bool {
        names_distinct(self.bindings())
    }

    /// The value a name is bound to.
    pub open spec fn bound(&self, name: Seq<char>) -> Option<Rc<Val>> {
        lookup_named(self.bindings(), name)
    }

    /// Constructs a builder for the file `root` with the given bindings and environment.
    pub fn new_with_env_and_scope(root: String, scope: Fields, env: Rc<Val>) -> (r: Self)
        requires
            names_distinct(scope@),
        ensures
            r.wf(),
            r.bindings() == scope@,
            r.env_val() == env,
            r.file_name() == root@,
            r.is_strict(),
            !r.in_validate_mode(),
            r.assert_collector.success,
            r.assert_collector.summary@ == Seq::<char>::empty(),
            r.assert_collector.failures@ == Seq::<char>::empty(),
            r.stack is None,
            !r.is_module,
            r.last is None,
            r.out_lock is None,
    {
        Builder {
            file: root,
            validate_mode: false,
            assert_collector: AssertCollector {
                success: true,
                summary: String::new(),
                failures: String::new(),
            },
            env: env,
            strict: true,
            build_output: scope,
            out_lock: None,
            stack: None,
            is_module: false,
            last: None,
        }
    }

    /// Sets whether undefined environment variables are errors.
    pub fn set_strict(&mut self, to: bool)
        ensures
            *final(self) == (Builder { strict: to, ..*old(self) }),
            final(self).is_strict() == to,
    {
        self.strict = to;
    }

    /// Puts the builder in validation mode.
    ///
    /// Among other things this means that assertions will be evaluated and their results
    /// will be saved in a report for later output.
    pub fn enable_validate_mode(&mut self)
        ensures
            *final(self) == (Builder { validate_mode: true, ..*old(self) }),
            final(self).in_validate_mode(),
    {
        self.validate_mode = true;
    }

    /// Returns the name of the file being built.
    pub fn file(&self) -> (r: &String)
        ensures
            r@ == self.file_name(),
    {
        &self.file
    }

    /// The tuples on the stack, oldest first.
    pub open spec fn stack_seq(&self) -> Seq<Rc<Val>> {
        match self.stack {
            Some(v) => v@,
            None => Seq::empty(),
        }
    }

    /// What pushing a tuple does: it goes on top of the stack, and nothing
    /// but the stack changes.
    pub open spec fn push_outcome(before: Builder, after: Builder, tuple: Rc<Val>) -> bool {
        &&& after == (Builder { stack: after.stack, ..before })
        &&& after.stack is Some
        &&& after.stack_seq() == before.stack_seq().push(tuple)
    }

    /// What popping does: the tuple on top comes off, if there is one, and
    /// nothing but the stack changes; a stack that was there stays there,
    /// emptied where its last tuple came off.
    pub open spec fn pop_outcome(before: Builder, after: Builder, r: Option<Rc<Val>>) -> bool {
        &&& after == (Builder { stack: after.stack, ..before })
        &&& (after.stack is Some <==> before.stack is Some)
        &&& if before.stack_seq().len() == 0 {
            r is None && after.stack_seq() == before.stack_seq()
        } else {
            r == Some(before.stack_seq().last()) && after.stack_seq() == before.stack_seq().drop_last()
        }
    }

    /// Pushes a tuple that `self` then refers to.
    pub fn push_val(&mut self, tuple: Rc<Val>)
        ensures
            Builder::push_outcome(*old(self), *final(self), tuple),
    {
        let mut v = match self.stack.take() {
            Some(v) => v,
            None => Vec::new(),
        };
        v.push(tuple);
        self.stack = Some(v);
    }

    /// Pops the tuple pushed last, if any.
    pub fn pop_val(&mut self) -> (r: Option<Rc<Val>>)
        ensures
            Builder::pop_outcome(*old(self), *final(self), r),
    {
        match self.stack.take() {
            Some(mut v) => {
                let r = v.pop();
                self.stack = Some(v);
                r
            },
            None => None,
        }
    }

    /// The tuple that `self` refers to: the one at the bottom of the stack.
    pub fn peek_val(&self) -> (r: Option<Rc<Val>>)
        ensures
            r == (if self.stack_seq().len() == 0 { None } else { Some(self.stack_seq()[0]) }),
    {
        match &self.stack {
            Some(v) => if v.len() > 0 { Some(v[0].clone()) } else { None },
            None => None,
        }
    }

    /// What a symbol refers to: `env` is the environment, `self` the tuple at the
    /// bottom of the stack, any other name its binding.
    pub open spec fn symbol_value(&self, name: Seq<char>) -> Option<Rc<Val>> {
        if name == "env"@ {
            Some(self.env_val())
        } else if name == "self"@ {
            if self.stack_seq().len() == 0 { None } else { Some(self.stack_seq()[0]) }
        } else {
            self.bound(name)
        }
    }

    /// Looks up what a symbol refers to.
    pub fn lookup_sym(&self, sym: &PositionedItem<String>) -> (r: Option<Rc<Val>>)
        ensures
            r == self.symbol_value(sym.val@),
    {
        let env_name = "env".to_owned();
        let self_name = "self".to_owned();
        if sym.val == env_name {
            return Some(self.env.clone());
        }
        if sym.val == self_name {
            return self.peek_val();
        }
        find_in_fieldlist(&sym.val, &self.build_output)
    }

    /// Returns a Val by name from previously built UCG.
    pub fn get_out_by_name(&self, name: &str) -> (r: Option<Rc<Val>>)
        ensures
            r == self.symbol_value(name@),
    {
        let key = PositionedItem { pos: Position::new(0, 0, 0), val: name.to_owned() };
        self.lookup_sym(&key)
    }

    /// Takes all bindings out of the builder as the fields of a tuple, in the
    /// order they were made.
    pub fn get_outputs_as_val(&mut self) -> (r: Rc<Val>)
        ensures
            *r == Val::Tuple(old(self).build_output),
            final(self).bindings() == Seq::<(PositionedItem<String>, Rc<Val>)>::empty(),
            final(self).wf(),
            *final(self) == (Builder { build_output: final(self).build_output, ..*old(self) }),
    {
        let mut fields = Vec::new();
        std::mem::swap(&mut fields, &mut self.build_output);
        Rc::new(Val::Tuple(fields))
    }

    /// Returns true if a name is a reserved word.
    pub fn check_reserved_word(name: &str) -> (r: bool)
        ensures
            r == is_reserved_word(name@),
    {
        let n = name.to_owned();
        n == "self".to_owned() || n == "assert".to_owned() || n == "true".to_owned()
            || n == "false".to_owned() || n == "let".to_owned() || n == "import".to_owned()
            || n == "as".to_owned() || n == "select".to_owned() || n == "macro".to_owned()
            || n == "module".to_owned() || n == "env".to_owned() || n == "map".to_owned()
            || n == "filter".to_owned() || n == "NULL".to_owned() || n == "out".to_owned()
    }

    /// Adds a binding for a name that is not bound yet.
    fn add_binding(&mut self, name: &Token, val: Rc<Val>)
        requires
            old(self).wf(),
            old(self).bound(name.fragment@) is None,
        ensures
            final(self).wf(),
            final(self).bindings() == old(self).bindings().push((PositionedItem::<String> { pos: name.pos, val: name.fragment }, val)),
            *final(self) == (Builder { build_output: final(self).build_output, ..*old(self) }),
    {
        proof {
            lemma_lookup_found(self.build_output@, name.fragment@);
        }
        let key = PositionedItem::from_token(name);
        self.build_output.push((key, val));
    }

    /// Whether a name is bound, by a search of the bindings.
    fn is_bound(&self, name: &String) -> (r: bool)
        ensures
            r == (self.bound(name@) is Some),
    {
        find_in_fieldlist(name, &self.build_output).is_some()
    }

    /// What binding a let statement does: a reserved word or a name that is
    /// bound already is an error and leaves the bindings as they were; any
    /// other name is bound to the value, after the bindings made before.
    /// Everything else about the builder stays.
    pub open spec fn let_outcome(
        before: Builder,
        after: Builder,
        name: Token,
        val: Rc<Val>,
        r: Result<Rc<Val>, BuildError>,
    ) -> bool {
        &&& after == (Builder { build_output: after.build_output, ..before })
        &&& if is_reserved_word(name.fragment@) {
            &&& r matches Err(e) && e.err_type == ErrorType::ReservedWordError && e.pos == name.pos
                && e.msg@ =~= "Let "@ + name.fragment@ + " binding collides with reserved word"@
            &&& after.bindings() == before.bindings()
        } else if before.bound(name.fragment@) is Some {
            &&& r matches Err(e) && e.err_type == ErrorType::DuplicateBinding && e.pos == name.pos
                && e.msg@ =~= "Binding for "@ + name.fragment@ + " already exists in file: "@ + before.file_name()
            &&& after.bindings() == before.bindings()
        } else {
            &&& r == Ok::<Rc<Val>, BuildError>(val)
            &&& after.bindings() == before.bindings().push(
                (PositionedItem::<String> { pos: name.pos, val: name.fragment }, val),
            )
        }
    }

    /// Binds the value of a let statement to its name.
    ///
    /// A reserved word or a name that is bound already is an error, and the
    /// bindings stay as they were.
    pub fn build_let(&mut self, name: &Token, val: Rc<Val>) -> (r: Result<Rc<Val>, BuildError>)
        requires
            old(self).wf(),
        ensures
            final(self).wf(),
            Builder::let_outcome(*old(self), *final(self), *name, val, r),
    {
        if Self::check_reserved_word(name.fragment.as_str()) {
            let msg = concat3("Let ", name.fragment.as_str(), " binding collides with reserved word");
            return Err(BuildError::new(msg, ErrorType::ReservedWordError, name.pos));
        }
        if self.is_bound(&name.fragment) {
            let msg = concat3("Binding for ", name.fragment.as_str(), " already exists in file: ");
            let mut msg = msg;
            msg.append(self.file.as_str());
            return Err(BuildError::new(msg, ErrorType::DuplicateBinding, name.pos));
        }
        self.add_binding(name, val.clone());
        Ok(val)
    }
}

/// A let binding reads back: once a let statement has bound a name, the name
/// refers to the bound value, and every other name refers to what it referred
/// to before.
pub proof fn law_let_reads_back(
    before: Builder,
    after: Builder,
    name: Token,
    val: Rc<Val>,
    r: Result<Rc<Val>, BuildError>,
    other: Seq<char>,
)
    requires
        before.wf(),
        Builder::let_outcome(before, after, name, val, r),
        r is Ok,
    ensures
        after.symbol_value(name.fragment@) == Some(val),
        other != name.fragment@ ==> after.symbol_value(other) == before.symbol_value(other),
{
    let f = (PositionedItem::<String> { pos: name.pos, val: name.fragment }, val);
    lemma_lookup_push(before.bindings(), f, name.fragment@);
    lemma_lookup_push(before.bindings(), f, other);
}

/// A binding is final: a second let statement for a name that a let statement
/// bound fails with a duplicate binding, and the name keeps its first value.
pub proof fn law_binding_is_final(
    first: Builder,
    second: Builder,
    third: Builder,
    name: Token,
    again: Token,
    v1: Rc<Val>,
    v2: Rc<Val>,
    r1: Result<Rc<Val>, BuildError>,
    r2: Result<Rc<Val>, BuildError>,
)
    requires
        first.wf(),
        Builder::let_outcome(first, second, name, v1, r1),
        r1 is Ok,
        Builder::let_outcome(second, third, again, v2, r2),
        again.fragment@ == name.fragment@,
    ensures
        r2 matches Err(e) && e.err_type == ErrorType::DuplicateBinding && e.pos == again.pos,
        third.symbol_value(name.fragment@) == Some(v1),
{
    law_let_reads_back(first, second, name, v1, r1, name.fragment@);
}

/// A pop undoes a push: popping right after pushing a tuple gives the tuple
/// back and leaves the stack as it was before, and the rest of the builder
/// too.
pub proof fn law_pop_undoes_push(
    before: Builder,
    pushed: Builder,
    popped: Builder,
    tuple: Rc<Val>,
    r: Option<Rc<Val>>,
)
    requires
        Builder::push_outcome(before, pushed, tuple),
        Builder::pop_outcome(pushed, popped, r),
    ensures
        r == Some(tuple),
        popped.stack_seq() == before.stack_seq(),
        popped == (Builder { stack: popped.stack, ..before }),
{
    assert(before.stack_seq().push(tuple).drop_last() =~= before.stack_seq());
}

} // verus!
