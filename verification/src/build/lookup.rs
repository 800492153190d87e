//! Lookups along a selector path: fields of tuples, elements of lists and
//! variables of the environment.
use vstd::prelude::*;
use vstd::string::StrSliceExecFns;
use std::rc::Rc;

use crate::ast::{Position, SelectorList, Token, selector_text};
use crate::error::{BuildError, ErrorType, concat3};
use super::ir::{Val, val_typ_name};
use super::{Builder, Fields, find_in_fieldlist, lookup_named};

verus! {

/// Why a text is not an index.
#[derive(Debug, PartialEq, Eq, Structural, Clone, Copy)]
pub enum IndexError {
    Empty,
    InvalidDigit,
    PosOverflow,
}

/// The value of a decimal digit character, if it is one.
pub open spec fn digit_value(c: char) -> Option<nat> {
    if '0' <= c && c <= '9' {
        Some((c as nat - '0' as nat) as nat)
    } else {
        None
    }
}

/// Reads decimal digits after an accumulated value `acc`, from left to right:
/// a character that is not a digit, or a value past `usize::MAX`, stops it.
pub open spec fn read_digits(s: Seq<char>, acc: nat) -> Result<nat, IndexError>
    decreases s.len(),
{
    if s.len() == 0 {
        Ok(acc)
    } else {
        match digit_value(s[0]) {
            None => Err(IndexError::InvalidDigit),
            Some(d) => if acc * 10 + d > usize::MAX {
                Err(IndexError::PosOverflow)
            } else {
                read_digits(s.drop_first(), acc * 10 + d)
            },
        }
    }
}

/// An unsigned integer written in decimal, with an optional leading `+`.
pub open spec fn parse_index(s: Seq<char>) -> Result<nat, IndexError> {
    if s.len() == 0 {
        Err(IndexError::Empty)
    } else if s[0] == '+' {
        if s.len() == 1 {
            Err(IndexError::InvalidDigit)
        } else {
            read_digits(s.drop_first(), 0)
        }
    } else {
        read_digits(s, 0)
    }
}

/// What an environment lookup finds: the value of the first variable with
/// the name; where no variable has it, the empty value in lenient mode and
/// nothing in strict mode.
pub open spec fn env_lookup(fs: Seq<(String, String)>, name: Seq<char>, strict: bool) -> Option<Val>
    decreases fs.len(),
{
    if fs.len() == 0 {
        if strict { None } else { Some(Val::Empty) }
    } else if fs[0].0@ == name {
        Some(Val::Str(fs[0].1))
    } else {
        env_lookup(fs.drop_first(), name, strict)
    }
}

/// Where a walk along a selector path ends.
pub enum Walk {
    Found(Val),
    Failed(ErrorType, Position),
}

/// Walks from a value along the tokens of a selector path: a tuple is entered by
/// field name, a list by index, the environment by variable name.
pub open spec fn walk(v: Val, toks: Seq<Token>, strict: bool) -> Walk
    decreases toks.len(),
{
    if toks.len() == 0 {
        Walk::Found(v)
    } else {
        let t = toks[0];
        match v {
            Val::Tuple(fs) => match lookup_named(fs@, t.fragment@) {
                Some(x) => walk(*x, toks.drop_first(), strict),
                None => Walk::Failed(ErrorType::NoSuchSymbol, t.pos),
            },
            Val::Env(fs) => match env_lookup(fs@, t.fragment@, strict) {
                Some(x) => walk(x, toks.drop_first(), strict),
                None => Walk::Failed(ErrorType::NoSuchSymbol, t.pos),
            },
            Val::List(elems) => match parse_index(t.fragment@) {
                Ok(idx) => if idx < elems@.len() {
                    walk(*elems@[idx as int], toks.drop_first(), strict)
                } else {
                    Walk::Failed(ErrorType::NoSuchSymbol, t.pos)
                },
                Err(_) => Walk::Failed(ErrorType::ParseError, t.pos),
            },
            _ => Walk::Failed(ErrorType::TypeFail, t.pos),
        }
    }
}

/// What a selector evaluates to, given the value of its head.
pub open spec fn selector_walk(sl: SelectorList, first: Val, strict: bool) -> Walk {
    match sl.tail {
        None => Walk::Found(first),
        Some(toks) => walk(first, toks@, strict),
    }
}

/// Whether a result agrees with a walk: the value found, or an error of the
/// kind and at the position the walk fails with.
pub open spec fn agrees(r: Result<Rc<Val>, BuildError>, w: Walk) -> bool {
    match w {
        Walk::Found(v) => r matches Ok(x) && *x == v,
        Walk::Failed(k, p) => r matches Err(e) && e.err_type == k && e.pos == p,
    }
}

/// The message of an element that a selector path does not find.
pub open spec fn unmatched_msg(frag: Seq<char>, path: Seq<char>, file: Seq<char>) -> Seq<char> {
    "Unable to match element "@ + frag + " in selector path ["@ + path + "] in file: "@ + file
}

/// The message that `usize::from_str` gives for each kind of error.
pub open spec fn index_error_text(k: IndexError) -> Seq<char> {
    match k {
        IndexError::Empty => "cannot parse integer from empty string"@,
        IndexError::InvalidDigit => "invalid digit found in string"@,
        IndexError::PosOverflow => "number too large to fit in target type"@,
    }
}

/// The message of the error where a walk along a selector path fails, for a
/// path shown as `path` in the file `file`.
pub open spec fn walk_msg(v: Val, toks: Seq<Token>, strict: bool, path: Seq<char>, file: Seq<char>) -> Seq<char>
    decreases toks.len(),
{
    if toks.len() == 0 {
        Seq::empty()
    } else {
        let t = toks[0];
        match v {
            Val::Tuple(fs) => match lookup_named(fs@, t.fragment@) {
                Some(x) => walk_msg(*x, toks.drop_first(), strict, path, file),
                None => unmatched_msg(t.fragment@, path, file),
            },
            Val::Env(fs) => match env_lookup(fs@, t.fragment@, strict) {
                Some(x) => walk_msg(x, toks.drop_first(), strict, path, file),
                None => "Environment Variable "@ + t.fragment@ + " not set"@,
            },
            Val::List(elems) => match parse_index(t.fragment@) {
                Ok(idx) => if idx < elems@.len() {
                    walk_msg(*elems@[idx as int], toks.drop_first(), strict, path, file)
                } else {
                    unmatched_msg(t.fragment@, path, file)
                },
                Err(k) => index_error_text(k),
            },
            _ => val_typ_name(v) + " is not a Tuple or List"@,
        }
    }
}

proof fn lemma_read_digits_bound(s: Seq<char>, acc: nat)
    requires
        acc <= usize::MAX,
    ensures
        read_digits(s, acc) matches Ok(n) ==> n <= usize::MAX,
    decreases s.len(),
{
    if s.len() > 0 {
        if let Some(d) = digit_value(s[0]) {
            if acc * 10 + d <= usize::MAX {
                lemma_read_digits_bound(s.drop_first(), acc * 10 + d);
            }
        }
    }
}

/// Parses an index, as `usize::from_str` does.
pub fn parse_index_text(s: &String) -> (r: Result<usize, IndexError>)
    ensures
        parse_index(s@) matches Ok(n) ==> n <= usize::MAX,
        match parse_index(s@) {
            Ok(n) => r == Ok::<usize, IndexError>(n as usize),
            Err(k) => r == Err::<usize, IndexError>(k),
        },
{
    proof {
        lemma_read_digits_bound(s@, 0);
        if s@.len() > 0 {
            lemma_read_digits_bound(s@.drop_first(), 0);
        }
    }
    let chars = text_chars(s);
    let n = chars.len();
    if n == 0 {
        return Err(IndexError::Empty);
    }
    let mut i: usize = 0;
    if chars[0] == '+' {
        if n == 1 {
            return Err(IndexError::InvalidDigit);
        }
        i = 1;
    }
    let ghost start = i;
    proof {
        if start == 1 {
            assert(chars@.skip(1) =~= s@.drop_first());
        } else {
            assert(chars@.skip(0) =~= s@);
        }
    }
    let mut acc: usize = 0;
    while i < n
        invariant
            chars@ == s@,
            n == chars@.len(),
            start <= i <= n,
            parse_index(s@) == read_digits(chars@.skip(i as int), acc as nat),
        decreases n - i,
    {
        let c = chars[i];
        proof {
            assert(chars@.skip(i as int)[0] == c);
            assert(chars@.skip(i as int).drop_first() =~= chars@.skip(i + 1));
        }
        if c < '0' || c > '9' {
            return Err(IndexError::InvalidDigit);
        }
        let d = char_digit(c);
        if acc > (usize::MAX - d) / 10 {
            proof {
                assert(acc * 10 + d > usize::MAX) by (nonlinear_arith)
                    requires acc > (usize::MAX - d) / 10, d <= 9;
            }
            return Err(IndexError::PosOverflow);
        }
        proof {
            assert(acc * 10 + d <= usize::MAX) by (nonlinear_arith)
                requires acc <= (usize::MAX - d) / 10, d <= 9;
        }
        acc = acc * 10 + d;
        i = i + 1;
    }
    proof {
        assert(chars@.skip(n as int).len() == 0);
    }
    Ok(acc)
}

/// The value of a decimal digit character.
fn char_digit(c: char) -> (d: usize)
    requires
        '0' <= c <= '9',
    ensures
        digit_value(c) == Some(d as nat),
        d <= 9,
{
    if c == '0' { 0 }
    else if c == '1' { 1 }
    else if c == '2' { 2 }
    else if c == '3' { 3 }
    else if c == '4' { 4 }
    else if c == '5' { 5 }
    else if c == '6' { 6 }
    else if c == '7' { 7 }
    else if c == '8' { 8 }
    else { 9 }
}

/// The characters of a text.
fn text_chars(s: &String) -> (r: Vec<char>)
    ensures
        r@ == s@,
{
    let t = s.as_str();
    let n = t.unicode_len();
    let mut out: Vec<char> = Vec::new();
    let mut i: usize = 0;
    while i < n
        invariant
            t@ == s@,
            n == t@.len(),
            i <= n,
            out@ == t@.take(i as int),
        decreases n - i,
    {
        let c = t.get_char(i);
        proof {
            assert(t@.take(i + 1) =~= t@.take(i as int).push(c));
        }
        out.push(c);
        i = i + 1;
    }
    assert(t@.take(n as int) =~= t@);
    out
}

fn index_error_message(k: IndexError) -> (r: String)
    ensures
        r@ == index_error_text(k),
{
    match k {
        IndexError::Empty => "cannot parse integer from empty string".to_owned(),
        IndexError::InvalidDigit => "invalid digit found in string".to_owned(),
        IndexError::PosOverflow => "number too large to fit in target type".to_owned(),
    }
}

impl Builder {
    fn unmatched_error(&self, sl: &SelectorList, frag: &String, pos: Position) -> (e: BuildError)
        ensures
            e.err_type == ErrorType::NoSuchSymbol,
            e.pos == pos,
            e.msg@ =~= unmatched_msg(frag@, selector_text(*sl), self.file_name()),
    {
        let path = sl.display_text();
        let mut msg = concat3("Unable to match element ", frag.as_str(), " in selector path [");
        msg.append(path.as_str());
        msg.append("] in file: ");
        msg.append(self.file.as_str());
        BuildError::new(msg, ErrorType::NoSuchSymbol, pos)
    }

    /// Looks up an environment variable by the name a token holds.
    pub fn lookup_in_env(&self, search: &Token, fs: &Vec<(String, String)>) -> (r: Result<Rc<Val>, BuildError>)
        ensures
            match env_lookup(fs@, search.fragment@, self.is_strict()) {
                Some(v) => r matches Ok(x) && *x == v,
                None => r matches Err(e) && e.err_type == ErrorType::NoSuchSymbol && e.pos == search.pos
                    && e.msg@ =~= "Environment Variable "@ + search.fragment@ + " not set"@,
            },
    {
        let mut i: usize = 0;
        assert(fs@.skip(0) =~= fs@);
        while i < fs.len()
            invariant
                i <= fs@.len(),
                env_lookup(fs@, search.fragment@, self.strict) == env_lookup(fs@.skip(i as int), search.fragment@, self.strict),
            decreases fs@.len() - i,
        {
            proof {
                assert(fs@.skip(i as int)[0] == fs@[i as int]);
                assert(fs@.skip(i as int).drop_first() =~= fs@.skip(i + 1));
            }
            if search.fragment == fs[i].0 {
                return Ok(Rc::new(Val::Str(fs[i].1.clone())));
            }
            i = i + 1;
        }
        if !self.strict {
            return Ok(Rc::new(Val::Empty));
        }
        let msg = concat3("Environment Variable ", search.fragment.as_str(), " not set");
        Err(BuildError::new(msg, ErrorType::NoSuchSymbol, search.pos))
    }

    /// Looks up the field a token names in the fields of a tuple.
    pub fn lookup_in_tuple(&self, sl: &SelectorList, next: &Token, fs: &Fields) -> (r: Result<Rc<Val>, BuildError>)
        ensures
            match lookup_named(fs@, next.fragment@) {
                Some(v) => r == Ok::<Rc<Val>, BuildError>(v),
                None => r matches Err(e) && e.err_type == ErrorType::NoSuchSymbol && e.pos == next.pos
                    && e.msg@ =~= unmatched_msg(next.fragment@, selector_text(*sl), self.file_name()),
            },
    {
        if let Some(vv) = find_in_fieldlist(&next.fragment, fs) {
            Ok(vv)
        } else {
            Err(self.unmatched_error(sl, &next.fragment, next.pos))
        }
    }

    /// Looks up the element at the index a token holds in the elements of a list.
    pub fn lookup_in_list(&self, sl: &SelectorList, next: &Token, elems: &Vec<Rc<Val>>) -> (r: Result<Rc<Val>, BuildError>)
        ensures
            match parse_index(next.fragment@) {
                Ok(idx) => if idx < elems@.len() {
                    r == Ok::<Rc<Val>, BuildError>(elems@[idx as int])
                } else {
                    r matches Err(e) && e.err_type == ErrorType::NoSuchSymbol && e.pos == next.pos
                        && e.msg@ =~= unmatched_msg(next.fragment@, selector_text(*sl), self.file_name())
                },
                Err(k) => r matches Err(e) && e.err_type == ErrorType::ParseError && e.pos == next.pos
                    && e.msg@ == index_error_text(k),
            },
    {
        let idx = match parse_index_text(&next.fragment) {
            Ok(idx) => idx,
            Err(k) => {
                return Err(BuildError::new(index_error_message(k), ErrorType::ParseError, next.pos));
            },
        };
        if idx < elems.len() {
            Ok(elems[idx].clone())
        } else {
            Err(self.unmatched_error(sl, &next.fragment, next.pos))
        }
    }

    /// Evaluates a selector, given the value its head evaluated to: each token of
    /// the path enters a tuple by field name, a list by index, or the
    /// environment by variable name; any other value that a token would enter
    /// is a type error at that token.
    pub fn lookup_selector(&self, sl: &SelectorList, first: Rc<Val>) -> (r: Result<Rc<Val>, BuildError>)
        ensures
            agrees(r, selector_walk(*sl, *first, self.is_strict())),
            r matches Err(e) ==> (sl.tail matches Some(toks)
                && e.msg@ =~= walk_msg(*first, toks@, self.is_strict(), selector_text(*sl), self.file_name())),
    {
        match &sl.tail {
            None => Ok(first),
            Some(tail) => {
                let mut vref = first;
                let mut i: usize = 0;
                assert(tail@.skip(0) =~= tail@);
                while i < tail.len()
                    invariant
                        i <= tail@.len(),
                        sl.tail == Some(*tail),
                        walk(*first, tail@, self.strict) == walk(*vref, tail@.skip(i as int), self.strict),
                        walk_msg(*first, tail@, self.strict, selector_text(*sl), self.file@)
                            == walk_msg(*vref, tail@.skip(i as int), self.strict, selector_text(*sl), self.file@),
                    decreases tail@.len() - i,
                {
                    let next = &tail[i];
                    proof {
                        assert(tail@.skip(i as int)[0] == tail@[i as int]);
                        assert(tail@.skip(i as int).drop_first() =~= tail@.skip(i + 1));
                    }
                    let found = match &*vref {
                        Val::Tuple(fs) => self.lookup_in_tuple(sl, next, fs),
                        Val::Env(fs) => self.lookup_in_env(next, fs),
                        Val::List(elems) => self.lookup_in_list(sl, next, elems),
                        _ => {
                            let name = vref.typ_name();
                            proof {
                                reveal_strlit("");
                            }
                            let msg = concat3("", name.as_str(), " is not a Tuple or List");
                            Err(BuildError::new(msg, ErrorType::TypeFail, next.pos))
                        },
                    };
                    match found {
                        Ok(v) => {
                            vref = v;
                        },
                        Err(e) => {
                            return Err(e);
                        },
                    }
                    i = i + 1;
                }
                proof {
                    assert(tail@.skip(i as int).len() == 0);
                }
                Ok(vref)
            },
        }
    }
}

} // verus!
