//! Number literals: a prefix of digits, a dot and a suffix of digits, read as
//! an integer or as a float.
use vstd::prelude::*;
use vstd::string::StrSliceExecFns;

use crate::ast::{Position, PositionedItem, Token, Value};
use crate::error::{BuildError, ErrorType};
use crate::text::{digit_char, int_text, nat_text};

verus! {

/// Why a text is not a 64 bit integer.
#[derive(Debug, PartialEq, Eq, Structural, Clone, Copy)]
pub enum IntTextError {
    Empty,
    InvalidDigit,
    PosOverflow,
    NegOverflow,
}

/// Whether a character is a decimal digit.
pub open spec fn is_digit(c: char) -> bool {
    '0' <= c && c <= '9'
}

/// Whether every character of a text is a decimal digit.
pub open spec fn all_digits(s: Seq<char>) -> bool {
    forall|i: int| 0 <= i < s.len() ==> is_digit(#[trigger] s[i])
}

/// Reads decimal digits from left to right after an accumulated value: a
/// negative number subtracts each digit. The first character that is not a
/// digit, or the first step that leaves the range of 64 bit integers, stops it.
pub open spec fn read_int_digits(s: Seq<char>, acc: int, neg: bool) -> Result<int, IntTextError>
    decreases s.len(),
{
    if s.len() == 0 {
        Ok(acc)
    } else if !is_digit(s[0]) {
        Err(IntTextError::InvalidDigit)
    } else {
        let d = s[0] as int - '0' as int;
        let next = if neg { acc * 10 - d } else { acc * 10 + d };
        if next > i64::MAX {
            Err(IntTextError::PosOverflow)
        } else if next < i64::MIN {
            Err(IntTextError::NegOverflow)
        } else {
            read_int_digits(s.drop_first(), next, neg)
        }
    }
}

/// The 64 bit integer a text stands for, as `i64::from_str` reads it: an
/// optional sign, then at least one decimal digit.
pub open spec fn int_of_text(s: Seq<char>) -> Result<int, IntTextError> {
    if s.len() == 0 {
        Err(IntTextError::Empty)
    } else if s[0] == '+' || s[0] == '-' {
        if s.len() == 1 {
            Err(IntTextError::InvalidDigit)
        } else {
            read_int_digits(s.drop_first(), 0, s[0] == '-')
        }
    } else {
        read_int_digits(s, 0, false)
    }
}

/// The message that `i64::from_str` gives for each kind of error.
pub open spec fn int_error_text(e: IntTextError) -> Seq<char> {
    match e {
        IntTextError::Empty => "cannot parse integer from empty string"@,
        IntTextError::InvalidDigit => "invalid digit found in string"@,
        IntTextError::PosOverflow => "number too large to fit in target type"@,
        IntTextError::NegOverflow => "number too small to fit in target type"@,
    }
}

/// The number of decimal digits a text starts with.
pub open spec fn leading_digits(s: Seq<char>) -> nat
    decreases s.len(),
{
    if s.len() > 0 && is_digit(s[0]) {
        1 + leading_digits(s.drop_first())
    } else {
        0
    }
}

/// Whether a text is an exponent: `e` or `E`, an optional sign, at least one digit.
pub open spec fn exponent_ok(s: Seq<char>) -> bool {
    &&& s.len() >= 2
    &&& (s[0] == 'e' || s[0] == 'E')
    &&& {
        let rest = s.drop_first();
        let digits = if rest[0] == '+' || rest[0] == '-' { rest.drop_first() } else { rest };
        digits.len() > 0 && all_digits(digits)
    }
}

/// Whether the text `pref.suf` is a decimal number that `f64::from_str`
/// reads: an optional sign and digits before the dot, digits and an optional
/// exponent after it, and at least one digit around the dot.
pub open spec fn float_text_ok(pref: Seq<char>, suf: Seq<char>) -> bool {
    let p = if pref.len() > 0 && (pref[0] == '+' || pref[0] == '-') { pref.drop_first() } else { pref };
    let k = leading_digits(suf);
    &&& all_digits(p)
    &&& (k == suf.len() || exponent_ok(suf.skip(k as int)))
    &&& (p.len() > 0 || k > 0)
}

proof fn lemma_read_int_range(s: Seq<char>, acc: int, neg: bool)
    requires
        i64::MIN <= acc <= i64::MAX,
    ensures
        read_int_digits(s, acc, neg) matches Ok(v) ==> i64::MIN <= v <= i64::MAX,
    decreases s.len(),
{
    if s.len() > 0 && is_digit(s[0]) {
        let d = s[0] as int - '0' as int;
        let next = if neg { acc * 10 - d } else { acc * 10 + d };
        if i64::MIN <= next <= i64::MAX {
            lemma_read_int_range(s.drop_first(), next, neg);
        }
    }
}

/// Reads a 64 bit integer from a text, as `i64::from_str` does.
pub fn int_from_text(s: &str) -> (r: Result<i64, IntTextError>)
    ensures
        match int_of_text(s@) {
            Ok(v) => r == Ok::<i64, IntTextError>(v as i64) && i64::MIN <= v <= i64::MAX,
            Err(e) => r == Err::<i64, IntTextError>(e),
        },
{
    let n = s.unicode_len();
    if n == 0 {
        return Err(IntTextError::Empty);
    }
    let first = s.get_char(0);
    let mut start: usize = 0;
    let mut neg = false;
    if first == '+' || first == '-' {
        if n == 1 {
            return Err(IntTextError::InvalidDigit);
        }
        start = 1;
        neg = first == '-';
    }
    let ghost digits = s@.skip(start as int);
    assert(start == 0 ==> digits =~= s@);
    assert(start == 1 ==> digits =~= s@.drop_first());
    assert(int_of_text(s@) == read_int_digits(digits, 0, neg));
    let mut acc: i64 = 0;
    let mut i: usize = start;
    while i < n
        invariant
            start <= i <= n,
            n == s@.len(),
            digits == s@.skip(start as int),
            read_int_digits(digits, 0, neg) == read_int_digits(s@.skip(i as int), acc as int, neg),
            int_of_text(s@) == read_int_digits(digits, 0, neg),
            neg ==> acc <= 0,
            !neg ==> acc >= 0,
        decreases n - i,
    {
        proof {
            assert(s@.skip(i as int)[0] == s@[i as int]);
            assert(s@.skip(i as int).drop_first() =~= s@.skip(i + 1));
        }
        let c = s.get_char(i);
        if !is_digit_char(c) {
            assert(!is_digit(s@.skip(i as int)[0]));
            return Err(IntTextError::InvalidDigit);
        }
        let d = (c as u32 - '0' as u32) as i64;
        proof {
            assert(d as int == c as int - '0' as int);
        }
        let m = match acc.checked_mul(10) {
            Some(m) => m,
            None => {
                proof {
                    assert(is_digit(s@.skip(i as int)[0]));
                    if neg {
                        assert(acc * 10 - d < i64::MIN);
                    } else {
                        assert(acc * 10 + d > i64::MAX);
                    }
                }
                return if neg { Err(IntTextError::NegOverflow) } else { Err(IntTextError::PosOverflow) };
            },
        };
        let next = if neg { m.checked_sub(d) } else { m.checked_add(d) };
        match next {
            Some(v) => {
                acc = v;
            },
            None => {
                assert(is_digit(s@.skip(i as int)[0]));
                return if neg { Err(IntTextError::NegOverflow) } else { Err(IntTextError::PosOverflow) };
            },
        }
        i = i + 1;
    }
    proof {
        assert(s@.skip(n as int).len() == 0);
        lemma_read_int_range(digits, 0, neg);
    }
    Ok(acc)
}

proof fn lemma_leading_digits_skip(s: Seq<char>, k: int)
    requires
        0 <= k <= s.len(),
        forall|j: int| 0 <= j < k ==> is_digit(#[trigger] s[j]),
    ensures
        leading_digits(s) == k + leading_digits(s.skip(k)),
    decreases k,
{
    if k > 0 {
        assert forall|j: int| 0 <= j < k - 1 implies is_digit(#[trigger] s.drop_first()[j]) by {
            assert(s.drop_first()[j] == s[j + 1]);
        }
        lemma_leading_digits_skip(s.drop_first(), k - 1);
        assert(s.drop_first().skip(k - 1) =~= s.skip(k));
    } else {
        assert(s.skip(0) =~= s);
    }
}

/// Whether a character is a decimal digit.
fn is_digit_char(c: char) -> (r: bool)
    ensures
        r == is_digit(c),
{
    '0' <= c && c <= '9'
}

/// Whether the characters of `s` from `from` on are all decimal digits.
fn digits_from(s: &str, from: usize) -> (r: bool)
    requires
        from <= s@.len(),
    ensures
        r == all_digits(s@.skip(from as int)),
{
    let n = s.unicode_len();
    let mut i: usize = from;
    while i < n
        invariant
            from <= i <= n,
            n == s@.len(),
            forall|j: int| from <= j < i ==> is_digit(#[trigger] s@[j]),
        decreases n - i,
    {
        let c = s.get_char(i);
        if !is_digit_char(c) {
            assert(s@.skip(from as int)[i - from] == s@[i as int]);
            return false;
        }
        i = i + 1;
    }
    assert forall|j: int| 0 <= j < s@.skip(from as int).len() implies is_digit(#[trigger] s@.skip(from as int)[j]) by {
        assert(s@.skip(from as int)[j] == s@[from + j]);
    }
    true
}

/// Whether `pref.suf` is a decimal number that `f64::from_str` reads.
pub fn float_parts_ok(pref: &str, suf: &str) -> (r: bool)
    ensures
        r == float_text_ok(pref@, suf@),
{
    let pn = pref.unicode_len();
    let mut start: usize = 0;
    if pn > 0 {
        let c = pref.get_char(0);
        if c == '+' || c == '-' {
            start = 1;
        }
    }
    proof {
        assert(start == 0 ==> pref@.skip(0) =~= pref@);
        assert(start == 1 ==> pref@.skip(1) =~= pref@.drop_first());
    }
    if !digits_from(pref, start) {
        return false;
    }
    let sn = suf.unicode_len();
    let mut k: usize = 0;
    while k < sn && is_digit_char(suf.get_char(k))
        invariant
            k <= sn,
            sn == suf@.len(),
            forall|j: int| 0 <= j < k ==> is_digit(#[trigger] suf@[j]),
        decreases sn - k,
    {
        k = k + 1;
    }
    proof {
        lemma_leading_digits_skip(suf@, k as int);
        if k < sn {
            assert(suf@.skip(k as int)[0] == suf@[k as int]);
        }
        assert(leading_digits(suf@.skip(k as int)) == 0);
    }
    if pn == start && k == 0 {
        return false;
    }
    if k == sn {
        return true;
    }
    proof {
        let rest = suf@.skip(k as int);
        assert(rest[0] == suf@[k as int]);
        if k + 1 < sn {
            assert(rest.drop_first()[0] == suf@[k + 1]);
            assert(rest.drop_first() =~= suf@.skip(k + 1));
            assert(rest.drop_first().drop_first() =~= suf@.skip(k + 2));
        }
    }
    if sn - k < 2 {
        return false;
    }
    let e = suf.get_char(k);
    if e != 'e' && e != 'E' {
        return false;
    }
    let sign = suf.get_char(k + 1);
    let digits_at = if sign == '+' || sign == '-' { k + 2 } else { k + 1 };
    if digits_at >= sn {
        return false;
    }
    digits_from(suf, digits_at)
}

/// The message of a float literal that `f64::from_str` rejects.
pub open spec fn float_error_text() -> Seq<char> {
    "invalid float literal"@
}

/// Helper function to make the return types work for the number parser: the
/// parts of a number literal, a prefix, a dot and a suffix, each of which may
/// be missing, become an integer where there is a prefix and nothing else,
/// and a float written as `prefix.suffix` otherwise.
///
/// An integer sits at its prefix; a float at its prefix, or at the dot where
/// there is no prefix. A text that is no number is a parse error there.
pub fn triple_to_number(v: (Option<Token>, Option<Token>, Option<Token>)) -> (r: Result<Value, BuildError>)
    ensures
        match v {
            (Some(p), None, None) => match int_of_text(p.fragment@) {
                Ok(n) => r == Ok::<Value, BuildError>(Value::Int(PositionedItem { pos: p.pos, val: n as i64 })),
                Err(e) => r matches Err(err) && err.err_type == ErrorType::ParseError && err.pos == p.pos
                    && err.msg@ == int_error_text(e),
            },
            (pref, dot, suf) => {
                let ptext = match pref { Some(p) => p.fragment@, None => Seq::<char>::empty() };
                let stext = match suf { Some(s) => s.fragment@, None => Seq::<char>::empty() };
                let pos = match pref {
                    Some(p) => p.pos,
                    None => match dot { Some(d) => d.pos, None => Position { line: 0, column: 0, offset: 0 } },
                };
                if float_text_ok(ptext, stext) {
                    r matches Ok(Value::Float(f)) && f.pos == pos && f.val@ == ptext + "."@ + stext
                } else {
                    r matches Err(err) && err.err_type == ErrorType::ParseError && err.pos == pos
                        && err.msg@ == float_error_text()
                }
            },
        },
{
    let (pref, dot, suf) = v;
    if let Some(p) = &pref {
        if dot.is_none() && suf.is_none() {
            return match int_from_text(p.fragment.as_str()) {
                Ok(n) => Ok(Value::Int(PositionedItem { pos: p.pos, val: n })),
                Err(e) => Err(BuildError::new(int_error_message(e), ErrorType::ParseError, p.pos)),
            };
        }
    }
    let pos = match &pref {
        Some(p) => p.pos,
        None => match &dot {
            Some(d) => d.pos,
            None => Position::new(0, 0, 0),
        },
    };
    let ptext = match &pref {
        Some(p) => p.fragment.clone(),
        None => String::new(),
    };
    let stext = match &suf {
        Some(s) => s.fragment.clone(),
        None => String::new(),
    };
    if !float_parts_ok(ptext.as_str(), stext.as_str()) {
        return Err(BuildError::new("invalid float literal".to_owned(), ErrorType::ParseError, pos));
    }
    let mut text = ptext;
    text.append(".");
    text.append(stext.as_str());
    Ok(Value::Float(PositionedItem { pos: pos, val: text }))
}

/// Returns the message of an integer parse error.
pub fn int_error_message(e: IntTextError) -> (r: String)
    ensures
        r@ == int_error_text(e),
{
    match e {
        IntTextError::Empty => "cannot parse integer from empty string".to_owned(),
        IntTextError::InvalidDigit => "invalid digit found in string".to_owned(),
        IntTextError::PosOverflow => "number too large to fit in target type".to_owned(),
        IntTextError::NegOverflow => "number too small to fit in target type".to_owned(),
    }
}

/// One more digit read after a text: the value read so far, taken one step on.
proof fn lemma_read_push(s: Seq<char>, c: char, acc: int, neg: bool)
    ensures
        read_int_digits(s.push(c), acc, neg) == match read_int_digits(s, acc, neg) {
            Ok(v) => read_int_digits(seq![c], v, neg),
            Err(e) => Err(e),
        },
    decreases s.len(),
{
    if s.len() == 0 {
        assert(s.push(c) =~= seq![c]);
    } else {
        assert(s.push(c).drop_first() =~= s.drop_first().push(c));
        assert(s.push(c)[0] == s[0]);
        if is_digit(s[0]) {
            let d = s[0] as int - '0' as int;
            let next = if neg { acc * 10 - d } else { acc * 10 + d };
            lemma_read_push(s.drop_first(), c, next, neg);
        }
    }
}

proof fn lemma_digit_char(d: nat)
    requires
        d < 10,
    ensures
        is_digit(digit_char(d)),
        digit_char(d) as int - '0' as int == d,
{
}

/// The digits of a natural number read back as the number, negated where
/// the reading is of a negative number.
proof fn lemma_nat_text_reads_back(n: nat, neg: bool)
    requires
        neg ==> n <= i64::MAX + 1,
        !neg ==> n <= i64::MAX,
    ensures
        read_int_digits(nat_text(n), 0, neg) == Ok::<int, IntTextError>(if neg { -n } else { n as int }),
        nat_text(n).len() > 0,
        is_digit(nat_text(n)[0]),
    decreases n,
{
    let target: int = if neg { -n } else { n as int };
    if n < 10 {
        lemma_digit_char(n);
        assert(nat_text(n) =~= seq![digit_char(n)]);
        assert(seq![digit_char(n)].drop_first() =~= Seq::<char>::empty());
        assert(read_int_digits(Seq::<char>::empty(), target, neg) == Ok::<int, IntTextError>(target));
    } else {
        let q = n / 10;
        let d = (n % 10) as nat;
        assert(n == q * 10 + d);
        lemma_nat_text_reads_back(q, neg);
        lemma_digit_char(d);
        lemma_read_push(nat_text(q), digit_char(d), 0, neg);
        assert(nat_text(n) == nat_text(q).push(digit_char(d)));
        assert(seq![digit_char(d)].drop_first() =~= Seq::<char>::empty());
        let v: int = if neg { -q } else { q as int };
        assert(read_int_digits(Seq::<char>::empty(), target, neg) == Ok::<int, IntTextError>(target));
        assert(read_int_digits(seq![digit_char(d)], v, neg) == Ok::<int, IntTextError>(target));
        assert(nat_text(n)[0] == nat_text(q)[0]);
    }
}

/// Reading back the text that shows an integer gives the integer: the
/// digits of an integer value, with a minus sign where it is negative, read
/// as that value.
pub proof fn law_int_text_reads_back(i: i64)
    ensures
        int_of_text(int_text(i as int)) == Ok::<int, IntTextError>(i as int),
{
    if i < 0 {
        let n = (-(i as int)) as nat;
        lemma_nat_text_reads_back(n, true);
        let s = int_text(i as int);
        assert(s =~= seq!['-'] + nat_text(n));
        assert(s.drop_first() =~= nat_text(n));
    } else {
        lemma_nat_text_reads_back(i as nat, false);
    }
}

} // verus!
