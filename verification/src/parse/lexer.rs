//! The tokenizer: it turns ucg source text into the tokens that the grammar
//! reads.
//!
//! Spaces and `//` comments separate tokens and are dropped. A bare word
//! starts with a letter or `_` and goes on with letters, digits, `_` and `-`;
//! `true` and `false` are booleans. Digits make a number token. A quoted
//! string runs to the next unescaped `"`, and a backslash takes the character
//! after it literally. A pipe quote runs from `|` to the next `|`. The rest
//! are punctuation, two characters long for `=>`, `==`, `!=`, `<=` and `>=`.
use vstd::prelude::*;
use vstd::string::StrSliceExecFns;

use crate::ast::{Position, Token, TokenType};
use super::{ParseError, ParseErrorKind};
use super::numbers::is_digit;

verus! {

/// A token as the tokenizer describes it: its type, its text and its position.
pub type Lexeme = (TokenType, Seq<char>, Position);

/// Whether a character separates tokens.
pub open spec fn is_space(c: char) -> bool {
    c == ' ' || c == '\t' || c == '\r' || c == '\n'
}

/// Whether a character can start a bare word.
pub open spec fn is_word_start(c: char) -> bool {
    ('a' <= c && c <= 'z') || ('A' <= c && c <= 'Z') || c == '_'
}

/// Whether a character can go on a bare word.
pub open spec fn is_word_char(c: char) -> bool {
    is_word_start(c) || is_digit(c) || c == '-'
}

/// Whether a character is punctuation on its own.
pub open spec fn is_punct(c: char) -> bool {
    c == '{' || c == '}' || c == '[' || c == ']' || c == '(' || c == ')' || c == ',' || c == ';'
        || c == '.' || c == '=' || c == '+' || c == '-' || c == '*' || c == '/' || c == '%'
        || c == '<' || c == '>'
}

/// The line of the character at index `k`: one more than the newlines before it.
pub open spec fn line_at(s: Seq<char>, k: int) -> int
    decreases k,
{
    if k <= 0 {
        1
    } else if s[k - 1] == '\n' {
        line_at(s, k - 1) + 1
    } else {
        line_at(s, k - 1)
    }
}

/// The column of the character at index `k`: one more than the characters
/// between it and the newline before it.
pub open spec fn column_at(s: Seq<char>, k: int) -> int
    decreases k,
{
    if k <= 0 {
        1
    } else if s[k - 1] == '\n' {
        1
    } else {
        column_at(s, k - 1) + 1
    }
}

/// The position of the character at index `k`.
pub open spec fn position_at(s: Seq<char>, k: int) -> Position {
    Position { line: line_at(s, k) as usize, column: column_at(s, k) as usize, offset: k as usize }
}

/// The first index from `k` on whose character does not go on a bare word
/// (`word`) or is no digit, or the end of the text.
pub open spec fn scan_while(s: Seq<char>, k: int, word: bool) -> int
    decreases s.len() - k,
{
    if k < 0 || k >= s.len() {
        k
    } else if (if word { is_word_char(s[k]) } else { is_digit(s[k]) }) {
        scan_while(s, k + 1, word)
    } else {
        k
    }
}

/// The first index from `k` on that holds `c`, or the end of the text.
pub open spec fn find_char(s: Seq<char>, k: int, c: char) -> int
    decreases s.len() - k,
{
    if k < 0 || k >= s.len() {
        k
    } else if s[k] == c {
        k
    } else {
        find_char(s, k + 1, c)
    }
}

/// The text of a quoted string whose body starts at `k`, and the index after
/// its closing quote; `None` if it is not closed.
pub open spec fn quoted_text(s: Seq<char>, k: int) -> Option<(Seq<char>, int)>
    decreases s.len() - k,
{
    if k < 0 || k >= s.len() {
        None
    } else if s[k] == '"' {
        Some((Seq::empty(), k + 1))
    } else {
        let (c, next) = if s[k] == '\\' && k + 1 < s.len() { (s[k + 1], k + 2) } else { (s[k], k + 1) };
        if s[k] == '\\' && k + 1 >= s.len() {
            None
        } else {
            match quoted_text(s, next) {
                Some((t, e)) => Some((seq![c] + t, e)),
                None => None,
            }
        }
    }
}

/// The length of the punctuation that starts at `k`: two for a two character
/// operator, one for a single punctuation character, else zero.
pub open spec fn punct_len(s: Seq<char>, k: int) -> int {
    let c = s[k];
    if k + 1 < s.len() && ((c == '=' && (s[k + 1] == '>' || s[k + 1] == '=')) || ((c == '!' || c == '<'
        || c == '>') && s[k + 1] == '=')) {
        2
    } else if is_punct(c) {
        1
    } else {
        0
    }
}

/// The token that starts at index `k`, which holds no space: its type, its
/// text and the index after it; or the error that stops the tokenizer there.
pub open spec fn token_at(s: Seq<char>, k: int) -> Result<(TokenType, Seq<char>, int), ParseError> {
    let c = s[k];
    if is_word_start(c) {
        let e = scan_while(s, k + 1, true);
        let t = s.subrange(k, e);
        Ok((if t == "true"@ || t == "false"@ { TokenType::BOOLEAN } else { TokenType::BAREWORD }, t, e))
    } else if is_digit(c) {
        let e = scan_while(s, k + 1, false);
        Ok((TokenType::DIGIT, s.subrange(k, e), e))
    } else if c == '"' {
        match quoted_text(s, k + 1) {
            Some((t, e)) => Ok((TokenType::QUOTED, t, e)),
            None => Err(ParseError::at(ParseErrorKind::UnterminatedString, k as usize)),
        }
    } else if c == '|' {
        let e = find_char(s, k + 1, '|');
        if e >= s.len() {
            Err(ParseError::at(ParseErrorKind::UnterminatedString, k as usize))
        } else {
            Ok((TokenType::PIPEQUOTE, s.subrange(k + 1, e), e + 1))
        }
    } else {
        let n = punct_len(s, k);
        if n == 0 {
            Err(ParseError::at(ParseErrorKind::UnexpectedCharacter, k as usize))
        } else {
            Ok((TokenType::PUNCT, s.subrange(k, k + n), k + n))
        }
    }
}

/// A scan ends between where it started and the end of the text.
pub proof fn lemma_scan_bounds(s: Seq<char>, k: int, word: bool)
    requires
        0 <= k <= s.len(),
    ensures
        k <= scan_while(s, k, word) <= s.len(),
    decreases s.len() - k,
{
    if k < s.len() && (if word { is_word_char(s[k]) } else { is_digit(s[k]) }) {
        lemma_scan_bounds(s, k + 1, word);
    }
}

/// A search ends between where it started and the end of the text, at the
/// character it looks for unless at the end.
pub proof fn lemma_find_bounds(s: Seq<char>, k: int, c: char)
    requires
        0 <= k <= s.len(),
    ensures
        k <= find_char(s, k, c) <= s.len(),
        find_char(s, k, c) < s.len() ==> s[find_char(s, k, c)] == c,
    decreases s.len() - k,
{
    if k < s.len() && s[k] != c {
        lemma_find_bounds(s, k + 1, c);
    }
}

/// A closed quoted string ends after its start, within the text.
pub proof fn lemma_quoted_bounds(s: Seq<char>, k: int)
    requires
        0 <= k,
    ensures
        quoted_text(s, k) matches Some((t, e)) ==> k < e <= s.len(),
    decreases s.len() - k,
{
    if 0 <= k < s.len() && s[k] != '"' {
        if s[k] == '\\' && k + 1 < s.len() {
            lemma_quoted_bounds(s, k + 2);
        } else {
            lemma_quoted_bounds(s, k + 1);
        }
    }
}

/// A token ends after its start, within the text.
pub proof fn lemma_token_advances(s: Seq<char>, k: int)
    requires
        0 <= k < s.len(),
    ensures
        token_at(s, k) matches Ok((_, _, e)) ==> k < e <= s.len(),
{
    lemma_scan_bounds(s, k + 1, true);
    lemma_scan_bounds(s, k + 1, false);
    lemma_quoted_bounds(s, k + 1);
    lemma_find_bounds(s, k + 1, '|');
}

/// The tokens of the text from index `k` on, or the first error.
pub open spec fn lex_from(s: Seq<char>, k: int) -> Result<Seq<Lexeme>, ParseError>
    decreases s.len() - k,
{
    if k < 0 || k >= s.len() {
        Ok(Seq::empty())
    } else if is_space(s[k]) {
        lex_from(s, k + 1)
    } else if s[k] == '/' && k + 1 < s.len() && s[k + 1] == '/' {
        proof {
            lemma_find_bounds(s, k + 2, '\n');
        }
        lex_from(s, find_char(s, k + 2, '\n'))
    } else {
        proof {
            lemma_token_advances(s, k);
        }
        match token_at(s, k) {
            Err(e) => Err(e),
            Ok((typ, t, e)) => match lex_from(s, e) {
                Ok(rest) => Ok(seq![(typ, t, position_at(s, k))] + rest),
                Err(x) => Err(x),
            },
        }
    }
}

/// The tokens of a text, or the first error.
pub open spec fn tokens_of(s: Seq<char>) -> Result<Seq<Lexeme>, ParseError> {
    lex_from(s, 0)
}

/// Whether a lexeme of a text stands at its place: at an offset within the
/// text and from `k` on, and, for a bare word, a boolean, a number or a
/// punctuation token, as the very text found there.
pub open spec fn in_place(s: Seq<char>, l: Lexeme, k: int) -> bool {
    let (typ, text, pos) = l;
    &&& k <= pos.offset < s.len()
    &&& (typ == TokenType::BAREWORD || typ == TokenType::BOOLEAN || typ == TokenType::DIGIT
        || typ == TokenType::PUNCT) ==> s.subrange(pos.offset as int, pos.offset + text.len()) == text
}

proof fn lemma_lex_in_place(s: Seq<char>, k: int)
    requires
        0 <= k,
        s.len() < usize::MAX,
    ensures
        lex_from(s, k) matches Ok(ls) ==> {
            &&& forall|j: int| 0 <= j < ls.len() ==> in_place(s, #[trigger] ls[j], k)
            &&& forall|j: int| 0 <= j < ls.len() - 1 ==> #[trigger] ls[j].2.offset < ls[j + 1].2.offset
        },
    decreases s.len() - k,
{
    if k < s.len() {
        if is_space(s[k]) {
            lemma_lex_in_place(s, k + 1);
        } else if s[k] == '/' && k + 1 < s.len() && s[k + 1] == '/' {
            lemma_find_bounds(s, k + 2, '\n');
            lemma_lex_in_place(s, find_char(s, k + 2, '\n'));
        } else {
            lemma_token_advances(s, k);
            lemma_scan_bounds(s, k + 1, true);
            lemma_scan_bounds(s, k + 1, false);
            if let Ok((typ, t, e)) = token_at(s, k) {
                lemma_lex_in_place(s, e);
                if let Ok(rest) = lex_from(s, e) {
                    let ls = seq![(typ, t, position_at(s, k))] + rest;
                    assert(ls[0] == (typ, t, position_at(s, k)));
                    assert forall|j: int| 0 <= j < ls.len() implies in_place(s, #[trigger] ls[j], k) by {
                        if j > 0 {
                            assert(ls[j] == rest[j - 1]);
                            assert(in_place(s, rest[j - 1], e));
                        }
                    }
                    assert forall|j: int| 0 <= j < ls.len() - 1 implies #[trigger] ls[j].2.offset < ls[j + 1].2.offset by {
                        assert(ls[j + 1] == rest[j]);
                        assert(in_place(s, rest[j], e));
                        if j > 0 {
                            assert(ls[j] == rest[j - 1]);
                        }
                    }
                }
            }
        }
    }
}

/// Every token of a text stands at its place: its offset is that of its
/// first character, each token stands further on than the one before it, and
/// a bare word, a boolean, a number or a punctuation token is the very text
/// found at its offset.
pub proof fn law_tokens_stand_in_place(s: Seq<char>)
    requires
        s.len() < usize::MAX,
    ensures
        tokens_of(s) matches Ok(ls) ==> {
            &&& forall|j: int| 0 <= j < ls.len() ==> in_place(s, #[trigger] ls[j], 0)
            &&& forall|j: int| 0 <= j < ls.len() - 1 ==> #[trigger] ls[j].2.offset < ls[j + 1].2.offset
        },
{
    lemma_lex_in_place(s, 0);
}

/// How the tokenizer describes a token.
pub open spec fn lexeme(t: Token) -> Lexeme {
    (t.typ, t.fragment@, t.pos)
}

/// How the tokenizer describes a list of tokens.
pub open spec fn lexemes(ts: Seq<Token>) -> Seq<Lexeme> {
    ts.map_values(|t: Token| lexeme(t))
}

fn space_char(c: char) -> (r: bool)
    ensures
        r == is_space(c),
{
    c == ' ' || c == '\t' || c == '\r' || c == '\n'
}

fn word_start_char(c: char) -> (r: bool)
    ensures
        r == is_word_start(c),
{
    (c >= 'a' && c <= 'z') || (c >= 'A' && c <= 'Z') || c == '_'
}

fn goes_on(c: char, word: bool) -> (r: bool)
    ensures
        r == (if word { is_word_char(c) } else { is_digit(c) }),
{
    if word {
        word_start_char(c) || (c >= '0' && c <= '9') || c == '-'
    } else {
        c >= '0' && c <= '9'
    }
}

fn punct_char(c: char) -> (r: bool)
    ensures
        r == is_punct(c),
{
    c == '{' || c == '}' || c == '[' || c == ']' || c == '(' || c == ')' || c == ',' || c == ';' || c == '.'
        || c == '=' || c == '+' || c == '-' || c == '*' || c == '/' || c == '%' || c == '<' || c == '>'
}

fn scan(cs: &Vec<char>, k: usize, word: bool) -> (r: usize)
    requires
        k <= cs@.len(),
    ensures
        r == scan_while(cs@, k as int, word),
{
    let mut j = k;
    while j < cs.len() && goes_on(cs[j], word)
        invariant
            k <= j <= cs@.len(),
            scan_while(cs@, j as int, word) == scan_while(cs@, k as int, word),
        decreases cs@.len() - j,
    {
        j = j + 1;
    }
    j
}

fn find(cs: &Vec<char>, k: usize, c: char) -> (r: usize)
    requires
        k <= cs@.len(),
    ensures
        r == find_char(cs@, k as int, c),
{
    let mut j = k;
    while j < cs.len() && cs[j] != c
        invariant
            k <= j <= cs@.len(),
            find_char(cs@, j as int, c) == find_char(cs@, k as int, c),
        decreases cs@.len() - j,
    {
        j = j + 1;
    }
    j
}

fn scan_quoted(input: &str, cs: &Vec<char>, k: usize) -> (r: Option<(String, usize)>)
    requires
        cs@ == input@,
        k <= cs@.len(),
    ensures
        match r {
            Some((t, e)) => quoted_text(cs@, k as int) == Some((t@, e as int)),
            None => quoted_text(cs@, k as int) is None,
        },
{
    let mut text = String::new();
    let mut j = k;
    loop
        invariant
            k <= j <= cs@.len(),
            cs@ == input@,
            quoted_text(cs@, k as int) == match quoted_text(cs@, j as int) {
                Some((t, e)) => Some((text@ + t, e)),
                None => None,
            },
        decreases cs@.len() - j,
    {
        if j >= cs.len() {
            return None;
        }
        let c = cs[j];
        if c == '"' {
            assert(text@ + Seq::<char>::empty() =~= text@);
            return Some((text, j + 1));
        }
        let ghost before = text@;
        if c == '\\' {
            if j + 1 >= cs.len() {
                return None;
            }
            text.append(input.substring_char(j + 1, j + 2));
            proof {
                assert(cs@.subrange(j + 1, j + 2) =~= seq![cs@[j + 1]]);
                if let Some((t, e)) = quoted_text(cs@, j + 2) {
                    assert(before + (seq![cs@[j + 1]] + t) =~= text@ + t);
                }
            }
            j = j + 2;
        } else {
            text.append(input.substring_char(j, j + 1));
            proof {
                assert(cs@.subrange(j as int, j + 1) =~= seq![c]);
                if let Some((t, e)) = quoted_text(cs@, j + 1) {
                    assert(before + (seq![c] + t) =~= text@ + t);
                }
            }
            j = j + 1;
        }
    }
}

fn punct_length(cs: &Vec<char>, k: usize) -> (r: usize)
    requires
        k < cs@.len() < usize::MAX,
    ensures
        r == punct_len(cs@, k as int),
{
    let c = cs[k];
    if k + 1 < cs.len() {
        let d = cs[k + 1];
        if (c == '=' && (d == '>' || d == '=')) || ((c == '!' || c == '<' || c == '>') && d == '=') {
            return 2;
        }
    }
    if punct_char(c) {
        1
    } else {
        0
    }
}

fn scan_token(input: &str, cs: &Vec<char>, k: usize) -> (r: Result<(TokenType, String, usize), ParseError>)
    requires
        cs@ == input@,
        k < cs@.len() < usize::MAX,
    ensures
        match r {
            Ok((typ, t, e)) => token_at(cs@, k as int) == Ok::<(TokenType, Seq<char>, int), ParseError>(
                (typ, t@, e as int),
            ),
            Err(x) => token_at(cs@, k as int) == Err::<(TokenType, Seq<char>, int), ParseError>(x),
        },
{
    proof {
        lemma_scan_bounds(cs@, k + 1, true);
        lemma_scan_bounds(cs@, k + 1, false);
        lemma_find_bounds(cs@, k + 1, '|');
    }
    let c = cs[k];
    if word_start_char(c) {
        let e = scan(cs, k + 1, true);
        let t = input.substring_char(k, e).to_owned();
        proof {
            reveal_strlit("true");
            reveal_strlit("false");
        }
        let is_bool = t == "true".to_owned() || t == "false".to_owned();
        let typ = if is_bool { TokenType::BOOLEAN } else { TokenType::BAREWORD };
        Ok((typ, t, e))
    } else if c >= '0' && c <= '9' {
        let e = scan(cs, k + 1, false);
        Ok((TokenType::DIGIT, input.substring_char(k, e).to_owned(), e))
    } else if c == '"' {
        match scan_quoted(input, cs, k + 1) {
            Some((t, e)) => Ok((TokenType::QUOTED, t, e)),
            None => Err(ParseError::new(ParseErrorKind::UnterminatedString, k)),
        }
    } else if c == '|' {
        let e = find(cs, k + 1, '|');
        if e >= cs.len() {
            Err(ParseError::new(ParseErrorKind::UnterminatedString, k))
        } else {
            Ok((TokenType::PIPEQUOTE, input.substring_char(k + 1, e).to_owned(), e + 1))
        }
    } else {
        let n = punct_length(cs, k);
        if n == 0 {
            Err(ParseError::new(ParseErrorKind::UnexpectedCharacter, k))
        } else {
            Ok((TokenType::PUNCT, input.substring_char(k, k + n).to_owned(), k + n))
        }
    }
}

proof fn lemma_position_bounds(s: Seq<char>, k: int)
    requires
        0 <= k,
    ensures
        1 <= line_at(s, k) <= k + 1,
        1 <= column_at(s, k) <= k + 1,
    decreases k,
{
    if k > 0 {
        lemma_position_bounds(s, k - 1);
    }
}

fn advance(cs: &Vec<char>, from: usize, to: usize, line: usize, col: usize) -> (r: (usize, usize))
    requires
        from <= to <= cs@.len(),
        cs@.len() < usize::MAX,
        line == line_at(cs@, from as int),
        col == column_at(cs@, from as int),
    ensures
        r.0 == line_at(cs@, to as int),
        r.1 == column_at(cs@, to as int),
{
    let mut line = line;
    let mut col = col;
    let mut j = from;
    while j < to
        invariant
            from <= j <= to <= cs@.len() < usize::MAX,
            line == line_at(cs@, j as int),
            col == column_at(cs@, j as int),
        decreases to - j,
    {
        proof {
            lemma_position_bounds(cs@, j + 1);
        }
        if cs[j] == '\n' {
            line = line + 1;
            col = 1;
        } else {
            col = col + 1;
        }
        j = j + 1;
    }
    (line, col)
}

/// Turns ucg source text into tokens.
///
/// The result is the list of tokens that `tokens_of` describes, or the first
/// error that it names: a character that starts no token, or a string or pipe
/// quote that is not closed.
pub fn tokenize(input: &str) -> (r: Result<Vec<Token>, ParseError>)
    requires
        input@.len() < usize::MAX,
    ensures
        match r {
            Ok(toks) => tokens_of(input@) == Ok::<Seq<Lexeme>, ParseError>(lexemes(toks@)),
            Err(e) => tokens_of(input@) == Err::<Seq<Lexeme>, ParseError>(e),
        },
{
    let n = input.unicode_len();
    let mut cs: Vec<char> = Vec::new();
    let mut k: usize = 0;
    while k < n
        invariant
            k <= n,
            n == input@.len(),
            cs@ == input@.take(k as int),
        decreases n - k,
    {
        cs.push(input.get_char(k));
        proof {
            assert(input@.take(k + 1) =~= input@.take(k as int).push(input@[k as int]));
        }
        k = k + 1;
    }
    assert(cs@ =~= input@);
    let ghost s = cs@;
    let mut out: Vec<Token> = Vec::new();
    let mut i: usize = 0;
    let mut line: usize = 1;
    let mut col: usize = 1;
    while i < n
        invariant
            i <= n,
            n == s.len() < usize::MAX,
            cs@ == s,
            s == input@,
            line == line_at(s, i as int),
            col == column_at(s, i as int),
            lex_from(s, 0) == match lex_from(s, i as int) {
                Ok(rest) => Ok::<Seq<Lexeme>, ParseError>(lexemes(out@) + rest),
                Err(x) => Err(x),
            },
        decreases n - i,
    {
        let c = cs[i];
        let ghost before = out@;
        if space_char(c) {
            let p = advance(&cs, i, i + 1, line, col);
            line = p.0;
            col = p.1;
            i = i + 1;
        } else if c == '/' && i + 1 < n && cs[i + 1] == '/' {
            proof {
                lemma_find_bounds(s, i + 2, '\n');
            }
            let e = find(&cs, i + 2, '\n');
            let p = advance(&cs, i, e, line, col);
            line = p.0;
            col = p.1;
            i = e;
        } else {
            proof {
                lemma_token_advances(s, i as int);
                lemma_position_bounds(s, i as int);
            }
            match scan_token(input, &cs, i) {
                Err(x) => {
                    return Err(x);
                },
                Ok((typ, t, e)) => {
                    let tok = Token { typ: typ, fragment: t, pos: Position { line: line, column: col, offset: i } };
                    out.push(tok);
                    proof {
                        assert(lexemes(out@) =~= lexemes(before).push(lexeme(tok)));
                        if let Ok(rest) = lex_from(s, e as int) {
                            assert(lexemes(before) + (seq![lexeme(tok)] + rest) =~= lexemes(out@) + rest);
                        }
                    }
                    let p = advance(&cs, i, e, line, col);
                    line = p.0;
                    col = p.1;
                    i = e;
                },
            }
        }
    }
    assert(lexemes(out@) + Seq::<Lexeme>::empty() =~= lexemes(out@));
    Ok(out)
}

} // verus!
