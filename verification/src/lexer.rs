//! Which program texts the library hands to the CEL engine.
//!
//! The `cel` crate panics on some programs it parses: a comprehension
//! (`all`, `exists`, `exists_one`/`existsOne`, `map`, `filter`) over a value that
//! is neither a list nor a map, a struct literal, `contains` on bytes with an
//! empty argument, and the negation of the least integer. A comprehension over
//! a map, moreover, walks its keys in an order that is seeded anew in each
//! process, so what it returns can differ from one run to the next. This
//! module scans a program text, outside its string literals and comments, for
//! everything that could lead there; such programs compile, but the library
//! declines to run them.

use vstd::prelude::*;
use crate::text::chars_of;

verus! {

/// Where the scan stands before a character: in code, inside a string literal
/// (single or triple quoted, after a backslash, inside the opening or closing
/// quotes), or in a comment.
#[derive(Debug, Clone, Copy, PartialEq, Eq, Structural)]
pub enum Lex {
    Code,
    Str(char),
    StrEsc(char),
    TriOpen(char, u8),
    Tri(char),
    TriEsc(char),
    TriClose(char, u8),
    Comment,
}

pub open spec fn is_quote(c: char) -> bool {
    c == '\'' || c == '"'
}

/// `s` has `c` at index `i`.
pub open spec fn has_at(s: Seq<char>, i: int, c: char) -> bool {
    0 <= i < s.len() && s[i] == c
}

/// The scan state after character `i`, from the state before it.
pub open spec fn next_lex(s: Seq<char>, i: int, st: Lex) -> Lex {
    match st {
        Lex::Code => if has_at(s, i, '/') && has_at(s, i + 1, '/') {
            Lex::Comment
        } else if is_quote(s[i]) {
            if has_at(s, i + 1, s[i]) && has_at(s, i + 2, s[i]) {
                Lex::TriOpen(s[i], 2)
            } else {
                Lex::Str(s[i])
            }
        } else {
            Lex::Code
        },
        Lex::Str(q) => if s[i] == '\\' {
            Lex::StrEsc(q)
        } else if s[i] == q {
            Lex::Code
        } else {
            Lex::Str(q)
        },
        Lex::StrEsc(q) => Lex::Str(q),
        Lex::TriOpen(q, k) => if k > 1 {
            Lex::TriOpen(q, (k - 1) as u8)
        } else {
            Lex::Tri(q)
        },
        Lex::Tri(q) => if s[i] == '\\' {
            Lex::TriEsc(q)
        } else if s[i] == q && has_at(s, i + 1, q) && has_at(s, i + 2, q) {
            Lex::TriClose(q, 2)
        } else {
            Lex::Tri(q)
        },
        Lex::TriEsc(q) => Lex::Tri(q),
        Lex::TriClose(q, k) => if k > 1 {
            Lex::TriClose(q, (k - 1) as u8)
        } else {
            Lex::Code
        },
        Lex::Comment => if s[i] == '\n' {
            Lex::Code
        } else {
            Lex::Comment
        },
    }
}

/// The scan state before character `i`.
pub open spec fn lex_at(s: Seq<char>, i: nat) -> Lex
    decreases i,
{
    if i == 0 {
        Lex::Code
    } else {
        next_lex(s, i - 1, lex_at(s, (i - 1) as nat))
    }
}

/// Character `i` opens a string literal.
pub open spec fn opens_string(s: Seq<char>, i: int) -> bool {
    0 <= i < s.len() && lex_at(s, i as nat) == Lex::Code && is_quote(s[i])
}

/// Character `i` is code: neither in a string literal or comment nor opening one.
pub open spec fn in_code(s: Seq<char>, i: int) -> bool {
    &&& 0 <= i < s.len()
    &&& lex_at(s, i as nat) == Lex::Code
    &&& !is_quote(s[i])
    &&& !(has_at(s, i, '/') && has_at(s, i + 1, '/'))
}

/// CEL's white space.
pub open spec fn blank(c: char) -> bool {
    c == ' ' || c == '\t' || c == '\n' || c == '\r' || c == '\u{c}'
}

/// The last significant character before `i`: a code character that is not
/// white space, or the quote that opens a string literal. Comments do not count.
pub open spec fn prev_sig(s: Seq<char>, i: nat) -> Option<char>
    decreases i,
{
    if i == 0 {
        None
    } else {
        let j = (i - 1) as int;
        if opens_string(s, j) || (in_code(s, j) && !blank(s[j])) {
            Some(s[j])
        } else {
            prev_sig(s, (i - 1) as nat)
        }
    }
}

/// A character that can stand in an identifier.
pub open spec fn ident_char(c: char) -> bool {
    ('a' <= c && c <= 'z') || ('A' <= c && c <= 'Z') || ('0' <= c && c <= '9') || c == '_'
}

/// The word `w` stands at index `i` of `s`, not as part of a longer identifier.
pub open spec fn word_at(s: Seq<char>, i: int, w: Seq<char>) -> bool {
    &&& 0 <= i
    &&& i + w.len() <= s.len()
    &&& s.subrange(i, i + w.len()) == w
    &&& (i == 0 || !ident_char(s[i - 1]))
    &&& (i + w.len() == s.len() || !ident_char(s[i + w.len()]))
}

/// The names that lead to the engine's panics: the comprehension macros, and
/// the conversions that make bytes, durations and timestamps.
pub open spec fn risky_words() -> Seq<Seq<char>> {
    seq![
        seq!['a', 'l', 'l'],
        seq!['e', 'x', 'i', 's', 't', 's'],
        seq!['e', 'x', 'i', 's', 't', 's', '_', 'o', 'n', 'e'],
        seq!['e', 'x', 'i', 's', 't', 's', 'O', 'n', 'e'],
        seq!['m', 'a', 'p'],
        seq!['f', 'i', 'l', 't', 'e', 'r'],
        seq!['b', 'y', 't', 'e', 's'],
        seq!['d', 'u', 'r', 'a', 't', 'i', 'o', 'n'],
        seq!['t', 'i', 'm', 'e', 's', 't', 'a', 'm', 'p'],
    ]
}

/// A letter that can prefix a string literal (raw or bytes).
pub open spec fn prefix_char(c: char) -> bool {
    c == 'b' || c == 'B' || c == 'r' || c == 'R'
}

/// Character `i` is risky: in code, a minus sign, a `{` right after an
/// identifier (a struct literal), or the start of one of the `risky_words`;
/// or the quote of a string literal with a prefix (bytes or raw).
pub open spec fn risky_at(s: Seq<char>, i: int) -> bool {
    ||| in_code(s, i) && (s[i] == '-' || (s[i] == '{' && (prev_sig(s, i as nat) matches Some(c) && ident_char(c)))
        || exists|k: int| 0 <= k < risky_words().len() && #[trigger] word_at(s, i, risky_words()[k]))
    ||| opens_string(s, i) && i > 0 && prefix_char(s[i - 1])
}

/// Whether a program text is one the library runs: no character of it is
/// `risky_at`. Map literals, comprehension words inside strings and
/// comments, and everything else are allowed.
pub open spec fn cel_safe(s: Seq<char>) -> bool {
    forall|i: int| 0 <= i < s.len() ==> !#[trigger] risky_at(s, i)
}

fn is_quote_exec(c: char) -> (b: bool)
    ensures
        b == is_quote(c),
{
    c == '\'' || c == '"'
}

fn has_at_exec(s: &Vec<char>, i: usize, c: char) -> (b: bool)
    ensures
        b == has_at(s@, i as int, c),
{
    i < s.len() && s[i] == c
}

fn next_lex_exec(s: &Vec<char>, i: usize, st: Lex) -> (r: Lex)
    requires
        i < s.len(),
    ensures
        r == next_lex(s@, i as int, st),
{
    let c = s[i];
    match st {
        Lex::Code => if has_at_exec(s, i, '/') && i < usize::MAX && has_at_exec(s, i + 1, '/') {
            Lex::Comment
        } else if is_quote_exec(c) {
            if i + 1 < s.len() && i + 2 < s.len() && s[i + 1] == c && s[i + 2] == c {
                Lex::TriOpen(c, 2)
            } else {
                Lex::Str(c)
            }
        } else {
            Lex::Code
        },
        Lex::Str(q) => if c == '\\' {
            Lex::StrEsc(q)
        } else if c == q {
            Lex::Code
        } else {
            Lex::Str(q)
        },
        Lex::StrEsc(q) => Lex::Str(q),
        Lex::TriOpen(q, k) => if k > 1 {
            Lex::TriOpen(q, k - 1)
        } else {
            Lex::Tri(q)
        },
        Lex::Tri(q) => if c == '\\' {
            Lex::TriEsc(q)
        } else if c == q && i + 1 < s.len() && i + 2 < s.len() && s[i + 1] == q && s[i + 2] == q {
            Lex::TriClose(q, 2)
        } else {
            Lex::Tri(q)
        },
        Lex::TriEsc(q) => Lex::Tri(q),
        Lex::TriClose(q, k) => if k > 1 {
            Lex::TriClose(q, k - 1)
        } else {
            Lex::Code
        },
        Lex::Comment => if c == '\n' {
            Lex::Code
        } else {
            Lex::Comment
        },
    }
}

fn is_ident_char(c: char) -> (b: bool)
    ensures
        b == ident_char(c),
{
    ('a' <= c && c <= 'z') || ('A' <= c && c <= 'Z') || ('0' <= c && c <= '9') || c == '_'
}

fn is_blank(c: char) -> (b: bool)
    ensures
        b == blank(c),
{
    c == ' ' || c == '\t' || c == '\n' || c == '\r' || c == '\u{c}'
}

/// Whether `w` stands as a word at index `i` of `s`.
fn word_at_exec(s: &Vec<char>, i: usize, w: &Vec<char>) -> (b: bool)
    ensures
        b == word_at(s@, i as int, w@),
{
    if i > s.len() || w.len() > s.len() - i {
        return false;
    }
    let mut j: usize = 0;
    while j < w.len()
        invariant
            i + w.len() <= s.len(),
            j <= w.len(),
            forall|k: int| 0 <= k < j ==> s@[i + k] == w@[k],
        decreases w.len() - j,
    {
        if s[i + j] != w[j] {
            assert(s@.subrange(i as int, i + w.len())[j as int] != w@[j as int]);
            return false;
        }
        j = j + 1;
    }
    assert(s@.subrange(i as int, i + w.len()) =~= w@);
    let before = i == 0 || !is_ident_char(s[i - 1]);
    let after = i + w.len() == s.len() || !is_ident_char(s[i + w.len()]);
    before && after
}

fn chars_vec(cs: &[char]) -> (v: Vec<char>)
    ensures
        v@ == cs@,
{
    let mut v: Vec<char> = Vec::new();
    let mut i: usize = 0;
    while i < cs.len()
        invariant
            i <= cs.len(),
            v@ == cs@.take(i as int),
        decreases cs.len() - i,
    {
        v.push(cs[i]);
        assert(cs@.take(i + 1) =~= cs@.take(i as int).push(cs@[i as int]));
        i = i + 1;
    }
    assert(cs@.take(cs.len() as int) =~= cs@);
    v
}

fn risky_words_exec() -> (v: Vec<Vec<char>>)
    ensures
        v@.len() == risky_words().len(),
        forall|k: int| 0 <= k < v@.len() ==> #[trigger] v@[k]@ == risky_words()[k],
{
    let mut v: Vec<Vec<char>> = Vec::new();
    let w = chars_vec(&['a', 'l', 'l']);
    assert(w@ =~= risky_words()[0]);
    v.push(w);
    let w = chars_vec(&['e', 'x', 'i', 's', 't', 's']);
    assert(w@ =~= risky_words()[1]);
    v.push(w);
    let w = chars_vec(&['e', 'x', 'i', 's', 't', 's', '_', 'o', 'n', 'e']);
    assert(w@ =~= risky_words()[2]);
    v.push(w);
    let w = chars_vec(&['e', 'x', 'i', 's', 't', 's', 'O', 'n', 'e']);
    assert(w@ =~= risky_words()[3]);
    v.push(w);
    let w = chars_vec(&['m', 'a', 'p']);
    assert(w@ =~= risky_words()[4]);
    v.push(w);
    let w = chars_vec(&['f', 'i', 'l', 't', 'e', 'r']);
    assert(w@ =~= risky_words()[5]);
    v.push(w);
    let w = chars_vec(&['b', 'y', 't', 'e', 's']);
    assert(w@ =~= risky_words()[6]);
    v.push(w);
    let w = chars_vec(&['d', 'u', 'r', 'a', 't', 'i', 'o', 'n']);
    assert(w@ =~= risky_words()[7]);
    v.push(w);
    let w = chars_vec(&['t', 'i', 'm', 'e', 's', 't', 'a', 'm', 'p']);
    assert(w@ =~= risky_words()[8]);
    v.push(w);
    v
}

/// Whether one of the risky words starts at `i`.
fn risky_word_at(s: &Vec<char>, i: usize, words: &Vec<Vec<char>>) -> (b: bool)
    requires
        words@.len() == risky_words().len(),
        forall|k: int| 0 <= k < words@.len() ==> #[trigger] words@[k]@ == risky_words()[k],
    ensures
        b == exists|k: int| 0 <= k < risky_words().len() && #[trigger] word_at(s@, i as int, risky_words()[k]),
{
    let mut k: usize = 0;
    while k < words.len()
        invariant
            k <= words.len(),
            words@.len() == risky_words().len(),
            forall|m: int| 0 <= m < words@.len() ==> #[trigger] words@[m]@ == risky_words()[m],
            forall|m: int| 0 <= m < k ==> !#[trigger] word_at(s@, i as int, risky_words()[m]),
        decreases words.len() - k,
    {
        if word_at_exec(s, i, &words[k]) {
            assert(word_at(s@, i as int, risky_words()[k as int]));
            return true;
        }
        k = k + 1;
    }
    false
}

/// Whether a program text is one the library runs; see `cel_safe`.
pub fn is_cel_safe(source: &str) -> (b: bool)
    ensures
        b == cel_safe(source@),
{
    let s = chars_of(source);
    let words = risky_words_exec();
    let mut st = Lex::Code;
    let mut prev: Option<char> = None;
    let mut i: usize = 0;
    while i < s.len()
        invariant
            i <= s.len(),
            s@ == source@,
            st == lex_at(s@, i as nat),
            prev == prev_sig(s@, i as nat),
            words@.len() == risky_words().len(),
            forall|k: int| 0 <= k < words@.len() ==> #[trigger] words@[k]@ == risky_words()[k],
            forall|j: int| 0 <= j < i ==> !#[trigger] risky_at(s@, j),
        decreases s.len() - i,
    {
        let c = s[i];
        let comment = c == '/' && i + 1 < s.len() && s[i + 1] == '/';
        let code = st == Lex::Code && !is_quote_exec(c) && !comment;
        let opens = st == Lex::Code && is_quote_exec(c);
        assert(code == in_code(s@, i as int));
        assert(opens == opens_string(s@, i as int));
        let struct_brace = match prev {
            Some(p) => c == '{' && is_ident_char(p),
            None => false,
        };
        let risky_code = code && (c == '-' || struct_brace || risky_word_at(&s, i, &words));
        let risky_prefix = opens && i > 0 && (s[i - 1] == 'b' || s[i - 1] == 'B' || s[i - 1] == 'r' || s[i - 1] == 'R');
        assert((risky_code || risky_prefix) == risky_at(s@, i as int));
        if risky_code || risky_prefix {
            assert(risky_at(source@, i as int));
            return false;
        }
        if opens || (code && !is_blank(c)) {
            prev = Some(c);
        }
        st = next_lex_exec(&s, i, st);
        i = i + 1;
    }
    true
}

/// The library declines only the documented constructs: character `i` of a
/// program text counts against running it exactly when, in code (outside
/// string literals and comments), it is a minus sign, the `{` of a struct
/// literal (right after a name), or the start of one of the words `all`,
/// `exists`, `exists_one`, `existsOne`, `map`, `filter`, `bytes`, `duration`,
/// `timestamp`; or when it opens a string literal with a bytes or raw prefix.
/// Any other name, call or operator, in code or in a string, is run.
pub proof fn only_documented_constructs_are_declined(s: Seq<char>, i: int)
    ensures
        risky_at(s, i) <==> {
            ||| in_code(s, i) && {
                ||| s[i] == '-'
                ||| s[i] == '{' && (prev_sig(s, i as nat) matches Some(c) && ident_char(c))
                ||| word_at(s, i, seq!['a', 'l', 'l'])
                ||| word_at(s, i, seq!['e', 'x', 'i', 's', 't', 's'])
                ||| word_at(s, i, seq!['e', 'x', 'i', 's', 't', 's', '_', 'o', 'n', 'e'])
                ||| word_at(s, i, seq!['e', 'x', 'i', 's', 't', 's', 'O', 'n', 'e'])
                ||| word_at(s, i, seq!['m', 'a', 'p'])
                ||| word_at(s, i, seq!['f', 'i', 'l', 't', 'e', 'r'])
                ||| word_at(s, i, seq!['b', 'y', 't', 'e', 's'])
                ||| word_at(s, i, seq!['d', 'u', 'r', 'a', 't', 'i', 'o', 'n'])
                ||| word_at(s, i, seq!['t', 'i', 'm', 'e', 's', 't', 'a', 'm', 'p'])
            }
            ||| opens_string(s, i) && i > 0 && (s[i - 1] == 'b' || s[i - 1] == 'B' || s[i - 1] == 'r' || s[i - 1] == 'R')
        },
{
    let w = risky_words();
    assert(w.len() == 9);
    assert(w[0] == seq!['a', 'l', 'l']);
    assert(w[1] == seq!['e', 'x', 'i', 's', 't', 's']);
    assert(w[2] == seq!['e', 'x', 'i', 's', 't', 's', '_', 'o', 'n', 'e']);
    assert(w[3] == seq!['e', 'x', 'i', 's', 't', 's', 'O', 'n', 'e']);
    assert(w[4] == seq!['m', 'a', 'p']);
    assert(w[5] == seq!['f', 'i', 'l', 't', 'e', 'r']);
    assert(w[6] == seq!['b', 'y', 't', 'e', 's']);
    assert(w[7] == seq!['d', 'u', 'r', 'a', 't', 'i', 'o', 'n']);
    assert(w[8] == seq!['t', 'i', 'm', 'e', 's', 't', 'a', 'm', 'p']);
    let any_word = exists|k: int| 0 <= k < w.len() && #[trigger] word_at(s, i, w[k]);
    if any_word {
        let k = choose|k: int| 0 <= k < w.len() && #[trigger] word_at(s, i, w[k]);
        assert(0 <= k < 9);
    }
    if word_at(s, i, w[0]) || word_at(s, i, w[1]) || word_at(s, i, w[2]) || word_at(s, i, w[3])
        || word_at(s, i, w[4]) || word_at(s, i, w[5]) || word_at(s, i, w[6]) || word_at(s, i, w[7])
        || word_at(s, i, w[8]) {
        assert(any_word);
    }
}

/// Nothing inside a string literal or a comment counts against a program:
/// only code and the quotes that open strings are read.
pub proof fn strings_and_comments_are_never_declined(s: Seq<char>, i: int)
    requires
        !in_code(s, i),
        !opens_string(s, i),
    ensures
        !risky_at(s, i),
{
}

} // verus!
