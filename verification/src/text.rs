//! Character-level helpers over `String` and `str`.

use vstd::prelude::*;
use vstd::utf8::*;

verus! {

/// Builds a `String` that holds exactly the given characters.
pub fn string_from_chars(chars: &Vec<char>) -> (s: String)
    ensures
        s@ == chars@,
{
    let mut s = String::new();
    let mut i: usize = 0;
    while i < chars.len()
        invariant
            i <= chars.len(),
            s@ == chars@.take(i as int),
        decreases chars.len() - i,
    {
        push_char(&mut s, chars[i]);
        assert(chars@.take(i as int).push(chars@[i as int]) =~= chars@.take(i + 1));
        i = i + 1;
    }
    assert(chars@.take(chars.len() as int) =~= chars@);
    s
}

/// `String::push`: appends one character.
#[verifier::external_body]
fn push_char(s: &mut String, c: char)
    ensures
        final(s)@ == old(s)@.push(c),
{
    s.push(c);
}

/// The characters of a string slice, in order.
pub fn chars_of(s: &str) -> (v: Vec<char>)
    ensures
        v@ == s@,
{
    let mut v: Vec<char> = Vec::new();
    for c in it: s.chars()
        invariant
            it.seq() == s@,
            v@ == it.seq().take(it.index() as int),
        ensures
            v@ == s@,
    {
        v.push(c);
    }
    v
}


/// What `String::from_utf8_lossy` makes of a byte string: the decoded text,
/// with each invalid sequence replaced by U+FFFD.
pub uninterp spec fn lossy_text(bytes: Seq<u8>) -> Seq<char>;

/// `String::from_utf8_lossy`, taken as an owned `String`.
/// Claims: the result is the function `lossy_text` of the bytes, and where
/// the bytes are valid UTF-8 it is their decoding (the documentation says that
/// no replacement happens then).
#[verifier::external_body]
pub(crate) fn lossy_string(bytes: &[u8]) -> (s: String)
    ensures
        s@ == lossy_text(bytes@),
        valid_utf8(bytes@) ==> s@ == decode_utf8(bytes@),
{
    String::from_utf8_lossy(bytes).into_owned()
}

/// `std::str::from_utf8`, taken as an owned `String`.
/// Claims: it succeeds exactly on valid UTF-8, and then gives the decoding.
#[verifier::external_body]
pub(crate) fn utf8_string(bytes: &[u8]) -> (r: Option<String>)
    ensures
        r is Some <==> valid_utf8(bytes@),
        r matches Some(s) ==> s@ == decode_utf8(bytes@),
{
    match std::str::from_utf8(bytes) {
        Ok(s) => Some(s.to_string()),
        Err(_) => None,
    }
}

/// The character with ASCII upper-case letters mapped to lower case.
pub open spec fn ascii_lower_char(c: char) -> char {
    if 'A' <= c && c <= 'Z' {
        ((c as u8) + 32) as u8 as char
    } else {
        c
    }
}

/// The text with every ASCII upper-case letter mapped to lower case.
pub open spec fn ascii_lower(s: Seq<char>) -> Seq<char> {
    s.map_values(|c: char| ascii_lower_char(c))
}

/// Lower-cases the ASCII letters of `s` and leaves every other character as it is.
pub fn to_ascii_lower(s: &str) -> (r: String)
    ensures
        r@ == ascii_lower(s@),
{
    let chars = chars_of(s);
    let mut out: Vec<char> = Vec::new();
    let mut i: usize = 0;
    while i < chars.len()
        invariant
            i <= chars.len(),
            chars@ == s@,
            out@ == ascii_lower(s@.take(i as int)),
        decreases chars.len() - i,
    {
        let c = chars[i];
        let l = if 'A' <= c && c <= 'Z' { ((c as u8) + 32) as char } else { c };
        out.push(l);
        assert(ascii_lower(s@.take(i + 1)) =~= ascii_lower(s@.take(i as int)).push(l));
        i = i + 1;
    }
    assert(s@.take(chars.len() as int) =~= s@);
    string_from_chars(&out)
}

/// Whether `c` has the Unicode `White_Space` property, which is what
/// `char::is_whitespace` and `str::trim` go by.
pub open spec fn white_space(c: char) -> bool {
    let n = c as u32;
    (0x09 <= n && n <= 0x0d) || n == 0x20 || n == 0x85 || n == 0xa0 || n == 0x1680
        || (0x2000 <= n && n <= 0x200a) || n == 0x2028 || n == 0x2029 || n == 0x202f
        || n == 0x205f || n == 0x3000
}

/// Executable form of `white_space`.
pub fn is_white_space(c: char) -> (b: bool)
    ensures
        b == white_space(c),
{
    let n = c as u32;
    (0x09 <= n && n <= 0x0d) || n == 0x20 || n == 0x85 || n == 0xa0 || n == 0x1680
        || (0x2000 <= n && n <= 0x200a) || n == 0x2028 || n == 0x2029 || n == 0x202f
        || n == 0x205f || n == 0x3000
}

/// Index of the first character of `s` that is not white space (`s.len()` when none is).
pub open spec fn trim_start_index(s: Seq<char>) -> int
    decreases s.len(),
{
    if s.len() == 0 {
        0
    } else if white_space(s[0]) {
        1 + trim_start_index(s.drop_first())
    } else {
        0
    }
}

/// Index just past the last character of `s` that is not white space (0 when none is).
pub open spec fn trim_end_index(s: Seq<char>) -> int
    decreases s.len(),
{
    if s.len() == 0 {
        0
    } else if white_space(s.last()) {
        trim_end_index(s.drop_last())
    } else {
        s.len() as int
    }
}

/// `s` without its leading and trailing white space.
pub open spec fn trimmed(s: Seq<char>) -> Seq<char> {
    if trim_start_index(s) >= trim_end_index(s) {
        Seq::empty()
    } else {
        s.subrange(trim_start_index(s), trim_end_index(s))
    }
}


proof fn lemma_trim_start(s: Seq<char>, k: int)
    requires
        0 <= k <= s.len(),
        forall|j: int| 0 <= j < k ==> white_space(#[trigger] s[j]),
        k == s.len() || !white_space(s[k]),
    ensures
        trim_start_index(s) == k,
    decreases k,
{
    if k > 0 {
        let t = s.drop_first();
        assert forall|j: int| 0 <= j < k - 1 implies white_space(#[trigger] t[j]) by {
            assert(t[j] == s[j + 1]);
        }
        if k < s.len() {
            assert(t[k - 1] == s[k]);
        }
        lemma_trim_start(t, k - 1);
    }
}

proof fn lemma_trim_end(s: Seq<char>, k: int)
    requires
        0 <= k <= s.len(),
        forall|j: int| k <= j < s.len() ==> white_space(#[trigger] s[j]),
        k == 0 || !white_space(s[k - 1]),
    ensures
        trim_end_index(s) == k,
    decreases s.len(),
{
    if k < s.len() {
        let t = s.drop_last();
        assert forall|j: int| k <= j < t.len() implies white_space(#[trigger] t[j]) by {
            assert(t[j] == s[j]);
        }
        lemma_trim_end(t, k);
    }
}

/// `str::trim`: removes leading and trailing white space.
pub fn trim(s: &str) -> (r: String)
    ensures
        r@ == trimmed(s@),
{
    let chars = chars_of(s);
    let n = chars.len();
    let mut lo: usize = 0;
    while lo < n && is_white_space(chars[lo])
        invariant
            lo <= n,
            n == chars@.len(),
            forall|j: int| 0 <= j < lo ==> white_space(#[trigger] chars@[j]),
        decreases n - lo,
    {
        lo = lo + 1;
    }
    let mut hi: usize = n;
    while hi > 0 && is_white_space(chars[hi - 1])
        invariant
            hi <= n,
            n == chars@.len(),
            forall|j: int| hi <= j < n ==> white_space(#[trigger] chars@[j]),
        decreases hi,
    {
        hi = hi - 1;
    }
    proof {
        lemma_trim_start(s@, lo as int);
        lemma_trim_end(s@, hi as int);
    }
    let mut out: Vec<char> = Vec::new();
    if lo < hi {
        let mut i: usize = lo;
        while i < hi
            invariant
                lo <= i <= hi <= n,
                n == chars@.len(),
                chars@ == s@,
                out@ == s@.subrange(lo as int, i as int),
            decreases hi - i,
        {
            out.push(chars[i]);
            assert(s@.subrange(lo as int, i + 1) =~= s@.subrange(lo as int, i as int).push(chars@[i as int]));
            i = i + 1;
        }
    }
    assert(out@ =~= trimmed(s@));
    string_from_chars(&out)
}

/// What `str::to_lowercase` gives: the Unicode lower-case mapping of the text.
pub uninterp spec fn unicode_lower(s: Seq<char>) -> Seq<char>;

/// `str::to_lowercase`.
/// Claims only that the result is the function `unicode_lower` of the text.
#[verifier::external_body]
fn unicode_lowercase(s: &str) -> (r: String)
    ensures
        r@ == unicode_lower(s@),
{
    s.to_lowercase()
}

/// Lower-cases a string (full Unicode mapping); the rules' `lower()` function.
pub fn lower(s: &str) -> (r: String)
    ensures
        r@ == unicode_lower(s@),
{
    unicode_lowercase(s)
}

} // verus!
