//! The client address that the host reports for a request.

use vstd::prelude::*;
use vstd::utf8::*;
use crate::text::{chars_of, string_from_chars, utf8_string};

verus! {

/// Why a reported source address could not be read.
#[derive(Debug, Clone, Copy, PartialEq, Eq, Structural)]
pub enum AddrError {
    /// The bytes are not valid UTF-8.
    NotUtf8,
    /// The text is not an address (`ipv4:port`, `[ipv6]:port` or `[ipv6]`).
    Invalid,
}

/// Index of the first `c` in `s` at or after `from` (`s.len()` when there is none).
pub open spec fn first_index_from(s: Seq<char>, c: char, from: int) -> int
    decreases s.len() - from,
{
    if from < 0 || from >= s.len() {
        s.len() as int
    } else if s[from] == c {
        from
    } else {
        first_index_from(s, c, from + 1)
    }
}

/// The address text without an IPv6 scope zone: where a `%` is followed,
/// somewhere after it, by a `]`, everything from the first `%` up to that
/// first `]` is dropped, the `]` kept. Any other text is left as it is.
pub open spec fn strip_zone(s: Seq<char>) -> Seq<char> {
    let p = first_index_from(s, '%', 0);
    let b = first_index_from(s, ']', p + 1);
    if p < s.len() && b < s.len() {
        s.take(p) + seq![']'] + s.skip(b + 1)
    } else {
        s
    }
}

/// What the standard library's socket-address parser makes of a text: the
/// textual form of its IP part, or `None` where the text is no socket address.
pub uninterp spec fn socket_addr_ip(text: Seq<char>) -> Option<Seq<char>>;

/// What the standard library's IPv6 address parser makes of a text: the
/// address in its standard textual form, or `None` where the text is no IPv6 address.
pub uninterp spec fn ipv6_addr_text(text: Seq<char>) -> Option<Seq<char>>;

/// The text is `[` followed by something and `]`.
pub open spec fn bracketed(t: Seq<char>) -> bool {
    t.len() >= 2 && t[0] == '[' && t.last() == ']'
}

/// The IP of an address text: that of a socket address (`ipv4:port`,
/// `[ipv6]:port`), or that of a bracketed IPv6 address without port (`[ipv6]`).
pub open spec fn addr_ip(t: Seq<char>) -> Option<Seq<char>> {
    match socket_addr_ip(t) {
        Some(ip) => Some(ip),
        None => if bracketed(t) {
            ipv6_addr_text(t.subrange(1, t.len() - 1))
        } else {
            None
        },
    }
}

/// The client IP that `parse_socket_addr` reads from the reported bytes.
pub open spec fn source_ip_of(input: Seq<u8>) -> Result<Seq<char>, AddrError> {
    if !valid_utf8(input) {
        Err(AddrError::NotUtf8)
    } else {
        match addr_ip(strip_zone(decode_utf8(input))) {
            Some(ip) => Ok(ip),
            None => Err(AddrError::Invalid),
        }
    }
}

/// `<core::net::Ipv6Addr as FromStr>::from_str`, the address then written in
/// its standard textual form.
/// Claims only that the outcome is the function `ipv6_addr_text` of the text.
#[verifier::external_body]
fn ipv6_text(text: &str) -> (r: Option<String>)
    ensures
        r matches Some(ip) ==> ipv6_addr_text(text@) == Some(ip@),
        r is None ==> ipv6_addr_text(text@) is None,
{
    match text.parse::<core::net::Ipv6Addr>() {
        Ok(addr) => Some(addr.to_string()),
        Err(_) => None,
    }
}

/// The IP of an address text; see `addr_ip`.
pub fn ip_of_addr(text: &str) -> (r: Option<String>)
    ensures
        r matches Some(ip) ==> addr_ip(text@) == Some(ip@),
        r is None ==> addr_ip(text@) is None,
{
    match socket_addr_ip_text(text) {
        Some(ip) => Some(ip),
        None => {
            let chars = chars_of(text);
            let n = chars.len();
            if n >= 2 && chars[0] == '[' && chars[n - 1] == ']' {
                let mut inner: Vec<char> = Vec::new();
                let mut i: usize = 1;
                while i < n - 1
                    invariant
                        1 <= i <= n - 1,
                        n == chars@.len(),
                        inner@ == chars@.subrange(1, i as int),
                    decreases n - 1 - i,
                {
                    inner.push(chars[i]);
                    assert(chars@.subrange(1, i + 1) =~= chars@.subrange(1, i as int).push(chars@[i as int]));
                    i = i + 1;
                }
                let inner = string_from_chars(&inner);
                ipv6_text(inner.as_str())
            } else {
                None
            }
        },
    }
}

/// `<core::net::SocketAddr as FromStr>::from_str`, followed by taking the IP
/// part and writing it in its standard textual form.
/// Claims only that the outcome is the function `socket_addr_ip` of the text.
#[verifier::external_body]
fn socket_addr_ip_text(text: &str) -> (r: Option<String>)
    ensures
        r matches Some(ip) ==> socket_addr_ip(text@) == Some(ip@),
        r is None ==> socket_addr_ip(text@) is None,
{
    match text.parse::<core::net::SocketAddr>() {
        Ok(addr) => Some(addr.ip().to_string()),
        Err(_) => None,
    }
}

proof fn lemma_first_index(s: Seq<char>, c: char, from: int, k: int)
    requires
        0 <= from <= k <= s.len(),
        forall|j: int| from <= j < k ==> #[trigger] s[j] != c,
        k == s.len() || s[k] == c,
    ensures
        first_index_from(s, c, from) == k,
    decreases k - from,
{
    if from < k {
        lemma_first_index(s, c, from + 1, k);
    }
}

/// Index of the first `c` in `chars` at or after `from`.
fn find_char(chars: &Vec<char>, c: char, from: usize) -> (r: usize)
    requires
        from <= chars.len(),
    ensures
        r == first_index_from(chars@, c, from as int),
        from <= r <= chars.len(),
{
    let mut i = from;
    while i < chars.len() && chars[i] != c
        invariant
            from <= i <= chars.len(),
            forall|j: int| from <= j < i ==> #[trigger] chars@[j] != c,
        decreases chars.len() - i,
    {
        i = i + 1;
    }
    proof {
        lemma_first_index(chars@, c, from as int, i as int);
    }
    i
}

/// Removes an IPv6 scope zone from an address text; see `strip_zone`.
pub fn without_zone(s: &str) -> (r: String)
    ensures
        r@ == strip_zone(s@),
{
    let chars = chars_of(s);
    let p = find_char(&chars, '%', 0);
    if p < chars.len() {
        let b = find_char(&chars, ']', p + 1);
        if b < chars.len() {
            let mut out: Vec<char> = Vec::new();
            let mut i: usize = 0;
            while i < p
                invariant
                    i <= p < chars.len(),
                    out@ == chars@.take(i as int),
                decreases p - i,
            {
                out.push(chars[i]);
                assert(chars@.take(i + 1) =~= chars@.take(i as int).push(chars@[i as int]));
                i = i + 1;
            }
            out.push(']');
            let mut j: usize = b + 1;
            while j < chars.len()
                invariant
                    p < b < j <= chars.len(),
                    b < chars.len(),
                    out@ == chars@.take(p as int) + seq![']'] + chars@.subrange(b + 1, j as int),
                decreases chars.len() - j,
            {
                out.push(chars[j]);
                assert(chars@.subrange(b + 1, j + 1) =~= chars@.subrange(b + 1, j as int).push(chars@[j as int]));
                j = j + 1;
            }
            assert(chars@.subrange(b + 1, chars.len() as int) =~= chars@.skip(b + 1));
            return string_from_chars(&out);
        }
    }
    string_from_chars(&chars)
}

/// Reads the client IP from the socket address that the host reports.
/// Accepted forms: `ipv4:port`, `[ipv6]:port`, `[ipv6%zone]:port` and
/// `[ipv6]`; the result is the IP part alone, without port and zone.
pub fn parse_socket_addr(input: &[u8]) -> (r: Result<String, AddrError>)
    ensures
        r matches Ok(ip) ==> source_ip_of(input@) == Ok::<Seq<char>, AddrError>(ip@),
        r matches Err(e) ==> source_ip_of(input@) == Err::<Seq<char>, AddrError>(e),
{
    match utf8_string(input) {
        None => Err(AddrError::NotUtf8),
        Some(text) => {
            let clean = without_zone(text.as_str());
            match ip_of_addr(clean.as_str()) {
                Some(ip) => Ok(ip),
                None => Err(AddrError::Invalid),
            }
        },
    }
}

} // verus!
