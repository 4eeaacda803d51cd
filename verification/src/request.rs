//! The request as the rules see it.

use std::collections::HashMap;
use std::sync::Arc;
use vstd::prelude::*;
use vstd::string::*;
use crate::address::{parse_socket_addr, source_ip_of, AddrError};
use crate::text::{ascii_lower, lossy_string, lossy_text, to_ascii_lower};

verus! {

/// The value of one header: no value, one value, or several in order.
#[derive(Debug, Clone, PartialEq, Eq)]
pub enum HeaderValue {
    Null,
    Single(String),
    List(Vec<String>),
}

/// The mathematical form of a `HeaderValue`.
pub enum HeaderView {
    Null,
    Single(Seq<char>),
    List(Seq<Seq<char>>),
}

pub open spec fn texts_view(v: Seq<String>) -> Seq<Seq<char>> {
    v.map_values(|s: String| s@)
}

impl View for HeaderValue {
    type V = HeaderView;

    open spec fn view(&self) -> HeaderView {
        match self {
            HeaderValue::Null => HeaderView::Null,
            HeaderValue::Single(s) => HeaderView::Single(s@),
            HeaderValue::List(v) => HeaderView::List(texts_view(v@)),
        }
    }
}

/// The header table as a sequence of (name, value) entries.
pub type HeaderTable = Seq<(Seq<char>, HeaderView)>;

pub open spec fn entries_view(v: Seq<(String, HeaderValue)>) -> HeaderTable {
    v.map_values(|e: (String, HeaderValue)| (e.0@, e.1@))
}

/// No name occurs twice in the table.
pub open spec fn distinct_names(t: HeaderTable) -> bool {
    forall|i: int, j: int| 0 <= i < t.len() && 0 <= j < t.len() && i != j ==> #[trigger] t[i].0 != #[trigger] t[j].0
}

/// Whether the table has an entry named `name`.
pub open spec fn has_name(t: HeaderTable, name: Seq<char>) -> bool {
    exists|i: int| 0 <= i < t.len() && #[trigger] t[i].0 == name
}

/// The value stored under `name`, if any.
pub open spec fn lookup(t: HeaderTable, name: Seq<char>) -> Option<HeaderView> {
    if has_name(t, name) {
        Some(t[choose|i: int| 0 <= i < t.len() && #[trigger] t[i].0 == name].1)
    } else {
        None
    }
}

/// The table after storing `value` under `name`: an entry of that name is
/// replaced in place; otherwise the entry is added at the end. This is how a
/// map keeps the last value given for a name.
pub open spec fn upsert(t: HeaderTable, name: Seq<char>, value: HeaderView) -> HeaderTable {
    if has_name(t, name) {
        t.update(choose|i: int| 0 <= i < t.len() && #[trigger] t[i].0 == name, (name, value))
    } else {
        t.push((name, value))
    }
}

/// Headers of a request, each name once.
///
/// Held as a list of distinct names rather than a map keyed by strings, so
/// that the contracts can say which value a name finds and in which order
/// the names come out.
pub struct Headers {
    entries: Vec<(String, HeaderValue)>,
}

impl View for Headers {
    type V = HeaderTable;

    closed spec fn view(&self) -> HeaderTable {
        entries_view(self.entries@)
    }
}

impl Headers {
    #[verifier::type_invariant]
    spec fn names_distinct(self) -> bool {
        distinct_names(entries_view(self.entries@))
    }

    /// A table without entries.
    pub fn new() -> (h: Headers)
        ensures
            h@ == Seq::<(Seq<char>, HeaderView)>::empty(),
    {
        let h = Headers { entries: Vec::new() };
        assert(h@ =~= Seq::<(Seq<char>, HeaderView)>::empty());
        h
    }

    /// The number of distinct header names.
    pub fn len(&self) -> (n: usize)
        ensures
            n == self@.len(),
    {
        self.entries.len()
    }

    /// Stores `value` under `name`, replacing an earlier value of that name.
    pub fn insert(&mut self, name: String, value: HeaderValue)
        ensures
            final(self)@ == upsert(old(self)@, name@, value@),
            distinct_names(final(self)@),
    {
        proof {
            use_type_invariant(&*self);
        }
        let ghost before = self@;
        let mut i: usize = 0;
        while i < self.entries.len()
            invariant
                i <= self.entries.len(),
                self@ == before,
                distinct_names(before),
                forall|j: int| 0 <= j < i ==> #[trigger] before[j].0 != name@,
            ensures
                i <= self.entries.len(),
                self@ == before,
                forall|j: int| 0 <= j < i ==> #[trigger] before[j].0 != name@,
                i < self.entries.len() ==> before[i as int].0 == name@,
            decreases self.entries.len() - i,
        {
            if self.entries[i].0 == name {
                break;
            }
            i = i + 1;
        }
        let mut entries = Vec::new();
        std::mem::swap(&mut entries, &mut self.entries);
        if i < entries.len() {
            assert(before[i as int].0 == name@);
            assert(has_name(before, name@));
            let ghost k = choose|k: int| 0 <= k < before.len() && #[trigger] before[k].0 == name@;
            assert(k == i);
            entries.set(i, (name, value));
            assert(entries_view(entries@) =~= upsert(before, name@, value@));
        } else {
            assert(!has_name(before, name@));
            entries.push((name, value));
            assert(entries_view(entries@) =~= upsert(before, name@, value@));
        }
        self.entries = entries;
    }
}


/// Header entries as the host reports them: each name with its values, as bytes.
pub type RawHeaders = Seq<(Seq<u8>, Seq<Seq<u8>>)>;

pub open spec fn raw_view(v: Seq<(Vec<u8>, Vec<Vec<u8>>)>) -> RawHeaders {
    v.map_values(|e: (Vec<u8>, Vec<Vec<u8>>)| (e.0@, e.1@.map_values(|b: Vec<u8>| b@)))
}

/// The name under which a reported header is stored: decoded, ASCII letters in lower case.
pub open spec fn header_key(name: Seq<u8>) -> Seq<char> {
    ascii_lower(lossy_text(name))
}

/// The value stored for a reported header: `Null` for no value, the text for
/// one value, the list of texts for several.
pub open spec fn header_value_of(values: Seq<Seq<u8>>) -> HeaderView {
    if values.len() == 0 {
        HeaderView::Null
    } else if values.len() == 1 {
        HeaderView::Single(lossy_text(values[0]))
    } else {
        HeaderView::List(values.map_values(|b: Seq<u8>| lossy_text(b)))
    }
}

/// The table built from reported headers, a later name replacing the value
/// of an earlier one that lower-cases to the same key.
pub open spec fn collect_raw(raw: RawHeaders) -> HeaderTable
    decreases raw.len(),
{
    if raw.len() == 0 {
        Seq::empty()
    } else {
        upsert(collect_raw(raw.drop_last()), header_key(raw.last().0), header_value_of(raw.last().1))
    }
}

/// The value stored for given texts: `Null`, one text, or the list.
pub open spec fn texts_value(values: Seq<Seq<char>>) -> HeaderView {
    if values.len() == 0 {
        HeaderView::Null
    } else if values.len() == 1 {
        HeaderView::Single(values[0])
    } else {
        HeaderView::List(values)
    }
}

pub open spec fn pairs_view(v: Seq<(String, Vec<String>)>) -> Seq<(Seq<char>, Seq<Seq<char>>)> {
    v.map_values(|e: (String, Vec<String>)| (e.0@, texts_view(e.1@)))
}

/// The table built from (name, values) pairs taken as they are, a later pair
/// replacing an earlier one of the same name.
pub open spec fn collect_pairs(pairs: Seq<(Seq<char>, Seq<Seq<char>>)>) -> HeaderTable
    decreases pairs.len(),
{
    if pairs.len() == 0 {
        Seq::empty()
    } else {
        upsert(collect_pairs(pairs.drop_last()), pairs.last().0, texts_value(pairs.last().1))
    }
}

/// Decodes every value of a reported header.
fn decode_values(values: &Vec<Vec<u8>>) -> (r: Vec<String>)
    ensures
        r@.len() == values@.len(),
        forall|k: int| 0 <= k < values@.len() ==> #[trigger] r@[k]@ == lossy_text(values@[k]@),
{
    let mut out: Vec<String> = Vec::new();
    let mut i: usize = 0;
    while i < values.len()
        invariant
            i <= values.len(),
            out@.len() == i,
            forall|k: int| 0 <= k < i ==> #[trigger] out@[k]@ == lossy_text(values@[k]@),
        decreases values.len() - i,
    {
        let s = lossy_string(values[i].as_slice());
        out.push(s);
        i = i + 1;
    }
    out
}

/// The value of a reported header, from its values as bytes.
fn value_from_raw(values: &Vec<Vec<u8>>) -> (r: HeaderValue)
    ensures
        r@ == header_value_of(values@.map_values(|b: Vec<u8>| b@)),
{
    if values.len() == 0 {
        HeaderValue::Null
    } else if values.len() == 1 {
        HeaderValue::Single(lossy_string(values[0].as_slice()))
    } else {
        let texts = decode_values(values);
        assert(texts_view(texts@) =~= values@.map_values(|b: Vec<u8>| b@).map_values(|b: Seq<u8>| lossy_text(b)));
        HeaderValue::List(texts)
    }
}

/// The value for given texts.
fn value_from_texts(values: Vec<String>) -> (r: HeaderValue)
    ensures
        r@ == texts_value(texts_view(values@)),
{
    if values.len() == 0 {
        HeaderValue::Null
    } else if values.len() == 1 {
        let mut values = values;
        let v = values.pop().unwrap();
        HeaderValue::Single(v)
    } else {
        HeaderValue::List(values)
    }
}

impl Headers {
    /// Builds the header table from what the host reports: names decoded and
    /// ASCII-lower-cased, values decoded (invalid UTF-8 replaced), no value
    /// giving `Null`, one value its text, several values the list. A later
    /// name that lower-cases to an earlier one replaces its value.
    pub fn from_raw(raw: &Vec<(Vec<u8>, Vec<Vec<u8>>)>) -> (h: Headers)
        ensures
            h@ == collect_raw(raw_view(raw@)),
    {
        let mut h = Headers::new();
        let mut i: usize = 0;
        while i < raw.len()
            invariant
                i <= raw.len(),
                h@ == collect_raw(raw_view(raw@).take(i as int)),
            decreases raw.len() - i,
        {
            let name = lossy_string(raw[i].0.as_slice());
            let key = to_ascii_lower(name.as_str());
            let value = value_from_raw(&raw[i].1);
            h.insert(key, value);
            assert(raw_view(raw@).take(i + 1).drop_last() =~= raw_view(raw@).take(i as int));
            i = i + 1;
        }
        assert(raw_view(raw@).take(raw.len() as int) =~= raw_view(raw@));
        h
    }

    /// Builds the header table from (name, values) pairs taken as they are:
    /// no value gives `Null`, one value its text, several the list; a later
    /// pair replaces an earlier one of the same name.
    pub fn from_pairs(pairs: Vec<(String, Vec<String>)>) -> (h: Headers)
        ensures
            h@ == collect_pairs(pairs_view(pairs@)),
    {
        let mut h = Headers::new();
        let ghost all = pairs_view(pairs@);
        let mut rest = pairs;
        let n = rest.len();
        let mut i: usize = 0;
        while i < n
            invariant
                i <= n,
                n == all.len(),
                pairs_view(rest@) == all.skip(i as int),
                h@ == collect_pairs(all.take(i as int)),
            decreases n - i,
        {
            let ghost before = rest@;
            assert(pairs_view(before).len() == before.len());
            assert(all.skip(i as int).len() == n - i);
            assert(before.len() == n - i);
            assert(pairs_view(before)[0] == all[i as int]);
            let (name, values) = rest.remove(0);
            assert(rest@ =~= before.drop_first());
            assert(pairs_view(rest@) =~= pairs_view(before).drop_first());
            assert(all.skip(i as int).drop_first() =~= all.skip(i + 1));
            h.insert(name, value_from_texts(values));
            assert(all.take(i + 1).drop_last() =~= all.take(i as int));
            assert(pairs_view(rest@) =~= all.skip(i + 1));
            i = i + 1;
        }
        assert(all.take(n as int) =~= all);
        h
    }
}


impl Headers {
    /// The value stored under `name`, if any.
    pub fn get(&self, name: &str) -> (r: Option<&HeaderValue>)
        ensures
            match r {
                Some(v) => lookup(self@, name@) == Some(v@),
                None => lookup(self@, name@) is None,
            },
    {
        proof {
            use_type_invariant(self);
        }
        let key = name.to_string();
        let mut i: usize = 0;
        while i < self.entries.len()
            invariant
                i <= self.entries.len(),
                key@ == name@,
                distinct_names(self@),
                forall|j: int| 0 <= j < i ==> #[trigger] self@[j].0 != name@,
            decreases self.entries.len() - i,
        {
            if self.entries[i].0 == key {
                assert(self@[i as int].0 == name@);
                assert(has_name(self@, name@));
                let ghost k = choose|k: int| 0 <= k < self@.len() && #[trigger] self@[k].0 == name@;
                assert(k == i);
                return Some(&self.entries[i].1);
            }
            i = i + 1;
        }
        None
    }
}

/// The mathematical form of a `Request`.
pub struct RequestView {
    pub path: Seq<char>,
    pub method: Seq<char>,
    pub version: Seq<char>,
    pub headers: HeaderTable,
    pub source_ip: Seq<char>,
}

/// The request that the host's report describes: the texts of the path,
/// method and version (invalid UTF-8 replaced), the headers as `collect_raw`
/// makes them, and the client address `source_ip`.
pub open spec fn host_view(
    uri: Seq<u8>,
    method: Seq<u8>,
    version: Seq<u8>,
    source_ip: Seq<char>,
    headers: Seq<(Vec<u8>, Vec<Vec<u8>>)>,
) -> RequestView {
    RequestView {
        path: lossy_text(uri),
        method: lossy_text(method),
        version: lossy_text(version),
        headers: collect_raw(raw_view(headers)),
        source_ip,
    }
}

/// A request as the rules see it: path, method, protocol version, headers
/// and the client address.
pub struct Request {
    path: String,
    method: String,
    version: String,
    headers: Headers,
    pub source_ip: String,
}

impl View for Request {
    type V = RequestView;

    closed spec fn view(&self) -> RequestView {
        RequestView {
            path: self.path@,
            method: self.method@,
            version: self.version@,
            headers: self.headers@,
            source_ip: self.source_ip@,
        }
    }
}

/// What follows the request line in the log form: the user agent in quotes
/// where the request has exactly one, non-empty, `user-agent` value; ` -` otherwise.
pub open spec fn agent_suffix(headers: HeaderTable) -> Seq<char> {
    match lookup(headers, "user-agent"@) {
        Some(HeaderView::Single(ua)) => if ua.len() > 0 {
            " \""@ + ua + "\""@
        } else {
            " -"@
        },
        _ => " -"@,
    }
}

/// The log form of a request: `source_ip "METHOD path VERSION"` followed by the
/// user agent, e.g. `127.0.0.1 "GET /foo HTTP/1.1" "curl/8.0"`.
pub open spec fn display_text(r: RequestView) -> Seq<char> {
    r.source_ip + " \""@ + r.method + " "@ + r.path + " "@ + r.version + "\""@ + agent_suffix(r.headers)
}

impl Request {
    /// A request from its parts, taken as they are.
    pub fn from_parts(source_ip: &str, path: &str, method: &str, version: &str, headers: Headers) -> (r: Request)
        ensures
            r@ == (RequestView {
                path: path@,
                method: method@,
                version: version@,
                headers: headers@,
                source_ip: source_ip@,
            }),
    {
        Request {
            path: path.to_string(),
            method: method.to_string(),
            version: version.to_string(),
            headers,
            source_ip: source_ip.to_string(),
        }
    }

    /// A request from what the host reports, as bytes: the URI (the path the
    /// rules see), method, protocol version, source socket address and header
    /// entries. Texts are decoded with invalid UTF-8 replaced; the client
    /// address is the IP part of the source address (see `parse_socket_addr`),
    /// and the request is refused exactly when that cannot be read.
    pub fn from_host(
        uri: &[u8],
        method: &[u8],
        version: &[u8],
        source_addr: &[u8],
        headers: &Vec<(Vec<u8>, Vec<Vec<u8>>)>,
    ) -> (r: Result<Request, AddrError>)
        ensures
            match r {
                Ok(req) => {
                    &&& source_ip_of(source_addr@) == Ok::<Seq<char>, AddrError>(req@.source_ip)
                    &&& req@ == host_view(uri@, method@, version@, req@.source_ip, headers@)
                },
                Err(e) => source_ip_of(source_addr@) == Err::<Seq<char>, AddrError>(e),
            },
    {
        let source_ip = match parse_socket_addr(source_addr) {
            Ok(ip) => ip,
            Err(e) => {
                return Err(e);
            },
        };
        Ok(Request {
            path: lossy_string(uri),
            method: lossy_string(method),
            version: lossy_string(version),
            headers: Headers::from_raw(headers),
            source_ip,
        })
    }

    /// The headers of the request.
    pub fn headers(&self) -> (h: &Headers)
        ensures
            h@ == self@.headers,
    {
        &self.headers
    }

    /// The same request with another client address.
    pub fn with_source_ip(self, source_ip: String) -> (r: Request)
        ensures
            r@ == (RequestView { source_ip: source_ip@, ..self@ }),
    {
        let mut r = self;
        r.source_ip = source_ip;
        r
    }

    /// The log form of the request; see `display_text`.
    pub fn display(&self) -> (s: String)
        ensures
            s@ == display_text(self@),
    {
        let mut out = self.source_ip.clone();
        out.append(" \"");
        out.append(self.method.as_str());
        out.append(" ");
        out.append(self.path.as_str());
        out.append(" ");
        out.append(self.version.as_str());
        out.append("\"");
        match self.headers.get("user-agent") {
            Some(HeaderValue::Single(ua)) => {
                if ua.as_str().is_empty() {
                    out.append(" -");
                } else {
                    out.append(" \"");
                    out.append(ua.as_str());
                    out.append("\"");
                }
            },
            _ => {
                out.append(" -");
            },
        }
        out
    }
}


proof fn lemma_upsert(t: HeaderTable, name: Seq<char>, value: HeaderView, k: Seq<char>)
    requires
        distinct_names(t),
    ensures
        distinct_names(upsert(t, name, value)),
        lookup(upsert(t, name, value), k) == if name == k { Some(value) } else { lookup(t, k) },
{
    let u = upsert(t, name, value);
    if has_name(t, name) {
        let i = choose|i: int| 0 <= i < t.len() && #[trigger] t[i].0 == name;
        assert forall|a: int, b: int| 0 <= a < u.len() && 0 <= b < u.len() && a != b
            implies #[trigger] u[a].0 != #[trigger] u[b].0 by {
            assert(t[a].0 != t[b].0);
        }
        assert(u[i].0 == name);
        if name == k {
            assert(has_name(u, k));
        } else {
            if has_name(t, k) {
                let j = choose|j: int| 0 <= j < t.len() && #[trigger] t[j].0 == k;
                assert(u[j].0 == k);
                assert(has_name(u, k));
            } else {
                assert(!has_name(u, k)) by {
                    if has_name(u, k) {
                        let j = choose|j: int| 0 <= j < u.len() && #[trigger] u[j].0 == k;
                        assert(t[j].0 == k);
                    }
                }
            }
        }
    } else {
        assert forall|a: int, b: int| 0 <= a < u.len() && 0 <= b < u.len() && a != b
            implies #[trigger] u[a].0 != #[trigger] u[b].0 by {
            if a < t.len() && b < t.len() {
                assert(t[a].0 != t[b].0);
            } else if a < t.len() {
                assert(t[a].0 != name);
            } else if b < t.len() {
                assert(t[b].0 != name);
            }
        }
        let last = t.len() as int;
        assert(u[last].0 == name);
        if name == k {
            assert(has_name(u, k));
        } else {
            if has_name(t, k) {
                let j = choose|j: int| 0 <= j < t.len() && #[trigger] t[j].0 == k;
                assert(u[j].0 == k);
                assert(has_name(u, k));
            } else {
                assert(!has_name(u, k)) by {
                    if has_name(u, k) {
                        let j = choose|j: int| 0 <= j < u.len() && #[trigger] u[j].0 == k;
                        if j < t.len() {
                            assert(t[j].0 == k);
                        }
                    }
                }
            }
        }
    }
}

/// The value that reported headers give for key `k`: that of the last
/// reported header whose name maps to `k`, if any.
pub open spec fn last_reported(raw: RawHeaders, k: Seq<char>) -> Option<HeaderView>
    decreases raw.len(),
{
    if raw.len() == 0 {
        None
    } else if header_key(raw.last().0) == k {
        Some(header_value_of(raw.last().1))
    } else {
        last_reported(raw.drop_last(), k)
    }
}

/// Reading a header back gives what the host reported last under that name,
/// compared without regard to ASCII case; and every name is stored once.
pub proof fn header_lookup_gives_last_reported(raw: RawHeaders, k: Seq<char>)
    ensures
        distinct_names(collect_raw(raw)),
        lookup(collect_raw(raw), k) == last_reported(raw, k),
    decreases raw.len(),
{
    if raw.len() > 0 {
        header_lookup_gives_last_reported(raw.drop_last(), k);
        lemma_upsert(collect_raw(raw.drop_last()), header_key(raw.last().0), header_value_of(raw.last().1), k);
    } else {
        assert(!has_name(collect_raw(raw), k));
    }
}

proof fn lemma_ascii_lower_idempotent(s: Seq<char>)
    ensures
        ascii_lower(ascii_lower(s)) == ascii_lower(s),
{
    assert forall|i: int| 0 <= i < s.len() implies #[trigger] ascii_lower(ascii_lower(s))[i] == ascii_lower(s)[i] by {
        let c = s[i];
        if 'A' <= c && c <= 'Z' {
            assert((c as u8) + 32 >= 97);
        }
    }
    assert(ascii_lower(ascii_lower(s)) =~= ascii_lower(s));
}

/// Header names are stored in lower case: every name in a table built from
/// reported headers is left unchanged by ASCII lower-casing.
pub proof fn stored_header_names_are_lower_case(raw: RawHeaders)
    ensures
        forall|i: int| 0 <= i < collect_raw(raw).len() ==> ascii_lower(#[trigger] collect_raw(raw)[i].0) == collect_raw(raw)[i].0,
    decreases raw.len(),
{
    if raw.len() > 0 {
        stored_header_names_are_lower_case(raw.drop_last());
        let t = collect_raw(raw.drop_last());
        let name = header_key(raw.last().0);
        lemma_ascii_lower_idempotent(lossy_text(raw.last().0));
        let u = collect_raw(raw);
        assert forall|i: int| 0 <= i < u.len() implies ascii_lower(#[trigger] u[i].0) == u[i].0 by {
            if u[i].0 != name {
                assert(u[i] == t[i]);
            }
        }
    }
}

impl HeaderValue {
    /// The value in the expression language: `null`, a string, or a list of strings.
    #[verifier::external_body]
    pub(crate) fn cel_value(&self) -> cel::Value {
        match self {
            HeaderValue::Null => cel::Value::Null,
            HeaderValue::Single(s) => cel::Value::String(Arc::new(s.clone())),
            HeaderValue::List(l) => cel::Value::List(Arc::new(
                l.iter().map(|s| cel::Value::String(Arc::new(s.clone()))).collect(),
            )),
        }
    }
}

/// A field of the request as the rules see it: a text, or the header map.
#[derive(Debug, Clone, PartialEq, Eq)]
pub enum FieldData {
    Text(String),
    Headers(Vec<(String, HeaderValue)>),
}

/// The mathematical form of a `FieldData`.
pub enum FieldView {
    Text(Seq<char>),
    Headers(HeaderTable),
}

impl View for FieldData {
    type V = FieldView;

    open spec fn view(&self) -> FieldView {
        match self {
            FieldData::Text(s) => FieldView::Text(s@),
            FieldData::Headers(v) => FieldView::Headers(entries_view(v@)),
        }
    }
}

/// What the rules see of a request: the value bound to `request`, a map from
/// field name to field.
pub type RequestValue = Seq<(Seq<char>, FieldView)>;

/// The value bound to `request` in the rules, as plain data.
#[derive(Debug, Clone, PartialEq, Eq)]
pub struct RequestData {
    pub fields: Vec<(String, FieldData)>,
}

impl View for RequestData {
    type V = RequestValue;

    open spec fn view(&self) -> RequestValue {
        self.fields@.map_values(|f: (String, FieldData)| (f.0@, f.1@))
    }
}

/// The value the rules see as `request`: the keys `path`, `method`, `version`
/// and `source_ip`, each bound to that text, and `headers`, bound to the header map.
pub open spec fn request_value(r: RequestView) -> RequestValue {
    seq![
        ("path"@, FieldView::Text(r.path)),
        ("method"@, FieldView::Text(r.method)),
        ("version"@, FieldView::Text(r.version)),
        ("source_ip"@, FieldView::Text(r.source_ip)),
        ("headers"@, FieldView::Headers(r.headers)),
    ]
}

fn copy_texts(v: &Vec<String>) -> (r: Vec<String>)
    ensures
        texts_view(r@) == texts_view(v@),
{
    let mut out: Vec<String> = Vec::new();
    let mut i: usize = 0;
    while i < v.len()
        invariant
            i <= v.len(),
            out@.len() == i,
            forall|k: int| 0 <= k < i ==> #[trigger] out@[k]@ == v@[k]@,
        decreases v.len() - i,
    {
        out.push(v[i].clone());
        i = i + 1;
    }
    assert(texts_view(out@) =~= texts_view(v@));
    out
}

impl HeaderValue {
    /// A copy of the value.
    pub fn copy(&self) -> (r: HeaderValue)
        ensures
            r@ == self@,
    {
        match self {
            HeaderValue::Null => HeaderValue::Null,
            HeaderValue::Single(s) => HeaderValue::Single(s.clone()),
            HeaderValue::List(l) => HeaderValue::List(copy_texts(l)),
        }
    }
}

impl Headers {
    /// A copy of the entries, in order.
    pub fn entries(&self) -> (r: Vec<(String, HeaderValue)>)
        ensures
            entries_view(r@) == self@,
    {
        let mut out: Vec<(String, HeaderValue)> = Vec::new();
        let mut i: usize = 0;
        while i < self.entries.len()
            invariant
                i <= self.entries.len(),
                out@.len() == i,
                forall|k: int| 0 <= k < i ==> (#[trigger] out@[k]).0@ == self.entries@[k].0@ && out@[k].1@ == self.entries@[k].1@,
            decreases self.entries.len() - i,
        {
            let name = self.entries[i].0.clone();
            let value = self.entries[i].1.copy();
            out.push((name, value));
            i = i + 1;
        }
        assert(entries_view(out@) =~= self@);
        out
    }
}

impl Request {
    /// The value the rules see as `request`; see `request_value`.
    pub fn data(&self) -> (d: RequestData)
        ensures
            d@ == request_value(self@),
    {
        let mut fields: Vec<(String, FieldData)> = Vec::new();
        fields.push(("path".to_string(), FieldData::Text(self.path.clone())));
        fields.push(("method".to_string(), FieldData::Text(self.method.clone())));
        fields.push(("version".to_string(), FieldData::Text(self.version.clone())));
        fields.push(("source_ip".to_string(), FieldData::Text(self.source_ip.clone())));
        fields.push(("headers".to_string(), FieldData::Headers(self.headers.entries())));
        let d = RequestData { fields };
        assert(d@ =~= request_value(self@));
        d
    }
}

impl RequestData {
    /// The same value in the expression language's terms: a map from each
    /// field name to a string, or to a map from header name to header value.
    #[verifier::external_body]
    pub(crate) fn cel_value(&self) -> cel::Value {
        let key = |k: &String| cel::objects::Key::String(Arc::new(k.clone()));
        let map: HashMap<cel::objects::Key, cel::Value> = self.fields.iter().map(|(name, field)| (key(name), match field {
            FieldData::Text(s) => cel::Value::String(Arc::new(s.clone())),
            FieldData::Headers(entries) => cel::Value::Map(cel::objects::Map { map: Arc::new(
                entries.iter().map(|(k, v)| (key(k), v.cel_value())).collect(),
            ) }),
        })).collect();
        cel::Value::Map(cel::objects::Map { map: Arc::new(map) })
    }
}

} // verus!
