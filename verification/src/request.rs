//! The request builder: turns a method, a target URL, the ordered
//! parameter list and an optional active session into a fully specified
//! outgoing request.

use vstd::prelude::*;
use crate::errors::Error;
use crate::param::Parameter;
use crate::session::{kv_view, Session};
use crate::session::{clone_bytes, clone_entries};

verus! {

/// What serde_json returns for these bytes as a JSON string value:
/// quoted and escaped.
pub uninterp spec fn json_string_of(s: Seq<u8>) -> Seq<u8>;

/// Relies on serde_json's to_string of a string: the quoted, escaped
/// JSON string of these bytes; writing a string cannot fail.
#[verifier::external_body]
fn json_string_bytes(s: &Vec<u8>) -> (r: Vec<u8>)
    ensures
        r@ == json_string_of(s@),
{
    let text = String::from_utf8_lossy(s).into_owned();
    serde_json::to_string(&text).unwrap_or_default().into_bytes()
}

/// What serde_json gives for these bytes as a raw JSON fragment: the
/// normalized fragment when they parse as JSON, nothing otherwise.
pub uninterp spec fn json_fragment_of(v: Seq<u8>) -> Option<Seq<u8>>;

/// Relies on serde_json's from_slice into a Value and to_string: a
/// deterministic parse-and-rewrite of a fragment (nested object keys
/// sort); nothing when the bytes are not valid JSON.
#[verifier::external_body]
fn json_fragment_bytes(v: &Vec<u8>) -> (r: Option<Vec<u8>>)
    ensures
        r is Some <==> json_fragment_of(v@) is Some,
        r matches Some(f) ==> json_fragment_of(v@) == Some(f@),
{
    let parsed: Result<serde_json::Value, _> = serde_json::from_slice(v);
    parsed.ok().and_then(|val| serde_json::to_string(&val).ok()).map(|s| s.into_bytes())
}

/// One serialized object member: the escaped key, a colon, and the
/// value — a raw fragment when the field is json-typed and its bytes
/// parse as JSON, the escaped string of the bytes otherwise.
pub open spec fn json_field_bytes(e: (Seq<u8>, Seq<u8>, bool)) -> Seq<u8> {
    json_string_of(e.0) + seq![58u8] + (if e.2 {
        match json_fragment_of(e.1) {
            Some(f) => f,
            None => json_string_of(e.1),
        }
    } else {
        json_string_of(e.1)
    })
}

/// The serialized members in encounter order, comma-separated.
pub open spec fn json_fields_joined(entries: Seq<(Seq<u8>, Seq<u8>, bool)>) -> Seq<u8>
    decreases entries.len(),
{
    if entries.len() == 0 {
        Seq::empty()
    } else if entries.len() == 1 {
        json_field_bytes(entries[0])
    } else {
        json_fields_joined(entries.drop_last()) + seq![44u8] + json_field_bytes(entries.last())
    }
}

/// The whole serialized JSON body: the members in encounter order
/// inside braces.
pub open spec fn json_body_bytes(entries: Seq<(Seq<u8>, Seq<u8>, bool)>) -> Seq<u8> {
    seq![123u8] + json_fields_joined(entries) + seq![125u8]
}

fn push_json_field(out: &mut Vec<u8>, key: &Vec<u8>, value: &Vec<u8>, json_typed: bool)
    ensures
        final(out)@ == old(out)@ + json_field_bytes((key@, value@, json_typed)),
{
    let k = json_string_bytes(key);
    crate::bytes::push_bytes(out, k.as_slice());
    out.push(58u8);
    if json_typed {
        match json_fragment_bytes(value) {
            Some(f) => {
                crate::bytes::push_bytes(out, f.as_slice());
            },
            None => {
                let v = json_string_bytes(value);
                crate::bytes::push_bytes(out, v.as_slice());
            },
        }
    } else {
        let v = json_string_bytes(value);
        crate::bytes::push_bytes(out, v.as_slice());
    }
    proof {
        assert(out@ =~= old(out)@ + json_field_bytes((key@, value@, json_typed)));
    }
}

/// Serializes the JSON object body: members in encounter order, each
/// key escaped, each value a raw fragment or an escaped string per its
/// type flag.
fn serialize_json_body(entries: &Vec<(Vec<u8>, Vec<u8>, bool)>) -> (r: Vec<u8>)
    ensures
        r@ == json_body_bytes(triple_view(entries@)),
{
    let ghost ev = triple_view(entries@);
    let mut out: Vec<u8> = Vec::new();
    out.push(123u8);
    proof {
        assert(ev.subrange(0, 0) =~= Seq::<(Seq<u8>, Seq<u8>, bool)>::empty());
        assert(out@ =~= seq![123u8] + json_fields_joined(ev.subrange(0, 0)));
    }
    let mut i: usize = 0;
    while i < entries.len()
        invariant
            i <= entries@.len(),
            ev == triple_view(entries@),
            ev.len() == entries@.len(),
            out@ == seq![123u8] + json_fields_joined(ev.subrange(0, i as int)),
        decreases entries@.len() - i,
    {
        if i > 0 {
            out.push(44u8);
        }
        push_json_field(&mut out, &entries[i].0, &entries[i].1, entries[i].2);
        i = i + 1;
        proof {
            let pre = ev.subrange(0, i as int);
            assert(ev[i - 1] == (entries@[i - 1].0@, entries@[i - 1].1@, entries@[i - 1].2));
            assert(pre.last() == ev[i - 1]);
            if i == 1 {
                assert(pre =~= seq![ev[0]]);
                assert(out@ =~= seq![123u8] + json_fields_joined(pre));
            } else {
                assert(pre.drop_last() =~= ev.subrange(0, i - 1));
                assert(out@ =~= seq![123u8] + json_fields_joined(pre));
            }
        }
    }
    out.push(125u8);
    proof {
        assert(ev.subrange(0, ev.len() as int) =~= ev);
        assert(out@ =~= json_body_bytes(ev));
    }
    out
}

/// What url::Url::parse gives for the target: its host on success, the
/// parser's message otherwise.
pub uninterp spec fn url_host_result(s: Seq<u8>) -> Result<Seq<u8>, Seq<u8>>;

/// Relies on url's Url::parse and host_str: a deterministic parse of
/// the target string.
#[verifier::external_body]
fn url_host(s: &[u8]) -> (r: Result<Vec<u8>, Vec<u8>>)
    ensures
        match r {
            Ok(h) => url_host_result(s@) matches Ok(hh) && hh == h@,
            Err(m) => url_host_result(s@) matches Err(mm) && mm == m@,
        },
{
    match url::Url::parse(&String::from_utf8_lossy(s)) {
        Ok(u) => Ok(u.host_str().unwrap_or("").as_bytes().to_vec()),
        Err(e) => Err(e.to_string().into_bytes()),
    }
}

/// The target's host, for session identity; a malformed URL is the
/// parse error carrying the parser's message.
pub fn host_of_url(url: &[u8]) -> (r: Result<Vec<u8>, Error>)
    ensures
        match url_host_result(url@) {
            Ok(h) => r matches Ok(v) && v@ == h,
            Err(m) => r matches Err(e) && e matches Error::UrlParseError(d) && d@ == m,
        },
{
    match url_host(url) {
        Ok(h) => Ok(h),
        Err(m) => Err(Error::UrlParseError(m)),
    }
}

/// Pairwise distinct keys in a JSON field list.
pub open spec fn unique3(e: Seq<(Seq<u8>, Seq<u8>, bool)>) -> bool {
    forall|i: int, j: int| 0 <= i < j < e.len() ==> e[i].0 != e[j].0
}

/// The value (and type flag) bound to key `k`, if present.
pub open spec fn value3(e: Seq<(Seq<u8>, Seq<u8>, bool)>, k: Seq<u8>) -> Option<(Seq<u8>, bool)> {
    match find_key3_from(e, k, 0) {
        Some(i) => Some((e[i].1, e[i].2)),
        None => None,
    }
}

/// The value of the last Data parameter with key `k`, if any.
pub open spec fn last_data_value(ps: Seq<Parameter>, k: Seq<u8>) -> Option<(Seq<u8>, bool)>
    decreases ps.len(),
{
    if ps.len() == 0 {
        None
    } else {
        let rest = last_data_value(ps.drop_first(), k);
        if rest is Some {
            rest
        } else {
            match ps[0] {
                Parameter::Data { key, value, json_typed } => if key@ == k {
                    Some((value@, json_typed))
                } else {
                    None
                },
                _ => None,
            }
        }
    }
}

proof fn lemma_find_key3_absent(e: Seq<(Seq<u8>, Seq<u8>, bool)>, k: Seq<u8>, i: int)
    requires
        0 <= i,
        find_key3_from(e, k, i) is None,
    ensures
        forall|j: int| i <= j < e.len() ==> e[j].0 != k,
    decreases e.len() - i,
{
    if i < e.len() {
        lemma_find_key3_absent(e, k, i + 1);
    }
}

proof fn lemma_find_key3_first(e: Seq<(Seq<u8>, Seq<u8>, bool)>, k: Seq<u8>, i: int, r: int)
    requires
        0 <= i,
        find_key3_from(e, k, i) == Some(r),
    ensures
        i <= r < e.len(),
        e[r].0 == k,
        forall|j: int| i <= j < r ==> e[j].0 != k,
    decreases e.len() - i,
{
    if i < e.len() && e[i].0 != k {
        lemma_find_key3_first(e, k, i + 1, r);
    }
}

proof fn lemma_find_key3_at(e: Seq<(Seq<u8>, Seq<u8>, bool)>, k: Seq<u8>, a: int, i: int)
    requires
        0 <= a <= i < e.len(),
        e[i].0 == k,
        forall|j: int| a <= j < i ==> e[j].0 != k,
    ensures
        find_key3_from(e, k, a) == Some(i),
    decreases i - a,
{
    if a < i {
        lemma_find_key3_at(e, k, a + 1, i);
    }
}

proof fn lemma_find_key3_pointwise(
    e: Seq<(Seq<u8>, Seq<u8>, bool)>,
    m: Seq<(Seq<u8>, Seq<u8>, bool)>,
    k: Seq<u8>,
    a: int,
)
    requires
        0 <= a,
        e.len() == m.len(),
        forall|j: int| 0 <= j < e.len() ==> ((#[trigger] e[j].0 == k) <==> (#[trigger] m[j].0
            == k)),
    ensures
        find_key3_from(e, k, a) == find_key3_from(m, k, a),
    decreases e.len() - a,
{
    if a < e.len() {
        lemma_find_key3_pointwise(e, m, k, a + 1);
    }
}

proof fn lemma_merge3_value(
    e: Seq<(Seq<u8>, Seq<u8>, bool)>,
    k: Seq<u8>,
    v: Seq<u8>,
    t: bool,
    k2: Seq<u8>,
)
    requires
        unique3(e),
    ensures
        unique3(merge3_one(e, k, v, t)),
        value3(merge3_one(e, k, v, t), k) == Some((v, t)),
        k2 != k ==> value3(merge3_one(e, k, v, t), k2) == value3(e, k2),
    decreases e.len(),
{
    let m = merge3_one(e, k, v, t);
    match find_key3_from(e, k, 0) {
        Some(i) => {
            lemma_find_key3_first(e, k, 0, i);
            assert(m == e.update(i, (k, v, t)));
            assert(unique3(m)) by {
                assert forall|a: int, b: int| 0 <= a < b < m.len() implies m[a].0 != m[b].0 by {
                    assert(e[a].0 != e[b].0);
                }
            }
            lemma_find_key3_at(m, k, 0, i);
            assert(value3(m, k) == Some((v, t)));
            if k2 != k {
                assert forall|j: int| 0 <= j < e.len() implies ((#[trigger] e[j].0 == k2) <==> (
                #[trigger] m[j].0 == k2)) by {}
                lemma_find_key3_pointwise(e, m, k2, 0);
                match find_key3_from(e, k2, 0) {
                    Some(i2) => {
                        lemma_find_key3_first(e, k2, 0, i2);
                        assert(i2 != i);
                        assert(m[i2] == e[i2]);
                    },
                    None => {},
                }
            }
        },
        None => {
            lemma_find_key3_absent(e, k, 0);
            assert(m == e.push((k, v, t)));
            assert(unique3(m)) by {
                assert forall|a: int, b: int| 0 <= a < b < m.len() implies m[a].0 != m[b].0 by {
                    if b < e.len() {
                        assert(e[a].0 != e[b].0);
                    } else {
                        assert(e[a].0 != k);
                    }
                }
            }
            lemma_find_key3_at(m, k, 0, e.len() as int);
            assert(value3(m, k) == Some((v, t)));
            if k2 != k {
                lemma_find_key3_push(e, (k, v, t), k2, 0);
                match find_key3_from(e, k2, 0) {
                    Some(i2) => {
                        lemma_find_key3_first(e, k2, 0, i2);
                        assert(m[i2] == e[i2]);
                    },
                    None => {},
                }
            }
        },
    }
}

proof fn lemma_find_key3_push(
    e: Seq<(Seq<u8>, Seq<u8>, bool)>,
    x: (Seq<u8>, Seq<u8>, bool),
    k2: Seq<u8>,
    a: int,
)
    requires
        0 <= a,
        x.0 != k2,
    ensures
        find_key3_from(e.push(x), k2, a) == find_key3_from(e, k2, a),
    decreases e.len() + 1 - a,
{
    let m = e.push(x);
    if a < e.len() {
        assert(m[a] == e[a]);
        lemma_find_key3_push(e, x, k2, a + 1);
    } else if a == e.len() {
        assert(m[a] == x);
        assert(find_key3_from(m, k2, a + 1) is None);
        assert(find_key3_from(e, k2, a) is None);
    }
}

/// Last value wins: the JSON body built from a parameter list has
/// pairwise distinct keys, and binds each key exactly when some Data
/// parameter carries it, to the value (and type flag) of the last such
/// parameter.
pub proof fn lemma_json_body_last_value_wins(ps: Seq<Parameter>, k: Seq<u8>)
    ensures
        unique3(json_fold(Seq::empty(), ps)),
        value3(json_fold(Seq::empty(), ps), k) == last_data_value(ps, k),
{
    assert(find_key3_from(Seq::empty(), k, 0) is None);
    lemma_json_fold_last_wins(Seq::empty(), ps, k);
}

proof fn lemma_json_fold_last_wins(
    acc: Seq<(Seq<u8>, Seq<u8>, bool)>,
    ps: Seq<Parameter>,
    k: Seq<u8>,
)
    requires
        unique3(acc),
    ensures
        unique3(json_fold(acc, ps)),
        value3(json_fold(acc, ps), k) == (match last_data_value(ps, k) {
            Some(p) => Some(p),
            None => value3(acc, k),
        }),
    decreases ps.len(),
{
    if ps.len() > 0 {
        match ps[0] {
            Parameter::Data { key, value, json_typed } => {
                let acc2 = merge3_one(acc, key@, value@, json_typed);
                lemma_merge3_value(acc, key@, value@, json_typed, k);
                lemma_json_fold_last_wins(acc2, ps.drop_first(), k);
            },
            _ => {
                lemma_json_fold_last_wins(acc, ps.drop_first(), k);
            },
        }
    }
}

/// Serializes a request body: a JSON body becomes the serialized
/// object's bytes, its members in field encounter order; a multipart or
/// absent body has no byte serialization here.
pub fn serialize_body(b: &Body) -> (r: Option<Vec<u8>>)
    ensures
        match b {
            Body::Json(entries) => r matches Some(v) && v@ == json_body_bytes(
                triple_view(entries@),
            ),
            _ => r is None,
        },
{
    match b {
        Body::Json(entries) => Some(serialize_json_body(entries)),
        _ => None,
    }
}

/// The HTTP method of the outgoing request.
#[derive(Debug, Clone, Copy, PartialEq, Eq, Structural)]
pub enum Method {
    Get,
    Post,
    Put,
    Delete,
    Head,
    Options,
    Patch,
}

/// One multipart form part: a plain field, or a field attached from a
/// file.
#[derive(Debug, PartialEq, Eq)]
pub enum FormPart {
    Field { key: Vec<u8>, value: Vec<u8> },
    File { key: Vec<u8>, filename: Vec<u8> },
}

/// The request body: none, a JSON object of `(key, value, json_typed)`
/// fields, or multipart form parts.
#[derive(Debug, PartialEq, Eq)]
pub enum Body {
    Empty,
    Json(Vec<(Vec<u8>, Vec<u8>, bool)>),
    Form(Vec<FormPart>),
}

/// A fully specified outgoing request, built fresh per invocation.
#[derive(Debug, PartialEq, Eq)]
pub struct Request {
    pub method: Method,
    pub url: Vec<u8>,
    pub query: Vec<(Vec<u8>, Vec<u8>)>,
    pub headers: Vec<(Vec<u8>, Vec<u8>)>,
    pub body: Body,
}

/// The spec-level picture of a triple list.
pub open spec fn triple_view(e: Seq<(Vec<u8>, Vec<u8>, bool)>) -> Seq<(Seq<u8>, Seq<u8>, bool)> {
    e.map(|i: int, p: (Vec<u8>, Vec<u8>, bool)| (p.0@, p.1@, p.2))
}

/// The spec-level picture of form parts: `(is_file, key, value)`.
pub open spec fn form_view(e: Seq<FormPart>) -> Seq<(bool, Seq<u8>, Seq<u8>)> {
    e.map(
        |i: int, p: FormPart|
            match p {
                FormPart::Field { key, value } => (false, key@, value@),
                FormPart::File { key, filename } => (true, key@, filename@),
            },
    )
}

/// Query parameters in encounter order, duplicates preserved.
pub open spec fn queries_fold(
    acc: Seq<(Seq<u8>, Seq<u8>)>,
    ps: Seq<Parameter>,
) -> Seq<(Seq<u8>, Seq<u8>)>
    decreases ps.len(),
{
    if ps.len() == 0 {
        acc
    } else {
        let step = match ps[0] {
            Parameter::Query { key, value } => acc.push((key@, value@)),
            _ => acc,
        };
        queries_fold(step, ps.drop_first())
    }
}

/// Header parameters in encounter order, duplicates preserved.
pub open spec fn header_params_fold(
    acc: Seq<(Seq<u8>, Seq<u8>)>,
    ps: Seq<Parameter>,
) -> Seq<(Seq<u8>, Seq<u8>)>
    decreases ps.len(),
{
    if ps.len() == 0 {
        acc
    } else {
        let step = match ps[0] {
            Parameter::Header { key, value } => acc.push((key@, value@)),
            _ => acc,
        };
        header_params_fold(step, ps.drop_first())
    }
}

/// Whether any parameter is a body (Data) field.
pub open spec fn spec_has_data(ps: Seq<Parameter>) -> bool {
    exists|i: int| 0 <= i < ps.len() && (#[trigger] ps[i]) matches Parameter::Data { .. }
}

/// The position of key `k` in a JSON field list, if present.
pub open spec fn find_key3_from(e: Seq<(Seq<u8>, Seq<u8>, bool)>, k: Seq<u8>, i: int) -> Option<
    int,
>
    decreases e.len() - i,
{
    if i < 0 || i >= e.len() {
        None
    } else if e[i].0 == k {
        Some(i)
    } else {
        find_key3_from(e, k, i + 1)
    }
}

/// Inserting one JSON field: last value (and type flag) wins on a
/// duplicate key, which keeps its first position.
pub open spec fn merge3_one(
    e: Seq<(Seq<u8>, Seq<u8>, bool)>,
    k: Seq<u8>,
    v: Seq<u8>,
    t: bool,
) -> Seq<(Seq<u8>, Seq<u8>, bool)> {
    match find_key3_from(e, k, 0) {
        Some(i) => e.update(i, (k, v, t)),
        None => e.push((k, v, t)),
    }
}

/// The JSON body accumulated over the parameter list: Data fields merged
/// in encounter order, last value winning per key.
pub open spec fn json_fold(
    acc: Seq<(Seq<u8>, Seq<u8>, bool)>,
    ps: Seq<Parameter>,
) -> Seq<(Seq<u8>, Seq<u8>, bool)>
    decreases ps.len(),
{
    if ps.len() == 0 {
        acc
    } else {
        let step = match ps[0] {
            Parameter::Data { key, value, json_typed } => merge3_one(acc, key@, value@, json_typed),
            _ => acc,
        };
        json_fold(step, ps.drop_first())
    }
}

/// The first plain field with key `k` among the form parts, if any.
pub open spec fn find_field_from(e: Seq<(bool, Seq<u8>, Seq<u8>)>, k: Seq<u8>, i: int) -> Option<
    int,
>
    decreases e.len() - i,
{
    if i < 0 || i >= e.len() {
        None
    } else if !e[i].0 && e[i].1 == k {
        Some(i)
    } else {
        find_field_from(e, k, i + 1)
    }
}

/// The multipart body accumulated over the parameter list: Data fields
/// merged last-value-wins, file parts appended in encounter order. Form
/// mode takes precedence over the `:=` marking: a json-typed Data field
/// becomes an ordinary text field, its flag carrying no meaning here.
pub open spec fn form_fold(
    acc: Seq<(bool, Seq<u8>, Seq<u8>)>,
    ps: Seq<Parameter>,
) -> Seq<(bool, Seq<u8>, Seq<u8>)>
    decreases ps.len(),
{
    if ps.len() == 0 {
        acc
    } else {
        let step = match ps[0] {
            Parameter::Data { key, value, .. } => match find_field_from(acc, key@, 0) {
                Some(i) => acc.update(i, (false, key@, value@)),
                None => acc.push((false, key@, value@)),
            },
            Parameter::FormFile { key, filename } => acc.push((true, key@, filename@)),
            _ => acc,
        };
        form_fold(step, ps.drop_first())
    }
}

/// The outgoing `Cookie` header value: `name=value` pairs joined by
/// `"; "` in the session map's stored order.
pub open spec fn cookie_header_value(e: Seq<(Seq<u8>, Seq<u8>)>) -> Seq<u8>
    decreases e.len(),
{
    if e.len() == 0 {
        Seq::empty()
    } else if e.len() == 1 {
        e[0].0 + seq![61u8] + e[0].1
    } else {
        cookie_header_value(e.drop_last()) + seq![59u8, 32u8] + e.last().0 + seq![61u8] + e.last().1
    }
}

/// The name of the outgoing cookie header.
pub open spec fn cookie_header_name() -> Seq<u8> {
    seq![67u8, 111u8, 111u8, 107u8, 105u8, 101u8]
}

/// The session's default headers, the serialized cookie header when any
/// cookies exist, then the explicit header parameters, which override
/// both, last value winning per name.
pub open spec fn spec_request_headers(
    defaults: Seq<(Seq<u8>, Seq<u8>)>,
    cookies: Seq<(Seq<u8>, Seq<u8>)>,
    hdr_params: Seq<(Seq<u8>, Seq<u8>)>,
) -> Seq<(Seq<u8>, Seq<u8>)> {
    let base = if cookies.len() > 0 {
        defaults.push((cookie_header_name(), cookie_header_value(cookies)))
    } else {
        defaults
    };
    crate::session::merge_all(base, hdr_params)
}

/// The session's cookie map, empty without an active session.
pub open spec fn sess_cookies(s: Option<&Session>) -> Seq<(Seq<u8>, Seq<u8>)> {
    match s {
        Some(ss) => kv_view(ss.cookies@),
        None => Seq::empty(),
    }
}

/// The session's default-header map, empty without an active session.
pub open spec fn sess_headers(s: Option<&Session>) -> Seq<(Seq<u8>, Seq<u8>)> {
    match s {
        Some(ss) => kv_view(ss.headers@),
        None => Seq::empty(),
    }
}

/// What the built request's body must be.
pub open spec fn body_ok(b: Body, ps: Seq<Parameter>, form: bool) -> bool {
    if form {
        b matches Body::Form(parts) && form_view(parts@) == form_fold(Seq::empty(), ps)
    } else if spec_has_data(ps) {
        b matches Body::Json(entries) && triple_view(entries@) == json_fold(Seq::empty(), ps)
    } else {
        b matches Body::Empty
    }
}

/// The default method rule at the call site: POST when any Data
/// parameter is present, GET otherwise.
pub fn default_method(params: &Vec<Parameter>) -> (r: Method)
    ensures
        r == (if spec_has_data(params@) {
            Method::Post
        } else {
            Method::Get
        }),
{
    let mut i: usize = 0;
    while i < params.len()
        invariant
            i <= params@.len(),
            forall|j: int| 0 <= j < i ==> !((#[trigger] params@[j]) matches Parameter::Data { .. }),
        decreases params@.len() - i,
    {
        if crate::param::is_data(&params[i]) {
            return Method::Post;
        }
        i = i + 1;
    }
    Method::Get
}

/// Builds the outgoing request. Query entries keep encounter order and
/// duplicates; body fields merge last-value-wins; explicit headers
/// override session defaults and the serialized cookie header.
pub fn build(
    method: Method,
    url: Vec<u8>,
    params: &Vec<Parameter>,
    session: Option<&Session>,
    form: bool,
) -> (r: Request)
    requires
        !form ==> forall|i: int|
            0 <= i < params@.len() ==> !((#[trigger] params@[i]) matches Parameter::FormFile {
                ..
            }),
    ensures
        r.method == method,
        r.url@ == url@,
        kv_view(r.query@) == queries_fold(Seq::empty(), params@),
        kv_view(r.headers@) == spec_request_headers(
            sess_headers(session),
            sess_cookies(session),
            header_params_fold(Seq::empty(), params@),
        ),
        body_ok(r.body, params@, form),
{
    let query = collect_queries(params);
    let hdr_params = collect_header_params(params);
    let headers = assemble_headers(session, hdr_params);
    let body = if form {
        Body::Form(collect_form_parts(params))
    } else {
        let entries = collect_json_entries(params);
        proof {
            lemma_json_fold_empty_iff_no_data(params@);
        }
        if entries.len() > 0 {
            Body::Json(entries)
        } else {
            Body::Empty
        }
    };
    Request { method, url, query, headers, body }
}

proof fn lemma_json_fold_nonempty(acc: Seq<(Seq<u8>, Seq<u8>, bool)>, ps: Seq<Parameter>)
    requires
        acc.len() > 0,
    ensures
        json_fold(acc, ps).len() > 0,
    decreases ps.len(),
{
    if ps.len() > 0 {
        match ps[0] {
            Parameter::Data { key, value, json_typed } => {
                let m = merge3_one(acc, key@, value@, json_typed);
                match find_key3_from(acc, key@, 0) {
                    Some(i) => {
                        lemma_find_key3_present(acc, key@, 0, i);
                        assert(m.len() == acc.len());
                    },
                    None => {
                        assert(m.len() == acc.len() + 1);
                    },
                }
                lemma_json_fold_nonempty(m, ps.drop_first());
            },
            _ => {
                lemma_json_fold_nonempty(acc, ps.drop_first());
            },
        }
    }
}

proof fn lemma_json_fold_empty_iff_no_data(ps: Seq<Parameter>)
    ensures
        json_fold(Seq::empty(), ps).len() == 0 <==> !spec_has_data(ps),
    decreases ps.len(),
{
    if ps.len() > 0 {
        match ps[0] {
            Parameter::Data { key, value, json_typed } => {
                assert(find_key3_from(Seq::empty(), key@, 0) is None);
                let m = merge3_one(Seq::empty(), key@, value@, json_typed);
                assert(m.len() == 1);
                lemma_json_fold_nonempty(m, ps.drop_first());
            },
            _ => {
                lemma_json_fold_empty_iff_no_data(ps.drop_first());
                assert(spec_has_data(ps.drop_first()) ==> spec_has_data(ps)) by {
                    if spec_has_data(ps.drop_first()) {
                        let i = choose|i: int|
                            0 <= i < ps.drop_first().len() && (#[trigger] ps.drop_first()[i])
                                matches Parameter::Data { .. };
                        assert(ps[i + 1] == ps.drop_first()[i]);
                    }
                }
                assert(spec_has_data(ps) ==> spec_has_data(ps.drop_first())) by {
                    if spec_has_data(ps) {
                        let i = choose|i: int|
                            0 <= i < ps.len() && (#[trigger] ps[i]) matches Parameter::Data { .. };
                        assert(i >= 1);
                        assert(ps.drop_first()[i - 1] == ps[i]);
                    }
                }
            },
        }
    }
}

fn collect_queries(params: &Vec<Parameter>) -> (r: Vec<(Vec<u8>, Vec<u8>)>)
    ensures
        kv_view(r@) == queries_fold(Seq::empty(), params@),
{
    let mut r: Vec<(Vec<u8>, Vec<u8>)> = Vec::new();
    proof {
        assert(kv_view(r@) =~= Seq::<(Seq<u8>, Seq<u8>)>::empty());
        assert(params@.subrange(0, params@.len() as int) =~= params@);
    }
    let mut i: usize = 0;
    while i < params.len()
        invariant
            i <= params@.len(),
            queries_fold(Seq::empty(), params@) == queries_fold(
                kv_view(r@),
                params@.subrange(i as int, params@.len() as int),
            ),
        decreases params@.len() - i,
    {
        let ghost before = kv_view(r@);
        let ghost rest = params@.subrange(i as int, params@.len() as int);
        match &params[i] {
            Parameter::Query { key, value } => {
                let k = clone_bytes(key);
                let v = clone_bytes(value);
                r.push((k, v));
                proof {
                    assert(kv_view(r@) =~= before.push((params@[i as int]->Query_key@,
                    params@[i as int]->Query_value@)));
                }
            },
            _ => {},
        }
        i = i + 1;
        proof {
            assert(rest[0] == params@[i - 1]);
            assert(rest.drop_first() =~= params@.subrange(i as int, params@.len() as int));
        }
    }
    proof {
        assert(params@.subrange(params@.len() as int, params@.len() as int) =~= Seq::<
            Parameter,
        >::empty());
    }
    r
}

fn collect_header_params(params: &Vec<Parameter>) -> (r: Vec<(Vec<u8>, Vec<u8>)>)
    ensures
        kv_view(r@) == header_params_fold(Seq::empty(), params@),
{
    let mut r: Vec<(Vec<u8>, Vec<u8>)> = Vec::new();
    proof {
        assert(kv_view(r@) =~= Seq::<(Seq<u8>, Seq<u8>)>::empty());
        assert(params@.subrange(0, params@.len() as int) =~= params@);
    }
    let mut i: usize = 0;
    while i < params.len()
        invariant
            i <= params@.len(),
            header_params_fold(Seq::empty(), params@) == header_params_fold(
                kv_view(r@),
                params@.subrange(i as int, params@.len() as int),
            ),
        decreases params@.len() - i,
    {
        let ghost before = kv_view(r@);
        let ghost rest = params@.subrange(i as int, params@.len() as int);
        match &params[i] {
            Parameter::Header { key, value } => {
                let k = clone_bytes(key);
                let v = clone_bytes(value);
                r.push((k, v));
                proof {
                    assert(kv_view(r@) =~= before.push((params@[i as int]->Header_key@,
                    params@[i as int]->Header_value@)));
                }
            },
            _ => {},
        }
        i = i + 1;
        proof {
            assert(rest[0] == params@[i - 1]);
            assert(rest.drop_first() =~= params@.subrange(i as int, params@.len() as int));
        }
    }
    proof {
        assert(params@.subrange(params@.len() as int, params@.len() as int) =~= Seq::<
            Parameter,
        >::empty());
    }
    r
}

fn collect_json_entries(params: &Vec<Parameter>) -> (r: Vec<(Vec<u8>, Vec<u8>, bool)>)
    ensures
        triple_view(r@) == json_fold(Seq::empty(), params@),
{
    let mut r: Vec<(Vec<u8>, Vec<u8>, bool)> = Vec::new();
    proof {
        assert(triple_view(r@) =~= Seq::<(Seq<u8>, Seq<u8>, bool)>::empty());
        assert(params@.subrange(0, params@.len() as int) =~= params@);
    }
    let mut i: usize = 0;
    while i < params.len()
        invariant
            i <= params@.len(),
            json_fold(Seq::empty(), params@) == json_fold(
                triple_view(r@),
                params@.subrange(i as int, params@.len() as int),
            ),
        decreases params@.len() - i,
    {
        let ghost rest = params@.subrange(i as int, params@.len() as int);
        match &params[i] {
            Parameter::Data { key, value, json_typed } => {
                let k = clone_bytes(key);
                let v = clone_bytes(value);
                insert_json_entry(&mut r, k, v, *json_typed);
            },
            _ => {},
        }
        i = i + 1;
        proof {
            assert(rest[0] == params@[i - 1]);
            assert(rest.drop_first() =~= params@.subrange(i as int, params@.len() as int));
        }
    }
    proof {
        assert(params@.subrange(params@.len() as int, params@.len() as int) =~= Seq::<
            Parameter,
        >::empty());
    }
    r
}

proof fn lemma_find_key3_present(e: Seq<(Seq<u8>, Seq<u8>, bool)>, k: Seq<u8>, i: int, r: int)
    requires
        0 <= i,
        find_key3_from(e, k, i) == Some(r),
    ensures
        i <= r < e.len(),
        e[r].0 == k,
    decreases e.len() - i,
{
    if i < e.len() && e[i].0 != k {
        lemma_find_key3_present(e, k, i + 1, r);
    }
}

fn find_key3(entries: &Vec<(Vec<u8>, Vec<u8>, bool)>, k: &[u8]) -> (r: Option<usize>)
    ensures
        match r {
            Some(i) => find_key3_from(triple_view(entries@), k@, 0) == Some(i as int),
            None => find_key3_from(triple_view(entries@), k@, 0) is None,
        },
{
    let ghost e = triple_view(entries@);
    let mut i: usize = 0;
    while i < entries.len()
        invariant
            i <= entries@.len(),
            e == triple_view(entries@),
            e.len() == entries@.len(),
            find_key3_from(e, k@, 0) == find_key3_from(e, k@, i as int),
        decreases entries@.len() - i,
    {
        if crate::bytes::bytes_eq(entries[i].0.as_slice(), k) {
            return Some(i);
        }
        i = i + 1;
    }
    None
}

fn insert_json_entry(entries: &mut Vec<(Vec<u8>, Vec<u8>, bool)>, k: Vec<u8>, v: Vec<u8>, t: bool)
    ensures
        triple_view(final(entries)@) == merge3_one(triple_view(old(entries)@), k@, v@, t),
{
    let ghost before = triple_view(entries@);
    match find_key3(entries, k.as_slice()) {
        Some(i) => {
            proof {
                lemma_find_key3_present(before, k@, 0, i as int);
            }
            entries.set(i, (k, v, t));
            proof {
                assert(triple_view(entries@) =~= before.update(i as int, (before[i as int].0, v@,
                t)));
            }
        },
        None => {
            entries.push((k, v, t));
            proof {
                assert(triple_view(entries@) =~= before.push((k@, v@, t)));
            }
        },
    }
}

proof fn lemma_find_field_present(e: Seq<(bool, Seq<u8>, Seq<u8>)>, k: Seq<u8>, i: int, r: int)
    requires
        0 <= i,
        find_field_from(e, k, i) == Some(r),
    ensures
        i <= r < e.len(),
        !e[r].0 && e[r].1 == k,
    decreases e.len() - i,
{
    if i < e.len() && !(!e[i].0 && e[i].1 == k) {
        lemma_find_field_present(e, k, i + 1, r);
    }
}

fn find_field(parts: &Vec<FormPart>, k: &[u8]) -> (r: Option<usize>)
    ensures
        match r {
            Some(i) => find_field_from(form_view(parts@), k@, 0) == Some(i as int),
            None => find_field_from(form_view(parts@), k@, 0) is None,
        },
{
    let ghost e = form_view(parts@);
    let mut i: usize = 0;
    while i < parts.len()
        invariant
            i <= parts@.len(),
            e == form_view(parts@),
            e.len() == parts@.len(),
            find_field_from(e, k@, 0) == find_field_from(e, k@, i as int),
        decreases parts@.len() - i,
    {
        match &parts[i] {
            FormPart::Field { key, .. } => {
                if crate::bytes::bytes_eq(key.as_slice(), k) {
                    return Some(i);
                }
            },
            _ => {},
        }
        i = i + 1;
    }
    None
}

fn collect_form_parts(params: &Vec<Parameter>) -> (r: Vec<FormPart>)
    ensures
        form_view(r@) == form_fold(Seq::empty(), params@),
{
    let mut r: Vec<FormPart> = Vec::new();
    proof {
        assert(form_view(r@) =~= Seq::<(bool, Seq<u8>, Seq<u8>)>::empty());
        assert(params@.subrange(0, params@.len() as int) =~= params@);
    }
    let mut i: usize = 0;
    while i < params.len()
        invariant
            i <= params@.len(),
            form_fold(Seq::empty(), params@) == form_fold(
                form_view(r@),
                params@.subrange(i as int, params@.len() as int),
            ),
        decreases params@.len() - i,
    {
        let ghost before = form_view(r@);
        let ghost rest = params@.subrange(i as int, params@.len() as int);
        match &params[i] {
            Parameter::Data { key, value, .. } => {
                let k = clone_bytes(key);
                let v = clone_bytes(value);
                match find_field(&r, k.as_slice()) {
                    Some(j) => {
                        proof {
                            lemma_find_field_present(before, k@, 0, j as int);
                        }
                        r.set(j, FormPart::Field { key: k, value: v });
                        proof {
                            assert(form_view(r@) =~= before.update(j as int, (false,
                            params@[i as int]->Data_key@, params@[i as int]->Data_value@)));
                        }
                    },
                    None => {
                        r.push(FormPart::Field { key: k, value: v });
                        proof {
                            assert(form_view(r@) =~= before.push((false,
                            params@[i as int]->Data_key@, params@[i as int]->Data_value@)));
                        }
                    },
                }
            },
            Parameter::FormFile { key, filename } => {
                let k = clone_bytes(key);
                let f = clone_bytes(filename);
                r.push(FormPart::File { key: k, filename: f });
                proof {
                    assert(form_view(r@) =~= before.push((true, params@[i as int]->FormFile_key@,
                    params@[i as int]->FormFile_filename@)));
                }
            },
            _ => {},
        }
        i = i + 1;
        proof {
            assert(rest[0] == params@[i - 1]);
            assert(rest.drop_first() =~= params@.subrange(i as int, params@.len() as int));
        }
    }
    proof {
        assert(params@.subrange(params@.len() as int, params@.len() as int) =~= Seq::<
            Parameter,
        >::empty());
    }
    r
}

fn assemble_headers(session: Option<&Session>, hdr_params: Vec<(Vec<u8>, Vec<u8>)>) -> (r: Vec<
    (Vec<u8>, Vec<u8>),
>)
    ensures
        kv_view(r@) == spec_request_headers(
            sess_headers(session),
            sess_cookies(session),
            kv_view(hdr_params@),
        ),
{
    let mut base: Vec<(Vec<u8>, Vec<u8>)> = Vec::new();
    match session {
        Some(s) => {
            base = clone_entries(&s.headers);
            if s.cookies.len() > 0 {
                let value = build_cookie_value(&s.cookies);
                let mut name: Vec<u8> = Vec::new();
                name.push(67u8);
                name.push(111u8);
                name.push(111u8);
                name.push(107u8);
                name.push(105u8);
                name.push(101u8);
                proof {
                    assert(name@ =~= cookie_header_name());
                }
                base.push((name, value));
                proof {
                    assert(kv_view(base@) =~= kv_view(s.headers@).push(
                        (cookie_header_name(), cookie_header_value(kv_view(s.cookies@))),
                    ));
                }
            }
        },
        None => {
            proof {
                assert(kv_view(base@) =~= Seq::<(Seq<u8>, Seq<u8>)>::empty());
            }
        },
    }
    crate::session::merge_entries(&mut base, &hdr_params);
    base
}

/// Serializes the cookie map into one header value.
fn build_cookie_value(cookies: &Vec<(Vec<u8>, Vec<u8>)>) -> (r: Vec<u8>)
    requires
        cookies@.len() > 0,
    ensures
        r@ == cookie_header_value(kv_view(cookies@)),
{
    let ghost cv = kv_view(cookies@);
    let mut out: Vec<u8> = Vec::new();
    crate::bytes::push_bytes(&mut out, cookies[0].0.as_slice());
    out.push(61u8);
    crate::bytes::push_bytes(&mut out, cookies[0].1.as_slice());
    proof {
        assert(cv.subrange(0, 1) =~= seq![cv[0]]);
        assert(out@ =~= cookie_header_value(cv.subrange(0, 1)));
    }
    let mut i: usize = 1;
    while i < cookies.len()
        invariant
            1 <= i <= cookies@.len(),
            cv == kv_view(cookies@),
            cv.len() == cookies@.len(),
            out@ == cookie_header_value(cv.subrange(0, i as int)),
        decreases cookies@.len() - i,
    {
        out.push(59u8);
        out.push(32u8);
        crate::bytes::push_bytes(&mut out, cookies[i].0.as_slice());
        out.push(61u8);
        crate::bytes::push_bytes(&mut out, cookies[i].1.as_slice());
        i = i + 1;
        proof {
            let pre = cv.subrange(0, i as int);
            assert(pre.len() >= 2);
            assert(pre.drop_last() =~= cv.subrange(0, i - 1));
            assert(pre.last() == cv[i - 1]);
            assert(out@ =~= cookie_header_value(pre));
        }
    }
    proof {
        assert(cv.subrange(0, cv.len() as int) =~= cv);
    }
    out
}

} // verus!
