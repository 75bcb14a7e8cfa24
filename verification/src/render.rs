//! The response renderer: status line, normalized and sorted header
//! block, synthesized content length, and content-type-aware body text.

use vstd::prelude::*;
use heck::ToTitleCase;
use crate::bytes::{dec_of, push_bytes, u64_to_dec};
use crate::order::{lex_leq, lines_view, sort_lines};
use crate::session::kv_view;

verus! {

/// The protocol version of a received response.
#[derive(Debug, Clone, Copy, PartialEq, Eq, Structural)]
pub enum HttpVersion {
    V09,
    V10,
    V11,
    V2,
    V3,
}

/// The display label of a protocol version.
pub open spec fn version_label(v: HttpVersion) -> Seq<u8> {
    match v {
        HttpVersion::V09 => seq![72u8, 84u8, 84u8, 80u8, 47u8, 48u8, 46u8, 57u8],
        HttpVersion::V10 => seq![72u8, 84u8, 84u8, 80u8, 47u8, 49u8, 46u8, 48u8],
        HttpVersion::V11 => seq![72u8, 84u8, 84u8, 80u8, 47u8, 49u8, 46u8, 49u8],
        HttpVersion::V2 => seq![72u8, 84u8, 84u8, 80u8, 47u8, 50u8, 46u8, 48u8],
        HttpVersion::V3 => seq![72u8, 84u8, 84u8, 80u8, 47u8, 51u8, 46u8, 48u8],
    }
}

/// Writes the version label.
pub fn version_bytes(v: HttpVersion) -> (r: Vec<u8>)
    ensures
        r@ == version_label(v),
{
    let mut r: Vec<u8> = Vec::new();
    r.push(72u8);
    r.push(84u8);
    r.push(84u8);
    r.push(80u8);
    r.push(47u8);
    match v {
        HttpVersion::V09 => {
            r.push(48u8);
            r.push(46u8);
            r.push(57u8);
        },
        HttpVersion::V10 => {
            r.push(49u8);
            r.push(46u8);
            r.push(48u8);
        },
        HttpVersion::V11 => {
            r.push(49u8);
            r.push(46u8);
            r.push(49u8);
        },
        HttpVersion::V2 => {
            r.push(50u8);
            r.push(46u8);
            r.push(48u8);
        },
        HttpVersion::V3 => {
            r.push(51u8);
            r.push(46u8);
            r.push(48u8);
        },
    }
    proof {
        assert(r@ =~= version_label(v));
    }
    r
}

/// What `heck`'s title casing returns for the bytes of a header name.
pub uninterp spec fn title_case_of(s: Seq<u8>) -> Seq<u8>;

/// Relies on heck's to_title_case: splits a name into words and
/// capitalizes them; the result depends on the characters alone.
#[verifier::external_body]
fn title_case_bytes(s: &[u8]) -> (r: Vec<u8>)
    ensures
        r@ == title_case_of(s@),
{
    String::from_utf8_lossy(s).to_title_case().into_bytes()
}

/// Spaces become hyphens, so a title-cased name reads as a header name.
pub open spec fn replace_sp(s: Seq<u8>) -> Seq<u8> {
    s.map(|i: int, b: u8| if b == 32 { 45u8 } else { b })
}

fn replace_spaces(s: &Vec<u8>) -> (r: Vec<u8>)
    ensures
        r@ == replace_sp(s@),
{
    let mut r: Vec<u8> = Vec::new();
    let mut i: usize = 0;
    while i < s.len()
        invariant
            i <= s@.len(),
            r@.len() == i,
            forall|j: int| 0 <= j < i ==> r@[j] == replace_sp(s@)[j],
        decreases s@.len() - i,
    {
        let b = s[i];
        if b == 32u8 {
            r.push(45u8);
        } else {
            r.push(b);
        }
        i = i + 1;
    }
    proof {
        assert(r@ =~= replace_sp(s@));
    }
    r
}

/// A header value that can be shown as text: visible ASCII, spaces and
/// tabs, the same bytes the HTTP stack renders as a string.
pub open spec fn printable(v: Seq<u8>) -> bool {
    forall|i: int| 0 <= i < v.len() ==> (32 <= #[trigger] v[i] <= 126 || v[i] == 9)
}

fn printable_exec(v: &[u8]) -> (r: bool)
    ensures
        r == printable(v@),
{
    let mut i: usize = 0;
    while i < v.len()
        invariant
            i <= v@.len(),
            forall|j: int| 0 <= j < i ==> (32 <= #[trigger] v@[j] <= 126 || v@[j] == 9),
        decreases v@.len() - i,
    {
        if (v[i] < 32 || v[i] > 126) && v[i] != 9 {
            return false;
        }
        i = i + 1;
    }
    true
}

/// The placeholder shown for a value that is not printable text.
pub open spec fn bad_value_label() -> Seq<u8> {
    seq![
        66u8,
        65u8,
        68u8,
        32u8,
        72u8,
        69u8,
        65u8,
        68u8,
        69u8,
        82u8,
        32u8,
        86u8,
        65u8,
        76u8,
        85u8,
        69u8,
    ]
}

/// How a header value is displayed.
pub open spec fn display_value(v: Seq<u8>) -> Seq<u8> {
    if printable(v) {
        v
    } else {
        bad_value_label()
    }
}

/// One displayed header line: the normalized name, a colon and space,
/// and the displayable value.
pub open spec fn header_line(k: Seq<u8>, v: Seq<u8>) -> Seq<u8> {
    replace_sp(title_case_of(k)) + seq![58u8, 32u8] + display_value(v)
}

fn norm_line(k: &Vec<u8>, v: &Vec<u8>) -> (r: Vec<u8>)
    ensures
        r@ == header_line(k@, v@),
{
    let t = title_case_bytes(k.as_slice());
    let mut r = replace_spaces(&t);
    r.push(58u8);
    r.push(32u8);
    if printable_exec(v.as_slice()) {
        push_bytes(&mut r, v.as_slice());
    } else {
        r.push(66u8);
        r.push(65u8);
        r.push(68u8);
        r.push(32u8);
        r.push(72u8);
        r.push(69u8);
        r.push(65u8);
        r.push(68u8);
        r.push(69u8);
        r.push(82u8);
        r.push(32u8);
        r.push(86u8);
        r.push(65u8);
        r.push(76u8);
        r.push(85u8);
        r.push(69u8);
    }
    proof {
        assert(r@ =~= header_line(k@, v@));
    }
    r
}

/// The name of the synthesized length header.
pub open spec fn content_length_name() -> Seq<u8> {
    seq![
        67u8,
        111u8,
        110u8,
        116u8,
        101u8,
        110u8,
        116u8,
        45u8,
        76u8,
        101u8,
        110u8,
        103u8,
        116u8,
        104u8,
    ]
}

/// The synthesized length line.
pub open spec fn content_length_line(n: nat) -> Seq<u8> {
    content_length_name() + seq![58u8, 32u8] + dec_of(n)
}

fn make_content_length_line(n: u64) -> (r: Vec<u8>)
    ensures
        r@ == content_length_line(n as nat),
{
    let mut r: Vec<u8> = Vec::new();
    r.push(67u8);
    r.push(111u8);
    r.push(110u8);
    r.push(116u8);
    r.push(101u8);
    r.push(110u8);
    r.push(116u8);
    r.push(45u8);
    r.push(76u8);
    r.push(101u8);
    r.push(110u8);
    r.push(103u8);
    r.push(116u8);
    r.push(104u8);
    r.push(58u8);
    r.push(32u8);
    let d = u64_to_dec(n);
    push_bytes(&mut r, d.as_slice());
    proof {
        assert(r@ =~= content_length_line(n as nat));
    }
    r
}

/// What the HTTP stack's table gives as the canonical reason phrase of a
/// status code.
pub uninterp spec fn reason_of(code: u16) -> Option<Seq<u8>>;

/// Relies on reqwest's StatusCode::from_u16 and canonical_reason: a
/// fixed table from code to phrase.
#[verifier::external_body]
pub(crate) fn reason_phrase(code: u16) -> (r: Option<Vec<u8>>)
    ensures
        r is Some <==> reason_of(code) is Some,
        r matches Some(v) ==> reason_of(code) == Some(v@),
{
    reqwest::StatusCode::from_u16(code).ok().and_then(|s| s.canonical_reason()).map(
        |t| t.as_bytes().to_vec(),
    )
}

/// The fallback reason label.
pub open spec fn unknown_label() -> Seq<u8> {
    seq![117u8, 110u8, 107u8, 110u8, 111u8, 119u8, 110u8]
}

/// The status line: version, code, reason phrase (or the fallback), and
/// a newline.
pub open spec fn status_head(v: HttpVersion, code: u16) -> Seq<u8> {
    version_label(v) + seq![32u8] + dec_of(code as nat) + seq![32u8] + (match reason_of(code) {
        Some(r) => r,
        None => unknown_label(),
    }) + seq![10u8]
}

/// All displayed header lines before sorting: every received header,
/// and a synthesized length line, computed from the buffered body's
/// byte length, only when the transport reported no length of its own.
pub open spec fn all_lines(hs: Seq<(Seq<u8>, Seq<u8>)>, reported: Option<u64>, body_len: u64) -> Seq<
    Seq<u8>,
> {
    let base = hs.map(|i: int, p: (Seq<u8>, Seq<u8>)| header_line(p.0, p.1));
    match reported {
        Some(_) => base,
        None => base.push(content_length_line(body_len as nat)),
    }
}

/// Lines joined by newlines, no trailing newline.
pub open spec fn join_nl(ls: Seq<Seq<u8>>) -> Seq<u8>
    decreases ls.len(),
{
    if ls.len() == 0 {
        Seq::empty()
    } else if ls.len() == 1 {
        ls[0]
    } else {
        join_nl(ls.drop_last()) + seq![10u8] + ls.last()
    }
}

/// The whole header block: status line, then the normalized header
/// lines in byte-lexicographic order.
pub open spec fn spec_head_block(
    v: HttpVersion,
    code: u16,
    hs: Seq<(Seq<u8>, Seq<u8>)>,
    reported: Option<u64>,
    body_len: u64,
) -> Seq<u8> {
    status_head(v, code) + join_nl(all_lines(hs, reported, body_len).sort_by(lex_leq()))
}

fn join_lines(ls: &Vec<Vec<u8>>) -> (r: Vec<u8>)
    ensures
        r@ == join_nl(lines_view(ls@)),
{
    let ghost lv = lines_view(ls@);
    let mut r: Vec<u8> = Vec::new();
    if ls.len() == 0 {
        proof {
            assert(r@ =~= join_nl(lv));
        }
        return r;
    }
    push_bytes(&mut r, ls[0].as_slice());
    proof {
        assert(lv.subrange(0, 1) =~= seq![lv[0]]);
        assert(r@ =~= join_nl(lv.subrange(0, 1)));
    }
    let mut i: usize = 1;
    while i < ls.len()
        invariant
            1 <= i <= ls@.len(),
            lv == lines_view(ls@),
            lv.len() == ls@.len(),
            r@ == join_nl(lv.subrange(0, i as int)),
        decreases ls@.len() - i,
    {
        r.push(10u8);
        push_bytes(&mut r, ls[i].as_slice());
        i = i + 1;
        proof {
            let pre = lv.subrange(0, i as int);
            assert(pre.len() >= 2);
            assert(pre.drop_last() =~= lv.subrange(0, i - 1));
            assert(pre.last() == lv[i - 1]);
            assert(r@ =~= join_nl(pre));
        }
    }
    proof {
        assert(lv.subrange(0, lv.len() as int) =~= lv);
    }
    r
}

/// Renders the header block: status line first, then every received
/// header (names title-cased with hyphens, unprintable values replaced),
/// sorted byte-lexicographically, with a content-length line synthesized
/// from the buffered body only when the transport reported none.
pub fn render_head(
    version: HttpVersion,
    status: u16,
    headers: &Vec<(Vec<u8>, Vec<u8>)>,
    content_length: Option<u64>,
    body_len: u64,
) -> (r: Vec<u8>)
    ensures
        r@ == spec_head_block(version, status, kv_view(headers@), content_length, body_len),
{
    let ghost hs = kv_view(headers@);
    let mut lines: Vec<Vec<u8>> = Vec::new();
    let mut i: usize = 0;
    while i < headers.len()
        invariant
            i <= headers@.len(),
            hs == kv_view(headers@),
            hs.len() == headers@.len(),
            lines_view(lines@).len() == i,
            forall|j: int|
                0 <= j < i ==> lines_view(lines@)[j] == header_line(
                    #[trigger] hs[j].0,
                    hs[j].1,
                ),
        decreases headers@.len() - i,
    {
        let line = norm_line(&headers[i].0, &headers[i].1);
        lines.push(line);
        i = i + 1;
        proof {
            assert(hs[i - 1] == (headers@[i - 1].0@, headers@[i - 1].1@));
        }
    }
    match content_length {
        Some(_) => {},
        None => {
            let cl_line = make_content_length_line(body_len);
            lines.push(cl_line);
        },
    }
    proof {
        assert(lines_view(lines@) =~= all_lines(hs, content_length, body_len));
    }
    let sorted = sort_lines(lines);
    let mut out = version_bytes(version);
    out.push(32u8);
    let digits = u64_to_dec(status as u64);
    push_bytes(&mut out, digits.as_slice());
    out.push(32u8);
    match reason_phrase(status) {
        Some(rp) => {
            push_bytes(&mut out, rp.as_slice());
        },
        None => {
            out.push(117u8);
            out.push(110u8);
            out.push(107u8);
            out.push(110u8);
            out.push(111u8);
            out.push(119u8);
            out.push(110u8);
            proof {
                assert(out@ =~= version_label(version) + seq![32u8] + dec_of(status as nat)
                    + seq![32u8] + unknown_label());
            }
        },
    }
    out.push(10u8);
    proof {
        assert(out@ =~= status_head(version, status));
    }
    let joined = join_lines(&sorted);
    push_bytes(&mut out, joined.as_slice());
    out
}

/// What re-serializing the body as a sorted, pretty-printed JSON object
/// gives, when the body parses as one.
pub uninterp spec fn json_pretty_of(s: Seq<u8>) -> Option<Seq<u8>>;

/// Relies on serde_json's from_slice into an ordered string-keyed map
/// and to_string_pretty: a deterministic re-rendering with keys in
/// lexicographic order; nothing when the body is not a JSON object.
/// Writing a string-keyed map of already-parsed values to a string
/// cannot fail, so there is no error outcome.
#[verifier::external_body]
fn try_pretty_json(body: &[u8]) -> (r: Option<Vec<u8>>)
    ensures
        r is Some <==> json_pretty_of(body@) is Some,
        r matches Some(v) ==> json_pretty_of(body@) == Some(v@),
{
    let parsed: Result<std::collections::BTreeMap<String, serde_json::Value>, _> =
        serde_json::from_slice(body);
    parsed.ok().and_then(|map| serde_json::to_string_pretty(&map).ok()).map(|s| s.into_bytes())
}

/// The body as displayed, with whether it was recognized as JSON.
#[derive(Debug, PartialEq, Eq)]
pub struct RenderedBody {
    pub text: Vec<u8>,
    pub is_json: bool,
}

/// Chooses between a pretty-printed JSON rendering and the untouched
/// body text.
pub fn render_body_with(pretty: Option<Vec<u8>>, body: &Vec<u8>) -> (r: RenderedBody)
    ensures
        match pretty {
            Some(p) => r.text@ == p@ && r.is_json,
            None => r.text@ == body@ && !r.is_json,
        },
{
    match pretty {
        Some(p) => RenderedBody { text: p, is_json: true },
        None => RenderedBody { text: crate::session::clone_bytes(body), is_json: false },
    }
}

/// Renders the body: a JSON object is re-serialized with sorted keys and
/// pretty indentation; anything else is passed through verbatim. Neither
/// path is an error.
pub fn render_body(body: &Vec<u8>) -> (r: RenderedBody)
    ensures
        match json_pretty_of(body@) {
            Some(p) => r.text@ == p && r.is_json,
            None => r.text@ == body@ && !r.is_json,
        },
{
    let pretty = try_pretty_json(body.as_slice());
    render_body_with(pretty, body)
}

} // verus!
