//! The parameter model: one CLI-supplied key/value item, and the rule for
//! splitting a raw `key<sep>value` token on its earliest recognized
//! separator.

use vstd::prelude::*;
use crate::bytes::bytes_range;
use crate::errors::Error;

verus! {

/// One request-construction item, as parsed from a raw token.
#[derive(Debug, PartialEq, Eq)]
pub enum Parameter {
    /// `key==value`: a query-string entry.
    Query { key: Vec<u8>, value: Vec<u8> },
    /// `key=value` or `key:=value`: a body field; `json_typed` marks the
    /// second form, whose value is a raw JSON fragment.
    Data { key: Vec<u8>, value: Vec<u8>, json_typed: bool },
    /// `key:value`: a request header.
    Header { key: Vec<u8>, value: Vec<u8> },
    /// `key@path`: a form field attached from a file; valid only in form
    /// mode.
    FormFile { key: Vec<u8>, filename: Vec<u8> },
}

/// Which separator a scan position starts.
#[derive(Debug, Clone, Copy, PartialEq, Eq, Structural)]
pub enum SepKind {
    Query,
    DataJson,
    Data,
    File,
    Header,
}

/// The separator starting at position `i` of `s`, if any. At one position
/// the two-byte forms win over their one-byte prefixes; `@` counts only in
/// form mode.
pub open spec fn sep_kind_at(s: Seq<u8>, i: int, form: bool) -> Option<SepKind> {
    if 0 <= i < s.len() {
        if i + 1 < s.len() && s[i] == 61u8 && s[i + 1] == 61u8 {
            Some(SepKind::Query)
        } else if i + 1 < s.len() && s[i] == 58u8 && s[i + 1] == 61u8 {
            Some(SepKind::DataJson)
        } else if s[i] == 61u8 {
            Some(SepKind::Data)
        } else if form && s[i] == 64u8 {
            Some(SepKind::File)
        } else if s[i] == 58u8 {
            Some(SepKind::Header)
        } else {
            None
        }
    } else {
        None
    }
}

/// How many bytes the separator occupies.
pub open spec fn sep_width(k: SepKind) -> int {
    match k {
        SepKind::Query => 2,
        SepKind::DataJson => 2,
        _ => 1,
    }
}

/// The earliest separator position at or after `i`.
pub open spec fn first_sep_from(s: Seq<u8>, form: bool, i: int) -> Option<int>
    decreases s.len() - i,
{
    if i < 0 || i >= s.len() {
        None
    } else if sep_kind_at(s, i, form) is Some {
        Some(i)
    } else {
        first_sep_from(s, form, i + 1)
    }
}

/// `p` is the parameter split out of `s` at separator position `i`.
pub open spec fn param_splits(p: Parameter, s: Seq<u8>, i: int, form: bool) -> bool {
    match sep_kind_at(s, i, form) {
        Some(k) => {
            let key = s.subrange(0, i);
            let rest = s.subrange(i + sep_width(k), s.len() as int);
            match k {
                SepKind::Query => p matches Parameter::Query { key: pk, value: pv } && pk@ == key
                    && pv@ == rest,
                SepKind::DataJson => p matches Parameter::Data { key: pk, value: pv, json_typed }
                    && pk@ == key && pv@ == rest && json_typed,
                SepKind::Data => p matches Parameter::Data { key: pk, value: pv, json_typed }
                    && pk@ == key && pv@ == rest && !json_typed,
                SepKind::File => p matches Parameter::FormFile { key: pk, filename: pf } && pk@
                    == key && pf@ == rest,
                SepKind::Header => p matches Parameter::Header { key: pk, value: pv } && pk@ == key
                    && pv@ == rest,
            }
        },
        None => false,
    }
}

/// What parsing a raw token must yield.
pub open spec fn parse_ok(r: Result<Parameter, Error>, s: Seq<u8>, form: bool) -> bool {
    match first_sep_from(s, form, 0) {
        Some(i) => r matches Ok(p) && param_splits(p, s, i, form),
        None => if !form && (exists|j: int| 0 <= j < s.len() && s[j] == 64u8) {
            r == Result::<Parameter, Error>::Err(Error::NotFormButHasFormFile)
        } else {
            r matches Err(e) && e matches Error::ParameterMissingSeparator(t) && t@ == s
        },
    }
}

proof fn lemma_first_sep_skip(s: Seq<u8>, form: bool, i: int)
    requires
        0 <= i < s.len(),
        sep_kind_at(s, i, form) is None,
    ensures
        first_sep_from(s, form, i) == first_sep_from(s, form, i + 1),
{
}

/// Splits a raw token on its earliest separator, scanning left to right.
/// Without form mode, a token whose only separator would be `@` is the
/// use error for file fields; one with no separator at all is a parse
/// error carrying the token.
pub fn parse(raw: &[u8], form: bool) -> (r: Result<Parameter, Error>)
    ensures
        parse_ok(r, raw@, form),
{
    let n = raw.len();
    let mut i: usize = 0;
    let mut saw_at: bool = false;
    while i < n
        invariant
            i <= n,
            n == raw@.len(),
            first_sep_from(raw@, form, 0) == first_sep_from(raw@, form, i as int),
            saw_at == (exists|j: int| 0 <= j < i && raw@[j] == 64u8),
        decreases n - i,
    {
        let c = raw[i];
        if c == 61u8 && i + 1 < n && raw[i + 1] == 61u8 {
            let key = bytes_range(raw, 0, i);
            let value = bytes_range(raw, i + 2, n);
            return Ok(Parameter::Query { key, value });
        } else if c == 58u8 && i + 1 < n && raw[i + 1] == 61u8 {
            let key = bytes_range(raw, 0, i);
            let value = bytes_range(raw, i + 2, n);
            return Ok(Parameter::Data { key, value, json_typed: true });
        } else if c == 61u8 {
            let key = bytes_range(raw, 0, i);
            let value = bytes_range(raw, i + 1, n);
            return Ok(Parameter::Data { key, value, json_typed: false });
        } else if form && c == 64u8 {
            let key = bytes_range(raw, 0, i);
            let filename = bytes_range(raw, i + 1, n);
            return Ok(Parameter::FormFile { key, filename });
        } else if c == 58u8 {
            let key = bytes_range(raw, 0, i);
            let value = bytes_range(raw, i + 1, n);
            return Ok(Parameter::Header { key, value });
        }
        if c == 64u8 {
            saw_at = true;
        }
        i = i + 1;
        proof {
            lemma_first_sep_skip(raw@, form, i - 1);
        }
    }
    if !form && saw_at {
        return Err(Error::NotFormButHasFormFile);
    }
    let mut token: Vec<u8> = Vec::new();
    crate::bytes::push_bytes(&mut token, raw);
    proof {
        assert(token@ =~= raw@);
    }
    Err(Error::ParameterMissingSeparator(token))
}

/// Whether the parameter is a body (Data) field.
pub fn is_data(p: &Parameter) -> (r: bool)
    ensures
        r == (p matches Parameter::Data { .. }),
{
    match p {
        Parameter::Data { .. } => true,
        _ => false,
    }
}

/// The earliest-position separator wins: if position `i` starts a
/// separator and no earlier position does, parsing splits the token
/// exactly there.
pub proof fn lemma_earliest_separator_wins(
    r: Result<Parameter, Error>,
    s: Seq<u8>,
    form: bool,
    i: int,
)
    requires
        parse_ok(r, s, form),
        0 <= i < s.len(),
        sep_kind_at(s, i, form) is Some,
        forall|j: int| 0 <= j < i ==> sep_kind_at(s, j, form) is None,
    ensures
        r matches Ok(p) && param_splits(p, s, i, form),
{
    lemma_first_sep_at(s, form, 0, i);
}

proof fn lemma_first_sep_at(s: Seq<u8>, form: bool, a: int, i: int)
    requires
        0 <= a <= i < s.len(),
        sep_kind_at(s, i, form) is Some,
        forall|j: int| a <= j < i ==> sep_kind_at(s, j, form) is None,
    ensures
        first_sep_from(s, form, a) == Some(i),
    decreases i - a,
{
    if a < i {
        lemma_first_sep_at(s, form, a + 1, i);
    }
}

/// A token with no separator bytes at all parses to the missing-separator
/// error carrying the token, in either mode.
pub proof fn lemma_no_separator_is_rejected(r: Result<Parameter, Error>, s: Seq<u8>, form: bool)
    requires
        parse_ok(r, s, form),
        forall|j: int| 0 <= j < s.len() ==> s[j] != 61u8 && s[j] != 58u8 && s[j] != 64u8,
    ensures
        r matches Err(e) && e matches Error::ParameterMissingSeparator(t) && t@ == s,
{
    lemma_no_sep_scan(s, form, 0);
}

proof fn lemma_no_sep_scan(s: Seq<u8>, form: bool, i: int)
    requires
        0 <= i,
        forall|j: int| 0 <= j < s.len() ==> s[j] != 61u8 && s[j] != 58u8 && s[j] != 64u8,
    ensures
        first_sep_from(s, form, i) is None,
    decreases s.len() - i,
{
    if i < s.len() {
        lemma_no_sep_scan(s, form, i + 1);
    }
}

} // verus!
