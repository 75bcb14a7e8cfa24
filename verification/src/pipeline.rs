//! The invocation pipeline: validating and parsing the raw tokens,
//! planning the request, and syncing the session from the received
//! response before anything is rendered.

use vstd::prelude::*;
use crate::errors::Error;
use crate::param::{parse, parse_ok, Parameter};
use crate::render::{render_head, spec_head_block, HttpVersion};
use crate::request::{build, default_method, spec_has_data, Method, Request};
use crate::session::{entries_wf, entry_wf, kv_view, merge_all, Session};

verus! {

/// Everything the core reads from a fully buffered response: protocol
/// facts, raw headers, the body, and the response-carried session
/// updates (cookies, and any configured default-header captures).
pub struct ResponseData {
    pub version: HttpVersion,
    pub status: u16,
    pub headers: Vec<(Vec<u8>, Vec<u8>)>,
    pub content_length: Option<u64>,
    pub body: Vec<u8>,
    pub cookies: Vec<(Vec<u8>, Vec<u8>)>,
    pub header_updates: Vec<(Vec<u8>, Vec<u8>)>,
}

impl ResponseData {
    /// The carried session updates are well-formed map entries.
    pub open spec fn updates_wf(self) -> bool {
        &&& forall|i: int|
            0 <= i < self.cookies@.len() ==> entry_wf(#[trigger] kv_view(self.cookies@)[i])
        &&& forall|i: int|
            0 <= i < self.header_updates@.len() ==> entry_wf(
                #[trigger] kv_view(self.header_updates@)[i],
            )
    }
}

/// Parses every raw token, stopping at the first failing one.
pub fn parse_all(tokens: &Vec<Vec<u8>>, form: bool) -> (r: Result<Vec<Parameter>, Error>)
    ensures
        r matches Ok(ps) ==> ps@.len() == tokens@.len() && (forall|i: int|
            0 <= i < tokens@.len() ==> parse_ok(
                Result::<Parameter, Error>::Ok(#[trigger] ps@[i]),
                tokens@[i]@,
                form,
            )),
        r matches Err(e) ==> exists|i: int|
            0 <= i < tokens@.len() && parse_ok(
                Result::<Parameter, Error>::Err(e),
                #[trigger] tokens@[i]@,
                form,
            ),
{
    let mut ps: Vec<Parameter> = Vec::new();
    let mut i: usize = 0;
    while i < tokens.len()
        invariant
            i <= tokens@.len(),
            ps@.len() == i,
            forall|j: int|
                0 <= j < i ==> parse_ok(
                    Result::<Parameter, Error>::Ok(#[trigger] ps@[j]),
                    tokens@[j]@,
                    form,
                ),
        decreases tokens@.len() - i,
    {
        match parse(tokens[i].as_slice(), form) {
            Ok(p) => {
                ps.push(p);
            },
            Err(e) => {
                return Err(e);
            },
        }
        i = i + 1;
    }
    Ok(ps)
}

/// The planned invocation: the request to perform, and the method rule
/// already applied.
pub struct Plan {
    pub request: Request,
}

/// Validates and parses the raw tokens and builds the request. The
/// explicit method is honored when given; otherwise POST exactly when a
/// Data parameter is present. Nothing here touches the network, so a
/// failing token or a form-file without form mode fails fast.
pub fn plan_request(
    method: Option<Method>,
    url: Vec<u8>,
    tokens: &Vec<Vec<u8>>,
    session: Option<&Session>,
    form: bool,
) -> (r: Result<Plan, Error>)
    ensures
        r matches Ok(plan) ==> {
            &&& exists|ps: Seq<Parameter>|
                {
                    &&& ps.len() == tokens@.len()
                    &&& (forall|i: int|
                        0 <= i < tokens@.len() ==> parse_ok(
                            Result::<Parameter, Error>::Ok(#[trigger] ps[i]),
                            tokens@[i]@,
                            form,
                        ))
                    &&& plan.request.method == (match method {
                        Some(m) => m,
                        None => if spec_has_data(ps) {
                            Method::Post
                        } else {
                            Method::Get
                        },
                    })
                    &&& kv_view(plan.request.query@) == crate::request::queries_fold(
                        Seq::empty(),
                        ps,
                    )
                    &&& kv_view(plan.request.headers@) == crate::request::spec_request_headers(
                        crate::request::sess_headers(session),
                        crate::request::sess_cookies(session),
                        crate::request::header_params_fold(Seq::empty(), ps),
                    )
                    &&& crate::request::body_ok(plan.request.body, ps, form)
                }
            &&& plan.request.url@ == url@
        },
        r matches Err(e) ==> (exists|i: int|
            0 <= i < tokens@.len() && parse_ok(
                Result::<Parameter, Error>::Err(e),
                #[trigger] tokens@[i]@,
                form,
            )),
{
    let params = match parse_all(tokens, form) {
        Ok(ps) => ps,
        Err(e) => {
            return Err(e);
        },
    };
    proof {
        if !form {
            assert forall|i: int|
                0 <= i < params@.len() implies !((#[trigger] params@[i])
                matches Parameter::FormFile { .. }) by {
                assert(parse_ok(
                    Result::<Parameter, Error>::Ok(params@[i]),
                    tokens@[i]@,
                    form,
                ));
            }
        }
    }
    let m = match method {
        Some(m) => m,
        None => default_method(&params),
    };
    let request = build(m, url, &params, session, form);
    Ok(Plan { request })
}

/// Opens the session for this invocation: the persisted record when it
/// decodes and matches the (name, host) identity, an empty session
/// otherwise. Nothing is written yet.
pub fn get_or_create(loaded: Option<&Vec<u8>>, name: &Vec<u8>, host: &Vec<u8>) -> (s: Session)
    requires
        crate::session::clean(name@),
        crate::session::clean(host@),
    ensures
        s.wf(),
        s.name@ == name@,
        s.host@ == host@,
        match loaded {
            Some(b) => match crate::codec::spec_decode(b@) {
                Some((n, h, cs, hs)) => if n == name@ && h == host@ {
                    kv_view(s.cookies@) == cs && kv_view(s.headers@) == hs
                } else {
                    s.cookies@.len() == 0 && s.headers@.len() == 0
                },
                None => s.cookies@.len() == 0 && s.headers@.len() == 0,
            },
            None => s.cookies@.len() == 0 && s.headers@.len() == 0,
        },
{
    match loaded {
        Some(b) => match crate::codec::decode(b.as_slice()) {
            Some(found) => {
                if crate::bytes::bytes_eq(found.name.as_slice(), name.as_slice())
                    && crate::bytes::bytes_eq(found.host.as_slice(), host.as_slice()) {
                    found
                } else {
                    Session::empty(
                        crate::session::clone_bytes(name),
                        crate::session::clone_bytes(host),
                    )
                }
            },
            None => Session::empty(
                crate::session::clone_bytes(name),
                crate::session::clone_bytes(host),
            ),
        },
        None => Session::empty(
            crate::session::clone_bytes(name),
            crate::session::clone_bytes(host),
        ),
    }
}

/// Syncs the session from the received response, before any rendering.
/// In read-only mode nothing is touched and nothing asks to be saved;
/// otherwise an active session merges the response's cookies and header
/// updates and must be persisted.
pub fn sync_session(read_only: bool, session: &mut Option<Session>, resp: &ResponseData) -> (save:
    bool)
    requires
        match *old(session) {
            Some(s) => s.wf(),
            None => true,
        },
        resp.updates_wf(),
    ensures
        read_only ==> *final(session) == *old(session) && !save,
        !read_only ==> match *old(session) {
            Some(s) => {
                &&& save
                &&& *final(session) matches Some(s2) && s2.wf() && s2.name@ == s.name@
                    && s2.host@ == s.host@ && kv_view(s2.cookies@) == merge_all(
                    kv_view(s.cookies@),
                    kv_view(resp.cookies@),
                ) && kv_view(s2.headers@) == merge_all(
                    kv_view(s.headers@),
                    kv_view(resp.header_updates@),
                )
            },
            None => *final(session) == *old(session) && !save,
        },
{
    if read_only {
        return false;
    }
    let cur = session.take();
    match cur {
        Some(mut s) => {
            s.update_with_response(&resp.cookies, &resp.header_updates);
            *session = Some(s);
            true
        },
        None => {
            false
        },
    }
}

/// What one invocation hands to the terminal and the store.
pub struct Outcome {
    /// The rendered header block.
    pub head: Vec<u8>,
    /// The rendered body text.
    pub body: Vec<u8>,
    /// Whether the body was recognized and re-rendered as JSON.
    pub body_is_json: bool,
    /// Whether the (already updated) session must be persisted now.
    pub save: bool,
}

/// Handles a buffered response: renders the header block, syncs and
/// marks the session for persistence before the body is rendered, and
/// renders the body. Read-only mode never touches the session and never
/// asks for a save; otherwise an active session holds the merged
/// response updates when this returns, and must be saved.
pub fn handle_response(
    read_only: bool,
    session: &mut Option<Session>,
    resp: &ResponseData,
) -> (o: Outcome)
    requires
        match *old(session) {
            Some(s) => s.wf(),
            None => true,
        },
        resp.updates_wf(),
        resp.body@.len() <= u64::MAX,
    ensures
        read_only ==> *final(session) == *old(session) && !o.save,
        !read_only ==> (o.save <==> *old(session) is Some),
        !read_only ==> match *old(session) {
            Some(s) => *final(session) matches Some(s2) && s2.wf() && s2.name@ == s.name@
                && s2.host@ == s.host@ && kv_view(s2.cookies@) == merge_all(
                kv_view(s.cookies@),
                kv_view(resp.cookies@),
            ) && kv_view(s2.headers@) == merge_all(
                kv_view(s.headers@),
                kv_view(resp.header_updates@),
            ),
            None => *final(session) == *old(session),
        },
        o.head@ == spec_head_block(
            resp.version,
            resp.status,
            kv_view(resp.headers@),
            resp.content_length,
            resp.body@.len() as u64,
        ),
        match crate::render::json_pretty_of(resp.body@) {
            Some(p) => o.body@ == p && o.body_is_json,
            None => o.body@ == resp.body@ && !o.body_is_json,
        },
{
    let head = render_head(
        resp.version,
        resp.status,
        &resp.headers,
        resp.content_length,
        resp.body.len() as u64,
    );
    let save = sync_session(read_only, session, resp);
    let rb = crate::render::render_body(&resp.body);
    Outcome { head, body: rb.text, body_is_json: rb.is_json, save }
}

} // verus!
