use hurl::errors::{classify_client_error, validate_invocation, Error};
use hurl::pipeline::{handle_response, ResponseData};
use hurl::render::{render_body, render_head, HttpVersion};
use hurl::session::Session;

fn text(bytes: &[u8]) -> String {
    String::from_utf8_lossy(bytes).into_owned()
}

#[test]
fn json_object_rerenders_with_sorted_keys() {
    let out = render_body(&b"{\"b\":1,\"a\":2}".to_vec());
    assert!(out.is_json);
    assert_eq!(text(&out.text), "{\n  \"a\": 2,\n  \"b\": 1\n}");
}

#[test]
fn non_object_json_is_verbatim_and_not_fatal() {
    let out = render_body(&b"\"plain text\"".to_vec());
    assert!(!out.is_json);
    assert_eq!(out.text, b"\"plain text\"".to_vec());
}

#[test]
fn malformed_json_is_verbatim_and_not_fatal() {
    let out = render_body(&b"{\"a\":".to_vec());
    assert!(!out.is_json);
    assert_eq!(out.text, b"{\"a\":".to_vec());
}

#[test]
fn head_block_normalizes_sorts_and_synthesizes_length() {
    let headers = vec![(b"content-type".to_vec(), b"application/json".to_vec())];
    let head = render_head(HttpVersion::V11, 200, &headers, None, 11);
    assert_eq!(
        text(&head),
        "HTTP/1.1 200 OK\nContent-Length: 11\nContent-Type: application/json"
    );
}

#[test]
fn largest_body_length_renders_in_full() {
    let head = render_head(HttpVersion::V11, 200, &Vec::new(), None, u64::MAX);
    assert_eq!(
        text(&head),
        "HTTP/1.1 200 OK\nContent-Length: 18446744073709551615"
    );
}

#[test]
fn reported_length_suppresses_the_synthesized_line() {
    let headers = vec![(b"content-length".to_vec(), b"7".to_vec())];
    let head = render_head(HttpVersion::V2, 599, &headers, Some(7), 3);
    assert_eq!(text(&head), "HTTP/2.0 599 unknown\nContent-Length: 7");
}

#[test]
fn tab_bearing_header_value_is_shown() {
    let headers = vec![(b"x-tabbed".to_vec(), b"a\tb".to_vec())];
    let head = render_head(HttpVersion::V10, 200, &headers, None, 0);
    assert_eq!(
        text(&head),
        "HTTP/1.0 200 OK\nContent-Length: 0\nX-Tabbed: a\tb"
    );
}

#[test]
fn unprintable_header_value_is_replaced() {
    let headers = vec![(b"x-odd".to_vec(), vec![1u8, 2u8])];
    let head = render_head(HttpVersion::V10, 404, &headers, None, 0);
    assert_eq!(
        text(&head),
        "HTTP/1.0 404 Not Found\nContent-Length: 0\nX-Odd: BAD HEADER VALUE"
    );
}

fn plain_response(body: &[u8]) -> ResponseData {
    ResponseData {
        version: HttpVersion::V11,
        status: 200,
        headers: Vec::new(),
        content_length: None,
        body: body.to_vec(),
        cookies: vec![(b"sid".to_vec(), b"new".to_vec())],
        header_updates: Vec::new(),
    }
}

#[test]
fn read_only_mode_never_saves_or_mutates() {
    let mut session = Some({
        let mut s = Session::empty(b"n".to_vec(), b"example.test".to_vec());
        s.update_with_response(&vec![(b"sid".to_vec(), b"old".to_vec())], &Vec::new());
        s
    });
    let before = session.clone();
    let out = handle_response(true, &mut session, &plain_response(b"x"));
    assert!(!out.save);
    assert_eq!(session, before);
}

#[test]
fn active_session_is_updated_and_marked_for_save() {
    let mut session = Some({
        let mut s = Session::empty(b"n".to_vec(), b"example.test".to_vec());
        s.update_with_response(&vec![(b"sid".to_vec(), b"old".to_vec())], &Vec::new());
        s
    });
    let out = handle_response(false, &mut session, &plain_response(b"x"));
    assert!(out.save);
    assert_eq!(
        session.unwrap().cookies,
        vec![(b"sid".to_vec(), b"new".to_vec())]
    );
}

#[test]
fn no_session_means_no_save() {
    let mut session = None;
    let out = handle_response(false, &mut session, &plain_response(b"x"));
    assert!(!out.save);
    assert_eq!(session, None);
}

#[test]
fn end_to_end_get_render() {
    let plan = hurl::pipeline::plan_request(
        Some(hurl::request::Method::Get),
        b"http://example.test/items".to_vec(),
        &vec![b"limit==10".to_vec(), b"Accept:application/json".to_vec()],
        None,
        false,
    )
    .unwrap();
    assert_eq!(plan.request.query, vec![(b"limit".to_vec(), b"10".to_vec())]);
    assert_eq!(
        plan.request.headers,
        vec![(b"Accept".to_vec(), b"application/json".to_vec())]
    );
    let mut session = None;
    let out = handle_response(false, &mut session, &plain_response(b"{\"ok\":true}"));
    assert!(text(&out.head).contains("200"));
    assert_eq!(text(&out.body), "{\n  \"ok\": true\n}");
    assert!(out.body_is_json);
}

#[test]
fn classification_is_total_and_ordered() {
    assert_eq!(
        classify_client_error(true, true, Some(500)),
        Error::ClientSerialization
    );
    assert_eq!(classify_client_error(false, true, Some(500)), Error::ClientTimeout);
    assert_eq!(
        classify_client_error(false, false, Some(503)),
        Error::ClientWithStatus(503)
    );
    assert_eq!(classify_client_error(false, false, None), Error::ClientOther);
}

#[test]
fn messages_carry_the_payload() {
    assert_eq!(
        Error::ClientWithStatus(404).message(),
        b"Got status code: 404 Not Found".to_vec()
    );
    assert_eq!(
        Error::ClientWithStatus(599).message(),
        b"Got status code: 599 <unknown status code>".to_vec()
    );
    assert_eq!(
        Error::ParameterMissingSeparator(b"oops".to_vec()).message(),
        b"Missing separator when parsing parameter: oops".to_vec()
    );
    assert_eq!(
        Error::NotFormButHasFormFile.message(),
        b"Cannot have a form file 'key@filename' unless -- form option is set".to_vec()
    );
    assert_eq!(
        Error::IO(hurl::errors::IoErrorClass::NotFound).message(),
        b"IO error: NotFound".to_vec()
    );
    assert_eq!(
        Error::SerdeJson(hurl::errors::JsonErrorCategory::Eof).message(),
        b"JSON error: Eof".to_vec()
    );
}

#[test]
fn missing_url_and_command_is_rejected() {
    assert_eq!(validate_invocation(false, false), Err(Error::MissingUrlAndCommand));
    assert_eq!(validate_invocation(true, false), Ok(()));
    assert_eq!(validate_invocation(false, true), Ok(()));
}

#[test]
fn highlighting_finds_named_syntaxes_and_reports_missing_ones() {
    let ss = syntect::parsing::SyntaxSet::load_defaults_newlines();
    let ts = syntect::highlighting::ThemeSet::load_defaults();
    let theme = &ts.themes["Solarized (dark)"];
    let ok = hurl::highlight::highlight_block(&ss, theme, "JSON", &b"JSON".to_vec(), b"{}\n");
    let colored = ok.unwrap();
    assert!(colored.windows(2).any(|w| w == b"\x1b["));
    assert!(colored != b"{}\n".to_vec());
    let missing = hurl::highlight::highlight_block(
        &ss,
        theme,
        "NoSuchSyntax",
        &b"NoSuchSyntax".to_vec(),
        b"x",
    );
    assert_eq!(missing, Err(Error::SyntaxLoadError(b"NoSuchSyntax".to_vec())));
}
