use hurl::errors::Error;
use hurl::param::Parameter;
use hurl::pipeline::plan_request;
use hurl::request::{serialize_body, Body, FormPart, Method};
use hurl::session::Session;

fn toks(raw: &[&[u8]]) -> Vec<Vec<u8>> {
    raw.iter().map(|t| t.to_vec()).collect()
}

#[test]
fn query_and_header_are_split() {
    let plan = plan_request(
        Some(Method::Get),
        b"http://example.test/items".to_vec(),
        &toks(&[b"limit==10", b"Accept:application/json"]),
        None,
        false,
    )
    .unwrap();
    let r = plan.request;
    assert_eq!(r.method, Method::Get);
    assert_eq!(r.url, b"http://example.test/items".to_vec());
    assert_eq!(r.query, vec![(b"limit".to_vec(), b"10".to_vec())]);
    assert_eq!(r.headers, vec![(b"Accept".to_vec(), b"application/json".to_vec())]);
    assert_eq!(r.body, Body::Empty);
}

#[test]
fn duplicate_queries_are_preserved() {
    let plan = plan_request(
        Some(Method::Get),
        b"http://example.test/".to_vec(),
        &toks(&[b"tag==a", b"tag==b"]),
        None,
        false,
    )
    .unwrap();
    assert_eq!(
        plan.request.query,
        vec![(b"tag".to_vec(), b"a".to_vec()), (b"tag".to_vec(), b"b".to_vec())]
    );
}

#[test]
fn data_defaults_method_to_post() {
    let plan = plan_request(
        None,
        b"http://example.test/".to_vec(),
        &toks(&[b"a=1"]),
        None,
        false,
    )
    .unwrap();
    assert_eq!(plan.request.method, Method::Post);
}

#[test]
fn no_data_defaults_method_to_get() {
    let plan = plan_request(
        None,
        b"http://example.test/".to_vec(),
        &toks(&[b"q==1"]),
        None,
        false,
    )
    .unwrap();
    assert_eq!(plan.request.method, Method::Get);
}

#[test]
fn json_body_keys_last_value_wins_and_reparses() {
    let plan = plan_request(
        None,
        b"http://example.test/".to_vec(),
        &toks(&[b"a=1", b"b=2", b"a=3"]),
        None,
        false,
    )
    .unwrap();
    let body = plan.request.body;
    match &body {
        Body::Json(entries) => {
            assert_eq!(
                entries,
                &vec![
                    (b"a".to_vec(), b"3".to_vec(), false),
                    (b"b".to_vec(), b"2".to_vec(), false),
                ]
            );
        }
        other => panic!("expected a JSON body, got {:?}", other),
    }
    let bytes = serialize_body(&body).unwrap();
    assert_eq!(bytes, b"{\"a\":\"3\",\"b\":\"2\"}".to_vec());
    let reparsed: serde_json::Value = serde_json::from_slice(&bytes).unwrap();
    let obj = reparsed.as_object().unwrap();
    assert_eq!(obj.len(), 2);
    assert_eq!(obj.get("a").unwrap(), &serde_json::Value::String("3".to_string()));
    assert_eq!(obj.get("b").unwrap(), &serde_json::Value::String("2".to_string()));
}

#[test]
fn json_typed_value_is_raw_fragment() {
    let plan = plan_request(
        None,
        b"http://example.test/".to_vec(),
        &toks(&[b"n:=5"]),
        None,
        false,
    )
    .unwrap();
    let bytes = serialize_body(&plan.request.body).unwrap();
    assert_eq!(bytes, b"{\"n\":5}".to_vec());
    let reparsed: serde_json::Value = serde_json::from_slice(&bytes).unwrap();
    assert_eq!(reparsed.as_object().unwrap().get("n").unwrap().as_i64(), Some(5));
}

#[test]
fn form_mode_collects_fields_and_files() {
    let plan = plan_request(
        None,
        b"http://example.test/".to_vec(),
        &toks(&[b"a=1", b"pic@./p.png", b"a=2"]),
        None,
        true,
    )
    .unwrap();
    match plan.request.body {
        Body::Form(parts) => {
            assert_eq!(
                parts,
                vec![
                    FormPart::Field { key: b"a".to_vec(), value: b"2".to_vec() },
                    FormPart::File { key: b"pic".to_vec(), filename: b"./p.png".to_vec() },
                ]
            );
        }
        other => panic!("expected a form body, got {:?}", other),
    }
}

#[test]
fn form_file_without_form_mode_builds_nothing() {
    let r = plan_request(
        Some(Method::Get),
        b"http://example.test/".to_vec(),
        &toks(&[b"avatar@./pic.png"]),
        None,
        false,
    );
    assert_eq!(r.err(), Some(Error::NotFormButHasFormFile));
}

#[test]
fn session_cookies_become_cookie_header() {
    let mut s = Session::empty(b"n".to_vec(), b"example.test".to_vec());
    s.update_with_response(
        &vec![(b"k".to_vec(), b"v".to_vec()), (b"l".to_vec(), b"w".to_vec())],
        &Vec::new(),
    );
    let plan = plan_request(
        Some(Method::Get),
        b"http://example.test/".to_vec(),
        &toks(&[]),
        Some(&s),
        false,
    )
    .unwrap();
    assert_eq!(
        plan.request.headers,
        vec![(b"Cookie".to_vec(), b"k=v; l=w".to_vec())]
    );
}

#[test]
fn explicit_header_overrides_session_default() {
    let mut s = Session::empty(b"n".to_vec(), b"example.test".to_vec());
    s.update_with_response(&Vec::new(), &vec![(b"X-A".to_vec(), b"1".to_vec())]);
    let plan = plan_request(
        Some(Method::Get),
        b"http://example.test/".to_vec(),
        &toks(&[b"X-A:2"]),
        Some(&s),
        false,
    )
    .unwrap();
    assert_eq!(plan.request.headers, vec![(b"X-A".to_vec(), b"2".to_vec())]);
}

#[test]
fn host_of_url_extracts_host() {
    assert_eq!(
        hurl::request::host_of_url(b"http://example.test/items"),
        Ok(b"example.test".to_vec())
    );
    match hurl::request::host_of_url(b"::not a url::") {
        Err(Error::UrlParseError(_)) => {}
        other => panic!("expected a URL parse error, got {:?}", other),
    }
}
