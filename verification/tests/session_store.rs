use hurl::codec::{decode, encode};
use hurl::pipeline::get_or_create;
use hurl::session::Session;

fn entry(k: &[u8], v: &[u8]) -> (Vec<u8>, Vec<u8>) {
    (k.to_vec(), v.to_vec())
}

fn sample(cookies: Vec<(Vec<u8>, Vec<u8>)>, headers: Vec<(Vec<u8>, Vec<u8>)>) -> Session {
    let mut s = Session::empty(b"work".to_vec(), b"example.test".to_vec());
    s.update_with_response(&cookies, &headers);
    s
}

#[test]
fn update_with_no_cookies_is_identity() {
    let mut s = sample(vec![entry(b"sid", b"abc")], vec![entry(b"Authorization", b"tok")]);
    let before = (s.cookies.clone(), s.headers.clone());
    s.update_with_response(&Vec::new(), &Vec::new());
    assert_eq!(s.cookies, before.0);
    assert_eq!(s.headers, before.1);
}

#[test]
fn update_overwrites_last_write_wins() {
    let mut s = sample(vec![entry(b"sid", b"abc")], Vec::new());
    s.update_with_response(&vec![entry(b"sid", b"xyz"), entry(b"lang", b"en")], &Vec::new());
    assert_eq!(s.cookies, vec![entry(b"sid", b"xyz"), entry(b"lang", b"en")]);
}

#[test]
fn round_trip_empty_session() {
    let s = sample(Vec::new(), Vec::new());
    let bytes = encode(&s);
    assert_eq!(decode(&bytes), Some(s));
}

#[test]
fn round_trip_single_entries() {
    let s = sample(vec![entry(b"sid", b"abc")], vec![entry(b"Authorization", b"tok")]);
    let bytes = encode(&s);
    assert_eq!(decode(&bytes), Some(s));
}

#[test]
fn round_trip_multiple_entries() {
    let s = sample(
        vec![entry(b"sid", b"abc"), entry(b"lang", b"en"), entry(b"theme", b"dark")],
        vec![entry(b"Authorization", b"tok"), entry(b"X-Extra", b"1")],
    );
    let bytes = encode(&s);
    assert_eq!(decode(&bytes), Some(s));
}

#[test]
fn decode_rejects_truncated_record() {
    assert_eq!(decode(b"no trailing newline"), None);
}

#[test]
fn decode_rejects_duplicate_keys() {
    let text = b"work\nexample.test\nsid\ta\nsid\tb\n\n";
    assert_eq!(decode(text), None);
}

#[test]
fn get_or_create_without_record_is_empty() {
    let s = get_or_create(None, &b"work".to_vec(), &b"example.test".to_vec());
    assert_eq!(s.name, b"work".to_vec());
    assert_eq!(s.host, b"example.test".to_vec());
    assert!(s.cookies.is_empty());
    assert!(s.headers.is_empty());
}

#[test]
fn get_or_create_loads_matching_record() {
    let saved = sample(vec![entry(b"sid", b"abc")], Vec::new());
    let bytes = encode(&saved);
    let s = get_or_create(Some(&bytes), &b"work".to_vec(), &b"example.test".to_vec());
    assert_eq!(s, saved);
}

#[test]
fn get_or_create_ignores_other_host() {
    let saved = sample(vec![entry(b"sid", b"abc")], Vec::new());
    let bytes = encode(&saved);
    let s = get_or_create(Some(&bytes), &b"work".to_vec(), &b"other.test".to_vec());
    assert!(s.cookies.is_empty());
    assert_eq!(s.host, b"other.test".to_vec());
}
