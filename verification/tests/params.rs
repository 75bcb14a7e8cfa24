use hurl::errors::Error;
use hurl::param::{parse, Parameter};

#[test]
fn no_separator_yields_missing_separator() {
    let r = parse(b"justtext", false);
    assert_eq!(r, Err(Error::ParameterMissingSeparator(b"justtext".to_vec())));
}

#[test]
fn no_separator_in_form_mode_too() {
    let r = parse(b"justtext", true);
    assert_eq!(r, Err(Error::ParameterMissingSeparator(b"justtext".to_vec())));
}

#[test]
fn colon_before_equals_is_header() {
    let r = parse(b"a:b=c", false);
    assert_eq!(
        r,
        Ok(Parameter::Header { key: b"a".to_vec(), value: b"b=c".to_vec() })
    );
}

#[test]
fn equals_before_colon_is_data() {
    let r = parse(b"a=b:c", false);
    assert_eq!(
        r,
        Ok(Parameter::Data { key: b"a".to_vec(), value: b"b:c".to_vec(), json_typed: false })
    );
}

#[test]
fn double_equals_is_query() {
    let r = parse(b"limit==10", false);
    assert_eq!(
        r,
        Ok(Parameter::Query { key: b"limit".to_vec(), value: b"10".to_vec() })
    );
}

#[test]
fn colon_equals_is_json_typed_data() {
    let r = parse(b"count:=5", false);
    assert_eq!(
        r,
        Ok(Parameter::Data { key: b"count".to_vec(), value: b"5".to_vec(), json_typed: true })
    );
}

#[test]
fn at_in_form_mode_is_form_file() {
    let r = parse(b"avatar@./pic.png", true);
    assert_eq!(
        r,
        Ok(Parameter::FormFile { key: b"avatar".to_vec(), filename: b"./pic.png".to_vec() })
    );
}

#[test]
fn form_file_without_form_mode_fails_fast() {
    let r = parse(b"avatar@./pic.png", false);
    assert_eq!(r, Err(Error::NotFormButHasFormFile));
}

#[test]
fn at_is_not_a_separator_outside_form_mode() {
    let r = parse(b"a@b:c", false);
    assert_eq!(
        r,
        Ok(Parameter::Header { key: b"a@b".to_vec(), value: b"c".to_vec() })
    );
    let f = parse(b"a@b:c", true);
    assert_eq!(
        f,
        Ok(Parameter::FormFile { key: b"a".to_vec(), filename: b"b:c".to_vec() })
    );
}

#[test]
fn empty_value_is_kept() {
    let r = parse(b"k=", false);
    assert_eq!(
        r,
        Ok(Parameter::Data { key: b"k".to_vec(), value: Vec::new(), json_typed: false })
    );
}

#[test]
fn empty_token_is_missing_separator() {
    let r = parse(b"", false);
    assert_eq!(r, Err(Error::ParameterMissingSeparator(Vec::new())));
}
