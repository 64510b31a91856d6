use wallet_core::owners_cache::OwnersCacheError;
use wallet_core::record::{parse_record, render_record, STORAGE_OWNERS_CACHE};

fn pair(a: &str, b: &str) -> (String, String) {
    (a.to_string(), b.to_string())
}

#[test]
fn storage_key() {
    assert_eq!(STORAGE_OWNERS_CACHE, "owners_cache");
}

#[test]
fn parse_record_reads_pairs() {
    let text = r#"[["0:aa","0:bb"], ["-1:cc","0:dd"]]"#;
    assert_eq!(parse_record(text), Ok(vec![pair("0:aa", "0:bb"), pair("-1:cc", "0:dd")]));
    assert_eq!(parse_record("[]"), Ok(vec![]));
}

#[test]
fn parse_record_refuses_other_text() {
    assert_eq!(parse_record(""), Err(OwnersCacheError::InvalidRecord));
    assert_eq!(parse_record("{}"), Err(OwnersCacheError::InvalidRecord));
    assert_eq!(parse_record(r#"[["a"]]"#), Err(OwnersCacheError::InvalidRecord));
    assert_eq!(parse_record(r#"[["a","b","c"]]"#), Err(OwnersCacheError::InvalidRecord));
    assert_eq!(parse_record(r#"[["a",1]]"#), Err(OwnersCacheError::InvalidRecord));
    assert_eq!(parse_record(r#"{"a":"b"}"#), Err(OwnersCacheError::InvalidRecord));
}

#[test]
fn render_record_writes_a_list_of_pairs() {
    let pairs = vec![pair("0:aa", "0:bb"), pair("-1:cc", "0:dd")];
    assert_eq!(render_record(&pairs), r#"[["0:aa","0:bb"],["-1:cc","0:dd"]]"#);
    assert_eq!(render_record(&vec![]), "[]");
}

#[test]
fn rendered_record_parses_back() {
    let pairs = vec![pair("0:aa", "0:bb"), pair("x\"y", "z\\"), pair("", "")];
    let text = render_record(&pairs);
    assert_eq!(parse_record(&text), Ok(pairs));
}

#[test]
fn render_record_escapes_what_json_escapes() {
    let pairs = vec![pair("a\"b", "c\nd")];
    assert_eq!(render_record(&pairs), r#"[["a\"b","c\nd"]]"#);
}
