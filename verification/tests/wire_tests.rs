use role_sync::{SyncRequest, encode_sync_request};

fn body_of(account_id: i32, keep: Vec<&str>, remove: Vec<&str>) -> String {
    let req = SyncRequest {
        account_id,
        keep: keep.into_iter().map(|s| s.to_string()).collect(),
        remove: remove.into_iter().map(|s| s.to_string()).collect(),
    };
    String::from_utf8(encode_sync_request(&req)).unwrap()
}

/// The same body built through serde_json, whose object keys come out in
/// sorted order: account_id, keep, remove.
fn serde_body_of(account_id: i32, keep: Vec<&str>, remove: Vec<&str>) -> String {
    let mut obj = serde_json::Map::new();
    obj.insert(
        "account_id".to_string(),
        serde_json::Value::from(account_id),
    );
    obj.insert(
        "keep".to_string(),
        serde_json::Value::Array(
            keep.into_iter()
                .map(|s| serde_json::Value::String(s.to_string()))
                .collect(),
        ),
    );
    obj.insert(
        "remove".to_string(),
        serde_json::Value::Array(
            remove
                .into_iter()
                .map(|s| serde_json::Value::String(s.to_string()))
                .collect(),
        ),
    );
    serde_json::to_string(&serde_json::Value::Object(obj)).unwrap()
}

#[test]
fn encode_empty_request() {
    assert_eq!(
        body_of(0, vec![], vec![]),
        "{\"account_id\":0,\"keep\":[],\"remove\":[]}"
    );
}

#[test]
fn encode_simple_request() {
    assert_eq!(
        body_of(42, vec!["A", "C"], vec!["B"]),
        "{\"account_id\":42,\"keep\":[\"A\",\"C\"],\"remove\":[\"B\"]}"
    );
}

#[test]
fn encode_negative_account_id() {
    assert_eq!(
        body_of(-123, vec![], vec!["x"]),
        "{\"account_id\":-123,\"keep\":[],\"remove\":[\"x\"]}"
    );
}

#[test]
fn encode_extreme_account_ids() {
    assert_eq!(
        body_of(i32::MIN, vec![], vec![]),
        "{\"account_id\":-2147483648,\"keep\":[],\"remove\":[]}"
    );
    assert_eq!(
        body_of(i32::MAX, vec![], vec![]),
        "{\"account_id\":2147483647,\"keep\":[],\"remove\":[]}"
    );
}

#[test]
fn encode_escapes_quotes_and_backslashes() {
    assert_eq!(
        body_of(1, vec!["a\"b"], vec!["c\\d"]),
        "{\"account_id\":1,\"keep\":[\"a\\\"b\"],\"remove\":[\"c\\\\d\"]}"
    );
}

#[test]
fn encode_escapes_control_characters() {
    assert_eq!(
        body_of(1, vec!["a\nb\tc"], vec!["\u{1}\u{1f}"]),
        "{\"account_id\":1,\"keep\":[\"a\\nb\\tc\"],\"remove\":[\"\\u0001\\u001f\"]}"
    );
}

#[test]
fn encode_passes_unicode_through() {
    let body = body_of(1, vec!["r\u{f4}le"], vec![]);
    assert_eq!(
        body,
        "{\"account_id\":1,\"keep\":[\"r\u{f4}le\"],\"remove\":[]}"
    );
}

#[test]
fn encoding_agrees_with_serde_json() {
    let cases: Vec<(i32, Vec<&str>, Vec<&str>)> = vec![
        (42, vec!["A", "C"], vec!["B"]),
        (0, vec![], vec![]),
        (-7, vec!["a\"b\\c\nd"], vec!["\u{8}\u{c}\r"]),
        (i32::MIN, vec!["r\u{f4}le", ""], vec!["\u{0}"]),
    ];
    for (id, keep, remove) in cases {
        assert_eq!(
            body_of(id, keep.clone(), remove.clone()),
            serde_body_of(id, keep, remove)
        );
    }
}

#[test]
fn encoded_body_parses_back() {
    let body = body_of(9, vec!["one", "two"], vec!["three"]);
    let v: serde_json::Value = serde_json::from_str(&body).unwrap();
    assert_eq!(v.get("account_id").unwrap().as_i64().unwrap(), 9);
    let keep: Vec<&str> = v
        .get("keep")
        .unwrap()
        .as_array()
        .unwrap()
        .iter()
        .map(|x| x.as_str().unwrap())
        .collect();
    assert_eq!(keep, vec!["one", "two"]);
    let remove: Vec<&str> = v
        .get("remove")
        .unwrap()
        .as_array()
        .unwrap()
        .iter()
        .map(|x| x.as_str().unwrap())
        .collect();
    assert_eq!(remove, vec!["three"]);
}
