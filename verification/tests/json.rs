use kytti::json::{put, Json};

fn doc(text: &str) -> Json {
    Json::parse(text.as_bytes()).expect("a document")
}

fn round(text: &str) -> String {
    doc(text).to_text()
}

#[test]
fn writes_scalars() {
    assert_eq!(round(" null "), "null");
    assert_eq!(round("true"), "true");
    assert_eq!(round("false"), "false");
    assert_eq!(round("0"), "0");
    assert_eq!(round("42"), "42");
    assert_eq!(round("-42"), "-42");
    assert_eq!(round("18446744073709551615"), "18446744073709551615");
    assert_eq!(round("-9223372036854775808"), "-9223372036854775808");
    assert_eq!(round("\"a\\\"b\\n\""), "\"a\\\"b\\n\"");
}

#[test]
fn built_integers_are_written_in_decimal() {
    assert_eq!(Json::Unsigned(0).to_text(), "0");
    assert_eq!(Json::Unsigned(u64::MAX).to_text(), "18446744073709551615");
    assert_eq!(Json::Signed(7).to_text(), "7");
    assert_eq!(Json::Signed(0).to_text(), "0");
    assert_eq!(Json::Signed(i64::MIN).to_text(), "-9223372036854775808");
}

#[test]
fn floats_are_written_as_the_parser_prints_them() {
    let cases = [
        "0.0",
        "-0.0",
        "1.0",
        "1.5",
        "-2.5",
        "0.1",
        "0.30000000000000004",
        "3.141592653589793",
        "1e300",
        "1.7976931348623157e308",
        "5e-324",
        "2.2250738585072014e-308",
        "123456789012345680.0",
        "18446744073709551616",
        "-9223372036854775809",
        "-0",
        "1E3",
        "100000000000000000000000000000",
    ];
    for text in cases {
        let value: serde_json::Value = serde_json::from_str(text).unwrap();
        assert_eq!(round(text), value.to_string(), "of {text}");
    }
}

#[test]
fn writes_what_the_parser_would_write() {
    let cases = [
        "[]",
        "{}",
        "[1,-2,3.5,\"x\",null,true,[],{}]",
        "{\"b\":{\"z\":[{\"y\":1}],\"a\":null},\"a\":[[[]]]}",
        "{\"k\":1,\"k\":2}",
        "{\"\u{e9}\":\"\\u0000\\u001f\\ud83d\\ude00\"}",
    ];
    for text in cases {
        let value: serde_json::Value = serde_json::from_str(text).unwrap();
        assert_eq!(round(text), value.to_string(), "of {text}");
    }
}

#[test]
fn members_are_written_in_the_order_of_their_names() {
    assert_eq!(
        round("{\"b\": 1, \"a\": [1, \"x\"], \"\": {}}"),
        "{\"\":{},\"a\":[1,\"x\"],\"b\":1}"
    );
}

#[test]
fn the_last_member_of_a_name_counts() {
    let value = doc("{\"k\":1,\"j\":0,\"k\":2}");
    assert_eq!(value.get("k").and_then(|v| v.as_u64()), Some(2));
    let mut members: Vec<(String, Json)> = Vec::new();
    put(&mut members, "k", Json::Bool(false));
    put(&mut members, "k", Json::Bool(true));
    let value = Json::Object(members);
    assert_eq!(value.get("k").and_then(|v| v.as_bool()), Some(true));
    assert_eq!(value.to_text(), "{\"k\":true}");
    let mut members: Vec<(String, Json)> = Vec::new();
    for n in 0..50 {
        put(&mut members, if n % 2 == 0 { "even" } else { "odd" }, Json::Unsigned(n));
    }
    assert_eq!(Json::Object(members).to_text(), "{\"even\":48,\"odd\":49}");
}

#[test]
fn refuses_what_is_no_document() {
    assert!(Json::parse(b"").is_none());
    assert!(Json::parse(b"{").is_none());
    assert!(Json::parse(b"<html></html>").is_none());
    assert!(Json::parse(b"1 2").is_none());
    assert!(Json::parse(b"\"\xff\"").is_none());
    assert!(Json::parse(b"1e999").is_none());
    assert!(Json::parse(b"nul").is_none());
}

#[test]
fn reads_members_only_of_objects() {
    let value = doc("{\"a\":{\"b\":true}}");
    assert_eq!(
        value
            .get("a")
            .and_then(|a| a.get("b"))
            .and_then(|b| b.as_bool()),
        Some(true)
    );
    assert!(value.get("b").is_none());
    assert!(doc("[1]").get("0").is_none());
    assert!(doc("\"a\"").get("a").is_none());
}

#[test]
fn tells_its_sorts_apart() {
    assert_eq!(doc("true").as_bool(), Some(true));
    assert_eq!(doc("\"true\"").as_bool(), None);
    assert_eq!(doc("\"s\"").as_str(), Some("s"));
    assert_eq!(doc("1").as_str(), None);
    assert_eq!(doc("1").as_u64(), Some(1));
    assert_eq!(doc("-1").as_u64(), None);
    assert_eq!(doc("1.0").as_u64(), None);
    assert_eq!(Json::Signed(5).as_u64(), Some(5));
    assert_eq!(Json::Signed(-5).as_u64(), None);
}

#[test]
fn built_arrays_and_objects_are_written() {
    let mut members: Vec<(String, Json)> = Vec::new();
    put(
        &mut members,
        "list",
        Json::Array(vec![
            Json::Null,
            Json::String("x".to_string()),
            Json::Array(Vec::new()),
        ]),
    );
    put(&mut members, "empty", Json::Object(Vec::new()));
    assert_eq!(
        Json::Object(members).to_text(),
        "{\"empty\":{},\"list\":[null,\"x\",[]]}"
    );
}
