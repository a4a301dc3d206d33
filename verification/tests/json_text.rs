//! The JSON writer and reader on their own: canonical text out, the same
//! value back in.

use bitcoin_rpc::json::{write_json, JsonValue};
use bitcoin_rpc::parse::parse_json;

fn write(v: &JsonValue) -> String {
    let mut out: Vec<char> = Vec::new();
    write_json(&mut out, v);
    out.iter().collect()
}

fn read(text: &str) -> Option<JsonValue> {
    let cs: Vec<char> = text.chars().collect();
    parse_json(&cs)
}

fn num(t: &str) -> JsonValue {
    JsonValue::Num(String::from(t))
}

fn st(t: &str) -> JsonValue {
    JsonValue::Str(String::from(t))
}

#[test]
fn writer_emits_canonical_text() {
    let v = JsonValue::Obj(vec![
        (String::from("a"), JsonValue::Null),
        (String::from("b"), JsonValue::Bool(true)),
        (String::from("c"), num("42")),
        (String::from("d"), st("x\"y\\z")),
        (String::from("e"), JsonValue::Arr(vec![num("1"), num("2")])),
    ]);
    assert_eq!(
        write(&v),
        "{\"a\":null,\"b\":true,\"c\":42,\"d\":\"x\\\"y\\\\z\",\"e\":[1,2]}"
    );
}

#[test]
fn reader_inverts_the_writer() {
    let values = [
        JsonValue::Null,
        JsonValue::Bool(false),
        num("0"),
        num("-123"),
        st(""),
        st("tabs\tand\nnewlines"),
        JsonValue::Arr(Vec::new()),
        JsonValue::Obj(Vec::new()),
        JsonValue::Arr(vec![JsonValue::Obj(vec![(
            String::from("k"),
            JsonValue::Arr(vec![st("v"), num("7"), JsonValue::Null]),
        )])]),
    ];
    for v in values {
        let text = write(&v);
        let back = read(&text);
        assert_eq!(back.as_ref(), Some(&v), "text {:?}", text);
    }
}

#[test]
fn reader_accepts_whitespace_and_escapes() {
    let v = read(" [ 1 , \"a\\/b\\u{5c}tc\" , { \"k\" : null } ] ".replace("\\u{5c}", "\\")
        .as_str());
    assert_eq!(
        v,
        Some(JsonValue::Arr(vec![
            num("1"),
            st("a/b\tc"),
            JsonValue::Obj(vec![(String::from("k"), JsonValue::Null)]),
        ]))
    );
}

#[test]
fn reader_keeps_number_lexemes() {
    assert_eq!(read("3.14"), Some(num("3.14")));
    assert_eq!(read("-0.5e+10"), Some(num("-0.5e+10")));
    assert_eq!(read("0"), Some(num("0")));
}

#[test]
fn reader_rejects_broken_text() {
    for text in [
        "", " ", "01", "1.", "1e", "+1", "--2", "truth", "nul", "\"\\q\"", "\"\u{0001}\"",
        "[1,]", "[1 2]", "{\"a\" 1}", "{\"a\":1,}", "{a:1}", "[", "]", "1 1",
    ] {
        assert_eq!(read(text), None, "text {:?}", text);
    }
}
