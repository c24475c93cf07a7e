//! The JSON document model: serialization, parsing, lookups, text helpers.

use oneclaw_node::json::Json;
use oneclaw_node::json_parse::parse_text;
use oneclaw_node::json_text::{int_string, to_text};
use oneclaw_node::text::{chars_to_string, replace_chars, split_chars, str_to_chars};

fn obj(fields: Vec<(&str, Json)>) -> Json {
    Json::Obj(fields.into_iter().map(|(k, v)| (k.to_string(), v)).collect())
}

fn jstr(s: &str) -> Json {
    Json::Str(s.to_string())
}

#[test]
fn serializes_scalars() {
    assert_eq!(to_text(&Json::Null), "null");
    assert_eq!(to_text(&Json::Bool(true)), "true");
    assert_eq!(to_text(&Json::Bool(false)), "false");
    assert_eq!(to_text(&Json::Int(0)), "0");
    assert_eq!(to_text(&Json::Int(-42)), "-42");
    assert_eq!(to_text(&Json::Int(i64::MIN)), "-9223372036854775808");
    assert_eq!(to_text(&Json::Int(i64::MAX)), "9223372036854775807");
}

#[test]
fn serializes_structures() {
    let v = obj(vec![
        ("a", Json::Arr(vec![Json::Int(1), Json::Int(2)])),
        ("b", jstr("x")),
    ]);
    assert_eq!(to_text(&v), "{\"a\":[1,2],\"b\":\"x\"}");
    assert_eq!(to_text(&Json::Arr(vec![])), "[]");
    assert_eq!(to_text(&obj(vec![])), "{}");
}

#[test]
fn escapes_strings() {
    assert_eq!(to_text(&jstr("he said \"hi\"")), "\"he said \\\"hi\\\"\"");
    assert_eq!(to_text(&jstr("a\\b")), "\"a\\\\b\"");
    assert_eq!(to_text(&jstr("line\nbreak\ttab")), "\"line\\nbreak\\ttab\"");
    assert_eq!(to_text(&jstr("\u{1}")), "\"\\u0001\"");
    assert_eq!(to_text(&jstr("\u{1f}")), "\"\\u001f\"");
}

#[test]
fn parses_scalars() {
    assert_eq!(to_text(&parse_text("null").unwrap()), "null");
    assert_eq!(to_text(&parse_text(" true ").unwrap()), "true");
    assert_eq!(to_text(&parse_text("-17").unwrap()), "-17");
    assert_eq!(to_text(&parse_text("\"abc\"").unwrap()), "\"abc\"");
}

#[test]
fn parses_structures() {
    let t = "{\"a\": [1, 2, {\"b\": null}], \"c\": \"x\"}";
    assert_eq!(
        to_text(&parse_text(t).unwrap()),
        "{\"a\":[1,2,{\"b\":null}],\"c\":\"x\"}"
    );
    assert_eq!(to_text(&parse_text("[]").unwrap()), "[]");
    assert_eq!(to_text(&parse_text("{ }").unwrap()), "{}");
}

#[test]
fn parses_escapes() {
    assert_eq!(
        to_text(&parse_text("\"a\\n\\t\\\\\\\"\\u0041\"").unwrap()),
        "\"a\\n\\t\\\\\\\"A\""
    );
    assert_eq!(to_text(&parse_text("\"\\u00e9\"").unwrap()), "\"\u{e9}\"");
}

#[test]
fn rejects_bad_documents() {
    assert!(parse_text("").is_none());
    assert!(parse_text("{").is_none());
    assert!(parse_text("[1,]").is_none());
    assert!(parse_text("{\"a\":1,}").is_none());
    assert!(parse_text("1.5").is_none());
    assert!(parse_text("1e3").is_none());
    assert!(parse_text("01").is_none());
    assert!(parse_text("\"unterminated").is_none());
    assert!(parse_text("nul").is_none());
    assert!(parse_text("{\"a\":1} trailing").is_none());
    assert!(parse_text("92233720368547758099").is_none());
}

#[test]
fn round_trips() {
    let v = obj(vec![
        ("s", jstr("quote \" slash \\ nl \n")),
        ("n", Json::Int(-12345)),
        ("arr", Json::Arr(vec![Json::Null, Json::Bool(false), jstr("")])),
        ("o", obj(vec![("inner", Json::Int(7))])),
    ]);
    let text = to_text(&v);
    let back = parse_text(&text).unwrap();
    assert_eq!(to_text(&back), text);
}

#[test]
fn later_duplicate_key_wins() {
    let v = parse_text("{\"a\": 1, \"a\": 2}").unwrap();
    assert_eq!(to_text(&v), "{\"a\":2}");
}

#[test]
fn object_lookup_and_insert() {
    let v = obj(vec![("a", Json::Int(1)), ("b", Json::Int(2))]);
    assert_eq!(to_text(v.get("a").unwrap()), "1");
    assert!(v.get("missing").is_none());
    let v2 = v.insert("a".to_string(), Json::Int(9));
    assert_eq!(to_text(&v2), "{\"a\":9,\"b\":2}");
    let v3 = v2.insert("c".to_string(), Json::Null);
    assert_eq!(to_text(&v3), "{\"a\":9,\"b\":2,\"c\":null}");
}

#[test]
fn truthiness() {
    assert!(!Json::Null.is_truthy());
    assert!(!Json::Bool(false).is_truthy());
    assert!(Json::Bool(true).is_truthy());
    assert!(!Json::Int(0).is_truthy());
    assert!(Json::Int(3).is_truthy());
    assert!(!jstr("").is_truthy());
    assert!(jstr("x").is_truthy());
    assert!(Json::Arr(vec![]).is_truthy());
    assert!(obj(vec![]).is_truthy());
}

#[test]
fn int_strings() {
    assert_eq!(int_string(0), "0");
    assert_eq!(int_string(100), "100");
    assert_eq!(int_string(-7), "-7");
}

#[test]
fn replaces_all_occurrences() {
    let s = str_to_chars("one fish two fish");
    let pat = str_to_chars("fish");
    let repl = str_to_chars("cat");
    assert_eq!(
        chars_to_string(&replace_chars(&s, &pat, &repl)),
        "one cat two cat"
    );
    let none = str_to_chars("dog");
    assert_eq!(
        chars_to_string(&replace_chars(&s, &none, &repl)),
        "one fish two fish"
    );
}

#[test]
fn splits_like_std() {
    let s = str_to_chars("a..b.");
    let parts = split_chars(&s, '.');
    let got: Vec<String> = parts.iter().map(|p| chars_to_string(p)).collect();
    assert_eq!(got, vec!["a", "", "b", ""]);
    let empty = str_to_chars("");
    let parts = split_chars(&empty, '.');
    assert_eq!(parts.len(), 1);
    assert_eq!(chars_to_string(&parts[0]), "");
}

#[test]
fn extreme_integers_round_trip() {
    let min = to_text(&parse_text("-9223372036854775808").unwrap());
    assert_eq!(min, "-9223372036854775808");
    let max = to_text(&parse_text("9223372036854775807").unwrap());
    assert_eq!(max, "9223372036854775807");
    assert!(parse_text("9223372036854775808").is_none());
    assert!(parse_text("-9223372036854775809").is_none());
}

#[test]
fn surrogate_escapes_are_rejected() {
    assert!(parse_text("\"\\ud800\"").is_none());
    assert!(parse_text("\"\\q\"").is_none());
}
