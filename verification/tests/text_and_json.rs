use ous::json::{json_count, json_str, Json};
use ous::text::{
    after_first_text, before_first_text, contains_text, decimal_text, ends_with_text,
    find, owned, replace_first_text, same_text, starts_with_text, strip_prefix_text, trim_text,
    underscore_spaces,
};

fn text_object(pairs: Vec<(&str, Json)>) -> Json {
    Json::Object(pairs.into_iter().map(|(k, v)| (k.to_string(), v)).collect())
}

#[test]
fn trim_removes_unicode_white_space_at_both_ends() {
    assert_eq!(trim_text("  \t hello world \n\u{3000}"), "hello world");
    assert_eq!(trim_text("\u{a0}\u{2028}"), "");
    assert_eq!(trim_text("x"), "x");
    assert_eq!(trim_text(""), "");
}

#[test]
fn replace_first_changes_only_the_first_occurrence() {
    assert_eq!(replace_first_text("a-b-c", "-", "+"), "a+b-c");
    assert_eq!(replace_first_text("abc", "x", "y"), "abc");
    assert_eq!(replace_first_text("abc", "", "X"), "Xabc");
    assert_eq!(replace_first_text("aaa", "aa", "b"), "ba");
}

#[test]
fn find_gives_the_leftmost_match() {
    let s: Vec<char> = "abcabc".chars().collect();
    let p: Vec<char> = "ca".chars().collect();
    assert_eq!(find(&s, &p), Some(2));
    let q: Vec<char> = "zz".chars().collect();
    assert_eq!(find(&s, &q), None);
    let empty: Vec<char> = Vec::new();
    assert_eq!(find(&s, &empty), Some(0));
}

#[test]
fn prefix_suffix_and_pieces() {
    assert!(starts_with_text("workspace:cpu", "workspace:"));
    assert!(!starts_with_text("work", "workspace:"));
    assert!(ends_with_text("a.json", ".json"));
    assert!(!ends_with_text("a.jsonl", ".json"));
    assert_eq!(strip_prefix_text("ai:run:x|y", "ai:run:"), Some("x|y".to_string()));
    assert_eq!(strip_prefix_text("ai:x", "ai:run:"), None);
    assert_eq!(before_first_text("a|b|c", "|"), "a");
    assert_eq!(before_first_text("abc", "|"), "abc");
    assert_eq!(after_first_text("a|b|c", "|"), Some("b|c".to_string()));
    assert_eq!(after_first_text("abc", "|"), None);
    assert!(contains_text("hello", "ell"));
    assert!(contains_text("hello", ""));
    assert!(!contains_text("hello", "z"));
}

#[test]
fn decimal_text_writes_digits() {
    assert_eq!(decimal_text(0), "0");
    assert_eq!(decimal_text(7), "7");
    assert_eq!(decimal_text(10), "10");
    assert_eq!(decimal_text(1234567), "1234567");
}

#[test]
fn spaces_become_underscores() {
    assert_eq!(underscore_spaces("My Big  Project"), "My_Big__Project");
}

#[test]
fn owned_concat_and_same_text() {
    assert_eq!(owned("héllo"), "héllo");
    assert_eq!(ous::text::concat("ab", "çd"), "abçd");
    assert!(same_text("é", "é"));
    assert!(!same_text("e", "é"));
}

#[test]
fn json_field_access_follows_value_indexing() {
    let v = text_object(vec![
        ("timestamp", json_str("2026-06-03T15:00:00Z")),
        ("approved_by_user", Json::Bool(true)),
        ("after_state", text_object(vec![("content", json_str("hi"))])),
        ("n", Json::Null),
    ]);
    assert_eq!(v.str_at("timestamp").map(|s| s.as_str()), Some("2026-06-03T15:00:00Z"));
    assert_eq!(v.text_at("missing"), "");
    assert_eq!(v.text_at("approved_by_user"), "");
    assert!(v.flag_at("approved_by_user"));
    assert!(!v.flag_at("timestamp"));
    assert!(v.field("n").is_some());
    assert!(v.field("n").unwrap().is_null());
    assert!(v.field("nope").is_none());
    assert!(json_str("x").field("a").is_none());
    assert_eq!(v.field("after_state").unwrap().text_at("content"), "hi");
}

#[test]
fn json_with_replaces_or_appends_a_member() {
    let v = text_object(vec![("a", json_count(1)), ("b", json_count(2))]);
    let v = v.with("a".to_string(), json_str("one"));
    let v = v.with("c".to_string(), Json::Bool(false));
    let expected = text_object(vec![
        ("a", json_str("one")),
        ("b", Json::Number("2".to_string())),
        ("c", Json::Bool(false)),
    ]);
    assert_eq!(v, expected);
    let from_null = Json::Null.with("k".to_string(), Json::Null);
    assert_eq!(from_null, text_object(vec![("k", Json::Null)]));
    assert!(json_str("s").accepts_members() == false);
    assert!(Json::Null.accepts_members());
}

#[test]
fn json_deep_clone_is_equal() {
    let v = text_object(vec![
        ("list", Json::Array(vec![json_count(3), json_str("x"), Json::Null])),
        ("inner", text_object(vec![("flag", Json::Bool(true))])),
    ]);
    assert_eq!(v.deep_clone(), v);
}
