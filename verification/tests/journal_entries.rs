use ous::clock::Instant;
use ous::journal::{entry_stamp, entry_stamps, project_id, MemoryManager};
use ous::json::{json_str, Json};

fn entry_object(pairs: Vec<(&str, Json)>) -> Json {
    Json::Object(pairs.into_iter().map(|(k, v)| (k.to_string(), v)).collect())
}

fn keys_of_object(j: &Json) -> Vec<String> {
    match j {
        Json::Object(f) => f.iter().map(|(k, _)| k.clone()).collect(),
        _ => Vec::new(),
    }
}

const ENTRY_KEYS: [&str; 10] = [
    "entry_id",
    "timestamp",
    "schema_version",
    "entity_type",
    "entity_id",
    "operation",
    "before_state",
    "after_state",
    "reason_capture_id",
    "approved_by_user",
];

#[test]
fn memory_manager_keeps_its_path() {
    let m = MemoryManager::new("data/memory/ledger.jsonl");
    assert_eq!(m.path(), "data/memory/ledger.jsonl");
}

#[test]
fn loaded_lines_skip_bad_lines_and_tombstones() {
    let capture = entry_object(vec![("entity_type", json_str("capture")), ("entity_id", json_str("a"))]);
    let tomb = entry_object(vec![("entity_type", json_str("archived"))]);
    let untyped = entry_object(vec![("x", json_str("y"))]);
    let lines = vec![Some(capture), None, Some(tomb), Some(Json::Null), Some(untyped)];
    let entries = MemoryManager::entries_from_lines(lines);
    assert_eq!(entries.len(), 3);
    assert_eq!(entries[0].text_at("entity_id"), "a");
    assert!(entries[1].is_null());
    assert_eq!(entries[2].text_at("x"), "y");
}

#[test]
fn appended_entry_is_read_back() {
    let first = entry_object(vec![("entity_id", json_str("one"))]);
    let second = entry_object(vec![("entity_id", json_str("two"))]);
    let entries = MemoryManager::entries_from_lines(vec![Some(first), Some(second)]);
    assert_eq!(entries.len(), 2);
    assert_eq!(entries[1].text_at("entity_id"), "two");
}

#[test]
fn capture_entry_follows_the_schema() {
    let e = MemoryManager::capture_entry(
        "id-1".to_string(),
        "2026-06-03T15:00:00+00:00".to_string(),
        "cap1",
        "Fixed bug",
        "packet",
    );
    assert_eq!(keys_of_object(&e), ENTRY_KEYS.iter().map(|s| s.to_string()).collect::<Vec<_>>());
    assert_eq!(e.text_at("entry_id"), "id-1");
    assert_eq!(e.text_at("timestamp"), "2026-06-03T15:00:00+00:00");
    assert_eq!(e.field("schema_version"), Some(&Json::Number("1".to_string())));
    assert_eq!(e.text_at("entity_type"), "capture");
    assert_eq!(e.text_at("entity_id"), "cap1");
    assert_eq!(e.text_at("operation"), "create");
    assert!(e.field("before_state").unwrap().is_null());
    assert!(e.field("reason_capture_id").unwrap().is_null());
    assert_eq!(e.field("approved_by_user"), Some(&Json::Bool(false)));
    let after = e.field("after_state").unwrap();
    assert_eq!(after.text_at("content"), "Fixed bug");
    assert_eq!(after.text_at("source"), "packet");
}

#[test]
fn project_entry_identifier_uses_category_and_underscores() {
    let e = MemoryManager::project_entry(
        "id".to_string(),
        "t0".to_string(),
        "Memory Consolidation",
        "work",
        "t1".to_string(),
    );
    assert_eq!(e.text_at("entity_id"), "project:work:Memory_Consolidation");
    assert_eq!(e.text_at("entity_type"), "project");
    let after = e.field("after_state").unwrap();
    assert_eq!(keys_of_object(after), vec!["name", "status", "category", "priority", "last_updated"]);
    assert_eq!(after.text_at("name"), "Memory Consolidation");
    assert_eq!(after.text_at("status"), "active");
    assert_eq!(after.text_at("category"), "work");
    assert_eq!(after.text_at("priority"), "normal");
    assert_eq!(after.text_at("last_updated"), "t1");
    assert_eq!(project_id("life", "a b"), "project:life:a_b");
}

#[test]
fn project_update_entry_records_both_statuses() {
    let e = MemoryManager::project_update_entry("id".to_string(), "t".to_string(), "Big Thing", "active", "done", "work");
    assert_eq!(e.text_at("entity_type"), "project_update");
    assert_eq!(e.text_at("entity_id"), "project_update:Big_Thing");
    assert_eq!(e.text_at("operation"), "update");
    assert_eq!(e.field("before_state").unwrap().text_at("status"), "active");
    let after = e.field("after_state").unwrap();
    assert_eq!(after.text_at("name"), "Big Thing");
    assert_eq!(after.text_at("status"), "done");
    assert_eq!(after.text_at("category"), "work");
}

#[test]
fn tombstone_names_the_archived_entry() {
    let e = MemoryManager::tombstone_entry("id".to_string(), "t".to_string(), "old-entry");
    assert_eq!(e.text_at("entity_type"), "archived");
    assert_eq!(e.text_at("original_entry_id"), "old-entry");
    assert_eq!(e.text_at("operation"), "archive");
    assert!(e.field("after_state").unwrap().is_null());
    assert_eq!(e.field("approved_by_user"), Some(&Json::Bool(true)));
    assert!(e.field("entity_id").is_none());
}

#[test]
fn new_entries_get_fresh_identifiers_and_times() {
    let m = MemoryManager::new("ledger.jsonl");
    let a = m.new_capture_entry("c", "content", "src");
    let b = m.new_capture_entry("c", "content", "src");
    let ida = a.text_at("entry_id");
    let idb = b.text_at("entry_id");
    assert_eq!(ida.len(), 36);
    assert_ne!(ida, idb);
    let stamp = entry_stamp(&a).expect("the entry's time parses");
    assert!(stamp.secs > 1_700_000_000);
    let p = m.new_project_entry("P", "work", true);
    assert!(p.field("after_state").unwrap().text_at("last_updated").ends_with("+00:00"));
    let u = m.new_project_update_entry("P", "active", "done", "work");
    assert_eq!(u.text_at("entity_type"), "project_update");
    let t = m.new_archived_entry("x");
    assert_eq!(t.text_at("original_entry_id"), "x");
}

#[test]
fn entry_times_are_parsed_as_rfc3339() {
    let a = entry_object(vec![("timestamp", json_str("2026-06-03T15:00:00Z"))]);
    let b = entry_object(vec![("timestamp", json_str("2026-06-03T17:00:00+02:00"))]);
    let c = entry_object(vec![("timestamp", json_str("yesterday"))]);
    let d = entry_object(vec![("timestamp", Json::Bool(true))]);
    let stamps = entry_stamps(&vec![a, b, c, d]);
    let expected = Instant { secs: 1780498800, nanos: 0 };
    assert_eq!(stamps, vec![Some(expected), Some(expected), None, None]);
}
