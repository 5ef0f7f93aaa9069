use ous::clock::Instant;
use ous::daily_notes::{daily_note, daily_note_file_name, daily_window, daily_writer_due, DailyWindow};
use ous::dreaming::{
    apply_memory_proposals, apply_one, dream_outcome, dream_prompt, is_dream_trigger, recent_entries, select_since,
    MemoryWarning,
};
use ous::journal::MemoryManager;
use ous::json::{json_count, json_str, Json};
use ous::melatonin::{has_decision, melatonin_report, staging_report};
use ous::minor_league::{
    importance, partition_for_pruning, partition_for_pruning_now, partition_with, tombstones_for,
    without_nulls, ARCHIVE_BELOW_UNITS, SCORE_UNITS,
};

// 2026-06-03T15:00:00Z
const JUNE_3_15H: i64 = 1780498800;
// 2026-06-02T00:00:00Z
const JUNE_2_MIDNIGHT: i64 = 1780358400;
const DAY: i64 = 86400;

fn object(pairs: Vec<(&str, Json)>) -> Json {
    Json::Object(pairs.into_iter().map(|(k, v)| (k.to_string(), v)).collect())
}

fn at(secs: i64) -> Instant {
    Instant { secs, nanos: 0 }
}

fn entry(kind: &str, stamp: &str, after: Json) -> Json {
    object(vec![
        ("entry_id", json_str(&format!("{}@{}", kind, stamp))),
        ("timestamp", json_str(stamp)),
        ("entity_type", json_str(kind)),
        ("after_state", after),
    ])
}

fn approved(stamp: &str, yes: bool) -> Json {
    object(vec![
        ("entry_id", json_str(stamp)),
        ("timestamp", json_str(stamp)),
        ("entity_type", json_str("capture")),
        ("approved_by_user", Json::Bool(yes)),
    ])
}

fn ids(v: &[Json]) -> Vec<String> {
    v.iter().map(|e| e.text_at("entry_id")).collect()
}

#[test]
fn dream_trigger_is_an_exact_message() {
    assert!(is_dream_trigger("dream:trigger"));
    assert!(is_dream_trigger("dream:trigger:"));
    assert!(!is_dream_trigger("dream:trigger:x"));
    assert!(!is_dream_trigger("dream:trigger "));
    assert!(!is_dream_trigger("dream"));
}

#[test]
fn recent_entries_keep_those_at_or_after_the_moment() {
    let since = at(JUNE_3_15H - DAY);
    let entries = vec![
        approved("2026-06-03T10:00:00Z", false),
        approved("2026-06-02T14:59:59Z", false),
        approved("2026-06-02T15:00:00Z", false),
        object(vec![("entry_id", json_str("no-time"))]),
        approved("not a time", false),
    ];
    let r = recent_entries(entries, since);
    assert_eq!(ids(&r), vec!["2026-06-03T10:00:00Z", "2026-06-02T15:00:00Z"]);
}

#[test]
fn select_since_uses_the_given_times() {
    let entries = vec![json_str("a"), json_str("b"), json_str("c")];
    let stamps = vec![Some(at(10)), None, Some(at(5))];
    let r = select_since(entries, &stamps, at(6));
    assert_eq!(r, vec![json_str("a")]);
}

#[test]
fn dream_prompt_lists_suggestions_recent_entries_and_memory() {
    let head = "You are Ous, a cognitive OS. Review the recent journal entries and existing MEMORY.md. Propose updates as a JSON array. Each element must match one of these schemas exactly:\n\n{\"action\":\"add\",\"section\":\"<heading>\",\"content\":\"<markdown text>\"}\n{\"action\":\"update\",\"section\":\"<heading>\",\"old\":\"<exact existing text>\",\"new\":\"<replacement text>\"}\n{\"action\":\"remove\",\"section\":\"<heading>\",\"content\":\"<exact text to remove>\"}\n\nOutput ONLY a valid JSON array. No preamble, no markdown fences, no explanation.\n\n";
    let with = dream_prompt(Some("{}"), "[1]", "# M");
    assert_eq!(
        with,
        format!(
            "{}SUGGESTIONS (not authoritative):\n{{}}\n\n\nRecent entries:\n[1]\n\nExisting MEMORY.md:\n# M\n",
            head
        )
    );
    let without = dream_prompt(None, "[]", "");
    assert_eq!(without, format!("{}\nRecent entries:\n[]\n\nExisting MEMORY.md:\n\n", head));
}

#[test]
fn add_proposals_append_sections() {
    let proposals = vec![
        object(vec![
            ("action", json_str("add")),
            ("section", json_str("Architecture Decisions")),
            ("content", json_str("Use Ollama for all local AI inference to avoid cloud dependencies")),
        ]),
        object(vec![
            ("action", json_str("add")),
            ("section", json_str("Project Status")),
            ("content", json_str("Memory consolidation system now handles daily notes")),
        ]),
    ];
    let (memory, warnings) = apply_memory_proposals("# MEMORY\n", &proposals);
    assert_eq!(
        memory,
        "# MEMORY\n\n## Architecture Decisions\nUse Ollama for all local AI inference to avoid cloud dependencies\n\n## Project Status\nMemory consolidation system now handles daily notes\n"
    );
    assert!(warnings.is_empty());
}

#[test]
fn update_and_remove_change_the_first_occurrence() {
    let update = object(vec![
        ("action", json_str("update")),
        ("old", json_str("SQLite")),
        ("new", json_str("PostgreSQL")),
    ]);
    let (m, w) = apply_one("Use SQLite. SQLite is fine.".to_string(), &update);
    assert_eq!(m, "Use PostgreSQL. SQLite is fine.");
    assert_eq!(w, None);
    let remove = object(vec![("action", json_str("remove")), ("content", json_str(" is fine"))]);
    let (m, w) = apply_one(m, &remove);
    assert_eq!(m, "Use PostgreSQL. SQLite.");
    assert_eq!(w, None);
}

#[test]
fn missing_texts_give_warnings_and_change_nothing() {
    let proposals = vec![
        object(vec![("action", json_str("update")), ("old", json_str("zzz")), ("new", json_str("y"))]),
        object(vec![("action", json_str("remove")), ("content", json_str("qqq"))]),
        object(vec![("action", json_str("rename")), ("content", json_str("a"))]),
        object(vec![("content", json_str("a"))]),
    ];
    let (m, w) = apply_memory_proposals("abc", &proposals);
    assert_eq!(m, "abc");
    assert_eq!(w, vec![MemoryWarning::UpdateTextMissing, MemoryWarning::RemoveTextMissing]);
}

#[test]
fn importance_follows_the_documented_formula() {
    // 45-day-old unapproved entry: 0.5 * 0.2 + 0 * 0.5 = 0.1.
    assert_eq!(importance(45 * DAY as i128, false), SCORE_UNITS / 10);
    assert!(importance(45 * DAY as i128, false) < ARCHIVE_BELOW_UNITS);
    // 15-day-old approved entry: (75/90) * 0.2 + 1 * 0.5 = 0.666...
    assert_eq!(importance(15 * DAY as i128, true), 51_840_000);
    assert!(importance(15 * DAY as i128, true) >= ARCHIVE_BELOW_UNITS);
    // Less than a day old: full recency; 90 days and more: none.
    assert_eq!(importance(3600, false), SCORE_UNITS / 5);
    assert_eq!(importance(-5, false), SCORE_UNITS / 5);
    assert_eq!(importance(90 * DAY as i128, true), SCORE_UNITS / 2);
    assert_eq!(importance(1000 * DAY as i128, false), 0);
}

#[test]
fn thirty_days_is_the_boundary() {
    let now = Instant { secs: JUNE_3_15H, nanos: 500 };
    let exactly = Instant { secs: JUNE_3_15H - 30 * DAY, nanos: 500 };
    let just_older = Instant { secs: JUNE_3_15H - 30 * DAY, nanos: 499 };
    let entries = vec![json_str("exact"), json_str("older")];
    let (archive, keep) = partition_with(entries, &vec![Some(exactly), Some(just_older)], now);
    assert_eq!(archive, vec![json_str("older")]);
    assert_eq!(keep, vec![json_str("exact")]);
}

#[test]
fn old_unapproved_entries_go_to_the_minor_league() {
    let entries = vec![
        // 45 days old, unapproved: moves.
        approved("2026-04-19T15:00:00Z", false),
        // 15 days old, approved: stays.
        approved("2026-05-19T15:00:00Z", true),
        // 45 days old, approved: stays.
        approved("2026-04-19T15:00:01Z", true),
        // 15 days old, unapproved: stays.
        approved("2026-05-19T15:00:01Z", false),
        // no time: stays.
        object(vec![("entry_id", json_str("timeless"))]),
        // 31 days old, approval not a flag: moves.
        object(vec![
            ("entry_id", json_str("odd")),
            ("timestamp", json_str("2026-05-03T14:00:00+00:00")),
            ("approved_by_user", json_str("yes")),
        ]),
    ];
    let (archive, keep) = partition_for_pruning(entries, at(JUNE_3_15H));
    assert_eq!(ids(&archive), vec!["2026-04-19T15:00:00Z", "odd"]);
    assert_eq!(
        ids(&keep),
        vec!["2026-05-19T15:00:00Z", "2026-04-19T15:00:01Z", "2026-05-19T15:00:01Z", "timeless"]
    );
}

#[test]
fn partition_with_given_times() {
    let entries = vec![json_str("a"), approved("b", true), json_str("c")];
    let stamps = vec![Some(at(1)), Some(at(1)), None];
    let (archive, keep) = partition_with(entries, &stamps, at(40 * DAY));
    assert_eq!(archive, vec![json_str("a")]);
    assert_eq!(keep.len(), 2);
    assert_eq!(keep[1], json_str("c"));
}

#[test]
fn pruning_now_keeps_recent_entries() {
    let entries = vec![approved("2020-01-01T00:00:00Z", false), approved("2999-01-01T00:00:00Z", false)];
    let (archive, keep) = partition_for_pruning_now(entries);
    assert_eq!(ids(&archive), vec!["2020-01-01T00:00:00Z"]);
    assert_eq!(ids(&keep), vec!["2999-01-01T00:00:00Z"]);
}

#[test]
fn tombstones_name_each_archived_entry() {
    let mm = MemoryManager::new("ledger.jsonl");
    let archived = vec![approved("first", false), object(vec![("x", Json::Null)])];
    let t = tombstones_for(&mm, &archived);
    assert_eq!(t.len(), 2);
    assert_eq!(t[0].text_at("original_entry_id"), "first");
    assert_eq!(t[1].text_at("original_entry_id"), "");
    assert_eq!(t[0].text_at("entity_type"), "archived");
    assert_ne!(t[0].text_at("entry_id"), t[1].text_at("entry_id"));
}

#[test]
fn kept_entries_drop_nulls() {
    let r = without_nulls(vec![Json::Null, json_str("a"), Json::Null, json_count(2)]);
    assert_eq!(r, vec![json_str("a"), json_count(2)]);
}

#[test]
fn daily_writer_runs_in_the_first_minutes_after_midnight() {
    let midnight = JUNE_2_MIDNIGHT + DAY;
    assert!(daily_writer_due(midnight));
    assert!(daily_writer_due(midnight + 2 * 60 + 59));
    assert!(!daily_writer_due(midnight + 3 * 60));
    assert!(!daily_writer_due(midnight - 1));
    assert!(!daily_writer_due(JUNE_3_15H));
}

#[test]
fn daily_window_is_the_previous_day() {
    let w = daily_window(at(JUNE_2_MIDNIGHT + DAY + 120));
    assert_eq!(
        w,
        DailyWindow {
            date: "2026-06-02".to_string(),
            start: at(JUNE_2_MIDNIGHT),
            end: at(JUNE_2_MIDNIGHT + DAY - 1),
        }
    );
    assert_eq!(daily_note_file_name(&w.date), "2026-06-02.md");
}

#[test]
fn daily_note_groups_the_day_by_type() {
    let entries = vec![
        entry("capture", "2026-06-02T10:00:00Z", object(vec![("content", json_str("Fixed bug in AI router"))])),
        entry("decision", "2026-06-02T00:00:00Z", object(vec![("summary", json_str("Decided to use Ollama for local AI"))])),
        entry(
            "project",
            "2026-06-02T12:00:00+02:00",
            object(vec![("name", json_str("Memory Consolidation")), ("status", json_str("active"))]),
        ),
        entry("error", "2026-06-02T18:00:00Z", object(vec![("content", json_str("CPU sensor timeout error"))])),
        entry("capture", "2026-06-02T23:59:59Z", object(vec![("content", json_str("Updated memory manager interface"))])),
        entry("capture", "2026-06-03T00:00:00Z", object(vec![("content", json_str("tomorrow"))])),
        entry("capture", "2026-06-01T23:59:59Z", object(vec![("content", json_str("before"))])),
        entry("note", "2026-06-02T10:00:00Z", object(vec![("content", json_str("other"))])),
        entry("capture", "2026-06-02T11:00:00Z", Json::Null),
    ];
    let note = daily_note("2026-06-02", &entries, at(JUNE_2_MIDNIGHT), at(JUNE_2_MIDNIGHT + DAY - 1));
    assert_eq!(
        note,
        "# Daily Note - 2026-06-02\n\n## Captures\n- Fixed bug in AI router\n- Updated memory manager interface\n- \n\n## Decisions\n- Decided to use Ollama for local AI\n\n## Projects\n- Memory Consolidation (active)\n\n## Errors\n- CPU sensor timeout error\n"
    );
}

#[test]
fn daily_note_of_the_documented_day() {
    let day = |h: u32| format!("2026-06-02T{:02}:00:00Z", h);
    let entries = vec![
        entry("capture", &day(9), object(vec![("content", json_str("Fixed bug in AI router"))])),
        entry("capture", &day(10), object(vec![("content", json_str("Updated memory manager interface"))])),
        entry("decision", &day(11), object(vec![("summary", json_str("Decided to use Ollama for local AI"))])),
        entry("decision", &day(12), object(vec![("summary", json_str("Chose PostgreSQL over SQLite"))])),
        entry(
            "project",
            &day(13),
            object(vec![("name", json_str("Memory Consolidation")), ("status", json_str("active"))]),
        ),
        entry(
            "project",
            &day(14),
            object(vec![("name", json_str("Workspace Observer")), ("status", json_str("active"))]),
        ),
        entry("error", &day(15), object(vec![("content", json_str("CPU sensor timeout error"))])),
    ];
    let note = daily_note("2026-06-02", &entries, at(JUNE_2_MIDNIGHT), at(JUNE_2_MIDNIGHT + DAY - 1));
    assert_eq!(
        note,
        "# Daily Note - 2026-06-02

## Captures
- Fixed bug in AI router
- Updated memory manager interface

## Decisions
- Decided to use Ollama for local AI
- Chose PostgreSQL over SQLite

## Projects
- Memory Consolidation (active)
- Workspace Observer (active)

## Errors
- CPU sensor timeout error
"
    );
}

#[test]
fn empty_daily_note_has_every_heading() {
    let note = daily_note("2026-01-01", &Vec::new(), at(0), at(1));
    assert_eq!(
        note,
        "# Daily Note - 2026-01-01\n\n## Captures\n\n## Decisions\n\n## Projects\n\n## Errors\n"
    );
}

#[test]
fn decisions_and_errors_are_recognised() {
    assert!(has_decision(&object(vec![("after_state", object(vec![("decision", Json::Null)]))])));
    assert!(has_decision(&object(vec![("after_state", object(vec![("error", json_str("x"))]))])));
    assert!(!has_decision(&object(vec![("after_state", object(vec![("content", json_str("x"))]))])));
    assert!(!has_decision(&object(vec![("decision", json_str("x"))])));
    assert!(!has_decision(&Json::Null));
}

fn melatonin_entries() -> Vec<Json> {
    vec![
        approved("2026-06-03T10:00:00Z", true),
        entry("decision", "2026-06-03T11:00:00Z", object(vec![("decision", json_str("use Ollama"))])),
        approved("2026-06-01T10:00:00Z", true),
        approved("2026-06-03T12:00:00Z", false),
        object(vec![("entity_type", json_str("capture"))]),
        object(vec![("timestamp", json_str("2026-06-03T13:00:00Z"))]),
    ]
}

#[test]
fn melatonin_report_groups_the_last_day() {
    let r = melatonin_report(melatonin_entries(), at(JUNE_3_15H));
    let all = melatonin_entries();
    let e = |i: usize| all[i].deep_clone();
    let expected = object(vec![
        ("generated_at", json_str("2026-06-03T15:00:00+00:00")),
        (
            "period",
            object(vec![
                ("start", json_str("2026-06-02T15:00:00+00:00")),
                ("end", json_str("2026-06-03T15:00:00+00:00")),
            ]),
        ),
        (
            "grouped_by_type",
            object(vec![
                ("capture", Json::Array(vec![e(0), e(3)])),
                ("decision", Json::Array(vec![e(1)])),
                ("unknown", Json::Array(vec![e(5)])),
            ]),
        ),
        ("approved_count", json_count(1)),
        ("approved_entries", Json::Array(vec![e(0)])),
        ("decision_entries", Json::Array(vec![e(1)])),
    ]);
    assert_eq!(r, expected);
}

#[test]
fn staging_report_of_nothing() {
    let r = staging_report(&Vec::new(), "g", "s");
    let expected = object(vec![
        ("generated_at", json_str("g")),
        ("period", object(vec![("start", json_str("s")), ("end", json_str("g"))])),
        ("grouped_by_type", object(vec![])),
        ("approved_count", json_count(0)),
        ("approved_entries", Json::Array(vec![])),
        ("decision_entries", Json::Array(vec![])),
    ]);
    assert_eq!(r, expected);
}

#[test]
fn published_dream_trigger_starts_a_cycle() {
    let bus = ous::bus::MessageBus::new();
    let mut rx = bus.subscribe();
    bus.publish("dream:trigger", "");
    assert!(is_dream_trigger(&rx.try_recv().unwrap()));
}

#[test]
fn memory_changes_only_when_approved() {
    let proposals = vec![object(vec![
        ("action", json_str("add")),
        ("section", json_str("S")),
        ("content", json_str("c")),
    ])];
    assert_eq!(dream_outcome("m", &proposals, false), None);
    assert_eq!(dream_outcome("m", &proposals, true), Some(("m\n## S\nc\n".to_string(), vec![])));
}
