use ous::ai_router::{ollama_answer, ollama_url, AIExecutor, ExecutionPlan, ModelType, TaskRouter};
use ous::bus::{bus_message, wire, BusMessage, MessageBus};
use ous::clock::Instant;
use ous::dashboard::{dashboard_page, DashboardPage};
use ous::guided::{
    guided_proposal, classify_prompt, classify_task, manual_entry, new_manual_entry, stamp_entry, stamp_new_entry,
    GuidedWatcher,
};
use ous::journal::MemoryManager;
use ous::json::{json_str, Json};
use ous::lytho::{lytho_cache, ExportCandidate, LythoWatcher};
use ous::observer::PatternObserver;
use ous::packets::{
    find_project, mark_approved, packet_file, plan_packet, project_category, publications, self_edit_task,
    settle_entry, settle_plan, Packet, PacketAction, PacketPlan, PlanEffects,
};
use ous::reply::{json_payload, payload, rust_payload};
use ous::scheduler::{hour_and_day, Scheduler, SchedulerActions};
use ous::signals::{
    ai_run_request, capture_content, categorize, categorize_lowercase, category_name, conscious_text,
    find_by_entity_id, is_approval, new_capture_id, Category,
};
use ous::status::{event_status, event_status_now, heartbeat_status, heartbeat_status_now, StatusWriter};
use ous::work_manager::{
    apply_project_update, collect_work_projects, project_list, rebuild_projects, rebuild_projects_at,
    update_project,
};

fn object(pairs: Vec<(&str, Json)>) -> Json {
    Json::Object(pairs.into_iter().map(|(k, v)| (k.to_string(), v)).collect())
}

fn messages(v: &[BusMessage]) -> Vec<(String, String)> {
    v.iter().map(|m| (m.topic.clone(), m.payload.clone())).collect()
}

fn project(name: &str, category: &str, status: &str) -> Json {
    MemoryManager::project_entry("pid".to_string(), "t0".to_string(), name, category, "t0".to_string())
        .with("after_state".to_string(), object(vec![
            ("name", json_str(name)),
            ("status", json_str(status)),
            ("category", json_str(category)),
        ]))
}

fn update(name: &str, category: &str, status: &str) -> Json {
    MemoryManager::project_update_entry("uid".to_string(), "t1".to_string(), name, "active", status, category)
}

#[test]
fn router_follows_the_first_matching_keyword() {
    let r = TaskRouter::new();
    assert_eq!(r.route("cpu_check"), ModelType::RuleBased);
    assert_eq!(r.route("keystroke"), ModelType::RuleBased);
    assert_eq!(r.route("summarize"), ModelType::TinyLocal);
    assert_eq!(r.route("analyze data"), ModelType::CloudGPT);
    assert_eq!(r.route("plan week"), ModelType::CloudGPT);
    assert_eq!(r.route("greet"), ModelType::TinyLocal);
    assert_eq!(r.route("unknown"), ModelType::TinyLocal);
    assert_eq!(r.route("summarize cpu"), ModelType::RuleBased);
}

#[test]
fn executor_plans_each_model() {
    let x = AIExecutor::new();
    assert_eq!(x.plan("cpu", "42%"), ExecutionPlan::Answer("Rule result for cpu: 42%".to_string()));
    assert_eq!(x.plan("analyze", "logs"), ExecutionPlan::Answer("[Cloud GPT] logs".to_string()));
    let body = object(vec![
        ("model", json_str("llama3.2")),
        ("prompt", json_str("hello")),
        ("stream", Json::Bool(false)),
    ]);
    assert_eq!(x.plan("greet", "hello"), ExecutionPlan::AskOllama(body));
    assert_eq!(ollama_url(), "http://localhost:11434/api/generate");
    assert_eq!(ollama_answer(&object(vec![("response", json_str("hi"))])), "hi");
    assert_eq!(ollama_answer(&object(vec![("response", Json::Bool(true))])), "No response");
    assert_eq!(ollama_answer(&Json::Null), "No response");
}

#[test]
fn bus_delivers_topic_and_payload() {
    let bus = MessageBus::new();
    let mut rx = bus.subscribe();
    bus.publish("memory", "new_capture:abc");
    bus.publish_message(&bus_message("dream", "trigger"));
    assert_eq!(rx.try_recv().unwrap(), "memory:new_capture:abc");
    assert_eq!(rx.try_recv().unwrap(), "dream:trigger");
    assert!(rx.try_recv().is_err());
    assert_eq!(wire("a", ""), "a:");
    assert_eq!(messages(&[bus_message("t", "p")]), vec![("t".to_string(), "p".to_string())]);
}

#[test]
fn observer_reports_the_third_repeat() {
    let mut o = PatternObserver::new();
    assert_eq!(o.observe("cpu:high"), None);
    assert_eq!(o.observe("workspace:cpu:high"), None);
    assert_eq!(o.observe("cpu:high"), None);
    assert_eq!(o.observe("pattern:cpu:high"), None);
    assert_eq!(o.observe("cpu:high"), Some("pattern:cpu:high".to_string()));
    assert_eq!(o.observe("cpu:high"), Some("pattern:cpu:high".to_string()));
    assert_eq!(o.history_len(), 4);
}

#[test]
fn observer_counts_only_the_latest_ten() {
    let mut o = PatternObserver::new();
    o.observe("x");
    o.observe("x");
    for i in 0..8 {
        o.observe(&format!("m{}", i));
    }
    // Only one of the early "x" is still among the latest ten.
    assert_eq!(o.observe("x"), None);
    for i in 0..200 {
        o.observe(&format!("n{}", i));
    }
    assert_eq!(o.history_len(), 100);
}

#[test]
fn signals_read_their_messages() {
    assert_eq!(conscious_text("workspace:cpu at 90%"), Some("cpu at 90%".to_string()));
    assert_eq!(conscious_text("memory:x"), None);
    assert_eq!(
        ai_run_request("ai:run:summarize|a|b"),
        Some(("summarize".to_string(), "a|b".to_string()))
    );
    assert_eq!(ai_run_request("ai:run:summarize"), None);
    assert_eq!(ai_run_request("ai:summarize|x"), None);
    assert!(is_approval(" Y \n"));
    assert!(is_approval("y"));
    assert!(!is_approval("yes"));
    assert!(!is_approval(""));
    assert_eq!(new_capture_id("memory:new_capture:abc"), Some("abc".to_string()));
    assert_eq!(new_capture_id("memory:other"), None);
}

#[test]
fn categories_of_captures() {
    assert_eq!(categorize("Lytho CSV export due"), Category::Work);
    assert_eq!(categorize("Fix the RUST sensor"), Category::Os);
    assert_eq!(categorize("Buy milk"), Category::Life);
    assert_eq!(categorize("project about ous"), Category::Work);
    assert_eq!(categorize_lowercase("Lytho"), Category::Life);
    assert_eq!(category_name(Category::Work), "work");
    assert_eq!(category_name(Category::Os), "os");
    assert_eq!(category_name(Category::Life), "life");
}

#[test]
fn captures_are_found_by_entity_id() {
    let entries = vec![
        object(vec![("entity_id", json_str("a"))]),
        object(vec![("entity_id", json_str("b")), ("after_state", object(vec![("content", json_str("first"))]))]),
        object(vec![("entity_id", json_str("b")), ("after_state", object(vec![("content", json_str("second"))]))]),
    ];
    assert_eq!(find_by_entity_id(&entries, "b"), Some(1));
    assert_eq!(find_by_entity_id(&entries, "c"), None);
    assert_eq!(capture_content(&entries[1]), "first");
    assert_eq!(capture_content(&entries[0]), "");
}

#[test]
fn dashboard_routes() {
    assert_eq!(dashboard_page("/"), DashboardPage::Index);
    assert_eq!(dashboard_page("/index.html"), DashboardPage::Index);
    assert_eq!(dashboard_page("/status.json"), DashboardPage::Status);
    assert_eq!(dashboard_page("/api/projects"), DashboardPage::Projects);
    assert_eq!(dashboard_page("/api/projects/"), DashboardPage::NotFound);
}

#[test]
fn status_is_written_only_when_it_changes() {
    let s = event_status("memory:x", "T");
    assert_eq!(s, object(vec![("last_event", json_str("memory:x")), ("timestamp", json_str("T"))]));
    assert_eq!(heartbeat_status("T"), object(vec![("heartbeat", json_str("T"))]));
    let live = event_status_now("m");
    assert_eq!(live.text_at("last_event"), "m");
    assert!(live.text_at("timestamp").ends_with("+00:00"));
    assert!(heartbeat_status_now().text_at("heartbeat").ends_with("+00:00"));
    let mut w = StatusWriter::new();
    assert!(w.offer("a".to_string()));
    assert!(!w.offer("a".to_string()));
    assert!(w.offer("b".to_string()));
    assert!(w.offer("a".to_string()));
    assert!(!StatusWriter::new().offer(String::new()));
}

fn cand(name: &str, is_file: bool, modified: Option<i64>) -> ExportCandidate {
    ExportCandidate { name: name.to_string(), is_file, modified: modified.map(|secs| Instant { secs, nanos: 0 }) }
}

#[test]
fn lytho_picks_the_last_newer_csv() {
    let mut w = LythoWatcher::new();
    let cands = vec![
        cand("a.csv", true, Some(10)),
        cand("b.csv", true, Some(5)),
        cand("dir.csv", false, Some(50)),
        cand("c.txt", true, Some(60)),
        cand("d.csv", true, None),
    ];
    assert_eq!(w.pick(&cands), Some(1));
    w.loaded(Instant { secs: 5, nanos: 0 });
    assert_eq!(w.last_mod, Some(Instant { secs: 5, nanos: 0 }));
    assert_eq!(w.pick(&cands), Some(0));
    w.loaded(Instant { secs: 10, nanos: 0 });
    assert_eq!(w.pick(&cands), None);
    assert_eq!(LythoWatcher::new().pick(&Vec::new()), None);
}

#[test]
fn lytho_cache_lists_the_records() {
    let (text, n) = lytho_cache("name,status\nA,active\n7,x\n").unwrap();
    assert_eq!(n, 2);
    assert_eq!(text, "[\n  \"A\",\n  7\n]");
    assert_eq!(lytho_cache("name\n").unwrap(), ("[]".to_string(), 0));
    assert!(lytho_cache("a,b\n1,2,3\n").is_err());
}

#[test]
fn scheduler_runs_each_job_once_a_day() {
    let mut s = Scheduler::new();
    assert_eq!(s.tick(0, 10), SchedulerActions { run_melatonin: false, trigger_dream: false });
    assert_eq!(s.tick(1, 10), SchedulerActions { run_melatonin: true, trigger_dream: false });
    assert_eq!(s.tick(1, 10), SchedulerActions { run_melatonin: false, trigger_dream: false });
    assert_eq!(s.tick(2, 10), SchedulerActions { run_melatonin: false, trigger_dream: true });
    assert_eq!(s.tick(2, 10), SchedulerActions { run_melatonin: false, trigger_dream: false });
    assert_eq!(s.tick(1, 11), SchedulerActions { run_melatonin: true, trigger_dream: false });
    assert_eq!((s.last_melatonin_day, s.last_dream_day), (11, 10));
    // 2026-06-03T15:00:00Z is hour 15 of day 154.
    assert_eq!(hour_and_day(Instant { secs: 1780498800, nanos: 0 }), (15, 154));
    assert_eq!(hour_and_day(Instant { secs: 0, nanos: 0 }), (0, 1));
    let mut fresh = Scheduler::new();
    let _ = fresh.check_now();
}

#[test]
fn reply_payload_is_the_fenced_block() {
    assert_eq!(json_payload("```json\n[1,2]\n```"), "\n[1,2]\n");
    assert_eq!(json_payload("  [1]  "), "[1]");
    assert_eq!(json_payload("text ```\n{}\n``` more"), "\n{}\n");
    assert_eq!(rust_payload("Here:\n```rust\nfn main() {}\n```\nDone"), "\nfn main() {}\n");
    assert_eq!(payload("<<a>>", "<<"), "a>>");
}

#[test]
fn work_projects_are_collected_and_updated() {
    let entries = vec![
        project("Alpha Beta", "work", "active"),
        project("Gamma", "life", "active"),
        update("Alpha Beta", "work", "done"),
        update("Missing", "work", "done"),
        update("Gamma", "life", "paused"),
    ];
    let map = collect_work_projects(&entries);
    match &map {
        Json::Object(f) => {
            assert_eq!(f.len(), 1);
            assert_eq!(f[0].0, "project:work:Alpha_Beta");
        }
        _ => panic!("the map is an object"),
    }
    let stamps: Vec<String> = vec!["s0", "s1", "s2", "s3", "s4"].into_iter().map(String::from).collect();
    let rebuilt = rebuild_projects_at(&entries, &stamps);
    let alpha = rebuilt.field("project:work:Alpha_Beta").unwrap();
    let state = alpha.field("after_state").unwrap();
    assert_eq!(state.text_at("status"), "done");
    assert_eq!(state.text_at("last_updated"), "s2");
    assert_eq!(state.text_at("name"), "Alpha Beta");
    assert!(rebuilt.field("project:life:Gamma").is_none());
    let list = project_list(&rebuilt);
    assert_eq!(list.len(), 1);
    let live = rebuild_projects(&entries);
    let live_state = live.field("project:work:Alpha_Beta").unwrap().field("after_state").unwrap();
    assert_eq!(live_state.text_at("status"), "done");
    assert!(live_state.text_at("last_updated").ends_with("+00:00"));
}

#[test]
fn updates_leave_non_objects_alone() {
    let p = object(vec![("after_state", json_str("x"))]);
    assert_eq!(update_project(p, "done", "t"), object(vec![("after_state", json_str("x"))]));
    let q = object(vec![("after_state", object(vec![("status", json_str("a"))]))]);
    assert_eq!(
        update_project(q, "done", "t"),
        object(vec![("after_state", object(vec![("status", json_str("done")), ("last_updated", json_str("t"))]))])
    );
    let map = object(vec![]);
    let not_update = object(vec![("entity_type", json_str("project"))]);
    assert_eq!(apply_project_update(map, &not_update, "t"), object(vec![]));
}

#[test]
fn packet_files_and_project_lookup() {
    assert!(packet_file("p1.json"));
    assert!(!packet_file("p1.json.archive"));
    assert!(!packet_file("archive_p1.json"));
    assert!(!packet_file("p1.txt"));
    let entries = vec![
        project("Other", "work", "active"),
        project("Site", "life", "paused"),
        project("Site", "work", "active"),
    ];
    assert_eq!(find_project(&entries, "Site"), ("paused".to_string(), "life".to_string()));
    assert_eq!(find_project(&entries, "None"), (String::new(), String::new()));
    assert_eq!(project_category(&None), "work");
    assert_eq!(project_category(&Some("life".to_string())), "life");
    assert_eq!(self_edit_task(), "self_edit");
    let m = mark_approved(object(vec![("approved_by_user", Json::Bool(false))]));
    assert_eq!(m, object(vec![("approved_by_user", Json::Bool(true))]));
    assert_eq!(mark_approved(Json::Null), Json::Null);
}

#[test]
fn packets_are_planned_by_type() {
    let mm = MemoryManager::new("ledger.jsonl");
    let regular = Packet::Regular {
        id: "p1".to_string(),
        task: "summarize".to_string(),
        prompt: "hello".to_string(),
        require_approval: Some(true),
    };
    match plan_packet(&mm, &regular, &Vec::new()) {
        PacketAction::Journal(p) => {
            assert_eq!(p.approval_question, None);
            assert!(!p.mark_approved);
            let e = p.entry.unwrap();
            assert_eq!(e.text_at("entity_id"), "p1");
            assert_eq!(e.field("after_state").unwrap().text_at("content"), "hello");
            assert_eq!(e.field("after_state").unwrap().text_at("source"), "packet");
            assert_eq!(messages(&p.on_appended), vec![("memory:new_capture".to_string(), "p1".to_string())]);
            assert_eq!(
                messages(&p.then_publish),
                vec![
                    ("ai:run".to_string(), "summarize|hello".to_string()),
                    ("suggestion".to_string(), "approve_packet:p1".to_string()),
                ]
            );
        }
        _ => panic!("a regular packet is journal work"),
    }
    let quiet = Packet::Regular { id: "p2".to_string(), task: "t".to_string(), prompt: "q".to_string(), require_approval: None };
    match plan_packet(&mm, &quiet, &Vec::new()) {
        PacketAction::Journal(p) => assert_eq!(messages(&p.then_publish), vec![("ai:run".to_string(), "t|q".to_string())]),
        _ => panic!("a regular packet is journal work"),
    }
    let proj = Packet::Project { name: "New Site".to_string(), context_hint: None, require_approval: None };
    match plan_packet(&mm, &proj, &Vec::new()) {
        PacketAction::Journal(p) => {
            assert_eq!(p.approval_question, Some("Create this project?".to_string()));
            assert!(p.mark_approved);
            assert_eq!(p.entry.unwrap().text_at("entity_id"), "project:work:New_Site");
            assert_eq!(messages(&p.on_appended), vec![("memory:new_capture".to_string(), "New Site".to_string())]);
            assert!(p.then_publish.is_empty());
        }
        _ => panic!("a project packet is journal work"),
    }
    let entries = vec![project("Site", "life", "paused")];
    let upd = Packet::ProjectUpdate { name: "Site".to_string(), status: "done".to_string(), require_approval: Some(false) };
    match plan_packet(&mm, &upd, &entries) {
        PacketAction::Journal(p) => {
            assert_eq!(p.approval_question, None);
            let e = p.entry.unwrap();
            assert_eq!(e.field("before_state").unwrap().text_at("status"), "paused");
            assert_eq!(e.field("after_state").unwrap().text_at("category"), "life");
            assert_eq!(e.field("after_state").unwrap().text_at("status"), "done");
            assert_eq!(
                messages(&p.on_appended),
                vec![("memory:new_capture".to_string(), "project_update:Site".to_string())]
            );
        }
        _ => panic!("an update packet is journal work"),
    }
    match plan_packet(&mm, &Packet::Dream { require_approval: None }, &Vec::new()) {
        PacketAction::Journal(p) => {
            assert_eq!(p.approval_question, Some("Trigger dreaming?".to_string()));
            assert!(p.entry.is_none());
            assert_eq!(messages(&p.then_publish), vec![("dream:trigger".to_string(), String::new())]);
        }
        _ => panic!("a dream packet is journal work"),
    }
    let edit = Packet::SelfEdit { prompt: "add a test".to_string(), require_approval: None };
    assert_eq!(
        plan_packet(&mm, &edit, &Vec::new()),
        PacketAction::SelfEdit { prompt: "add a test".to_string(), needs_approval: true }
    );
}

#[test]
fn guided_notes_are_handled_once() {
    let mut w = GuidedWatcher::new();
    assert!(w.wants("guided_1.json"));
    assert!(!w.wants("note.json"));
    assert!(!w.wants("guided_1.txt"));
    w.mark_processed("guided_1.json");
    assert!(!w.wants("guided_1.json"));
    w.mark_processed("guided_1.json");
    assert!(w.wants("guided_2.json"));
}

#[test]
fn guided_classification_prompt_and_entries() {
    assert_eq!(
        classify_prompt("use ollama"),
        "Classify this note into entity_type, entity_id, and after_state.summary. Respond with ONLY a JSON object, no markdown, no explanation. entity_type must be one of: capture, decision, project, error. entity_id must be a snake_case identifier with no dots or ellipsis. after_state.summary must be one sentence. Note: use ollama. Example output: {\"entity_type\":\"decision\",\"entity_id\":\"use_ollama_local\",\"after_state\":{\"summary\":\"Chose Ollama for local inference to reduce cost.\"}}"
    );
    assert_eq!(classify_task(), "summarize");
    let model = object(vec![("entity_type", json_str("decision")), ("entry_id", json_str("old"))]);
    let e = stamp_entry(model, "id".to_string(), "T".to_string());
    assert_eq!(
        e,
        object(vec![
            ("entity_type", json_str("decision")),
            ("entry_id", json_str("id")),
            ("timestamp", json_str("T")),
            ("schema_version", Json::Number("1".to_string())),
            ("reason_capture_id", Json::Null),
            ("approved_by_user", Json::Bool(false)),
        ])
    );
    let fresh = stamp_new_entry(Json::Null);
    assert_eq!(fresh.text_at("entry_id").len(), 36);
    let m = manual_entry("id".to_string(), "T".to_string(), "  DECISION ", " use_x ", " Chose X. ", "why");
    assert_eq!(m.text_at("entity_type"), "decision");
    assert_eq!(m.text_at("entity_id"), "use_x");
    assert_eq!(m.text_at("operation"), "create");
    let after = m.field("after_state").unwrap();
    assert_eq!(after.text_at("summary"), "Chose X.");
    assert_eq!(after.text_at("original_prompt"), "why");
    let n = new_manual_entry("Capture", "c1", "s", "p");
    assert_eq!(n.text_at("entity_type"), "capture");
    assert!(n.text_at("timestamp").ends_with("+00:00"));
}

fn is_uuid_v4(s: &str) -> bool {
    let c: Vec<char> = s.chars().collect();
    c.len() == 36
        && (0..36).all(|i| {
            if [8, 13, 18, 23].contains(&i) {
                c[i] == '-'
            } else {
                c[i].is_ascii_digit() || ('a'..='f').contains(&c[i])
            }
        })
        && c[14] == '4'
        && "89ab".contains(c[19])
}

#[test]
fn entry_identifiers_are_version_4_uuids() {
    let mm = MemoryManager::new("ledger.jsonl");
    assert!(is_uuid_v4(&mm.new_capture_entry("c", "x", "s").text_at("entry_id")));
    assert!(is_uuid_v4(&mm.new_archived_entry("o").text_at("entry_id")));
    assert!(is_uuid_v4(&stamp_new_entry(Json::Null).text_at("entry_id")));
}

#[test]
fn approval_answers_in_any_case() {
    assert!(is_approval("Y"));
    assert!(is_approval("  y\t"));
    assert!(!is_approval("n"));
    assert!(!is_approval("yy"));
    assert_eq!(categorize("DEADLINE friday"), Category::Work);
    assert_eq!(categorize("New SENSOR"), Category::Os);
}

#[test]
fn settled_plans_follow_the_answer() {
    let plan = || PacketPlan {
        approval_question: Some("Create this project?".to_string()),
        entry: Some(object(vec![("approved_by_user", Json::Bool(false))])),
        mark_approved: true,
        on_appended: vec![bus_message("memory:new_capture", "P")],
        then_publish: vec![],
    };
    assert_eq!(settle_plan(plan(), false), None);
    let fx = settle_plan(plan(), true).unwrap();
    assert_eq!(fx.entry, Some(object(vec![("approved_by_user", Json::Bool(true))])));
    let unasked = PacketPlan { approval_question: None, ..plan() };
    assert_eq!(
        settle_plan(unasked, false),
        Some(PlanEffects {
            entry: Some(object(vec![("approved_by_user", Json::Bool(false))])),
            on_appended: vec![bus_message("memory:new_capture", "P")],
            then_publish: vec![],
        })
    );
    let sent = publications(vec![bus_message("a", "1")], vec![bus_message("b", "2")], true);
    assert_eq!(messages(&sent), vec![("a".to_string(), "1".to_string()), ("b".to_string(), "2".to_string())]);
    let sent = publications(vec![bus_message("a", "1")], vec![bus_message("b", "2")], false);
    assert_eq!(messages(&sent), vec![("b".to_string(), "2".to_string())]);
}

#[test]
fn approved_guided_entries_record_the_approval() {
    let reply = object(vec![("entity_type", json_str("decision")), ("entity_id", json_str("use_x"))]);
    let proposed = guided_proposal(Some(reply)).unwrap();
    assert!(!proposed.flag_at("approved_by_user"));
    assert_eq!(proposed.text_at("entity_id"), "use_x");
    assert!(guided_proposal(None).is_none());
    let approved = settle_entry(proposed.deep_clone(), true, true).unwrap();
    assert!(approved.flag_at("approved_by_user"));
    assert_eq!(approved.text_at("entry_id"), proposed.text_at("entry_id"));
    assert!(settle_entry(proposed.deep_clone(), true, false).is_none());
    assert_eq!(settle_entry(proposed.deep_clone(), false, true).unwrap(), proposed);
}
