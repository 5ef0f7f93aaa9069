//! Melatonin: the nightly staging report of the last day's journal entries,
//! grouped by type, with the approved entries and the entries that record a
//! decision or an error.
use vstd::prelude::*;
use crate::clock::{days_before, representable, rfc3339_text, rfc3339_text_of, utc_now, Instant};
use crate::dreaming::{entries_since, select_since};
use crate::journal::{entry_stamps, stamps_of};
use crate::json::{
    as_str, at, field, flag_at, is_object, json_count, json_str, key_index, lemma_items_view, lemma_set_member,
    members, with_member,
    lemma_items_view_push, lemma_key_index, lemma_members_view, members_view, views, Json,
    JsonView,
};
use crate::text::{decimal, owned};

verus! {

/// The type an entry is grouped under: its `entity_type`, or "unknown".
pub open spec fn type_of(e: JsonView) -> Seq<char> {
    match as_str(at(e, "entity_type"@)) {
        Some(t) => t,
        None => "unknown"@,
    }
}

/// Entry `e` records a decision or an error: its `after_state` is an object
/// holding the key "decision" or the key "error".
pub open spec fn records_decision(e: JsonView) -> bool {
    match field(e, "after_state"@) {
        Some(a) => field(a, "decision"@) is Some || field(a, "error"@) is Some,
        None => false,
    }
}

/// The items of an array (none for any other value).
pub open spec fn items(j: JsonView) -> Seq<JsonView> {
    match j {
        JsonView::Array(s) => s,
        _ => Seq::empty(),
    }
}

/// The groups after entry `e`: appended to the group of its type, or a new group
/// at the end.
pub open spec fn add_to_group(groups: Seq<(Seq<char>, JsonView)>, e: JsonView) -> Seq<(Seq<char>, JsonView)> {
    match key_index(groups, type_of(e)) {
        Some(i) => groups.update(i, (groups[i].0, JsonView::Array(items(groups[i].1).push(e)))),
        None => groups.push((type_of(e), JsonView::Array(seq![e]))),
    }
}

/// The entries grouped by type: one group per type in the order types first occur,
/// each holding its entries in order.
pub open spec fn grouped(entries: Seq<JsonView>) -> Seq<(Seq<char>, JsonView)>
    decreases entries.len(),
{
    if entries.len() == 0 {
        Seq::empty()
    } else {
        add_to_group(grouped(entries.drop_last()), entries.last())
    }
}

/// The staging report for the entries written since `since`, generated at the
/// moment whose text is `generated_at`.
pub open spec fn report_is(
    r: JsonView,
    recent: Seq<JsonView>,
    generated_at: Seq<char>,
    start: Seq<char>,
) -> bool {
    let approved = recent.filter(|e: JsonView| flag_at(e, "approved_by_user"@));
    r == JsonView::Object(
        seq![
            ("generated_at"@, JsonView::Str(generated_at)),
            ("period"@, JsonView::Object(seq![("start"@, JsonView::Str(start)), ("end"@, JsonView::Str(generated_at))])),
            ("grouped_by_type"@, JsonView::Object(grouped(recent))),
            ("approved_count"@, JsonView::Number(decimal(approved.len()))),
            ("approved_entries"@, JsonView::Array(approved)),
            ("decision_entries"@, JsonView::Array(recent.filter(|e: JsonView| records_decision(e)))),
        ],
    )
}

/// `r` is the report of a melatonin run at `now` over the journal's entries: the
/// entries written at or after one day before `now`.
pub open spec fn report_at(r: JsonView, entries: Seq<JsonView>, now: Instant) -> bool {
    let since = Instant { secs: (now.secs - 86400) as i64, nanos: now.nanos };
    report_is(
        r,
        entries_since(entries, stamps_of(entries), since),
        rfc3339_text_of(now.secs, now.nanos),
        rfc3339_text_of(since.secs, since.nanos),
    )
}

/// Groups under construction: each type with its entries.
pub open spec fn groups_view(v: Seq<(String, Vec<Json>)>) -> Seq<(Seq<char>, JsonView)> {
    Seq::new(v.len(), |i: int| (v[i].0@, JsonView::Array(views(v[i].1@))))
}

fn group_position(groups: &Vec<(String, Vec<Json>)>, key: &String) -> (r: Option<usize>)
    ensures
        match r {
            Some(k) => key_index(groups_view(groups@), key@) == Some(k as int),
            None => key_index(groups_view(groups@), key@) is None,
        },
{
    let mut i: usize = 0;
    while i < groups.len()
        invariant
            i <= groups@.len(),
            key_index(groups_view(groups@), key@) == crate::json::key_index_from(groups_view(groups@), key@, i as int),
        decreases groups@.len() - i,
    {
        if groups[i].0 == *key {
            return Some(i);
        }
        i = i + 1;
    }
    None
}

/// The type an entry is grouped under.
fn group_name(e: &Json) -> (r: String)
    ensures
        r@ == type_of(e@),
{
    match e.str_at("entity_type") {
        Some(t) => t.clone(),
        None => owned("unknown"),
    }
}

/// Whether entry `e` records a decision or an error.
pub fn has_decision(e: &Json) -> (r: bool)
    ensures
        r == records_decision(e@),
        r == match field(e@, "after_state"@) {
            Some(st) => field(st, "decision"@) is Some || field(st, "error"@) is Some,
            None => false,
        },
{
    match e.field("after_state") {
        Some(a) => a.field("decision").is_some() || a.field("error").is_some(),
        None => false,
    }
}

fn group_entries(entries: &Vec<Json>) -> (r: Json)
    ensures
        r@ == JsonView::Object(grouped(views(entries@))),
{
    proof {
        lemma_items_view(entries@);
    }
    let mut groups: Vec<(String, Vec<Json>)> = Vec::new();
    let mut i: usize = 0;
    while i < entries.len()
        invariant
            i <= entries@.len(),
            views(entries@).len() == entries@.len(),
            forall|j: int| 0 <= j < entries@.len() ==> #[trigger] views(entries@)[j] == entries@[j]@,
            groups_view(groups@) == grouped(views(entries@).take(i as int)),
        decreases entries@.len() - i,
    {
        proof {
            assert(views(entries@).take(i + 1).drop_last() == views(entries@).take(i as int));
            assert(views(entries@)[i as int] == entries@[i as int]@);
        }
        let e = entries[i].deep_clone();
        let key = group_name(&e);
        let ghost g = groups_view(groups@);
        match group_position(&groups, &key) {
            Some(k) => {
                proof {
                    lemma_key_index(g, key@);
                }
                let ghost old_group = groups@[k as int];
                let mut pair = groups.remove(k);
                let ghost before_items = pair.1@;
                proof {
                    lemma_items_view_push(pair.1@, e);
                }
                pair.1.push(e);
                groups.insert(k, pair);
                proof {
                    assert(groups_view(groups@) =~= g.update(k as int, (g[k as int].0, JsonView::Array(items(g[k as int].1).push(e@)))));
                }
            },
            None => {
                let mut fresh: Vec<Json> = Vec::new();
                proof {
                    lemma_items_view_push(fresh@, e);
                    assert(views(fresh@) == Seq::<JsonView>::empty());
                }
                fresh.push(e);
                groups.push((key, fresh));
                proof {
                    assert(groups_view(groups@) =~= g.push((key@, JsonView::Array(seq![e@]))));
                }
            },
        }
        i = i + 1;
    }
    assert(views(entries@).take(entries@.len() as int) == views(entries@));
    let ghost gv = groups_view(groups@);
    let mut members: Vec<(String, Json)> = Vec::new();
    let ghost all = groups@;
    for pair in it: groups.into_iter()
        invariant
            it.seq() == all,
            gv == groups_view(all),
            members_view(members@) == gv.take(it.index() as int),
    {
        let ghost k = it.index();
        assert(k < all.len());
        let ghost before = members@;
        let item = (pair.0, Json::Array(pair.1));
        let ghost iv = item;
        members.push(item);
        proof {
            assert(members@ == before.push(iv));
            assert(before.push(iv).drop_last() == before);
            assert(members_view(members@) == members_view(before).push((iv.0@, iv.1@)));
            assert(gv.take(k + 1) == gv.take(k as int).push(gv[k as int]));
        }
    }
    assert(gv.take(all.len() as int) == gv);
    Json::Object(members)
}

/// The entries of `entries` that satisfy the test, as a JSON array.
fn approved_array(entries: &Vec<Json>) -> (r: (Json, usize))
    ensures
        r.0@ == JsonView::Array(views(entries@).filter(|e: JsonView| flag_at(e, "approved_by_user"@))),
        r.1 == views(entries@).filter(|e: JsonView| flag_at(e, "approved_by_user"@)).len(),
{
    proof {
        lemma_items_view(entries@);
    }
    let ghost pred = |e: JsonView| flag_at(e, "approved_by_user"@);
    let mut out: Vec<Json> = Vec::new();
    let mut i: usize = 0;
    while i < entries.len()
        invariant
            i <= entries@.len(),
            out@.len() <= i,
            pred == (|e: JsonView| flag_at(e, "approved_by_user"@)),
            views(entries@).len() == entries@.len(),
            forall|j: int| 0 <= j < entries@.len() ==> #[trigger] views(entries@)[j] == entries@[j]@,
            views(out@) == views(entries@).take(i as int).filter(pred),
        decreases entries@.len() - i,
    {
        proof {
            assert(views(entries@).take(i + 1) == views(entries@).take(i as int).push(entries@[i as int]@));
            views(entries@).take(i as int).lemma_filter_push(entries@[i as int]@, pred);
        }
        if entries[i].flag_at("approved_by_user") {
            let c = entries[i].deep_clone();
            proof {
                lemma_items_view_push(out@, c);
            }
            out.push(c);
        }
        i = i + 1;
    }
    assert(views(entries@).take(entries@.len() as int) == views(entries@));
    proof {
        lemma_items_view(out@);
    }
    let n = out.len();
    (Json::Array(out), n)
}

fn decision_array(entries: &Vec<Json>) -> (r: Json)
    ensures
        r@ == JsonView::Array(views(entries@).filter(|e: JsonView| records_decision(e))),
{
    proof {
        lemma_items_view(entries@);
    }
    let ghost pred = |e: JsonView| records_decision(e);
    let mut out: Vec<Json> = Vec::new();
    let mut i: usize = 0;
    while i < entries.len()
        invariant
            i <= entries@.len(),
            pred == (|e: JsonView| records_decision(e)),
            views(entries@).len() == entries@.len(),
            forall|j: int| 0 <= j < entries@.len() ==> #[trigger] views(entries@)[j] == entries@[j]@,
            views(out@) == views(entries@).take(i as int).filter(pred),
        decreases entries@.len() - i,
    {
        proof {
            assert(views(entries@).take(i + 1) == views(entries@).take(i as int).push(entries@[i as int]@));
            views(entries@).take(i as int).lemma_filter_push(entries@[i as int]@, pred);
        }
        if has_decision(&entries[i]) {
            let c = entries[i].deep_clone();
            proof {
                lemma_items_view_push(out@, c);
            }
            out.push(c);
        }
        i = i + 1;
    }
    assert(views(entries@).take(entries@.len() as int) == views(entries@));
    Json::Array(out)
}

fn member(key: &str, v: Json) -> (r: (String, Json))
    ensures
        r.0@ == key@,
        r.1 == v,
{
    (owned(key), v)
}

/// The staging report of the recent entries, generated at `generated_at`, for
/// the period from `start` to `generated_at`.
pub fn staging_report(recent: &Vec<Json>, generated_at: &str, start: &str) -> (r: Json)
    ensures
        report_is(r@, views(recent@), generated_at@, start@),
{
    let grouped_json = group_entries(recent);
    let (approved, n) = approved_array(recent);
    let decisions = decision_array(recent);
    let mut period: Vec<(String, Json)> = Vec::new();
    period.push(member("start", json_str(start)));
    period.push(member("end", json_str(generated_at)));
    let mut f: Vec<(String, Json)> = Vec::new();
    f.push(member("generated_at", json_str(generated_at)));
    f.push(member("period", Json::Object(period)));
    f.push(member("grouped_by_type", grouped_json));
    f.push(member("approved_count", json_count(n)));
    f.push(member("approved_entries", approved));
    f.push(member("decision_entries", decisions));
    let r = Json::Object(f);
    proof {
        lemma_members_view(f@);
        lemma_members_view(period@);
        assert(members_view(period@) =~= seq![("start"@, JsonView::Str(start@)), ("end"@, JsonView::Str(generated_at@))]);
        assert(members_view(f@) =~= seq![
            ("generated_at"@, JsonView::Str(generated_at@)),
            ("period"@, JsonView::Object(seq![("start"@, JsonView::Str(start@)), ("end"@, JsonView::Str(generated_at@))])),
            ("grouped_by_type"@, JsonView::Object(grouped(views(recent@)))),
            ("approved_count"@, JsonView::Number(decimal(views(recent@).filter(|e: JsonView| flag_at(e, "approved_by_user"@)).len()))),
            ("approved_entries"@, JsonView::Array(views(recent@).filter(|e: JsonView| flag_at(e, "approved_by_user"@)))),
            ("decision_entries"@, JsonView::Array(views(recent@).filter(|e: JsonView| records_decision(e)))),
        ]);
    }
    r
}

/// The staging report that a melatonin run at `now` writes: the entries of the
/// last day (written at or after one day before `now`), grouped, with those
/// approved and those recording a decision or an error.
pub fn melatonin_report(entries: Vec<Json>, now: Instant) -> (r: Json)
    requires
        representable(now),
        now.secs - 86400 >= crate::clock::MIN_TIMESTAMP,
    ensures
        report_at(r@, views(entries@), now),
{
    let since = days_before(now, 1);
    let generated_at = rfc3339_text(now);
    let start = rfc3339_text(since);
    let stamps = entry_stamps(&entries);
    proof {
        lemma_items_view(entries@);
    }
    let recent = select_since(entries, &stamps, since);
    staging_report(&recent, generated_at.as_str(), start.as_str())
}

/// The staging report of a melatonin run now.
pub fn melatonin_report_now(entries: Vec<Json>) -> (r: Json)
    ensures
        exists|now: Instant|
            0 <= now.secs <= crate::clock::MAX_TIMESTAMP && now.nanos < 1_000_000_000 && #[trigger] report_at(r@, views(entries@), now),
{
    let now = utc_now();
    melatonin_report(entries, now)
}

/// The decision entries are told apart by their `after_state` alone: an entry
/// records a decision exactly when its `after_state` holds the key "decision" or
/// the key "error", and its `entity_type` plays no part (setting it to anything
/// changes nothing).
pub proof fn lemma_decision_by_after_state(e: JsonView, kind: JsonView)
    requires
        is_object(e),
    ensures
        records_decision(e) <==> (field(e, "after_state"@) is Some && (field(field(e, "after_state"@)->0, "decision"@) is Some
            || field(field(e, "after_state"@)->0, "error"@) is Some)),
        records_decision(with_member(e, "entity_type"@, kind)) == records_decision(e),
{
    reveal_strlit("entity_type");
    reveal_strlit("after_state");
    assert("entity_type"@[0] != "after_state"@[0]);
    lemma_set_member(members(e), "entity_type"@, kind);
    assert(field(with_member(e, "entity_type"@, kind), "after_state"@) == field(JsonView::Object(members(e)), "after_state"@));
}

} // verus!
