//! The work manager's project map: the journal's work projects by identifier,
//! with the status that their later updates give them.
use vstd::prelude::*;
use crate::clock::{rfc3339_text, rfc3339_text_of, utc_now, Instant, MAX_TIMESTAMP};
use crate::journal::{project_id, project_key};
use crate::json::{
    as_str, at, field, is_object, key_index, keys_of, lemma_items_view, lemma_key_index,
    lemma_set_member, lemma_with_member_reads, members, object_keys, set_member, text_at, views, with_member, Json,
    JsonView,
};
use crate::text::{owned, same_text};

verus! {

/// Entry `e` creates a work project.
pub open spec fn is_work_project(e: JsonView) -> bool {
    as_str(at(e, "entity_type"@)) == Some("project"@) && text_at(at(e, "after_state"@), "category"@) == "work"@
}

/// Entry `e` updates a project.
pub open spec fn is_project_update(e: JsonView) -> bool {
    as_str(at(e, "entity_type"@)) == Some("project_update"@)
}

/// The identifier of the project that update `e` targets.
pub open spec fn update_target(e: JsonView) -> Seq<char> {
    let after = at(e, "after_state"@);
    project_key(text_at(after, "category"@), text_at(after, "name"@))
}

/// The work projects of the entries, by `entity_id`; a later entry with the same
/// identifier replaces an earlier one.
pub open spec fn work_projects(entries: Seq<JsonView>) -> JsonView
    decreases entries.len(),
{
    if entries.len() == 0 {
        JsonView::Object(Seq::empty())
    } else {
        let before = work_projects(entries.drop_last());
        let e = entries.last();
        if is_work_project(e) {
            with_member(before, text_at(e, "entity_id"@), e)
        } else {
            before
        }
    }
}

/// A project after an update to `status` at the time written `stamp`: where the
/// project is an object whose `after_state` is an object, that state's `status`
/// and `last_updated` are set; otherwise the project stays as it is.
pub open spec fn updated_project(project: JsonView, status: Seq<char>, stamp: Seq<char>) -> JsonView {
    match field(project, "after_state"@) {
        Some(state) => if state is Object {
            with_member(
                project,
                "after_state"@,
                with_member(with_member(state, "status"@, JsonView::Str(status)), "last_updated"@, JsonView::Str(stamp)),
            )
        } else {
            project
        },
        None => project,
    }
}

/// The map after entry `e`: an update of a project in the map changes that project.
pub open spec fn apply_update(map: JsonView, e: JsonView, stamp: Seq<char>) -> JsonView {
    if is_project_update(e) {
        let target = update_target(e);
        match field(map, target) {
            Some(p) => with_member(map, target, updated_project(p, text_at(at(e, "after_state"@), "status"@), stamp)),
            None => map,
        }
    } else {
        map
    }
}

/// The map after the entries' updates, in order; the update at index `i` is
/// stamped with `stamps[i]`.
pub open spec fn apply_updates(map: JsonView, entries: Seq<JsonView>, stamps: Seq<Seq<char>>) -> JsonView
    decreases entries.len(),
{
    if entries.len() == 0 {
        map
    } else {
        let n = entries.len() - 1;
        apply_update(apply_updates(map, entries.drop_last(), stamps.take(n)), entries[n], stamps[n])
    }
}

/// The project map of the journal: its work projects, with their updates applied.
pub open spec fn project_map(entries: Seq<JsonView>, stamps: Seq<Seq<char>>) -> JsonView {
    apply_updates(work_projects(entries), entries, stamps)
}

/// Whether entry `e` creates a work project.
fn is_work_project_exec(e: &Json) -> (r: bool)
    ensures
        r == is_work_project(e@),
{
    let kind = match e.str_at("entity_type") {
        Some(k) => same_text(k.as_str(), "project"),
        None => false,
    };
    if !kind {
        return false;
    }
    let category = match e.field("after_state") {
        Some(a) => a.text_at("category"),
        None => String::new(),
    };
    same_text(category.as_str(), "work")
}

/// Whether entry `e` updates a project.
fn is_project_update_exec(e: &Json) -> (r: bool)
    ensures
        r == is_project_update(e@),
{
    match e.str_at("entity_type") {
        Some(k) => same_text(k.as_str(), "project_update"),
        None => false,
    }
}

/// The `after_state` of an entry, or `null`.
fn after_state(e: &Json) -> (r: Json)
    ensures
        r@ == at(e@, "after_state"@),
{
    match e.field("after_state") {
        Some(a) => a.deep_clone(),
        None => Json::Null,
    }
}

/// The work projects of the entries, by `entity_id`.
pub fn collect_work_projects(entries: &Vec<Json>) -> (r: Json)
    ensures
        r@ == work_projects(views(entries@)),
        r@ is Object,
{
    proof {
        lemma_items_view(entries@);
    }
    let mut map = Json::Object(Vec::new());
    let mut i: usize = 0;
    while i < entries.len()
        invariant
            i <= entries@.len(),
            views(entries@).len() == entries@.len(),
            forall|j: int| 0 <= j < entries@.len() ==> #[trigger] views(entries@)[j] == entries@[j]@,
            map@ == work_projects(views(entries@).take(i as int)),
            map@ is Object,
        decreases entries@.len() - i,
    {
        proof {
            assert(views(entries@).take(i + 1).drop_last() == views(entries@).take(i as int));
            assert(views(entries@)[i as int] == entries@[i as int]@);
        }
        if is_work_project_exec(&entries[i]) {
            let id = entries[i].text_at("entity_id");
            map = map.with(id, entries[i].deep_clone());
        }
        i = i + 1;
    }
    assert(views(entries@).take(entries@.len() as int) == views(entries@));
    map
}

/// A project after an update to `status` at the time written `stamp`.
pub fn update_project(project: Json, status: &str, stamp: &str) -> (r: Json)
    ensures
        r@ == updated_project(project@, status@, stamp@),
{
    match project.field("after_state") {
        Some(state) => {
            match state {
                Json::Object(_) => {
                    let state = state.deep_clone();
                    let state = state.with(owned("status"), Json::Str(owned(status)));
                    let state = state.with(owned("last_updated"), Json::Str(owned(stamp)));
                    proof {
                        assert(project@ is Object);
                    }
                    project.with(owned("after_state"), state)
                },
                _ => project,
            }
        },
        None => project,
    }
}

/// The map after entry `e`, stamped `stamp` where it updates a project of the map.
pub fn apply_project_update(map: Json, e: &Json, stamp: &str) -> (r: Json)
    requires
        map@ is Object,
    ensures
        r@ == apply_update(map@, e@, stamp@),
        r@ is Object,
{
    if !is_project_update_exec(e) {
        return map;
    }
    let after = after_state(e);
    let name = after.text_at("name");
    let status = after.text_at("status");
    let category = after.text_at("category");
    let target = project_id(category.as_str(), name.as_str());
    let current = match map.field(target.as_str()) {
        Some(p) => Some(p.deep_clone()),
        None => None,
    };
    match current {
        Some(p) => {
            let changed = update_project(p, status.as_str(), stamp);
            map.with(target, changed)
        },
        None => map,
    }
}

/// The project map of the journal, with the update at index `i` stamped `stamps[i]`.
pub fn rebuild_projects_at(entries: &Vec<Json>, stamps: &Vec<String>) -> (r: Json)
    requires
        stamps@.len() == entries@.len(),
    ensures
        r@ == project_map(views(entries@), stamps@.map_values(|s: String| s@)),
{
    let ghost texts = stamps@.map_values(|s: String| s@);
    let mut map = collect_work_projects(entries);
    let ghost base = map@;
    proof {
        lemma_items_view(entries@);
    }
    let mut i: usize = 0;
    while i < entries.len()
        invariant
            i <= entries@.len() == stamps@.len(),
            texts == stamps@.map_values(|s: String| s@),
            base == work_projects(views(entries@)),
            views(entries@).len() == entries@.len(),
            forall|j: int| 0 <= j < entries@.len() ==> #[trigger] views(entries@)[j] == entries@[j]@,
            map@ == apply_updates(base, views(entries@).take(i as int), texts.take(i as int)),
            map@ is Object,
        decreases entries@.len() - i,
    {
        proof {
            assert(views(entries@).take(i + 1).drop_last() == views(entries@).take(i as int));
            assert(texts.take(i + 1).take(i as int) == texts.take(i as int));
            assert(views(entries@)[i as int] == entries@[i as int]@);
            assert(texts[i as int] == stamps@[i as int]@);
        }
        map = apply_project_update(map, &entries[i], stamps[i].as_str());
        i = i + 1;
    }
    assert(views(entries@).take(entries@.len() as int) == views(entries@));
    assert(texts.take(texts.len() as int) == texts);
    map
}

/// `s` is what `to_rfc3339` prints for some reading of the clock.
pub open spec fn clock_text(s: Seq<char>) -> bool {
    exists|t: Instant|
        0 <= t.secs <= MAX_TIMESTAMP && t.nanos < 1_000_000_000 && s == #[trigger] rfc3339_text_of(t.secs, t.nanos)
}

/// The project map of the journal: its work projects by identifier, each update
/// of one of them applied in journal order and stamped with the RFC 3339 text of
/// the time it was applied (read from the clock; which times is left open).
pub fn rebuild_projects(entries: &Vec<Json>) -> (r: Json)
    ensures
        exists|stamps: Seq<Seq<char>>|
            stamps.len() == entries@.len() && r@ == #[trigger] project_map(views(entries@), stamps) && (forall|i: int|
                0 <= i < stamps.len() && is_project_update(views(entries@)[i]) ==> clock_text(#[trigger] stamps[i])),
{
    let mut map = collect_work_projects(entries);
    let ghost base = map@;
    let ghost mut used: Seq<Seq<char>> = Seq::empty();
    proof {
        lemma_items_view(entries@);
    }
    let mut i: usize = 0;
    while i < entries.len()
        invariant
            i <= entries@.len(),
            used.len() == i,
            forall|j: int| 0 <= j < i && is_project_update(views(entries@)[j]) ==> clock_text(#[trigger] used[j]),
            base == work_projects(views(entries@)),
            views(entries@).len() == entries@.len(),
            forall|j: int| 0 <= j < entries@.len() ==> #[trigger] views(entries@)[j] == entries@[j]@,
            map@ == apply_updates(base, views(entries@).take(i as int), used),
            map@ is Object,
        decreases entries@.len() - i,
    {
        proof {
            assert(views(entries@).take(i + 1).drop_last() == views(entries@).take(i as int));
            assert(views(entries@)[i as int] == entries@[i as int]@);
        }
        if is_project_update_exec(&entries[i]) {
            let now = utc_now();
            let stamp = rfc3339_text(now);
            assert(clock_text(stamp@));
            proof {
                assert(used.push(stamp@).take(i as int) == used);
                used = used.push(stamp@);
            }
            map = apply_project_update(map, &entries[i], stamp.as_str());
        } else {
            proof {
                assert(used.push(Seq::<char>::empty()).take(i as int) == used);
                used = used.push(Seq::<char>::empty());
            }
        }
        i = i + 1;
    }
    assert(views(entries@).take(entries@.len() as int) == views(entries@));
    assert(map@ == project_map(views(entries@), used));
    map
}

/// The projects of the map, for listing.
pub fn project_list(map: &Json) -> (r: Vec<Json>)
    ensures
        views(r@) == members(map@).map_values(|m: (Seq<char>, JsonView)| m.1),
{
    let mut out: Vec<Json> = Vec::new();
    match map {
        Json::Object(fields) => {
            proof {
                crate::json::lemma_members_view(fields@);
            }
            let mut i: usize = 0;
            while i < fields.len()
                invariant
                    i <= fields@.len(),
                    *map == Json::Object(*fields),
                    crate::json::members_view(fields@).len() == fields@.len(),
                    forall|j: int| 0 <= j < fields@.len() ==> #[trigger] crate::json::members_view(fields@)[j] == (fields@[j].0@, fields@[j].1@),
                    views(out@) == crate::json::members_view(fields@).take(i as int).map_values(|m: (Seq<char>, JsonView)| m.1),
                decreases fields@.len() - i,
            {
                let c = fields[i].1.deep_clone();
                proof {
                    crate::json::lemma_items_view_push(out@, c);
                    assert(crate::json::members_view(fields@)[i as int] == (fields@[i as int].0@, fields@[i as int].1@));
                    assert(crate::json::members_view(fields@).take(i + 1) == crate::json::members_view(fields@).take(i as int).push(crate::json::members_view(fields@)[i as int]));
                }
                out.push(c);
                i = i + 1;
            }
            assert(crate::json::members_view(fields@).take(fields@.len() as int) == crate::json::members_view(fields@));
            out
        },
        _ => out,
    }
}

/// Setting a key an object already holds keeps its keys.
proof fn lemma_set_existing_keeps_keys(fields: Seq<(Seq<char>, JsonView)>, key: Seq<char>, v: JsonView)
    requires
        key_index(fields, key) is Some,
    ensures
        keys_of(set_member(fields, key, v)) == keys_of(fields),
{
    lemma_key_index(fields, key);
    assert(keys_of(set_member(fields, key, v)) =~= keys_of(fields));
}

/// Updates never add or remove projects: the map after the journal's updates
/// holds the same project identifiers, in the same order, as the work projects.
pub proof fn lemma_updates_keep_projects(map: JsonView, entries: Seq<JsonView>, stamps: Seq<Seq<char>>)
    requires
        map is Object,
    ensures
        apply_updates(map, entries, stamps) is Object,
        object_keys(apply_updates(map, entries, stamps)) == object_keys(map),
    decreases entries.len(),
{
    if entries.len() > 0 {
        let n = entries.len() - 1;
        let before = apply_updates(map, entries.drop_last(), stamps.take(n));
        lemma_updates_keep_projects(map, entries.drop_last(), stamps.take(n));
        let e = entries[n];
        if is_project_update(e) {
            let target = update_target(e);
            if field(before, target) is Some {
                lemma_set_existing_keeps_keys(
                    members(before),
                    target,
                    updated_project(field(before, target)->0, text_at(at(e, "after_state"@), "status"@), stamps[n]),
                );
            }
        }
    }
}

/// An update of a project in the map whose state is an object sets that state's
/// status to the update's status, and its last update time to the stamp.
pub proof fn lemma_update_sets_status(map: JsonView, e: JsonView, stamp: Seq<char>)
    requires
        is_object(map),
        is_project_update(e),
        field(map, update_target(e)) is Some,
        is_object(field(map, update_target(e))->0),
        field(field(map, update_target(e))->0, "after_state"@) is Some,
        is_object(field(field(map, update_target(e))->0, "after_state"@)->0),
    ensures
        ({
            let p2 = at(apply_update(map, e, stamp), update_target(e));
            let st2 = at(p2, "after_state"@);
            &&& text_at(st2, "status"@) == text_at(at(e, "after_state"@), "status"@)
            &&& text_at(st2, "last_updated"@) == stamp
        }),
{
    let target = update_target(e);
    let p = field(map, target)->0;
    let st = field(p, "after_state"@)->0;
    let status = text_at(at(e, "after_state"@), "status"@);
    reveal_strlit("status");
    reveal_strlit("last_updated");
    crate::journal::lemma_distinct_by_shape(seq!["status"@, "last_updated"@]);
    assert(seq!["status"@, "last_updated"@][0] != seq!["status"@, "last_updated"@][1]);
    let st1 = with_member(st, "status"@, JsonView::Str(status));
    lemma_set_member(members(st), "status"@, JsonView::Str(status));
    assert(field(st1, "status"@) == Some(JsonView::Str(status)));
    let st2 = with_member(st1, "last_updated"@, JsonView::Str(stamp));
    lemma_set_member(members(st1), "last_updated"@, JsonView::Str(stamp));
    assert(field(st2, "status"@) == field(st1, "status"@));
    let p2 = with_member(p, "after_state"@, st2);
    lemma_set_member(members(p), "after_state"@, st2);
    assert(updated_project(p, status, stamp) == p2);
    lemma_set_member(members(map), target, p2);
    assert(field(apply_update(map, e, stamp), target) == Some(p2));
}

/// The last entry of the journal that creates the work project `key`.
pub open spec fn last_project(entries: Seq<JsonView>, key: Seq<char>) -> Option<JsonView>
    decreases entries.len(),
{
    if entries.len() == 0 {
        None
    } else if is_work_project(entries.last()) && text_at(entries.last(), "entity_id"@) == key {
        Some(entries.last())
    } else {
        last_project(entries.drop_last(), key)
    }
}

/// The status and stamp of the last update of the journal that targets the
/// project `key`.
pub open spec fn last_update(entries: Seq<JsonView>, stamps: Seq<Seq<char>>, key: Seq<char>) -> Option<(Seq<char>, Seq<char>)>
    decreases entries.len(),
{
    if entries.len() == 0 {
        None
    } else {
        let n = entries.len() - 1;
        if is_project_update(entries[n]) && update_target(entries[n]) == key {
            Some((text_at(at(entries[n], "after_state"@), "status"@), stamps[n]))
        } else {
            last_update(entries.drop_last(), stamps.take(n), key)
        }
    }
}

/// A project as its last update (if any) leaves it.
pub open spec fn as_last_updated(p: JsonView, u: Option<(Seq<char>, Seq<char>)>) -> JsonView {
    match u {
        Some(su) => updated_project(p, su.0, su.1),
        None => p,
    }
}

/// Setting a key twice leaves the second value, where the first set put it.
proof fn lemma_set_twice(f: Seq<(Seq<char>, JsonView)>, k: Seq<char>, a: JsonView, b: JsonView)
    ensures
        set_member(set_member(f, k, a), k, b) == set_member(f, k, b),
{
    let g = set_member(f, k, a);
    lemma_key_index(f, k);
    lemma_key_index(g, k);
    match key_index(f, k) {
        Some(i) => {
            assert(g[i].0 == k);
            if key_index(g, k) != Some(i) {
                let j = key_index(g, k)->0;
                assert(g[j].0 == f[j].0);
            }
            assert(set_member(g, k, b) =~= set_member(f, k, b));
        },
        None => {
            assert(g[f.len() as int].0 == k);
            if key_index(g, k) != Some(f.len() as int) {
                let j = key_index(g, k)->0;
                assert(g[j].0 == f[j].0);
            }
            assert(set_member(g, k, b) =~= set_member(f, k, b));
        },
    }
}

/// Setting a key that is already present, and another key, can be done in either order.
proof fn lemma_set_present_then_other(g: Seq<(Seq<char>, JsonView)>, present: Seq<char>, x: JsonView, other: Seq<char>, t: JsonView)
    requires
        key_index(g, present) is Some,
        present != other,
    ensures
        set_member(set_member(g, other, t), present, x) == set_member(set_member(g, present, x), other, t),
{
    lemma_key_index(g, present);
    lemma_key_index(g, other);
    let i = key_index(g, present)->0;
    let h = set_member(g, other, t);
    let g2 = set_member(g, present, x);
    lemma_key_index(h, present);
    lemma_key_index(g2, other);
    assert(h[i].0 == present);
    if key_index(h, present) != Some(i) {
        let j = key_index(h, present)->0;
        assert(h[j].0 == g[j].0);
    }
    match key_index(g, other) {
        Some(j) => {
            assert(g2[j].0 == other);
            if key_index(g2, other) != Some(j) {
                let m = key_index(g2, other)->0;
                assert(g2[m].0 == g[m].0);
            }
        },
        None => {
            if key_index(g2, other) is Some {
                let m = key_index(g2, other)->0;
                assert(g2[m].0 == g[m].0);
            }
        },
    }
    assert(set_member(h, present, x) =~= set_member(g2, other, t));
}

/// Only the last update counts: updating a project twice leaves it as the second
/// update alone would.
pub proof fn lemma_second_update_wins(p: JsonView, s1: Seq<char>, t1: Seq<char>, s2: Seq<char>, t2: Seq<char>)
    ensures
        updated_project(updated_project(p, s1, t1), s2, t2) == updated_project(p, s2, t2),
{
    match field(p, "after_state"@) {
        Some(st) => if st is Object {
            reveal_strlit("status");
            reveal_strlit("last_updated");
            assert("status"@.len() != "last_updated"@.len());
            let m = members(st);
            let g = set_member(m, "status"@, JsonView::Str(s1));
            let st1 = with_member(with_member(st, "status"@, JsonView::Str(s1)), "last_updated"@, JsonView::Str(t1));
            let p1 = with_member(p, "after_state"@, st1);
            lemma_with_member_reads(p, "after_state"@, st1);
            lemma_with_member_reads(st, "status"@, JsonView::Str(s1));
            assert(key_index(g, "status"@) is Some);
            lemma_set_present_then_other(g, "status"@, JsonView::Str(s2), "last_updated"@, JsonView::Str(t1));
            lemma_set_twice(m, "status"@, JsonView::Str(s1), JsonView::Str(s2));
            let g2 = set_member(m, "status"@, JsonView::Str(s2));
            lemma_set_twice(g2, "last_updated"@, JsonView::Str(t1), JsonView::Str(t2));
            let st2 = with_member(with_member(st1, "status"@, JsonView::Str(s2)), "last_updated"@, JsonView::Str(t2));
            assert(st2 == with_member(with_member(st, "status"@, JsonView::Str(s2)), "last_updated"@, JsonView::Str(t2)));
            lemma_set_twice(members(p), "after_state"@, st1, st2);
        },
        None => {},
    }
}

/// The work projects of the journal, key by key: a key holds the last entry that
/// creates that work project, and no other key is present.
pub proof fn lemma_work_projects_fields(entries: Seq<JsonView>)
    ensures
        is_object(work_projects(entries)),
        forall|k: Seq<char>| #[trigger] field(work_projects(entries), k) == last_project(entries, k),
    decreases entries.len(),
{
    if entries.len() > 0 {
        let before = work_projects(entries.drop_last());
        lemma_work_projects_fields(entries.drop_last());
        let e = entries.last();
        if is_work_project(e) {
            let id = text_at(e, "entity_id"@);
            lemma_set_member(members(before), id, e);
        }
    }
}

/// The updates of the journal applied to a map, key by key: each project present
/// is left as its last update makes it, and no key is added or removed.
pub proof fn lemma_apply_updates_fields(map: JsonView, entries: Seq<JsonView>, stamps: Seq<Seq<char>>)
    requires
        is_object(map),
        stamps.len() == entries.len(),
    ensures
        is_object(apply_updates(map, entries, stamps)),
        forall|k: Seq<char>|
            #[trigger] field(apply_updates(map, entries, stamps), k) == match field(map, k) {
                Some(p) => Some(as_last_updated(p, last_update(entries, stamps, k))),
                None => None,
            },
    decreases entries.len(),
{
    if entries.len() > 0 {
        let n = entries.len() - 1;
        let before = apply_updates(map, entries.drop_last(), stamps.take(n));
        lemma_apply_updates_fields(map, entries.drop_last(), stamps.take(n));
        let e = entries[n];
        assert(entries.drop_last().len() == n);
        if is_project_update(e) {
            let target = update_target(e);
            let status = text_at(at(e, "after_state"@), "status"@);
            match field(before, target) {
                Some(q) => {
                    lemma_set_member(members(before), target, updated_project(q, status, stamps[n]));
                    let p = field(map, target)->0;
                    match last_update(entries.drop_last(), stamps.take(n), target) {
                        Some(su) => {
                            lemma_second_update_wins(p, su.0, su.1, status, stamps[n]);
                        },
                        None => {},
                    }
                    assert forall|k: Seq<char>| #[trigger] field(apply_updates(map, entries, stamps), k) == match field(map, k) {
                        Some(p) => Some(as_last_updated(p, last_update(entries, stamps, k))),
                        None => None,
                    } by {
                        if k != target {
                            assert(field(apply_updates(map, entries, stamps), k) == field(before, k));
                        }
                    }
                },
                None => {},
            }
        }
    }
}

/// The project map of the journal, key by key: its keys are the identifiers of
/// the journal's work projects; each holds the last entry that creates that
/// project, as the last update of that project in the journal (if any) leaves
/// it: with that update's status and the stamp it was applied with.
pub proof fn lemma_project_map(entries: Seq<JsonView>, stamps: Seq<Seq<char>>)
    requires
        stamps.len() == entries.len(),
    ensures
        is_object(project_map(entries, stamps)),
        forall|k: Seq<char>|
            #[trigger] field(project_map(entries, stamps), k) == match last_project(entries, k) {
                Some(p) => Some(as_last_updated(p, last_update(entries, stamps, k))),
                None => None,
            },
{
    lemma_work_projects_fields(entries);
    lemma_apply_updates_fields(work_projects(entries), entries, stamps);
}

} // verus!
