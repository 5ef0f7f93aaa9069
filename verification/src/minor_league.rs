//! The minor league: old journal entries of low importance move out of the
//! journal into an archive file, and a tombstone marks each of them.
use vstd::prelude::*;
use crate::clock::{rfc3339_text_of, utc_now, Instant};
use crate::journal::{entry_stamps, is_tombstone_entry, is_uuid_v4_text, stamps_of, MemoryManager};
use crate::json::{
    flag_at, lemma_items_view, lemma_items_view_push, text_at, views, Json, JsonView,
};

verus! {

/// Entries older than this many seconds (30 days) are candidates for the minor league.
pub const RETENTION_SECS: i64 = 2_592_000;

/// The seconds over which recency decays from 1 to 0 (90 days).
pub const RECENCY_HORIZON_SECS: u64 = 7_776_000;

/// A score of 1 in the units scores are counted in: ten units per second of the
/// recency horizon, so that every score the formula gives is a whole number of units.
pub const SCORE_UNITS: u64 = 77_760_000;

/// The weight of approval, 0.5, in units.
pub const APPROVAL_UNITS: u64 = 38_880_000;

/// Candidates scoring below 0.4 (this many units) move to the minor league.
pub const ARCHIVE_BELOW_UNITS: u64 = 31_104_000;

/// Recency, as the seconds of the horizon left: all of them for an entry less than
/// a day old, then the seconds left until it is 90 days old, and none after that.
pub open spec fn recency_left(age: int) -> int {
    if age < 86400 {
        RECENCY_HORIZON_SECS as int
    } else if age >= RECENCY_HORIZON_SECS {
        0
    } else {
        RECENCY_HORIZON_SECS - age
    }
}

/// The importance score of an entry `age` seconds old, in units:
/// 0.2 × recency + 0.5 × approval, where recency is `recency_left / horizon`
/// (so 0.2 × recency is `2 × recency_left` units).
pub open spec fn importance_score(age: int, approved: bool) -> int {
    2 * recency_left(age) + if approved { APPROVAL_UNITS as int } else { 0 }
}

/// The importance score of an entry `age_secs` seconds old, in units of `1 / SCORE_UNITS`.
pub fn importance(age_secs: i128, approved: bool) -> (r: u64)
    ensures
        r == importance_score(age_secs as int, approved),
{
    let left: u64 = if age_secs < 86400 {
        RECENCY_HORIZON_SECS
    } else if age_secs >= RECENCY_HORIZON_SECS as i128 {
        0
    } else {
        (RECENCY_HORIZON_SECS as i128 - age_secs) as u64
    };
    let weight: u64 = if approved { APPROVAL_UNITS } else { 0 };
    2 * left + weight
}

/// An entry written at `t` is older than the retention period at `now`: it comes
/// strictly before `now` moved back thirty days.
pub open spec fn older_than_retention(t: Instant, now: Instant) -> bool {
    t.secs < now.secs - RETENTION_SECS || (t.secs == now.secs - RETENTION_SECS && t.nanos < now.nanos)
}

fn older_than_retention_exec(t: Instant, now: Instant) -> (r: bool)
    ensures
        r == older_than_retention(t, now),
{
    let bound = now.secs as i128 - RETENTION_SECS as i128;
    (t.secs as i128) < bound || (t.secs as i128 == bound && t.nanos < now.nanos)
}

/// Whether an entry written at `stamp` moves to the minor league at `now`: it is
/// older than the retention period and its importance score is below 0.4. An
/// entry whose time is unknown stays.
pub open spec fn goes_to_minor_league(e: JsonView, stamp: Option<Instant>, now: Instant) -> bool {
    match stamp {
        Some(t) => older_than_retention(t, now) && importance_score(now.secs - t.secs, flag_at(e, "approved_by_user"@))
            < ARCHIVE_BELOW_UNITS,
        None => false,
    }
}

/// The entries that move to the minor league, in journal order.
pub open spec fn archived_part(entries: Seq<JsonView>, stamps: Seq<Option<Instant>>, now: Instant) -> Seq<JsonView>
    decreases entries.len(),
{
    if entries.len() == 0 {
        Seq::empty()
    } else {
        let n = entries.len() - 1;
        let before = archived_part(entries.drop_last(), stamps.take(n), now);
        if goes_to_minor_league(entries[n], stamps[n], now) {
            before.push(entries[n])
        } else {
            before
        }
    }
}

/// The entries that stay, in journal order.
pub open spec fn kept_part(entries: Seq<JsonView>, stamps: Seq<Option<Instant>>, now: Instant) -> Seq<JsonView>
    decreases entries.len(),
{
    if entries.len() == 0 {
        Seq::empty()
    } else {
        let n = entries.len() - 1;
        let before = kept_part(entries.drop_last(), stamps.take(n), now);
        if goes_to_minor_league(entries[n], stamps[n], now) {
            before
        } else {
            before.push(entries[n])
        }
    }
}

/// Splits the entries into those that move to the minor league and those that
/// stay, given when each was written.
pub fn partition_with(entries: Vec<Json>, stamps: &Vec<Option<Instant>>, now: Instant) -> (r: (Vec<Json>, Vec<Json>))
    requires
        stamps@.len() == entries@.len(),
    ensures
        views(r.0@) == archived_part(views(entries@), stamps@, now),
        views(r.1@) == kept_part(views(entries@), stamps@, now),
{
    let ghost all = entries@;
    proof {
        lemma_items_view(all);
    }
    let mut archive: Vec<Json> = Vec::new();
    let mut keep: Vec<Json> = Vec::new();
    let mut i: usize = 0;
    let n = stamps.len();
    for e in it: entries.into_iter()
        invariant
            n == stamps@.len(),
            it.seq() == all,
            i == it.index(),
            i <= all.len() == stamps@.len(),
            views(all).len() == all.len(),
            forall|j: int| 0 <= j < all.len() ==> #[trigger] views(all)[j] == all[j]@,
            views(archive@) == archived_part(views(all).take(i as int), stamps@.take(i as int), now),
            views(keep@) == kept_part(views(all).take(i as int), stamps@.take(i as int), now),
    {
        assert(i < all.len());
        proof {
            assert(views(all).take(i + 1).drop_last() == views(all).take(i as int));
            assert(stamps@.take(i + 1).take(i as int) == stamps@.take(i as int));
            assert(views(all)[i as int] == e@);
        }
        let moves = match stamps[i] {
            Some(t) => older_than_retention_exec(t, now) && importance(
                now.secs as i128 - t.secs as i128,
                e.flag_at("approved_by_user"),
            ) < ARCHIVE_BELOW_UNITS,
            None => false,
        };
        if moves {
            proof {
                lemma_items_view_push(archive@, e);
            }
            archive.push(e);
        } else {
            proof {
                lemma_items_view_push(keep@, e);
            }
            keep.push(e);
        }
        i = i + 1;
    }
    assert(views(all).take(all.len() as int) == views(all));
    assert(stamps@.take(stamps@.len() as int) == stamps@);
    (archive, keep)
}

/// Splits the journal's entries into those that move to the minor league at `now`
/// (older than thirty days and scoring below 0.4) and those that stay.
pub fn partition_for_pruning(entries: Vec<Json>, now: Instant) -> (r: (Vec<Json>, Vec<Json>))
    ensures
        views(r.0@) == archived_part(views(entries@), stamps_of(views(entries@)), now),
        views(r.1@) == kept_part(views(entries@), stamps_of(views(entries@)), now),
{
    let stamps = entry_stamps(&entries);
    proof {
        lemma_items_view(entries@);
    }
    partition_with(entries, &stamps, now)
}

/// Splits the journal's entries as `partition_for_pruning` does, at the current time.
pub fn partition_for_pruning_now(entries: Vec<Json>) -> (r: (Vec<Json>, Vec<Json>))
    ensures
        exists|now: Instant|
            0 <= now.secs <= crate::clock::MAX_TIMESTAMP && now.nanos < 1_000_000_000 && views(r.0@) == archived_part(views(entries@), stamps_of(views(entries@)), now) && views(r.1@)
                == kept_part(views(entries@), stamps_of(views(entries@)), now),
{
    partition_for_pruning(entries, utc_now())
}

/// `t` is a tombstone, with some identifier and time, for the entry `original`.
pub open spec fn tombstone_for(t: JsonView, original: Seq<char>) -> bool {
    exists|entry_id: Seq<char>, at: Instant|
        is_uuid_v4_text(entry_id) && is_tombstone_entry(t, entry_id, rfc3339_text_of(at.secs, at.nanos), original)
}

/// The tombstones for the archived entries, one per entry and in order, each
/// naming the archived entry's `entry_id` (empty where it has none).
pub fn tombstones_for(memory_manager: &MemoryManager, archived: &Vec<Json>) -> (r: Vec<Json>)
    ensures
        r@.len() == archived@.len(),
        forall|i: int|
            0 <= i < r@.len() ==> tombstone_for(#[trigger] r@[i]@, text_at(archived@[i]@, "entry_id"@)),
{
    let mut r: Vec<Json> = Vec::new();
    let mut i: usize = 0;
    while i < archived.len()
        invariant
            i <= archived@.len(),
            r@.len() == i,
            forall|j: int|
                0 <= j < i ==> tombstone_for(#[trigger] r@[j]@, text_at(archived@[j]@, "entry_id"@)),
        decreases archived@.len() - i,
    {
        let original = archived[i].text_at("entry_id");
        let t = memory_manager.new_archived_entry(original.as_str());
        assert(tombstone_for(t@, original@));
        let ghost before = r@;
        r.push(t);
        assert forall|j: int| 0 <= j < i + 1 implies tombstone_for(#[trigger] r@[j]@, text_at(archived@[j]@, "entry_id"@)) by {
            if j < i {
                assert(r@[j] == before[j]);
            }
        }
        i = i + 1;
    }
    r
}

/// The kept entries without `null` values, which the journal does not write back.
pub fn without_nulls(keep: Vec<Json>) -> (r: Vec<Json>)
    ensures
        views(r@) == views(keep@).filter(|e: JsonView| !(e is Null)),
{
    let ghost all = keep@;
    proof {
        lemma_items_view(all);
    }
    let mut r: Vec<Json> = Vec::new();
    for e in it: keep.into_iter()
        invariant
            it.seq() == all,
            it.index() <= all.len(),
            views(all).len() == all.len(),
            forall|j: int| 0 <= j < all.len() ==> #[trigger] views(all)[j] == all[j]@,
            views(r@) == views(all).take(it.index() as int).filter(|e: JsonView| !(e is Null)),
    {
        let ghost k = it.index();
        assert(k < all.len());
        proof {
            assert(views(all).take(k + 1).drop_last() == views(all).take(k as int));
            assert(views(all)[k as int] == e@);
            assert(views(all).take(k + 1) == views(all).take(k as int).push(e@));
            views(all).take(k as int).lemma_filter_push(e@, |e: JsonView| !(e is Null));
        }
        if !e.is_null() {
            proof {
                lemma_items_view_push(r@, e);
            }
            r.push(e);
        }
    }
    assert(views(all).take(all.len() as int) == views(all));
    r
}

/// Every entry either moves to the minor league or stays, never both: the two
/// parts together hold as many entries as the journal.
pub proof fn lemma_partition_complete(entries: Seq<JsonView>, stamps: Seq<Option<Instant>>, now: Instant)
    requires
        stamps.len() == entries.len(),
    ensures
        archived_part(entries, stamps, now).len() + kept_part(entries, stamps, now).len() == entries.len(),
    decreases entries.len(),
{
    if entries.len() > 0 {
        let n = entries.len() - 1;
        lemma_partition_complete(entries.drop_last(), stamps.take(n), now);
    }
}

/// The rule of the minor league: an entry older than thirty days moves there
/// exactly when it is not approved (its recency alone never reaches 0.4, and
/// approval alone does); a newer entry, or one whose time is unknown, stays.
pub proof fn lemma_minor_league_rule(e: JsonView, stamp: Option<Instant>, now: Instant)
    ensures
        stamp matches Some(t) && older_than_retention(t, now) ==> (goes_to_minor_league(e, stamp, now)
            <==> !flag_at(e, "approved_by_user"@)),
        !(stamp matches Some(t) && older_than_retention(t, now)) ==> !goes_to_minor_league(e, stamp, now),
{
}

/// Each entry paired with when it was written.
pub open spec fn dated(entries: Seq<JsonView>, stamps: Seq<Option<Instant>>) -> Seq<(JsonView, Option<Instant>)> {
    Seq::new(entries.len(), |i: int| (entries[i], stamps[i]))
}

/// The pruning split in one statement: the entries moved to the minor league are
/// exactly those whose rule says so, and the entries kept exactly the others,
/// each part in journal order. So every entry lands in exactly one part.
pub proof fn lemma_partition_splits(entries: Seq<JsonView>, stamps: Seq<Option<Instant>>, now: Instant)
    requires
        stamps.len() == entries.len(),
    ensures
        archived_part(entries, stamps, now) == dated(entries, stamps).filter(
            |p: (JsonView, Option<Instant>)| goes_to_minor_league(p.0, p.1, now),
        ).map_values(|p: (JsonView, Option<Instant>)| p.0),
        kept_part(entries, stamps, now) == dated(entries, stamps).filter(
            |p: (JsonView, Option<Instant>)| !goes_to_minor_league(p.0, p.1, now),
        ).map_values(|p: (JsonView, Option<Instant>)| p.0),
    decreases entries.len(),
{
    let moved = |p: (JsonView, Option<Instant>)| goes_to_minor_league(p.0, p.1, now);
    let stays = |p: (JsonView, Option<Instant>)| !goes_to_minor_league(p.0, p.1, now);
    let first = |p: (JsonView, Option<Instant>)| p.0;
    let d = dated(entries, stamps);
    if entries.len() == 0 {
        assert(d.filter(moved) =~= Seq::empty());
        assert(d.filter(stays) =~= Seq::empty());
    } else {
        let n = entries.len() - 1;
        lemma_partition_splits(entries.drop_last(), stamps.take(n), now);
        let front = dated(entries.drop_last(), stamps.take(n));
        assert(front =~= d.drop_last());
        assert(d =~= front.push(d.last()));
        front.lemma_filter_push(d.last(), moved);
        front.lemma_filter_push(d.last(), stays);
        assert(front.filter(moved).push(d.last()).map_values(first) =~= front.filter(moved).map_values(first).push(
            entries[n],
        ));
        assert(front.filter(stays).push(d.last()).map_values(first) =~= front.filter(stays).map_values(first).push(
            entries[n],
        ));
    }
}

} // verus!
