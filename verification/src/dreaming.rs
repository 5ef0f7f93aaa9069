//! The dream cycle: which journal entries it considers, the prompt it sends, and
//! how the approved proposals change MEMORY.md.
use vstd::prelude::*;
use crate::bus::wire_text;
use crate::clock::{days_before, earlier, is_earlier, utc_now, Instant, MAX_TIMESTAMP};
use crate::journal::{entry_stamps, stamps_of};
use crate::json::{as_str, at, lemma_items_view, lemma_items_view_push, text_at, views, Json, JsonView};
use crate::text::{
    concat, contains, contains_text, first_match, lemma_first_match, matches_at, replace_first,
    replace_first_text, same_text,
};

verus! {

/// Why a proposal left MEMORY.md unchanged.
#[derive(Clone, Copy, Debug, PartialEq, Eq, Structural)]
pub enum MemoryWarning {
    /// An "update" whose old text is not in MEMORY.md.
    UpdateTextMissing,
    /// A "remove" whose text is not in MEMORY.md.
    RemoveTextMissing,
}

/// A bus message that starts a dream cycle: what publishing on the topic
/// "dream:trigger" with an empty payload sends (as a dream packet and the nightly
/// scheduler do), or the bare topic.
pub open spec fn dream_trigger(msg: Seq<char>) -> bool {
    msg == wire_text("dream:trigger"@, Seq::empty()) || msg == "dream:trigger"@
}

/// Whether a bus message starts a dream cycle.
pub fn is_dream_trigger(msg: &str) -> (r: bool)
    ensures
        r == dream_trigger(msg@),
{
    proof {
        reveal_strlit("dream:trigger");
        reveal_strlit("dream:trigger:");
        reveal_strlit(":");
        assert(wire_text("dream:trigger"@, Seq::empty()) =~= "dream:trigger:"@);
    }
    same_text(msg, "dream:trigger:") || same_text(msg, "dream:trigger")
}

/// The message that a dream packet and the nightly scheduler publish (the topic
/// "dream:trigger" with an empty payload) starts a dream cycle.
pub proof fn lemma_published_trigger_starts_dreaming()
    ensures
        dream_trigger(wire_text("dream:trigger"@, Seq::empty())),
{
}

/// The entries written at or after `since`: an entry whose time is unknown is left out.
pub open spec fn entries_since(entries: Seq<JsonView>, stamps: Seq<Option<Instant>>, since: Instant) -> Seq<JsonView>
    decreases entries.len(),
{
    if entries.len() == 0 {
        Seq::empty()
    } else {
        let before = entries_since(entries.drop_last(), stamps.take(entries.len() - 1), since);
        match stamps[entries.len() - 1] {
            Some(t) => if earlier(t, since) {
                before
            } else {
                before.push(entries.last())
            },
            None => before,
        }
    }
}

/// The entries written at or after `since`, given when each was written.
pub fn select_since(entries: Vec<Json>, stamps: &Vec<Option<Instant>>, since: Instant) -> (r: Vec<Json>)
    requires
        stamps@.len() == entries@.len(),
    ensures
        views(r@) == entries_since(views(entries@), stamps@, since),
{
    let ghost all = entries@;
    proof {
        lemma_items_view(all);
    }
    let mut r: Vec<Json> = Vec::new();
    let mut i: usize = 0;
    let n = stamps.len();
    for e in it: entries.into_iter()
        invariant
            n == stamps@.len(),
            it.seq() == all,
            i == it.index(),
            i <= all.len() == stamps@.len(),
            views(all).len() == all.len(),
            forall|j: int| 0 <= j < all.len() ==> #[trigger] views(all)[j] == all[j]@,
            views(r@) == entries_since(views(all).take(i as int), stamps@.take(i as int), since),
    {
        assert(i < all.len());
        proof {
            assert(views(all).take(i + 1).drop_last() == views(all).take(i as int));
            assert(stamps@.take(i + 1).take(i as int) == stamps@.take(i as int));
            assert(views(all)[i as int] == e@);
        }
        match stamps[i] {
            Some(t) => {
                if !is_earlier(t, since) {
                    proof {
                        lemma_items_view_push(r@, e);
                    }
                    r.push(e);
                }
            },
            None => {},
        }
        i = i + 1;
    }
    assert(views(all).take(all.len() as int) == views(all));
    assert(stamps@.take(stamps@.len() as int) == stamps@);
    r
}

/// The entries that a dream cycle considers: those written at or after `since`
/// (one day before the cycle starts).
pub fn recent_entries(entries: Vec<Json>, since: Instant) -> (r: Vec<Json>)
    ensures
        views(r@) == entries_since(views(entries@), stamps_of(views(entries@)), since),
{
    let stamps = entry_stamps(&entries);
    proof {
        lemma_items_view(entries@);
    }
    select_since(entries, &stamps, since)
}

/// The entries a dream cycle started now considers: those written at or after one
/// day before the current time.
pub fn recent_entries_now(entries: Vec<Json>) -> (r: Vec<Json>)
    ensures
        exists|now: Instant|
            0 <= now.secs <= MAX_TIMESTAMP && now.nanos < 1_000_000_000 && views(r@) == entries_since(
                views(entries@),
                stamps_of(views(entries@)),
                Instant { secs: (now.secs - 86400) as i64, nanos: now.nanos },
            ),
{
    let now = utc_now();
    let since = days_before(now, 1);
    recent_entries(entries, since)
}

/// The part of the prompt that carries the melatonin staging file, when there is one.
pub open spec fn suggestions_part(staging: Option<Seq<char>>) -> Seq<char> {
    match staging {
        Some(s) => "SUGGESTIONS (not authoritative):\n"@ + s + "\n\n"@,
        None => Seq::empty(),
    }
}

/// The prompt that asks the model for MEMORY.md proposals.
pub open spec fn dream_prompt_text(staging: Option<Seq<char>>, recent: Seq<char>, memory: Seq<char>) -> Seq<char> {
    dream_instructions() + suggestions_part(staging) + "\nRecent entries:\n"@ + recent
        + "\n\nExisting MEMORY.md:\n"@ + memory + "\n"@
}

pub open spec fn dream_instructions() -> Seq<char> {
    "You are Ous, a cognitive OS. Review the recent journal entries and existing MEMORY.md. Propose updates as a JSON array. Each element must match one of these schemas exactly:\n\n{\"action\":\"add\",\"section\":\"<heading>\",\"content\":\"<markdown text>\"}\n{\"action\":\"update\",\"section\":\"<heading>\",\"old\":\"<exact existing text>\",\"new\":\"<replacement text>\"}\n{\"action\":\"remove\",\"section\":\"<heading>\",\"content\":\"<exact text to remove>\"}\n\nOutput ONLY a valid JSON array. No preamble, no markdown fences, no explanation.\n\n"@
}

/// The prompt of a dream cycle, from the staging file (when it could be read),
/// the recent entries as JSON text, and the current MEMORY.md.
pub fn dream_prompt(staging: Option<&str>, recent_json: &str, memory: &str) -> (r: String)
    ensures
        r@ == dream_prompt_text(
            match staging {
                Some(s) => Some(s@),
                None => None,
            },
            recent_json@,
            memory@,
        ),
{
    let head = "You are Ous, a cognitive OS. Review the recent journal entries and existing MEMORY.md. Propose updates as a JSON array. Each element must match one of these schemas exactly:\n\n{\"action\":\"add\",\"section\":\"<heading>\",\"content\":\"<markdown text>\"}\n{\"action\":\"update\",\"section\":\"<heading>\",\"old\":\"<exact existing text>\",\"new\":\"<replacement text>\"}\n{\"action\":\"remove\",\"section\":\"<heading>\",\"content\":\"<exact text to remove>\"}\n\nOutput ONLY a valid JSON array. No preamble, no markdown fences, no explanation.\n\n";
    let mut p = match staging {
        Some(s) => {
            let a = concat(head, "SUGGESTIONS (not authoritative):\n");
            let b = concat(a.as_str(), s);
            concat(b.as_str(), "\n\n")
        },
        None => concat(head, ""),
    };
    proof {
        reveal_strlit("");
    }
    p = concat(p.as_str(), "\nRecent entries:\n");
    p = concat(p.as_str(), recent_json);
    p = concat(p.as_str(), "\n\nExisting MEMORY.md:\n");
    p = concat(p.as_str(), memory);
    p = concat(p.as_str(), "\n");
    p
}

/// The section that an "add" proposal appends.
pub open spec fn added_section(prop: JsonView) -> Seq<char> {
    "\n## "@ + text_at(prop, "section"@) + "\n"@ + text_at(prop, "content"@) + "\n"@
}

/// MEMORY.md after one proposal, and the warning it gives, if any. An "add" appends a
/// section; an "update" replaces the first occurrence of its old text with its new text;
/// a "remove" deletes the first occurrence of its text; anything else changes nothing.
/// A missing text field counts as the empty text.
pub open spec fn apply_proposal(memory: Seq<char>, prop: JsonView) -> (Seq<char>, Option<MemoryWarning>) {
    match as_str(at(prop, "action"@)) {
        Some(a) => if a == "add"@ {
            (memory + added_section(prop), None)
        } else if a == "update"@ {
            let old = text_at(prop, "old"@);
            (
                replace_first(memory, old, text_at(prop, "new"@)),
                if contains(memory, old) { None } else { Some(MemoryWarning::UpdateTextMissing) },
            )
        } else if a == "remove"@ {
            let gone = text_at(prop, "content"@);
            (
                replace_first(memory, gone, Seq::empty()),
                if contains(memory, gone) { None } else { Some(MemoryWarning::RemoveTextMissing) },
            )
        } else {
            (memory, None)
        },
        None => (memory, None),
    }
}

/// MEMORY.md after the proposals, applied in order, and the warnings they gave, in order.
pub open spec fn apply_proposals(memory: Seq<char>, props: Seq<JsonView>) -> (Seq<char>, Seq<MemoryWarning>)
    decreases props.len(),
{
    if props.len() == 0 {
        (memory, Seq::empty())
    } else {
        let before = apply_proposals(memory, props.drop_last());
        let step = apply_proposal(before.0, props.last());
        (
            step.0,
            match step.1 {
                Some(w) => before.1.push(w),
                None => before.1,
            },
        )
    }
}

/// One proposal applied to MEMORY.md.
pub fn apply_one(memory: String, prop: &Json) -> (r: (String, Option<MemoryWarning>))
    ensures
        (r.0@, r.1) == apply_proposal(memory@, prop@),
{
    let action = prop.str_at("action");
    match action {
        Some(a) => {
            if same_text(a.as_str(), "add") {
                let section = prop.text_at("section");
                let content = prop.text_at("content");
                let mut m = concat(memory.as_str(), "\n## ");
                m = concat(m.as_str(), section.as_str());
                m = concat(m.as_str(), "\n");
                m = concat(m.as_str(), content.as_str());
                m = concat(m.as_str(), "\n");
                (m, None)
            } else if same_text(a.as_str(), "update") {
                let old = prop.text_at("old");
                let new = prop.text_at("new");
                let found = contains_text(memory.as_str(), old.as_str());
                let m = replace_first_text(memory.as_str(), old.as_str(), new.as_str());
                if found {
                    (m, None)
                } else {
                    (m, Some(MemoryWarning::UpdateTextMissing))
                }
            } else if same_text(a.as_str(), "remove") {
                let gone = prop.text_at("content");
                let found = contains_text(memory.as_str(), gone.as_str());
                let m = replace_first_text(memory.as_str(), gone.as_str(), "");
                proof {
                    reveal_strlit("");
                }
                if found {
                    (m, None)
                } else {
                    (m, Some(MemoryWarning::RemoveTextMissing))
                }
            } else {
                (memory, None)
            }
        },
        None => (memory, None),
    }
}

/// MEMORY.md after the approved proposals, and the warnings to report.
pub fn apply_memory_proposals(memory: &str, proposals: &Vec<Json>) -> (r: (String, Vec<MemoryWarning>))
    ensures
        (r.0@, r.1@) == apply_proposals(memory@, views(proposals@)),
{
    proof {
        lemma_items_view(proposals@);
    }
    let mut m = crate::text::owned(memory);
    let mut warnings: Vec<MemoryWarning> = Vec::new();
    let mut i: usize = 0;
    while i < proposals.len()
        invariant
            i <= proposals@.len(),
            views(proposals@).len() == proposals@.len(),
            forall|j: int| 0 <= j < proposals@.len() ==> #[trigger] views(proposals@)[j] == proposals@[j]@,
            (m@, warnings@) == apply_proposals(memory@, views(proposals@).take(i as int)),
        decreases proposals@.len() - i,
    {
        proof {
            assert(views(proposals@).take(i + 1).drop_last() == views(proposals@).take(i as int));
            assert(views(proposals@)[i as int] == proposals@[i as int]@);
        }
        let (next, w) = apply_one(m, &proposals[i]);
        m = next;
        match w {
            Some(x) => warnings.push(x),
            None => {},
        }
        i = i + 1;
    }
    assert(views(proposals@).take(proposals@.len() as int) == views(proposals@));
    (m, warnings)
}

/// MEMORY.md after a dream cycle's proposals once the user has answered: changed
/// (with its warnings) only when the user approved; `None` leaves it as it is.
pub fn dream_outcome(memory: &str, proposals: &Vec<Json>, approved: bool) -> (r: Option<(String, Vec<MemoryWarning>)>)
    ensures
        r is Some <==> approved,
        r matches Some(p) ==> (p.0@, p.1@) == apply_proposals(memory@, views(proposals@)),
{
    if approved {
        Some(apply_memory_proposals(memory, proposals))
    } else {
        None
    }
}

/// Every proposal is an "add".
pub open spec fn all_adds(props: Seq<JsonView>) -> bool {
    forall|i: int| 0 <= i < props.len() ==> as_str(at(#[trigger] props[i], "action"@)) == Some("add"@)
}

/// Proposals that only add keep MEMORY.md append-only: the old text stays a prefix,
/// the added sections follow in order, and no warning is given.
pub proof fn lemma_adds_append_only(memory: Seq<char>, props: Seq<JsonView>)
    requires
        all_adds(props),
    ensures
        apply_proposals(memory, props).0.len() >= memory.len(),
        apply_proposals(memory, props).0.take(memory.len() as int) == memory,
        apply_proposals(memory, props).1.len() == 0,
    decreases props.len(),
{
    if props.len() > 0 {
        let rest = props.drop_last();
        assert forall|i: int| 0 <= i < rest.len() implies as_str(at(#[trigger] rest[i], "action"@)) == Some("add"@) by {
            assert(rest[i] == props[i]);
        }
        lemma_adds_append_only(memory, rest);
        assert(as_str(at(props[props.len() - 1], "action"@)) == Some("add"@));
        let before = apply_proposals(memory, rest).0;
        let after = apply_proposals(memory, props).0;
        assert(after == before + added_section(props.last()));
        assert(after.take(memory.len() as int) == before.take(memory.len() as int));
    }
}

/// An "update" whose old text occurs in MEMORY.md replaces only the first
/// occurrence of it with the new text: what comes before and after it stays.
pub proof fn lemma_update_replaces_first_occurrence(memory: Seq<char>, prop: JsonView)
    requires
        as_str(at(prop, "action"@)) == Some("update"@),
        contains(memory, text_at(prop, "old"@)),
    ensures
        ({
            let old = text_at(prop, "old"@);
            let k = first_match(memory, old)->0;
            &&& apply_proposal(memory, prop).1 is None
            &&& matches_at(memory, old, k)
            &&& forall|j: int| 0 <= j < k ==> !matches_at(memory, old, j)
            &&& apply_proposal(memory, prop).0 == memory.take(k) + text_at(prop, "new"@) + memory.skip(k + old.len())
        }),
{
    lemma_actions_distinct();
    lemma_first_match(memory, text_at(prop, "old"@));
}

/// A "remove" whose text occurs in MEMORY.md deletes only the first occurrence
/// of it: what comes before and after it stays.
pub proof fn lemma_remove_deletes_first_occurrence(memory: Seq<char>, prop: JsonView)
    requires
        as_str(at(prop, "action"@)) == Some("remove"@),
        contains(memory, text_at(prop, "content"@)),
    ensures
        ({
            let gone = text_at(prop, "content"@);
            let k = first_match(memory, gone)->0;
            &&& apply_proposal(memory, prop).1 is None
            &&& matches_at(memory, gone, k)
            &&& forall|j: int| 0 <= j < k ==> !matches_at(memory, gone, j)
            &&& apply_proposal(memory, prop).0 == memory.take(k) + memory.skip(k + gone.len())
        }),
{
    lemma_actions_distinct();
    let gone = text_at(prop, "content"@);
    lemma_first_match(memory, gone);
    let k = first_match(memory, gone)->0;
    assert(memory.take(k) + Seq::<char>::empty() == memory.take(k));
}

/// A proposal whose text is not in MEMORY.md leaves it unchanged and gives its warning.
pub proof fn lemma_missing_text_changes_nothing(memory: Seq<char>, prop: JsonView)
    requires
        (as_str(at(prop, "action"@)) == Some("update"@) && !contains(memory, text_at(prop, "old"@)))
            || (as_str(at(prop, "action"@)) == Some("remove"@) && !contains(memory, text_at(prop, "content"@))),
    ensures
        apply_proposal(memory, prop).0 == memory,
        apply_proposal(memory, prop).1 is Some,
{
    lemma_actions_distinct();
}

/// The three action names differ.
pub proof fn lemma_actions_distinct()
    ensures
        "add"@ != "update"@,
        "add"@ != "remove"@,
        "update"@ != "remove"@,
{
    reveal_strlit("remove");
    reveal_strlit("update");
    reveal_strlit("add");
    assert("update"@[0] != "remove"@[0]);
}

} // verus!
