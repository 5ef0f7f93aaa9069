//! The daily note: shortly after midnight UTC, a Markdown summary of the
//! previous day's journal entries, grouped by type.
use vstd::prelude::*;
use crate::clock::{
    date_text, date_text_of, day_start, day_start_of, earlier, hour, hour_of, is_earlier, minute,
    minute_of, utc_now, Instant, MAX_TIMESTAMP,
};
use crate::journal::{entry_stamps, stamps_of};
use crate::json::{at, lemma_items_view, text_at, views, Json, JsonView};
use crate::text::{concat, same_text};

verus! {

/// The last minute after midnight UTC in which the hourly check writes the note.
pub const LAST_WRITING_MINUTE: u32 = 2;

/// Whether the hourly check at second `now_secs` writes the note: at midnight
/// UTC, from 00:00 to 00:02.
pub fn daily_writer_due(now_secs: i64) -> (r: bool)
    requires
        now_secs >= 0,
    ensures
        r == (hour_of(now_secs as int) == 0 && minute_of(now_secs as int) <= LAST_WRITING_MINUTE),
{
    hour(now_secs) == 0 && minute(now_secs) <= LAST_WRITING_MINUTE
}

/// The day a note covers: its date text, and its first and last second.
#[derive(Clone, Debug, PartialEq)]
pub struct DailyWindow {
    pub date: String,
    pub start: Instant,
    pub end: Instant,
}

/// `w` is the day before `now`: its date, its midnight and 23:59:59.
pub open spec fn is_day_before(w: DailyWindow, now: Instant) -> bool {
    &&& w.date@ == date_text_of((now.secs - 86400) as i64)
    &&& w.start == (Instant { secs: day_start_of(now.secs - 86400) as i64, nanos: 0 })
    &&& w.end == (Instant { secs: (day_start_of(now.secs - 86400) + 86399) as i64, nanos: 0 })
}

/// The day before `now`: its date, its midnight and 23:59:59.
pub fn daily_window(now: Instant) -> (r: DailyWindow)
    requires
        0 <= now.secs <= MAX_TIMESTAMP,
    ensures
        is_day_before(r, now),
{
    let yesterday = now.secs - 86400;
    let date = date_text(yesterday);
    let first = day_start(yesterday);
    DailyWindow {
        date,
        start: Instant { secs: first, nanos: 0 },
        end: Instant { secs: first + 86399, nanos: 0 },
    }
}

/// The file name of the note for `date`.
pub fn daily_note_file_name(date: &str) -> (r: String)
    ensures
        r@ == date@ + ".md"@,
{
    concat(date, ".md")
}

/// An entry written at `stamp` belongs to the day from `start` to `end`, both included.
pub open spec fn in_day(stamp: Option<Instant>, start: Instant, end: Instant) -> bool {
    match stamp {
        Some(t) => !earlier(t, start) && !earlier(end, t),
        None => false,
    }
}

/// Entry `e`, written at `stamp`, is of type `kind` and belongs to the day.
pub open spec fn listed(e: JsonView, stamp: Option<Instant>, start: Instant, end: Instant, kind: Seq<char>) -> bool {
    in_day(stamp, start, end) && text_at(e, "entity_type"@) == kind
}

/// One bullet per entry of type `kind` of the day, in journal order, holding the
/// text of `key` in the entry's `after_state`; for projects (`second` given),
/// `name (status)`.
pub open spec fn bullets(
    entries: Seq<JsonView>,
    stamps: Seq<Option<Instant>>,
    start: Instant,
    end: Instant,
    kind: Seq<char>,
    key: Seq<char>,
    second: Option<Seq<char>>,
) -> Seq<char>
    decreases entries.len(),
{
    if entries.len() == 0 {
        Seq::empty()
    } else {
        let n = entries.len() - 1;
        let before = bullets(entries.drop_last(), stamps.take(n), start, end, kind, key, second);
        if listed(entries[n], stamps[n], start, end, kind) {
            before + bullet(entries[n], key, second)
        } else {
            before
        }
    }
}

pub open spec fn bullet(e: JsonView, key: Seq<char>, second: Option<Seq<char>>) -> Seq<char> {
    let after = at(e, "after_state"@);
    match second {
        Some(k2) => "- "@ + text_at(after, key) + " ("@ + text_at(after, k2) + ")\n"@,
        None => "- "@ + text_at(after, key) + "\n"@,
    }
}

/// The daily note for `date`, from the entries and when each was written.
pub open spec fn daily_note_text(
    date: Seq<char>,
    entries: Seq<JsonView>,
    stamps: Seq<Option<Instant>>,
    start: Instant,
    end: Instant,
) -> Seq<char> {
    "# Daily Note - "@ + date + "\n\n"@
        + "## Captures\n"@
        + bullets(entries, stamps, start, end, "capture"@, "content"@, None)
        + "\n## Decisions\n"@
        + bullets(entries, stamps, start, end, "decision"@, "summary"@, None)
        + "\n## Projects\n"@
        + bullets(entries, stamps, start, end, "project"@, "name"@, Some("status"@))
        + "\n## Errors\n"@
        + bullets(entries, stamps, start, end, "error"@, "content"@, None)
}

/// Whether an entry written at `stamp` belongs to the day.
fn in_day_exec(stamp: Option<Instant>, start: Instant, end: Instant) -> (r: bool)
    ensures
        r == in_day(stamp, start, end),
{
    match stamp {
        Some(t) => !is_earlier(t, start) && !is_earlier(end, t),
        None => false,
    }
}

/// The bullets of entries of type `kind`.
fn section(
    entries: &Vec<Json>,
    stamps: &Vec<Option<Instant>>,
    start: Instant,
    end: Instant,
    kind: &str,
    key: &str,
    second: Option<&str>,
) -> (r: String)
    requires
        stamps@.len() == entries@.len(),
    ensures
        r@ == bullets(
            views(entries@),
            stamps@,
            start,
            end,
            kind@,
            key@,
            match second {
                Some(s) => Some(s@),
                None => None,
            },
        ),
{
    let ghost sec = match second {
        Some(s) => Some(s@),
        None => None::<Seq<char>>,
    };
    proof {
        lemma_items_view(entries@);
    }
    let mut text = String::new();
    let mut i: usize = 0;
    while i < entries.len()
        invariant
            i <= entries@.len() == stamps@.len(),
            sec == match second {
                Some(s) => Some(s@),
                None => None::<Seq<char>>,
            },
            views(entries@).len() == entries@.len(),
            forall|j: int| 0 <= j < entries@.len() ==> #[trigger] views(entries@)[j] == entries@[j]@,
            text@ == bullets(views(entries@).take(i as int), stamps@.take(i as int), start, end, kind@, key@, sec),
        decreases entries@.len() - i,
    {
        proof {
            assert(views(entries@).take(i + 1).drop_last() == views(entries@).take(i as int));
            assert(stamps@.take(i + 1).take(i as int) == stamps@.take(i as int));
            assert(views(entries@)[i as int] == entries@[i as int]@);
        }
        let e = &entries[i];
        let kind_here = e.text_at("entity_type");
        if in_day_exec(stamps[i], start, end) && same_text(kind_here.as_str(), kind) {
            let after = match e.field("after_state") {
                Some(a) => a.deep_clone(),
                None => Json::Null,
            };
            assert(after@ == at(entries@[i as int]@, "after_state"@));
            let first = after.text_at(key);
            let ghost prev = text@;
            text = concat(text.as_str(), "- ");
            text = concat(text.as_str(), first.as_str());
            match second {
                Some(k2) => {
                    let other = after.text_at(k2);
                    text = concat(text.as_str(), " (");
                    text = concat(text.as_str(), other.as_str());
                    text = concat(text.as_str(), ")\n");
                    assert(sec == Some(k2@));
                },
                None => {
                    text = concat(text.as_str(), "\n");
                    assert(sec is None);
                },
            }
            assert(text@ =~= prev + bullet(entries@[i as int]@, key@, sec));
        }
        i = i + 1;
    }
    assert(views(entries@).take(entries@.len() as int) == views(entries@));
    assert(stamps@.take(stamps@.len() as int) == stamps@);
    text
}

/// The daily note for `date`, given when each entry was written.
pub fn daily_note_with(
    date: &str,
    entries: &Vec<Json>,
    stamps: &Vec<Option<Instant>>,
    start: Instant,
    end: Instant,
) -> (r: String)
    requires
        stamps@.len() == entries@.len(),
    ensures
        r@ == daily_note_text(date@, views(entries@), stamps@, start, end),
{
    let captures = section(entries, stamps, start, end, "capture", "content", None);
    let decisions = section(entries, stamps, start, end, "decision", "summary", None);
    let projects = section(entries, stamps, start, end, "project", "name", Some("status"));
    let errors = section(entries, stamps, start, end, "error", "content", None);
    let mut md = concat("# Daily Note - ", date);
    md = concat(md.as_str(), "\n\n");
    md = concat(md.as_str(), "## Captures\n");
    md = concat(md.as_str(), captures.as_str());
    md = concat(md.as_str(), "\n## Decisions\n");
    md = concat(md.as_str(), decisions.as_str());
    md = concat(md.as_str(), "\n## Projects\n");
    md = concat(md.as_str(), projects.as_str());
    md = concat(md.as_str(), "\n## Errors\n");
    md = concat(md.as_str(), errors.as_str());
    md
}

/// The daily note for `date` covering the day from `start` to `end`.
pub fn daily_note(date: &str, entries: &Vec<Json>, start: Instant, end: Instant) -> (r: String)
    ensures
        r@ == daily_note_text(date@, views(entries@), stamps_of(views(entries@)), start, end),
{
    let stamps = entry_stamps(entries);
    proof {
        lemma_items_view(entries@);
    }
    daily_note_with(date, entries, &stamps, start, end)
}

/// Reads the clock for the hourly check: the day to write a note for when the
/// check falls between 00:00 and 00:02 UTC, else `None`.
pub fn due_daily_window() -> (r: Option<DailyWindow>)
    ensures
        exists|now: Instant|
            0 <= now.secs <= MAX_TIMESTAMP && (r is Some <==> (hour_of(now.secs as int) == 0 && minute_of(
                now.secs as int,
            ) <= LAST_WRITING_MINUTE)) && (r matches Some(w) ==> is_day_before(w, now)),
{
    let now = utc_now();
    if daily_writer_due(now.secs) {
        Some(daily_window(now))
    } else {
        None
    }
}

proof fn lemma_bullets_push(
    entries: Seq<JsonView>,
    stamps: Seq<Option<Instant>>,
    e: JsonView,
    stamp: Option<Instant>,
    start: Instant,
    end: Instant,
    kind: Seq<char>,
    key: Seq<char>,
    second: Option<Seq<char>>,
)
    requires
        stamps.len() == entries.len(),
    ensures
        bullets(entries.push(e), stamps.push(stamp), start, end, kind, key, second) == if listed(
            e,
            stamp,
            start,
            end,
            kind,
        ) {
            bullets(entries, stamps, start, end, kind, key, second) + bullet(e, key, second)
        } else {
            bullets(entries, stamps, start, end, kind, key, second)
        },
{
    assert(entries.push(e).drop_last() == entries);
    assert(stamps.push(stamp).take(entries.len() as int) == stamps);
}

proof fn lemma_section_names_differ()
    ensures
        "capture"@ != "decision"@,
        "capture"@ != "project"@,
        "capture"@ != "error"@,
        "decision"@ != "project"@,
        "decision"@ != "error"@,
        "project"@ != "error"@,
{
    reveal_strlit("capture");
    reveal_strlit("decision");
    reveal_strlit("project");
    reveal_strlit("error");
    assert("capture"@[0] != "decision"@[0]);
    assert("capture"@[0] != "project"@[0]);
    assert("capture"@[0] != "error"@[0]);
    assert("decision"@[0] != "project"@[0]);
    assert("decision"@[0] != "error"@[0]);
    assert("project"@[0] != "error"@[0]);
}

/// Only the four section types are listed: an entry whose `entity_type` is not
/// exactly "capture", "decision", "project" or "error" (a "project_update", say)
/// leaves the daily note as it was, wherever it is written.
pub proof fn lemma_other_types_leave_note_unchanged(
    date: Seq<char>,
    entries: Seq<JsonView>,
    stamps: Seq<Option<Instant>>,
    e: JsonView,
    stamp: Option<Instant>,
    start: Instant,
    end: Instant,
)
    requires
        stamps.len() == entries.len(),
        text_at(e, "entity_type"@) != "capture"@,
        text_at(e, "entity_type"@) != "decision"@,
        text_at(e, "entity_type"@) != "project"@,
        text_at(e, "entity_type"@) != "error"@,
    ensures
        daily_note_text(date, entries.push(e), stamps.push(stamp), start, end) == daily_note_text(
            date,
            entries,
            stamps,
            start,
            end,
        ),
{
    lemma_bullets_push(entries, stamps, e, stamp, start, end, "capture"@, "content"@, None);
    lemma_bullets_push(entries, stamps, e, stamp, start, end, "decision"@, "summary"@, None);
    lemma_bullets_push(entries, stamps, e, stamp, start, end, "project"@, "name"@, Some("status"@));
    lemma_bullets_push(entries, stamps, e, stamp, start, end, "error"@, "content"@, None);
}

/// An entry written outside the day leaves the daily note as it was.
pub proof fn lemma_other_days_leave_note_unchanged(
    date: Seq<char>,
    entries: Seq<JsonView>,
    stamps: Seq<Option<Instant>>,
    e: JsonView,
    stamp: Option<Instant>,
    start: Instant,
    end: Instant,
)
    requires
        stamps.len() == entries.len(),
        !in_day(stamp, start, end),
    ensures
        daily_note_text(date, entries.push(e), stamps.push(stamp), start, end) == daily_note_text(
            date,
            entries,
            stamps,
            start,
            end,
        ),
{
    lemma_bullets_push(entries, stamps, e, stamp, start, end, "capture"@, "content"@, None);
    lemma_bullets_push(entries, stamps, e, stamp, start, end, "decision"@, "summary"@, None);
    lemma_bullets_push(entries, stamps, e, stamp, start, end, "project"@, "name"@, Some("status"@));
    lemma_bullets_push(entries, stamps, e, stamp, start, end, "error"@, "content"@, None);
}

/// A project entry written in the day adds the bullet "- name (status)" at the end
/// of the Projects section, and changes no other section.
pub proof fn lemma_project_adds_one_bullet(
    entries: Seq<JsonView>,
    stamps: Seq<Option<Instant>>,
    e: JsonView,
    stamp: Option<Instant>,
    start: Instant,
    end: Instant,
)
    requires
        stamps.len() == entries.len(),
        in_day(stamp, start, end),
        text_at(e, "entity_type"@) == "project"@,
    ensures
        bullets(entries.push(e), stamps.push(stamp), start, end, "project"@, "name"@, Some("status"@)) == bullets(
            entries,
            stamps,
            start,
            end,
            "project"@,
            "name"@,
            Some("status"@),
        ) + "- "@ + text_at(at(e, "after_state"@), "name"@) + " ("@ + text_at(at(e, "after_state"@), "status"@)
            + ")\n"@,
        bullets(entries.push(e), stamps.push(stamp), start, end, "capture"@, "content"@, None) == bullets(
            entries,
            stamps,
            start,
            end,
            "capture"@,
            "content"@,
            None,
        ),
        bullets(entries.push(e), stamps.push(stamp), start, end, "decision"@, "summary"@, None) == bullets(
            entries,
            stamps,
            start,
            end,
            "decision"@,
            "summary"@,
            None,
        ),
        bullets(entries.push(e), stamps.push(stamp), start, end, "error"@, "content"@, None) == bullets(
            entries,
            stamps,
            start,
            end,
            "error"@,
            "content"@,
            None,
        ),
{
    lemma_section_names_differ();
    lemma_bullets_push(entries, stamps, e, stamp, start, end, "capture"@, "content"@, None);
    lemma_bullets_push(entries, stamps, e, stamp, start, end, "decision"@, "summary"@, None);
    lemma_bullets_push(entries, stamps, e, stamp, start, end, "project"@, "name"@, Some("status"@));
    lemma_bullets_push(entries, stamps, e, stamp, start, end, "error"@, "content"@, None);
}

} // verus!
