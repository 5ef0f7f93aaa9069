//! The journal: a file of JSON entries, one per line. The library decides which
//! loaded lines count as entries and builds the entries it appends; reading and
//! writing the file is left to the caller.
use vstd::prelude::*;
use crate::clock::{parse_rfc3339, rfc3339_instant, rfc3339_text, rfc3339_text_of, utc_now, Instant};
use crate::json::{
    as_bool, as_str, at, distinct_keys, flag_at, is_number, is_object, is_str, json_str, keys_of,
    lemma_items_view, lemma_items_view_push, lemma_key_index_distinct, lemma_members_view,
    members, members_view, object_keys, views, Json, JsonView,
};
use crate::text::{concat, owned, spaces_to_underscores, underscore_spaces};

verus! {

/// Keeps the path of the journal file.
pub struct MemoryManager {
    journal_path: String,
}

/// A lowercase hexadecimal digit.
pub open spec fn is_lower_hex(c: char) -> bool {
    ('0' as u32 <= c as u32 <= '9' as u32) || ('a' as u32 <= c as u32 <= 'f' as u32)
}

/// The hyphenated lowercase text of a version 4 (random) UUID: 32 lowercase hex
/// digits in groups of 8, 4, 4, 4 and 12 joined by '-', the version digit '4',
/// and the variant digit one of '8', '9', 'a', 'b'.
pub open spec fn is_uuid_v4_text(s: Seq<char>) -> bool {
    &&& s.len() == 36
    &&& forall|i: int|
        0 <= i < 36 ==> if i == 8 || i == 13 || i == 18 || i == 23 {
            s[i] == '-'
        } else {
            is_lower_hex(#[trigger] s[i])
        }
    &&& s[14] == '4'
    &&& (s[19] == '8' || s[19] == '9' || s[19] == 'a' || s[19] == 'b')
}

/// Calls `uuid::Uuid::new_v4().to_string()`. Its source masks random bits to set
/// the version (4) and the variant (binary 10), and `Display` writes the
/// hyphenated lowercase form; which identifier comes out is left open.
#[verifier::external_body]
pub(crate) fn new_entry_id() -> (r: String)
    ensures
        is_uuid_v4_text(r@),
{
    uuid::Uuid::new_v4().to_string()
}

/// `e` is an entry whose `entity_type` is `"archived"`.
pub open spec fn is_tombstone(e: JsonView) -> bool {
    as_str(at(e, "entity_type"@)) == Some("archived"@)
}

/// The entries that the loaded lines give, in order: each line that parsed as
/// JSON, except tombstones. `None` stands for a line that did not parse.
pub open spec fn loaded_entries(lines: Seq<Option<JsonView>>) -> Seq<JsonView>
    decreases lines.len(),
{
    if lines.len() == 0 {
        Seq::empty()
    } else {
        let before = loaded_entries(lines.drop_last());
        match lines.last() {
            Some(e) => if is_tombstone(e) {
                before
            } else {
                before.push(e)
            },
            None => before,
        }
    }
}

/// The keys of a journal entry, in the order the library writes them.
pub open spec fn entry_keys() -> Seq<Seq<char>> {
    seq![
        "entry_id"@,
        "timestamp"@,
        "schema_version"@,
        "entity_type"@,
        "entity_id"@,
        "operation"@,
        "before_state"@,
        "after_state"@,
        "reason_capture_id"@,
        "approved_by_user"@,
    ]
}

/// The keys of a tombstone entry, in the order the library writes them.
pub open spec fn tombstone_keys() -> Seq<Seq<char>> {
    seq![
        "entry_id"@,
        "timestamp"@,
        "schema_version"@,
        "entity_type"@,
        "original_entry_id"@,
        "operation"@,
        "before_state"@,
        "after_state"@,
        "reason_capture_id"@,
        "approved_by_user"@,
    ]
}

/// The fields that every entry the library builds shares: its identifier, its
/// time, schema version 1, its type and operation, no reason capture.
pub open spec fn entry_header(
    e: JsonView,
    entry_id: Seq<char>,
    timestamp: Seq<char>,
    entity_type: Seq<char>,
    operation: Seq<char>,
) -> bool {
    &&& is_object(e)
    &&& is_str(at(e, "entry_id"@), entry_id)
    &&& is_str(at(e, "timestamp"@), timestamp)
    &&& is_number(at(e, "schema_version"@), "1"@)
    &&& is_str(at(e, "entity_type"@), entity_type)
    &&& is_str(at(e, "operation"@), operation)
    &&& at(e, "reason_capture_id"@) is Null
}

/// `e` is the capture entry that `new_capture_entry` builds.
pub open spec fn is_capture_entry(
    e: JsonView,
    entry_id: Seq<char>,
    timestamp: Seq<char>,
    capture_id: Seq<char>,
    content: Seq<char>,
    source: Seq<char>,
) -> bool {
    let after = at(e, "after_state"@);
    &&& entry_header(e, entry_id, timestamp, "capture"@, "create"@)
    &&& object_keys(e) == entry_keys()
    &&& is_str(at(e, "entity_id"@), capture_id)
    &&& at(e, "before_state"@) is Null
    &&& is_object(after)
    &&& object_keys(after) == seq!["content"@, "source"@]
    &&& is_str(at(after, "content"@), content)
    &&& is_str(at(after, "source"@), source)
    &&& as_bool(at(e, "approved_by_user"@)) == Some(false)
}

/// `e` is the project entry that `new_project_entry` builds.
pub open spec fn is_project_entry(
    e: JsonView,
    entry_id: Seq<char>,
    timestamp: Seq<char>,
    name: Seq<char>,
    category: Seq<char>,
    last_updated: Seq<char>,
) -> bool {
    let after = at(e, "after_state"@);
    &&& entry_header(e, entry_id, timestamp, "project"@, "create"@)
    &&& object_keys(e) == entry_keys()
    &&& is_str(at(e, "entity_id"@), project_key(category, name))
    &&& at(e, "before_state"@) is Null
    &&& is_object(after)
    &&& object_keys(after) == seq!["name"@, "status"@, "category"@, "priority"@, "last_updated"@]
    &&& is_str(at(after, "name"@), name)
    &&& is_str(at(after, "status"@), "active"@)
    &&& is_str(at(after, "category"@), category)
    &&& is_str(at(after, "priority"@), "normal"@)
    &&& is_str(at(after, "last_updated"@), last_updated)
    &&& as_bool(at(e, "approved_by_user"@)) == Some(false)
}

/// The identifier of a project: `project:<category>:<name with spaces as underscores>`.
pub open spec fn project_key(category: Seq<char>, name: Seq<char>) -> Seq<char> {
    "project:"@ + category + ":"@ + spaces_to_underscores(name)
}

/// `e` is the project update entry that `new_project_update_entry` builds.
pub open spec fn is_project_update_entry(
    e: JsonView,
    entry_id: Seq<char>,
    timestamp: Seq<char>,
    name: Seq<char>,
    old_status: Seq<char>,
    new_status: Seq<char>,
    category: Seq<char>,
) -> bool {
    let before = at(e, "before_state"@);
    let after = at(e, "after_state"@);
    &&& entry_header(e, entry_id, timestamp, "project_update"@, "update"@)
    &&& object_keys(e) == entry_keys()
    &&& is_str(at(e, "entity_id"@), "project_update:"@ + spaces_to_underscores(name))
    &&& is_object(before)
    &&& object_keys(before) == seq!["status"@]
    &&& is_str(at(before, "status"@), old_status)
    &&& is_object(after)
    &&& object_keys(after) == seq!["name"@, "status"@, "category"@]
    &&& is_str(at(after, "name"@), name)
    &&& is_str(at(after, "status"@), new_status)
    &&& is_str(at(after, "category"@), category)
    &&& as_bool(at(e, "approved_by_user"@)) == Some(false)
}

/// `e` is the tombstone that `new_archived_entry` builds for the entry `original_entry_id`.
pub open spec fn is_tombstone_entry(
    e: JsonView,
    entry_id: Seq<char>,
    timestamp: Seq<char>,
    original_entry_id: Seq<char>,
) -> bool {
    &&& entry_header(e, entry_id, timestamp, "archived"@, "archive"@)
    &&& object_keys(e) == tombstone_keys()
    &&& is_str(at(e, "original_entry_id"@), original_entry_id)
    &&& at(e, "before_state"@) is Null
    &&& at(e, "after_state"@) is Null
    &&& as_bool(at(e, "approved_by_user"@)) == Some(true)
}

/// No two of the keys are the same.
pub open spec fn all_distinct(ks: Seq<Seq<char>>) -> bool {
    forall|i: int, j: int| 0 <= i < j < ks.len() ==> ks[i] != ks[j]
}

/// Keys that differ pairwise in length or in their first character are all distinct.
pub proof fn lemma_distinct_by_shape(ks: Seq<Seq<char>>)
    requires
        forall|i: int| 0 <= i < ks.len() ==> ks[i].len() > 0,
        forall|i: int, j: int|
            0 <= i < j < ks.len() ==> ks[i].len() != ks[j].len() || ks[i][0] != ks[j][0],
    ensures
        all_distinct(ks),
{
    assert forall|i: int, j: int| 0 <= i < j < ks.len() implies ks[i] != ks[j] by {
        if ks[i] == ks[j] {
            assert(ks[i].len() == ks[j].len());
            assert(ks[i][0] == ks[j][0]);
        }
    }
}

/// The keys of an entry, and those of a tombstone, are all distinct.
pub proof fn lemma_entry_keys_distinct()
    ensures
        all_distinct(entry_keys()),
        all_distinct(tombstone_keys()),
{
    reveal_strlit("entry_id");
    reveal_strlit("timestamp");
    reveal_strlit("schema_version");
    reveal_strlit("entity_type");
    reveal_strlit("entity_id");
    reveal_strlit("operation");
    reveal_strlit("before_state");
    reveal_strlit("after_state");
    reveal_strlit("reason_capture_id");
    reveal_strlit("approved_by_user");
    reveal_strlit("original_entry_id");
    lemma_distinct_by_shape(entry_keys());
    lemma_distinct_by_shape(tombstone_keys());
}

/// An object built from members whose keys are `ks`, all distinct, answers each
/// key with its own member's value.
pub proof fn lemma_built(f: Seq<(String, Json)>, ks: Seq<Seq<char>>)
    requires
        f.len() == ks.len(),
        forall|i: int| 0 <= i < f.len() ==> #[trigger] f[i].0@ == ks[i],
        all_distinct(ks),
    ensures
        is_object(JsonView::Object(members_view(f))),
        object_keys(JsonView::Object(members_view(f))) == ks,
        forall|i: int| 0 <= i < ks.len() ==> #[trigger] at(JsonView::Object(members_view(f)), ks[i]) == f[i].1@,
{
    lemma_members_view(f);
    let m = members_view(f);
    assert(keys_of(m) =~= ks);
    assert forall|i: int, j: int| 0 <= i < j < m.len() implies m[i].0 != m[j].0 by {
        assert(m[i].0 == ks[i]);
        assert(m[j].0 == ks[j]);
    }
    assert forall|i: int| 0 <= i < ks.len() implies #[trigger] at(JsonView::Object(m), ks[i]) == f[i].1@ by {
        lemma_key_index_distinct(m, i);
    }
}

/// The member `(key, v)`.
pub fn member(key: &str, v: Json) -> (r: (String, Json))
    ensures
        r.0@ == key@,
        r.1 == v,
{
    (owned(key), v)
}

impl MemoryManager {
    /// A manager of the journal at `path`.
    pub fn new(path: &str) -> (r: Self)
        ensures
            r.journal_path()@ == path@,
    {
        MemoryManager { journal_path: owned(path) }
    }

    pub closed spec fn journal_path(&self) -> String {
        self.journal_path
    }

    /// The path of the journal file.
    pub fn path(&self) -> (r: &String)
        ensures
            r == self.journal_path(),
    {
        &self.journal_path
    }

    /// The entries that the loaded lines of the journal give: the lines that parsed,
    /// except tombstones (what `read_entries` keeps).
    pub fn entries_from_lines(lines: Vec<Option<Json>>) -> (r: Vec<Json>)
        ensures
            views(r@) == loaded_entries(line_views(lines@)),
    {
        let mut out: Vec<Json> = Vec::new();
        let ghost all = lines@;
        for line in it: lines.into_iter()
            invariant
                it.seq() == all,
                views(out@) == loaded_entries(line_views(all.take(it.index() as int))),
        {
            proof {
                assert(line_views(all.take(it.index() + 1)).drop_last() == line_views(all.take(it.index() as int)));
            }
            match line {
                Some(e) => {
                    let kind = e.str_at("entity_type");
                    let archived = match kind {
                        Some(k) => crate::text::same_text(k.as_str(), "archived"),
                        None => false,
                    };
                    if !archived {
                        proof {
                            lemma_items_view_push(out@, e);
                        }
                        out.push(e);
                    }
                },
                None => {},
            }
        }
        assert(all.take(all.len() as int) == all);
        out
    }

    /// The capture entry for `capture_id`, with the given identifier and time.
    pub fn capture_entry(
        entry_id: String,
        timestamp: String,
        capture_id: &str,
        content: &str,
        source: &str,
    ) -> (r: Json)
        ensures
            is_capture_entry(r@, entry_id@, timestamp@, capture_id@, content@, source@),
    {
        let mut after: Vec<(String, Json)> = Vec::new();
        after.push(member("content", json_str(content)));
        after.push(member("source", json_str(source)));
        let ghost af = after@;
        let after = Json::Object(after);
        let mut f: Vec<(String, Json)> = Vec::new();
        f.push(member("entry_id", Json::Str(entry_id)));
        f.push(member("timestamp", Json::Str(timestamp)));
        f.push(member("schema_version", Json::Number(owned("1"))));
        f.push(member("entity_type", json_str("capture")));
        f.push(member("entity_id", json_str(capture_id)));
        f.push(member("operation", json_str("create")));
        f.push(member("before_state", Json::Null));
        f.push(member("after_state", after));
        f.push(member("reason_capture_id", Json::Null));
        f.push(member("approved_by_user", Json::Bool(false)));
        let r = Json::Object(f);
        proof {
            lemma_entry_keys_distinct();
            reveal_strlit("content");
            reveal_strlit("source");
            lemma_distinct_by_shape(seq!["content"@, "source"@]);
            lemma_built(af, seq!["content"@, "source"@]);
            assert(at(JsonView::Object(members_view(af)), seq!["content"@, "source"@][0]) == af[0].1@);
            assert(at(JsonView::Object(members_view(af)), seq!["content"@, "source"@][1]) == af[1].1@);
            lemma_built(f@, entry_keys());
            assert(at(r@, entry_keys()[0]) == f@[0].1@);
            assert(at(r@, entry_keys()[1]) == f@[1].1@);
            assert(at(r@, entry_keys()[2]) == f@[2].1@);
            assert(at(r@, entry_keys()[3]) == f@[3].1@);
            assert(at(r@, entry_keys()[4]) == f@[4].1@);
            assert(at(r@, entry_keys()[5]) == f@[5].1@);
            assert(at(r@, entry_keys()[6]) == f@[6].1@);
            assert(at(r@, entry_keys()[7]) == f@[7].1@);
            assert(at(r@, entry_keys()[8]) == f@[8].1@);
            assert(at(r@, entry_keys()[9]) == f@[9].1@);
        }
        r
    }

    /// The project entry for `name` in `category`, with the given identifier and times.
    pub fn project_entry(
        entry_id: String,
        timestamp: String,
        name: &str,
        category: &str,
        last_updated: String,
    ) -> (r: Json)
        ensures
            is_project_entry(r@, entry_id@, timestamp@, name@, category@, last_updated@),
    {
        let mut after: Vec<(String, Json)> = Vec::new();
        after.push(member("name", json_str(name)));
        after.push(member("status", json_str("active")));
        after.push(member("category", json_str(category)));
        after.push(member("priority", json_str("normal")));
        after.push(member("last_updated", Json::Str(last_updated)));
        let ghost af = after@;
        let after = Json::Object(after);
        let id = project_id(category, name);
        let mut f: Vec<(String, Json)> = Vec::new();
        f.push(member("entry_id", Json::Str(entry_id)));
        f.push(member("timestamp", Json::Str(timestamp)));
        f.push(member("schema_version", Json::Number(owned("1"))));
        f.push(member("entity_type", json_str("project")));
        f.push(member("entity_id", Json::Str(id)));
        f.push(member("operation", json_str("create")));
        f.push(member("before_state", Json::Null));
        f.push(member("after_state", after));
        f.push(member("reason_capture_id", Json::Null));
        f.push(member("approved_by_user", Json::Bool(false)));
        let r = Json::Object(f);
        proof {
            lemma_entry_keys_distinct();
            reveal_strlit("name");
            reveal_strlit("status");
            reveal_strlit("category");
            reveal_strlit("priority");
            reveal_strlit("last_updated");
            lemma_distinct_by_shape(seq!["name"@, "status"@, "category"@, "priority"@, "last_updated"@]);
            lemma_built(af, seq!["name"@, "status"@, "category"@, "priority"@, "last_updated"@]);
            assert(at(JsonView::Object(members_view(af)), seq!["name"@, "status"@, "category"@, "priority"@, "last_updated"@][0]) == af[0].1@);
            assert(at(JsonView::Object(members_view(af)), seq!["name"@, "status"@, "category"@, "priority"@, "last_updated"@][1]) == af[1].1@);
            assert(at(JsonView::Object(members_view(af)), seq!["name"@, "status"@, "category"@, "priority"@, "last_updated"@][2]) == af[2].1@);
            assert(at(JsonView::Object(members_view(af)), seq!["name"@, "status"@, "category"@, "priority"@, "last_updated"@][3]) == af[3].1@);
            assert(at(JsonView::Object(members_view(af)), seq!["name"@, "status"@, "category"@, "priority"@, "last_updated"@][4]) == af[4].1@);
            lemma_built(f@, entry_keys());
            assert(at(r@, entry_keys()[0]) == f@[0].1@);
            assert(at(r@, entry_keys()[1]) == f@[1].1@);
            assert(at(r@, entry_keys()[2]) == f@[2].1@);
            assert(at(r@, entry_keys()[3]) == f@[3].1@);
            assert(at(r@, entry_keys()[4]) == f@[4].1@);
            assert(at(r@, entry_keys()[5]) == f@[5].1@);
            assert(at(r@, entry_keys()[6]) == f@[6].1@);
            assert(at(r@, entry_keys()[7]) == f@[7].1@);
            assert(at(r@, entry_keys()[8]) == f@[8].1@);
            assert(at(r@, entry_keys()[9]) == f@[9].1@);
        }
        r
    }

    /// The update of project `name` from `old_status` to `new_status`, with the
    /// given identifier and time.
    pub fn project_update_entry(
        entry_id: String,
        timestamp: String,
        name: &str,
        old_status: &str,
        new_status: &str,
        category: &str,
    ) -> (r: Json)
        ensures
            is_project_update_entry(r@, entry_id@, timestamp@, name@, old_status@, new_status@, category@),
    {
        let mut before: Vec<(String, Json)> = Vec::new();
        before.push(member("status", json_str(old_status)));
        let ghost bf = before@;
        let before = Json::Object(before);
        let mut after: Vec<(String, Json)> = Vec::new();
        after.push(member("name", json_str(name)));
        after.push(member("status", json_str(new_status)));
        after.push(member("category", json_str(category)));
        let ghost af = after@;
        let after = Json::Object(after);
        let id = concat("project_update:", underscore_spaces(name).as_str());
        let mut f: Vec<(String, Json)> = Vec::new();
        f.push(member("entry_id", Json::Str(entry_id)));
        f.push(member("timestamp", Json::Str(timestamp)));
        f.push(member("schema_version", Json::Number(owned("1"))));
        f.push(member("entity_type", json_str("project_update")));
        f.push(member("entity_id", Json::Str(id)));
        f.push(member("operation", json_str("update")));
        f.push(member("before_state", before));
        f.push(member("after_state", after));
        f.push(member("reason_capture_id", Json::Null));
        f.push(member("approved_by_user", Json::Bool(false)));
        let r = Json::Object(f);
        proof {
            lemma_entry_keys_distinct();
            reveal_strlit("status");
            lemma_distinct_by_shape(seq!["status"@]);
            lemma_built(bf, seq!["status"@]);
            assert(at(JsonView::Object(members_view(bf)), seq!["status"@][0]) == bf[0].1@);
            reveal_strlit("name");
            reveal_strlit("category");
            lemma_distinct_by_shape(seq!["name"@, "status"@, "category"@]);
            lemma_built(af, seq!["name"@, "status"@, "category"@]);
            assert(at(JsonView::Object(members_view(af)), seq!["name"@, "status"@, "category"@][0]) == af[0].1@);
            assert(at(JsonView::Object(members_view(af)), seq!["name"@, "status"@, "category"@][1]) == af[1].1@);
            assert(at(JsonView::Object(members_view(af)), seq!["name"@, "status"@, "category"@][2]) == af[2].1@);
            lemma_built(f@, entry_keys());
            assert(at(r@, entry_keys()[0]) == f@[0].1@);
            assert(at(r@, entry_keys()[1]) == f@[1].1@);
            assert(at(r@, entry_keys()[2]) == f@[2].1@);
            assert(at(r@, entry_keys()[3]) == f@[3].1@);
            assert(at(r@, entry_keys()[4]) == f@[4].1@);
            assert(at(r@, entry_keys()[5]) == f@[5].1@);
            assert(at(r@, entry_keys()[6]) == f@[6].1@);
            assert(at(r@, entry_keys()[7]) == f@[7].1@);
            assert(at(r@, entry_keys()[8]) == f@[8].1@);
            assert(at(r@, entry_keys()[9]) == f@[9].1@);
        }
        r
    }

    /// The tombstone for the entry `original_entry_id`, with the given identifier and time.
    pub fn tombstone_entry(entry_id: String, timestamp: String, original_entry_id: &str) -> (r: Json)
        ensures
            is_tombstone_entry(r@, entry_id@, timestamp@, original_entry_id@),
    {
        let mut f: Vec<(String, Json)> = Vec::new();
        f.push(member("entry_id", Json::Str(entry_id)));
        f.push(member("timestamp", Json::Str(timestamp)));
        f.push(member("schema_version", Json::Number(owned("1"))));
        f.push(member("entity_type", json_str("archived")));
        f.push(member("original_entry_id", json_str(original_entry_id)));
        f.push(member("operation", json_str("archive")));
        f.push(member("before_state", Json::Null));
        f.push(member("after_state", Json::Null));
        f.push(member("reason_capture_id", Json::Null));
        f.push(member("approved_by_user", Json::Bool(true)));
        let r = Json::Object(f);
        proof {
            lemma_entry_keys_distinct();
            lemma_built(f@, tombstone_keys());
            assert(at(r@, tombstone_keys()[0]) == f@[0].1@);
            assert(at(r@, tombstone_keys()[1]) == f@[1].1@);
            assert(at(r@, tombstone_keys()[2]) == f@[2].1@);
            assert(at(r@, tombstone_keys()[3]) == f@[3].1@);
            assert(at(r@, tombstone_keys()[4]) == f@[4].1@);
            assert(at(r@, tombstone_keys()[5]) == f@[5].1@);
            assert(at(r@, tombstone_keys()[6]) == f@[6].1@);
            assert(at(r@, tombstone_keys()[7]) == f@[7].1@);
            assert(at(r@, tombstone_keys()[8]) == f@[8].1@);
            assert(at(r@, tombstone_keys()[9]) == f@[9].1@);
        }
        r
    }

    /// A new capture entry for `capture_id`: a fresh identifier, the current time,
    /// and the content and source given.
    pub fn new_capture_entry(&self, capture_id: &str, content: &str, source: &str) -> (r: Json)
        ensures
            exists|entry_id: Seq<char>, at: Instant|
                is_uuid_v4_text(entry_id) && is_capture_entry(r@, entry_id, rfc3339_text_of(at.secs, at.nanos), capture_id@, content@, source@),
    {
        let entry_id = new_entry_id();
        let now = utc_now();
        let timestamp = rfc3339_text(now);
        Self::capture_entry(entry_id, timestamp, capture_id, content, source)
    }

    /// A new project entry for `name` in `category`, active and of normal priority,
    /// with a fresh identifier and the current time (read twice, as the journal
    /// holds the creation time and the last update time apart).
    pub fn new_project_entry(&self, name: &str, category: &str, _require_approval: bool) -> (r: Json)
        ensures
            exists|entry_id: Seq<char>, at: Instant, updated: Instant|
                is_uuid_v4_text(entry_id) && is_project_entry(
                    r@,
                    entry_id,
                    rfc3339_text_of(at.secs, at.nanos),
                    name@,
                    category@,
                    rfc3339_text_of(updated.secs, updated.nanos),
                ),
    {
        let entry_id = new_entry_id();
        let now = utc_now();
        let timestamp = rfc3339_text(now);
        let later = utc_now();
        let last_updated = rfc3339_text(later);
        Self::project_entry(entry_id, timestamp, name, category, last_updated)
    }

    /// A new update of project `name` from `old_status` to `new_status`, with a fresh
    /// identifier and the current time.
    pub fn new_project_update_entry(
        &self,
        name: &str,
        old_status: &str,
        new_status: &str,
        category: &str,
    ) -> (r: Json)
        ensures
            exists|entry_id: Seq<char>, at: Instant|
                is_uuid_v4_text(entry_id) && is_project_update_entry(
                    r@,
                    entry_id,
                    rfc3339_text_of(at.secs, at.nanos),
                    name@,
                    old_status@,
                    new_status@,
                    category@,
                ),
    {
        let entry_id = new_entry_id();
        let now = utc_now();
        let timestamp = rfc3339_text(now);
        Self::project_update_entry(entry_id, timestamp, name, old_status, new_status, category)
    }

    /// A new tombstone for the entry `original_entry_id`, with a fresh identifier and
    /// the current time.
    pub fn new_archived_entry(&self, original_entry_id: &str) -> (r: Json)
        ensures
            exists|entry_id: Seq<char>, at: Instant|
                is_uuid_v4_text(entry_id) && is_tombstone_entry(r@, entry_id, rfc3339_text_of(at.secs, at.nanos), original_entry_id@),
    {
        let entry_id = new_entry_id();
        let now = utc_now();
        let timestamp = rfc3339_text(now);
        Self::tombstone_entry(entry_id, timestamp, original_entry_id)
    }
}

/// The identifier of a project, `project:<category>:<name with spaces as underscores>`.
pub fn project_id(category: &str, name: &str) -> (r: String)
    ensures
        r@ == project_key(category@, name@),
{
    let a = concat("project:", category);
    let b = concat(a.as_str(), ":");
    concat(b.as_str(), underscore_spaces(name).as_str())
}

/// When entry `e` was written: its `timestamp` parsed as RFC 3339 and taken to UTC,
/// or `None` where it has no such text or the text does not parse.
pub open spec fn stamp_of(e: JsonView) -> Option<Instant> {
    match as_str(at(e, "timestamp"@)) {
        Some(t) => match rfc3339_instant(t) {
            Some(p) => Some(Instant { secs: p.0, nanos: p.1 }),
            None => None,
        },
        None => None,
    }
}

/// When each entry was written, in order.
pub open spec fn stamps_of(entries: Seq<JsonView>) -> Seq<Option<Instant>> {
    entries.map_values(|e: JsonView| stamp_of(e))
}

/// The views of loaded lines.
pub open spec fn line_views(lines: Seq<Option<Json>>) -> Seq<Option<JsonView>> {
    lines.map_values(|o: Option<Json>| match o {
        Some(j) => Some(j@),
        None => None,
    })
}

/// When entry `e` was written.
pub fn entry_stamp(e: &Json) -> (r: Option<Instant>)
    ensures
        r == stamp_of(e@),
{
    match e.str_at("timestamp") {
        Some(t) => parse_rfc3339(t.as_str()),
        None => None,
    }
}

/// When each of `entries` was written.
pub fn entry_stamps(entries: &Vec<Json>) -> (r: Vec<Option<Instant>>)
    ensures
        r@ == stamps_of(views(entries@)),
{
    proof {
        lemma_items_view(entries@);
    }
    let mut r: Vec<Option<Instant>> = Vec::new();
    let mut i: usize = 0;
    while i < entries.len()
        invariant
            i <= entries@.len(),
            r@ == stamps_of(views(entries@)).take(i as int),
            views(entries@).len() == entries@.len(),
            forall|j: int| 0 <= j < entries@.len() ==> #[trigger] views(entries@)[j] == entries@[j]@,
        decreases entries@.len() - i,
    {
        let t = entry_stamp(&entries[i]);
        r.push(t);
        assert(views(entries@)[i as int] == entries@[i as int]@);
        assert(stamps_of(views(entries@)).take(i + 1) == stamps_of(views(entries@)).take(i as int).push(t));
        i = i + 1;
    }
    assert(stamps_of(views(entries@)).take(entries@.len() as int) == stamps_of(views(entries@)));
    r
}

/// Reading the journal never yields a tombstone.
pub proof fn lemma_loaded_entries_skip_tombstones(lines: Seq<Option<JsonView>>)
    ensures
        forall|i: int| 0 <= i < loaded_entries(lines).len() ==> !is_tombstone(#[trigger] loaded_entries(lines)[i]),
    decreases lines.len(),
{
    if lines.len() > 0 {
        let prev = loaded_entries(lines.drop_last());
        lemma_loaded_entries_skip_tombstones(lines.drop_last());
        assert forall|i: int| 0 <= i < loaded_entries(lines).len() implies !is_tombstone(#[trigger] loaded_entries(lines)[i]) by {
            if i < prev.len() {
                assert(loaded_entries(lines)[i] == prev[i]);
            }
        }
    }
}

/// What is appended to the journal is read back: a line holding an entry that is
/// not a tombstone adds that entry after the ones read before; a line that did
/// not parse, or holds a tombstone, adds nothing.
pub proof fn lemma_appended_entry_read_back(lines: Seq<Option<JsonView>>, line: Option<JsonView>)
    ensures
        loaded_entries(lines.push(line)) == match line {
            Some(e) => if is_tombstone(e) {
                loaded_entries(lines)
            } else {
                loaded_entries(lines).push(e)
            },
            None => loaded_entries(lines),
        },
{
    assert(lines.push(line).drop_last() == lines);
}

/// An entry the library builds is read back after it is appended, unless it is a
/// tombstone: then it adds nothing to what is read.
pub proof fn lemma_appended_built_entry_read_back(
    lines: Seq<Option<JsonView>>,
    e: JsonView,
    entry_id: Seq<char>,
    timestamp: Seq<char>,
    entity_type: Seq<char>,
    operation: Seq<char>,
)
    requires
        entry_header(e, entry_id, timestamp, entity_type, operation),
    ensures
        entity_type != "archived"@ ==> loaded_entries(lines.push(Some(e))) == loaded_entries(lines).push(e),
        entity_type == "archived"@ ==> loaded_entries(lines.push(Some(e))) == loaded_entries(lines),
{
    lemma_appended_entry_read_back(lines, Some(e));
}

/// The entries the library builds record no approval (`approved_by_user` reads
/// false), except tombstones, which the library writes approved.
pub proof fn lemma_built_entries_unapproved(e: JsonView, a: Seq<char>, b: Seq<char>, c: Seq<char>, d: Seq<char>, f: Seq<char>, g: Seq<char>)
    ensures
        is_capture_entry(e, a, b, c, d, f) ==> !flag_at(e, "approved_by_user"@),
        is_project_entry(e, a, b, c, d, f) ==> !flag_at(e, "approved_by_user"@),
        is_project_update_entry(e, a, b, c, d, f, g) ==> !flag_at(e, "approved_by_user"@),
        is_tombstone_entry(e, a, b, c) ==> flag_at(e, "approved_by_user"@),
{
}

} // verus!
