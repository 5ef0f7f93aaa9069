//! Guided capture: a note dropped into the guided folder is classified by the
//! model into a journal entry, or entered by hand when the model fails.
use vstd::prelude::*;
use crate::clock::{rfc3339_text, rfc3339_text_of, utc_now, Instant};
use crate::journal::{
    all_distinct, entry_header, entry_keys, lemma_built, lemma_distinct_by_shape,
    is_uuid_v4_text, lemma_entry_keys_distinct, member, new_entry_id,
};
use crate::json::{
    as_bool, at, flag_at, is_object, lemma_with_member_reads, is_str, json_str, members_view, object_keys, with_member, Json,
    JsonView,
};
use crate::packets::settled;
use crate::text::{
    all_ascii, ascii_lower, concat, ends_with, lowercase_of, owned, same_text, starts_with, starts_with_text,
    ends_with_text, to_lowercase, trim, trim_text,
};

verus! {

/// A guided note, as its JSON file gives it.
#[derive(Clone, Debug, PartialEq)]
pub struct GuidedPacket {
    pub id: String,
    pub prompt: String,
    pub context_hint: Option<String>,
    pub require_approval: bool,
}

/// The guided files handled so far (by file name).
pub struct GuidedWatcher {
    processed: Vec<String>,
}

/// A file of the guided folder is a guided note: "guided_*.json".
pub open spec fn is_guided_file(name: Seq<char>) -> bool {
    ends_with(name, ".json"@) && starts_with(name, "guided_"@)
}

impl View for GuidedWatcher {
    type V = Set<Seq<char>>;

    closed spec fn view(&self) -> Set<Seq<char>> {
        self.processed@.map_values(|s: String| s@).to_set()
    }
}

impl GuidedWatcher {
    /// A watcher that has handled nothing.
    pub fn new() -> (r: Self)
        ensures
            r@ == Set::<Seq<char>>::empty(),
    {
        let r = GuidedWatcher { processed: Vec::new() };
        assert(r.processed@.map_values(|s: String| s@).to_set() =~= Set::<Seq<char>>::empty());
        r
    }

    fn seen(&self, name: &str) -> (r: bool)
        ensures
            r == self@.contains(name@),
    {
        let mut i: usize = 0;
        let ghost names = self.processed@.map_values(|s: String| s@);
        while i < self.processed.len()
            invariant
                i <= self.processed@.len(),
                names == self.processed@.map_values(|s: String| s@),
                forall|j: int| 0 <= j < i ==> names[j] != name@,
            decreases self.processed@.len() - i,
        {
            if same_text(self.processed[i].as_str(), name) {
                assert(names[i as int] == name@);
                return true;
            }
            i = i + 1;
        }
        assert(!names.contains(name@));
        false
    }

    /// Whether the file is a guided note not handled yet.
    pub fn wants(&self, name: &str) -> (r: bool)
        ensures
            r == (is_guided_file(name@) && !self@.contains(name@)),
    {
        ends_with_text(name, ".json") && starts_with_text(name, "guided_") && !self.seen(name)
    }

    /// Records the file as handled.
    pub fn mark_processed(&mut self, name: &str)
        ensures
            final(self)@ == old(self)@.insert(name@),
    {
        if !self.seen(name) {
            let ghost before = self.processed@;
            self.processed.push(owned(name));
            assert(self.processed@.map_values(|s: String| s@) == before.map_values(|s: String| s@).push(name@));
            proof {
                before.map_values(|s: String| s@).lemma_push_to_set_commute(name@);
            }
        } else {
            assert(old(self)@.insert(name@) =~= old(self)@);
        }
    }
}

/// The instructions that ask the model to classify a note.
pub open spec fn classify_prompt_text(note: Seq<char>) -> Seq<char> {
    "Classify this note into entity_type, entity_id, and after_state.summary. Respond with ONLY a JSON object, no markdown, no explanation. entity_type must be one of: capture, decision, project, error. entity_id must be a snake_case identifier with no dots or ellipsis. after_state.summary must be one sentence. Note: "@
        + note
        + ". Example output: {\"entity_type\":\"decision\",\"entity_id\":\"use_ollama_local\",\"after_state\":{\"summary\":\"Chose Ollama for local inference to reduce cost.\"}}"@
}

/// The prompt that asks the model to classify the note `note`.
pub fn classify_prompt(note: &str) -> (r: String)
    ensures
        r@ == classify_prompt_text(note@),
{
    let head = concat("Classify this note into entity_type, entity_id, and after_state.summary. Respond with ONLY a JSON object, no markdown, no explanation. entity_type must be one of: capture, decision, project, error. entity_id must be a snake_case identifier with no dots or ellipsis. after_state.summary must be one sentence. Note: ", note);
    concat(head.as_str(), ". Example output: {\"entity_type\":\"decision\",\"entity_id\":\"use_ollama_local\",\"after_state\":{\"summary\":\"Chose Ollama for local inference to reduce cost.\"}}")
}

/// The model task that classifies notes.
pub fn classify_task() -> (r: String)
    ensures
        r@ == "summarize"@,
{
    owned("summarize")
}

/// The model's entry after the journal fields are set: `entry_id`, `timestamp`,
/// `schema_version` 1, `reason_capture_id` null and `approved_by_user` false,
/// in that order, each as `entry[key] = value` sets it.
pub open spec fn stamped(entry: JsonView, entry_id: Seq<char>, timestamp: Seq<char>) -> JsonView {
    with_member(
        with_member(
            with_member(
                with_member(
                    with_member(entry, "entry_id"@, JsonView::Str(entry_id)),
                    "timestamp"@,
                    JsonView::Str(timestamp),
                ),
                "schema_version"@,
                JsonView::Number("1"@),
            ),
            "reason_capture_id"@,
            JsonView::Null,
        ),
        "approved_by_user"@,
        JsonView::Bool(false),
    )
}

/// Sets the journal fields of the model's entry (which must be an object or `null`,
/// the values on which `entry[key] = value` is defined).
pub fn stamp_entry(entry: Json, entry_id: String, timestamp: String) -> (r: Json)
    requires
        entry@ is Object || entry@ is Null,
    ensures
        r@ == stamped(entry@, entry_id@, timestamp@),
{
    let e = entry.with(owned("entry_id"), Json::Str(entry_id));
    let e = e.with(owned("timestamp"), Json::Str(timestamp));
    let e = e.with(owned("schema_version"), Json::Number(owned("1")));
    let e = e.with(owned("reason_capture_id"), Json::Null);
    e.with(owned("approved_by_user"), Json::Bool(false))
}

/// Sets the journal fields of the model's entry with a fresh identifier and the
/// current time.
pub fn stamp_new_entry(entry: Json) -> (r: Json)
    requires
        entry@ is Object || entry@ is Null,
    ensures
        exists|entry_id: Seq<char>, t: Instant| is_uuid_v4_text(entry_id) && r@ == stamped(entry@, entry_id, rfc3339_text_of(t.secs, t.nanos)),
{
    let id = new_entry_id();
    let now = utc_now();
    let ts = rfc3339_text(now);
    stamp_entry(entry, id, ts)
}

/// The entry a guided note proposes from the model's reply (`None` where the
/// model failed or its payload was not JSON): the reply with a fresh identifier,
/// the current time and `approved_by_user` false; `None` sends the note to the
/// hand-made classification instead. A reply that is JSON but neither an object
/// nor `null` is left out, as `entry[key] = value` panics on it.
pub fn guided_proposal(reply: Option<Json>) -> (r: Option<Json>)
    requires
        reply matches Some(v) ==> (v@ is Object || v@ is Null),
    ensures
        reply is None <==> r is None,
        reply matches Some(v) ==> r matches Some(e) && exists|entry_id: Seq<char>, t: Instant|
            is_uuid_v4_text(entry_id) && e@ == stamped(v@, entry_id, rfc3339_text_of(t.secs, t.nanos)),
{
    match reply {
        Some(v) => Some(stamp_new_entry(v)),
        None => None,
    }
}

/// `e` is the entry that a hand-made classification gives.
pub open spec fn is_manual_entry(
    e: JsonView,
    entry_id: Seq<char>,
    timestamp: Seq<char>,
    entity_type: Seq<char>,
    entity_id: Seq<char>,
    summary: Seq<char>,
    prompt: Seq<char>,
) -> bool {
    let after = at(e, "after_state"@);
    &&& entry_header(e, entry_id, timestamp, entity_type, "create"@)
    &&& object_keys(e) == entry_keys()
    &&& is_str(at(e, "entity_id"@), entity_id)
    &&& at(e, "before_state"@) is Null
    &&& is_object(after)
    &&& object_keys(after) == seq!["summary"@, "original_prompt"@]
    &&& is_str(at(after, "summary"@), summary)
    &&& is_str(at(after, "original_prompt"@), prompt)
    &&& as_bool(at(e, "approved_by_user"@)) == Some(false)
}

/// The entry for a hand-made classification, from the type, identifier and summary given.
pub fn manual_entry_with(
    entry_id: String,
    timestamp: String,
    entity_type: &str,
    entity_id: &str,
    summary: &str,
    prompt: &str,
) -> (r: Json)
    ensures
        is_manual_entry(r@, entry_id@, timestamp@, entity_type@, entity_id@, summary@, prompt@),
        as_bool(at(r@, "approved_by_user"@)) == Some(false),
{
    let mut after: Vec<(String, Json)> = Vec::new();
    after.push(member("summary", json_str(summary)));
    after.push(member("original_prompt", json_str(prompt)));
    let ghost af = after@;
    let after = Json::Object(after);
    let mut f: Vec<(String, Json)> = Vec::new();
    f.push(member("entry_id", Json::Str(entry_id)));
    f.push(member("timestamp", Json::Str(timestamp)));
    f.push(member("schema_version", Json::Number(owned("1"))));
    f.push(member("entity_type", json_str(entity_type)));
    f.push(member("entity_id", json_str(entity_id)));
    f.push(member("operation", json_str("create")));
    f.push(member("before_state", Json::Null));
    f.push(member("after_state", after));
    f.push(member("reason_capture_id", Json::Null));
    f.push(member("approved_by_user", Json::Bool(false)));
    let r = Json::Object(f);
    proof {
        let ak = seq!["summary"@, "original_prompt"@];
        lemma_entry_keys_distinct();
        reveal_strlit("summary");
        reveal_strlit("original_prompt");
        lemma_distinct_by_shape(ak);
        lemma_built(af, ak);
        assert(at(JsonView::Object(members_view(af)), ak[0]) == af[0].1@);
        assert(at(JsonView::Object(members_view(af)), ak[1]) == af[1].1@);
        lemma_built(f@, entry_keys());
        let ks = entry_keys();
        assert(at(r@, ks[0]) == f@[0].1@);
        assert(at(r@, ks[1]) == f@[1].1@);
        assert(at(r@, ks[2]) == f@[2].1@);
        assert(at(r@, ks[3]) == f@[3].1@);
        assert(at(r@, ks[4]) == f@[4].1@);
        assert(at(r@, ks[5]) == f@[5].1@);
        assert(at(r@, ks[6]) == f@[6].1@);
        assert(at(r@, ks[7]) == f@[7].1@);
        assert(at(r@, ks[8]) == f@[8].1@);
        assert(at(r@, ks[9]) == f@[9].1@);
    }
    r
}

/// The entry for a hand-made classification from the three lines the user typed:
/// the type (trimmed and lowercased), the identifier and the summary (trimmed).
pub fn manual_entry(
    entry_id: String,
    timestamp: String,
    type_line: &str,
    id_line: &str,
    summary_line: &str,
    prompt: &str,
) -> (r: Json)
    ensures
        is_manual_entry(
            r@,
            entry_id@,
            timestamp@,
            lowercase_of(trim(type_line@)),
            trim(id_line@),
            trim(summary_line@),
            prompt@,
        ),
        all_ascii(trim(type_line@)) ==> lowercase_of(trim(type_line@)) == trim(type_line@).map_values(
            |c: char| ascii_lower(c),
        ),
        as_bool(at(r@, "approved_by_user"@)) == Some(false),
{
    let t = trim_text(type_line);
    let entity_type = to_lowercase(t.as_str());
    let entity_id = trim_text(id_line);
    let summary = trim_text(summary_line);
    manual_entry_with(entry_id, timestamp, entity_type.as_str(), entity_id.as_str(), summary.as_str(), prompt)
}

/// The entry for a hand-made classification, with a fresh identifier and the current time.
pub fn new_manual_entry(type_line: &str, id_line: &str, summary_line: &str, prompt: &str) -> (r: Json)
    ensures
        exists|entry_id: Seq<char>, t: Instant|
            is_uuid_v4_text(entry_id) && is_manual_entry(
                r@,
                entry_id,
                rfc3339_text_of(t.secs, t.nanos),
                lowercase_of(trim(type_line@)),
                trim(id_line@),
                trim(summary_line@),
                prompt@,
            ),
        as_bool(at(r@, "approved_by_user"@)) == Some(false),
{
    let id = new_entry_id();
    let now = utc_now();
    let ts = rfc3339_text(now);
    manual_entry(id, ts, type_line, id_line, summary_line, prompt)
}

/// A guided note is handled once: once its file is recorded as handled, the
/// watcher no longer wants it.
pub proof fn lemma_handled_once(processed: Set<Seq<char>>, name: Seq<char>)
    ensures
        !(is_guided_file(name) && !processed.insert(name).contains(name)),
{
}

/// A guided entry records the user's approval: after the approval step, an entry
/// the user approved reads `approved_by_user` true, one written without asking
/// reads it false, and one the user refused is not written.
pub proof fn lemma_guided_approval_recorded(v: JsonView, entry_id: Seq<char>, timestamp: Seq<char>, answer: bool)
    ensures
        answer ==> (settled(stamped(v, entry_id, timestamp), true, answer) matches Some(e) && flag_at(
            e,
            "approved_by_user"@,
        )),
        !answer ==> settled(stamped(v, entry_id, timestamp), true, answer) is None,
        settled(stamped(v, entry_id, timestamp), false, answer) matches Some(e) && !flag_at(e, "approved_by_user"@),
{
    let e = stamped(v, entry_id, timestamp);
    let inner = with_member(
        with_member(
            with_member(with_member(v, "entry_id"@, JsonView::Str(entry_id)), "timestamp"@, JsonView::Str(timestamp)),
            "schema_version"@,
            JsonView::Number("1"@),
        ),
        "reason_capture_id"@,
        JsonView::Null,
    );
    lemma_with_member_reads(inner, "approved_by_user"@, JsonView::Bool(false));
    lemma_with_member_reads(e, "approved_by_user"@, JsonView::Bool(true));
}

/// A hand-made classification never records an approval by itself: its entry
/// reads `approved_by_user` false, is written unchanged when the user is not
/// asked, and reads true only once the user has approved it.
pub proof fn lemma_manual_entry_unapproved(
    e: JsonView,
    entry_id: Seq<char>,
    timestamp: Seq<char>,
    entity_type: Seq<char>,
    entity_id: Seq<char>,
    summary: Seq<char>,
    prompt: Seq<char>,
    answer: bool,
)
    requires
        is_manual_entry(e, entry_id, timestamp, entity_type, entity_id, summary, prompt),
    ensures
        !flag_at(e, "approved_by_user"@),
        settled(e, false, answer) == Some(e),
        answer ==> (settled(e, true, answer) matches Some(f) && flag_at(f, "approved_by_user"@)),
        !answer ==> settled(e, true, answer) is None,
{
    lemma_with_member_reads(e, "approved_by_user"@, JsonView::Bool(true));
}

} // verus!
