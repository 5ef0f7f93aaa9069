//! The status file: the last bus event, or a heartbeat when the bus is quiet,
//! written only when it changes.
use vstd::prelude::*;
use crate::clock::{rfc3339_text, rfc3339_text_of, utc_now, Instant};
use crate::json::{lemma_members_view, members_view, Json, JsonView};
use crate::text::owned;

verus! {

/// The status after a bus event `msg` at the time written `at`.
pub open spec fn event_status_of(msg: Seq<char>, at: Seq<char>) -> JsonView {
    JsonView::Object(seq![("last_event"@, JsonView::Str(msg)), ("timestamp"@, JsonView::Str(at))])
}

/// The status when the bus has been quiet, at the time written `at`.
pub open spec fn heartbeat_status_of(at: Seq<char>) -> JsonView {
    JsonView::Object(seq![("heartbeat"@, JsonView::Str(at))])
}

/// The status after a bus event `msg` at the time written `at`.
pub fn event_status(msg: &str, at: &str) -> (r: Json)
    ensures
        r@ == event_status_of(msg@, at@),
{
    let mut f: Vec<(String, Json)> = Vec::new();
    f.push((owned("last_event"), Json::Str(owned(msg))));
    f.push((owned("timestamp"), Json::Str(owned(at))));
    proof {
        lemma_members_view(f@);
        assert(members_view(f@) =~= seq![("last_event"@, JsonView::Str(msg@)), ("timestamp"@, JsonView::Str(at@))]);
    }
    Json::Object(f)
}

/// The heartbeat status at the time written `at`.
pub fn heartbeat_status(at: &str) -> (r: Json)
    ensures
        r@ == heartbeat_status_of(at@),
{
    let mut f: Vec<(String, Json)> = Vec::new();
    f.push((owned("heartbeat"), Json::Str(owned(at))));
    proof {
        lemma_members_view(f@);
        assert(members_view(f@) =~= seq![("heartbeat"@, JsonView::Str(at@))]);
    }
    Json::Object(f)
}

/// The status after a bus event `msg`, stamped with the current time.
pub fn event_status_now(msg: &str) -> (r: Json)
    ensures
        exists|t: Instant| r@ == event_status_of(msg@, rfc3339_text_of(t.secs, t.nanos)),
{
    let now = rfc3339_text(utc_now());
    event_status(msg, now.as_str())
}

/// The heartbeat status, stamped with the current time.
pub fn heartbeat_status_now() -> (r: Json)
    ensures
        exists|t: Instant| r@ == heartbeat_status_of(rfc3339_text_of(t.secs, t.nanos)),
{
    let now = rfc3339_text(utc_now());
    heartbeat_status(now.as_str())
}

/// Remembers the last status written.
pub struct StatusWriter {
    last: String,
}

impl View for StatusWriter {
    type V = Seq<char>;

    closed spec fn view(&self) -> Seq<char> {
        self.last@
    }
}

impl StatusWriter {
    /// A writer that has written nothing (the last status is empty).
    pub fn new() -> (r: Self)
        ensures
            r@ == Seq::<char>::empty(),
    {
        StatusWriter { last: String::new() }
    }

    /// Offers the serialized status `s`: it is to be written exactly when it
    /// differs from the last one written, and then becomes the last one.
    pub fn offer(&mut self, s: String) -> (write: bool)
        ensures
            write == (s@ != old(self)@),
            final(self)@ == s@,
    {
        if s == self.last {
            false
        } else {
            self.last = s;
            true
        }
    }
}

} // verus!
