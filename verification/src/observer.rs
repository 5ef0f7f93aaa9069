//! The pattern observer: it keeps the last bus messages and reports a message
//! that keeps coming back.
use vstd::prelude::*;
use crate::text::{concat, owned, same_text, starts_with, starts_with_text};

verus! {

/// How many messages the observer keeps.
pub const HISTORY_LIMIT: usize = 100;

/// How many of the latest messages a repeat is counted in.
pub const RECENT_WINDOW: usize = 10;

/// How many times a message must occur among the latest ones to be reported.
pub const PATTERN_THRESHOLD: usize = 3;

/// The observer's memory of past messages, oldest first.
pub struct PatternObserver {
    history: Vec<String>,
}

/// The texts of a sequence of strings.
pub open spec fn texts(v: Seq<String>) -> Seq<Seq<char>> {
    v.map_values(|s: String| s@)
}

/// Messages the observer does not record: its own reports and the workspace broadcasts.
pub open spec fn ignored(msg: Seq<char>) -> bool {
    starts_with(msg, "pattern:"@) || starts_with(msg, "workspace:"@)
}

/// The history after a message: an ignored message leaves it as it was; any other
/// is appended, and the oldest is dropped when more than the limit are kept.
pub open spec fn next_history(history: Seq<Seq<char>>, msg: Seq<char>) -> Seq<Seq<char>> {
    if ignored(msg) {
        history
    } else if history.len() + 1 > HISTORY_LIMIT {
        history.push(msg).drop_first()
    } else {
        history.push(msg)
    }
}

/// The latest `RECENT_WINDOW` messages of a history (all of them when it is shorter).
pub open spec fn recent(history: Seq<Seq<char>>) -> Seq<Seq<char>> {
    if history.len() > RECENT_WINDOW {
        history.skip(history.len() - RECENT_WINDOW)
    } else {
        history
    }
}

/// How many times `msg` occurs in `s`.
pub open spec fn count_of(s: Seq<Seq<char>>, msg: Seq<char>) -> nat
    decreases s.len(),
{
    if s.len() == 0 {
        0
    } else {
        count_of(s.drop_last(), msg) + if s.last() == msg { 1nat } else { 0nat }
    }
}

/// Whether observing `msg` after `history` reports a pattern: the message is
/// recorded and occurs at least `PATTERN_THRESHOLD` times among the latest
/// `RECENT_WINDOW` messages, itself included.
pub open spec fn detects(history: Seq<Seq<char>>, msg: Seq<char>) -> bool {
    !ignored(msg) && count_of(recent(next_history(history, msg)), msg) >= PATTERN_THRESHOLD
}

impl View for PatternObserver {
    type V = Seq<Seq<char>>;

    closed spec fn view(&self) -> Seq<Seq<char>> {
        texts(self.history@)
    }
}

impl PatternObserver {
    #[verifier::type_invariant]
    closed spec fn within_limit(self) -> bool {
        self.history@.len() <= HISTORY_LIMIT
    }

    /// An observer that has seen nothing.
    pub fn new() -> (r: Self)
        ensures
            r@ == Seq::<Seq<char>>::empty(),
    {
        let r = PatternObserver { history: Vec::new() };
        assert(texts(r.history@) == Seq::<Seq<char>>::empty());
        r
    }

    /// The messages kept, oldest first.
    pub fn history_len(&self) -> (r: usize)
        ensures
            r == self@.len(),
            r <= HISTORY_LIMIT,
    {
        proof {
            use_type_invariant(self);
        }
        self.history.len()
    }

    /// Observes one bus message. Returns the payload of the pattern report to
    /// publish on the topic "pattern" when the message is a repeat.
    pub fn observe(&mut self, msg: &str) -> (r: Option<String>)
        ensures
            final(self)@ == next_history(old(self)@, msg@),
            final(self)@.len() <= HISTORY_LIMIT,
            r is Some <==> detects(old(self)@, msg@),
            r matches Some(p) ==> p@ == "pattern:"@ + msg@,
    {
        proof {
            use_type_invariant(&*self);
        }
        if starts_with_text(msg, "pattern:") || starts_with_text(msg, "workspace:") {
            return None;
        }
        let mut history = Vec::new();
        std::mem::swap(&mut history, &mut self.history);
        let ghost before = history@;
        history.push(owned(msg));
        assert(texts(history@) == texts(before).push(msg@));
        if history.len() > HISTORY_LIMIT {
            history.remove(0);
            assert(texts(history@) == texts(before).push(msg@).drop_first());
        }
        let n = history.len();
        let start = if n > RECENT_WINDOW { n - RECENT_WINDOW } else { 0 };
        let mut count: usize = 0;
        let mut i = start;
        let ghost h = texts(history@);
        assert(recent(h) == h.subrange(start as int, n as int));
        assert(h.subrange(start as int, start as int) == Seq::<Seq<char>>::empty());
        while i < n
            invariant
                start <= i <= n == history@.len(),
                n <= HISTORY_LIMIT,
                count <= i - start,
                h == texts(history@),
                count == count_of(h.subrange(start as int, i as int), msg@),
            decreases n - i,
        {
            proof {
                assert(h.subrange(start as int, i + 1).drop_last() == h.subrange(start as int, i as int));
            }
            if same_text(history[i].as_str(), msg) {
                count = count + 1;
            }
            i = i + 1;
        }
        self.history = history;
        if count >= PATTERN_THRESHOLD {
            Some(concat("pattern:", msg))
        } else {
            None
        }
    }
}

/// A message seen twice and then a third time is reported on the third time,
/// whatever came before, provided it is one the observer records.
pub proof fn lemma_third_repeat_reported(history: Seq<Seq<char>>, msg: Seq<char>)
    requires
        !ignored(msg),
    ensures
        detects(next_history(next_history(history, msg), msg), msg),
{
    let h1 = next_history(history, msg);
    let h2 = next_history(h1, msg);
    let h3 = next_history(h2, msg);
    assert(h3.len() >= 3);
    assert(h3[h3.len() - 1] == msg);
    assert(h3[h3.len() - 2] == msg);
    assert(h3[h3.len() - 3] == msg);
    let r = recent(h3);
    assert(r.len() >= 3);
    assert(r[r.len() - 1] == msg);
    assert(r[r.len() - 2] == msg);
    assert(r[r.len() - 3] == msg);
    lemma_count_last_three(r, msg);
}

proof fn lemma_count_last_three(s: Seq<Seq<char>>, msg: Seq<char>)
    requires
        s.len() >= 3,
        s[s.len() - 1] == msg,
        s[s.len() - 2] == msg,
        s[s.len() - 3] == msg,
    ensures
        count_of(s, msg) >= 3,
{
    let s1 = s.drop_last();
    let s2 = s1.drop_last();
    assert(s1.last() == msg);
    assert(s2.last() == msg);
    assert(count_of(s2, msg) == count_of(s2.drop_last(), msg) + 1);
    assert(count_of(s1, msg) == count_of(s2, msg) + 1);
    assert(count_of(s, msg) == count_of(s1, msg) + 1);
}

/// A message the observer ignores is never reported and leaves the history as it was.
pub proof fn lemma_ignored_changes_nothing(history: Seq<Seq<char>>, msg: Seq<char>)
    requires
        ignored(msg),
    ensures
        next_history(history, msg) == history,
        !detects(history, msg),
{
}

/// The history only ever holds the latest messages in order: after one more
/// recorded message, the new history is the old one with the message appended,
/// less its oldest entries.
pub proof fn lemma_history_is_suffix(history: Seq<Seq<char>>, msg: Seq<char>)
    requires
        !ignored(msg),
        history.len() <= HISTORY_LIMIT,
    ensures
        next_history(history, msg).len() <= HISTORY_LIMIT,
        next_history(history, msg).last() == msg,
        history.push(msg).skip(history.push(msg).len() - next_history(history, msg).len()) == next_history(history, msg),
{
    let p = history.push(msg);
    if p.len() > HISTORY_LIMIT {
        assert(p.skip(1) == p.drop_first());
    } else {
        assert(p.skip(0) == p);
    }
}

} // verus!
