//! The Lytho export watcher: which CSV export in the folder to load next.
use vstd::prelude::*;
use crate::clock::{earlier, is_earlier, Instant};
use crate::text::{ends_with, ends_with_text};

verus! {

/// A directory entry seen by the watcher: its name, whether it is a file, and
/// when it was last modified (when the system could tell).
#[derive(Clone, Debug, PartialEq)]
pub struct ExportCandidate {
    pub name: String,
    pub is_file: bool,
    pub modified: Option<Instant>,
}

/// A candidate qualifies: a ".csv" file modified after the last export loaded
/// (any time qualifies while none has been loaded).
pub open spec fn qualifies(c: ExportCandidate, last_mod: Option<Instant>) -> bool {
    &&& c.is_file
    &&& ends_with(c.name@, ".csv"@)
    &&& c.modified is Some
    &&& match last_mod {
        Some(lm) => earlier(lm, c.modified->0),
        None => true,
    }
}

/// The candidate to load: the last qualifying one in directory order.
pub open spec fn pick_of(cands: Seq<ExportCandidate>, last_mod: Option<Instant>) -> Option<int>
    decreases cands.len(),
{
    if cands.len() == 0 {
        None
    } else if qualifies(cands.last(), last_mod) {
        Some(cands.len() - 1)
    } else {
        pick_of(cands.drop_last(), last_mod)
    }
}

/// Remembers when the last export loaded was modified.
pub struct LythoWatcher {
    pub last_mod: Option<Instant>,
}

impl LythoWatcher {
    /// A watcher that has loaded nothing.
    pub fn new() -> (r: Self)
        ensures
            r.last_mod is None,
    {
        LythoWatcher { last_mod: None }
    }

    /// The export to load among the directory's entries, if any.
    pub fn pick(&self, cands: &Vec<ExportCandidate>) -> (r: Option<usize>)
        ensures
            match r {
                Some(k) => pick_of(cands@, self.last_mod) == Some(k as int),
                None => pick_of(cands@, self.last_mod) is None,
            },
    {
        let mut i = cands.len();
        assert(cands@.take(i as int) == cands@);
        while i > 0
            invariant
                i <= cands@.len(),
                pick_of(cands@, self.last_mod) == pick_of(cands@.take(i as int), self.last_mod),
            decreases i,
        {
            let c = &cands[i - 1];
            proof {
                assert(cands@.take(i as int).last() == cands@[i - 1]);
                assert(cands@.take(i as int).drop_last() == cands@.take(i - 1));
            }
            let newer = match (c.modified, self.last_mod) {
                (Some(m), Some(lm)) => is_earlier(lm, m),
                (Some(_), None) => true,
                (None, _) => false,
            };
            if c.is_file && ends_with_text(c.name.as_str(), ".csv") && newer {
                return Some(i - 1);
            }
            i = i - 1;
        }
        None
    }

    /// Records that the export modified at `t` was loaded.
    pub fn loaded(&mut self, t: Instant)
        ensures
            final(self).last_mod == Some(t),
    {
        self.last_mod = Some(t);
    }
}

/// The cache text of a CSV export: what `serde_json::to_string_pretty` writes of
/// the values that `csv::Reader::deserialize::<serde_json::Value>` reads, one per
/// record after the header row, with how many there are; or the text of the
/// first error.
pub uninterp spec fn csv_cache_of(content: Seq<char>) -> Result<(Seq<char>, nat), Seq<char>>;

/// Calls `csv::Reader::from_reader` on the export's bytes, collects what its
/// `deserialize::<serde_json::Value>()` yields, and writes that list with
/// `serde_json::to_string_pretty`. The contract claims only that the outcome is
/// a function of the content (`csv_cache_of`); an error is given by its text.
#[verifier::external_body]
fn csv_cache_text(content: &str) -> (r: Result<(String, usize), String>)
    ensures
        match r {
            Ok(p) => csv_cache_of(content@) == Ok::<(Seq<char>, nat), Seq<char>>((p.0@, p.1 as nat)),
            Err(e) => csv_cache_of(content@) == Err::<(Seq<char>, nat), Seq<char>>(e@),
        },
{
    let mut rdr = csv::Reader::from_reader(content.as_bytes());
    let records: Result<Vec<serde_json::Value>, csv::Error> = rdr.deserialize().collect();
    match records {
        Ok(v) => match serde_json::to_string_pretty(&v) {
            Ok(t) => Ok((t, v.len())),
            Err(e) => Err(e.to_string()),
        },
        Err(e) => Err(e.to_string()),
    }
}

/// The Lytho cache for an export's content: the indented JSON list of its records
/// and their number, or the error that stopped the parse.
pub fn lytho_cache(content: &str) -> (r: Result<(String, usize), String>)
    ensures
        match r {
            Ok(p) => csv_cache_of(content@) == Ok::<(Seq<char>, nat), Seq<char>>((p.0@, p.1 as nat)),
            Err(e) => csv_cache_of(content@) == Err::<(Seq<char>, nat), Seq<char>>(e@),
        },
{
    csv_cache_text(content)
}

/// The export picked qualifies, and no later entry of the directory does; when
/// nothing is picked, no entry qualifies.
pub proof fn lemma_pick_is_last_qualifying(cands: Seq<ExportCandidate>, last_mod: Option<Instant>)
    ensures
        match pick_of(cands, last_mod) {
            Some(k) => 0 <= k < cands.len() && qualifies(cands[k], last_mod) && forall|j: int|
                k < j < cands.len() ==> !qualifies(#[trigger] cands[j], last_mod),
            None => forall|j: int| 0 <= j < cands.len() ==> !qualifies(#[trigger] cands[j], last_mod),
        },
    decreases cands.len(),
{
    if cands.len() > 0 && !qualifies(cands.last(), last_mod) {
        let rest = cands.drop_last();
        lemma_pick_is_last_qualifying(rest, last_mod);
        assert forall|j: int| 0 <= j < rest.len() implies cands[j] == rest[j] by {}
    }
}

/// An export is loaded once: after the export modified at `t` was loaded, no
/// entry modified at or before `t` qualifies, so only a newer export is picked.
pub proof fn lemma_loaded_export_not_picked_again(c: ExportCandidate, t: Instant)
    requires
        c.modified matches Some(m) && !earlier(t, m),
    ensures
        !qualifies(c, Some(t)),
{
}

} // verus!
