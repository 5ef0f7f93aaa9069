//! What the small bus listeners read out of a message: the conscious printer,
//! the AI worker, the master project manager, and the approval prompt.
use vstd::prelude::*;
use crate::json::{as_str, at, lemma_items_view, text_at, views, Json, JsonView};
use crate::text::{
    after_first_text, all_ascii, ascii_lower, before_first_text, contains, contains_text, first_match, lowercase_of,
    lemma_first_match, owned, same_text, starts_with, strip_prefix_text, to_lowercase, trim,
    trim_text,
};

verus! {

/// What the conscious printer shows for a message: the rest of a "workspace:" message.
pub open spec fn conscious_of(msg: Seq<char>) -> Option<Seq<char>> {
    if starts_with(msg, "workspace:"@) {
        Some(msg.skip("workspace:"@.len() as int))
    } else {
        None
    }
}

/// The text the conscious printer shows for a message, if any.
pub fn conscious_text(msg: &str) -> (r: Option<String>)
    ensures
        match r {
            Some(t) => conscious_of(msg@) == Some(t@),
            None => conscious_of(msg@) is None,
        },
{
    strip_prefix_text(msg, "workspace:")
}

/// The task and prompt of an "ai:run:<task>|<prompt>" message: the task runs up
/// to the first '|', the prompt is everything after it.
pub open spec fn ai_run_of(msg: Seq<char>) -> Option<(Seq<char>, Seq<char>)> {
    if starts_with(msg, "ai:run:"@) {
        let rest = msg.skip("ai:run:"@.len() as int);
        match first_match(rest, seq!['|']) {
            Some(k) => Some((rest.take(k), rest.skip(k + 1))),
            None => None,
        }
    } else {
        None
    }
}

/// The task and prompt of an AI run request, if the message is one.
pub fn ai_run_request(msg: &str) -> (r: Option<(String, String)>)
    ensures
        match r {
            Some(p) => ai_run_of(msg@) == Some((p.0@, p.1@)),
            None => ai_run_of(msg@) is None,
        },
{
    match strip_prefix_text(msg, "ai:run:") {
        Some(rest) => {
            let bar = "|";
            proof {
                reveal_strlit("|");
                assert(bar@ =~= seq!['|']);
            }
            if contains_text(rest.as_str(), bar) {
                let task = before_first_text(rest.as_str(), bar);
                let prompt = after_first_text(rest.as_str(), bar).unwrap();
                proof {
                    lemma_first_match(rest@, bar@);
                }
                Some((task, prompt))
            } else {
                None
            }
        },
        None => None,
    }
}

/// Whether a typed answer approves: "y" in any case, around any white space.
pub open spec fn approves(line: Seq<char>) -> bool {
    lowercase_of(trim(line)) == "y"@
}

/// Whether the line the user typed approves the request. An answer whose trimmed
/// text is ASCII approves exactly when that text is "y" or "Y".
pub fn is_approval(line: &str) -> (r: bool)
    ensures
        r == approves(line@),
        all_ascii(trim(line@)) ==> (r <==> (trim(line@) == seq!['y'] || trim(line@) == seq!['Y'])),
{
    let t = trim_text(line);
    let l = to_lowercase(t.as_str());
    let r = same_text(l.as_str(), "y");
    proof {
        reveal_strlit("y");
        assert("y"@ =~= seq!['y']);
        if all_ascii(t@) {
            assert(l@ == t@.map_values(|c: char| ascii_lower(c)));
            assert(l@.len() == t@.len());
            if t@.len() == 1 {
                let c = t@[0];
                assert(l@ == seq![ascii_lower(c)]);
                lemma_ascii_lower_is_y(c);
                assert(t@ =~= seq![c]);
                assert(r <==> l@ == seq!['y']);
                if r {
                    assert(l@[0] == seq!['y'][0]);
                    assert(ascii_lower(c) == 'y');
                }
            } else {
                assert(!r);
                assert(t@ != seq!['y']);
            }
        }
    }
    r
}

proof fn lemma_ascii_lower_is_y(c: char)
    ensures
        ascii_lower(c) == 'y' <==> (c == 'y' || c == 'Y'),
{
    let u = c as u32;
    assert('y' as u32 == 121);
    assert('Y' as u32 == 89);
    if 65 <= u <= 90 {
        let d = (u + 32) as char;
        assert(d as u32 == u + 32);
        if d == 'y' {
            assert(u == 89);
        }
        if c == 'Y' {
            assert(d as u32 == 121);
        }
    }
}

/// The kinds of capture the master project manager tells apart.
#[derive(Clone, Copy, Debug, PartialEq, Eq, Structural)]
pub enum Category {
    Work,
    Os,
    Life,
}

/// The category of lowercased content: work words first, then system words.
pub open spec fn category_of_lowercase(lower: Seq<char>) -> Category {
    if contains(lower, "lytho"@) || contains(lower, "resorts"@) || contains(lower, "project"@)
        || contains(lower, "deadline"@) || contains(lower, "csv"@) {
        Category::Work
    } else if contains(lower, "ous"@) || contains(lower, "workspace"@) || contains(lower, "bid"@)
        || contains(lower, "sensor"@) || contains(lower, "rust"@) {
        Category::Os
    } else {
        Category::Life
    }
}

/// The category of lowercased content.
pub fn categorize_lowercase(lower: &str) -> (r: Category)
    ensures
        r == category_of_lowercase(lower@),
        contains(lower@, "lytho"@) ==> r == Category::Work,
        contains(lower@, "resorts"@) ==> r == Category::Work,
        contains(lower@, "project"@) ==> r == Category::Work,
        contains(lower@, "deadline"@) ==> r == Category::Work,
        contains(lower@, "csv"@) ==> r == Category::Work,
{
    if contains_text(lower, "lytho") || contains_text(lower, "resorts") || contains_text(lower, "project")
        || contains_text(lower, "deadline") || contains_text(lower, "csv") {
        Category::Work
    } else if contains_text(lower, "ous") || contains_text(lower, "workspace") || contains_text(lower, "bid")
        || contains_text(lower, "sensor") || contains_text(lower, "rust") {
        Category::Os
    } else {
        Category::Life
    }
}

/// The category of a capture's content, matched without regard to case (for ASCII
/// content, its letters are lowercased one by one before matching).
pub fn categorize(content: &str) -> (r: Category)
    ensures
        r == category_of_lowercase(lowercase_of(content@)),
        all_ascii(content@) ==> r == category_of_lowercase(content@.map_values(|c: char| ascii_lower(c))),
{
    let lower = to_lowercase(content);
    categorize_lowercase(lower.as_str())
}

/// The name the master project manager prints for a category.
pub fn category_name(c: Category) -> (r: String)
    ensures
        r@ == match c {
            Category::Work => "work"@,
            Category::Os => "os"@,
            Category::Life => "life"@,
        },
{
    match c {
        Category::Work => owned("work"),
        Category::Os => owned("os"),
        Category::Life => owned("life"),
    }
}

/// The capture identifier of a "memory:new_capture:<id>" message.
pub fn new_capture_id(msg: &str) -> (r: Option<String>)
    ensures
        match r {
            Some(id) => starts_with(msg@, "memory:new_capture:"@) && id@ == msg@.skip("memory:new_capture:"@.len() as int),
            None => !starts_with(msg@, "memory:new_capture:"@),
        },
{
    strip_prefix_text(msg, "memory:new_capture:")
}

/// The index of the first entry whose `entity_id` is `id`.
pub open spec fn first_with_id(entries: Seq<JsonView>, id: Seq<char>, from: int) -> Option<int>
    decreases entries.len() - from,
{
    if from < 0 || from >= entries.len() {
        None
    } else if as_str(at(entries[from], "entity_id"@)) == Some(id) {
        Some(from)
    } else {
        first_with_id(entries, id, from + 1)
    }
}

/// The first entry whose `entity_id` is `id`.
pub fn find_by_entity_id(entries: &Vec<Json>, id: &str) -> (r: Option<usize>)
    ensures
        match r {
            Some(k) => first_with_id(views(entries@), id@, 0) == Some(k as int),
            None => first_with_id(views(entries@), id@, 0) is None,
        },
{
    proof {
        lemma_items_view(entries@);
    }
    let mut i: usize = 0;
    while i < entries.len()
        invariant
            i <= entries@.len(),
            views(entries@).len() == entries@.len(),
            forall|j: int| 0 <= j < entries@.len() ==> #[trigger] views(entries@)[j] == entries@[j]@,
            first_with_id(views(entries@), id@, 0) == first_with_id(views(entries@), id@, i as int),
        decreases entries@.len() - i,
    {
        assert(views(entries@)[i as int] == entries@[i as int]@);
        let hit = match entries[i].str_at("entity_id") {
            Some(s) => same_text(s.as_str(), id),
            None => false,
        };
        if hit {
            return Some(i);
        }
        i = i + 1;
    }
    None
}

/// The content of a capture entry: its `after_state.content` text, or empty.
pub fn capture_content(e: &Json) -> (r: String)
    ensures
        r@ == text_at(at(e@, "after_state"@), "content"@),
{
    match e.field("after_state") {
        Some(a) => a.text_at("content"),
        None => String::new(),
    }
}

/// Content is work when it mentions a work word; otherwise it is the system's
/// when it mentions a system word; otherwise it is life.
pub proof fn lemma_category_words(s: Seq<char>)
    ensures
        contains(s, "lytho"@) ==> category_of_lowercase(s) == Category::Work,
        contains(s, "resorts"@) ==> category_of_lowercase(s) == Category::Work,
        contains(s, "project"@) ==> category_of_lowercase(s) == Category::Work,
        contains(s, "deadline"@) ==> category_of_lowercase(s) == Category::Work,
        contains(s, "csv"@) ==> category_of_lowercase(s) == Category::Work,
        category_of_lowercase(s) == Category::Os ==> contains(s, "ous"@) || contains(s, "workspace"@) || contains(
            s,
            "bid"@,
        ) || contains(s, "sensor"@) || contains(s, "rust"@),
        category_of_lowercase(s) == Category::Life <==> !(contains(s, "lytho"@) || contains(s, "resorts"@)
            || contains(s, "project"@) || contains(s, "deadline"@) || contains(s, "csv"@) || contains(s, "ous"@)
            || contains(s, "workspace"@) || contains(s, "bid"@) || contains(s, "sensor"@) || contains(s, "rust"@)),
{
}

} // verus!
