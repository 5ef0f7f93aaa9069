//! Reading the payload out of a model's reply: the text inside the first
//! fenced block, where there is one.
use vstd::prelude::*;
use crate::text::{
    after_first_text, before_first, before_first_text, contains, contains_text, second_piece,
    trim, trim_text,
};

verus! {

/// The three backticks that open and close a fenced block.
pub open spec fn fence() -> Seq<char> {
    seq!['`', '`', '`']
}

/// The payload of a reply: the reply is trimmed; where it holds `tag` (a fence
/// with a language, such as "```json"), the payload is the second piece of the
/// reply split at `tag`, cut at its first fence; else, where it holds a bare
/// fence, it is the second piece split at the fence, cut at its first fence;
/// else it is the trimmed reply.
pub open spec fn payload_of(reply: Seq<char>, tag: Seq<char>) -> Seq<char> {
    let t = trim(reply);
    if contains(t, tag) {
        before_first(second_piece(t, tag)->0, fence())
    } else if contains(t, fence()) {
        before_first(second_piece(t, fence())->0, fence())
    } else {
        t
    }
}

/// The payload of `reply` for the fence `tag` (as `payload_of` states).
pub fn payload(reply: &str, tag: &str) -> (r: String)
    ensures
        r@ == payload_of(reply@, tag@),
{
    let t = trim_text(reply);
    let ticks = "```";
    proof {
        reveal_strlit("```");
        assert(ticks@ == fence());
    }
    if contains_text(t.as_str(), tag) {
        let rest = after_first_text(t.as_str(), tag).unwrap();
        let second = before_first_text(rest.as_str(), tag);
        before_first_text(second.as_str(), ticks)
    } else if contains_text(t.as_str(), ticks) {
        let rest = after_first_text(t.as_str(), ticks).unwrap();
        let second = before_first_text(rest.as_str(), ticks);
        before_first_text(second.as_str(), ticks)
    } else {
        t
    }
}

/// The JSON payload of a model's reply (the fence tag "```json").
pub fn json_payload(reply: &str) -> (r: String)
    ensures
        r@ == payload_of(reply@, "```json"@),
{
    payload(reply, "```json")
}

/// The Rust payload of a model's reply (the fence tag "```rust").
pub fn rust_payload(reply: &str) -> (r: String)
    ensures
        r@ == payload_of(reply@, "```rust"@),
{
    payload(reply, "```rust")
}

} // verus!
