//! Packets dropped into the packets folder: which files are packets, and what
//! each kind of packet asks of the journal and the bus.
use vstd::prelude::*;
use crate::bus::{bus_message, message_of, BusMessage};
use crate::clock::{rfc3339_text_of, Instant};
use crate::journal::{is_capture_entry, is_project_entry, is_project_update_entry, is_uuid_v4_text, MemoryManager};
use crate::json::{
    as_str, at, is_object, lemma_items_view, text_at, views, with_member, Json, JsonView,
};
use crate::text::{concat, contains, contains_text, ends_with, ends_with_text, owned, same_text};

verus! {

/// A packet, as its JSON file gives it (the file's "type" picks the variant).
#[derive(Clone, Debug, PartialEq)]
pub enum Packet {
    Regular { id: String, task: String, prompt: String, require_approval: Option<bool> },
    Project { name: String, context_hint: Option<String>, require_approval: Option<bool> },
    ProjectUpdate { name: String, status: String, require_approval: Option<bool> },
    Dream { require_approval: Option<bool> },
    SelfEdit { prompt: String, require_approval: Option<bool> },
}

/// What the journal and the bus are to do for a packet. When `approval_question`
/// is given, the user is asked first and nothing below happens on a "no". Then
/// `entry` (if any) is appended to the journal, with `approved_by_user` set to
/// true first when `mark_approved` holds and the user was asked; the messages of
/// `on_appended` are published only when the append succeeded, and those of
/// `then_publish` after it in any case.
#[derive(Debug, PartialEq)]
pub struct PacketPlan {
    pub approval_question: Option<String>,
    pub entry: Option<Json>,
    pub mark_approved: bool,
    pub on_appended: Vec<BusMessage>,
    pub then_publish: Vec<BusMessage>,
}

/// What a packet asks for: journal and bus work, or a change of the program's
/// own source proposed by the model, for the prompt given, applied after the
/// user's approval when `needs_approval` holds.
#[derive(Debug, PartialEq)]
pub enum PacketAction {
    Journal(PacketPlan),
    SelfEdit { prompt: String, needs_approval: bool },
}

/// A file in the packets folder is a packet: a ".json" file whose name does not
/// mention "archive".
pub open spec fn is_packet_file(name: Seq<char>) -> bool {
    ends_with(name, ".json"@) && !contains(name, "archive"@)
}

/// Whether a file in the packets folder is a packet.
pub fn packet_file(name: &str) -> (r: bool)
    ensures
        r == is_packet_file(name@),
{
    ends_with_text(name, ".json") && !contains_text(name, "archive")
}

/// `require_approval` with its default.
pub open spec fn approval_of(flag: Option<bool>, default: bool) -> bool {
    match flag {
        Some(b) => b,
        None => default,
    }
}

/// The messages of a sequence, as (topic, payload) pairs.
pub open spec fn messages(v: Seq<BusMessage>) -> Seq<(Seq<char>, Seq<char>)> {
    v.map_values(|m: BusMessage| message_of(m))
}

/// The question of a plan, as text.
pub open spec fn question_of(q: Option<String>) -> Option<Seq<char>> {
    match q {
        Some(s) => Some(s@),
        None => None,
    }
}

/// The plan for a regular packet: a capture of its prompt from source "packet";
/// "memory:new_capture" with its id once written; then "ai:run" with
/// `task|prompt`, and, when it asks for approval, "suggestion" with
/// `approve_packet:<id>`. Nothing is asked first.
pub open spec fn is_regular_plan(
    p: PacketPlan,
    id: Seq<char>,
    task: Seq<char>,
    prompt: Seq<char>,
    require_approval: Option<bool>,
) -> bool {
    &&& p.approval_question is None
    &&& !p.mark_approved
    &&& p.entry matches Some(e) && exists|entry_id: Seq<char>, t: Instant|
        is_uuid_v4_text(entry_id) && is_capture_entry(e@, entry_id, rfc3339_text_of(t.secs, t.nanos), id, prompt, "packet"@)
    &&& messages(p.on_appended@) == seq![("memory:new_capture"@, id)]
    &&& messages(p.then_publish@) == if approval_of(require_approval, false) {
        seq![("ai:run"@, task + "|"@ + prompt), ("suggestion"@, "approve_packet:"@ + id)]
    } else {
        seq![("ai:run"@, task + "|"@ + prompt)]
    }
}

/// The plan for a project packet: a new project entry in `category` ("work"
/// when the packet gives no hint), asked about unless the packet says otherwise,
/// marked approved when approved, and "memory:new_capture" with its name once written.
pub open spec fn is_project_plan(
    p: PacketPlan,
    name: Seq<char>,
    category: Seq<char>,
    require_approval: Option<bool>,
) -> bool {
    let ask = approval_of(require_approval, true);
    &&& question_of(p.approval_question) == if ask { Some("Create this project?"@) } else { None }
    &&& p.mark_approved == ask
    &&& p.entry matches Some(e) && exists|entry_id: Seq<char>, t: Instant, u: Instant|
        is_uuid_v4_text(entry_id) && is_project_entry(
            e@,
            entry_id,
            rfc3339_text_of(t.secs, t.nanos),
            name,
            category,
            rfc3339_text_of(u.secs, u.nanos),
        )
    &&& messages(p.on_appended@) == seq![("memory:new_capture"@, name)]
    &&& p.then_publish@.len() == 0
}

/// The plan for a project update packet: an update entry from the status and
/// category that `lookup` found to `status`, asked about unless the packet says
/// otherwise, and "memory:new_capture" with `project_update:<name>` once written.
pub open spec fn is_project_update_plan(
    p: PacketPlan,
    name: Seq<char>,
    status: Seq<char>,
    lookup: (Seq<char>, Seq<char>),
    require_approval: Option<bool>,
) -> bool {
    let ask = approval_of(require_approval, true);
    &&& question_of(p.approval_question) == if ask { Some("Apply this update?"@) } else { None }
    &&& !p.mark_approved
    &&& p.entry matches Some(e) && exists|entry_id: Seq<char>, t: Instant|
        is_uuid_v4_text(entry_id) && is_project_update_entry(
            e@,
            entry_id,
            rfc3339_text_of(t.secs, t.nanos),
            name,
            lookup.0,
            status,
            lookup.1,
        )
    &&& messages(p.on_appended@) == seq![("memory:new_capture"@, "project_update:"@ + name)]
    &&& p.then_publish@.len() == 0
}

/// The plan for a dream packet: "dream:trigger" with an empty payload, asked
/// about unless the packet says otherwise.
pub open spec fn is_dream_plan(p: PacketPlan, require_approval: Option<bool>) -> bool {
    let ask = approval_of(require_approval, true);
    &&& question_of(p.approval_question) == if ask { Some("Trigger dreaming?"@) } else { None }
    &&& !p.mark_approved
    &&& p.entry is None
    &&& p.on_appended@.len() == 0
    &&& messages(p.then_publish@) == seq![("dream:trigger"@, Seq::<char>::empty())]
}

/// The project a project update refers to: the status and category of the first
/// project entry with that name, or empty texts.
pub open spec fn project_lookup(entries: Seq<JsonView>, name: Seq<char>) -> (Seq<char>, Seq<char>)
    decreases entries.len(),
{
    if entries.len() == 0 {
        (Seq::empty(), Seq::empty())
    } else {
        let e = entries[0];
        let after = at(e, "after_state"@);
        if as_str(at(e, "entity_type"@)) == Some("project"@) && as_str(at(after, "name"@)) == Some(name) {
            (text_at(after, "status"@), text_at(after, "category"@))
        } else {
            project_lookup(entries.drop_first(), name)
        }
    }
}

/// The status and category of the first project entry named `name`.
pub fn find_project(entries: &Vec<Json>, name: &str) -> (r: (String, String))
    ensures
        (r.0@, r.1@) == project_lookup(views(entries@), name@),
{
    proof {
        lemma_items_view(entries@);
    }
    let mut i: usize = 0;
    assert(views(entries@).skip(0) == views(entries@));
    while i < entries.len()
        invariant
            i <= entries@.len(),
            views(entries@).len() == entries@.len(),
            forall|j: int| 0 <= j < entries@.len() ==> #[trigger] views(entries@)[j] == entries@[j]@,
            project_lookup(views(entries@), name@) == project_lookup(views(entries@).skip(i as int), name@),
        decreases entries@.len() - i,
    {
        let e = &entries[i];
        proof {
            assert(views(entries@).skip(i as int)[0] == e@);
            assert(views(entries@).skip(i as int).drop_first() == views(entries@).skip(i + 1));
        }
        let is_project = match e.str_at("entity_type") {
            Some(k) => same_text(k.as_str(), "project"),
            None => false,
        };
        if is_project {
            let after = match e.field("after_state") {
                Some(a) => a.deep_clone(),
                None => Json::Null,
            };
            let named = match after.str_at("name") {
                Some(n) => same_text(n.as_str(), name),
                None => false,
            };
            if named {
                return (after.text_at("status"), after.text_at("category"));
            }
        }
        i = i + 1;
    }
    (String::new(), String::new())
}

/// An entry with `approved_by_user` set to true (an entry that is not an object
/// is left as it is, as `entry["approved_by_user"] = true` through `as_object_mut` does).
pub open spec fn marked_approved(entry: JsonView) -> JsonView {
    if entry is Object {
        with_member(entry, "approved_by_user"@, JsonView::Bool(true))
    } else {
        entry
    }
}

/// The entry with `approved_by_user` set to true (an entry that is not an object
/// is left as it is).
pub fn mark_approved(entry: Json) -> (r: Json)
    ensures
        r@ == marked_approved(entry@),
{
    match entry {
        Json::Object(_) => entry.with(owned("approved_by_user"), Json::Bool(true)),
        _ => entry,
    }
}

/// What becomes of a proposed entry once the user has been asked (`asked`) and has
/// answered (`answer`, which counts only when asked): refused, nothing is written;
/// approved, it is written with `approved_by_user` set to true; not asked, it is
/// written as it is.
pub open spec fn settled(entry: JsonView, asked: bool, answer: bool) -> Option<JsonView> {
    if !asked {
        Some(entry)
    } else if answer {
        Some(marked_approved(entry))
    } else {
        None
    }
}

/// The entry to write after the approval step, if any (as `settled` states).
pub fn settle_entry(entry: Json, asked: bool, answer: bool) -> (r: Option<Json>)
    ensures
        match r {
            Some(e) => settled(entry@, asked, answer) == Some(e@),
            None => settled(entry@, asked, answer) is None,
        },
{
    if !asked {
        Some(entry)
    } else if answer {
        Some(mark_approved(entry))
    } else {
        None
    }
}

/// What a packet plan leads to once the user has answered its question: the
/// entry to append, the messages to publish once it is appended, and those to
/// publish in any case.
#[derive(Debug, PartialEq)]
pub struct PlanEffects {
    pub entry: Option<Json>,
    pub on_appended: Vec<BusMessage>,
    pub then_publish: Vec<BusMessage>,
}

/// The effects of a plan given the user's answer to its question (the answer
/// counts only when the plan asks one): nothing when the user refused; else the
/// plan's entry, marked approved when the plan says so and the user was asked,
/// and the plan's messages.
pub fn settle_plan(plan: PacketPlan, answer: bool) -> (r: Option<PlanEffects>)
    ensures
        r is None <==> (plan.approval_question is Some && !answer),
        r matches Some(fx) ==> {
            &&& match plan.entry {
                Some(e) => fx.entry matches Some(f) && f@ == if plan.mark_approved && plan.approval_question is Some {
                    marked_approved(e@)
                } else {
                    e@
                },
                None => fx.entry is None,
            }
            &&& fx.on_appended@ == plan.on_appended@
            &&& fx.then_publish@ == plan.then_publish@
        },
{
    let asked = plan.approval_question.is_some();
    if asked && !answer {
        return None;
    }
    let entry = match plan.entry {
        Some(e) => if plan.mark_approved && asked {
            Some(mark_approved(e))
        } else {
            Some(e)
        },
        None => None,
    };
    Some(PlanEffects { entry, on_appended: plan.on_appended, then_publish: plan.then_publish })
}

/// The messages to publish after the append step: those of `on_appended` when the
/// entry was appended, then those of `then_publish`, in order.
pub fn publications(on_appended: Vec<BusMessage>, then_publish: Vec<BusMessage>, appended: bool) -> (r: Vec<BusMessage>)
    ensures
        r@ == if appended { on_appended@ + then_publish@ } else { then_publish@ },
{
    let mut r: Vec<BusMessage> = if appended { on_appended } else { Vec::new() };
    let ghost start = r@;
    let ghost rest = then_publish@;
    for m in it: then_publish.into_iter()
        invariant
            it.seq() == rest,
            r@ == start + rest.take(it.index() as int),
    {
        proof {
            assert(rest.take(it.index() + 1) == rest.take(it.index() as int).push(m));
        }
        r.push(m);
    }
    assert(rest.take(rest.len() as int) == rest);
    r
}

fn no_messages() -> (r: Vec<BusMessage>)
    ensures
        messages(r@) == Seq::<(Seq<char>, Seq<char>)>::empty(),
        r@.len() == 0,
{
    let r: Vec<BusMessage> = Vec::new();
    assert(messages(r@) =~= Seq::<(Seq<char>, Seq<char>)>::empty());
    r
}

fn one_message(topic: &str, payload: &str) -> (r: Vec<BusMessage>)
    ensures
        messages(r@) == seq![(topic@, payload@)],
{
    let mut r: Vec<BusMessage> = Vec::new();
    r.push(bus_message(topic, payload));
    assert(messages(r@) =~= seq![(topic@, payload@)]);
    r
}

/// The plan for a regular packet.
pub fn plan_regular(
    memory_manager: &MemoryManager,
    id: &str,
    task: &str,
    prompt: &str,
    require_approval: Option<bool>,
) -> (r: PacketPlan)
    ensures
        is_regular_plan(r, id@, task@, prompt@, require_approval),
        messages(r.then_publish@).len() == if require_approval == Some(true) { 2nat } else { 1nat },
        messages(r.then_publish@)[0] == ("ai:run"@, task@ + "|"@ + prompt@),
        require_approval == Some(true) ==> messages(r.then_publish@)[1] == ("suggestion"@, "approve_packet:"@ + id@),
{
    let entry = memory_manager.new_capture_entry(id, prompt, "packet");
    let on_appended = one_message("memory:new_capture", id);
    let run = concat(concat(task, "|").as_str(), prompt);
    let mut then_publish: Vec<BusMessage> = Vec::new();
    then_publish.push(bus_message("ai:run", run.as_str()));
    let wants = match require_approval {
        Some(b) => b,
        None => false,
    };
    if wants {
        let s = concat("approve_packet:", id);
        then_publish.push(bus_message("suggestion", s.as_str()));
    }
    assert(messages(then_publish@) =~= if approval_of(require_approval, false) {
        seq![("ai:run"@, task@ + "|"@ + prompt@), ("suggestion"@, "approve_packet:"@ + id@)]
    } else {
        seq![("ai:run"@, task@ + "|"@ + prompt@)]
    });
    PacketPlan { approval_question: None, entry: Some(entry), mark_approved: false, on_appended, then_publish }
}

/// The category of a project packet: its context hint, or "work".
pub fn project_category(context_hint: &Option<String>) -> (r: String)
    ensures
        r@ == match context_hint {
            Some(h) => h@,
            None => "work"@,
        },
{
    match context_hint {
        Some(h) => h.clone(),
        None => owned("work"),
    }
}

/// The plan for a project packet.
pub fn plan_project(
    memory_manager: &MemoryManager,
    name: &str,
    context_hint: &Option<String>,
    require_approval: Option<bool>,
) -> (r: PacketPlan)
    ensures
        is_project_plan(
            r,
            name@,
            match context_hint {
                Some(h) => h@,
                None => "work"@,
            },
            require_approval,
        ),
{
    let category = project_category(context_hint);
    let ask = match require_approval {
        Some(b) => b,
        None => true,
    };
    let entry = memory_manager.new_project_entry(name, category.as_str(), ask);
    let question = if ask { Some(owned("Create this project?")) } else { None };
    PacketPlan {
        approval_question: question,
        entry: Some(entry),
        mark_approved: ask,
        on_appended: one_message("memory:new_capture", name),
        then_publish: no_messages(),
    }
}

/// The plan for a project update packet, from the journal's entries.
pub fn plan_project_update(
    memory_manager: &MemoryManager,
    name: &str,
    status: &str,
    require_approval: Option<bool>,
    entries: &Vec<Json>,
) -> (r: PacketPlan)
    ensures
        is_project_update_plan(r, name@, status@, project_lookup(views(entries@), name@), require_approval),
{
    let found = find_project(entries, name);
    let old_status = found.0;
    let category = found.1;
    let ghost lookup = project_lookup(views(entries@), name@);
    assert(old_status@ == lookup.0 && category@ == lookup.1);
    let entry = memory_manager.new_project_update_entry(name, old_status.as_str(), status, category.as_str());
    assert(exists|entry_id: Seq<char>, t: Instant|
        is_uuid_v4_text(entry_id) && is_project_update_entry(
            entry@,
            entry_id,
            rfc3339_text_of(t.secs, t.nanos),
            name@,
            lookup.0,
            status@,
            lookup.1,
        ));
    let ask = match require_approval {
        Some(b) => b,
        None => true,
    };
    let question = if ask { Some(owned("Apply this update?")) } else { None };
    let target = concat("project_update:", name);
    PacketPlan {
        approval_question: question,
        entry: Some(entry),
        mark_approved: false,
        on_appended: one_message("memory:new_capture", target.as_str()),
        then_publish: no_messages(),
    }
}

/// The plan for a dream packet.
pub fn plan_dream(require_approval: Option<bool>) -> (r: PacketPlan)
    ensures
        is_dream_plan(r, require_approval),
{
    let ask = match require_approval {
        Some(b) => b,
        None => true,
    };
    let question = if ask { Some(owned("Trigger dreaming?")) } else { None };
    let publish = one_message("dream:trigger", "");
    proof {
        reveal_strlit("");
        assert(""@ =~= Seq::<char>::empty());
    }
    PacketPlan {
        approval_question: question,
        entry: None,
        mark_approved: false,
        on_appended: no_messages(),
        then_publish: publish,
    }
}

/// What a packet asks for. `entries` are the journal's entries, which only a
/// project update reads.
pub fn plan_packet(memory_manager: &MemoryManager, packet: &Packet, entries: &Vec<Json>) -> (r: PacketAction)
    ensures
        match *packet {
            Packet::Regular { id, task, prompt, require_approval } => r matches PacketAction::Journal(p)
                && is_regular_plan(p, id@, task@, prompt@, require_approval),
            Packet::Project { name, context_hint, require_approval } => r matches PacketAction::Journal(p)
                && is_project_plan(
                p,
                name@,
                match context_hint {
                    Some(h) => h@,
                    None => "work"@,
                },
                require_approval,
            ),
            Packet::ProjectUpdate { name, status, require_approval } => r matches PacketAction::Journal(p)
                && is_project_update_plan(p, name@, status@, project_lookup(views(entries@), name@), require_approval),
            Packet::Dream { require_approval } => r matches PacketAction::Journal(p) && is_dream_plan(p, require_approval),
            Packet::SelfEdit { prompt, require_approval } => r matches PacketAction::SelfEdit { prompt: q, needs_approval }
                && q@ == prompt@ && needs_approval == approval_of(require_approval, true),
        },
{
    match packet {
        Packet::Regular { id, task, prompt, require_approval } => PacketAction::Journal(
            plan_regular(memory_manager, id.as_str(), task.as_str(), prompt.as_str(), *require_approval),
        ),
        Packet::Project { name, context_hint, require_approval } => PacketAction::Journal(
            plan_project(memory_manager, name.as_str(), context_hint, *require_approval),
        ),
        Packet::ProjectUpdate { name, status, require_approval } => PacketAction::Journal(
            plan_project_update(memory_manager, name.as_str(), status.as_str(), *require_approval, entries),
        ),
        Packet::Dream { require_approval } => PacketAction::Journal(plan_dream(*require_approval)),
        Packet::SelfEdit { prompt, require_approval } => {
            let needs = match require_approval {
                Some(b) => *b,
                None => true,
            };
            PacketAction::SelfEdit { prompt: prompt.clone(), needs_approval: needs }
        },
    }
}

/// The model task a self-edit packet runs.
pub fn self_edit_task() -> (r: String)
    ensures
        r@ == "self_edit"@,
{
    owned("self_edit")
}

/// What a regular packet publishes in any case: the run request `task|prompt`,
/// then an approval suggestion for its id exactly when the packet asks for
/// approval (`require_approval` true); a packet that declines approval or says
/// nothing publishes the run request alone.
pub proof fn lemma_regular_suggestion_only_on_request(
    p: PacketPlan,
    id: Seq<char>,
    task: Seq<char>,
    prompt: Seq<char>,
    require_approval: Option<bool>,
)
    requires
        is_regular_plan(p, id, task, prompt, require_approval),
    ensures
        require_approval == Some(true) ==> messages(p.then_publish@) == seq![
            ("ai:run"@, task + "|"@ + prompt),
            ("suggestion"@, "approve_packet:"@ + id),
        ],
        require_approval != Some(true) ==> messages(p.then_publish@) == seq![("ai:run"@, task + "|"@ + prompt)],
        forall|i: int|
            0 <= i < messages(p.then_publish@).len() && #[trigger] messages(p.then_publish@)[i].0 == "suggestion"@
                ==> require_approval == Some(true),
{
    reveal_strlit("ai:run");
    reveal_strlit("suggestion");
    assert("ai:run"@[0] != "suggestion"@[0]);
}

} // verus!
