//! Routing a task to a model, and what running it asks of the outside world.
use vstd::prelude::*;
use crate::json::{as_str, at, json_str, Json, JsonView};
use crate::text::{concat, contains, contains_text, owned};

verus! {

/// The kinds of model a task can go to.
#[derive(Clone, Copy, Debug, PartialEq, Eq, Structural)]
pub enum ModelType {
    RuleBased,
    TinyLocal,
    CloudGPT,
}

/// The routing rules: a task that mentions a keyword goes to the keyword's model.
pub struct TaskRouter {
    rules: Vec<(String, ModelType)>,
}

/// The rules a router starts with, in the order they are tried.
pub open spec fn default_rules() -> Seq<(Seq<char>, ModelType)> {
    seq![
        ("cpu"@, ModelType::RuleBased),
        ("keystroke"@, ModelType::RuleBased),
        ("summarize"@, ModelType::TinyLocal),
        ("analyze"@, ModelType::CloudGPT),
        ("plan"@, ModelType::CloudGPT),
        ("greet"@, ModelType::TinyLocal),
    ]
}

/// The model for `task`: that of the first rule whose keyword occurs in the task,
/// or the tiny local model when none does.
pub open spec fn route_of(rules: Seq<(Seq<char>, ModelType)>, task: Seq<char>) -> ModelType
    decreases rules.len(),
{
    if rules.len() == 0 {
        ModelType::TinyLocal
    } else if contains(task, rules[0].0) {
        rules[0].1
    } else {
        route_of(rules.drop_first(), task)
    }
}

impl View for TaskRouter {
    type V = Seq<(Seq<char>, ModelType)>;

    closed spec fn view(&self) -> Seq<(Seq<char>, ModelType)> {
        self.rules@.map_values(|r: (String, ModelType)| (r.0@, r.1))
    }
}

fn rule(keyword: &str, model: ModelType) -> (r: (String, ModelType))
    ensures
        r.0@ == keyword@,
        r.1 == model,
{
    (owned(keyword), model)
}

impl TaskRouter {
    /// A router with the default rules.
    pub fn new() -> (r: Self)
        ensures
            r@ == default_rules(),
    {
        let mut rules: Vec<(String, ModelType)> = Vec::new();
        rules.push(rule("cpu", ModelType::RuleBased));
        rules.push(rule("keystroke", ModelType::RuleBased));
        rules.push(rule("summarize", ModelType::TinyLocal));
        rules.push(rule("analyze", ModelType::CloudGPT));
        rules.push(rule("plan", ModelType::CloudGPT));
        rules.push(rule("greet", ModelType::TinyLocal));
        let r = TaskRouter { rules };
        assert(r@ =~= default_rules());
        r
    }

    /// The model a task goes to.
    pub fn route(&self, task: &str) -> (r: ModelType)
        ensures
            r == route_of(self@, task@),
    {
        let ghost rules = self@;
        let mut i: usize = 0;
        assert(rules.skip(0) == rules);
        while i < self.rules.len()
            invariant
                i <= self.rules@.len(),
                rules == self@,
                rules.len() == self.rules@.len(),
                forall|j: int| 0 <= j < self.rules@.len() ==> #[trigger] rules[j] == (self.rules@[j].0@, self.rules@[j].1),
                route_of(rules, task@) == route_of(rules.skip(i as int), task@),
            decreases self.rules@.len() - i,
        {
            proof {
                assert(rules.skip(i as int)[0] == rules[i as int]);
                assert(rules.skip(i as int).drop_first() == rules.skip(i + 1));
            }
            if contains_text(task, self.rules[i].0.as_str()) {
                return self.rules[i].1;
            }
            i = i + 1;
        }
        ModelType::TinyLocal
    }
}

/// Whatever rule routes a task, the model is that of a rule whose keyword the
/// task mentions, or the tiny local model when it mentions none.
pub proof fn lemma_route_matches_some_rule(rules: Seq<(Seq<char>, ModelType)>, task: Seq<char>)
    ensures
        (exists|i: int| 0 <= i < rules.len() && contains(task, rules[i].0) && rules[i].1 == route_of(rules, task))
            || ((forall|i: int| 0 <= i < rules.len() ==> !contains(task, #[trigger] rules[i].0))
                && route_of(rules, task) == ModelType::TinyLocal),
    decreases rules.len(),
{
    if rules.len() > 0 && !contains(task, rules[0].0) {
        let rest = rules.drop_first();
        lemma_route_matches_some_rule(rest, task);
        if exists|i: int| 0 <= i < rest.len() && contains(task, rest[i].0) && rest[i].1 == route_of(rest, task) {
            let i = choose|i: int| 0 <= i < rest.len() && contains(task, rest[i].0) && rest[i].1 == route_of(rest, task);
            assert(rules[i + 1] == rest[i]);
        } else {
            assert forall|i: int| 0 <= i < rules.len() implies !contains(task, #[trigger] rules[i].0) by {
                if i > 0 {
                    assert(rules[i] == rest[i - 1]);
                }
            }
        }
    }
}

/// What running a task asks for: an answer at once, or a request to the local
/// Ollama server with the JSON body given.
#[derive(Debug, PartialEq)]
pub enum ExecutionPlan {
    Answer(String),
    AskOllama(Json),
}

/// The body of a request to Ollama for `prompt`.
pub open spec fn ollama_body(prompt: Seq<char>) -> JsonView {
    JsonView::Object(seq![
        ("model"@, JsonView::Str("llama3.2"@)),
        ("prompt"@, JsonView::Str(prompt)),
        ("stream"@, JsonView::Bool(false)),
    ])
}

/// Runs tasks through the router.
pub struct AIExecutor {
    router: TaskRouter,
}

impl AIExecutor {
    /// An executor with the default routing rules.
    pub fn new() -> (r: Self)
        ensures
            r.rules() == default_rules(),
    {
        AIExecutor { router: TaskRouter::new() }
    }

    /// The executor's routing rules.
    pub closed spec fn rules(&self) -> Seq<(Seq<char>, ModelType)> {
        self.router@
    }

    /// What running `task` on `input` asks for: the rule-based model answers
    /// "Rule result for <task>: <input>", the cloud model "[Cloud GPT] <input>",
    /// and the tiny local model is a request to Ollama.
    pub fn plan(&self, task: &str, input: &str) -> (r: ExecutionPlan)
        ensures
            match route_of(self.rules(), task@) {
                ModelType::RuleBased => r matches ExecutionPlan::Answer(a) && a@ == "Rule result for "@ + task@ + ": "@ + input@,
                ModelType::CloudGPT => r matches ExecutionPlan::Answer(a) && a@ == "[Cloud GPT] "@ + input@,
                ModelType::TinyLocal => r matches ExecutionPlan::AskOllama(body) && body@ == ollama_body(input@),
            },
    {
        match self.router.route(task) {
            ModelType::RuleBased => {
                let a = concat("Rule result for ", task);
                let b = concat(a.as_str(), ": ");
                ExecutionPlan::Answer(concat(b.as_str(), input))
            },
            ModelType::CloudGPT => ExecutionPlan::Answer(concat("[Cloud GPT] ", input)),
            ModelType::TinyLocal => {
                let mut f: Vec<(String, Json)> = Vec::new();
                f.push((owned("model"), json_str("llama3.2")));
                f.push((owned("prompt"), json_str(input)));
                f.push((owned("stream"), Json::Bool(false)));
                proof {
                    crate::json::lemma_members_view(f@);
                    assert(crate::json::members_view(f@) =~= seq![
                        ("model"@, JsonView::Str("llama3.2"@)),
                        ("prompt"@, JsonView::Str(input@)),
                        ("stream"@, JsonView::Bool(false)),
                    ]);
                }
                let body = Json::Object(f);
                ExecutionPlan::AskOllama(body)
            },
        }
    }
}

/// Where the Ollama requests go.
pub fn ollama_url() -> (r: String)
    ensures
        r@ == "http://localhost:11434/api/generate"@,
{
    owned("http://localhost:11434/api/generate")
}

/// The answer in Ollama's reply: its "response" text, or "No response".
pub fn ollama_answer(reply: &Json) -> (r: String)
    ensures
        r@ == match as_str(at(reply@, "response"@)) {
            Some(s) => s,
            None => "No response"@,
        },
{
    match reply.str_at("response") {
        Some(s) => s.clone(),
        None => owned("No response"),
    }
}

} // verus!
