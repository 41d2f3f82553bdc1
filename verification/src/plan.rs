//! Plans: the steps the assistant designs to answer with help from the web,
//! and the outcomes of running them.
use vstd::prelude::*;
use crate::address::Url;
use crate::assistant::{Message, MessageView, Reasoning, ReasoningView, Reply, ReplyView, clone_reasoning};
use crate::text;
use crate::web::{Summary, SummaryView};

pub mod execution;

verus! {

broadcast use vstd::std_specs::vec::vec_clone_deep_view_proof;

/// A step of a plan: a call of `function` on `inputs`, whose output is named
/// `evidence`.
#[derive(Debug)]
pub struct Step {
    pub evidence: String,
    pub description: String,
    pub function: String,
    pub inputs: Vec<String>,
}

/// The mathematical form of a [`Step`].
pub struct StepView {
    pub evidence: Seq<char>,
    pub description: Seq<char>,
    pub function: Seq<char>,
    pub inputs: Seq<Seq<char>>,
}

impl View for Step {
    type V = StepView;

    open spec fn view(&self) -> StepView {
        StepView {
            evidence: self.evidence@,
            description: self.description@,
            function: self.function@,
            inputs: self.inputs.deep_view(),
        }
    }
}

impl DeepView for Step {
    type V = StepView;

    open spec fn deep_view(&self) -> StepView {
        self@
    }
}

impl Clone for Step {
    fn clone(&self) -> (r: Self)
        ensures
            r@ == self@,
    {
        let inputs = self.inputs.clone();
        assert(inputs.deep_view() =~= self.inputs.deep_view());
        Step {
            evidence: self.evidence.clone(),
            description: self.description.clone(),
            function: self.function.clone(),
            inputs,
        }
    }
}

/// The status of an outcome: running with a partial output, done with its
/// output, or failed with an error.
#[derive(Debug)]
pub enum Status<T> {
    Active(T),
    Done(T),
    Errored(String),
}

/// The mathematical form of a [`Status`].
pub enum StatusView<V> {
    Active(V),
    Done(V),
    Errored(Seq<char>),
}

impl<T: DeepView> View for Status<T> {
    type V = StatusView<T::V>;

    open spec fn view(&self) -> StatusView<T::V> {
        match self {
            Status::Active(v) => StatusView::Active(v.deep_view()),
            Status::Done(v) => StatusView::Done(v.deep_view()),
            Status::Errored(e) => StatusView::Errored(e@),
        }
    }
}

impl<T: DeepView> DeepView for Status<T> {
    type V = StatusView<T::V>;

    open spec fn deep_view(&self) -> StatusView<T::V> {
        self@
    }
}

/// The status with `f` applied to its output; an error stays as it is.
pub open spec fn mapped<T, A>(s: Status<T>, f: spec_fn(T) -> A) -> Status<A> {
    match s {
        Status::Active(v) => Status::Active(f(v)),
        Status::Done(v) => Status::Done(f(v)),
        Status::Errored(e) => Status::Errored(e),
    }
}

/// Mapping keeps the kind of a status: active stays active, done stays done,
/// and an error keeps its message.
pub proof fn lemma_map_keeps_kind<T, A>(s: Status<T>, f: spec_fn(T) -> A)
    ensures
        s is Active <==> mapped(s, f) is Active,
        s is Done <==> mapped(s, f) is Done,
        s matches Status::Errored(e) ==> mapped(s, f) == Status::<A>::Errored(e),
{
}

/// Mapping with the identity gives the status back.
pub proof fn lemma_map_identity<T>(s: Status<T>)
    ensures
        mapped(s, |x: T| x) == s,
{
}

/// Mapping with `f` and then with `g` is mapping with `g` after `f`.
pub proof fn lemma_map_composition<T, A, B>(s: Status<T>, f: spec_fn(T) -> A, g: spec_fn(A) -> B)
    ensures
        mapped(mapped(s, f), g) == mapped(s, |x: T| g(f(x))),
{
}

/// `Status::map` with a function that always gives `f` of its argument
/// gives the status mapped with `f`, the error message kept.
pub proof fn lemma_map_call<T, A, F: FnOnce(T) -> A>(s: Status<T>, call: F, f: spec_fn(T) -> A, r: Status<A>)
    requires
        forall|x: T, y: A| call.ensures((x,), y) ==> y == f(x),
        match (s, r) {
            (Status::Active(v), Status::Active(a)) => call.ensures((v,), a),
            (Status::Done(v), Status::Done(a)) => call.ensures((v,), a),
            (Status::Errored(e), Status::Errored(e2)) => e2@ == e@,
            _ => false,
        },
    ensures
        match (mapped(s, f), r) {
            (Status::Active(a), Status::Active(b)) => a == b,
            (Status::Done(a), Status::Done(b)) => a == b,
            (Status::Errored(e), Status::Errored(e2)) => e2@ == e@,
            _ => false,
        },
{
}

impl<T> Status<T> {
    /// The output, or the error.
    pub fn result(&self) -> (r: Result<&T, &str>)
        ensures
            match (*self, r) {
                (Status::Active(v), Ok(o)) => *o == v,
                (Status::Done(v), Ok(o)) => *o == v,
                (Status::Errored(e), Err(m)) => m@ == e@,
                _ => false,
            },
    {
        match self {
            Status::Active(value) | Status::Done(value) => Ok(value),
            Status::Errored(error) => Err(error.as_str()),
        }
    }

    /// The status with `f` applied to its output.
    pub fn map<A>(self, f: impl FnOnce(T) -> A) -> (r: Status<A>)
        requires
            match self {
                Status::Active(v) => f.requires((v,)),
                Status::Done(v) => f.requires((v,)),
                Status::Errored(_) => true,
            },
        ensures
            match (self, r) {
                (Status::Active(v), Status::Active(a)) => f.ensures((v,), a),
                (Status::Done(v), Status::Done(a)) => f.ensures((v,), a),
                (Status::Errored(e), Status::Errored(e2)) => e2@ == e@,
                _ => false,
            },
    {
        match self {
            Status::Active(value) => Status::Active(f(value)),
            Status::Done(value) => Status::Done(f(value)),
            Status::Errored(error) => Status::Errored(error),
        }
    }

    /// The status with a reference to its output.
    pub fn as_ref(&self) -> (r: Status<&T>)
        ensures
            match (*self, r) {
                (Status::Active(v), Status::Active(a)) => *a == v,
                (Status::Done(v), Status::Done(a)) => *a == v,
                (Status::Errored(e), Status::Errored(e2)) => e2@ == e@,
                _ => false,
            },
    {
        match self {
            Status::Active(value) => Status::Active(value),
            Status::Done(value) => Status::Done(value),
            Status::Errored(error) => Status::Errored(error.clone()),
        }
    }
}

/// The outcome of a step.
#[derive(Debug)]
pub enum Outcome {
    Search(Status<Vec<Url>>),
    ScrapeText(Status<Vec<Summary>>),
    Answer(Status<Reply>),
}

/// The mathematical form of an [`Outcome`].
pub enum OutcomeView {
    Search(StatusView<Seq<Seq<char>>>),
    ScrapeText(StatusView<Seq<SummaryView>>),
    Answer(StatusView<ReplyView>),
}

impl View for Outcome {
    type V = OutcomeView;

    open spec fn view(&self) -> OutcomeView {
        match self {
            Outcome::Search(s) => OutcomeView::Search(s@),
            Outcome::ScrapeText(s) => OutcomeView::ScrapeText(s@),
            Outcome::Answer(s) => OutcomeView::Answer(s@),
        }
    }
}

impl DeepView for Outcome {
    type V = OutcomeView;

    open spec fn deep_view(&self) -> OutcomeView {
        self@
    }
}

/// A copy of `urls`.
pub fn clone_urls(urls: &Vec<Url>) -> (r: Vec<Url>)
    ensures
        r.deep_view() == urls.deep_view(),
{
    let r = urls.clone();
    assert(r.deep_view() =~= urls.deep_view());
    r
}

/// A copy of `summaries`.
pub fn clone_summaries(summaries: &Vec<Summary>) -> (r: Vec<Summary>)
    ensures
        r.deep_view() == summaries.deep_view(),
{
    let r = summaries.clone();
    assert(r.deep_view() =~= summaries.deep_view());
    r
}

impl Clone for Outcome {
    fn clone(&self) -> (r: Self)
        ensures
            r@ == self@,
    {
        match self {
            Outcome::Search(Status::Active(v)) => Outcome::Search(Status::Active(clone_urls(v))),
            Outcome::Search(Status::Done(v)) => Outcome::Search(Status::Done(clone_urls(v))),
            Outcome::Search(Status::Errored(e)) => Outcome::Search(Status::Errored(e.clone())),
            Outcome::ScrapeText(Status::Active(v)) => Outcome::ScrapeText(
                Status::Active(clone_summaries(v)),
            ),
            Outcome::ScrapeText(Status::Done(v)) => Outcome::ScrapeText(
                Status::Done(clone_summaries(v)),
            ),
            Outcome::ScrapeText(Status::Errored(e)) => Outcome::ScrapeText(
                Status::Errored(e.clone()),
            ),
            Outcome::Answer(Status::Active(v)) => Outcome::Answer(Status::Active(v.clone())),
            Outcome::Answer(Status::Done(v)) => Outcome::Answer(Status::Done(v.clone())),
            Outcome::Answer(Status::Errored(e)) => Outcome::Answer(Status::Errored(e.clone())),
        }
    }
}

/// A plan: why it was designed, its steps, and the outcomes of the steps run so far.
#[derive(Debug)]
pub struct Plan {
    pub reasoning: Option<Reasoning>,
    pub steps: Vec<Step>,
    pub outcomes: Vec<Outcome>,
}

/// The mathematical form of a [`Plan`].
pub struct PlanView {
    pub reasoning: Option<ReasoningView>,
    pub steps: Seq<StepView>,
    pub outcomes: Seq<OutcomeView>,
}

impl View for Plan {
    type V = PlanView;

    open spec fn view(&self) -> PlanView {
        PlanView {
            reasoning: self.reasoning.deep_view(),
            steps: self.steps.deep_view(),
            outcomes: self.outcomes.deep_view(),
        }
    }
}

impl DeepView for Plan {
    type V = PlanView;

    open spec fn deep_view(&self) -> PlanView {
        self@
    }
}

impl Clone for Plan {
    fn clone(&self) -> (r: Self)
        ensures
            r@ == self@,
    {
        let steps = self.steps.clone();
        assert(steps.deep_view() =~= self.steps.deep_view());
        let outcomes = self.outcomes.clone();
        assert(outcomes.deep_view() =~= self.outcomes.deep_view());
        Plan { reasoning: clone_reasoning(&self.reasoning), steps, outcomes }
    }
}

/// The replies of the finished answers among `outcomes`, in order.
pub open spec fn answers_of(outcomes: Seq<OutcomeView>) -> Seq<ReplyView>
    decreases outcomes.len(),
{
    if outcomes.len() == 0 {
        Seq::empty()
    } else {
        let rest = answers_of(outcomes.drop_last());
        match outcomes.last() {
            OutcomeView::Answer(StatusView::Done(reply)) => rest.push(reply),
            _ => rest,
        }
    }
}

/// The answers of a list of outcomes are those of its first part followed by
/// those of the rest, in order.
pub proof fn lemma_answers_concat(a: Seq<OutcomeView>, b: Seq<OutcomeView>)
    ensures
        answers_of(a + b) == answers_of(a) + answers_of(b),
    decreases b.len(),
{
    if b.len() == 0 {
        assert(a + b =~= a);
        assert(answers_of(a) + answers_of(b) =~= answers_of(a));
    } else {
        lemma_answers_concat(a, b.drop_last());
        assert((a + b).drop_last() =~= a + b.drop_last());
        assert((a + b).last() == b.last());
        match b.last() {
            OutcomeView::Answer(StatusView::Done(reply)) => {
                assert(answers_of(a) + answers_of(b) =~= (answers_of(a) + answers_of(b.drop_last())).push(reply));
            },
            _ => {},
        }
    }
}

/// An outcome is an answer exactly when it is a finished answer step, and
/// then it is its reply.
pub proof fn lemma_answers_of_one(o: OutcomeView)
    ensures
        answers_of(seq![o]) == match o {
            OutcomeView::Answer(StatusView::Done(reply)) => seq![reply],
            _ => Seq::<ReplyView>::empty(),
        },
{
    let one = seq![o];
    assert(one.drop_last() =~= Seq::<OutcomeView>::empty());
    assert(answers_of(Seq::<OutcomeView>::empty()) == Seq::<ReplyView>::empty());
    assert(one.last() == o);
    match o {
        OutcomeView::Answer(StatusView::Done(reply)) => {
            assert(Seq::<ReplyView>::empty().push(reply) =~= seq![reply]);
        },
        _ => {},
    }
}

impl Plan {
    /// An empty plan.
    pub fn empty() -> (p: Plan)
        ensures
            p@ == (PlanView { reasoning: None, steps: Seq::empty(), outcomes: Seq::empty() }),
    {
        let p = Plan { reasoning: None, steps: Vec::new(), outcomes: Vec::new() };
        assert(p.steps.deep_view() =~= Seq::<StepView>::empty());
        assert(p.outcomes.deep_view() =~= Seq::<OutcomeView>::empty());
        p
    }

    /// The replies of the finished answers of the plan.
    pub fn answers(&self) -> (replies: Vec<&Reply>)
        ensures
            replies@.map_values(|r: &Reply| r@) == answers_of(self@.outcomes),
    {
        let mut replies: Vec<&Reply> = Vec::new();
        let mut i: usize = 0;
        while i < self.outcomes.len()
            invariant
                i <= self.outcomes.len(),
                replies@.map_values(|r: &Reply| r@) == answers_of(
                    self.outcomes.deep_view().take(i as int),
                ),
            decreases self.outcomes.len() - i,
        {
            proof {
                assert(self.outcomes.deep_view().take(i + 1).drop_last()
                    == self.outcomes.deep_view().take(i as int));
                assert(self.outcomes.deep_view().take(i + 1).last() == self.outcomes@[i as int]@);
            }
            match &self.outcomes[i] {
                Outcome::Answer(Status::Done(reply)) => {
                    let ghost before = replies@;
                    replies.push(reply);
                    assert(replies@.map_values(|r: &Reply| r@) =~= before.map_values(
                        |r: &Reply| r@,
                    ).push(reply@));
                },
                _ => {},
            }
            i += 1;
        }
        assert(self.outcomes.deep_view().take(i as int) == self.outcomes.deep_view());
        replies
    }
}

/// How far along an outcome is.
#[derive(Debug, Clone, Copy, PartialEq, Eq, Structural)]
pub enum Stage {
    Pending,
    Active,
    Error,
    Done,
}

/// The stage of an outcome with the given status.
pub open spec fn stage_of_status<V>(s: StatusView<V>) -> Stage {
    match s {
        StatusView::Active(_) => Stage::Active,
        StatusView::Done(_) => Stage::Done,
        StatusView::Errored(_) => Stage::Error,
    }
}

/// The stage of an outcome.
pub open spec fn stage_of(o: OutcomeView) -> Stage {
    match o {
        OutcomeView::Search(s) => stage_of_status(s),
        OutcomeView::ScrapeText(s) => stage_of_status(s),
        OutcomeView::Answer(s) => stage_of_status(s),
    }
}

impl Outcome {
    /// The stage of the outcome: active, done, or failed.
    pub fn stage(&self) -> (s: Stage)
        ensures
            s == stage_of(self@),
    {
        match self {
            Outcome::Search(Status::Active(_))
            | Outcome::ScrapeText(Status::Active(_))
            | Outcome::Answer(Status::Active(_)) => Stage::Active,
            Outcome::Search(Status::Done(_))
            | Outcome::ScrapeText(Status::Done(_))
            | Outcome::Answer(Status::Done(_)) => Stage::Done,
            Outcome::Search(Status::Errored(_))
            | Outcome::ScrapeText(Status::Errored(_))
            | Outcome::Answer(Status::Errored(_)) => Stage::Error,
        }
    }
}

/// What happens while a plan is designed and run.
#[derive(Debug)]
pub enum Event {
    Designing(Reasoning),
    Designed(Plan),
    OutcomeAdded(Outcome),
    OutcomeChanged(Outcome),
}

/// The mathematical form of an [`Event`].
pub enum EventView {
    Designing(ReasoningView),
    Designed(PlanView),
    OutcomeAdded(OutcomeView),
    OutcomeChanged(OutcomeView),
}

impl View for Event {
    type V = EventView;

    open spec fn view(&self) -> EventView {
        match self {
            Event::Designing(r) => EventView::Designing(r@),
            Event::Designed(p) => EventView::Designed(p@),
            Event::OutcomeAdded(o) => EventView::OutcomeAdded(o@),
            Event::OutcomeChanged(o) => EventView::OutcomeChanged(o@),
        }
    }
}

/// The query of the last message of the user, if any.
pub open spec fn last_user_query(history: Seq<MessageView>) -> Option<Seq<char>>
    decreases history.len(),
{
    if history.len() == 0 {
        None
    } else {
        match history.last() {
            MessageView::User(query) => Some(query),
            _ => last_user_query(history.drop_last()),
        }
    }
}

/// The query that a plan is designed for: the last message of the user.
pub fn last_query(history: &[Message]) -> (q: Option<&str>)
    ensures
        match q {
            Some(s) => last_user_query(history@.map_values(|m: Message| m@)) == Some(s@),
            None => last_user_query(history@.map_values(|m: Message| m@)) is None,
        },
{
    let ghost views = history@.map_values(|m: Message| m@);
    let mut i: usize = history.len();
    assert(views.take(i as int) =~= views);
    while i > 0
        invariant
            i <= history@.len(),
            views == history@.map_values(|m: Message| m@),
            last_user_query(views) == last_user_query(views.take(i as int)),
        decreases i,
    {
        assert(views.take(i as int).drop_last() =~= views.take(i - 1));
        assert(views.take(i as int).last() == history@[i - 1]@);
        match &history[i - 1] {
            Message::User(query) => {
                return Some(query.as_str());
            },
            _ => {},
        }
        i -= 1;
    }
    None
}

/// The JSON text of the steps in the assistant's design: the first fenced
/// block, without a leading `json` tag and surrounding whitespace; the whole
/// reply if it has no fence.
pub open spec fn plan_json_of(content: Seq<char>) -> Seq<char> {
    text::trimmed(text::strip_prefixes(text::second_piece(content, "```"@), "json"@))
}

/// Extracts the JSON text of the steps from the assistant's design.
pub fn plan_json(content: &str) -> (json: String)
    ensures
        json@ == plan_json_of(content@),
{
    let piece = text::split_second(content, "```");
    text::trim(text::strip_prefixes_str(piece.as_str(), "json").as_str())
}

/// The number of times a failed design is retried.
pub const DESIGN_RETRIES: u32 = 3;

/// Whether a design that failed on attempt `attempt` (counted from zero) is tried again.
pub fn retries_design(attempt: u32) -> (again: bool)
    ensures
        again == (attempt < DESIGN_RETRIES),
{
    attempt < DESIGN_RETRIES
}

/// The instruction that asks the assistant to design a plan: the actions it
/// can use, and the shape of the steps, as JSON.
pub const BROWSE_PROMPT: &'static str = r#"Please construct a systematic plan to generate an optimal response to the user instruction, utilizing a set of provided actions. Each step will correspond to an evidence value, which will be the output of one of the available actions given an input string.

Here are the tools available to be called:

- search: Search for information using the Google search engine. This action is helpful in locating a suitable list of sites that may contain the answer to the user's query. It does not directly answer the question but finds a list of sites that might have the answer.
- scrape_text: Load one or more websites from the input string, where input is one or more links, and produces plain text output containing the content of the links.
- answer: Answer a question by reasoning from evidence obtained with previous actions.

The output should be in JSON:

```json
[
    {
        "evidence": "search_0",
        "description": "Search how to cook an omelette",
        "function": "search",
        "inputs": ["how to cook an omelette best recipe"]
    },
    {
        "evidence": "scrape_0",
        "description": "Scrape websites obtained from the previous search",
        "function": "scrape_text",
        "inputs": ["$search_0"]
    },
    ...
    {
        "evidence": "final_answer",
        "description": "Understand the scraped text and provide a final answer.",
        "function": "answer",
        "inputs": ["$scrape_0"] // You can provide multiple inputs for the answer action
    }
]
```
Reply only with the plan in JSON."#;

} // verus!