//! The earlier format of saved chats, and how its values become the current ones.
use vstd::prelude::*;
use crate::address::Url;
use crate::assistant;
use crate::assistant::{ReasoningView, ReplyView};
use crate::chat::{Chat, ChatView, Id, Item, ItemView};
use crate::duration::Duration;
use crate::model::File;
use crate::plan;
use crate::plan::{OutcomeView, PlanView, StatusView, StepView};
use crate::text;
use crate::web;
use crate::web::SummaryView;

verus! {

/// A reply as it was saved: the reasoning as a plain text, empty when there was none.
#[derive(Debug)]
pub struct Reply {
    pub reasoning: String,
    pub reasoning_time: Duration,
    pub content: String,
}

/// The mathematical form of a saved [`Reply`].
pub struct LegacyReplyView {
    pub reasoning: Seq<char>,
    pub reasoning_time: Duration,
    pub content: Seq<char>,
}

impl View for Reply {
    type V = LegacyReplyView;

    open spec fn view(&self) -> LegacyReplyView {
        LegacyReplyView {
            reasoning: self.reasoning@,
            reasoning_time: self.reasoning_time,
            content: self.content@,
        }
    }
}

impl DeepView for Reply {
    type V = LegacyReplyView;

    open spec fn deep_view(&self) -> LegacyReplyView {
        self@
    }
}

/// The current form of a saved reply: an empty reasoning means none.
pub open spec fn reply_data(r: LegacyReplyView) -> ReplyView {
    ReplyView {
        reasoning: if r.reasoning.len() == 0 {
            None
        } else {
            Some(ReasoningView { content: r.reasoning, duration: r.reasoning_time })
        },
        content: r.content,
        last_token: None,
    }
}

impl Reply {
    /// A reply saved as plain text: no reasoning, and the text as content.
    pub fn from_text(s: &str) -> (r: Reply)
        ensures
            r@ == (LegacyReplyView {
                reasoning: Seq::empty(),
                reasoning_time: Duration::empty(),
                content: s@,
            }),
    {
        Reply { reasoning: String::new(), reasoning_time: Duration::zero(), content: s.to_owned() }
    }

    /// The reply in the current form.
    pub fn into_data(self) -> (r: assistant::Reply)
        ensures
            r@ == reply_data(self@),
    {
        let reasoning = if self.reasoning.as_str().is_empty() {
            None
        } else {
            Some(assistant::Reasoning { content: self.reasoning, duration: self.reasoning_time })
        };
        assistant::Reply { reasoning, content: self.content, last_token: None }
    }
}

impl std::str::FromStr for Reply {
    type Err = std::convert::Infallible;

    fn from_str(s: &str) -> (r: Result<Self, Self::Err>)
        ensures
            r matches Ok(reply) && reply@ == (LegacyReplyView {
                reasoning: Seq::empty(),
                reasoning_time: Duration::empty(),
                content: s@,
            }),
    {
        Ok(Reply::from_text(s))
    }
}

/// A reasoning as it was saved.
#[derive(Debug)]
pub struct Reasoning {
    pub content: String,
    pub duration: Duration,
}

impl View for Reasoning {
    type V = ReasoningView;

    open spec fn view(&self) -> ReasoningView {
        ReasoningView { content: self.content@, duration: self.duration }
    }
}

impl Reasoning {
    /// The reasoning in the current form.
    pub fn into_data(self) -> (r: assistant::Reasoning)
        ensures
            r@ == self@,
    {
        assistant::Reasoning { content: self.content, duration: self.duration }
    }
}

/// A step as it was saved.
#[derive(Debug)]
pub struct Step {
    pub evidence: String,
    pub description: String,
    pub function: String,
    pub inputs: Vec<String>,
}

impl View for Step {
    type V = StepView;

    open spec fn view(&self) -> StepView {
        StepView {
            evidence: self.evidence@,
            description: self.description@,
            function: self.function@,
            inputs: self.inputs.deep_view(),
        }
    }
}

impl DeepView for Step {
    type V = StepView;

    open spec fn deep_view(&self) -> StepView {
        self@
    }
}

impl Step {
    /// The step in the current form.
    pub fn into_data(self) -> (s: plan::Step)
        ensures
            s@ == self@,
    {
        plan::Step {
            evidence: self.evidence,
            description: self.description,
            function: self.function,
            inputs: self.inputs,
        }
    }
}

/// A status as it was saved.
#[derive(Debug)]
pub enum Status<T> {
    Active(T),
    Done(T),
    Errored(String),
}

impl<T: DeepView> View for Status<T> {
    type V = StatusView<T::V>;

    open spec fn view(&self) -> StatusView<T::V> {
        match self {
            Status::Active(v) => StatusView::Active(v.deep_view()),
            Status::Done(v) => StatusView::Done(v.deep_view()),
            Status::Errored(e) => StatusView::Errored(e@),
        }
    }
}

impl<T: DeepView> DeepView for Status<T> {
    type V = StatusView<T::V>;

    open spec fn deep_view(&self) -> StatusView<T::V> {
        self@
    }
}

/// `f` applied to the output of a status.
pub open spec fn status_map<A, B>(s: StatusView<A>, f: spec_fn(A) -> B) -> StatusView<B> {
    match s {
        StatusView::Active(v) => StatusView::Active(f(v)),
        StatusView::Done(v) => StatusView::Done(f(v)),
        StatusView::Errored(e) => StatusView::Errored(e),
    }
}

impl<T> Status<T> {
    /// The status in the current form.
    pub fn into_data(self) -> (r: plan::Status<T>)
        ensures
            match (self, r) {
                (Status::Active(v), plan::Status::Active(w)) => v == w,
                (Status::Done(v), plan::Status::Done(w)) => v == w,
                (Status::Errored(e), plan::Status::Errored(f)) => e@ == f@,
                _ => false,
            },
    {
        match self {
            Status::Active(value) => plan::Status::Active(value),
            Status::Done(value) => plan::Status::Done(value),
            Status::Errored(error) => plan::Status::Errored(error),
        }
    }

    /// The status with `f` applied to its output.
    pub fn map<A>(self, f: impl FnOnce(T) -> A) -> (r: Status<A>)
        requires
            match self {
                Status::Active(v) => f.requires((v,)),
                Status::Done(v) => f.requires((v,)),
                Status::Errored(_) => true,
            },
        ensures
            match (self, r) {
                (Status::Active(v), Status::Active(a)) => f.ensures((v,), a),
                (Status::Done(v), Status::Done(a)) => f.ensures((v,), a),
                (Status::Errored(e), Status::Errored(e2)) => e2@ == e@,
                _ => false,
            },
    {
        match self {
            Status::Active(value) => Status::Active(f(value)),
            Status::Done(value) => Status::Done(f(value)),
            Status::Errored(error) => Status::Errored(error),
        }
    }
}

/// A summary of a web page as it was saved.
#[derive(Debug)]
pub struct WebSummary {
    pub url: Url,
    pub content: String,
}

impl View for WebSummary {
    type V = SummaryView;

    open spec fn view(&self) -> SummaryView {
        SummaryView { url: self.url@, content: self.content@ }
    }
}

impl DeepView for WebSummary {
    type V = SummaryView;

    open spec fn deep_view(&self) -> SummaryView {
        self@
    }
}

impl WebSummary {
    /// The summary in the current form.
    pub fn into_data(self) -> (s: web::Summary)
        ensures
            s@ == self@,
    {
        web::Summary { url: self.url, content: self.content }
    }
}

/// The scraped text of a step as it was saved: summaries of known pages, or
/// lines of text whose pages were not kept.
#[derive(Debug)]
pub enum WebSummaries {
    Known(Vec<WebSummary>),
    Uknown(Vec<String>),
}

/// The mathematical form of saved [`WebSummaries`].
pub enum WebSummariesView {
    Known(Seq<SummaryView>),
    Uknown(Seq<Seq<char>>),
}

impl View for WebSummaries {
    type V = WebSummariesView;

    open spec fn view(&self) -> WebSummariesView {
        match self {
            WebSummaries::Known(v) => WebSummariesView::Known(v.deep_view()),
            WebSummaries::Uknown(lines) => WebSummariesView::Uknown(lines.deep_view()),
        }
    }
}

impl DeepView for WebSummaries {
    type V = WebSummariesView;

    open spec fn deep_view(&self) -> WebSummariesView {
        self@
    }
}

/// The summaries that saved scraped text stands for: the known summaries, or
/// one summary of the unknown site holding the lines joined by newlines.
pub open spec fn summaries_data(s: WebSummariesView) -> Seq<SummaryView> {
    match s {
        WebSummariesView::Known(v) => v,
        WebSummariesView::Uknown(lines) => seq![
            SummaryView { url: "https://unknown.com/"@, content: text::joined(lines, "\n"@) },
        ],
    }
}

impl WebSummaries {
    /// The summaries in the current form.
    pub fn into_data(self) -> (v: Vec<web::Summary>)
        ensures
            v.deep_view() == summaries_data(self@),
    {
        match self {
            WebSummaries::Known(summaries) => {
                let ghost all = summaries.deep_view();
                let mut out: Vec<web::Summary> = Vec::new();
                let mut rest = summaries;
                while rest.len() > 0
                    invariant
                        out.deep_view() + rest.deep_view() == all,
                    decreases rest.len(),
                {
                    let ghost before_rest = rest.deep_view();
                    let summary = rest.remove(0);
                    let ghost before_out = out.deep_view();
                    out.push(summary.into_data());
                    assert(before_rest =~= seq![summary@] + rest.deep_view());
                    assert(out.deep_view() =~= before_out.push(summary@));
                    assert(out.deep_view() + rest.deep_view() =~= before_out + before_rest);
                }
                assert(out.deep_view() + rest.deep_view() =~= out.deep_view());
                out
            },
            WebSummaries::Uknown(lines) => {
                let content = text::join(&lines, "\n");
                let mut out: Vec<web::Summary> = Vec::new();
                out.push(web::Summary { url: Url::unknown_site(), content });
                assert(out.deep_view() =~= summaries_data(WebSummariesView::Uknown(lines.deep_view())));
                out
            },
        }
    }
}

/// An outcome as it was saved.
#[derive(Debug)]
pub enum Outcome {
    Search(Status<Vec<Url>>),
    ScrapeText(Status<WebSummaries>),
    Answer(Status<Reply>),
}

/// The mathematical form of a saved [`Outcome`].
pub enum LegacyOutcomeView {
    Search(StatusView<Seq<Seq<char>>>),
    ScrapeText(StatusView<WebSummariesView>),
    Answer(StatusView<LegacyReplyView>),
}

impl View for Outcome {
    type V = LegacyOutcomeView;

    open spec fn view(&self) -> LegacyOutcomeView {
        match self {
            Outcome::Search(s) => LegacyOutcomeView::Search(s@),
            Outcome::ScrapeText(s) => LegacyOutcomeView::ScrapeText(s@),
            Outcome::Answer(s) => LegacyOutcomeView::Answer(s@),
        }
    }
}

impl DeepView for Outcome {
    type V = LegacyOutcomeView;

    open spec fn deep_view(&self) -> LegacyOutcomeView {
        self@
    }
}

/// The current form of a saved outcome.
pub open spec fn outcome_data(o: LegacyOutcomeView) -> OutcomeView {
    match o {
        LegacyOutcomeView::Search(s) => OutcomeView::Search(s),
        LegacyOutcomeView::ScrapeText(s) => OutcomeView::ScrapeText(
            status_map(s, |w: WebSummariesView| summaries_data(w)),
        ),
        LegacyOutcomeView::Answer(s) => OutcomeView::Answer(
            status_map(s, |r: LegacyReplyView| reply_data(r)),
        ),
    }
}

impl Outcome {
    /// The outcome in the current form.
    pub fn into_data(self) -> (o: plan::Outcome)
        ensures
            o@ == outcome_data(self@),
    {
        match self {
            Outcome::Search(status) => {
                let ghost before = status@;
                let s = status.into_data();
                assert(s@ == before);
                plan::Outcome::Search(s)
            },
            Outcome::ScrapeText(status) => {
                let ghost before = status@;
                let mapped = status.map(|summaries: WebSummaries| -> (v: Vec<web::Summary>)
                    ensures
                        v.deep_view() == summaries_data(summaries@),
                    { summaries.into_data() });
                let s = mapped.into_data();
                assert(s@ == status_map(before, |w: WebSummariesView| summaries_data(w)));
                plan::Outcome::ScrapeText(s)
            },
            Outcome::Answer(status) => {
                let ghost before = status@;
                let mapped = status.map(|reply: Reply| -> (r: assistant::Reply)
                    ensures
                        r@ == reply_data(reply@),
                    { reply.into_data() });
                let s = mapped.into_data();
                assert(s@ == status_map(before, |r: LegacyReplyView| reply_data(r)));
                plan::Outcome::Answer(s)
            },
        }
    }
}

/// A plan as it was saved.
#[derive(Debug)]
pub struct Plan {
    pub reasoning: Option<Reasoning>,
    pub steps: Vec<Step>,
    pub outcomes: Vec<Outcome>,
}

/// The mathematical form of a saved [`Plan`].
pub struct LegacyPlanView {
    pub reasoning: Option<ReasoningView>,
    pub steps: Seq<StepView>,
    pub outcomes: Seq<LegacyOutcomeView>,
}

impl View for Plan {
    type V = LegacyPlanView;

    open spec fn view(&self) -> LegacyPlanView {
        LegacyPlanView {
            reasoning: match self.reasoning {
                Some(r) => Some(r@),
                None => None,
            },
            steps: self.steps.deep_view(),
            outcomes: self.outcomes.deep_view(),
        }
    }
}

/// The current form of a saved plan.
pub open spec fn plan_data(p: LegacyPlanView) -> PlanView {
    PlanView {
        reasoning: p.reasoning,
        steps: p.steps,
        outcomes: p.outcomes.map_values(|o: LegacyOutcomeView| outcome_data(o)),
    }
}

impl Plan {
    /// The plan in the current form.
    pub fn into_data(self) -> (p: plan::Plan)
        ensures
            p@ == plan_data(self@),
    {
        let ghost old_steps = self.steps.deep_view();
        let ghost old_outcomes = self.outcomes.deep_view();
        let reasoning = match self.reasoning {
            Some(r) => Some(r.into_data()),
            None => None,
        };
        let mut steps: Vec<plan::Step> = Vec::new();
        let mut rest = self.steps;
        while rest.len() > 0
            invariant
                steps.deep_view() + rest.deep_view() == old_steps,
            decreases rest.len(),
        {
            let ghost before_rest = rest.deep_view();
            let step = rest.remove(0);
            let ghost before = steps.deep_view();
            steps.push(step.into_data());
            assert(before_rest =~= seq![step@] + rest.deep_view());
            assert(steps.deep_view() =~= before.push(step@));
            assert(steps.deep_view() + rest.deep_view() =~= before + before_rest);
        }
        assert(steps.deep_view() + rest.deep_view() =~= steps.deep_view());
        let ghost expected = old_outcomes.map_values(|o: LegacyOutcomeView| outcome_data(o));
        let mut outcomes: Vec<plan::Outcome> = Vec::new();
        let mut rest = self.outcomes;
        let ghost done: int = 0;
        while rest.len() > 0
            invariant
                expected == old_outcomes.map_values(|o: LegacyOutcomeView| outcome_data(o)),
                outcomes.deep_view().len() + rest.deep_view().len() == old_outcomes.len(),
                outcomes.deep_view() == expected.take(outcomes.deep_view().len() as int),
                rest.deep_view() == old_outcomes.skip(outcomes.deep_view().len() as int),
            decreases rest.len(),
        {
            let ghost k = outcomes.deep_view().len() as int;
            let ghost before_rest = rest.deep_view();
            let outcome = rest.remove(0);
            assert(before_rest =~= seq![outcome@] + rest.deep_view());
            assert(before_rest[0] == old_outcomes.skip(k)[0]);
            assert(outcome@ == old_outcomes[k]);
            outcomes.push(outcome.into_data());
            assert(outcomes.deep_view() =~= expected.take(k + 1));
            assert(rest.deep_view() =~= before_rest.drop_first());
            assert(old_outcomes.skip(k).drop_first() =~= old_outcomes.skip(k + 1));
        }
        assert(outcomes.deep_view() =~= expected);
        plan::Plan { reasoning, steps, outcomes }
    }
}

/// A message of a saved chat.
#[derive(Debug)]
pub enum Message {
    User(String),
    Reply(Reply),
    Plan(Plan),
}

/// The mathematical form of a saved [`Message`].
pub enum LegacyMessageView {
    User(Seq<char>),
    Reply(LegacyReplyView),
    Plan(LegacyPlanView),
}

impl View for Message {
    type V = LegacyMessageView;

    open spec fn view(&self) -> LegacyMessageView {
        match self {
            Message::User(c) => LegacyMessageView::User(c@),
            Message::Reply(r) => LegacyMessageView::Reply(r@),
            Message::Plan(p) => LegacyMessageView::Plan(p@),
        }
    }
}

impl DeepView for Message {
    type V = LegacyMessageView;

    open spec fn deep_view(&self) -> LegacyMessageView {
        self@
    }
}

/// The current form of a saved message.
pub open spec fn message_data(m: LegacyMessageView) -> ItemView {
    match m {
        LegacyMessageView::User(c) => ItemView::User(c),
        LegacyMessageView::Reply(r) => ItemView::Reply(reply_data(r)),
        LegacyMessageView::Plan(p) => ItemView::Plan(plan_data(p)),
    }
}

impl Message {
    /// The message as a history item.
    pub fn into_data(self) -> (i: Item)
        ensures
            i@ == message_data(self@),
    {
        match self {
            Message::User(content) => Item::User(content),
            Message::Reply(reply) => Item::Reply(reply.into_data()),
            Message::Plan(plan) => Item::Plan(plan.into_data()),
        }
    }
}

/// A chat as it was saved.
#[derive(Debug)]
pub struct Schema {
    pub id: Id,
    pub file: File,
    pub title: Option<String>,
    pub history: Vec<Message>,
}

/// The current form of a saved chat.
pub open spec fn chat_data(id: Id, file: crate::model::FileView, title: Option<Seq<char>>, history: Seq<LegacyMessageView>) -> ChatView {
    ChatView { id, file, title, history: history.map_values(|m: LegacyMessageView| message_data(m)) }
}

/// A chat read from the old form keeps its id, model file and title, and has
/// one item per saved message, in order, of the same kind: a user's message
/// keeps its text, a reply its content (and a reasoning exactly when it had
/// one), and a plan its steps and one outcome per saved outcome.
pub proof fn lemma_legacy_chat(
    id: Id,
    file: crate::model::FileView,
    title: Option<Seq<char>>,
    history: Seq<LegacyMessageView>,
)
    ensures
        chat_data(id, file, title, history).id == id,
        chat_data(id, file, title, history).file == file,
        chat_data(id, file, title, history).title == title,
        chat_data(id, file, title, history).history.len() == history.len(),
        forall|i: int| 0 <= i < history.len() ==> match #[trigger] history[i] {
            LegacyMessageView::User(c) => chat_data(id, file, title, history).history[i]
                == ItemView::User(c),
            LegacyMessageView::Reply(r) => chat_data(id, file, title, history).history[i] matches ItemView::Reply(x)
                && x.content == r.content && (x.reasoning is Some <==> r.reasoning.len() > 0),
            LegacyMessageView::Plan(p) => chat_data(id, file, title, history).history[i] matches ItemView::Plan(x)
                && x.steps == p.steps && x.outcomes.len() == p.outcomes.len(),
        },
{
}

impl Schema {
    /// The chat in the current form.
    pub fn into_chat(self) -> (c: Chat)
        ensures
            c@ == chat_data(self.id, self.file@, self.title.deep_view(), self.history.deep_view()),
    {
        let ghost old_history = self.history.deep_view();
        let ghost expected = old_history.map_values(|m: LegacyMessageView| message_data(m));
        let mut history: Vec<Item> = Vec::new();
        let mut rest = self.history;
        while rest.len() > 0
            invariant
                expected == old_history.map_values(|m: LegacyMessageView| message_data(m)),
                history.deep_view().len() + rest.deep_view().len() == old_history.len(),
                history.deep_view() == expected.take(history.deep_view().len() as int),
                rest.deep_view() == old_history.skip(history.deep_view().len() as int),
            decreases rest.len(),
        {
            let ghost k = history.deep_view().len() as int;
            let ghost before_rest = rest.deep_view();
            let message = rest.remove(0);
            assert(before_rest =~= seq![message@] + rest.deep_view());
            assert(before_rest[0] == old_history.skip(k)[0]);
            assert(message@ == old_history[k]);
            history.push(message.into_data());
            assert(history.deep_view() =~= expected.take(k + 1));
            assert(rest.deep_view() =~= before_rest.drop_first());
            assert(old_history.skip(k).drop_first() =~= old_history.skip(k + 1));
        }
        assert(history.deep_view() =~= expected);
        Chat { id: self.id, file: self.file, title: self.title, history }
    }
}

} // verus!
