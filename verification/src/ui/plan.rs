//! A plan as the conversation shows it: its outcomes follow the events of
//! the running plan, and one step at a time is in focus.
use vstd::prelude::*;
use crate::address::Url;
use crate::assistant;
use crate::assistant::{ReasoningView, ReplyView};
use crate::plan;
use crate::plan::{EventView, OutcomeView, Stage, Status, StatusView, Step, StepView, clone_summaries, clone_urls, stage_of_status};
use crate::text;
use crate::plan::PlanView;
use crate::ui::{Reasoning, Reply, ShownReasoning, ShownReply, reasoning_data_of, reply_data_of, shown};
use crate::web::{Summary, SummaryView};

verus! {

broadcast use vstd::std_specs::vec::vec_clone_deep_view_proof;

/// An outcome as the conversation shows it: answers are shown replies.
#[derive(Debug)]
pub enum Outcome {
    Search(Status<Vec<Url>>),
    ScrapeText(Status<Vec<Summary>>),
    Answer(Status<Reply>),
}

/// The mathematical form of a shown [`Outcome`].
pub enum ShownOutcome {
    Search(StatusView<Seq<Seq<char>>>),
    ScrapeText(StatusView<Seq<SummaryView>>),
    Answer(StatusView<ShownReply>),
}

impl View for Outcome {
    type V = ShownOutcome;

    open spec fn view(&self) -> ShownOutcome {
        match self {
            Outcome::Search(s) => ShownOutcome::Search(s@),
            Outcome::ScrapeText(s) => ShownOutcome::ScrapeText(s@),
            Outcome::Answer(s) => ShownOutcome::Answer(s@),
        }
    }
}

impl DeepView for Outcome {
    type V = ShownOutcome;

    open spec fn deep_view(&self) -> ShownOutcome {
        self@
    }
}

/// A reply as shown once it arrives from the plan, its reasoning folded.
pub open spec fn shown_reply(r: ReplyView) -> ShownReply {
    ShownReply {
        reasoning: match r.reasoning {
            Some(x) => Some(shown(x, false)),
            None => None,
        },
        content: r.content,
    }
}

/// A reply as shown while it streams: its reasoning unfolded until it talks.
pub open spec fn updated_reply(r: ReplyView) -> ShownReply {
    ShownReply {
        reasoning: match r.reasoning {
            Some(x) => Some(shown(x, r.last_token is None)),
            None => None,
        },
        content: r.content,
    }
}

/// The status with `f` applied to its output.
pub open spec fn status_with<A, B>(s: StatusView<A>, f: spec_fn(A) -> B) -> StatusView<B> {
    match s {
        StatusView::Active(v) => StatusView::Active(f(v)),
        StatusView::Done(v) => StatusView::Done(f(v)),
        StatusView::Errored(e) => StatusView::Errored(e),
    }
}

/// An outcome of the plan as shown.
pub open spec fn shown_outcome(o: OutcomeView) -> ShownOutcome {
    match o {
        OutcomeView::Search(s) => ShownOutcome::Search(s),
        OutcomeView::ScrapeText(s) => ShownOutcome::ScrapeText(s),
        OutcomeView::Answer(s) => ShownOutcome::Answer(status_with(s, |r: ReplyView| shown_reply(r))),
    }
}

/// The stage of a shown outcome.
pub open spec fn shown_stage(o: ShownOutcome) -> Stage {
    match o {
        ShownOutcome::Search(s) => stage_of_status(s),
        ShownOutcome::ScrapeText(s) => stage_of_status(s),
        ShownOutcome::Answer(s) => stage_of_status(s),
    }
}

/// A shown outcome as data.
pub open spec fn outcome_data_of(o: ShownOutcome) -> OutcomeView {
    match o {
        ShownOutcome::Search(s) => OutcomeView::Search(s),
        ShownOutcome::ScrapeText(s) => OutcomeView::ScrapeText(s),
        ShownOutcome::Answer(s) => OutcomeView::Answer(status_with(s, |r: ShownReply| reply_data_of(r))),
    }
}

/// The replies of a plan's answer as data.
fn reply_data(status: &Status<Reply>) -> (s: Status<assistant::Reply>)
    ensures
        s@ == status_with(status@, |r: ShownReply| reply_data_of(r)),
{
    match status {
        Status::Active(r) => Status::Active(r.to_data()),
        Status::Done(r) => Status::Done(r.to_data()),
        Status::Errored(e) => Status::Errored(e.clone()),
    }
}

fn shown_answer(status: Status<assistant::Reply>) -> (s: Status<Reply>)
    ensures
        s@ == status_with(status@, |r: ReplyView| shown_reply(r)),
{
    match status {
        Status::Active(r) => Status::Active(Reply::from_data(r)),
        Status::Done(r) => Status::Done(Reply::from_data(r)),
        Status::Errored(e) => Status::Errored(e),
    }
}

impl Outcome {
    /// An outcome of the plan as shown.
    pub fn from_data(outcome: plan::Outcome) -> (o: Outcome)
        ensures
            o@ == shown_outcome(outcome@),
    {
        match outcome {
            plan::Outcome::Search(s) => Outcome::Search(s),
            plan::Outcome::ScrapeText(s) => Outcome::ScrapeText(s),
            plan::Outcome::Answer(s) => Outcome::Answer(shown_answer(s)),
        }
    }

    /// The outcome as data.
    pub fn to_data(&self) -> (o: plan::Outcome)
        ensures
            o@ == outcome_data_of(self@),
    {
        match self {
            Outcome::Search(Status::Active(v)) => plan::Outcome::Search(Status::Active(clone_urls(v))),
            Outcome::Search(Status::Done(v)) => plan::Outcome::Search(Status::Done(clone_urls(v))),
            Outcome::Search(Status::Errored(e)) => plan::Outcome::Search(Status::Errored(e.clone())),
            Outcome::ScrapeText(Status::Active(v)) => plan::Outcome::ScrapeText(
                Status::Active(clone_summaries(v)),
            ),
            Outcome::ScrapeText(Status::Done(v)) => plan::Outcome::ScrapeText(
                Status::Done(clone_summaries(v)),
            ),
            Outcome::ScrapeText(Status::Errored(e)) => plan::Outcome::ScrapeText(
                Status::Errored(e.clone()),
            ),
            Outcome::Answer(s) => plan::Outcome::Answer(reply_data(s)),
        }
    }

    /// The stage of the outcome.
    pub fn stage(&self) -> (s: Stage)
        ensures
            s == shown_stage(self@),
    {
        match self {
            Outcome::Search(Status::Active(_))
            | Outcome::ScrapeText(Status::Active(_))
            | Outcome::Answer(Status::Active(_)) => Stage::Active,
            Outcome::Search(Status::Done(_))
            | Outcome::ScrapeText(Status::Done(_))
            | Outcome::Answer(Status::Done(_)) => Stage::Done,
            Outcome::Search(Status::Errored(_))
            | Outcome::ScrapeText(Status::Errored(_))
            | Outcome::Answer(Status::Errored(_)) => Stage::Error,
        }
    }
}

/// A plan as the conversation shows it.
#[derive(Debug)]
pub struct Plan {
    pub reasoning: Option<Reasoning>,
    pub steps: Vec<Step>,
    pub outcomes: Vec<Outcome>,
    /// The step in focus, once the user picks one.
    pub active_step: Option<usize>,
}

/// The mathematical form of a shown [`Plan`].
pub struct ShownPlan {
    pub reasoning: Option<ShownReasoning>,
    pub steps: Seq<StepView>,
    pub outcomes: Seq<ShownOutcome>,
    pub active_step: Option<usize>,
}

impl View for Plan {
    type V = ShownPlan;

    open spec fn view(&self) -> ShownPlan {
        ShownPlan {
            reasoning: match self.reasoning {
                Some(r) => Some(r@),
                None => None,
            },
            steps: self.steps.deep_view(),
            outcomes: self.outcomes.deep_view(),
            active_step: self.active_step,
        }
    }
}

/// A plan as shown, from data.
pub open spec fn shown_plan(p: PlanView) -> ShownPlan {
    ShownPlan {
        reasoning: shown_reasoning(p.reasoning),
        steps: p.steps,
        outcomes: p.outcomes.map_values(|o: OutcomeView| shown_outcome(o)),
        active_step: None,
    }
}

/// A shown plan as data.
pub open spec fn plan_data_of(p: ShownPlan) -> PlanView {
    PlanView {
        reasoning: match p.reasoning {
            Some(r) => Some(reasoning_data_of(r)),
            None => None,
        },
        steps: p.steps,
        outcomes: p.outcomes.map_values(|o: ShownOutcome| outcome_data_of(o)),
    }
}

/// A folded reasoning of the plan, if any.
pub open spec fn shown_reasoning(r: Option<ReasoningView>) -> Option<ShownReasoning> {
    match r {
        Some(x) => Some(shown(x, false)),
        None => None,
    }
}

/// The shown plan once `event` happens: the reasoning and the steps follow
/// the design, a new outcome is added, and a changed outcome replaces the
/// last one. A changed answer updates the answer being written, and any other
/// change while an answer is being written drops that answer.
pub open spec fn applied(p: ShownPlan, event: EventView) -> ShownPlan {
    match event {
        EventView::Designing(r) => ShownPlan { reasoning: Some(shown(r, false)), ..p },
        EventView::Designed(d) => ShownPlan {
            reasoning: shown_reasoning(d.reasoning),
            steps: d.steps,
            ..p
        },
        EventView::OutcomeAdded(o) => ShownPlan { outcomes: p.outcomes.push(shown_outcome(o)), ..p },
        EventView::OutcomeChanged(o) => {
            if p.outcomes.len() > 0 && p.outcomes.last() matches ShownOutcome::Answer(
                StatusView::Active(_),
            ) {
                match o {
                    OutcomeView::Answer(s) => ShownPlan {
                        outcomes: p.outcomes.drop_last().push(
                            ShownOutcome::Answer(status_with(s, |r: ReplyView| updated_reply(r))),
                        ),
                        ..p
                    },
                    _ => ShownPlan { outcomes: p.outcomes.drop_last(), ..p },
                }
            } else {
                let kept = if p.outcomes.len() > 0 {
                    p.outcomes.drop_last()
                } else {
                    p.outcomes
                };
                ShownPlan { outcomes: kept.push(shown_outcome(o)), ..p }
            }
        },
    }
}

/// A new outcome goes after every outcome already shown; a design sets the
/// steps shown to its steps; a changed outcome of a search or a scrape takes
/// the place of the last outcome, keeping every earlier one.
pub proof fn lemma_plan_events(p: ShownPlan, o: OutcomeView, design: PlanView)
    ensures
        applied(p, EventView::OutcomeAdded(o)).outcomes.len() == p.outcomes.len() + 1,
        applied(p, EventView::OutcomeAdded(o)).outcomes.drop_last() == p.outcomes,
        applied(p, EventView::OutcomeAdded(o)).steps == p.steps,
        applied(p, EventView::Designed(design)).steps == design.steps,
        applied(p, EventView::Designed(design)).outcomes == p.outcomes,
        !(o is Answer) && p.outcomes.len() > 0 && !(p.outcomes.last() is Answer) ==> {
            &&& applied(p, EventView::OutcomeChanged(o)).outcomes.len() == p.outcomes.len()
            &&& applied(p, EventView::OutcomeChanged(o)).outcomes.drop_last() == p.outcomes.drop_last()
            &&& applied(p, EventView::OutcomeChanged(o)).outcomes.last() == shown_outcome(o)
        },
{
    assert(p.outcomes.push(shown_outcome(o)).drop_last() =~= p.outcomes);
    if p.outcomes.len() > 0 {
        assert(p.outcomes.drop_last().push(shown_outcome(o)).drop_last() =~= p.outcomes.drop_last());
    }
}

/// The token that extends the text of the answer being written, if the event
/// updates it.
pub open spec fn appended_token(p: ShownPlan, event: EventView) -> Option<Seq<char>> {
    match event {
        EventView::OutcomeChanged(OutcomeView::Answer(s)) => {
            if p.outcomes.len() > 0 && p.outcomes.last() matches ShownOutcome::Answer(
                StatusView::Active(_),
            ) {
                match s {
                    StatusView::Active(r) => r.last_token,
                    StatusView::Done(r) => r.last_token,
                    StatusView::Errored(_) => None,
                }
            } else {
                None
            }
        },
        _ => None,
    }
}

fn folded(reasoning: Option<assistant::Reasoning>) -> (r: Option<Reasoning>)
    ensures
        match r {
            Some(x) => reasoning matches Some(y) && x@ == shown(y@, false),
            None => reasoning is None,
        },
{
    match reasoning {
        Some(x) => Some(Reasoning::from_data(x)),
        None => None,
    }
}

fn updated(reply: assistant::Reply) -> (r: (Reply, Option<String>))
    ensures
        r.0@ == updated_reply(reply@),
        r.1.deep_view() == reply@.last_token,
{
    let mut shown = Reply { reasoning: None, content: String::new() };
    let token = shown.update(reply);
    (shown, token)
}

/// The plan once the reasoning of the finished answer at `index`, if that
/// outcome is one, is unfolded (`show`) or folded.
pub open spec fn answer_reasoning_toggled(p: ShownPlan, index: int, show: bool) -> ShownPlan {
    if 0 <= index < p.outcomes.len() {
        match p.outcomes[index] {
            ShownOutcome::Answer(StatusView::Done(r)) => ShownPlan {
                outcomes: p.outcomes.update(
                    index,
                    ShownOutcome::Answer(
                        StatusView::Done(
                            ShownReply {
                                reasoning: match r.reasoning {
                                    Some(x) => Some(ShownReasoning { show, ..x }),
                                    None => None,
                                },
                                ..r
                            },
                        ),
                    ),
                ),
                ..p
            },
            _ => p,
        }
    } else {
        p
    }
}

/// What the view of a plan is told.
#[derive(Debug, Clone, Copy, PartialEq, Eq, Structural)]
pub enum Message {
    /// The reasoning of the finished answer at the index is unfolded or folded.
    ToggleAnswerReasoning(usize, bool),
    /// The step at the index is put in focus.
    ChangeStep(usize),
}

/// The plan after message `m`.
pub open spec fn plan_updated(p: ShownPlan, m: Message) -> ShownPlan {
    match m {
        Message::ToggleAnswerReasoning(index, show) => answer_reasoning_toggled(p, index as int, show),
        Message::ChangeStep(step) => ShownPlan { active_step: Some(step), ..p },
    }
}

impl Plan {
    /// A plan that has not been designed yet.
    pub fn new() -> (p: Plan)
        ensures
            p@.reasoning is None,
            p@.steps == Seq::<StepView>::empty(),
            p@.outcomes == Seq::<ShownOutcome>::empty(),
            p@.active_step is None,
    {
        let p = Plan { reasoning: None, steps: Vec::new(), outcomes: Vec::new(), active_step: None };
        assert(p.steps.deep_view() =~= Seq::<StepView>::empty());
        assert(p.outcomes.deep_view() =~= Seq::<ShownOutcome>::empty());
        p
    }

    /// A plan as shown, from data: nothing in focus, reasonings folded.
    pub fn from_data(p: plan::Plan) -> (s: Plan)
        ensures
            s@ == shown_plan(p@),
    {
        let ghost all = p.outcomes.deep_view();
        let ghost expected = all.map_values(|o: OutcomeView| shown_outcome(o));
        let mut outcomes: Vec<Outcome> = Vec::new();
        let mut rest = p.outcomes;
        while rest.len() > 0
            invariant
                expected == all.map_values(|o: OutcomeView| shown_outcome(o)),
                outcomes.deep_view().len() + rest.deep_view().len() == all.len(),
                outcomes.deep_view() == expected.take(outcomes.deep_view().len() as int),
                rest.deep_view() == all.skip(outcomes.deep_view().len() as int),
            decreases rest.len(),
        {
            let ghost k = outcomes.deep_view().len() as int;
            let ghost before_rest = rest.deep_view();
            let outcome = rest.remove(0);
            assert(before_rest =~= seq![outcome@] + rest.deep_view());
            assert(before_rest[0] == all.skip(k)[0]);
            let shown = Outcome::from_data(outcome);
            outcomes.push(shown);
            assert(outcomes.deep_view() =~= expected.take(k + 1));
            assert(rest.deep_view() =~= before_rest.drop_first());
            assert(all.skip(k).drop_first() =~= all.skip(k + 1));
        }
        assert(outcomes.deep_view() =~= expected);
        Plan { reasoning: folded(p.reasoning), steps: p.steps, outcomes, active_step: None }
    }

    /// The plan as data.
    pub fn to_data(&self) -> (p: plan::Plan)
        ensures
            p@ == plan_data_of(self@),
    {
        let reasoning = match &self.reasoning {
            Some(r) => Some(r.to_data()),
            None => None,
        };
        let steps = self.steps.clone();
        assert(steps.deep_view() =~= self.steps.deep_view());
        let mut outcomes: Vec<plan::Outcome> = Vec::new();
        let mut i: usize = 0;
        while i < self.outcomes.len()
            invariant
                i <= self.outcomes.len(),
                outcomes.deep_view() == self.outcomes.deep_view().take(i as int).map_values(
                    |o: ShownOutcome| outcome_data_of(o),
                ),
            decreases self.outcomes.len() - i,
        {
            let ghost before = outcomes.deep_view();
            let o = self.outcomes[i].to_data();
            outcomes.push(o);
            assert(outcomes.deep_view() =~= before.push(o@));
            assert(self.outcomes.deep_view().take(i + 1).map_values(
                |o: ShownOutcome| outcome_data_of(o),
            ) =~= before.push(outcome_data_of(self.outcomes@[i as int]@)));
            i += 1;
        }
        assert(self.outcomes.deep_view().take(i as int) =~= self.outcomes.deep_view());
        plan::Plan { reasoning, steps, outcomes }
    }

    /// Follows an event of the running plan. The result is the token to
    /// append to the text of the answer being written, if the event extends it.
    pub fn apply(&mut self, event: plan::Event) -> (token: Option<String>)
        ensures
            final(self)@ == applied(old(self)@, event@),
            token.deep_view() == appended_token(old(self)@, event@),
    {
        match event {
            plan::Event::Designing(r) => {
                self.reasoning = Some(Reasoning::from_data(r));
                None
            },
            plan::Event::Designed(d) => {
                self.reasoning = folded(d.reasoning);
                self.steps = d.steps;
                None
            },
            plan::Event::OutcomeAdded(o) => {
                let ghost before = self.outcomes.deep_view();
                let shown = Outcome::from_data(o);
                self.outcomes.push(shown);
                assert(self.outcomes.deep_view() =~= before.push(shown@));
                None
            },
            plan::Event::OutcomeChanged(o) => {
                let ghost before = self.outcomes.deep_view();
                let last = self.outcomes.pop();
                assert(before.len() > 0 ==> self.outcomes.deep_view() =~= before.drop_last());
                match last {
                    Some(Outcome::Answer(Status::Active(_))) => match o {
                        plan::Outcome::Answer(s) => {
                            let (status, token) = match s {
                                Status::Active(r) => {
                                    let (shown, token) = updated(r);
                                    (Status::Active(shown), token)
                                },
                                Status::Done(r) => {
                                    let (shown, token) = updated(r);
                                    (Status::Done(shown), token)
                                },
                                Status::Errored(e) => (Status::Errored(e), None),
                            };
                            let ghost kept = self.outcomes.deep_view();
                            let answer = Outcome::Answer(status);
                            self.outcomes.push(answer);
                            assert(self.outcomes.deep_view() =~= kept.push(answer@));
                            token
                        },
                        _ => None,
                    },
                    _ => {
                        let ghost kept = self.outcomes.deep_view();
                        let shown = Outcome::from_data(o);
                        self.outcomes.push(shown);
                        assert(self.outcomes.deep_view() =~= kept.push(shown@));
                        None
                    },
                }
            },
        }
    }

    /// Unfolds or folds the reasoning of the finished answer at `index`.
    pub fn toggle_answer_reasoning(&mut self, index: usize, show: bool)
        ensures
            final(self)@ == answer_reasoning_toggled(old(self)@, index as int, show),
    {
        if index < self.outcomes.len() {
            let ghost before = self.outcomes.deep_view();
            let mut outcome = Outcome::Search(Status::Errored(String::new()));
            self.outcomes.set_and_swap(index, &mut outcome);
            if let Outcome::Answer(Status::Done(reply)) = &mut outcome {
                reply.toggle_reasoning(show);
            }
            let ghost changed = outcome@;
            self.outcomes.set_and_swap(index, &mut outcome);
            assert(self.outcomes.deep_view() =~= before.update(index as int, changed));
            assert(self.outcomes.deep_view() =~= answer_reasoning_toggled(
                ShownPlan { outcomes: before, ..old(self)@ },
                index as int,
                show,
            ).outcomes);
        }
    }

    /// Takes in a message of the plan's view.
    pub fn update(&mut self, message: Message)
        ensures
            final(self)@ == plan_updated(old(self)@, message),
    {
        match message {
            Message::ToggleAnswerReasoning(index, show) => self.toggle_answer_reasoning(index, show),
            Message::ChangeStep(step) => self.change_step(step),
        }
    }

    /// Puts step `step` in focus.
    pub fn change_step(&mut self, step: usize)
        ensures
            final(self)@ == (ShownPlan { active_step: Some(step), ..old(self)@ }),
    {
        self.active_step = Some(step);
    }

    /// The step in focus: the one picked, else the last one with an outcome.
    pub fn active_step(&self) -> (s: usize)
        ensures
            s == match self@.active_step {
                Some(picked) => picked as int,
                None => if self@.outcomes.len() > 0 {
                    self@.outcomes.len() - 1
                } else {
                    0
                },
            },
    {
        match self.active_step {
            Some(picked) => picked,
            None => {
                if self.outcomes.len() > 0 {
                    self.outcomes.len() - 1
                } else {
                    0
                }
            },
        }
    }

    /// The stage of step `i`: that of its outcome, or pending if it has none yet.
    pub fn step_stage(&self, i: usize) -> (s: Stage)
        ensures
            s == if i < self@.outcomes.len() {
                shown_stage(self@.outcomes[i as int])
            } else {
                Stage::Pending
            },
    {
        if i < self.outcomes.len() {
            self.outcomes[i].stage()
        } else {
            Stage::Pending
        }
    }
}

/// The title of a step: its description without surrounding periods.
pub fn step_title(step: &Step) -> (t: String)
    ensures
        t@ == text::trimmed_of(step@.description, '.'),
{
    text::trim_matches(step.description.as_str(), '.')
}

} // verus!
