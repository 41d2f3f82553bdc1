//! Running a plan: what each step asks for, and the outcomes and outputs
//! kept from one step to the next.
use vstd::prelude::*;
use crate::address::{Url, parsed_url};
use crate::assistant::{Message, MessageView, Reply, ReplyView};
use crate::plan::{Event, EventView, Outcome, OutcomeView, Stage, Status, StatusView, Step, StepView, stage_of};
use crate::text;
use crate::value::same_text;
use crate::web::{Summary, SummaryView};

verus! {

/// What a finished step leaves for the steps after it.
#[derive(Debug)]
pub enum Output {
    Links(Vec<Url>),
    Text(Vec<String>),
    Answer,
}

/// The mathematical form of an [`Output`].
pub enum OutputView {
    Links(Seq<Seq<char>>),
    Text(Seq<Seq<char>>),
    Answer,
}

impl View for Output {
    type V = OutputView;

    open spec fn view(&self) -> OutputView {
        match self {
            Output::Links(links) => OutputView::Links(links.deep_view()),
            Output::Text(text) => OutputView::Text(text.deep_view()),
            Output::Answer => OutputView::Answer,
        }
    }
}

/// Whether a step input refers to the output of an earlier step.
pub open spec fn is_reference(input: Seq<char>) -> bool {
    text::starts_with(input, "$"@)
}

/// The evidence name that a reference input points to: the input without
/// its leading `$`s, trimmed.
pub open spec fn reference_name(input: Seq<char>) -> Seq<char> {
    text::trimmed(text::trimmed_start_of(input, '$'))
}

/// The links that one input stands for: those found by the step it refers
/// to, or the URL it spells.
pub open spec fn links_for(outputs: Map<Seq<char>, OutputView>, input: Seq<char>) -> Seq<Seq<char>> {
    if is_reference(input) {
        let name = reference_name(input);
        if outputs.contains_key(name) {
            match outputs[name] {
                OutputView::Links(links) => links,
                _ => Seq::empty(),
            }
        } else {
            Seq::empty()
        }
    } else {
        match parsed_url(input) {
            Some(url) => seq![url],
            None => Seq::empty(),
        }
    }
}

/// The links that the inputs stand for, in order.
pub open spec fn links_of(outputs: Map<Seq<char>, OutputView>, inputs: Seq<Seq<char>>) -> Seq<
    Seq<char>,
>
    decreases inputs.len(),
{
    if inputs.len() == 0 {
        Seq::empty()
    } else {
        links_of(outputs, inputs.drop_last()) + links_for(outputs, inputs.last())
    }
}

/// A text inside a fenced block.
pub open spec fn fenced(t: Seq<char>) -> Seq<char> {
    "```\n"@ + t + "\n```"@
}

/// The fenced texts that one input stands for: the text scraped by the step
/// it refers to.
pub open spec fn texts_for(outputs: Map<Seq<char>, OutputView>, input: Seq<char>) -> Seq<Seq<char>> {
    if is_reference(input) && outputs.contains_key(reference_name(input)) {
        match outputs[reference_name(input)] {
            OutputView::Text(texts) => texts.map_values(|t: Seq<char>| fenced(t)),
            _ => Seq::empty(),
        }
    } else {
        Seq::empty()
    }
}

/// The fenced texts that the inputs stand for, in order.
pub open spec fn texts_of(outputs: Map<Seq<char>, OutputView>, inputs: Seq<Seq<char>>) -> Seq<
    Seq<char>,
>
    decreases inputs.len(),
{
    if inputs.len() == 0 {
        Seq::empty()
    } else {
        texts_of(outputs, inputs.drop_last()) + texts_for(outputs, inputs.last())
    }
}

/// The map that a list of named outputs stands for.
pub open spec fn map_of(entries: Seq<(Seq<char>, OutputView)>) -> Map<Seq<char>, OutputView> {
    Map::new(
        |k: Seq<char>| exists|i: int| 0 <= i < entries.len() && entries[i].0 == k,
        |k: Seq<char>| entries[choose|i: int| 0 <= i < entries.len() && entries[i].0 == k].1,
    )
}

/// No name occurs twice in the list.
pub open spec fn distinct_names(entries: Seq<(Seq<char>, OutputView)>) -> bool {
    forall|i: int, j: int|
        0 <= i < entries.len() && 0 <= j < entries.len() && i != j ==> entries[i].0 != entries[j].0
}

/// The names and outputs of a list of named outputs.
pub open spec fn entry_views(entries: Seq<(String, Output)>) -> Seq<(Seq<char>, OutputView)> {
    Seq::new(entries.len(), |i: int| (entries[i].0@, entries[i].1@))
}

proof fn lemma_map_lookup(entries: Seq<(Seq<char>, OutputView)>, i: int)
    requires
        distinct_names(entries),
        0 <= i < entries.len(),
    ensures
        map_of(entries).contains_key(entries[i].0),
        map_of(entries)[entries[i].0] == entries[i].1,
{
    let k = entries[i].0;
    assert(exists|j: int| 0 <= j < entries.len() && entries[j].0 == k);
    let j = choose|j: int| 0 <= j < entries.len() && entries[j].0 == k;
    assert(j == i);
}

proof fn lemma_map_absent(entries: Seq<(Seq<char>, OutputView)>, k: Seq<char>)
    requires
        forall|i: int| 0 <= i < entries.len() ==> entries[i].0 != k,
    ensures
        !map_of(entries).contains_key(k),
{
}

proof fn lemma_map_update(entries: Seq<(Seq<char>, OutputView)>, i: int, v: OutputView)
    requires
        distinct_names(entries),
        0 <= i < entries.len(),
    ensures
        distinct_names(entries.update(i, (entries[i].0, v))),
        map_of(entries.update(i, (entries[i].0, v))) == map_of(entries).insert(entries[i].0, v),
{
    let updated = entries.update(i, (entries[i].0, v));
    assert forall|k: Seq<char>| #[trigger]
        map_of(updated).contains_key(k) == map_of(entries).insert(entries[i].0, v).contains_key(
            k,
        ) by {
        if map_of(entries).contains_key(k) {
            let j = choose|j: int| 0 <= j < entries.len() && entries[j].0 == k;
            assert(updated[j].0 == k);
        }
        if map_of(updated).contains_key(k) {
            let j = choose|j: int| 0 <= j < updated.len() && updated[j].0 == k;
            assert(entries[j].0 == k);
        }
    }
    assert forall|k: Seq<char>| #[trigger] map_of(updated).contains_key(k) implies map_of(
        updated,
    )[k] == map_of(entries).insert(entries[i].0, v)[k] by {
        let j = choose|j: int| 0 <= j < updated.len() && updated[j].0 == k;
        lemma_map_lookup(updated, j);
        if j != i {
            lemma_map_lookup(entries, j);
        }
    }
    assert(map_of(updated) =~= map_of(entries).insert(entries[i].0, v));
}

proof fn lemma_map_push(entries: Seq<(Seq<char>, OutputView)>, k: Seq<char>, v: OutputView)
    requires
        distinct_names(entries),
        forall|i: int| 0 <= i < entries.len() ==> entries[i].0 != k,
    ensures
        distinct_names(entries.push((k, v))),
        map_of(entries.push((k, v))) == map_of(entries).insert(k, v),
{
    let pushed = entries.push((k, v));
    assert forall|x: Seq<char>| #[trigger]
        map_of(pushed).contains_key(x) == map_of(entries).insert(k, v).contains_key(x) by {
        if map_of(entries).contains_key(x) {
            let j = choose|j: int| 0 <= j < entries.len() && entries[j].0 == x;
            assert(pushed[j].0 == x);
        }
        if x == k {
            assert(pushed[entries.len() as int].0 == x);
        }
        if map_of(pushed).contains_key(x) && x != k {
            let j = choose|j: int| 0 <= j < pushed.len() && pushed[j].0 == x;
            assert(entries[j].0 == x);
        }
    }
    assert forall|x: Seq<char>| #[trigger] map_of(pushed).contains_key(x) implies map_of(pushed)[x]
        == map_of(entries).insert(k, v)[x] by {
        let j = choose|j: int| 0 <= j < pushed.len() && pushed[j].0 == x;
        lemma_map_lookup(pushed, j);
        if j < entries.len() {
            lemma_map_lookup(entries, j);
        }
    }
    assert(map_of(pushed) =~= map_of(entries).insert(k, v));
}

/// `$` followed by an evidence name refers to that name, when the name is
/// trimmed and does not itself start with `$`.
proof fn lemma_reference_name(name: Seq<char>)
    requires
        text::trimmed(name) == name,
        name.len() == 0 || name[0] != '$',
    ensures
        is_reference("$"@ + name),
        reference_name("$"@ + name) == name,
{
    reveal_strlit("$");
    let s = "$"@ + name;
    assert(s.subrange(0, 1) =~= "$"@);
    assert(s.drop_first() =~= name);
    assert(text::trimmed_start_of(name, '$') == name);
}

/// A step's output is what `$` and its evidence name stand for in the inputs
/// of a later step: the links that a finished search found, or the text that
/// a finished scrape read, each text in a fenced block.
pub proof fn lemma_reference_resolves(
    outputs: Map<Seq<char>, OutputView>,
    name: Seq<char>,
    links: Seq<Seq<char>>,
    texts: Seq<Seq<char>>,
)
    requires
        text::trimmed(name) == name,
        name.len() == 0 || name[0] != '$',
    ensures
        links_for(outputs.insert(name, OutputView::Links(links)), "$"@ + name) == links,
        texts_for(outputs.insert(name, OutputView::Text(texts)), "$"@ + name) == texts.map_values(
            |t: Seq<char>| fenced(t),
        ),
{
    lemma_reference_name(name);
}

/// The texts of a list of inputs are those of its first part followed by
/// those of the rest: every input contributes, in input order.
pub proof fn lemma_texts_concat(outputs: Map<Seq<char>, OutputView>, a: Seq<Seq<char>>, b: Seq<Seq<char>>)
    ensures
        texts_of(outputs, a + b) == texts_of(outputs, a) + texts_of(outputs, b),
    decreases b.len(),
{
    if b.len() == 0 {
        assert(a + b =~= a);
        assert(texts_of(outputs, a) + texts_of(outputs, b) =~= texts_of(outputs, a));
    } else {
        lemma_texts_concat(outputs, a, b.drop_last());
        assert((a + b).drop_last() =~= a + b.drop_last());
        assert((a + b).last() == b.last());
        assert(texts_of(outputs, a) + texts_of(outputs, b) =~= texts_of(outputs, a) + texts_of(
            outputs,
            b.drop_last(),
        ) + texts_for(outputs, b.last()));
    }
}

/// The links of a list of inputs are those of its first part followed by
/// those of the rest: every input contributes, in input order.
pub proof fn lemma_links_concat(outputs: Map<Seq<char>, OutputView>, a: Seq<Seq<char>>, b: Seq<Seq<char>>)
    ensures
        links_of(outputs, a + b) == links_of(outputs, a) + links_of(outputs, b),
    decreases b.len(),
{
    if b.len() == 0 {
        assert(a + b =~= a);
        assert(links_of(outputs, a) + links_of(outputs, b) =~= links_of(outputs, a));
    } else {
        lemma_links_concat(outputs, a, b.drop_last());
        assert((a + b).drop_last() =~= a + b.drop_last());
        assert((a + b).last() == b.last());
        assert(links_of(outputs, a) + links_of(outputs, b) =~= links_of(outputs, a) + links_of(
            outputs,
            b.drop_last(),
        ) + links_for(outputs, b.last()));
    }
}

proof fn lemma_of_single(outputs: Map<Seq<char>, OutputView>, input: Seq<char>)
    ensures
        texts_of(outputs, seq![input]) == texts_for(outputs, input),
        links_of(outputs, seq![input]) == links_for(outputs, input),
{
    let one = seq![input];
    assert(one.drop_last() =~= Seq::<Seq<char>>::empty());
    assert(one.last() == input);
    let e = Seq::<Seq<char>>::empty();
    assert(texts_of(outputs, e) == e);
    assert(links_of(outputs, e) == e);
    assert(texts_of(outputs, one) == texts_of(outputs, e) + texts_for(outputs, input));
    assert(links_of(outputs, one) == links_of(outputs, e) + links_for(outputs, input));
    assert(e + texts_for(outputs, input) =~= texts_for(outputs, input));
    assert(e + links_for(outputs, input) =~= links_for(outputs, input));
}

/// A single input `$name`, naming a step whose output is text, stands for
/// each text of that output in a fenced block, in order; naming a step whose
/// output is links, it stands for those links.
pub proof fn lemma_single_reference(
    outputs: Map<Seq<char>, OutputView>,
    name: Seq<char>,
)
    requires
        text::trimmed(name) == name,
        name.len() == 0 || name[0] != '$',
        outputs.contains_key(name),
    ensures
        outputs[name] matches OutputView::Text(texts) ==> texts_of(outputs, seq!["$"@ + name])
            == Seq::new(texts.len(), |i: int| "```\n"@ + texts[i] + "\n```"@),
        outputs[name] matches OutputView::Links(links) ==> links_of(outputs, seq!["$"@ + name])
            == links,
        outputs[name] matches OutputView::Links(_) ==> texts_of(outputs, seq!["$"@ + name])
            == Seq::<Seq<char>>::empty(),
{
    lemma_reference_name(name);
    lemma_of_single(outputs, "$"@ + name);
    match outputs[name] {
        OutputView::Text(texts) => {
            assert(texts_for(outputs, "$"@ + name) =~= Seq::new(
                texts.len(),
                |i: int| "```\n"@ + texts[i] + "\n```"@,
            ));
        },
        _ => {},
    }
}

/// A single input that is no reference stands for the URL it spells, if
/// it spells one, and for no text.
pub proof fn lemma_single_address(outputs: Map<Seq<char>, OutputView>, input: Seq<char>)
    requires
        !is_reference(input),
    ensures
        links_of(outputs, seq![input]) == match parsed_url(input) {
            Some(url) => seq![url],
            None => Seq::<Seq<char>>::empty(),
        },
        texts_of(outputs, seq![input]) == Seq::<Seq<char>>::empty(),
{
    lemma_of_single(outputs, input);
}

/// Finishing a step turns exactly the active outcomes into done ones of the
/// same kind.
pub proof fn lemma_finished_is_done(o: OutcomeView)
    ensures
        finished(o) is Some <==> stage_of(o) == Stage::Active,
        finished(o) matches Some((_, done)) ==> stage_of(done) == Stage::Done,
{
}

/// A copy of `urls` appended to `out`.
fn extend_urls(out: &mut Vec<Url>, urls: &Vec<Url>)
    ensures
        final(out).deep_view() == old(out).deep_view() + urls.deep_view(),
{
    let mut i: usize = 0;
    while i < urls.len()
        invariant
            i <= urls.len(),
            out.deep_view() == old(out).deep_view() + urls.deep_view().take(i as int),
        decreases urls.len() - i,
    {
        let ghost before = out.deep_view();
        out.push(urls[i].clone());
        assert(out.deep_view() =~= before.push(urls@[i as int]@));
        assert(urls.deep_view().take(i + 1) =~= urls.deep_view().take(i as int).push(
            urls@[i as int]@,
        ));
        i += 1;
    }
    assert(urls.deep_view().take(i as int) =~= urls.deep_view());
}

/// The state kept while a plan runs: the outcomes so far, and the outputs
/// of the finished steps by evidence name.
#[derive(Debug)]
pub struct Process {
    outcomes: Vec<Outcome>,
    outputs: Vec<(String, Output)>,
}

/// The mathematical form of a [`Process`].
pub struct ProcessView {
    pub outcomes: Seq<OutcomeView>,
    pub outputs: Map<Seq<char>, OutputView>,
}

impl View for Process {
    type V = ProcessView;

    closed spec fn view(&self) -> ProcessView {
        ProcessView {
            outcomes: self.outcomes.deep_view(),
            outputs: map_of(entry_views(self.outputs@)),
        }
    }
}

/// The outcome that a step starts with, by what it asks for.
pub open spec fn started(action: ActionView) -> Option<OutcomeView> {
    match action {
        ActionView::Search(_) => Some(OutcomeView::Search(StatusView::Active(Seq::empty()))),
        ActionView::ScrapeText(_) => Some(
            OutcomeView::ScrapeText(StatusView::Active(Seq::empty())),
        ),
        ActionView::Answer(_) => Some(
            OutcomeView::Answer(
                StatusView::Active(
                    ReplyView { reasoning: None, content: Seq::empty(), last_token: None },
                ),
            ),
        ),
        ActionView::Skip => None,
    }
}

/// The contents of the summaries, in order.
pub open spec fn contents_of(summaries: Seq<SummaryView>) -> Seq<Seq<char>> {
    summaries.map_values(|s: SummaryView| s.content)
}

/// What an active outcome leaves behind once its step finishes, and the
/// outcome marked done; nothing for an outcome that is not active.
pub open spec fn finished(o: OutcomeView) -> Option<(OutputView, OutcomeView)> {
    match o {
        OutcomeView::Search(StatusView::Active(links)) => Some(
            (OutputView::Links(links), OutcomeView::Search(StatusView::Done(links))),
        ),
        OutcomeView::ScrapeText(StatusView::Active(summaries)) => Some(
            (
                OutputView::Text(contents_of(summaries)),
                OutcomeView::ScrapeText(StatusView::Done(summaries)),
            ),
        ),
        OutcomeView::Answer(StatusView::Active(reply)) => Some(
            (OutputView::Answer, OutcomeView::Answer(StatusView::Done(reply))),
        ),
        _ => None,
    }
}

/// The outcomes with the last one, if any, replaced by `o`.
pub open spec fn replace_last(outcomes: Seq<OutcomeView>, o: OutcomeView) -> Seq<OutcomeView> {
    if outcomes.len() == 0 {
        seq![o]
    } else {
        outcomes.drop_last().push(o)
    }
}

/// The outcomes once each of `updates` in turn replaces the last one (what
/// [`Process::update`] does to them).
pub open spec fn replaced_by_all(outcomes: Seq<OutcomeView>, updates: Seq<OutcomeView>) -> Seq<
    OutcomeView,
>
    decreases updates.len(),
{
    if updates.len() == 0 {
        outcomes
    } else {
        replace_last(replaced_by_all(outcomes, updates.drop_last()), updates.last())
    }
}

/// The outcomes once the last one finishes (what [`Process::done`] does to
/// them): marked done if it is active, dropped otherwise.
pub open spec fn done_last(outcomes: Seq<OutcomeView>) -> Seq<OutcomeView> {
    if outcomes.len() == 0 {
        outcomes
    } else {
        match finished(outcomes.last()) {
            Some((_, done)) => outcomes.drop_last().push(done),
            None => outcomes.drop_last(),
        }
    }
}

/// The outcomes once a step runs to its end: the outcome its action starts
/// with is added, replaced in turn by each of `updates`, then finished; a
/// step whose action starts nothing leaves them as they are.
pub open spec fn after_step(outcomes: Seq<OutcomeView>, action: ActionView, updates: Seq<OutcomeView>) -> Seq<
    OutcomeView,
> {
    match started(action) {
        Some(o) => done_last(replaced_by_all(outcomes.push(o), updates)),
        None => outcomes,
    }
}

/// The outcomes once the steps run in order, step `i` with action
/// `actions[i]` and updates `updates[i]`.
pub open spec fn after_steps(
    outcomes: Seq<OutcomeView>,
    actions: Seq<ActionView>,
    updates: Seq<Seq<OutcomeView>>,
) -> Seq<OutcomeView>
    decreases actions.len(),
{
    if actions.len() == 0 || updates.len() == 0 {
        outcomes
    } else {
        after_step(
            after_steps(outcomes, actions.drop_last(), updates.drop_last()),
            actions.last(),
            updates.last(),
        )
    }
}

/// How many of the actions start an outcome.
pub open spec fn started_count(actions: Seq<ActionView>) -> nat
    decreases actions.len(),
{
    if actions.len() == 0 {
        0
    } else {
        started_count(actions.drop_last()) + if started(actions.last()) is Some {
            1nat
        } else {
            0nat
        }
    }
}

proof fn lemma_replaced_by_active(outcomes: Seq<OutcomeView>, o: OutcomeView, updates: Seq<OutcomeView>)
    ensures
        replaced_by_all(outcomes.push(o), updates) == outcomes.push(
            if updates.len() == 0 {
                o
            } else {
                updates.last()
            },
        ),
    decreases updates.len(),
{
    if updates.len() > 0 {
        lemma_replaced_by_active(outcomes, o, updates.drop_last());
        let inner = if updates.drop_last().len() == 0 {
            o
        } else {
            updates.drop_last().last()
        };
        assert(outcomes.push(inner).drop_last() =~= outcomes);
    }
}

/// A step that runs to its end, its outcome active until it finishes, adds
/// exactly one outcome, done, and leaves the earlier outcomes as they were.
pub proof fn lemma_step_adds_one_done_outcome(
    outcomes: Seq<OutcomeView>,
    action: ActionView,
    updates: Seq<OutcomeView>,
)
    requires
        started(action) is Some,
        forall|j: int| 0 <= j < updates.len() ==> stage_of(#[trigger] updates[j]) == Stage::Active,
    ensures
        after_step(outcomes, action, updates).len() == outcomes.len() + 1,
        after_step(outcomes, action, updates).drop_last() == outcomes,
        stage_of(after_step(outcomes, action, updates).last()) == Stage::Done,
{
    let o = started(action)->0;
    lemma_replaced_by_active(outcomes, o, updates);
    let last = if updates.len() == 0 {
        o
    } else {
        updates.last()
    };
    lemma_finished_is_done(last);
    assert(outcomes.push(last).drop_last() =~= outcomes);
    let done = (finished(last)->0).1;
    assert(outcomes.push(done).drop_last() =~= outcomes);
}

/// Once a plan runs to its end, each step's outcome active until it
/// finishes, there is one outcome for each step whose action starts one, all
/// of them done, after the outcomes there were before.
pub proof fn lemma_plan_outcomes(
    outcomes: Seq<OutcomeView>,
    actions: Seq<ActionView>,
    updates: Seq<Seq<OutcomeView>>,
)
    requires
        updates.len() == actions.len(),
        forall|i: int, j: int|
            0 <= i < updates.len() && 0 <= j < updates[i].len() ==> stage_of(#[trigger] updates[i][j])
                == Stage::Active,
    ensures
        after_steps(outcomes, actions, updates).len() == outcomes.len() + started_count(actions),
        after_steps(outcomes, actions, updates).take(outcomes.len() as int) == outcomes,
        forall|k: int|
            outcomes.len() <= k < after_steps(outcomes, actions, updates).len() ==> stage_of(
                #[trigger] after_steps(outcomes, actions, updates)[k],
            ) == Stage::Done,
    decreases actions.len(),
{
    if actions.len() > 0 {
        let a = actions.drop_last();
        let u = updates.drop_last();
        assert forall|i: int, j: int| 0 <= i < u.len() && 0 <= j < u[i].len() implies stage_of(
            #[trigger] u[i][j],
        ) == Stage::Active by {
            assert(u[i] == updates[i]);
        }
        lemma_plan_outcomes(outcomes, a, u);
        let before = after_steps(outcomes, a, u);
        let last = updates.last();
        if started(actions.last()) is Some {
            assert forall|j: int| 0 <= j < last.len() implies stage_of(#[trigger] last[j])
                == Stage::Active by {
                assert(last == updates[updates.len() - 1]);
            }
            lemma_step_adds_one_done_outcome(before, actions.last(), last);
            let after = after_step(before, actions.last(), last);
            assert(after =~= before.push(after.last()));
            assert(after.take(outcomes.len() as int) =~= before.take(outcomes.len() as int));
        }
    } else {
        assert(outcomes.take(outcomes.len() as int) =~= outcomes);
    }
}

/// The contents of `summaries`, in order.
fn contents(summaries: &Vec<Summary>) -> (texts: Vec<String>)
    ensures
        texts.deep_view() == contents_of(summaries.deep_view()),
{
    let mut texts: Vec<String> = Vec::new();
    let mut i: usize = 0;
    while i < summaries.len()
        invariant
            i <= summaries.len(),
            texts.deep_view() == contents_of(summaries.deep_view().take(i as int)),
        decreases summaries.len() - i,
    {
        let ghost before = texts.deep_view();
        texts.push(summaries[i].content.clone());
        assert(texts.deep_view() =~= before.push(summaries@[i as int].content@));
        assert(contents_of(summaries.deep_view().take(i + 1)) =~= contents_of(
            summaries.deep_view().take(i as int),
        ).push(summaries@[i as int].content@));
        i += 1;
    }
    assert(summaries.deep_view().take(i as int) =~= summaries.deep_view());
    texts
}

impl Process {
    #[verifier::type_invariant]
    spec fn names_are_distinct(&self) -> bool {
        distinct_names(entry_views(self.outputs@))
    }

    /// A process with no outcomes and no outputs.
    pub fn new() -> (p: Process)
        ensures
            p@.outcomes == Seq::<OutcomeView>::empty(),
            p@.outputs == Map::<Seq<char>, OutputView>::empty(),
    {
        let p = Process { outcomes: Vec::new(), outputs: Vec::new() };
        assert(p.outcomes.deep_view() =~= Seq::<OutcomeView>::empty());
        assert(map_of(entry_views(p.outputs@)) =~= Map::<Seq<char>, OutputView>::empty());
        p
    }

    /// The outcomes so far.
    pub fn outcomes(&self) -> (o: &Vec<Outcome>)
        ensures
            o.deep_view() == self@.outcomes,
    {
        &self.outcomes
    }

    /// The outcomes, once the plan has run.
    pub fn into_outcomes(self) -> (o: Vec<Outcome>)
        ensures
            o.deep_view() == self@.outcomes,
    {
        self.outcomes
    }

    /// Takes the outcomes out, leaving none.
    fn take_outcomes(&mut self) -> (o: Vec<Outcome>)
        ensures
            o.deep_view() == old(self)@.outcomes,
            final(self)@.outcomes == Seq::<OutcomeView>::empty(),
            final(self)@.outputs == old(self)@.outputs,
            final(self).outputs == old(self).outputs,
    {
        proof {
            use_type_invariant(&*self);
        }
        let mut outcomes: Vec<Outcome> = Vec::new();
        std::mem::swap(&mut outcomes, &mut self.outcomes);
        assert(self.outcomes.deep_view() =~= Seq::<OutcomeView>::empty());
        outcomes
    }

    /// The position of the output named `name`.
    fn find(&self, name: &str) -> (r: Option<usize>)
        ensures
            match r {
                Some(i) => i < self.outputs.len() && self.outputs@[i as int].0@ == name@,
                None => forall|i: int|
                    0 <= i < self.outputs.len() ==> self.outputs@[i].0@ != name@,
            },
    {
        let mut i: usize = 0;
        while i < self.outputs.len()
            invariant
                i <= self.outputs.len(),
                forall|j: int| 0 <= j < i ==> self.outputs@[j].0@ != name@,
            decreases self.outputs.len() - i,
        {
            if same_text(self.outputs[i].0.as_str(), name) {
                return Some(i);
            }
            i += 1;
        }
        None
    }

    /// The output of the finished step named `name`.
    pub fn output(&self, name: &str) -> (r: Option<&Output>)
        ensures
            r is Some <==> self@.outputs.contains_key(name@),
            r matches Some(o) ==> o@ == self@.outputs[name@],
    {
        proof {
            use_type_invariant(self);
        }
        match self.find(name) {
            Some(i) => {
                proof {
                    lemma_map_lookup(entry_views(self.outputs@), i as int);
                }
                Some(&self.outputs[i].1)
            },
            None => {
                proof {
                    let e = entry_views(self.outputs@);
                    assert forall|j: int| 0 <= j < e.len() implies e[j].0 != name@ by {
                        assert(self.outputs@[j].0@ != name@);
                    }
                    lemma_map_absent(e, name@);
                }
                None
            },
        }
    }

    /// Records `output` under `name`, replacing what was recorded there.
    fn record(&mut self, name: &str, output: Output)
        ensures
            final(self)@.outputs == old(self)@.outputs.insert(name@, output@),
            final(self)@.outcomes == old(self)@.outcomes,
    {
        proof {
            use_type_invariant(&*self);
        }
        let position = self.find(name);
        let mut outputs: Vec<(String, Output)> = Vec::new();
        std::mem::swap(&mut outputs, &mut self.outputs);
        let ghost before = outputs@;
        let ghost output_view = output@;
        match position {
            Some(i) => {
                outputs.set(i, (name.to_owned(), output));
                proof {
                    lemma_map_update(entry_views(before), i as int, output_view);
                    assert(entry_views(outputs@) =~= entry_views(before).update(
                        i as int,
                        (entry_views(before)[i as int].0, output_view),
                    ));
                }
            },
            None => {
                outputs.push((name.to_owned(), output));
                proof {
                    lemma_map_push(entry_views(before), name@, output_view);
                    assert(entry_views(outputs@) =~= entry_views(before).push(
                        (name@, output_view),
                    ));
                }
            },
        }
        self.outputs = outputs;
    }

    /// Adds an outcome; the event announces it.
    pub fn push(&mut self, outcome: Outcome) -> (e: Event)
        ensures
            final(self)@.outcomes == old(self)@.outcomes.push(outcome@),
            final(self)@.outputs == old(self)@.outputs,
            e@ == EventView::OutcomeAdded(outcome@),
    {
        proof {
            use_type_invariant(&*self);
        }
        let event = Event::OutcomeAdded(outcome.clone());
        let mut outcomes = self.take_outcomes();
        let ghost before = outcomes.deep_view();
        outcomes.push(outcome);
        assert(outcomes.deep_view() =~= before.push(outcome@));
        self.outcomes = outcomes;
        event
    }

    /// Adds the outcome that the action starts with, if it starts one.
    pub fn start(&mut self, action: &Action) -> (e: Option<Event>)
        ensures
            match started(action@) {
                Some(o) => {
                    &&& final(self)@.outcomes == old(self)@.outcomes.push(o)
                    &&& final(self)@.outputs == old(self)@.outputs
                    &&& e matches Some(ev) && ev@ == EventView::OutcomeAdded(o)
                },
                None => final(self)@ == old(self)@ && e is None,
            },
    {
        let outcome = match action {
            Action::Search(_) => {
                let links: Vec<Url> = Vec::new();
                assert(links.deep_view() =~= Seq::<Seq<char>>::empty());
                Outcome::Search(Status::Active(links))
            },
            Action::ScrapeText(_) => {
                let summaries: Vec<Summary> = Vec::new();
                assert(summaries.deep_view() =~= Seq::<SummaryView>::empty());
                Outcome::ScrapeText(Status::Active(summaries))
            },
            Action::Answer(_) => Outcome::Answer(Status::Active(Reply::empty())),
            Action::Skip => {
                return None;
            },
        };
        Some(self.push(outcome))
    }

    /// Replaces the last outcome with `outcome`; the event announces the change.
    pub fn update(&mut self, outcome: Outcome) -> (e: Event)
        ensures
            final(self)@.outcomes == replace_last(old(self)@.outcomes, outcome@),
            final(self)@.outputs == old(self)@.outputs,
            e@ == EventView::OutcomeChanged(outcome@),
    {
        proof {
            use_type_invariant(&*self);
        }
        let event = Event::OutcomeChanged(outcome.clone());
        let mut outcomes = self.take_outcomes();
        let ghost before = outcomes.deep_view();
        let _ = outcomes.pop();
        let ghost popped = outcomes.deep_view();
        assert(before.len() > 0 ==> popped =~= before.drop_last());
        outcomes.push(outcome);
        assert(outcomes.deep_view() =~= popped.push(outcome@));
        self.outcomes = outcomes;
        event
    }

    /// Finishes the step named `name`: its active outcome is marked done and
    /// its output recorded under the name. An outcome that is not active is
    /// dropped, and nothing is announced.
    pub fn done(&mut self, name: &str) -> (e: Option<Event>)
        ensures
            old(self)@.outcomes.len() == 0 ==> final(self)@ == old(self)@ && e is None,
            old(self)@.outcomes.len() > 0 ==> match finished(old(self)@.outcomes.last()) {
                Some((output, outcome)) => {
                    &&& final(self)@.outcomes == old(self)@.outcomes.drop_last().push(outcome)
                    &&& final(self)@.outputs == old(self)@.outputs.insert(name@, output)
                    &&& e matches Some(ev) && ev@ == EventView::OutcomeChanged(outcome)
                },
                None => {
                    &&& final(self)@.outcomes == old(self)@.outcomes.drop_last()
                    &&& final(self)@.outputs == old(self)@.outputs
                    &&& e is None
                },
            },
    {
        proof {
            use_type_invariant(&*self);
        }
        let mut outcomes = self.take_outcomes();
        let ghost before = outcomes.deep_view();
        let last = match outcomes.pop() {
            Some(last) => last,
            None => {
                self.outcomes = outcomes;
                return None;
            },
        };
        assert(outcomes.deep_view() =~= before.drop_last());
        self.outcomes = outcomes;
        let (output, outcome) = match last {
            Outcome::Search(Status::Active(links)) => {
                let mut copy: Vec<Url> = Vec::new();
                extend_urls(&mut copy, &links);
                (Output::Links(copy), Outcome::Search(Status::Done(links)))
            },
            Outcome::ScrapeText(Status::Active(summaries)) => (
                Output::Text(contents(&summaries)),
                Outcome::ScrapeText(Status::Done(summaries)),
            ),
            Outcome::Answer(Status::Active(reply)) => (
                Output::Answer,
                Outcome::Answer(Status::Done(reply)),
            ),
            _ => {
                return None;
            },
        };
        self.record(name, output);
        proof {
            use_type_invariant(&*self);
        }
        let event = Event::OutcomeChanged(outcome.clone());
        let mut outcomes = self.take_outcomes();
        let ghost kept = outcomes.deep_view();
        outcomes.push(outcome);
        assert(outcomes.deep_view() =~= kept.push(outcome@));
        self.outcomes = outcomes;
        Some(event)
    }
}

/// What a step asks for: a web search for a query, the text of some pages,
/// an answer to a request, or nothing the runner knows.
#[derive(Debug)]
pub enum Action {
    Search(String),
    ScrapeText(Vec<Url>),
    Answer(Vec<Message>),
    Skip,
}

/// The mathematical form of an [`Action`].
pub enum ActionView {
    Search(Seq<char>),
    ScrapeText(Seq<Seq<char>>),
    Answer(Seq<MessageView>),
    Skip,
}

impl View for Action {
    type V = ActionView;

    open spec fn view(&self) -> ActionView {
        match self {
            Action::Search(q) => ActionView::Search(q@),
            Action::ScrapeText(links) => ActionView::ScrapeText(links.deep_view()),
            Action::Answer(messages) => ActionView::Answer(messages.deep_view()),
            Action::Skip => ActionView::Skip,
        }
    }
}

/// A summary of the steps run so far, one `- description` line each.
pub open spec fn steps_summary(steps: Seq<StepView>) -> Seq<char> {
    text::joined(steps.map_values(|s: StepView| "- "@ + s.description), "\n"@)
}

/// The instruction that precedes the user's request when the answer step runs:
/// the steps run so far and the outputs that the step takes as input.
pub open spec fn answer_prompt(steps: Seq<char>, outputs: Seq<char>) -> Seq<char> {
    "In order to figure out the user's request, you have already performed certain actions to gather information. Here is a summary of the steps executed so far:\n\n"@
        + steps
        + "\n\nThe outputs of the actions considered relevant to the user request are provided next:\n"@
        + outputs + "\nAnalyze the outputs carefully before replying to the user."@
}

/// What step `i` of `steps` asks for, given the outputs of the steps that
/// finished and the user's query.
pub open spec fn action_of(
    outputs: Map<Seq<char>, OutputView>,
    steps: Seq<StepView>,
    i: int,
    query: Seq<char>,
) -> ActionView {
    let step = steps[i];
    if step.function == "search"@ {
        ActionView::Search(
            if step.inputs.len() > 0 {
                step.inputs[0]
            } else {
                Seq::empty()
            },
        )
    } else if step.function == "scrape_text"@ {
        ActionView::ScrapeText(links_of(outputs, step.inputs))
    } else if step.function == "answer"@ {
        ActionView::Answer(
            seq![
                MessageView::System(
                    answer_prompt(
                        steps_summary(steps.take(i)),
                        text::joined(texts_of(outputs, step.inputs), "\n\n"@),
                    ),
                ),
                MessageView::User(query),
            ],
        )
    } else {
        ActionView::Skip
    }
}

/// What a step asks for follows its function: `search` searches for its
/// first input (nothing when it has none), `scrape_text` scrapes the links
/// its inputs stand for, `answer` asks the assistant with an instruction
/// followed by the user's query, and any other function does nothing.
pub proof fn lemma_action_kinds(
    outputs: Map<Seq<char>, OutputView>,
    steps: Seq<StepView>,
    i: int,
    query: Seq<char>,
)
    requires
        0 <= i < steps.len(),
    ensures
        ({
            let step = steps[i];
            let a = action_of(outputs, steps, i, query);
            &&& step.function == "search"@ && step.inputs.len() > 0 ==> a == ActionView::Search(step.inputs[0])
            &&& step.function == "search"@ && step.inputs.len() == 0 ==> a == ActionView::Search(Seq::empty())
            &&& step.function == "scrape_text"@ ==> a == ActionView::ScrapeText(links_of(outputs, step.inputs))
            &&& step.function == "answer"@ ==> (a matches ActionView::Answer(messages) && messages.len() == 2
                && messages[0] is System && messages[1] == MessageView::User(query))
            &&& step.function != "search"@ && step.function != "scrape_text"@ && step.function
                != "answer"@ ==> a == ActionView::Skip
        }),
{
    reveal_strlit("search");
    reveal_strlit("scrape_text");
    reveal_strlit("answer");
    assert("search"@ != "scrape_text"@) by { assert("search"@[1] != "scrape_text"@[1]); }
    assert("search"@ != "answer"@) by { assert("search"@[0] != "answer"@[0]); }
    assert("scrape_text"@ != "answer"@) by { assert("scrape_text"@[0] != "answer"@[0]); }
}

/// `t` inside a fenced block.
fn fence(t: &str) -> (s: String)
    ensures
        s@ == fenced(t@),
{
    let mut s = "```\n".to_owned();
    s.append(t);
    s.append("\n```");
    s
}

/// The summary of the first `count` steps.
fn summarize_steps(steps: &Vec<Step>, count: usize) -> (s: String)
    requires
        count <= steps.len(),
    ensures
        s@ == steps_summary(steps.deep_view().take(count as int)),
{
    let mut lines: Vec<String> = Vec::new();
    let mut j: usize = 0;
    while j < count
        invariant
            j <= count <= steps.len(),
            lines.deep_view() == steps.deep_view().take(j as int).map_values(
                |s: StepView| "- "@ + s.description,
            ),
        decreases count - j,
    {
        let mut line = "- ".to_owned();
        line.append(steps[j].description.as_str());
        let ghost before = lines.deep_view();
        lines.push(line);
        assert(lines.deep_view() =~= before.push(line@));
        assert(steps.deep_view().take(j + 1).map_values(|s: StepView| "- "@ + s.description)
            =~= before.push("- "@ + steps@[j as int].description@));
        j += 1;
    }
    text::join(&lines, "\n")
}

/// The instruction for the answer step.
fn prompt(steps: &str, outputs: &str) -> (s: String)
    ensures
        s@ == answer_prompt(steps@, outputs@),
{
    let mut s = "In order to figure out the user's request, you have already performed certain actions to gather information. Here is a summary of the steps executed so far:\n\n".to_owned();
    s.append(steps);
    s.append(
        "\n\nThe outputs of the actions considered relevant to the user request are provided next:\n",
    );
    s.append(outputs);
    s.append("\nAnalyze the outputs carefully before replying to the user.");
    s
}

impl Process {
    /// Appends the links that one input stands for.
    fn push_links(&self, input: &str, out: &mut Vec<Url>)
        ensures
            final(out).deep_view() == old(out).deep_view() + links_for(self@.outputs, input@),
    {
        if text::starts_with_str(input, "$") {
            let name = text::trim(text::trim_start_matches(input, '$').as_str());
            match self.output(name.as_str()) {
                Some(Output::Links(links)) => extend_urls(out, links),
                _ => {
                    assert(old(out).deep_view() + Seq::<Seq<char>>::empty() =~= old(
                        out,
                    ).deep_view());
                },
            }
        } else {
            match Url::parse(input) {
                Some(url) => {
                    let ghost before = out.deep_view();
                    let ghost u = url@;
                    out.push(url);
                    assert(out.deep_view() =~= before + seq![u]);
                },
                None => {
                    assert(old(out).deep_view() + Seq::<Seq<char>>::empty() =~= old(
                        out,
                    ).deep_view());
                },
            }
        }
    }

    /// The links that `inputs` stand for: `$name` stands for the links that
    /// the step `name` found, anything else for the URL it spells, if any.
    pub fn links(&self, inputs: &Vec<String>) -> (links: Vec<Url>)
        ensures
            links.deep_view() == links_of(self@.outputs, inputs.deep_view()),
    {
        let mut links: Vec<Url> = Vec::new();
        let mut i: usize = 0;
        assert(links.deep_view() =~= Seq::<Seq<char>>::empty());
        while i < inputs.len()
            invariant
                i <= inputs.len(),
                links.deep_view() == links_of(self@.outputs, inputs.deep_view().take(i as int)),
            decreases inputs.len() - i,
        {
            assert(inputs.deep_view().take(i + 1).drop_last() =~= inputs.deep_view().take(
                i as int,
            ));
            self.push_links(inputs[i].as_str(), &mut links);
            i += 1;
        }
        assert(inputs.deep_view().take(i as int) =~= inputs.deep_view());
        links
    }

    /// Appends the fenced texts that one input stands for.
    fn push_texts(&self, input: &str, out: &mut Vec<String>)
        ensures
            final(out).deep_view() == old(out).deep_view() + texts_for(self@.outputs, input@),
    {
        if text::starts_with_str(input, "$") {
            let name = text::trim(text::trim_start_matches(input, '$').as_str());
            match self.output(name.as_str()) {
                Some(Output::Text(texts)) => {
                    let mut k: usize = 0;
                    while k < texts.len()
                        invariant
                            k <= texts.len(),
                            out.deep_view() == old(out).deep_view() + texts.deep_view().take(
                                k as int,
                            ).map_values(|t: Seq<char>| fenced(t)),
                        decreases texts.len() - k,
                    {
                        let ghost before = out.deep_view();
                        let piece = fence(texts[k].as_str());
                        out.push(piece);
                        assert(out.deep_view() =~= before.push(fenced(texts@[k as int]@)));
                        assert(texts.deep_view().take(k + 1).map_values(
                            |t: Seq<char>| fenced(t),
                        ) =~= texts.deep_view().take(k as int).map_values(
                            |t: Seq<char>| fenced(t),
                        ).push(fenced(texts@[k as int]@)));
                        k += 1;
                    }
                    assert(texts.deep_view().take(k as int) =~= texts.deep_view());
                },
                _ => {
                    assert(old(out).deep_view() + Seq::<Seq<char>>::empty() =~= old(
                        out,
                    ).deep_view());
                },
            }
        } else {
            assert(old(out).deep_view() + Seq::<Seq<char>>::empty() =~= old(out).deep_view());
        }
    }

    /// The texts that `inputs` stand for, each in a fenced block: `$name`
    /// stands for the text that the step `name` scraped.
    pub fn text(&self, inputs: &Vec<String>) -> (texts: Vec<String>)
        ensures
            texts.deep_view() == texts_of(self@.outputs, inputs.deep_view()),
    {
        let mut texts: Vec<String> = Vec::new();
        let mut i: usize = 0;
        assert(texts.deep_view() =~= Seq::<Seq<char>>::empty());
        while i < inputs.len()
            invariant
                i <= inputs.len(),
                texts.deep_view() == texts_of(self@.outputs, inputs.deep_view().take(i as int)),
            decreases inputs.len() - i,
        {
            assert(inputs.deep_view().take(i + 1).drop_last() =~= inputs.deep_view().take(
                i as int,
            ));
            self.push_texts(inputs[i].as_str(), &mut texts);
            i += 1;
        }
        assert(inputs.deep_view().take(i as int) =~= inputs.deep_view());
        texts
    }

    /// What step `i` asks for: a search for its first input, the text of the
    /// links its inputs stand for, or an answer to `query` from the steps run
    /// so far and the texts its inputs stand for.
    pub fn action(&self, steps: &Vec<Step>, i: usize, query: &str) -> (a: Action)
        requires
            i < steps.len(),
        ensures
            a@ == action_of(self@.outputs, steps.deep_view(), i as int, query@),
    {
        let step = &steps[i];
        let function = step.function.as_str();
        if same_text(function, "search") {
            if step.inputs.len() > 0 {
                Action::Search(step.inputs[0].clone())
            } else {
                Action::Search(String::new())
            }
        } else if same_text(function, "scrape_text") {
            Action::ScrapeText(self.links(&step.inputs))
        } else if same_text(function, "answer") {
            let summary = summarize_steps(steps, i);
            let outputs = text::join(&self.text(&step.inputs), "\n\n");
            let request = vec![
                Message::System(prompt(summary.as_str(), outputs.as_str())),
                Message::User(query.to_owned()),
            ];
            assert(request.deep_view() =~= seq![
                MessageView::System(answer_prompt(summary@, outputs@)),
                MessageView::User(query@),
            ]);
            Action::Answer(request)
        } else {
            Action::Skip
        }
    }
}

/// The summaries that have arrived, in the order in which their links first
/// reported.
pub open spec fn arrived(slots: Seq<Option<SummaryView>>, order: Seq<usize>) -> Seq<SummaryView>
    decreases order.len(),
{
    if order.len() == 0 {
        Seq::empty()
    } else {
        let rest = arrived(slots, order.drop_last());
        match slots[order.last() as int] {
            Some(s) => rest.push(s),
            None => rest,
        }
    }
}

/// The summaries that have arrived, in the order of their links.
pub open spec fn present(slots: Seq<Option<SummaryView>>) -> Seq<SummaryView>
    decreases slots.len(),
{
    if slots.len() == 0 {
        Seq::empty()
    } else {
        let rest = present(slots.drop_last());
        match slots.last() {
            Some(s) => rest.push(s),
            None => rest,
        }
    }
}

/// The slots once the final results have been stored, in order; a failed
/// link leaves its slot as it was.
pub open spec fn settled(
    slots: Seq<Option<SummaryView>>,
    results: Seq<(usize, Option<SummaryView>)>,
) -> Seq<Option<SummaryView>>
    decreases results.len(),
{
    if results.len() == 0 {
        slots
    } else {
        let before = settled(slots, results.drop_last());
        match results.last().1 {
            Some(s) => before.update(results.last().0 as int, Some(s)),
            None => before,
        }
    }
}

/// The summaries of the links of a scrape step as they arrive: a slot per
/// link, and the order in which the links first reported.
#[derive(Debug)]
pub struct Scrape {
    slots: Vec<Option<Summary>>,
    order: Vec<usize>,
}

/// The mathematical form of a [`Scrape`].
pub struct ScrapeView {
    pub slots: Seq<Option<SummaryView>>,
    pub order: Seq<usize>,
}

impl View for Scrape {
    type V = ScrapeView;

    closed spec fn view(&self) -> ScrapeView {
        ScrapeView { slots: self.slots.deep_view(), order: self.order@ }
    }
}

/// A copy of the summaries in `slots` at the positions `order`.
fn collect_arrived(slots: &Vec<Option<Summary>>, order: &Vec<usize>) -> (r: Vec<Summary>)
    requires
        forall|j: int| 0 <= j < order.len() ==> order@[j] < slots.len(),
    ensures
        r.deep_view() == arrived(slots.deep_view(), order@),
{
    let mut r: Vec<Summary> = Vec::new();
    let mut j: usize = 0;
    while j < order.len()
        invariant
            j <= order.len(),
            forall|k: int| 0 <= k < order.len() ==> order@[k] < slots.len(),
            r.deep_view() == arrived(slots.deep_view(), order@.take(j as int)),
        decreases order.len() - j,
    {
        assert(order@.take(j + 1).drop_last() =~= order@.take(j as int));
        let ghost before = r.deep_view();
        match &slots[order[j]] {
            Some(summary) => {
                r.push(summary.clone());
                assert(r.deep_view() =~= before.push(summary@));
            },
            None => {},
        }
        j += 1;
    }
    assert(order@.take(j as int) =~= order@);
    r
}

/// A copy of the summaries in `slots`, in order.
fn collect_present(slots: &Vec<Option<Summary>>) -> (r: Vec<Summary>)
    ensures
        r.deep_view() == present(slots.deep_view()),
{
    let mut r: Vec<Summary> = Vec::new();
    let mut j: usize = 0;
    while j < slots.len()
        invariant
            j <= slots.len(),
            r.deep_view() == present(slots.deep_view().take(j as int)),
        decreases slots.len() - j,
    {
        assert(slots.deep_view().take(j + 1).drop_last() =~= slots.deep_view().take(j as int));
        let ghost before = r.deep_view();
        match &slots[j] {
            Some(summary) => {
                r.push(summary.clone());
                assert(r.deep_view() =~= before.push(summary@));
            },
            None => {},
        }
        j += 1;
    }
    assert(slots.deep_view().take(j as int) =~= slots.deep_view());
    r
}

impl Scrape {
    #[verifier::type_invariant]
    spec fn positions_in_range(&self) -> bool {
        forall|j: int| 0 <= j < self.order.len() ==> self.order@[j] < self.slots.len()
    }

    /// Nothing has arrived yet for `count` links.
    pub fn new(count: usize) -> (s: Scrape)
        ensures
            s@.slots == Seq::new(count as nat, |i: int| None::<SummaryView>),
            s@.order == Seq::<usize>::empty(),
    {
        let mut slots: Vec<Option<Summary>> = Vec::new();
        let mut i: usize = 0;
        while i < count
            invariant
                i <= count,
                slots.deep_view() == Seq::new(i as nat, |k: int| None::<SummaryView>),
            decreases count - i,
        {
            let ghost before = slots.deep_view();
            slots.push(None);
            assert(slots.deep_view() =~= before.push(None));
            assert(slots.deep_view() =~= Seq::new((i + 1) as nat, |k: int| None::<SummaryView>));
            i += 1;
        }
        Scrape { slots, order: Vec::new() }
    }

    /// Link `i` reports `summary`, so far; the result is what has arrived,
    /// in the order in which the links first reported.
    pub fn progress(&mut self, i: usize, summary: Summary) -> (r: Vec<Summary>)
        requires
            i < old(self)@.slots.len(),
        ensures
            final(self)@.slots == old(self)@.slots.update(i as int, Some(summary@)),
            final(self)@.order == (if old(self)@.order.contains(i) {
                old(self)@.order
            } else {
                old(self)@.order.push(i)
            }),
            r.deep_view() == arrived(final(self)@.slots, final(self)@.order),
    {
        proof {
            use_type_invariant(&*self);
        }
        let mut taken = Scrape { slots: Vec::new(), order: Vec::new() };
        std::mem::swap(&mut taken, self);
        let Scrape { mut slots, mut order } = taken;
        let ghost old_slots = slots.deep_view();
        let ghost s = summary@;
        slots.set(i, Some(summary));
        assert(slots.deep_view() =~= old_slots.update(i as int, Some(s)));
        let mut seen = false;
        let mut j: usize = 0;
        while j < order.len()
            invariant
                j <= order.len(),
                seen <==> exists|k: int| 0 <= k < j && order@[k] == i,
            decreases order.len() - j,
        {
            if order[j] == i {
                seen = true;
            }
            j += 1;
        }
        if !seen {
            order.push(i);
        }
        let r = collect_arrived(&slots, &order);
        *self = Scrape { slots, order };
        r
    }

    /// The final results arrive, in any order; a failed link is `None`. The
    /// result is every summary that arrived, in the order of the links.
    pub fn finish(&mut self, results: Vec<(usize, Option<Summary>)>) -> (r: Vec<Summary>)
        requires
            forall|j: int| 0 <= j < results.len() ==> results@[j].0 < old(self)@.slots.len(),
        ensures
            final(self)@.slots == settled(old(self)@.slots, results.deep_view()),
            final(self)@.order == old(self)@.order,
            r.deep_view() == present(final(self)@.slots),
    {
        proof {
            use_type_invariant(&*self);
        }
        let mut taken = Scrape { slots: Vec::new(), order: Vec::new() };
        std::mem::swap(&mut taken, self);
        let Scrape { mut slots, order } = taken;
        let ghost all = results.deep_view();
        let ghost start = slots.deep_view();
        let mut done: usize = 0;
        while done < results.len()
            invariant
                done <= results.len(),
                all == results.deep_view(),
                slots.len() == start.len(),
                forall|j: int| 0 <= j < results.len() ==> results@[j].0 < start.len(),
                slots.deep_view() == settled(start, all.take(done as int)),
            decreases results.len() - done,
        {
            assert(all.take(done + 1).drop_last() =~= all.take(done as int));
            let ghost before = slots.deep_view();
            let (i, result) = &results[done];
            match result {
                Some(summary) => {
                    slots.set(*i, Some(summary.clone()));
                    assert(slots.deep_view() =~= before.update(*i as int, Some(summary@)));
                },
                None => {},
            }
            done += 1;
        }
        assert(all.take(done as int) =~= all);
        let r = collect_present(&slots);
        *self = Scrape { slots, order };
        r
    }
}

} // verus!
