//! The format in which chats are saved: each chat becomes a [`Value`] of
//! named fields, and reads back from one.
use vstd::prelude::*;
use crate::address::Url;
use crate::assistant::{Reasoning, ReasoningView, Reply, ReplyView};
use crate::chat::{Chat, ChatView, Id, Item, ItemView, uuid_text};
use crate::duration::Duration;
use crate::model::{File, FileView};
use crate::plan::{Outcome, OutcomeView, Plan, PlanView, Status, StatusView, Step, StepView};
use crate::address::parsed_url;
use crate::chat::id_of;
use crate::duration::NANOS_PER_SEC;
use crate::value::{DecodeError, Value, ValueView, field_views_of, fields_of, lemma_field_views_of, lemma_views_of, optional, required, text_of, u32_of, unsigned_of, views_of};
use crate::value;
use crate::web::{Summary, SummaryView};

verus! {

/// Encodes a text.
pub open spec fn text_encoder() -> spec_fn(Seq<char>) -> ValueView {
    |s: Seq<char>| text_value(s)
}

/// Encodes a reasoning.
pub open spec fn reasoning_encoder() -> spec_fn(ReasoningView) -> ValueView {
    |r: ReasoningView| reasoning_value(r)
}

/// Encodes a summary.
pub open spec fn summary_encoder() -> spec_fn(SummaryView) -> ValueView {
    |s: SummaryView| summary_value(s)
}

/// Encodes a list of URLs.
pub open spec fn urls_encoder() -> spec_fn(Seq<Seq<char>>) -> ValueView {
    |u: Seq<Seq<char>>| urls_value(u)
}

/// Encodes a list of summaries.
pub open spec fn summaries_encoder() -> spec_fn(Seq<SummaryView>) -> ValueView {
    |u: Seq<SummaryView>| summaries_value(u)
}

/// Encodes a reply.
pub open spec fn reply_encoder() -> spec_fn(ReplyView) -> ValueView {
    |r: ReplyView| reply_value(r)
}

/// Encodes a step.
pub open spec fn step_encoder() -> spec_fn(StepView) -> ValueView {
    |s: StepView| step_value(s)
}

/// Encodes an outcome.
pub open spec fn outcome_encoder() -> spec_fn(OutcomeView) -> ValueView {
    |o: OutcomeView| outcome_value(o)
}

/// Encodes a history item.
pub open spec fn item_encoder() -> spec_fn(ItemView) -> ValueView {
    |i: ItemView| item_value(i)
}

/// `f` applied to the value, or null.
pub open spec fn optional_value<T>(o: Option<T>, f: spec_fn(T) -> ValueView) -> ValueView {
    match o {
        Some(x) => f(x),
        None => ValueView::Null,
    }
}

/// A text value.
pub open spec fn text_value(s: Seq<char>) -> ValueView {
    ValueView::Text(s)
}

/// The encoding of a duration: `secs` and `nanos`.
pub open spec fn duration_value(d: Duration) -> ValueView {
    ValueView::Fields(
        seq![
            ("secs"@, ValueView::Unsigned(d.secs_of())),
            ("nanos"@, ValueView::Unsigned(d.nanos_of() as u64)),
        ],
    )
}

/// The encoding of a reasoning: `content` and `duration`.
pub open spec fn reasoning_value(r: ReasoningView) -> ValueView {
    ValueView::Fields(
        seq![("content"@, ValueView::Text(r.content)), ("duration"@, duration_value(r.duration))],
    )
}

/// The fields of a reply: `reasoning` (or null) and `content`.
pub open spec fn reply_fields(r: ReplyView) -> Seq<(Seq<char>, ValueView)> {
    seq![
        ("reasoning"@, optional_value(r.reasoning, reasoning_encoder())),
        ("content"@, ValueView::Text(r.content)),
    ]
}

/// The encoding of a step.
pub open spec fn step_value(s: StepView) -> ValueView {
    ValueView::Fields(
        seq![
            ("evidence"@, ValueView::Text(s.evidence)),
            ("description"@, ValueView::Text(s.description)),
            ("function"@, ValueView::Text(s.function)),
            ("inputs"@, ValueView::Sequence(s.inputs.map_values(text_encoder()))),
        ],
    )
}

/// The encoding of a web summary: `url` and `content`.
pub open spec fn summary_value(s: SummaryView) -> ValueView {
    ValueView::Fields(seq![("url"@, ValueView::Text(s.url)), ("content"@, ValueView::Text(s.content))])
}

/// The encoding of a list of URLs.
pub open spec fn urls_value(urls: Seq<Seq<char>>) -> ValueView {
    ValueView::Sequence(urls.map_values(text_encoder()))
}

/// The encoding of a list of summaries.
pub open spec fn summaries_value(summaries: Seq<SummaryView>) -> ValueView {
    ValueView::Sequence(summaries.map_values(summary_encoder()))
}

/// The encoding of a reply.
pub open spec fn reply_value(r: ReplyView) -> ValueView {
    ValueView::Fields(reply_fields(r))
}

/// The fields of a status: `status` (`active`, `done` or `error`) and
/// `output` (the output encoded by `f`, or the error).
pub open spec fn status_fields<V>(s: StatusView<V>, f: spec_fn(V) -> ValueView) -> Seq<
    (Seq<char>, ValueView),
> {
    match s {
        StatusView::Active(v) => seq![("status"@, ValueView::Text("active"@)), ("output"@, f(v))],
        StatusView::Done(v) => seq![("status"@, ValueView::Text("done"@)), ("output"@, f(v))],
        StatusView::Errored(e) => seq![
            ("status"@, ValueView::Text("error"@)),
            ("output"@, ValueView::Text(e)),
        ],
    }
}

/// The encoding of an outcome: its `type` tag followed by its status.
pub open spec fn outcome_value(o: OutcomeView) -> ValueView {
    match o {
        OutcomeView::Search(s) => ValueView::Fields(
            seq![("type"@, ValueView::Text("search"@))] + status_fields(
                s,
                urls_encoder(),
            ),
        ),
        OutcomeView::ScrapeText(s) => ValueView::Fields(
            seq![("type"@, ValueView::Text("scrape_text"@))] + status_fields(
                s,
                summaries_encoder(),
            ),
        ),
        OutcomeView::Answer(s) => ValueView::Fields(
            seq![("type"@, ValueView::Text("answer"@))] + status_fields(
                s,
                reply_encoder(),
            ),
        ),
    }
}

/// The fields of a plan: `reasoning` (or null), `steps` and `outcomes`.
pub open spec fn plan_fields(p: PlanView) -> Seq<(Seq<char>, ValueView)> {
    seq![
        ("reasoning"@, optional_value(p.reasoning, reasoning_encoder())),
        ("steps"@, ValueView::Sequence(p.steps.map_values(step_encoder()))),
        ("outcomes"@, ValueView::Sequence(p.outcomes.map_values(outcome_encoder()))),
    ]
}

/// The encoding of a history item: its `type` tag (`user`, `reply` or
/// `plan`) followed by its fields.
pub open spec fn item_value(i: ItemView) -> ValueView {
    match i {
        ItemView::User(m) => ValueView::Fields(
            seq![("type"@, ValueView::Text("user"@)), ("message"@, ValueView::Text(m))],
        ),
        ItemView::Reply(r) => ValueView::Fields(
            seq![("type"@, ValueView::Text("reply"@))] + reply_fields(r),
        ),
        ItemView::Plan(p) => ValueView::Fields(
            seq![("type"@, ValueView::Text("plan"@))] + plan_fields(p),
        ),
    }
}

/// The encoding of a model file: `model` and `name`.
pub open spec fn file_value(f: FileView) -> ValueView {
    ValueView::Fields(seq![("model"@, ValueView::Text(f.model)), ("name"@, ValueView::Text(f.name))])
}

/// The encoding of a chat: `id` (a hyphenated UUID), `file`, `title` (or null)
/// and `history`.
pub open spec fn chat_value(c: ChatView) -> ValueView {
    ValueView::Fields(
        seq![
            ("id"@, ValueView::Text(uuid_text(c.id.0))),
            ("file"@, file_value(c.file)),
            ("title"@, optional_value(c.title, text_encoder())),
            ("history"@, ValueView::Sequence(c.history.map_values(item_encoder()))),
        ],
    )
}

/// Whether the entries of `fields` have the forms `expected`.
pub open spec fn entries_are(fields: Seq<(String, Value)>, expected: Seq<(Seq<char>, ValueView)>) -> bool {
    &&& fields.len() == expected.len()
    &&& forall|i: int| 0 <= i < fields.len() ==> (#[trigger] fields[i].0@, fields[i].1@) == expected[i]
}

fn fields_value(fields: Vec<(String, Value)>, Ghost(expected): Ghost<Seq<(Seq<char>, ValueView)>>) -> (v: Value)
    requires
        entries_are(fields@, expected),
    ensures
        v@ == ValueView::Fields(expected),
{
    proof {
        lemma_field_views_of(fields@);
        assert(field_views_of(fields@) =~= expected);
    }
    Value::Fields(fields)
}

fn sequence_value(items: Vec<Value>, Ghost(expected): Ghost<Seq<ValueView>>) -> (v: Value)
    requires
        items@.len() == expected.len(),
        forall|i: int| 0 <= i < items@.len() ==> #[trigger] items@[i]@ == expected[i],
    ensures
        v@ == ValueView::Sequence(expected),
{
    proof {
        lemma_views_of(items@);
        assert forall|i: int| 0 <= i < items@.len() implies views_of(items@)[i] == expected[i] by {
            assert(items@[i]@ == expected[i]);
        }
        assert(views_of(items@) =~= expected);
    }
    Value::Sequence(items)
}

fn push_entry(fields: &mut Vec<(String, Value)>, key: &str, value: Value, Ghost(expected): Ghost<Seq<(Seq<char>, ValueView)>>)
    requires
        entries_are(old(fields)@, expected),
    ensures
        entries_are(final(fields)@, expected.push((key@, value@))),
{
    fields.push((key.to_owned(), value));
    assert(final(fields)@.last().0@ == key@);
}

fn encode_duration(d: Duration) -> (v: Value)
    ensures
        v@ == duration_value(d),
{
    let mut fields: Vec<(String, Value)> = Vec::new();
    push_entry(&mut fields, "secs", Value::Unsigned(d.as_secs()), Ghost(Seq::empty()));
    let ghost e1 = seq![("secs"@, ValueView::Unsigned(d.secs_of()))];
    push_entry(&mut fields, "nanos", Value::Unsigned(d.subsec_nanos() as u64), Ghost(e1));
    { let ghost e = seq![
        ("secs"@, ValueView::Unsigned(d.secs_of())),
        ("nanos"@, ValueView::Unsigned(d.nanos_of() as u64)),
    ]; fields_value(fields, Ghost(e)) }
}

fn encode_reasoning(r: &Reasoning) -> (v: Value)
    ensures
        v@ == reasoning_value(r@),
{
    let mut fields: Vec<(String, Value)> = Vec::new();
    push_entry(&mut fields, "content", Value::Text(r.content.clone()), Ghost(Seq::empty()));
    let ghost e1 = seq![("content"@, ValueView::Text(r.content@))];
    push_entry(&mut fields, "duration", encode_duration(r.duration), Ghost(e1));
    { let ghost e = seq![
        ("content"@, ValueView::Text(r.content@)),
        ("duration"@, duration_value(r.duration)),
    ]; fields_value(fields, Ghost(e)) }
}

fn encode_optional_reasoning(r: &Option<Reasoning>) -> (v: Value)
    ensures
        v@ == optional_value(r.deep_view(), reasoning_encoder()),
{
    match r {
        Some(r) => encode_reasoning(r),
        None => Value::Null,
    }
}

fn push_reply_entries(fields: &mut Vec<(String, Value)>, r: &Reply, Ghost(before): Ghost<Seq<(Seq<char>, ValueView)>>)
    requires
        entries_are(old(fields)@, before),
    ensures
        entries_are(final(fields)@, before + reply_fields(r@)),
{
    push_entry(fields, "reasoning", encode_optional_reasoning(&r.reasoning), Ghost(before));
    let ghost mid = before.push(("reasoning"@, optional_value(r@.reasoning, reasoning_encoder())));
    push_entry(fields, "content", Value::Text(r.content.clone()), Ghost(mid));
    assert(mid.push(("content"@, ValueView::Text(r.content@))) =~= before + reply_fields(r@));
}

fn encode_reply(r: &Reply) -> (v: Value)
    ensures
        v@ == reply_value(r@),
{
    let mut fields: Vec<(String, Value)> = Vec::new();
    push_reply_entries(&mut fields, r, Ghost(Seq::empty()));
    assert(Seq::<(Seq<char>, ValueView)>::empty() + reply_fields(r@) =~= reply_fields(r@));
    fields_value(fields, Ghost(reply_fields(r@)))
}

fn encode_texts(texts: &Vec<String>) -> (v: Value)
    ensures
        v@ == ValueView::Sequence(texts.deep_view().map_values(text_encoder())),
{
    let ghost expected = texts.deep_view().map_values(text_encoder());
    let mut items: Vec<Value> = Vec::new();
    let mut i: usize = 0;
    while i < texts.len()
        invariant
            i <= texts.len(),
            expected == texts.deep_view().map_values(text_encoder()),
            items@.len() == i,
            forall|j: int| 0 <= j < i ==> #[trigger] items@[j]@ == expected[j],
        decreases texts.len() - i,
    {
        items.push(Value::Text(texts[i].clone()));
        i += 1;
    }
    sequence_value(items, Ghost(expected))
}

fn encode_urls(urls: &Vec<Url>) -> (v: Value)
    ensures
        v@ == urls_value(urls.deep_view()),
{
    let ghost expected = urls.deep_view().map_values(text_encoder());
    let mut items: Vec<Value> = Vec::new();
    let mut i: usize = 0;
    while i < urls.len()
        invariant
            i <= urls.len(),
            expected == urls.deep_view().map_values(text_encoder()),
            items@.len() == i,
            forall|j: int| 0 <= j < i ==> #[trigger] items@[j]@ == expected[j],
        decreases urls.len() - i,
    {
        items.push(Value::Text(urls[i].as_str().to_owned()));
        i += 1;
    }
    sequence_value(items, Ghost(expected))
}

fn encode_summary(s: &Summary) -> (v: Value)
    ensures
        v@ == summary_value(s@),
{
    let mut fields: Vec<(String, Value)> = Vec::new();
    push_entry(&mut fields, "url", Value::Text(s.url.as_str().to_owned()), Ghost(Seq::empty()));
    let ghost e1 = seq![("url"@, ValueView::Text(s.url@))];
    push_entry(&mut fields, "content", Value::Text(s.content.clone()), Ghost(e1));
    { let ghost e = seq![("url"@, ValueView::Text(s.url@)), ("content"@, ValueView::Text(s.content@))]; fields_value(fields, Ghost(e)) }
}

fn encode_summaries(summaries: &Vec<Summary>) -> (v: Value)
    ensures
        v@ == summaries_value(summaries.deep_view()),
{
    let ghost expected = summaries.deep_view().map_values(summary_encoder());
    let mut items: Vec<Value> = Vec::new();
    let mut i: usize = 0;
    while i < summaries.len()
        invariant
            i <= summaries.len(),
            expected == summaries.deep_view().map_values(summary_encoder()),
            items@.len() == i,
            forall|j: int| 0 <= j < i ==> #[trigger] items@[j]@ == expected[j],
        decreases summaries.len() - i,
    {
        items.push(encode_summary(&summaries[i]));
        i += 1;
    }
    sequence_value(items, Ghost(expected))
}

fn encode_step(s: &Step) -> (v: Value)
    ensures
        v@ == step_value(s@),
{
    let mut fields: Vec<(String, Value)> = Vec::new();
    let ghost e0 = Seq::<(Seq<char>, ValueView)>::empty();
    push_entry(&mut fields, "evidence", Value::Text(s.evidence.clone()), Ghost(e0));
    let ghost e1 = e0.push(("evidence"@, ValueView::Text(s.evidence@)));
    push_entry(&mut fields, "description", Value::Text(s.description.clone()), Ghost(e1));
    let ghost e2 = e1.push(("description"@, ValueView::Text(s.description@)));
    push_entry(&mut fields, "function", Value::Text(s.function.clone()), Ghost(e2));
    let ghost e3 = e2.push(("function"@, ValueView::Text(s.function@)));
    push_entry(&mut fields, "inputs", encode_texts(&s.inputs), Ghost(e3));
    let ghost e4 = e3.push(("inputs"@, ValueView::Sequence(s@.inputs.map_values(text_encoder()))));
    assert(e4 =~= seq![
        ("evidence"@, ValueView::Text(s@.evidence)),
        ("description"@, ValueView::Text(s@.description)),
        ("function"@, ValueView::Text(s@.function)),
        ("inputs"@, ValueView::Sequence(s@.inputs.map_values(text_encoder()))),
    ]);
    fields_value(fields, Ghost(e4))
}

fn push_status_entries_urls(fields: &mut Vec<(String, Value)>, s: &Status<Vec<Url>>, Ghost(before): Ghost<Seq<(Seq<char>, ValueView)>>)
    requires
        entries_are(old(fields)@, before),
    ensures
        entries_are(final(fields)@, before + status_fields(s@, urls_encoder())),
{
    let (status, output) = match s {
        Status::Active(v) => ("active", encode_urls(v)),
        Status::Done(v) => ("done", encode_urls(v)),
        Status::Errored(e) => ("error", Value::Text(e.clone())),
    };
    push_entry(fields, "status", Value::Text(status.to_owned()), Ghost(before));
    push_entry(fields, "output", output, Ghost(before.push(("status"@, ValueView::Text(status@)))));
    assert(before.push(("status"@, ValueView::Text(status@))).push(("output"@, output@)) =~= before + status_fields(s@, urls_encoder()));
}

fn push_status_entries_summaries(fields: &mut Vec<(String, Value)>, s: &Status<Vec<Summary>>, Ghost(before): Ghost<Seq<(Seq<char>, ValueView)>>)
    requires
        entries_are(old(fields)@, before),
    ensures
        entries_are(final(fields)@, before + status_fields(s@, summaries_encoder())),
{
    let (status, output) = match s {
        Status::Active(v) => ("active", encode_summaries(v)),
        Status::Done(v) => ("done", encode_summaries(v)),
        Status::Errored(e) => ("error", Value::Text(e.clone())),
    };
    push_entry(fields, "status", Value::Text(status.to_owned()), Ghost(before));
    push_entry(fields, "output", output, Ghost(before.push(("status"@, ValueView::Text(status@)))));
    assert(before.push(("status"@, ValueView::Text(status@))).push(("output"@, output@)) =~= before + status_fields(s@, summaries_encoder()));
}

fn push_status_entries_reply(fields: &mut Vec<(String, Value)>, s: &Status<Reply>, Ghost(before): Ghost<Seq<(Seq<char>, ValueView)>>)
    requires
        entries_are(old(fields)@, before),
    ensures
        entries_are(final(fields)@, before + status_fields(s@, reply_encoder())),
{
    let (status, output) = match s {
        Status::Active(v) => ("active", encode_reply(v)),
        Status::Done(v) => ("done", encode_reply(v)),
        Status::Errored(e) => ("error", Value::Text(e.clone())),
    };
    push_entry(fields, "status", Value::Text(status.to_owned()), Ghost(before));
    push_entry(fields, "output", output, Ghost(before.push(("status"@, ValueView::Text(status@)))));
    assert(before.push(("status"@, ValueView::Text(status@))).push(("output"@, output@)) =~= before + status_fields(s@, reply_encoder()));
}

fn encode_outcome(o: &Outcome) -> (v: Value)
    ensures
        v@ == outcome_value(o@),
{
    let mut fields: Vec<(String, Value)> = Vec::new();
    let ghost e0 = Seq::<(Seq<char>, ValueView)>::empty();
    match o {
        Outcome::Search(s) => {
            push_entry(&mut fields, "type", Value::Text("search".to_owned()), Ghost(e0));
            let ghost e1 = seq![("type"@, ValueView::Text("search"@))];
            assert(e0.push(("type"@, ValueView::Text("search"@))) =~= e1);
            push_status_entries_urls(&mut fields, s, Ghost(e1));
            fields_value(fields, Ghost(e1 + status_fields(s@, urls_encoder())))
        },
        Outcome::ScrapeText(s) => {
            push_entry(&mut fields, "type", Value::Text("scrape_text".to_owned()), Ghost(e0));
            let ghost e1 = seq![("type"@, ValueView::Text("scrape_text"@))];
            assert(e0.push(("type"@, ValueView::Text("scrape_text"@))) =~= e1);
            push_status_entries_summaries(&mut fields, s, Ghost(e1));
            fields_value(fields, Ghost(e1 + status_fields(s@, summaries_encoder())))
        },
        Outcome::Answer(s) => {
            push_entry(&mut fields, "type", Value::Text("answer".to_owned()), Ghost(e0));
            let ghost e1 = seq![("type"@, ValueView::Text("answer"@))];
            assert(e0.push(("type"@, ValueView::Text("answer"@))) =~= e1);
            push_status_entries_reply(&mut fields, s, Ghost(e1));
            fields_value(fields, Ghost(e1 + status_fields(s@, reply_encoder())))
        },
    }
}

fn encode_steps(steps: &Vec<Step>) -> (v: Value)
    ensures
        v@ == ValueView::Sequence(steps.deep_view().map_values(step_encoder())),
{
    let ghost expected = steps.deep_view().map_values(step_encoder());
    let mut items: Vec<Value> = Vec::new();
    let mut i: usize = 0;
    while i < steps.len()
        invariant
            i <= steps.len(),
            expected == steps.deep_view().map_values(step_encoder()),
            items@.len() == i,
            forall|j: int| 0 <= j < i ==> #[trigger] items@[j]@ == expected[j],
        decreases steps.len() - i,
    {
        items.push(encode_step(&steps[i]));
        i += 1;
    }
    sequence_value(items, Ghost(expected))
}

fn encode_outcomes(outcomes: &Vec<Outcome>) -> (v: Value)
    ensures
        v@ == ValueView::Sequence(outcomes.deep_view().map_values(outcome_encoder())),
{
    let ghost expected = outcomes.deep_view().map_values(outcome_encoder());
    let mut items: Vec<Value> = Vec::new();
    let mut i: usize = 0;
    while i < outcomes.len()
        invariant
            i <= outcomes.len(),
            expected == outcomes.deep_view().map_values(outcome_encoder()),
            items@.len() == i,
            forall|j: int| 0 <= j < i ==> #[trigger] items@[j]@ == expected[j],
        decreases outcomes.len() - i,
    {
        items.push(encode_outcome(&outcomes[i]));
        i += 1;
    }
    sequence_value(items, Ghost(expected))
}

fn push_plan_entries(fields: &mut Vec<(String, Value)>, p: &Plan, Ghost(before): Ghost<Seq<(Seq<char>, ValueView)>>)
    requires
        entries_are(old(fields)@, before),
    ensures
        entries_are(final(fields)@, before + plan_fields(p@)),
{
    push_entry(fields, "reasoning", encode_optional_reasoning(&p.reasoning), Ghost(before));
    let ghost e1 = before.push(("reasoning"@, optional_value(p@.reasoning, reasoning_encoder())));
    push_entry(fields, "steps", encode_steps(&p.steps), Ghost(e1));
    let ghost e2 = e1.push(("steps"@, ValueView::Sequence(p@.steps.map_values(step_encoder()))));
    push_entry(fields, "outcomes", encode_outcomes(&p.outcomes), Ghost(e2));
    let ghost e3 = e2.push(("outcomes"@, ValueView::Sequence(p@.outcomes.map_values(outcome_encoder()))));
    assert(e3 =~= before + plan_fields(p@));
}

fn encode_item(item: &Item) -> (v: Value)
    ensures
        v@ == item_value(item@),
{
    let mut fields: Vec<(String, Value)> = Vec::new();
    let ghost e0 = Seq::<(Seq<char>, ValueView)>::empty();
    match item {
        Item::User(m) => {
            push_entry(&mut fields, "type", Value::Text("user".to_owned()), Ghost(e0));
            let ghost e1 = e0.push(("type"@, ValueView::Text("user"@)));
            push_entry(&mut fields, "message", Value::Text(m.clone()), Ghost(e1));
            let ghost e2 = e1.push(("message"@, ValueView::Text(m@)));
            assert(e2 =~= seq![("type"@, ValueView::Text("user"@)), ("message"@, ValueView::Text(m@))]);
            fields_value(fields, Ghost(e2))
        },
        Item::Reply(r) => {
            push_entry(&mut fields, "type", Value::Text("reply".to_owned()), Ghost(e0));
            let ghost e1 = seq![("type"@, ValueView::Text("reply"@))];
            assert(e0.push(("type"@, ValueView::Text("reply"@))) =~= e1);
            push_reply_entries(&mut fields, r, Ghost(e1));
            fields_value(fields, Ghost(e1 + reply_fields(r@)))
        },
        Item::Plan(p) => {
            push_entry(&mut fields, "type", Value::Text("plan".to_owned()), Ghost(e0));
            let ghost e1 = seq![("type"@, ValueView::Text("plan"@))];
            assert(e0.push(("type"@, ValueView::Text("plan"@))) =~= e1);
            push_plan_entries(&mut fields, p, Ghost(e1));
            fields_value(fields, Ghost(e1 + plan_fields(p@)))
        },
    }
}

fn encode_file(f: &File) -> (v: Value)
    ensures
        v@ == file_value(f@),
{
    let mut fields: Vec<(String, Value)> = Vec::new();
    push_entry(&mut fields, "model", Value::Text(f.model.0.clone()), Ghost(Seq::empty()));
    let ghost e1 = seq![("model"@, ValueView::Text(f.model@))];
    push_entry(&mut fields, "name", Value::Text(f.name.clone()), Ghost(e1));
    { let ghost e = seq![("model"@, ValueView::Text(f.model@)), ("name"@, ValueView::Text(f.name@))]; fields_value(fields, Ghost(e)) }
}

/// Encodes a chat.
pub fn encode(chat: &Chat) -> (v: Value)
    ensures
        v@ == chat_value(chat@),
{
    let ghost expected = chat@.history.map_values(item_encoder());
    let mut items: Vec<Value> = Vec::new();
    let mut i: usize = 0;
    while i < chat.history.len()
        invariant
            i <= chat.history.len(),
            expected == chat@.history.map_values(item_encoder()),
            items@.len() == i,
            forall|j: int| 0 <= j < i ==> #[trigger] items@[j]@ == expected[j],
        decreases chat.history.len() - i,
    {
        items.push(encode_item(&chat.history[i]));
        i += 1;
    }
    let history = sequence_value(items, Ghost(expected));
    let title = match &chat.title {
        Some(t) => Value::Text(t.clone()),
        None => Value::Null,
    };
    let mut fields: Vec<(String, Value)> = Vec::new();
    let ghost e0 = Seq::<(Seq<char>, ValueView)>::empty();
    push_entry(&mut fields, "id", Value::Text(chat.id.to_text()), Ghost(e0));
    let ghost e1 = e0.push(("id"@, ValueView::Text(uuid_text(chat.id.0))));
    push_entry(&mut fields, "file", encode_file(&chat.file), Ghost(e1));
    let ghost e2 = e1.push(("file"@, file_value(chat@.file)));
    push_entry(&mut fields, "title", title, Ghost(e2));
    let ghost e3 = e2.push(("title"@, optional_value(chat@.title, text_encoder())));
    push_entry(&mut fields, "history", history, Ghost(e3));
    let ghost e4 = e3.push(("history"@, ValueView::Sequence(expected)));
    assert(e4 =~= seq![
        ("id"@, ValueView::Text(uuid_text(chat@.id.0))),
        ("file"@, file_value(chat@.file)),
        ("title"@, optional_value(chat@.title, text_encoder())),
        ("history"@, ValueView::Sequence(chat@.history.map_values(item_encoder()))),
    ]);
    fields_value(fields, Ghost(e4))
}

/// Decodes a text.
pub open spec fn text_decoder() -> spec_fn(ValueView) -> Result<Seq<char>, DecodeError> {
    |v: ValueView| text_of(v)
}

/// Decodes a reasoning.
pub open spec fn reasoning_decoder() -> spec_fn(ValueView) -> Result<ReasoningView, DecodeError> {
    |v: ValueView| decode_reasoning(v)
}

/// Decodes a URL.
pub open spec fn url_decoder() -> spec_fn(ValueView) -> Result<Seq<char>, DecodeError> {
    |v: ValueView| decode_url(v)
}

/// Decodes a summary.
pub open spec fn summary_decoder() -> spec_fn(ValueView) -> Result<SummaryView, DecodeError> {
    |v: ValueView| decode_summary(v)
}

/// Decodes a list of URLs.
pub open spec fn urls_decoder() -> spec_fn(ValueView) -> Result<Seq<Seq<char>>, DecodeError> {
    |v: ValueView| decode_urls(v)
}

/// Decodes a list of summaries.
pub open spec fn summaries_decoder() -> spec_fn(ValueView) -> Result<Seq<SummaryView>, DecodeError> {
    |v: ValueView| decode_summaries(v)
}

/// Decodes a reply.
pub open spec fn reply_decoder() -> spec_fn(ValueView) -> Result<ReplyView, DecodeError> {
    |v: ValueView| decode_reply(v)
}

/// Decodes a step.
pub open spec fn step_decoder() -> spec_fn(ValueView) -> Result<StepView, DecodeError> {
    |v: ValueView| decode_step(v)
}

/// Decodes an outcome.
pub open spec fn outcome_decoder() -> spec_fn(ValueView) -> Result<OutcomeView, DecodeError> {
    |v: ValueView| decode_outcome(v)
}

/// Decodes a history item.
pub open spec fn item_decoder() -> spec_fn(ValueView) -> Result<ItemView, DecodeError> {
    |v: ValueView| decode_item(v)
}

/// The values that `f` decodes from `items`, or the first error.
pub open spec fn decode_all<T>(items: Seq<ValueView>, f: spec_fn(ValueView) -> Result<T, DecodeError>) -> Result<Seq<T>, DecodeError>
    decreases items.len(),
{
    if items.len() == 0 {
        Ok(Seq::empty())
    } else {
        match f(items[0]) {
            Err(e) => Err(e),
            Ok(x) => match decode_all(items.drop_first(), f) {
                Err(e) => Err(e),
                Ok(xs) => Ok(seq![x] + xs),
            },
        }
    }
}

/// The values that `f` decodes from the sequence `v`.
pub open spec fn decode_sequence<T>(v: ValueView, f: spec_fn(ValueView) -> Result<T, DecodeError>) -> Result<Seq<T>, DecodeError> {
    match v {
        ValueView::Sequence(items) => decode_all(items, f),
        _ => Err(DecodeError::InvalidType),
    }
}

/// The value that `f` decodes from the optional field `key`: none when it is
/// missing or null.
pub open spec fn decode_optional<T>(
    fields: Seq<(Seq<char>, ValueView)>,
    key: Seq<char>,
    f: spec_fn(ValueView) -> Result<T, DecodeError>,
) -> Result<Option<T>, DecodeError> {
    match optional(fields, key) {
        None => Ok(None),
        Some(v) => match f(v) {
            Err(e) => Err(e),
            Ok(x) => Ok(Some(x)),
        },
    }
}

/// The text of the required field `key`.
pub open spec fn required_text(fields: Seq<(Seq<char>, ValueView)>, key: Seq<char>) -> Result<Seq<char>, DecodeError> {
    match required(fields, key) {
        Err(e) => Err(e),
        Ok(v) => text_of(v),
    }
}

/// Decodes a duration.
pub open spec fn decode_duration(v: ValueView) -> Result<Duration, DecodeError> {
    match fields_of(v) {
        Err(e) => Err(e),
        Ok(f) => match required(f, "secs"@) {
            Err(e) => Err(e),
            Ok(s) => match unsigned_of(s) {
                Err(e) => Err(e),
                Ok(secs) => match required(f, "nanos"@) {
                    Err(e) => Err(e),
                    Ok(n) => match u32_of(n) {
                        Err(e) => Err(e),
                        Ok(nanos) => if secs + nanos / NANOS_PER_SEC > u64::MAX {
                            Err(DecodeError::DurationOverflow)
                        } else {
                            Ok(Duration::from_parts(secs, nanos))
                        },
                    },
                },
            },
        },
    }
}

/// Decodes a reasoning.
pub open spec fn decode_reasoning(v: ValueView) -> Result<ReasoningView, DecodeError> {
    match fields_of(v) {
        Err(e) => Err(e),
        Ok(f) => match required_text(f, "content"@) {
            Err(e) => Err(e),
            Ok(content) => match required(f, "duration"@) {
                Err(e) => Err(e),
                Ok(d) => match decode_duration(d) {
                    Err(e) => Err(e),
                    Ok(duration) => Ok(ReasoningView { content, duration }),
                },
            },
        },
    }
}

/// Decodes the fields of a reply.
pub open spec fn decode_reply_fields(f: Seq<(Seq<char>, ValueView)>) -> Result<ReplyView, DecodeError> {
    match decode_optional(f, "reasoning"@, reasoning_decoder()) {
        Err(e) => Err(e),
        Ok(reasoning) => match required_text(f, "content"@) {
            Err(e) => Err(e),
            Ok(content) => Ok(ReplyView { reasoning, content, last_token: None }),
        },
    }
}

/// Decodes a reply.
pub open spec fn decode_reply(v: ValueView) -> Result<ReplyView, DecodeError> {
    match fields_of(v) {
        Err(e) => Err(e),
        Ok(f) => decode_reply_fields(f),
    }
}

/// Decodes a URL.
pub open spec fn decode_url(v: ValueView) -> Result<Seq<char>, DecodeError> {
    match text_of(v) {
        Err(e) => Err(e),
        Ok(t) => match parsed_url(t) {
            None => Err(DecodeError::InvalidUrl),
            Some(u) => Ok(u),
        },
    }
}

/// Decodes a web summary.
pub open spec fn decode_summary(v: ValueView) -> Result<SummaryView, DecodeError> {
    match fields_of(v) {
        Err(e) => Err(e),
        Ok(f) => match required(f, "url"@) {
            Err(e) => Err(e),
            Ok(u) => match decode_url(u) {
                Err(e) => Err(e),
                Ok(url) => match required_text(f, "content"@) {
                    Err(e) => Err(e),
                    Ok(content) => Ok(SummaryView { url, content }),
                },
            },
        },
    }
}

/// Decodes a status whose output `d` decodes.
pub open spec fn decode_status<V>(f: Seq<(Seq<char>, ValueView)>, d: spec_fn(ValueView) -> Result<V, DecodeError>) -> Result<StatusView<V>, DecodeError> {
    match required_text(f, "status"@) {
        Err(e) => Err(e),
        Ok(status) => if status == "active"@ {
            match required(f, "output"@) {
                Err(e) => Err(e),
                Ok(o) => match d(o) {
                    Err(e) => Err(e),
                    Ok(x) => Ok(StatusView::Active(x)),
                },
            }
        } else if status == "done"@ {
            match required(f, "output"@) {
                Err(e) => Err(e),
                Ok(o) => match d(o) {
                    Err(e) => Err(e),
                    Ok(x) => Ok(StatusView::Done(x)),
                },
            }
        } else if status == "error"@ {
            match required_text(f, "output"@) {
                Err(e) => Err(e),
                Ok(e) => Ok(StatusView::Errored(e)),
            }
        } else {
            Err(DecodeError::UnknownVariant)
        },
    }
}

/// Decodes a list of URLs.
pub open spec fn decode_urls(v: ValueView) -> Result<Seq<Seq<char>>, DecodeError> {
    decode_sequence(v, url_decoder())
}

/// Decodes a list of web summaries.
pub open spec fn decode_summaries(v: ValueView) -> Result<Seq<SummaryView>, DecodeError> {
    decode_sequence(v, summary_decoder())
}

/// Decodes an outcome.
pub open spec fn decode_outcome(v: ValueView) -> Result<OutcomeView, DecodeError> {
    match fields_of(v) {
        Err(e) => Err(e),
        Ok(f) => match required_text(f, "type"@) {
            Err(e) => Err(e),
            Ok(kind) => if kind == "search"@ {
                match decode_status(f, urls_decoder()) {
                    Err(e) => Err(e),
                    Ok(s) => Ok(OutcomeView::Search(s)),
                }
            } else if kind == "scrape_text"@ {
                match decode_status(f, summaries_decoder()) {
                    Err(e) => Err(e),
                    Ok(s) => Ok(OutcomeView::ScrapeText(s)),
                }
            } else if kind == "answer"@ {
                match decode_status(f, reply_decoder()) {
                    Err(e) => Err(e),
                    Ok(s) => Ok(OutcomeView::Answer(s)),
                }
            } else {
                Err(DecodeError::UnknownVariant)
            },
        },
    }
}

/// Decodes a list of texts.
pub open spec fn decode_texts(v: ValueView) -> Result<Seq<Seq<char>>, DecodeError> {
    decode_sequence(v, text_decoder())
}

/// Decodes a step.
pub open spec fn decode_step(v: ValueView) -> Result<StepView, DecodeError> {
    match fields_of(v) {
        Err(e) => Err(e),
        Ok(f) => match required_text(f, "evidence"@) {
            Err(e) => Err(e),
            Ok(evidence) => match required_text(f, "description"@) {
                Err(e) => Err(e),
                Ok(description) => match required_text(f, "function"@) {
                    Err(e) => Err(e),
                    Ok(function) => match required(f, "inputs"@) {
                        Err(e) => Err(e),
                        Ok(i) => match decode_texts(i) {
                            Err(e) => Err(e),
                            Ok(inputs) => Ok(StepView { evidence, description, function, inputs }),
                        },
                    },
                },
            },
        },
    }
}

/// Decodes the fields of a plan.
pub open spec fn decode_plan_fields(f: Seq<(Seq<char>, ValueView)>) -> Result<PlanView, DecodeError> {
    match decode_optional(f, "reasoning"@, reasoning_decoder()) {
        Err(e) => Err(e),
        Ok(reasoning) => match required(f, "steps"@) {
            Err(e) => Err(e),
            Ok(s) => match decode_sequence(s, step_decoder()) {
                Err(e) => Err(e),
                Ok(steps) => match required(f, "outcomes"@) {
                    Err(e) => Err(e),
                    Ok(o) => match decode_sequence(o, outcome_decoder()) {
                        Err(e) => Err(e),
                        Ok(outcomes) => Ok(PlanView { reasoning, steps, outcomes }),
                    },
                },
            },
        },
    }
}

/// Decodes a history item.
pub open spec fn decode_item(v: ValueView) -> Result<ItemView, DecodeError> {
    match fields_of(v) {
        Err(e) => Err(e),
        Ok(f) => match required_text(f, "type"@) {
            Err(e) => Err(e),
            Ok(kind) => if kind == "user"@ {
                match required_text(f, "message"@) {
                    Err(e) => Err(e),
                    Ok(m) => Ok(ItemView::User(m)),
                }
            } else if kind == "reply"@ {
                match decode_reply_fields(f) {
                    Err(e) => Err(e),
                    Ok(r) => Ok(ItemView::Reply(r)),
                }
            } else if kind == "plan"@ {
                match decode_plan_fields(f) {
                    Err(e) => Err(e),
                    Ok(p) => Ok(ItemView::Plan(p)),
                }
            } else {
                Err(DecodeError::UnknownVariant)
            },
        },
    }
}

/// Decodes a model file.
pub open spec fn decode_file(v: ValueView) -> Result<FileView, DecodeError> {
    match fields_of(v) {
        Err(e) => Err(e),
        Ok(f) => match required_text(f, "model"@) {
            Err(e) => Err(e),
            Ok(model) => match required_text(f, "name"@) {
                Err(e) => Err(e),
                Ok(name) => Ok(FileView { model, name }),
            },
        },
    }
}

/// Decodes a chat.
pub open spec fn decode_chat(v: ValueView) -> Result<ChatView, DecodeError> {
    match fields_of(v) {
        Err(e) => Err(e),
        Ok(f) => match required_text(f, "id"@) {
            Err(e) => Err(e),
            Ok(id) => match id_of(id) {
                None => Err(DecodeError::InvalidId),
                Some(id) => match required(f, "file"@) {
                    Err(e) => Err(e),
                    Ok(file) => match decode_file(file) {
                        Err(e) => Err(e),
                        Ok(file) => match decode_optional(f, "title"@, text_decoder()) {
                            Err(e) => Err(e),
                            Ok(title) => match required(f, "history"@) {
                                Err(e) => Err(e),
                                Ok(h) => match decode_sequence(h, item_decoder()) {
                                    Err(e) => Err(e),
                                    Ok(history) => Ok(ChatView { id: Id(id), file, title, history }),
                                },
                            },
                        },
                    },
                },
            },
        },
    }
}

/// `r` is what the spec decoder gives: the same value, or the same error.
pub open spec fn decoded<T: DeepView>(r: Result<T, DecodeError>, s: Result<T::V, DecodeError>) -> bool {
    match r {
        Ok(x) => s == Ok::<T::V, DecodeError>(x.deep_view()),
        Err(e) => s == Err::<T::V, DecodeError>(e),
    }
}

proof fn lemma_decode_all_prefix<T>(items: Seq<ValueView>, f: spec_fn(ValueView) -> Result<T, DecodeError>, i: int)
    requires
        0 <= i <= items.len(),
        forall|j: int| 0 <= j < i ==> (#[trigger] f(items[j])) is Ok,
    ensures
        decode_all(items.skip(i), f) is Err ==> decode_all(items, f) == decode_all(items.skip(i), f),
        decode_all(items.skip(i), f) matches Ok(rest) ==> (decode_all(items, f) matches Ok(all) && all.len() == i + rest.len()
            && (forall|j: int| 0 <= j < i ==> Ok::<T, DecodeError>(#[trigger] all[j]) == f(items[j]))
            && (forall|j: int| 0 <= j < rest.len() ==> all[i + j] == #[trigger] rest[j])),
    decreases i,
{
    if i > 0 {
        assert forall|j: int| 0 <= j < i - 1 implies (#[trigger] f(items.drop_first()[j])) is Ok by {
            assert(items.drop_first()[j] == items[j + 1]);
        }
        lemma_decode_all_prefix(items.drop_first(), f, i - 1);
        assert(items.drop_first().skip(i - 1) == items.skip(i));
        assert(f(items[0]) is Ok);
        if let Ok(rest) = decode_all(items.skip(i), f) {
            let tail = decode_all(items.drop_first(), f)->Ok_0;
            let all = decode_all(items, f)->Ok_0;
            assert(all == seq![f(items[0])->Ok_0] + tail);
            assert forall|j: int| 0 <= j < i implies Ok::<T, DecodeError>(#[trigger] all[j]) == f(items[j]) by {
                if j > 0 {
                    assert(all[j] == tail[j - 1]);
                    assert(items.drop_first()[j - 1] == items[j]);
                }
            }
            assert forall|j: int| 0 <= j < rest.len() implies all[i + j] == #[trigger] rest[j] by {
                assert(all[i + j] == tail[i - 1 + j]);
            }
        }
    } else {
        assert(items.skip(0) == items);
    }
}

fn decode_each<T: DeepView, F: Fn(&Value) -> Result<T, DecodeError>>(
    items: &Vec<Value>,
    f: F,
    Ghost(d): Ghost<spec_fn(ValueView) -> Result<T::V, DecodeError>>,
) -> (r: Result<Vec<T>, DecodeError>)
    requires
        forall|v: &Value| #[trigger] f.requires((v,)),
        forall|v: &Value, x: Result<T, DecodeError>| #[trigger] f.ensures((v,), x) ==> decoded(x, d(v@)),
    ensures
        decoded(r, decode_all(views_of(items@), d)),
{
    proof {
        lemma_views_of(items@);
    }
    let ghost views = views_of(items@);
    let mut out: Vec<T> = Vec::new();
    let mut i: usize = 0;
    while i < items.len()
        invariant
            i <= items.len(),
            views == views_of(items@),
            views.len() == items.len(),
            forall|j: int| 0 <= j < items.len() ==> #[trigger] views[j] == items@[j]@,
            forall|v: &Value| #[trigger] f.requires((v,)),
            forall|v: &Value, x: Result<T, DecodeError>| #[trigger] f.ensures((v,), x) ==> decoded(x, d(v@)),
            out@.len() == i,
            forall|j: int| 0 <= j < i ==> d(#[trigger] views[j]) == Ok::<T::V, DecodeError>(out@[j].deep_view()),
        decreases items.len() - i,
    {
        let x = f(&items[i]);
        assert(views[i as int] == items@[i as int]@);
        match x {
            Err(e) => {
                proof {
                    assert forall|j: int| 0 <= j < i implies (#[trigger] d(views[j])) is Ok by {}
                    lemma_decode_all_prefix(views, d, i as int);
                    assert(views.skip(i as int)[0] == views[i as int]);
                }
                return Err(e);
            },
            Ok(x) => {
                out.push(x);
            },
        }
        i += 1;
    }
    proof {
        assert forall|j: int| 0 <= j < i implies (#[trigger] d(views[j])) is Ok by {}
        lemma_decode_all_prefix(views, d, i as int);
        assert(views.skip(i as int) =~= Seq::<ValueView>::empty());
        let all = decode_all(views, d)->Ok_0;
        assert(all =~= out.deep_view()) by {
            assert forall|j: int| 0 <= j < all.len() implies all[j] == out.deep_view()[j] by {
                assert(d(views[j]) == Ok::<T::V, DecodeError>(out@[j].deep_view()));
            }
        }
    }
    Ok(out)
}

fn decode_sequence_with<T: DeepView, F: Fn(&Value) -> Result<T, DecodeError>>(
    v: &Value,
    f: F,
    Ghost(d): Ghost<spec_fn(ValueView) -> Result<T::V, DecodeError>>,
) -> (r: Result<Vec<T>, DecodeError>)
    requires
        forall|v: &Value| #[trigger] f.requires((v,)),
        forall|v: &Value, x: Result<T, DecodeError>| #[trigger] f.ensures((v,), x) ==> decoded(x, d(v@)),
    ensures
        decoded(r, decode_sequence(v@, d)),
{
    match v {
        Value::Sequence(items) => decode_each(items, f, Ghost(d)),
        _ => Err(DecodeError::InvalidType),
    }
}

fn decode_text_value(v: &Value) -> (r: Result<String, DecodeError>)
    ensures
        decoded(r, text_of(v@)),
{
    value::text(v)
}

fn required_text_value(fields: &Vec<(String, Value)>, key: &str) -> (r: Result<String, DecodeError>)
    ensures
        decoded(r, required_text(field_views_of(fields@), key@)),
{
    match value::required_field(fields, key) {
        Ok(v) => value::text(v),
        Err(e) => Err(e),
    }
}

fn decode_duration_value(v: &Value) -> (r: Result<Duration, DecodeError>)
    ensures
        decoded(r, decode_duration(v@)),
{
    let f = match value::fields(v) {
        Ok(f) => f,
        Err(e) => return Err(e),
    };
    let secs = match value::required_field(f, "secs") {
        Ok(s) => s,
        Err(e) => return Err(e),
    };
    let secs = match value::unsigned(secs) {
        Ok(s) => s,
        Err(e) => return Err(e),
    };
    let nanos = match value::required_field(f, "nanos") {
        Ok(n) => n,
        Err(e) => return Err(e),
    };
    let nanos = match value::unsigned32(nanos) {
        Ok(n) => n,
        Err(e) => return Err(e),
    };
    if secs > u64::MAX - (nanos / NANOS_PER_SEC) as u64 {
        return Err(DecodeError::DurationOverflow);
    }
    Ok(Duration::new(secs, nanos))
}

fn decode_reasoning_value(v: &Value) -> (r: Result<Reasoning, DecodeError>)
    ensures
        decoded(r, decode_reasoning(v@)),
{
    let f = match value::fields(v) {
        Ok(f) => f,
        Err(e) => return Err(e),
    };
    let content = match required_text_value(f, "content") {
        Ok(c) => c,
        Err(e) => return Err(e),
    };
    let duration = match value::required_field(f, "duration") {
        Ok(d) => d,
        Err(e) => return Err(e),
    };
    let duration = match decode_duration_value(duration) {
        Ok(d) => d,
        Err(e) => return Err(e),
    };
    Ok(Reasoning { content, duration })
}

fn decode_optional_reasoning(fields: &Vec<(String, Value)>) -> (r: Result<Option<Reasoning>, DecodeError>)
    ensures
        decoded(r, decode_optional(field_views_of(fields@), "reasoning"@, reasoning_decoder())),
{
    match value::optional_field(fields, "reasoning") {
        None => Ok(None),
        Some(v) => match decode_reasoning_value(v) {
            Ok(r) => Ok(Some(r)),
            Err(e) => Err(e),
        },
    }
}

fn decode_reply_fields_value(fields: &Vec<(String, Value)>) -> (r: Result<Reply, DecodeError>)
    ensures
        decoded(r, decode_reply_fields(field_views_of(fields@))),
{
    let reasoning = match decode_optional_reasoning(fields) {
        Ok(r) => r,
        Err(e) => return Err(e),
    };
    let content = match required_text_value(fields, "content") {
        Ok(c) => c,
        Err(e) => return Err(e),
    };
    Ok(Reply { reasoning, content, last_token: None })
}

fn decode_reply_value(v: &Value) -> (r: Result<Reply, DecodeError>)
    ensures
        decoded(r, decode_reply(v@)),
{
    match value::fields(v) {
        Ok(f) => decode_reply_fields_value(f),
        Err(e) => Err(e),
    }
}

fn decode_url_value(v: &Value) -> (r: Result<Url, DecodeError>)
    ensures
        decoded(r, decode_url(v@)),
{
    let t = match value::text(v) {
        Ok(t) => t,
        Err(e) => return Err(e),
    };
    match Url::parse(t.as_str()) {
        Some(u) => Ok(u),
        None => Err(DecodeError::InvalidUrl),
    }
}

fn decode_summary_value(v: &Value) -> (r: Result<Summary, DecodeError>)
    ensures
        decoded(r, decode_summary(v@)),
{
    let f = match value::fields(v) {
        Ok(f) => f,
        Err(e) => return Err(e),
    };
    let url = match value::required_field(f, "url") {
        Ok(u) => u,
        Err(e) => return Err(e),
    };
    let url = match decode_url_value(url) {
        Ok(u) => u,
        Err(e) => return Err(e),
    };
    let content = match required_text_value(f, "content") {
        Ok(c) => c,
        Err(e) => return Err(e),
    };
    Ok(Summary { url, content })
}

fn decode_urls_value(v: &Value) -> (r: Result<Vec<Url>, DecodeError>)
    ensures
        decoded(r, decode_urls(v@)),
{
    decode_sequence_with(v, decode_url_value, Ghost(url_decoder()))
}

fn decode_summaries_value(v: &Value) -> (r: Result<Vec<Summary>, DecodeError>)
    ensures
        decoded(r, decode_summaries(v@)),
{
    decode_sequence_with(v, decode_summary_value, Ghost(summary_decoder()))
}

fn decode_status_with<T: DeepView, F: Fn(&Value) -> Result<T, DecodeError>>(
    fields: &Vec<(String, Value)>,
    f: F,
    Ghost(d): Ghost<spec_fn(ValueView) -> Result<T::V, DecodeError>>,
) -> (r: Result<Status<T>, DecodeError>)
    requires
        forall|v: &Value| #[trigger] f.requires((v,)),
        forall|v: &Value, x: Result<T, DecodeError>| #[trigger] f.ensures((v,), x) ==> decoded(x, d(v@)),
    ensures
        decoded(r, decode_status(field_views_of(fields@), d)),
{
    let status = match required_text_value(fields, "status") {
        Ok(s) => s,
        Err(e) => return Err(e),
    };
    if value::same_text(status.as_str(), "active") || value::same_text(status.as_str(), "done") {
        let active = value::same_text(status.as_str(), "active");
        proof {
            reveal_strlit("active");
            reveal_strlit("done");
            assert("active"@[0] != "done"@[0]);
        }
        let output = match value::required_field(fields, "output") {
            Ok(o) => o,
            Err(e) => return Err(e),
        };
        match f(output) {
            Ok(x) => if active {
                Ok(Status::Active(x))
            } else {
                Ok(Status::Done(x))
            },
            Err(e) => Err(e),
        }
    } else if value::same_text(status.as_str(), "error") {
        match required_text_value(fields, "output") {
            Ok(e) => Ok(Status::Errored(e)),
            Err(e) => Err(e),
        }
    } else {
        Err(DecodeError::UnknownVariant)
    }
}

fn decode_outcome_value(v: &Value) -> (r: Result<Outcome, DecodeError>)
    ensures
        decoded(r, decode_outcome(v@)),
{
    let f = match value::fields(v) {
        Ok(f) => f,
        Err(e) => return Err(e),
    };
    let kind = match required_text_value(f, "type") {
        Ok(k) => k,
        Err(e) => return Err(e),
    };
    if value::same_text(kind.as_str(), "search") {
        match decode_status_with(f, decode_urls_value, Ghost(urls_decoder())) {
            Ok(s) => Ok(Outcome::Search(s)),
            Err(e) => Err(e),
        }
    } else if value::same_text(kind.as_str(), "scrape_text") {
        match decode_status_with(f, decode_summaries_value, Ghost(summaries_decoder())) {
            Ok(s) => Ok(Outcome::ScrapeText(s)),
            Err(e) => Err(e),
        }
    } else if value::same_text(kind.as_str(), "answer") {
        match decode_status_with(f, decode_reply_value, Ghost(reply_decoder())) {
            Ok(s) => Ok(Outcome::Answer(s)),
            Err(e) => Err(e),
        }
    } else {
        Err(DecodeError::UnknownVariant)
    }
}

fn decode_step_value(v: &Value) -> (r: Result<Step, DecodeError>)
    ensures
        decoded(r, decode_step(v@)),
{
    let f = match value::fields(v) {
        Ok(f) => f,
        Err(e) => return Err(e),
    };
    let evidence = match required_text_value(f, "evidence") {
        Ok(x) => x,
        Err(e) => return Err(e),
    };
    let description = match required_text_value(f, "description") {
        Ok(x) => x,
        Err(e) => return Err(e),
    };
    let function = match required_text_value(f, "function") {
        Ok(x) => x,
        Err(e) => return Err(e),
    };
    let inputs = match value::required_field(f, "inputs") {
        Ok(x) => x,
        Err(e) => return Err(e),
    };
    let inputs = match decode_sequence_with(inputs, decode_text_value, Ghost(text_decoder())) {
        Ok(x) => x,
        Err(e) => return Err(e),
    };
    Ok(Step { evidence, description, function, inputs })
}

fn decode_plan_fields_value(f: &Vec<(String, Value)>) -> (r: Result<Plan, DecodeError>)
    ensures
        decoded(r, decode_plan_fields(field_views_of(f@))),
{
    let reasoning = match decode_optional_reasoning(f) {
        Ok(r) => r,
        Err(e) => return Err(e),
    };
    let steps = match value::required_field(f, "steps") {
        Ok(x) => x,
        Err(e) => return Err(e),
    };
    let steps = match decode_sequence_with(steps, decode_step_value, Ghost(step_decoder())) {
        Ok(x) => x,
        Err(e) => return Err(e),
    };
    let outcomes = match value::required_field(f, "outcomes") {
        Ok(x) => x,
        Err(e) => return Err(e),
    };
    let outcomes = match decode_sequence_with(outcomes, decode_outcome_value, Ghost(outcome_decoder())) {
        Ok(x) => x,
        Err(e) => return Err(e),
    };
    Ok(Plan { reasoning, steps, outcomes })
}

fn decode_item_value(v: &Value) -> (r: Result<Item, DecodeError>)
    ensures
        decoded(r, decode_item(v@)),
{
    let f = match value::fields(v) {
        Ok(f) => f,
        Err(e) => return Err(e),
    };
    let kind = match required_text_value(f, "type") {
        Ok(k) => k,
        Err(e) => return Err(e),
    };
    if value::same_text(kind.as_str(), "user") {
        match required_text_value(f, "message") {
            Ok(m) => Ok(Item::User(m)),
            Err(e) => Err(e),
        }
    } else if value::same_text(kind.as_str(), "reply") {
        match decode_reply_fields_value(f) {
            Ok(r) => Ok(Item::Reply(r)),
            Err(e) => Err(e),
        }
    } else if value::same_text(kind.as_str(), "plan") {
        match decode_plan_fields_value(f) {
            Ok(p) => Ok(Item::Plan(p)),
            Err(e) => Err(e),
        }
    } else {
        Err(DecodeError::UnknownVariant)
    }
}

fn decode_file_value(v: &Value) -> (r: Result<File, DecodeError>)
    ensures
        r matches Ok(file) ==> decode_file(v@) == Ok::<_, DecodeError>(file@),
        r matches Err(e) ==> decode_file(v@) == Err::<FileView, _>(e),
{
    let f = match value::fields(v) {
        Ok(f) => f,
        Err(e) => return Err(e),
    };
    let model = match required_text_value(f, "model") {
        Ok(x) => x,
        Err(e) => return Err(e),
    };
    let name = match required_text_value(f, "name") {
        Ok(x) => x,
        Err(e) => return Err(e),
    };
    Ok(File { model: crate::model::Id(model), name })
}

/// Decodes a chat.
pub fn decode(v: &Value) -> (r: Result<Chat, DecodeError>)
    ensures
        r matches Ok(chat) ==> decode_chat(v@) == Ok::<_, DecodeError>(chat@),
        r matches Err(e) ==> decode_chat(v@) == Err::<ChatView, _>(e),
{
    let f = match value::fields(v) {
        Ok(f) => f,
        Err(e) => return Err(e),
    };
    let id = match required_text_value(f, "id") {
        Ok(x) => x,
        Err(e) => return Err(e),
    };
    let id = match Id::parse(id.as_str()) {
        Some(id) => id,
        None => return Err(DecodeError::InvalidId),
    };
    let file = match value::required_field(f, "file") {
        Ok(x) => x,
        Err(e) => return Err(e),
    };
    let file = match decode_file_value(file) {
        Ok(x) => x,
        Err(e) => return Err(e),
    };
    let title = match value::optional_field(f, "title") {
        None => None,
        Some(t) => match value::text(t) {
            Ok(t) => Some(t),
            Err(e) => return Err(e),
        },
    };
    let history = match value::required_field(f, "history") {
        Ok(x) => x,
        Err(e) => return Err(e),
    };
    let history = match decode_sequence_with(history, decode_item_value, Ghost(item_decoder())) {
        Ok(x) => x,
        Err(e) => return Err(e),
    };
    Ok(Chat { id, file, title, history })
}

} // verus!
