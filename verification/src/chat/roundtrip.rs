//! What is encoded decodes back: the saved form of a chat reads back as the
//! chat, with the streaming state of its replies cleared.
use vstd::prelude::*;
use crate::address::parsed_url;
use crate::assistant::{ReasoningView, ReplyView};
use crate::chat::{ChatView, ItemView, lemma_uuid_roundtrip};
use crate::chat::schema::{
    chat_value, decode_all, decode_chat, decode_duration, decode_item, decode_optional,
    decode_outcome, decode_plan_fields, decode_reasoning, decode_reply_fields, decode_status,
    decode_step, decode_summaries, decode_summary, decode_urls, duration_value, file_value,
    item_decoder, item_encoder, item_value, optional_value, outcome_decoder, outcome_encoder,
    outcome_value, plan_fields, reasoning_decoder, reasoning_encoder, reasoning_value,
    reply_decoder, reply_encoder, reply_fields, status_fields, step_decoder, step_encoder,
    step_value, summaries_decoder, summaries_encoder, summaries_value, summary_decoder,
    summary_encoder, summary_value, text_decoder, text_encoder, url_decoder, urls_decoder,
    urls_encoder, urls_value,
};
use crate::duration::{Duration, NANOS_PER_SEC};
use crate::plan::{OutcomeView, PlanView, StatusView, StepView};
use crate::value::{DecodeError, ValueView, lookup, lemma_lookup_skip};
use crate::web::SummaryView;
use crate::address::Url;
use crate::assistant;
use crate::chat::{Chat, Item};
use crate::plan::{Outcome, Status};
use crate::web::Summary;

verus! {

/// A reply as it reads back: without the token that was streaming.
pub open spec fn settled_reply(r: ReplyView) -> ReplyView {
    ReplyView { last_token: None, ..r }
}

/// An outcome as it reads back.
pub open spec fn settled_outcome(o: OutcomeView) -> OutcomeView {
    match o {
        OutcomeView::Answer(StatusView::Active(r)) => OutcomeView::Answer(StatusView::Active(settled_reply(r))),
        OutcomeView::Answer(StatusView::Done(r)) => OutcomeView::Answer(StatusView::Done(settled_reply(r))),
        other => other,
    }
}

/// A plan as it reads back.
pub open spec fn settled_plan(p: PlanView) -> PlanView {
    PlanView { outcomes: p.outcomes.map_values(|o: OutcomeView| settled_outcome(o)), ..p }
}

/// An item as it reads back.
pub open spec fn settled_item(i: ItemView) -> ItemView {
    match i {
        ItemView::User(m) => ItemView::User(m),
        ItemView::Reply(r) => ItemView::Reply(settled_reply(r)),
        ItemView::Plan(p) => ItemView::Plan(settled_plan(p)),
    }
}

/// A chat as it reads back.
pub open spec fn settled_chat(c: ChatView) -> ChatView {
    ChatView { history: c.history.map_values(|i: ItemView| settled_item(i)), ..c }
}

/// A duration whose sub-second part is below a second (as every duration's is).
pub open spec fn duration_valid(d: Duration) -> bool {
    d.nanos_of() < NANOS_PER_SEC
}

/// A reasoning whose duration is valid.
pub open spec fn reasoning_valid(r: Option<ReasoningView>) -> bool {
    r matches Some(x) ==> duration_valid(x.duration)
}

/// A URL that reads back as itself.
pub open spec fn url_stable(u: Seq<char>) -> bool {
    parsed_url(u) == Some(u)
}

/// URLs that all read back as themselves.
pub open spec fn urls_stable(urls: Seq<Seq<char>>) -> bool {
    forall|i: int| 0 <= i < urls.len() ==> url_stable(#[trigger] urls[i])
}

/// Summaries whose URLs all read back as themselves.
pub open spec fn summaries_stable(s: Seq<SummaryView>) -> bool {
    forall|i: int| 0 <= i < s.len() ==> url_stable(#[trigger] s[i].url)
}

/// An outcome whose durations are valid and whose URLs read back as themselves.
pub open spec fn outcome_valid(o: OutcomeView) -> bool {
    match o {
        OutcomeView::Search(StatusView::Active(urls)) => urls_stable(urls),
        OutcomeView::Search(StatusView::Done(urls)) => urls_stable(urls),
        OutcomeView::ScrapeText(StatusView::Active(s)) => summaries_stable(s),
        OutcomeView::ScrapeText(StatusView::Done(s)) => summaries_stable(s),
        OutcomeView::Answer(StatusView::Active(r)) => reasoning_valid(r.reasoning),
        OutcomeView::Answer(StatusView::Done(r)) => reasoning_valid(r.reasoning),
        _ => true,
    }
}

/// A plan whose durations are valid and whose URLs read back as themselves.
pub open spec fn plan_valid(p: PlanView) -> bool {
    &&& reasoning_valid(p.reasoning)
    &&& forall|i: int| 0 <= i < p.outcomes.len() ==> outcome_valid(#[trigger] p.outcomes[i])
}

/// An item whose durations are valid and whose URLs read back as themselves.
pub open spec fn item_valid(i: ItemView) -> bool {
    match i {
        ItemView::User(_) => true,
        ItemView::Reply(r) => reasoning_valid(r.reasoning),
        ItemView::Plan(p) => plan_valid(p),
    }
}

/// A chat whose durations are valid and whose URLs read back as themselves.
pub open spec fn chat_valid(c: ChatView) -> bool {
    forall|i: int| 0 <= i < c.history.len() ==> item_valid(#[trigger] c.history[i])
}

proof fn lemma_lookup_at(fields: Seq<(Seq<char>, ValueView)>, key: Seq<char>, i: int)
    requires
        0 <= i < fields.len(),
        fields[i].0 == key,
        forall|j: int| 0 <= j < i ==> (#[trigger] fields[j]).0 != key,
    ensures
        lookup(fields, key) == Some(fields[i].1),
{
    lemma_lookup_skip(fields, key, i);
    assert(fields.skip(i)[0] == fields[i]);
}

proof fn lemma_keys()
    ensures
        "secs"@ != "nanos"@,
        "content"@ != "duration"@,
        "reasoning"@ != "content"@,
        "type"@ != "reasoning"@,
        "type"@ != "content"@,
        "url"@ != "content"@,
        "status"@ != "output"@,
        "type"@ != "status"@,
        "type"@ != "output"@,
        "evidence"@ != "description"@,
        "evidence"@ != "function"@,
        "evidence"@ != "inputs"@,
        "description"@ != "function"@,
        "description"@ != "inputs"@,
        "function"@ != "inputs"@,
        "reasoning"@ != "steps"@,
        "reasoning"@ != "outcomes"@,
        "steps"@ != "outcomes"@,
        "type"@ != "steps"@,
        "type"@ != "outcomes"@,
        "type"@ != "message"@,
        "model"@ != "name"@,
        "id"@ != "file"@,
        "id"@ != "title"@,
        "id"@ != "history"@,
        "file"@ != "title"@,
        "file"@ != "history"@,
        "title"@ != "history"@,
        "active"@ != "done"@,
        "active"@ != "error"@,
        "done"@ != "error"@,
        "search"@ != "scrape_text"@,
        "search"@ != "answer"@,
        "scrape_text"@ != "answer"@,
        "user"@ != "reply"@,
        "user"@ != "plan"@,
        "reply"@ != "plan"@,
{
    reveal_strlit("secs");
    reveal_strlit("nanos");
    reveal_strlit("content");
    reveal_strlit("duration");
    reveal_strlit("reasoning");
    reveal_strlit("type");
    reveal_strlit("url");
    reveal_strlit("status");
    reveal_strlit("output");
    reveal_strlit("evidence");
    reveal_strlit("description");
    reveal_strlit("function");
    reveal_strlit("inputs");
    reveal_strlit("steps");
    reveal_strlit("outcomes");
    reveal_strlit("message");
    reveal_strlit("model");
    reveal_strlit("name");
    reveal_strlit("id");
    reveal_strlit("file");
    reveal_strlit("title");
    reveal_strlit("history");
    reveal_strlit("active");
    reveal_strlit("done");
    reveal_strlit("error");
    reveal_strlit("search");
    reveal_strlit("scrape_text");
    reveal_strlit("answer");
    reveal_strlit("user");
    reveal_strlit("reply");
    reveal_strlit("plan");
    assert("secs"@.len() != "nanos"@.len());
    assert("content"@.len() != "duration"@.len());
    assert("reasoning"@.len() != "content"@.len());
    assert("type"@.len() != "reasoning"@.len());
    assert("type"@.len() != "content"@.len());
    assert("url"@.len() != "content"@.len());
    assert("status"@[0] != "output"@[0]);
    assert("type"@.len() != "status"@.len());
    assert("type"@.len() != "output"@.len());
    assert("evidence"@.len() != "description"@.len());
    assert("evidence"@[0] != "function"@[0]);
    assert("evidence"@.len() != "inputs"@.len());
    assert("description"@.len() != "function"@.len());
    assert("description"@.len() != "inputs"@.len());
    assert("function"@.len() != "inputs"@.len());
    assert("reasoning"@.len() != "steps"@.len());
    assert("reasoning"@.len() != "outcomes"@.len());
    assert("steps"@.len() != "outcomes"@.len());
    assert("type"@.len() != "steps"@.len());
    assert("type"@.len() != "outcomes"@.len());
    assert("type"@.len() != "message"@.len());
    assert("model"@.len() != "name"@.len());
    assert("id"@.len() != "file"@.len());
    assert("id"@.len() != "title"@.len());
    assert("id"@.len() != "history"@.len());
    assert("file"@.len() != "title"@.len());
    assert("file"@.len() != "history"@.len());
    assert("title"@.len() != "history"@.len());
    assert("active"@.len() != "done"@.len());
    assert("active"@.len() != "error"@.len());
    assert("done"@.len() != "error"@.len());
    assert("search"@.len() != "scrape_text"@.len());
    assert("search"@[0] != "answer"@[0]);
    assert("scrape_text"@.len() != "answer"@.len());
    assert("user"@.len() != "reply"@.len());
    assert("user"@[0] != "plan"@[0]);
    assert("reply"@.len() != "plan"@.len());
}

proof fn lemma_duration(d: Duration)
    requires
        duration_valid(d),
    ensures
        decode_duration(duration_value(d)) == Ok::<_, DecodeError>(d),
{
    lemma_keys();
    let f = seq![("secs"@, ValueView::Unsigned(d.secs_of())), ("nanos"@, ValueView::Unsigned(d.nanos_of() as u64))];
    lemma_lookup_at(f, "secs"@, 0);
    lemma_lookup_at(f, "nanos"@, 1);
    d.lemma_from_parts();
}

proof fn lemma_reasoning(r: ReasoningView)
    requires
        duration_valid(r.duration),
    ensures
        decode_reasoning(reasoning_value(r)) == Ok::<_, DecodeError>(r),
{
    lemma_keys();
    let f = seq![("content"@, ValueView::Text(r.content)), ("duration"@, duration_value(r.duration))];
    lemma_lookup_at(f, "content"@, 0);
    lemma_lookup_at(f, "duration"@, 1);
    lemma_duration(r.duration);
}

proof fn lemma_optional_reasoning(f: Seq<(Seq<char>, ValueView)>, i: int, r: Option<ReasoningView>)
    requires
        reasoning_valid(r),
        0 <= i < f.len(),
        f[i] == ("reasoning"@, optional_value(r, reasoning_encoder())),
        forall|j: int| 0 <= j < i ==> (#[trigger] f[j]).0 != "reasoning"@,
    ensures
        decode_optional(f, "reasoning"@, reasoning_decoder()) == Ok::<_, DecodeError>(r),
{
    lemma_lookup_at(f, "reasoning"@, i);
    if let Some(x) = r {
        lemma_reasoning(x);
    }
}

proof fn lemma_reply_fields(prefix: Seq<(Seq<char>, ValueView)>, r: ReplyView)
    requires
        reasoning_valid(r.reasoning),
        forall|j: int| 0 <= j < prefix.len() ==> (#[trigger] prefix[j]).0 != "reasoning"@ && prefix[j].0 != "content"@,
    ensures
        decode_reply_fields(prefix + reply_fields(r)) == Ok::<_, DecodeError>(settled_reply(r)),
{
    lemma_keys();
    let f = prefix + reply_fields(r);
    let n = prefix.len() as int;
    assert(f[n] == ("reasoning"@, optional_value(r.reasoning, reasoning_encoder())));
    assert(f[n + 1] == ("content"@, ValueView::Text(r.content)));
    assert forall|j: int| 0 <= j < n implies (#[trigger] f[j]).0 != "reasoning"@ by {
        assert(f[j] == prefix[j]);
    }
    assert forall|j: int| 0 <= j < n + 1 implies (#[trigger] f[j]).0 != "content"@ by {
        if j < n {
            assert(f[j] == prefix[j]);
        }
    }
    lemma_optional_reasoning(f, n, r.reasoning);
    lemma_lookup_at(f, "content"@, n + 1);
}

/// Decoding what `enc` encodes, item by item, gives each item back as `back` says.
pub proof fn lemma_decode_all<T>(
    items: Seq<T>,
    enc: spec_fn(T) -> ValueView,
    dec: spec_fn(ValueView) -> Result<T, DecodeError>,
    back: spec_fn(T) -> T,
)
    requires
        forall|i: int| 0 <= i < items.len() ==> dec(enc(#[trigger] items[i])) == Ok::<T, DecodeError>(back(items[i])),
    ensures
        decode_all(items.map_values(enc), dec) == Ok::<_, DecodeError>(items.map_values(back)),
    decreases items.len(),
{
    if items.len() > 0 {
        assert(items.map_values(enc).drop_first() =~= items.drop_first().map_values(enc));
        assert forall|i: int| 0 <= i < items.drop_first().len() implies dec(enc(#[trigger] items.drop_first()[i])) == Ok::<T, DecodeError>(back(items.drop_first()[i])) by {
            assert(items.drop_first()[i] == items[i + 1]);
        }
        lemma_decode_all(items.drop_first(), enc, dec, back);
        assert(dec(enc(items[0])) == Ok::<T, DecodeError>(back(items[0])));
        assert(seq![back(items[0])] + items.drop_first().map_values(back) =~= items.map_values(back));
    } else {
        assert(items.map_values(back) =~= Seq::<T>::empty());
    }
}

proof fn lemma_texts(items: Seq<Seq<char>>)
    ensures
        decode_all(items.map_values(text_encoder()), text_decoder()) == Ok::<_, DecodeError>(items),
{
    let back = |t: Seq<char>| t;
    lemma_decode_all(items, text_encoder(), text_decoder(), back);
    assert(items.map_values(back) =~= items);
}

proof fn lemma_urls(urls: Seq<Seq<char>>)
    requires
        forall|i: int| 0 <= i < urls.len() ==> url_stable(#[trigger] urls[i]),
    ensures
        decode_urls(urls_value(urls)) == Ok::<_, DecodeError>(urls),
{
    let back = |t: Seq<char>| t;
    assert forall|i: int| 0 <= i < urls.len() implies url_decoder()(text_encoder()(#[trigger] urls[i])) == Ok::<Seq<char>, DecodeError>(back(urls[i])) by {
        assert(url_stable(urls[i]));
    }
    lemma_decode_all(urls, text_encoder(), url_decoder(), back);
    assert(urls.map_values(back) =~= urls);
}

proof fn lemma_summary(s: SummaryView)
    requires
        url_stable(s.url),
    ensures
        decode_summary(summary_value(s)) == Ok::<_, DecodeError>(s),
{
    lemma_keys();
    let f = seq![("url"@, ValueView::Text(s.url)), ("content"@, ValueView::Text(s.content))];
    lemma_lookup_at(f, "url"@, 0);
    lemma_lookup_at(f, "content"@, 1);
}

proof fn lemma_summaries(items: Seq<SummaryView>)
    requires
        forall|i: int| 0 <= i < items.len() ==> url_stable(#[trigger] items[i].url),
    ensures
        decode_summaries(summaries_value(items)) == Ok::<_, DecodeError>(items),
{
    let back = |t: SummaryView| t;
    assert forall|i: int| 0 <= i < items.len() implies summary_decoder()(summary_encoder()(#[trigger] items[i])) == Ok::<SummaryView, DecodeError>(back(items[i])) by {
        assert(url_stable(items[i].url));
        lemma_summary(items[i]);
    }
    lemma_decode_all(items, summary_encoder(), summary_decoder(), back);
    assert(items.map_values(back) =~= items);
}

proof fn lemma_step(s: StepView)
    ensures
        decode_step(step_value(s)) == Ok::<_, DecodeError>(s),
{
    lemma_keys();
    let f = seq![
        ("evidence"@, ValueView::Text(s.evidence)),
        ("description"@, ValueView::Text(s.description)),
        ("function"@, ValueView::Text(s.function)),
        ("inputs"@, ValueView::Sequence(s.inputs.map_values(text_encoder()))),
    ];
    lemma_lookup_at(f, "evidence"@, 0);
    lemma_lookup_at(f, "description"@, 1);
    lemma_lookup_at(f, "function"@, 2);
    lemma_lookup_at(f, "inputs"@, 3);
    lemma_texts(s.inputs);
}

proof fn lemma_status<V>(
    prefix: Seq<(Seq<char>, ValueView)>,
    s: StatusView<V>,
    enc: spec_fn(V) -> ValueView,
    dec: spec_fn(ValueView) -> Result<V, DecodeError>,
    back: spec_fn(V) -> V,
)
    requires
        forall|j: int| 0 <= j < prefix.len() ==> (#[trigger] prefix[j]).0 != "status"@ && prefix[j].0 != "output"@,
        s matches StatusView::Active(v) ==> dec(enc(v)) == Ok::<V, DecodeError>(back(v)),
        s matches StatusView::Done(v) ==> dec(enc(v)) == Ok::<V, DecodeError>(back(v)),
    ensures
        decode_status(prefix + status_fields(s, enc), dec) == Ok::<_, DecodeError>(
            match s {
                StatusView::Active(v) => StatusView::Active(back(v)),
                StatusView::Done(v) => StatusView::Done(back(v)),
                StatusView::Errored(e) => StatusView::Errored(e),
            },
        ),
{
    lemma_keys();
    let f = prefix + status_fields(s, enc);
    let n = prefix.len() as int;
    assert forall|j: int| 0 <= j < n implies (#[trigger] f[j]).0 != "status"@ by {
        assert(f[j] == prefix[j]);
    }
    assert forall|j: int| 0 <= j < n + 1 implies (#[trigger] f[j]).0 != "output"@ by {
        if j < n {
            assert(f[j] == prefix[j]);
        }
    }
    lemma_lookup_at(f, "status"@, n);
    lemma_lookup_at(f, "output"@, n + 1);
}

proof fn lemma_outcome(o: OutcomeView)
    requires
        outcome_valid(o),
    ensures
        decode_outcome(outcome_value(o)) == Ok::<_, DecodeError>(settled_outcome(o)),
{
    lemma_keys();
    let id_urls = |u: Seq<Seq<char>>| u;
    let id_summaries = |u: Seq<SummaryView>| u;
    match o {
        OutcomeView::Search(s) => {
            let prefix = seq![("type"@, ValueView::Text("search"@))];
            let f = prefix + status_fields(s, urls_encoder());
            lemma_lookup_at(f, "type"@, 0);
            match s {
                StatusView::Active(v) => lemma_urls(v),
                StatusView::Done(v) => lemma_urls(v),
                _ => {},
            }
            lemma_status(prefix, s, urls_encoder(), urls_decoder(), id_urls);
        },
        OutcomeView::ScrapeText(s) => {
            let prefix = seq![("type"@, ValueView::Text("scrape_text"@))];
            let f = prefix + status_fields(s, summaries_encoder());
            lemma_lookup_at(f, "type"@, 0);
            match s {
                StatusView::Active(v) => lemma_summaries(v),
                StatusView::Done(v) => lemma_summaries(v),
                _ => {},
            }
            lemma_status(prefix, s, summaries_encoder(), summaries_decoder(), id_summaries);
        },
        OutcomeView::Answer(s) => {
            let prefix = seq![("type"@, ValueView::Text("answer"@))];
            let f = prefix + status_fields(s, reply_encoder());
            lemma_lookup_at(f, "type"@, 0);
            let back = |r: ReplyView| settled_reply(r);
            match s {
                StatusView::Active(v) => {
                    lemma_reply_fields(Seq::empty(), v);
                    assert(Seq::<(Seq<char>, ValueView)>::empty() + reply_fields(v) =~= reply_fields(v));
                },
                StatusView::Done(v) => {
                    lemma_reply_fields(Seq::empty(), v);
                    assert(Seq::<(Seq<char>, ValueView)>::empty() + reply_fields(v) =~= reply_fields(v));
                },
                _ => {},
            }
            lemma_status(prefix, s, reply_encoder(), reply_decoder(), back);
        },
    }
}

proof fn lemma_plan_fields(prefix: Seq<(Seq<char>, ValueView)>, p: PlanView)
    requires
        plan_valid(p),
        forall|j: int| 0 <= j < prefix.len() ==> (#[trigger] prefix[j]).0 != "reasoning"@
            && prefix[j].0 != "steps"@ && prefix[j].0 != "outcomes"@,
    ensures
        decode_plan_fields(prefix + plan_fields(p)) == Ok::<_, DecodeError>(settled_plan(p)),
{
    lemma_keys();
    let f = prefix + plan_fields(p);
    let n = prefix.len() as int;
    assert forall|j: int| 0 <= j < n implies (#[trigger] f[j]).0 != "reasoning"@ by {
        assert(f[j] == prefix[j]);
    }
    assert forall|j: int| 0 <= j < n + 1 implies (#[trigger] f[j]).0 != "steps"@ by {
        if j < n {
            assert(f[j] == prefix[j]);
        }
    }
    assert forall|j: int| 0 <= j < n + 2 implies (#[trigger] f[j]).0 != "outcomes"@ by {
        if j < n {
            assert(f[j] == prefix[j]);
        }
    }
    lemma_optional_reasoning(f, n, p.reasoning);
    lemma_lookup_at(f, "steps"@, n + 1);
    lemma_lookup_at(f, "outcomes"@, n + 2);
    let same_step = |s: StepView| s;
    assert forall|i: int| 0 <= i < p.steps.len() implies step_decoder()(step_encoder()(#[trigger] p.steps[i])) == Ok::<StepView, DecodeError>(same_step(p.steps[i])) by {
        lemma_step(p.steps[i]);
    }
    lemma_decode_all(p.steps, step_encoder(), step_decoder(), same_step);
    assert(p.steps.map_values(same_step) =~= p.steps);
    let settle = |o: OutcomeView| settled_outcome(o);
    assert forall|i: int| 0 <= i < p.outcomes.len() implies outcome_decoder()(outcome_encoder()(#[trigger] p.outcomes[i])) == Ok::<OutcomeView, DecodeError>(settle(p.outcomes[i])) by {
        lemma_outcome(p.outcomes[i]);
    }
    lemma_decode_all(p.outcomes, outcome_encoder(), outcome_decoder(), settle);
}

proof fn lemma_item(i: ItemView)
    requires
        item_valid(i),
    ensures
        decode_item(item_value(i)) == Ok::<_, DecodeError>(settled_item(i)),
{
    lemma_keys();
    match i {
        ItemView::User(m) => {
            let f = seq![("type"@, ValueView::Text("user"@)), ("message"@, ValueView::Text(m))];
            lemma_lookup_at(f, "type"@, 0);
            lemma_lookup_at(f, "message"@, 1);
        },
        ItemView::Reply(r) => {
            let prefix = seq![("type"@, ValueView::Text("reply"@))];
            lemma_lookup_at(prefix + reply_fields(r), "type"@, 0);
            lemma_reply_fields(prefix, r);
        },
        ItemView::Plan(p) => {
            let prefix = seq![("type"@, ValueView::Text("plan"@))];
            lemma_lookup_at(prefix + plan_fields(p), "type"@, 0);
            lemma_plan_fields(prefix, p);
        },
    }
}

/// A saved chat reads back as the chat, once its replies have stopped
/// streaming: `decode_chat(chat_value(c))` is `c` without the last tokens of
/// its replies, for every chat whose durations are valid and whose URLs read
/// back as themselves.
pub proof fn lemma_chat_roundtrip(c: ChatView)
    requires
        chat_valid(c),
    ensures
        decode_chat(chat_value(c)) == Ok::<_, DecodeError>(settled_chat(c)),
{
    lemma_keys();
    let f = seq![
        ("id"@, ValueView::Text(crate::chat::uuid_text(c.id.0))),
        ("file"@, file_value(c.file)),
        ("title"@, optional_value(c.title, text_encoder())),
        ("history"@, ValueView::Sequence(c.history.map_values(item_encoder()))),
    ];
    lemma_lookup_at(f, "id"@, 0);
    lemma_lookup_at(f, "file"@, 1);
    lemma_lookup_at(f, "title"@, 2);
    lemma_lookup_at(f, "history"@, 3);
    lemma_uuid_roundtrip(c.id.0);
    let g = seq![("model"@, ValueView::Text(c.file.model)), ("name"@, ValueView::Text(c.file.name))];
    lemma_lookup_at(g, "model"@, 0);
    lemma_lookup_at(g, "name"@, 1);
    let settle = |i: ItemView| settled_item(i);
    assert forall|k: int| 0 <= k < c.history.len() implies item_decoder()(item_encoder()(#[trigger] c.history[k])) == Ok::<ItemView, DecodeError>(settle(c.history[k])) by {
        lemma_item(c.history[k]);
    }
    lemma_decode_all(c.history, item_encoder(), item_decoder(), settle);
}

/// Whether the URL reads back as itself.
fn url_reads_back(u: &Url) -> (b: bool)
    ensures
        b == url_stable(u@),
{
    match Url::parse(u.as_str()) {
        Some(parsed) => crate::value::same_text(parsed.as_str(), u.as_str()),
        None => false,
    }
}

/// Whether every URL of the list reads back as itself.
fn urls_read_back(urls: &Vec<Url>) -> (b: bool)
    ensures
        b == urls_stable(urls.deep_view()),
{
    let mut i: usize = 0;
    while i < urls.len()
        invariant
            i <= urls.len(),
            forall|j: int| 0 <= j < i ==> url_stable(#[trigger] urls.deep_view()[j]),
        decreases urls.len() - i,
    {
        if !url_reads_back(&urls[i]) {
            assert(urls.deep_view()[i as int] == urls@[i as int]@);
            assert(!url_stable(urls.deep_view()[i as int]));
            return false;
        }
        i += 1;
    }
    true
}

/// Whether the URL of every summary reads back as itself.
fn summary_urls_read_back(summaries: &Vec<Summary>) -> (b: bool)
    ensures
        b == summaries_stable(summaries.deep_view()),
{
    let mut i: usize = 0;
    while i < summaries.len()
        invariant
            i <= summaries.len(),
            forall|j: int| 0 <= j < i ==> url_stable(#[trigger] summaries.deep_view()[j].url),
        decreases summaries.len() - i,
    {
        if !url_reads_back(&summaries[i].url) {
            assert(summaries.deep_view()[i as int] == summaries@[i as int]@);
            assert(!url_stable(summaries.deep_view()[i as int].url));
            return false;
        }
        i += 1;
    }
    true
}

/// Whether the duration of the reasoning, if any, is valid.
fn reasoning_ok(r: &Option<assistant::Reasoning>) -> (b: bool)
    ensures
        b == reasoning_valid(r.deep_view()),
{
    match r {
        Some(x) => x.duration.subsec_nanos() < NANOS_PER_SEC,
        None => true,
    }
}

/// Whether the outcome's durations are valid and its URLs read back as themselves.
fn outcome_ok(o: &Outcome) -> (b: bool)
    ensures
        b == outcome_valid(o@),
{
    match o {
        Outcome::Search(Status::Active(urls)) => urls_read_back(urls),
        Outcome::Search(Status::Done(urls)) => urls_read_back(urls),
        Outcome::ScrapeText(Status::Active(s)) => summary_urls_read_back(s),
        Outcome::ScrapeText(Status::Done(s)) => summary_urls_read_back(s),
        Outcome::Answer(Status::Active(r)) => reasoning_ok(&r.reasoning),
        Outcome::Answer(Status::Done(r)) => reasoning_ok(&r.reasoning),
        _ => true,
    }
}

/// Whether the item's durations are valid and its URLs read back as themselves.
fn item_ok(item: &Item) -> (b: bool)
    ensures
        b == item_valid(item@),
{
    match item {
        Item::User(_) => true,
        Item::Reply(r) => reasoning_ok(&r.reasoning),
        Item::Plan(p) => {
            if !reasoning_ok(&p.reasoning) {
                return false;
            }
            let mut i: usize = 0;
            while i < p.outcomes.len()
                invariant
                    i <= p.outcomes.len(),
                    item@ == ItemView::Plan(p@),
                    reasoning_valid(p@.reasoning),
                    forall|j: int| 0 <= j < i ==> outcome_valid(#[trigger] p@.outcomes[j]),
                decreases p.outcomes.len() - i,
            {
                if !outcome_ok(&p.outcomes[i]) {
                    assert(p@.outcomes[i as int] == p.outcomes@[i as int]@);
                    assert(!outcome_valid(p@.outcomes[i as int]));
                    assert(!plan_valid(p@));
                    return false;
                }
                i += 1;
            }
            true
        },
    }
}

/// Whether the chat reads back from its saved form as itself (its replies
/// stopped streaming): its durations are valid and its URLs read back as
/// themselves.
pub fn reads_back(chat: &Chat) -> (b: bool)
    ensures
        b == chat_valid(chat@),
{
    let mut i: usize = 0;
    while i < chat.history.len()
        invariant
            i <= chat.history.len(),
            forall|j: int| 0 <= j < i ==> item_valid(#[trigger] chat@.history[j]),
        decreases chat.history.len() - i,
    {
        if !item_ok(&chat.history[i]) {
            assert(chat@.history[i as int] == chat.history@[i as int]@);
            assert(!item_valid(chat@.history[i as int]));
            return false;
        }
        i += 1;
    }
    true
}

} // verus!