//! How the bytes that the server streams back for a chat completion become
//! lines, payloads and tokens.
use vstd::prelude::*;
use vstd::utf8::{decode_utf8, valid_utf8};
use crate::assistant::{Message, MessageView, Reasoning, ReasoningView, Reply, ReplyView, Token, TokenView, role_and_content};
use crate::duration::Duration;
use crate::value::{DecodeError, Value, ValueView, fields_of, required};
use crate::text;
use crate::value;

verus! {

/// The newline byte.
pub const NEWLINE: u8 = 10;

/// The non-empty lines that `bytes` completes, when `current` holds the bytes
/// read since the last newline.
pub open spec fn lines_from(bytes: Seq<u8>, current: Seq<u8>) -> Seq<Seq<u8>>
    decreases bytes.len(),
{
    if bytes.len() == 0 {
        Seq::empty()
    } else if bytes[0] == NEWLINE {
        (if current.len() > 0 {
            seq![current]
        } else {
            Seq::empty()
        }) + lines_from(bytes.drop_first(), Seq::empty())
    } else {
        lines_from(bytes.drop_first(), current.push(bytes[0]))
    }
}

/// The bytes after the last newline once `bytes` is read, when `current`
/// holds the bytes read since the last newline.
pub open spec fn pending_from(bytes: Seq<u8>, current: Seq<u8>) -> Seq<u8>
    decreases bytes.len(),
{
    if bytes.len() == 0 {
        current
    } else if bytes[0] == NEWLINE {
        pending_from(bytes.drop_first(), Seq::empty())
    } else {
        pending_from(bytes.drop_first(), current.push(bytes[0]))
    }
}

/// The payload of a line of the event stream: what follows `data: ` once the
/// line is trimmed, or the line itself when it does not start so.
pub open spec fn payload_of(line: Seq<char>) -> Seq<char> {
    let t = text::trimmed(line);
    if text::starts_with(t, "data: "@) {
        t.skip(6)
    } else {
        line
    }
}

/// The payloads of `lines`: lines that are not UTF-8 are skipped, and the line
/// `data: [DONE]` ends the payloads.
pub open spec fn payloads_of(lines: Seq<Seq<u8>>) -> Seq<Seq<char>>
    decreases lines.len(),
{
    if lines.len() == 0 {
        Seq::empty()
    } else if !valid_utf8(lines[0]) {
        payloads_of(lines.drop_first())
    } else if decode_utf8(lines[0]) == "data: [DONE]"@ {
        Seq::empty()
    } else {
        seq![payload_of(decode_utf8(lines[0]))] + payloads_of(lines.drop_first())
    }
}

/// Reading a stream in two parts completes the same lines, and leaves the same
/// bytes pending, as reading it whole: how the stream is cut into chunks does
/// not matter to the lines.
pub proof fn lemma_lines_split(a: Seq<u8>, b: Seq<u8>, current: Seq<u8>)
    ensures
        lines_from(a + b, current) == lines_from(a, current) + lines_from(b, pending_from(a, current)),
        pending_from(a + b, current) == pending_from(b, pending_from(a, current)),
    decreases a.len(),
{
    if a.len() == 0 {
        assert(a + b == b);
    } else {
        assert((a + b).drop_first() == a.drop_first() + b);
        assert((a + b)[0] == a[0]);
        if a[0] == NEWLINE {
            lemma_lines_split(a.drop_first(), b, Seq::empty());
        } else {
            lemma_lines_split(a.drop_first(), b, current.push(a[0]));
        }
    }
}

/// Whether the bytes hold a newline.
pub open spec fn has_newline(bytes: Seq<u8>) -> bool {
    exists|i: int| 0 <= i < bytes.len() && bytes[i] == NEWLINE
}

/// The pending bytes never hold a newline.
pub proof fn lemma_pending_has_no_newline(bytes: Seq<u8>, current: Seq<u8>)
    requires
        !has_newline(current),
    ensures
        !has_newline(pending_from(bytes, current)),
    decreases bytes.len(),
{
    if bytes.len() > 0 {
        if bytes[0] == NEWLINE {
            lemma_pending_has_no_newline(bytes.drop_first(), Seq::empty());
        } else {
            let next = current.push(bytes[0]);
            assert forall|i: int| 0 <= i < next.len() implies next[i] != NEWLINE by {
                if i < current.len() {
                    assert(next[i] == current[i]);
                }
            }
            lemma_pending_has_no_newline(bytes.drop_first(), next);
        }
    }
}

/// Whether the state says the model is reasoning: unknown until the first
/// `<think>`, true until `</think>`, then false.
pub open spec fn thinking_after(state: Option<bool>, content: Seq<char>) -> (Option<bool>, Seq<char>) {
    match state {
        None => if text::contains(content, "<think>"@) {
            (Some(true), text::without(content, "<think>"@))
        } else {
            (state, content)
        },
        Some(true) => if text::contains(content, "</think>"@) {
            (Some(false), text::without(content, "</think>"@))
        } else {
            (state, content)
        },
        Some(false) => (state, content),
    }
}

/// The token for `content` under the reasoning state `state`.
pub open spec fn token_for(state: Option<bool>, content: Seq<char>) -> TokenView {
    if state == Some(true) {
        TokenView::Reasoning(content)
    } else {
        TokenView::Talking(content)
    }
}

/// Before the first `<think>` the model talks; from it until `</think>` it
/// reasons; after that it talks for good. Each marker leaves the state it
/// ends, and content without the awaited marker leaves the state as it is.
pub proof fn lemma_thinking(content: Seq<char>)
    ensures
        token_for(None, content) == TokenView::Talking(content),
        token_for(Some(false), content) == TokenView::Talking(content),
        token_for(Some(true), content) == TokenView::Reasoning(content),
        thinking_after(Some(false), content) == (Some(false), content),
        text::contains(content, "<think>"@) ==> thinking_after(None, content).0 == Some(true),
        !text::contains(content, "<think>"@) ==> thinking_after(None, content) == (None::<bool>, content),
        text::contains(content, "</think>"@) ==> thinking_after(Some(true), content).0 == Some(false),
        !text::contains(content, "</think>"@) ==> thinking_after(Some(true), content) == (Some(true), content),
{
}

/// The decoding state of a streamed completion.
pub struct Completion {
    buffer: Vec<u8>,
    is_reasoning: Option<bool>,
}

impl Completion {
    /// The bytes received after the last newline.
    pub closed spec fn pending(&self) -> Seq<u8> {
        self.buffer@
    }

    /// Whether the model is reasoning (unknown before any `<think>`).
    pub closed spec fn reasoning_state(&self) -> Option<bool> {
        self.is_reasoning
    }

    /// A completion that has received nothing.
    pub fn new() -> (c: Completion)
        ensures
            c.pending() == Seq::<u8>::empty(),
            c.reasoning_state() is None,
    {
        Completion { buffer: Vec::new(), is_reasoning: None }
    }

    /// Reads a chunk of the stream and returns the payloads of the lines that
    /// it completes.
    pub fn receive(&mut self, chunk: &[u8]) -> (payloads: Vec<String>)
        ensures
            final(self).pending() == pending_from(chunk@, old(self).pending()),
            final(self).reasoning_state() == old(self).reasoning_state(),
            payloads.deep_view() == payloads_of(lines_from(chunk@, old(self).pending())),
    {
        let lines = self.frame(chunk);
        payloads(&lines)
    }

    fn frame(&mut self, chunk: &[u8]) -> (lines: Vec<Vec<u8>>)
        ensures
            final(self).pending() == pending_from(chunk@, old(self).pending()),
            final(self).reasoning_state() == old(self).reasoning_state(),
            lines.deep_view() == lines_from(chunk@, old(self).pending()),
    {
        let mut lines: Vec<Vec<u8>> = Vec::new();
        let mut current: Vec<u8> = Vec::new();
        std::mem::swap(&mut current, &mut self.buffer);
        let ghost start = current@;
        let mut i: usize = 0;
        assert(chunk@.skip(0) == chunk@);
        while i < chunk.len()
            invariant
                i <= chunk.len(),
                start == old(self).pending(),
                self.is_reasoning == old(self).is_reasoning,
                lines_from(chunk@, start) == lines.deep_view() + lines_from(
                    chunk@.skip(i as int),
                    current@,
                ),
                pending_from(chunk@, start) == pending_from(chunk@.skip(i as int), current@),
            decreases chunk.len() - i,
        {
            let ghost rest = chunk@.skip(i as int);
            let ghost c = current@;
            let ghost prefix = lines.deep_view();
            assert(rest[0] == chunk@[i as int]);
            assert(rest.drop_first() == chunk@.skip(i + 1));
            let byte = chunk[i];
            if byte == NEWLINE {
                assert(pending_from(rest, c) == pending_from(rest.drop_first(), Seq::empty()));
                if current.len() > 0 {
                    let mut line: Vec<u8> = Vec::new();
                    std::mem::swap(&mut line, &mut current);
                    assert(line.deep_view() =~= c);
                    lines.push(line);
                    assert(lines.deep_view() =~= prefix.push(c));
                    assert(lines_from(rest, c) == seq![c] + lines_from(rest.drop_first(), Seq::empty()));
                    assert(prefix + (seq![c] + lines_from(rest.drop_first(), Seq::empty())) =~= prefix.push(c) + lines_from(rest.drop_first(), Seq::empty()));
                } else {
                    assert(lines_from(rest, c) == Seq::<Seq<u8>>::empty() + lines_from(rest.drop_first(), Seq::empty()));
                    assert(Seq::<Seq<u8>>::empty() + lines_from(rest.drop_first(), Seq::empty()) =~= lines_from(rest.drop_first(), Seq::empty()));
                    assert(current@ =~= Seq::<u8>::empty());
                }
            } else {
                current.push(byte);
                assert(lines_from(rest, c) == lines_from(rest.drop_first(), c.push(byte)));
                assert(pending_from(rest, c) == pending_from(rest.drop_first(), c.push(byte)));
            }
            i += 1;
        }
        assert(chunk@.skip(i as int).len() == 0);
        assert(lines.deep_view() + Seq::<Seq<u8>>::empty() == lines.deep_view());
        self.buffer = current;
        lines
    }

    /// Classifies the content of a delta as reasoning or talking, and follows
    /// the `<think>` and `</think>` markers, which it removes.
    pub fn token(&mut self, content: &str) -> (token: Token)
        ensures
            final(self).pending() == old(self).pending(),
            (final(self).reasoning_state(), token_content(token@)) == thinking_after(
                old(self).reasoning_state(),
                content@,
            ),
            token@ == token_for(final(self).reasoning_state(), token_content(token@)),
    {
        let mut content = content.to_owned();
        match self.is_reasoning {
            None => {
                if text::contains_str(content.as_str(), "<think>") {
                    self.is_reasoning = Some(true);
                    content = text::remove_all(content.as_str(), "<think>");
                }
            },
            Some(true) => {
                if text::contains_str(content.as_str(), "</think>") {
                    self.is_reasoning = Some(false);
                    content = text::remove_all(content.as_str(), "</think>");
                }
            },
            Some(false) => {},
        }
        if self.is_reasoning == Some(true) {
            Token::Reasoning(content)
        } else {
            Token::Talking(content)
        }
    }
}

/// The text of a token.
pub open spec fn token_content(token: TokenView) -> Seq<char> {
    match token {
        TokenView::Reasoning(t) => t,
        TokenView::Talking(t) => t,
    }
}

/// The text that `bytes` encodes, if they are UTF-8 (`std::str::from_utf8`).
#[verifier::external_body]
fn utf8(bytes: &[u8]) -> (r: Option<String>)
    ensures
        r is Some <==> valid_utf8(bytes@),
        r matches Some(s) ==> s@ == decode_utf8(bytes@),
{
    std::str::from_utf8(bytes).ok().map(String::from)
}

/// The payload of one line.
fn payload(line: &str) -> (p: String)
    ensures
        p@ == payload_of(line@),
{
    let t = text::trim(line);
    if text::starts_with_str(t.as_str(), "data: ") {
        let chars = text::chars_of(t.as_str());
        proof {
            reveal_strlit("data: ");
        }
        text::string_of(&chars, 6, chars.len())
    } else {
        line.to_owned()
    }
}

/// The payloads of `lines`.
fn payloads(lines: &Vec<Vec<u8>>) -> (out: Vec<String>)
    ensures
        out.deep_view() == payloads_of(lines.deep_view()),
{
    let mut out: Vec<String> = Vec::new();
    let mut k: usize = 0;
    assert(lines.deep_view().skip(0) == lines.deep_view());
    while k < lines.len()
        invariant
            k <= lines.len(),
            payloads_of(lines.deep_view()) == out.deep_view() + payloads_of(
                lines.deep_view().skip(k as int),
            ),
        decreases lines.len() - k,
    {
        let ghost rest = lines.deep_view().skip(k as int);
        assert(rest[0] == lines@[k as int]@);
        assert(rest.drop_first() == lines.deep_view().skip(k + 1));
        match utf8(lines[k].as_slice()) {
            None => {},
            Some(data) => {
                if value::same_text(data.as_str(), "data: [DONE]") {
                    assert(out.deep_view() + Seq::<Seq<char>>::empty() == out.deep_view());
                    return out;
                }
                let ghost before = out.deep_view();
                out.push(payload(data.as_str()));
                assert(out.deep_view() == before + seq![payload_of(data@)]);
            },
        }
        k += 1;
    }
    assert(lines.deep_view().skip(k as int).len() == 0);
    assert(out.deep_view() + Seq::<Seq<char>>::empty() == out.deep_view());
    out
}

/// The content of the delta of a choice: missing and null mean none, text is
/// the content, anything else is an error.
pub open spec fn delta_of(choice: ValueView) -> Result<Option<Seq<char>>, DecodeError> {
    match fields_of(choice) {
        Err(e) => Err(e),
        Ok(fields) => match required(fields, "delta"@) {
            Err(e) => Err(e),
            Ok(delta) => match fields_of(delta) {
                Err(e) => Err(e),
                Ok(delta) => match value::lookup(delta, "content"@) {
                    None => Ok(None),
                    Some(ValueView::Null) => Ok(None),
                    Some(ValueView::Text(t)) => Ok(Some(t)),
                    Some(_) => Err(DecodeError::InvalidType),
                },
            },
        },
    }
}

/// The delta contents of all `choices`, or the first error among them.
pub open spec fn deltas_of(choices: Seq<ValueView>) -> Result<Seq<Option<Seq<char>>>, DecodeError>
    decreases choices.len(),
{
    if choices.len() == 0 {
        Ok(Seq::empty())
    } else {
        match delta_of(choices[0]) {
            Err(e) => Err(e),
            Ok(d) => match deltas_of(choices.drop_first()) {
                Err(e) => Err(e),
                Ok(ds) => Ok(seq![d] + ds),
            },
        }
    }
}

/// The content of the first choice of a completion chunk
/// `{"choices": [{"delta": {"content": ...}}, ...]}`, once every choice is
/// checked to have that shape.
pub open spec fn first_delta_of(chunk: ValueView) -> Result<Option<Seq<char>>, DecodeError> {
    match fields_of(chunk) {
        Err(e) => Err(e),
        Ok(fields) => match required(fields, "choices"@) {
            Err(e) => Err(e),
            Ok(ValueView::Sequence(choices)) => match deltas_of(choices) {
                Err(e) => Err(e),
                Ok(ds) => Ok(if ds.len() > 0 { ds[0] } else { None }),
            },
            Ok(_) => Err(DecodeError::InvalidType),
        },
    }
}

proof fn lemma_deltas_len(choices: Seq<ValueView>)
    ensures
        deltas_of(choices) matches Ok(ds) ==> ds.len() == choices.len() && (choices.len() > 0
            ==> delta_of(choices[0]) == Ok::<_, DecodeError>(ds[0])),
    decreases choices.len(),
{
    if choices.len() > 0 {
        lemma_deltas_len(choices.drop_first());
    }
}

proof fn lemma_deltas_prefix(choices: Seq<ValueView>, i: int)
    requires
        0 <= i <= choices.len(),
        forall|j: int| 0 <= j < i ==> (#[trigger] delta_of(choices[j])) is Ok,
    ensures
        deltas_of(choices) is Err <==> deltas_of(choices.skip(i)) is Err,
        deltas_of(choices) is Err ==> deltas_of(choices) == deltas_of(choices.skip(i)),
    decreases i,
{
    if i > 0 {
        assert(delta_of(choices[0]) is Ok);
        assert forall|j: int| 0 <= j < i - 1 implies (#[trigger] delta_of(
            choices.drop_first()[j],
        )) is Ok by {
            assert(choices.drop_first()[j] == choices[j + 1]);
        }
        lemma_deltas_prefix(choices.drop_first(), i - 1);
        assert(choices.drop_first().skip(i - 1) == choices.skip(i));
    } else {
        assert(choices.skip(0) == choices);
    }
}

fn delta(choice: &Value) -> (r: Result<Option<String>, DecodeError>)
    ensures
        r matches Ok(d) ==> delta_of(choice@) == Ok::<_, DecodeError>(d.deep_view()),
        r matches Err(e) ==> delta_of(choice@) == Err::<Option<Seq<char>>, _>(e),
{
    let fields = match value::fields(choice) {
        Ok(f) => f,
        Err(e) => return Err(e),
    };
    let delta = match value::required_field(fields, "delta") {
        Ok(d) => d,
        Err(e) => return Err(e),
    };
    let delta = match value::fields(delta) {
        Ok(d) => d,
        Err(e) => return Err(e),
    };
    match value::field(delta, "content") {
        None => Ok(None),
        Some(Value::Null) => Ok(None),
        Some(Value::Text(t)) => Ok(Some(t.clone())),
        Some(_) => Err(DecodeError::InvalidType),
    }
}

/// The content of the first choice of a decoded completion chunk.
pub fn first_delta(chunk: &Value) -> (r: Result<Option<String>, DecodeError>)
    ensures
        r matches Ok(d) ==> first_delta_of(chunk@) == Ok::<_, DecodeError>(d.deep_view()),
        r matches Err(e) ==> first_delta_of(chunk@) == Err::<Option<Seq<char>>, _>(e),
{
    let fields = match value::fields(chunk) {
        Ok(f) => f,
        Err(e) => return Err(e),
    };
    let all = match value::required_field(fields, "choices") {
        Ok(c) => c,
        Err(e) => return Err(e),
    };
    let ghost fv = value::field_views_of(fields@);
    assert(fields_of(chunk@) == Ok::<_, DecodeError>(fv));
    assert(required(fv, "choices"@) == Ok::<_, DecodeError>(all@));
    match all {
        Value::Sequence(choices) => {
            proof {
                value::lemma_views_of(choices@);
            }
            let ghost views = value::views_of(choices@);
            assert(all@ == ValueView::Sequence(views));
            let mut first: Option<String> = None;
            let mut i: usize = 0;
            while i < choices.len()
                invariant
                    i <= choices.len(),
                    views == value::views_of(choices@),
                    views.len() == choices.len(),
                    fields_of(chunk@) == Ok::<_, DecodeError>(fv),
                    required(fv, "choices"@) == Ok::<_, DecodeError>(ValueView::Sequence(views)),
                    forall|j: int| 0 <= j < choices.len() ==> #[trigger] views[j] == choices@[j]@,
                    forall|j: int| 0 <= j < i ==> (#[trigger] delta_of(views[j])) is Ok,
                    i > 0 ==> delta_of(views[0]) == Ok::<_, DecodeError>(first.deep_view()),
                    i == 0 ==> first is None,
                decreases choices.len() - i,
            {
                match delta(&choices[i]) {
                    Err(e) => {
                        proof {
                            lemma_deltas_prefix(views, i as int);
                            let rest = views.skip(i as int);
                            assert(rest[0] == views[i as int]);
                            assert(delta_of(views[i as int]) == Err::<Option<Seq<char>>, _>(e));
                            assert(deltas_of(rest) == Err::<Seq<Option<Seq<char>>>, _>(e));
                            assert(deltas_of(views) == Err::<Seq<Option<Seq<char>>>, _>(e));
                        }
                        return Err(e);
                    },
                    Ok(d) => {
                        if i == 0 {
                            first = d;
                        }
                    },
                }
                i += 1;
            }
            proof {
                lemma_deltas_prefix(views, i as int);
                assert(views.skip(i as int).len() == 0);
                lemma_deltas_len(views);
            }
            Ok(first)
        },
        _ => Err(DecodeError::InvalidType),
    }
}

/// The state of a reply being composed from tokens.
pub struct ComposerView {
    pub reasoning: Option<ReasoningView>,
    pub started_at: Option<Duration>,
    pub content: Seq<char>,
    pub reasoning_content: Seq<char>,
}

/// The state once `token` arrives at time `now`: reasoning tokens extend the
/// reasoning, whose content is kept trimmed and whose duration runs from the
/// first reasoning token; talking tokens extend the content.
pub open spec fn composed(state: ComposerView, token: TokenView, now: Duration) -> ComposerView {
    match token {
        TokenView::Reasoning(t) => {
            let reasoning_content = state.reasoning_content + t;
            let duration = match state.started_at {
                Some(start) => now.minus(start),
                None => match state.reasoning {
                    Some(r) => r.duration,
                    None => Duration::empty(),
                },
            };
            ComposerView {
                reasoning: Some(
                    ReasoningView { content: text::trimmed(reasoning_content), duration },
                ),
                started_at: Some(
                    match state.started_at {
                        Some(start) => start,
                        None => now,
                    },
                ),
                content: state.content,
                reasoning_content,
            }
        },
        TokenView::Talking(t) => ComposerView { content: state.content + t, ..state },
    }
}

/// The reply shown for a composer state; `last` is the token that last
/// extended the content, if any.
pub open spec fn reply_of(state: ComposerView, last: Option<Seq<char>>) -> ReplyView {
    ReplyView { reasoning: state.reasoning, content: text::trimmed(state.content), last_token: last }
}

/// A talking token extends the content and changes nothing else; a
/// reasoning token leaves the content, extends the reasoning (shown trimmed),
/// and the reasoning lasts from its first token to the latest one.
pub proof fn lemma_composed(state: ComposerView, t: Seq<char>, now: Duration)
    ensures
        composed(state, TokenView::Talking(t), now) == (ComposerView {
            content: state.content + t,
            ..state
        }),
        composed(state, TokenView::Reasoning(t), now).content == state.content,
        composed(state, TokenView::Reasoning(t), now).reasoning_content == state.reasoning_content + t,
        composed(state, TokenView::Reasoning(t), now).reasoning matches Some(r) && r.content
            == text::trimmed(state.reasoning_content + t),
        state.started_at is None ==> composed(state, TokenView::Reasoning(t), now).started_at == Some(now),
        state.started_at matches Some(start) ==> composed(state, TokenView::Reasoning(t), now).started_at
            == Some(start) && composed(state, TokenView::Reasoning(t), now).reasoning->0.duration
            == now.minus(start),
        reply_of(state, None).content == text::trimmed(state.content),
        reply_of(state, None).reasoning == state.reasoning,
{
}

/// Composes a reply from the tokens of a completion.
pub struct Composer {
    reasoning: Option<Reasoning>,
    started_at: Option<Duration>,
    content: String,
    reasoning_content: String,
}

impl View for Composer {
    type V = ComposerView;

    closed spec fn view(&self) -> ComposerView {
        ComposerView {
            reasoning: self.reasoning.deep_view(),
            started_at: self.started_at,
            content: self.content@,
            reasoning_content: self.reasoning_content@,
        }
    }
}

impl Composer {
    /// A composer that has received no token.
    pub fn new() -> (c: Composer)
        ensures
            c@ == (ComposerView {
                reasoning: None,
                started_at: None,
                content: Seq::empty(),
                reasoning_content: Seq::empty(),
            }),
    {
        Composer {
            reasoning: None,
            started_at: None,
            content: String::new(),
            reasoning_content: String::new(),
        }
    }

    /// Takes in `token`, received at time `now`, and returns the reply so far.
    pub fn push(&mut self, token: &Token, now: Duration) -> (reply: Reply)
        ensures
            final(self)@ == composed(old(self)@, token@, now),
            reply@ == reply_of(
                final(self)@,
                match token@ {
                    TokenView::Talking(t) => Some(t),
                    TokenView::Reasoning(_) => None,
                },
            ),
    {
        match token {
            Token::Reasoning(t) => {
                let duration = match self.started_at {
                    Some(start) => now.saturating_sub(&start),
                    None => match &self.reasoning {
                        Some(r) => r.duration,
                        None => Duration::zero(),
                    },
                };
                if self.started_at.is_none() {
                    self.started_at = Some(now);
                }
                self.reasoning_content.append(t.as_str());
                let content = text::trim(self.reasoning_content.as_str());
                self.reasoning = Some(Reasoning { content, duration });
                Reply {
                    reasoning: crate::assistant::clone_reasoning(&self.reasoning),
                    content: text::trim(self.content.as_str()),
                    last_token: None,
                }
            },
            Token::Talking(t) => {
                self.content.append(t.as_str());
                Reply {
                    reasoning: crate::assistant::clone_reasoning(&self.reasoning),
                    content: text::trim(self.content.as_str()),
                    last_token: Some(t.clone()),
                }
            },
        }
    }

    /// The reply once the completion is over.
    pub fn finish(&self) -> (reply: Reply)
        ensures
            reply@ == reply_of(self@, None),
    {
        Reply {
            reasoning: crate::assistant::clone_reasoning(&self.reasoning),
            content: text::trim(self.content.as_str()),
            last_token: None,
        }
    }
}

/// The request message with `role` and `content`.
pub open spec fn message_value(role: Seq<char>, content: Seq<char>) -> ValueView {
    ValueView::Fields(
        seq![("role"@, ValueView::Text(role)), ("content"@, ValueView::Text(content))],
    )
}

/// The request message for `message`.
pub open spec fn message_value_of(message: MessageView) -> ValueView {
    message_value(role_and_content(message).0, role_and_content(message).1)
}

/// The body of a streamed chat completion request for `model`: the system
/// prompt, then `messages`, then `append`.
pub open spec fn request_of(
    model: Seq<char>,
    system_prompt: Seq<char>,
    messages: Seq<MessageView>,
) -> ValueView {
    ValueView::Fields(
        seq![
            ("model"@, ValueView::Text(model)),
            (
                "messages"@,
                ValueView::Sequence(
                    seq![message_value("system"@, system_prompt)] + messages.map_values(
                        |m: MessageView| message_value_of(m),
                    ),
                ),
            ),
            ("stream"@, ValueView::Bool(true)),
            ("cache_prompt"@, ValueView::Bool(true)),
        ],
    )
}

/// The request for a completion names the model and asks for a stream, and
/// its messages are the system prompt followed by each message in order, each
/// an object with exactly a `role` (who speaks) and a `content` (the text
/// spoken).
pub proof fn lemma_request_messages(
    model: Seq<char>,
    system_prompt: Seq<char>,
    messages: Seq<MessageView>,
)
    ensures
        request_of(model, system_prompt, messages) matches ValueView::Fields(f) && {
            &&& value::lookup(f, "model"@) == Some(ValueView::Text(model))
            &&& value::lookup(f, "stream"@) == Some(ValueView::Bool(true))
            &&& value::lookup(f, "messages"@) matches Some(ValueView::Sequence(entries)) && {
                &&& entries.len() == messages.len() + 1
                &&& entries[0] == ValueView::Fields(
                    seq![
                        ("role"@, ValueView::Text("system"@)),
                        ("content"@, ValueView::Text(system_prompt)),
                    ],
                )
                &&& forall|i: int|
                    0 <= i < messages.len() ==> #[trigger] entries[i + 1] == match messages[i] {
                        MessageView::System(t) => ValueView::Fields(
                            seq![("role"@, ValueView::Text("system"@)), ("content"@, ValueView::Text(t))],
                        ),
                        MessageView::Assistant(t) => ValueView::Fields(
                            seq![
                                ("role"@, ValueView::Text("assistant"@)),
                                ("content"@, ValueView::Text(t)),
                            ],
                        ),
                        MessageView::User(t) => ValueView::Fields(
                            seq![("role"@, ValueView::Text("user"@)), ("content"@, ValueView::Text(t))],
                        ),
                    }
            }
        },
{
    reveal_strlit("model");
    reveal_strlit("messages");
    reveal_strlit("stream");
    let entries = seq![message_value("system"@, system_prompt)] + messages.map_values(
        |m: MessageView| message_value_of(m),
    );
    let f = seq![
        ("model"@, ValueView::Text(model)),
        ("messages"@, ValueView::Sequence(entries)),
        ("stream"@, ValueView::Bool(true)),
        ("cache_prompt"@, ValueView::Bool(true)),
    ];
    assert("model"@ != "messages"@) by {
        assert("model"@[2] != "messages"@[2]);
    }
    assert("model"@ != "stream"@) by {
        assert("model"@[0] != "stream"@[0]);
    }
    assert("messages"@ != "stream"@) by {
        assert("messages"@[0] != "stream"@[0]);
    }
    value::lemma_lookup_skip(f, "model"@, 0);
    assert(f.skip(0) =~= f);
    value::lemma_lookup_skip(f, "messages"@, 1);
    assert(f.skip(1)[0] == f[1]);
    value::lemma_lookup_skip(f, "stream"@, 2);
    assert(f.skip(2)[0] == f[2]);
    assert forall|i: int| 0 <= i < messages.len() implies #[trigger] entries[i + 1] == match messages[i] {
        MessageView::System(t) => ValueView::Fields(
            seq![("role"@, ValueView::Text("system"@)), ("content"@, ValueView::Text(t))],
        ),
        MessageView::Assistant(t) => ValueView::Fields(
            seq![("role"@, ValueView::Text("assistant"@)), ("content"@, ValueView::Text(t))],
        ),
        MessageView::User(t) => ValueView::Fields(
            seq![("role"@, ValueView::Text("user"@)), ("content"@, ValueView::Text(t))],
        ),
    } by {
        assert(entries[i + 1] == message_value_of(messages[i]));
    }
}

fn message_entry(role: &str, content: &str) -> (v: Value)
    ensures
        v@ == message_value(role@, content@),
{
    let mut fields: Vec<(String, Value)> = Vec::new();
    fields.push(("role".to_owned(), Value::Text(role.to_owned())));
    fields.push(("content".to_owned(), Value::Text(content.to_owned())));
    proof {
        value::lemma_field_views_of(fields@);
        assert(value::field_views_of(fields@) =~= seq![
            ("role"@, ValueView::Text(role@)),
            ("content"@, ValueView::Text(content@)),
        ]);
    }
    Value::Fields(fields)
}

/// The body of the request for a streamed chat completion.
pub fn request_body(
    model: &str,
    system_prompt: &str,
    messages: &[Message],
    append: &[Message],
) -> (body: Value)
    ensures
        body@ == request_of(
            model@,
            system_prompt@,
            (messages@ + append@).map_values(|m: Message| m@),
        ),
{
    let ghost all = (messages@ + append@).map_values(|m: Message| m@);
    let ghost expected = seq![message_value("system"@, system_prompt@)] + all.map_values(
        |m: MessageView| message_value_of(m),
    );
    let mut items: Vec<Value> = Vec::new();
    items.push(message_entry("system", system_prompt));
    let mut i: usize = 0;
    while i < messages.len()
        invariant
            i <= messages@.len(),
            all == (messages@ + append@).map_values(|m: Message| m@),
            expected == seq![message_value("system"@, system_prompt@)] + all.map_values(
                |m: MessageView| message_value_of(m),
            ),
            items@.len() == i + 1,
            forall|j: int| 0 <= j <= i ==> #[trigger] items@[j]@ == expected[j],
        decreases messages@.len() - i,
    {
        assert(messages@[i as int]@ == all[i as int]);
        let (role, content) = messages[i].to_tuple();
        items.push(message_entry(role, content));
        i += 1;
    }
    let mut k: usize = 0;
    while k < append.len()
        invariant
            k <= append@.len(),
            all == (messages@ + append@).map_values(|m: Message| m@),
            expected == seq![message_value("system"@, system_prompt@)] + all.map_values(
                |m: MessageView| message_value_of(m),
            ),
            items@.len() == messages@.len() + k + 1,
            forall|j: int| 0 <= j <= messages@.len() + k ==> #[trigger] items@[j]@ == expected[j],
        decreases append@.len() - k,
    {
        assert(append@[k as int]@ == all[messages@.len() + k]);
        let (role, content) = append[k].to_tuple();
        items.push(message_entry(role, content));
        k += 1;
    }
    proof {
        value::lemma_views_of(items@);
        assert(expected.len() == items@.len());
        assert forall|j: int| 0 <= j < items@.len() implies value::views_of(items@)[j] == expected[j] by {
            assert(items@[j]@ == expected[j]);
        }
        assert(value::views_of(items@) =~= expected);
    }
    let mut fields: Vec<(String, Value)> = Vec::new();
    fields.push(("model".to_owned(), Value::Text(model.to_owned())));
    fields.push(("messages".to_owned(), Value::Sequence(items)));
    fields.push(("stream".to_owned(), Value::Bool(true)));
    fields.push(("cache_prompt".to_owned(), Value::Bool(true)));
    proof {
        value::lemma_field_views_of(fields@);
        assert(value::field_views_of(fields@) =~= seq![
            ("model"@, ValueView::Text(model@)),
            ("messages"@, ValueView::Sequence(expected)),
            ("stream"@, ValueView::Bool(true)),
            ("cache_prompt"@, ValueView::Bool(true)),
        ]);
    }
    Value::Fields(fields)
}

} // verus!
