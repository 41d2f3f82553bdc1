//! The interface: its screens as state machines (the application, the model
//! search and the conversation), how replies and their reasoning are shown
//! and copied, when a chat is titled and stored, and the names of the
//! settings sections and of the linked sites.
pub mod conversation;
pub mod history;
pub mod icebreaker;
pub mod plan;
pub mod search;

use vstd::prelude::*;
use crate::assistant;
use crate::assistant::{ReasoningView, ReplyView};
use crate::chat::Id;
use crate::duration::Duration;
use crate::text;

verus! {

/// A section of the settings screen.
#[derive(Debug, Clone, Copy, PartialEq, Eq, Structural)]
pub enum Section {
    Storage,
    Theme,
    Mcp,
}

/// The heading of a section.
pub open spec fn section_title(section: Section) -> Seq<char> {
    match section {
        Section::Storage => "Storage"@,
        Section::Theme => "Theme"@,
        Section::Mcp => "MCP"@,
    }
}

impl Section {
    /// The heading of the section.
    pub fn title(self) -> (t: &'static str)
        ensures
            t@ == section_title(self),
    {
        match self {
            Section::Storage => "Storage",
            Section::Theme => "Theme",
            Section::Mcp => "MCP",
        }
    }
}

/// A site that the about screen links to.
#[derive(Debug, Clone, Copy, PartialEq, Eq, Structural)]
pub enum Link {
    Rust,
    Iced,
    HuggingFace,
    LlamaCpp,
}

/// The address of a linked site.
pub open spec fn link_url(link: Link) -> Seq<char> {
    match link {
        Link::Rust => "https://rust-lang.org"@,
        Link::Iced => "https://iced.rs"@,
        Link::HuggingFace => "https://huggingface.co"@,
        Link::LlamaCpp => "https://github.com/ggerganov/llama.cpp"@,
    }
}

impl Link {
    /// The address of the site.
    pub fn url(self) -> (u: &'static str)
        ensures
            u@ == link_url(self),
    {
        match self {
            Link::Rust => "https://rust-lang.org",
            Link::Iced => "https://iced.rs",
            Link::HuggingFace => "https://huggingface.co",
            Link::LlamaCpp => "https://github.com/ggerganov/llama.cpp",
        }
    }
}

/// The separator between the thoughts of a reasoning.
pub open spec fn thought_break() -> Seq<char> {
    "\n\n"@
}

/// The reasoning of a reply as the conversation shows it: its thoughts (the
/// paragraphs of its content), how long it took, and whether it is unfolded.
#[derive(Debug)]
pub struct Reasoning {
    pub thoughts: Vec<String>,
    pub duration: Duration,
    pub show: bool,
}

/// The mathematical form of a shown [`Reasoning`].
pub struct ShownReasoning {
    pub thoughts: Seq<Seq<char>>,
    pub duration: Duration,
    pub show: bool,
}

impl View for Reasoning {
    type V = ShownReasoning;

    open spec fn view(&self) -> ShownReasoning {
        ShownReasoning { thoughts: self.thoughts.deep_view(), duration: self.duration, show: self.show }
    }
}

/// How the label of a reasoning reads: `Reasoned for N seconds`, or
/// `second` when N is 1.
pub open spec fn reasoned_label(secs: u64) -> Seq<char> {
    let unit = if secs != 1 {
        " seconds"@
    } else {
        " second"@
    };
    "Reasoned for "@ + text::decimal_of(secs as nat) + unit
}

impl Reasoning {
    /// The reasoning folded, its content cut into thoughts at blank lines.
    pub fn from_data(reasoning: assistant::Reasoning) -> (r: Reasoning)
        ensures
            r@.thoughts == text::split_on(reasoning@.content, thought_break()),
            r@.duration == reasoning@.duration,
            !r@.show,
    {
        proof {
            reveal_strlit("\n\n");
        }
        Reasoning {
            thoughts: text::split_str(reasoning.content.as_str(), "\n\n"),
            duration: reasoning.duration,
            show: false,
        }
    }

    /// The reasoning as data: its thoughts joined by blank lines.
    pub fn to_data(&self) -> (r: assistant::Reasoning)
        ensures
            r@ == (ReasoningView {
                content: text::joined(self@.thoughts, thought_break()),
                duration: self.duration,
            }),
    {
        assistant::Reasoning { content: text::join(&self.thoughts, "\n\n"), duration: self.duration }
    }

    /// The label of the toggle that unfolds the reasoning.
    pub fn label(&self) -> (l: String)
        ensures
            l@ == reasoned_label(self.duration.secs_of()),
    {
        let secs: u64 = self.duration.as_secs();
        let mut l = "Reasoned for ".to_owned();
        text::push_decimal(&mut l, secs);
        if secs != 1 {
            l.append(" seconds");
        } else {
            l.append(" second");
        }
        l
    }
}

/// A reasoning shown in the conversation and then saved reads back as it was.
pub proof fn lemma_reasoning_roundtrip(content: Seq<char>)
    ensures
        text::joined(text::split_on(content, thought_break()), thought_break()) == content,
{
    reveal_strlit("\n\n");
    text::lemma_split_join(content, thought_break());
}

/// The text of a reply that is copied: its thoughts, quoted, above its
/// content when the reasoning is unfolded; its content otherwise.
pub open spec fn reply_text_of(reasoning: Option<ShownReasoning>, content: Seq<char>) -> Seq<char> {
    match reasoning {
        Some(r) if r.show => text::joined(
            r.thoughts.map_values(|t: Seq<char>| "> "@ + t),
            "\n>\n"@,
        ) + "\n\n"@ + content,
        _ => content,
    }
}

/// A reply as the conversation shows it (its rendered text is kept apart).
#[derive(Debug)]
pub struct Reply {
    pub reasoning: Option<Reasoning>,
    pub content: String,
}

/// The mathematical form of a shown [`Reply`].
pub struct ShownReply {
    pub reasoning: Option<ShownReasoning>,
    pub content: Seq<char>,
}

impl View for Reply {
    type V = ShownReply;

    open spec fn view(&self) -> ShownReply {
        ShownReply {
            reasoning: match self.reasoning {
                Some(r) => Some(r@),
                None => None,
            },
            content: self.content@,
        }
    }
}

impl DeepView for Reply {
    type V = ShownReply;

    open spec fn deep_view(&self) -> ShownReply {
        self@
    }
}

/// A shown reasoning as data: its thoughts joined by blank lines.
pub open spec fn reasoning_data_of(r: ShownReasoning) -> ReasoningView {
    ReasoningView { content: text::joined(r.thoughts, thought_break()), duration: r.duration }
}

/// A shown reply as data.
pub open spec fn reply_data_of(r: ShownReply) -> ReplyView {
    ReplyView {
        reasoning: match r.reasoning {
            Some(x) => Some(reasoning_data_of(x)),
            None => None,
        },
        content: r.content,
        last_token: None,
    }
}

/// A shown reasoning of `r`, folded or not.
pub open spec fn shown(r: ReasoningView, show: bool) -> ShownReasoning {
    ShownReasoning {
        thoughts: text::split_on(r.content, thought_break()),
        duration: r.duration,
        show,
    }
}

fn reasoning_shown(reasoning: Option<assistant::Reasoning>, show: bool) -> (r: Option<Reasoning>)
    ensures
        match reasoning {
            Some(x) => r matches Some(y) && y@ == shown(x@, show),
            None => r is None,
        },
{
    match reasoning {
        Some(x) => {
            let mut y = Reasoning::from_data(x);
            y.show = show;
            Some(y)
        },
        None => None,
    }
}

impl Reply {
    /// A reply shown from data, its reasoning folded.
    pub fn from_data(reply: assistant::Reply) -> (r: Reply)
        ensures
            match reply@.reasoning {
                Some(x) => r@.reasoning == Some(shown(x, false)),
                None => r@.reasoning is None,
            },
            r@.content == reply@.content,
    {
        Reply { reasoning: reasoning_shown(reply.reasoning, false), content: reply.content }
    }

    /// The reply as data.
    pub fn to_data(&self) -> (r: assistant::Reply)
        ensures
            r@ == reply_data_of(self@),
    {
        let reasoning = match &self.reasoning {
            Some(x) => Some(x.to_data()),
            None => None,
        };
        assistant::Reply { reasoning, content: self.content.clone(), last_token: None }
    }

    /// The text copied from the reply.
    pub fn to_text(&self) -> (t: String)
        ensures
            t@ == reply_text_of(self@.reasoning, self@.content),
    {
        match &self.reasoning {
            Some(r) if r.show => {
                let mut quoted: Vec<String> = Vec::new();
                let mut i: usize = 0;
                while i < r.thoughts.len()
                    invariant
                        i <= r.thoughts.len(),
                        quoted.deep_view() == r.thoughts.deep_view().take(i as int).map_values(
                            |t: Seq<char>| "> "@ + t,
                        ),
                    decreases r.thoughts.len() - i,
                {
                    let mut line = "> ".to_owned();
                    line.append(r.thoughts[i].as_str());
                    let ghost before = quoted.deep_view();
                    quoted.push(line);
                    assert(quoted.deep_view() =~= before.push(line@));
                    assert(r.thoughts.deep_view().take(i + 1).map_values(|t: Seq<char>| "> "@ + t)
                        =~= before.push("> "@ + r.thoughts@[i as int]@));
                    i += 1;
                }
                assert(r.thoughts.deep_view().take(i as int) =~= r.thoughts.deep_view());
                let mut t = text::join(&quoted, "\n>\n");
                t.append("\n\n");
                t.append(self.content.as_str());
                t
            },
            _ => self.content.clone(),
        }
    }

    /// Takes in the reply so far as it streams: the reasoning unfolds while
    /// thoughts arrive and folds once the reply talks. The result is the token
    /// to append to the rendered text, if any.
    pub fn update(&mut self, new_reply: assistant::Reply) -> (token: Option<String>)
        ensures
            final(self)@.content == new_reply@.content,
            match new_reply@.reasoning {
                Some(x) => final(self)@.reasoning == Some(shown(x, new_reply@.last_token is None)),
                None => final(self)@.reasoning is None,
            },
            token.deep_view() == new_reply@.last_token,
    {
        let show = new_reply.last_token.is_none();
        self.reasoning = reasoning_shown(new_reply.reasoning, show);
        self.content = new_reply.content;
        new_reply.last_token
    }

    /// Unfolds or folds the reasoning, if there is one.
    pub fn toggle_reasoning(&mut self, show: bool)
        ensures
            final(self)@.content == old(self)@.content,
            match old(self)@.reasoning {
                Some(r) => final(self)@.reasoning == Some(ShownReasoning { show, ..r }),
                None => final(self)@.reasoning is None,
            },
    {
        match &mut self.reasoning {
            Some(r) => {
                r.show = show;
            },
            None => {},
        }
    }
}

/// The window title: the chat's title, or the model's name, then the app's name.
pub open spec fn window_title_of(title: Option<Seq<char>>, model_name: Seq<char>) -> Seq<char> {
    let name = match title {
        Some(t) => t,
        None => model_name,
    };
    name + " - Icebreaker"@
}

/// The window title of a conversation.
pub fn window_title(title: Option<&str>, model_name: &str) -> (t: String)
    ensures
        t@ == window_title_of(
            match title {
                Some(s) => Some(s@),
                None => None,
            },
            model_name@,
        ),
{
    let mut t = match title {
        Some(s) => s.to_owned(),
        None => model_name.to_owned(),
    };
    t.append(" - Icebreaker");
    t
}

/// What a submitted input sends: the trimmed text, unless it is empty.
pub open spec fn submission_of(input: Seq<char>) -> Option<Seq<char>> {
    if text::trimmed(input).len() == 0 {
        None
    } else {
        Some(text::trimmed(input))
    }
}

/// What a submitted input sends.
pub fn submission(input: &str) -> (s: Option<String>)
    ensures
        s.deep_view() == submission_of(input@),
{
    let t = text::trim(input);
    if t.as_str().is_empty() {
        None
    } else {
        Some(t)
    }
}

/// Whether a title is asked for once a reply is done: when the chat has
/// none yet, and again after the first and the third exchange.
pub open spec fn asks_title(has_title: bool, messages: nat) -> bool {
    !has_title || messages == 2 || messages == 6
}

/// Whether a title is asked for once a reply is done.
pub fn wants_title(has_title: bool, messages: usize) -> (b: bool)
    ensures
        b == asks_title(has_title, messages as nat),
{
    !has_title || messages == 2 || messages == 6
}

/// How a conversation is stored once it changes.
#[derive(Debug, Clone, Copy, PartialEq, Eq, Structural)]
pub enum Persist {
    /// Not now: the assistant is not running, or a reply is still coming.
    Wait,
    /// Save the chat that is already stored.
    Save(Id),
    /// Store a new chat.
    Create,
}

/// How a conversation is stored once it changes.
pub open spec fn persist_of(running: bool, sending: bool, id: Option<Id>) -> Persist {
    if !running || sending {
        Persist::Wait
    } else {
        match id {
            Some(id) => Persist::Save(id),
            None => Persist::Create,
        }
    }
}

/// How a conversation is stored once it changes.
pub fn persist(running: bool, sending: bool, id: Option<Id>) -> (p: Persist)
    ensures
        p == persist_of(running, sending, id),
{
    if !running || sending {
        Persist::Wait
    } else {
        match id {
            Some(id) => Persist::Save(id),
            None => Persist::Create,
        }
    }
}

/// The frame of the spinner shown while the assistant boots.
pub open spec fn spinner_of(tick: usize) -> Seq<char> {
    if tick % 4 == 0 {
        "|"@
    } else if tick % 4 == 1 {
        "/"@
    } else if tick % 4 == 2 {
        "—"@
    } else {
        "\\"@
    }
}

/// The frame of the spinner at `tick`.
pub fn spinner(tick: usize) -> (s: &'static str)
    ensures
        s@ == spinner_of(tick),
{
    match tick % 4 {
        0 => "|",
        1 => "/",
        2 => "—",
        _ => "\\",
    }
}

/// The window title of the model search: the selected model's name, or the
/// search itself.
pub open spec fn search_title_of(selected: Option<Seq<char>>) -> Seq<char> {
    match selected {
        Some(id) => crate::model::name_of(id) + " - Icebreaker"@,
        None => "Models - Icebreaker"@,
    }
}

/// The window title of the model search.
pub fn search_title(selected: Option<&crate::model::Id>) -> (t: String)
    ensures
        t@ == search_title_of(
            match selected {
                Some(id) => Some(id@),
                None => None,
            },
        ),
{
    match selected {
        Some(id) => {
            let mut t = id.name().to_owned();
            t.append(" - Icebreaker");
            t
        },
        None => "Models - Icebreaker".to_owned(),
    }
}

/// The model search waits for typing to pause: every change warms it up, and
/// each change cools down a second later; the search runs once it is cold.
#[derive(Debug)]
pub struct Debounce {
    temperature: u64,
}

impl View for Debounce {
    type V = nat;

    closed spec fn view(&self) -> nat {
        self.temperature as nat
    }
}

impl Debounce {
    /// Nothing typed yet.
    pub fn new() -> (d: Debounce)
        ensures
            d@ == 0,
    {
        Debounce { temperature: 0 }
    }

    /// The search text changed.
    pub fn changed(&mut self)
        ensures
            final(self)@ == (if old(self)@ < u64::MAX {
                old(self)@ + 1
            } else {
                old(self)@
            }),
    {
        self.temperature = self.temperature.saturating_add(1);
    }

    /// A change cooled down; the result says whether to search now.
    pub fn cooled(&mut self) -> (search: bool)
        ensures
            final(self)@ == (if old(self)@ > 0 {
                (old(self)@ - 1) as nat
            } else {
                0
            }),
            search == (final(self)@ == 0),
    {
        self.temperature = self.temperature.saturating_sub(1);
        self.temperature == 0
    }
}

/// The backend for the machine: detected from its graphics adapter, or the
/// CPU when the machine is not known yet.
pub fn machine_backend(graphics_adapter: Option<&str>) -> (b: assistant::Backend)
    ensures
        b == match graphics_adapter {
            Some(name) => assistant::backend_for(name@),
            None => assistant::Backend::Cpu,
        },
{
    match graphics_adapter {
        Some(name) => assistant::Backend::detect(name),
        None => assistant::Backend::Cpu,
    }
}

} // verus!
