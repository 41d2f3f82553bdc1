//! The assistant: the hardware it runs on, the messages it is sent, and how
//! its streamed completions become tokens and replies.
use vstd::prelude::*;
use crate::duration::Duration;
use crate::text;

verus! {

/// The hardware backend that runs the model.
#[derive(Debug, Clone, Copy, PartialEq, Eq, Structural)]
pub enum Backend {
    Cpu,
    Cuda,
    Rocm,
}

/// The backend for a graphics adapter with the given name.
pub open spec fn backend_for(graphics_adapter: Seq<char>) -> Backend {
    if text::contains(graphics_adapter, "NVIDIA"@) {
        Backend::Cuda
    } else if text::contains(graphics_adapter, "AMD"@) {
        Backend::Rocm
    } else {
        Backend::Cpu
    }
}

impl Backend {
    /// Picks CUDA for NVIDIA adapters, ROCm for AMD ones and the CPU otherwise.
    pub fn detect(graphics_adapter: &str) -> (backend: Backend)
        ensures
            backend == backend_for(graphics_adapter@),
    {
        if text::contains_str(graphics_adapter, "NVIDIA") {
            Backend::Cuda
        } else if text::contains_str(graphics_adapter, "AMD") {
            Backend::Rocm
        } else {
            Backend::Cpu
        }
    }

    /// Whether the backend runs on a GPU.
    pub fn uses_gpu(self) -> (b: bool)
        ensures
            b == (self != Backend::Cpu),
    {
        match self {
            Backend::Cuda | Backend::Rocm => true,
            Backend::Cpu => false,
        }
    }
}

/// A message of a conversation with the assistant.
#[derive(Debug)]
pub enum Message {
    System(String),
    Assistant(String),
    User(String),
}

/// The role and content of a message.
pub open spec fn role_and_content(message: MessageView) -> (Seq<char>, Seq<char>) {
    match message {
        MessageView::System(content) => ("system"@, content),
        MessageView::Assistant(content) => ("assistant"@, content),
        MessageView::User(content) => ("user"@, content),
    }
}

/// The mathematical form of a [`Message`].
pub enum MessageView {
    System(Seq<char>),
    Assistant(Seq<char>),
    User(Seq<char>),
}

impl View for Message {
    type V = MessageView;

    open spec fn view(&self) -> MessageView {
        match self {
            Message::System(c) => MessageView::System(c@),
            Message::Assistant(c) => MessageView::Assistant(c@),
            Message::User(c) => MessageView::User(c@),
        }
    }
}

impl DeepView for Message {
    type V = MessageView;

    open spec fn deep_view(&self) -> MessageView {
        self@
    }
}

impl Clone for Message {
    fn clone(&self) -> (r: Self)
        ensures
            r@ == self@,
    {
        match self {
            Message::System(c) => Message::System(c.clone()),
            Message::Assistant(c) => Message::Assistant(c.clone()),
            Message::User(c) => Message::User(c.clone()),
        }
    }
}

impl Message {
    /// The role (`system`, `assistant` or `user`) and the content.
    pub fn to_tuple(&self) -> (r: (&'static str, &str))
        ensures
            (r.0@, r.1@) == role_and_content(self@),
    {
        match self {
            Message::System(content) => ("system", content.as_str()),
            Message::Assistant(content) => ("assistant", content.as_str()),
            Message::User(content) => ("user", content.as_str()),
        }
    }
}

/// What the assistant thought before replying, and for how long.
#[derive(Debug)]
pub struct Reasoning {
    pub content: String,
    pub duration: Duration,
}

/// The mathematical form of a [`Reasoning`].
pub struct ReasoningView {
    pub content: Seq<char>,
    pub duration: Duration,
}

impl View for Reasoning {
    type V = ReasoningView;

    open spec fn view(&self) -> ReasoningView {
        ReasoningView { content: self.content@, duration: self.duration }
    }
}

impl DeepView for Reasoning {
    type V = ReasoningView;

    open spec fn deep_view(&self) -> ReasoningView {
        self@
    }
}

impl Clone for Reasoning {
    fn clone(&self) -> (r: Self)
        ensures
            r@ == self@,
    {
        Reasoning { content: self.content.clone(), duration: self.duration }
    }
}

/// A reply of the assistant.
#[derive(Debug)]
pub struct Reply {
    pub reasoning: Option<Reasoning>,
    pub content: String,
    /// The token that last extended the content, while the reply is streaming.
    pub last_token: Option<String>,
}

/// The mathematical form of a [`Reply`].
pub struct ReplyView {
    pub reasoning: Option<ReasoningView>,
    pub content: Seq<char>,
    pub last_token: Option<Seq<char>>,
}

impl View for Reply {
    type V = ReplyView;

    open spec fn view(&self) -> ReplyView {
        ReplyView {
            reasoning: self.reasoning.deep_view(),
            content: self.content@,
            last_token: self.last_token.deep_view(),
        }
    }
}

impl DeepView for Reply {
    type V = ReplyView;

    open spec fn deep_view(&self) -> ReplyView {
        self@
    }
}

/// A copy of `reasoning`.
pub fn clone_reasoning(reasoning: &Option<Reasoning>) -> (r: Option<Reasoning>)
    ensures
        r.deep_view() == reasoning.deep_view(),
{
    match reasoning {
        Some(r) => Some(r.clone()),
        None => None,
    }
}

/// A copy of `text`.
pub fn clone_text(text: &Option<String>) -> (r: Option<String>)
    ensures
        r.deep_view() == text.deep_view(),
{
    match text {
        Some(t) => Some(t.clone()),
        None => None,
    }
}

impl Clone for Reply {
    fn clone(&self) -> (r: Self)
        ensures
            r@ == self@,
    {
        Reply {
            reasoning: clone_reasoning(&self.reasoning),
            content: self.content.clone(),
            last_token: clone_text(&self.last_token),
        }
    }
}

impl Reply {
    /// An empty reply.
    pub fn empty() -> (r: Reply)
        ensures
            r@ == (ReplyView { reasoning: None, content: Seq::empty(), last_token: None }),
    {
        Reply { reasoning: None, content: String::new(), last_token: None }
    }
}

/// A piece of a completion: part of the reasoning, or part of the reply.
#[derive(Debug, PartialEq, Eq)]
pub enum Token {
    Reasoning(String),
    Talking(String),
}

/// The mathematical form of a [`Token`].
pub enum TokenView {
    Reasoning(Seq<char>),
    Talking(Seq<char>),
}

impl View for Token {
    type V = TokenView;

    open spec fn view(&self) -> TokenView {
        match self {
            Token::Reasoning(t) => TokenView::Reasoning(t@),
            Token::Talking(t) => TokenView::Talking(t@),
        }
    }
}

impl Clone for Token {
    fn clone(&self) -> (r: Self)
        ensures
            r@ == self@,
    {
        match self {
            Token::Reasoning(t) => Token::Reasoning(t.clone()),
            Token::Talking(t) => Token::Talking(t.clone()),
        }
    }
}

} // verus!
