//! The conversation screen as a state machine: the front end hands it each
//! message (what was typed, what the assistant streamed, what storage
//! answered) and performs the action it returns.
use vstd::prelude::*;
use crate::assistant::Backend;
use crate::chat;
use crate::chat::{Chat, ChatView, Entry, EntryView, Id, ItemView, Strategy};
use crate::model::{File, FileView};
use crate::ui::{Persist, asks_title, persist, submission, submission_of, wants_title};
use crate::ui::history::{
    History, ShownItem, history_after, item_data_of, plan_message_applied, reasoning_toggled,
    shown_item,
};
use crate::ui::plan;

verus! {

/// Where the assistant of the conversation is.
#[derive(Debug)]
pub enum Stage {
    /// Starting for `file`: its log lines so far, the stage it reports and how
    /// far along it is, and the frame of the spinner.
    Booting { file: File, logs: Vec<String>, stage: String, progress: u32, tick: usize },
    /// Running `file`; `sending` while a reply is being completed.
    Running { file: File, sending: bool },
}

/// The mathematical form of a [`Stage`].
pub enum StageView {
    Booting { file: FileView, logs: Seq<Seq<char>>, stage: Seq<char>, progress: u32, tick: usize },
    Running { file: FileView, sending: bool },
}

impl View for Stage {
    type V = StageView;

    open spec fn view(&self) -> StageView {
        match self {
            Stage::Booting { file, logs, stage, progress, tick } => StageView::Booting {
                file: file@,
                logs: logs.deep_view(),
                stage: stage@,
                progress: *progress,
                tick: *tick,
            },
            Stage::Running { file, sending } => StageView::Running { file: file@, sending: *sending },
        }
    }
}

/// What the conversation is told.
#[derive(Debug)]
pub enum Message {
    /// The stored chats were listed.
    ChatsListed(Result<Vec<Entry>, String>),
    /// The assistant reports a stage of its start and how far along it is.
    Progressed { stage: String, percent: u32 },
    /// The assistant logged a line while starting.
    Logged(String),
    /// The assistant started, running `file`, or failed to.
    Booted(Result<File, String>),
    /// The spinner moves on.
    Tick,
    /// The text of the input is now this.
    InputChanged(String),
    /// Searching the web before answering is switched.
    ToggleSearch,
    /// The input is sent.
    Submit,
    /// The history is answered again from its first `n` items.
    Regenerate(usize),
    /// The completion in flight moved on.
    Chatting(chat::Event),
    /// The completion ended.
    Chatted(Result<(), String>),
    /// The title as the assistant writes it.
    TitleChanging(String),
    /// The title is written, or writing it failed.
    TitleChanged(Result<String, String>),
    /// A text is copied.
    Copy(String),
    /// The reasoning of the reply at the index is unfolded or folded.
    ToggleReasoning(usize, bool),
    /// A message for the view of the plan at the index.
    Plan(usize, plan::Message),
    /// A new chat was stored under the id, or storing it failed.
    Created(Result<Id, String>),
    /// The chat was saved under the id, or saving it failed.
    Saved(Result<Id, String>),
    /// A stored chat is opened.
    Open(Id),
    /// A stored chat was read, or reading it failed.
    ChatFetched(Result<Chat, String>),
    /// The chat opened last was read, or there is none.
    LastChatFetched(Result<Chat, String>),
    /// The chat is deleted.
    Delete,
    /// A new chat is started.
    New,
}

/// What the front end does next.
#[derive(Debug)]
pub enum Action {
    /// Nothing to do.
    Idle,
    /// Complete the history with the strategy, and scroll to its end.
    Complete { history: Vec<chat::Item>, strategy: Strategy },
    /// Scroll to the end of the history.
    Snap,
    /// Ask the assistant for a title of the history.
    Title(Vec<chat::Item>),
    /// Save the chat.
    Save(Chat),
    /// Store a new chat.
    Create { file: File, title: Option<String>, history: Vec<chat::Item> },
    /// List the stored chats.
    ListChats,
    /// Read a stored chat.
    Fetch(Id),
    /// Delete a stored chat, then read the chat opened last and list the chats.
    Delete(Id),
    /// Start the assistant for the file, and list the stored chats.
    Boot(File),
    /// Put the text on the clipboard.
    Copy(String),
    /// Focus the input.
    Focus,
}

/// The mathematical form of an [`Action`].
pub enum ActionView {
    Idle,
    Complete { history: Seq<ItemView>, strategy: Strategy },
    Snap,
    Title(Seq<ItemView>),
    Save(ChatView),
    Create { file: FileView, title: Option<Seq<char>>, history: Seq<ItemView> },
    ListChats,
    Fetch(Id),
    Delete(Id),
    Boot(FileView),
    Copy(Seq<char>),
    Focus,
}

impl View for Action {
    type V = ActionView;

    open spec fn view(&self) -> ActionView {
        match self {
            Action::Idle => ActionView::Idle,
            Action::Complete { history, strategy } => ActionView::Complete {
                history: history.deep_view(),
                strategy: *strategy,
            },
            Action::Snap => ActionView::Snap,
            Action::Title(h) => ActionView::Title(h.deep_view()),
            Action::Save(c) => ActionView::Save(c@),
            Action::Create { file, title, history } => ActionView::Create {
                file: file@,
                title: title.deep_view(),
                history: history.deep_view(),
            },
            Action::ListChats => ActionView::ListChats,
            Action::Fetch(id) => ActionView::Fetch(*id),
            Action::Delete(id) => ActionView::Delete(*id),
            Action::Boot(f) => ActionView::Boot(f@),
            Action::Copy(t) => ActionView::Copy(t@),
            Action::Focus => ActionView::Focus,
        }
    }
}

/// A conversation with the assistant.
#[derive(Debug)]
pub struct Conversation {
    pub backend: Backend,
    pub chats: Vec<Entry>,
    pub state: Stage,
    pub id: Option<Id>,
    pub title: Option<String>,
    pub history: History,
    pub input: String,
    pub strategy: Strategy,
    pub error: Option<String>,
}

/// The mathematical form of a [`Conversation`].
pub struct ConversationView {
    pub backend: Backend,
    pub chats: Seq<EntryView>,
    pub state: StageView,
    pub id: Option<Id>,
    pub title: Option<Seq<char>>,
    pub history: Seq<ShownItem>,
    pub input: Seq<char>,
    pub strategy: Strategy,
    pub error: Option<Seq<char>>,
}

impl View for Conversation {
    type V = ConversationView;

    open spec fn view(&self) -> ConversationView {
        ConversationView {
            backend: self.backend,
            chats: self.chats.deep_view(),
            state: self.state@,
            id: self.id,
            title: self.title.deep_view(),
            history: self.history@,
            input: self.input@,
            strategy: self.strategy,
            error: self.error.deep_view(),
        }
    }
}

/// The history as the items of a chat.
pub open spec fn data_of(history: Seq<ShownItem>) -> Seq<ItemView> {
    history.map_values(|i: ShownItem| item_data_of(i))
}

/// What the stage reports before the assistant says anything.
pub open spec fn first_stage() -> Seq<char> {
    "Booting..."@
}

/// A new conversation with the model file, its assistant starting.
pub open spec fn started(file: FileView, backend: Backend) -> ConversationView {
    ConversationView {
        backend,
        chats: Seq::empty(),
        state: StageView::Booting { file, logs: Seq::empty(), stage: first_stage(), progress: 0, tick: 0 },
        id: None,
        title: None,
        history: Seq::empty(),
        input: Seq::empty(),
        strategy: Strategy { search: false },
        error: None,
    }
}

/// A stored chat, opened in a new conversation whose assistant starts.
pub open spec fn opened(chat: ChatView, backend: Backend) -> ConversationView {
    ConversationView {
        id: Some(chat.id),
        title: chat.title,
        history: chat.history.map_values(|i: ItemView| shown_item(i)),
        ..started(chat.file, backend)
    }
}

/// How the conversation is stored as it stands: not while the assistant
/// starts or a reply is still coming; saved under its id if it has one;
/// stored as a new chat otherwise.
pub open spec fn storing(c: ConversationView) -> ActionView {
    match c.state {
        StageView::Running { file, sending } => {
            if sending {
                ActionView::Idle
            } else {
                match c.id {
                    Some(id) => ActionView::Save(
                        ChatView { id, file, title: c.title, history: data_of(c.history) },
                    ),
                    None => ActionView::Create { file, title: c.title, history: data_of(c.history) },
                }
            }
        },
        _ => ActionView::Idle,
    }
}

/// The conversation with no reply in flight, if its assistant runs.
pub open spec fn stopped(c: ConversationView) -> ConversationView {
    match c.state {
        StageView::Running { file, .. } => ConversationView {
            state: StageView::Running { file, sending: false },
            ..c
        },
        _ => c,
    }
}

/// The conversation once it takes in the stored chat: the chat replaces
/// the conversation's own when the assistant runs or starts for its model
/// file (with no reply in flight and no error left, once it runs);
/// otherwise the chat opens in a new conversation.
pub open spec fn with_chat(c: ConversationView, chat: ChatView) -> (ConversationView, ActionView) {
    let restored = ConversationView {
        id: Some(chat.id),
        title: chat.title,
        history: chat.history.map_values(|i: ItemView| shown_item(i)),
        input: Seq::empty(),
        ..c
    };
    match c.state {
        StageView::Booting { file, .. } if file == chat.file => (restored, ActionView::Idle),
        StageView::Running { file, .. } if file == chat.file => (
            ConversationView {
                state: StageView::Running { file, sending: false },
                error: None,
                ..restored
            },
            ActionView::Idle,
        ),
        _ => (opened(chat, c.backend), ActionView::Boot(chat.file)),
    }
}

/// The conversation once a new chat starts: empty, with no reply in flight.
pub open spec fn emptied(c: ConversationView) -> ConversationView {
    stopped(
        ConversationView {
            id: None,
            title: None,
            history: Seq::empty(),
            input: Seq::empty(),
            error: None,
            ..c
        },
    )
}

/// The conversation once a completion starts on the history `h`.
pub open spec fn sending_with(c: ConversationView, file: FileView, h: Seq<ShownItem>) -> ConversationView {
    ConversationView { history: h, state: StageView::Running { file, sending: true }, ..c }
}

/// Whether new messages can be sent: the assistant runs and no reply is in
/// flight. Events of a completion are taken in only while this is false.
pub open spec fn can_send_in(c: ConversationView) -> bool {
    c.state matches StageView::Running { sending, .. } && !sending
}

/// The conversation after message `m`, and what the front end does then.
pub open spec fn step(c: ConversationView, m: Message) -> (ConversationView, ActionView) {
    match m {
        Message::ChatsListed(Ok(chats)) => (ConversationView { chats: chats.deep_view(), ..c }, ActionView::Idle),
        Message::Progressed { stage, percent } => match c.state {
            StageView::Booting { file, logs, tick, .. } => (
                ConversationView {
                    state: StageView::Booting { file, logs, stage: stage@, progress: percent, tick },
                    ..c
                },
                ActionView::Idle,
            ),
            _ => (c, ActionView::Idle),
        },
        Message::Logged(line) => match c.state {
            StageView::Booting { file, logs, stage, progress, tick } => (
                ConversationView {
                    state: StageView::Booting { file, logs: logs.push(line@), stage, progress, tick },
                    ..c
                },
                ActionView::Idle,
            ),
            _ => (c, ActionView::Idle),
        },
        Message::Booted(Ok(file)) => (
            ConversationView { state: StageView::Running { file: file@, sending: false }, ..c },
            ActionView::Idle,
        ),
        Message::Tick => match c.state {
            StageView::Booting { file, logs, stage, progress, tick } => (
                ConversationView {
                    state: StageView::Booting {
                        file,
                        logs,
                        stage,
                        progress,
                        tick: if tick < usize::MAX { (tick + 1) as usize } else { 0 },
                    },
                    ..c
                },
                ActionView::Idle,
            ),
            _ => (c, ActionView::Idle),
        },
        Message::InputChanged(text) => (ConversationView { input: text@, error: None, ..c }, ActionView::Idle),
        Message::ToggleSearch => (
            ConversationView { strategy: Strategy { search: !c.strategy.search }, ..c },
            ActionView::Idle,
        ),
        Message::Submit => match (c.state, submission_of(c.input)) {
            (StageView::Running { file, .. }, Some(content)) => {
                let h = c.history.push(ShownItem::User(content));
                (
                    ConversationView { input: Seq::empty(), ..sending_with(c, file, h) },
                    ActionView::Complete { history: data_of(h), strategy: c.strategy },
                )
            },
            _ => (c, ActionView::Idle),
        },
        Message::Regenerate(n) => match c.state {
            StageView::Running { file, .. } => {
                let h = if n < c.history.len() {
                    c.history.take(n as int)
                } else {
                    c.history
                };
                (sending_with(c, file, h), ActionView::Complete { history: data_of(h), strategy: c.strategy })
            },
            _ => (c, ActionView::Idle),
        },
        Message::Chatting(event) => {
            if can_send_in(c) {
                (c, ActionView::Idle)
            } else {
                (
                    ConversationView { history: history_after(c.history, event@), ..c },
                    if event@ is ReplyAdded {
                        ActionView::Snap
                    } else {
                        ActionView::Idle
                    },
                )
            }
        },
        Message::Chatted(Ok(())) => match c.state {
            StageView::Running { .. } => {
                let d = stopped(c);
                if asks_title(c.title is Some, c.history.len()) {
                    (d, ActionView::Title(data_of(c.history)))
                } else {
                    (d, storing(d))
                }
            },
            _ => (c, ActionView::Idle),
        },
        Message::Chatted(Err(e)) => (ConversationView { error: Some(e@), ..stopped(c) }, ActionView::Idle),
        Message::TitleChanging(t) => (ConversationView { title: Some(t@), ..c }, ActionView::Idle),
        Message::TitleChanged(Ok(t)) => {
            let d = ConversationView { title: Some(t@), ..c };
            (d, storing(d))
        },
        Message::Copy(t) => (c, ActionView::Copy(t@)),
        Message::ToggleReasoning(i, show) => (
            ConversationView { history: reasoning_toggled(c.history, i as int, show), ..c },
            ActionView::Idle,
        ),
        Message::Plan(i, pm) => (
            ConversationView { history: plan_message_applied(c.history, i as int, pm), ..c },
            ActionView::Idle,
        ),
        Message::Created(Ok(id)) => (ConversationView { id: Some(id), ..c }, ActionView::ListChats),
        Message::Saved(Ok(id)) => (ConversationView { id: Some(id), ..c }, ActionView::ListChats),
        Message::Open(id) => (c, ActionView::Fetch(id)),
        Message::ChatFetched(Ok(chat)) => with_chat(c, chat@),
        Message::LastChatFetched(Ok(chat)) => with_chat(c, chat@),
        Message::New => (emptied(c), ActionView::Focus),
        Message::LastChatFetched(Err(_)) => (emptied(c), ActionView::Focus),
        Message::Delete => match c.id {
            Some(id) => (c, ActionView::Delete(id)),
            None => (c, ActionView::Idle),
        },
        Message::ChatsListed(Err(e)) => (ConversationView { error: Some(e@), ..c }, ActionView::Idle),
        Message::Booted(Err(e)) => (ConversationView { error: Some(e@), ..c }, ActionView::Idle),
        Message::TitleChanged(Err(e)) => (ConversationView { error: Some(e@), ..c }, ActionView::Idle),
        Message::Created(Err(e)) => (ConversationView { error: Some(e@), ..c }, ActionView::Idle),
        Message::Saved(Err(e)) => (ConversationView { error: Some(e@), ..c }, ActionView::Idle),
        Message::ChatFetched(Err(e)) => (ConversationView { error: Some(e@), ..c }, ActionView::Idle),
    }
}

/// While a message can be sent, no completion is in flight, so an event of
/// one (left over from a completion that was stopped) changes nothing.
pub proof fn lemma_stale_event_ignored(c: ConversationView, event: chat::Event)
    requires
        can_send_in(c),
    ensures
        step(c, Message::Chatting(event)) == (c, ActionView::Idle),
{
}

/// A completion that ends asks for a title when the chat has none, and
/// otherwise stores the chat: saved under its id, or created.
pub proof fn lemma_title_before_storing(c: ConversationView, file: FileView, sending: bool)
    requires
        c.state == (StageView::Running { file, sending }),
    ensures
        c.title is None ==> step(c, Message::Chatted(Ok(()))).1 == ActionView::Title(data_of(c.history)),
        c.title is Some && c.history.len() != 2 && c.history.len() != 6 ==> step(
            c,
            Message::Chatted(Ok(())),
        ).1 == match c.id {
            Some(id) => ActionView::Save(
                ChatView { id, file, title: c.title, history: data_of(c.history) },
            ),
            None => ActionView::Create { file, title: c.title, history: data_of(c.history) },
        },
{
}

/// Answering again from the first `n` items, while the assistant runs,
/// drops the items after them and asks for a completion of exactly those `n`
/// items, with a reply now in flight; when `n` reaches past the end, the
/// whole history is answered again.
pub proof fn lemma_regenerate(c: ConversationView, file: FileView, sending: bool, n: usize)
    requires
        c.state == (StageView::Running { file, sending }),
    ensures
        ({
            let (d, a) = step(c, Message::Regenerate(n));
            let kept = if n < c.history.len() {
                n as int
            } else {
                c.history.len() as int
            };
            &&& d.history.len() == kept
            &&& forall|i: int| 0 <= i < kept ==> d.history[i] == c.history[i]
            &&& d.state == (StageView::Running { file, sending: true })
            &&& !can_send_in(d)
            &&& a matches ActionView::Complete { history, strategy } && {
                &&& strategy == c.strategy
                &&& history.len() == kept
                &&& forall|i: int| 0 <= i < kept ==> history[i] == item_data_of(c.history[i])
            }
        }),
{
}

/// Sending the input, while the assistant runs: an input that is blank once
/// trimmed sends nothing and changes nothing; any other is added to the
/// history, trimmed, as the user's message, the input empties, and a
/// completion of the whole history so far is asked for.
pub proof fn lemma_submit(c: ConversationView, file: FileView, sending: bool)
    requires
        c.state == (StageView::Running { file, sending }),
    ensures
        ({
            let (d, a) = step(c, Message::Submit);
            let t = crate::text::trimmed(c.input);
            &&& t.len() == 0 ==> d == c && a == ActionView::Idle
            &&& t.len() > 0 ==> {
                &&& d.history == c.history.push(ShownItem::User(t))
                &&& d.input.len() == 0
                &&& d.state == (StageView::Running { file, sending: true })
                &&& a matches ActionView::Complete { history, strategy } && {
                    &&& strategy == c.strategy
                    &&& history.len() == c.history.len() + 1
                    &&& history.last() == ItemView::User(t)
                    &&& forall|i: int| 0 <= i < c.history.len() ==> history[i] == item_data_of(c.history[i])
                }
            }
        }),
{
    let t = crate::text::trimmed(c.input);
    if t.len() > 0 {
        let h = c.history.push(ShownItem::User(t));
        assert(data_of(h).last() == item_data_of(ShownItem::User(t)));
    }
}

/// A stored chat that arrives for the model file the assistant runs (or
/// starts) on replaces the conversation's chat: its id, title and history,
/// each item as shown, with the input emptied and nothing to do; for another
/// model file it opens in a new conversation whose assistant starts for that
/// file.
pub proof fn lemma_chat_arrives(c: ConversationView, chat: Chat)
    ensures
        ({
            let (d, a) = step(c, Message::ChatFetched(Ok(chat)));
            let same = match c.state {
                StageView::Booting { file, .. } => file == chat@.file,
                StageView::Running { file, .. } => file == chat@.file,
            };
            &&& d.id == Some(chat@.id)
            &&& d.title == chat@.title
            &&& d.history.len() == chat@.history.len()
            &&& forall|i: int| 0 <= i < chat@.history.len() ==> d.history[i] == shown_item(chat@.history[i])
            &&& d.input.len() == 0
            &&& same ==> a == ActionView::Idle && d.chats == c.chats && d.backend == c.backend
            &&& same && c.state is Running ==> can_send_in(d) && d.error is None
            &&& !same ==> a == ActionView::Boot(chat@.file) && d.state == (StageView::Booting {
                file: chat@.file,
                logs: Seq::empty(),
                stage: "Booting..."@,
                progress: 0,
                tick: 0,
            }) && d.backend == c.backend
        }),
{
}

/// A new chat forgets the conversation's id, title, history, input and
/// error, keeps the stored chats and the assistant, stops any reply in
/// flight, and focuses the input.
pub proof fn lemma_new_chat(c: ConversationView)
    ensures
        ({
            let (d, a) = step(c, Message::New);
            &&& d.id is None && d.title is None && d.error is None
            &&& d.history.len() == 0 && d.input.len() == 0
            &&& d.chats == c.chats && d.strategy == c.strategy
            &&& (c.state is Running ==> can_send_in(d))
            &&& (c.state is Booting ==> d.state == c.state)
            &&& a == ActionView::Focus
        }),
{
}

/// A chat stored or saved under an id takes that id and has the stored
/// chats listed again; a failure to do so is kept as the error and changes
/// nothing else.
pub proof fn lemma_stored(c: ConversationView, id: Id, e: String)
    ensures
        step(c, Message::Created(Ok(id))) == (ConversationView { id: Some(id), ..c }, ActionView::ListChats),
        step(c, Message::Saved(Ok(id))) == (ConversationView { id: Some(id), ..c }, ActionView::ListChats),
        step(c, Message::Saved(Err(e))) == (ConversationView { error: Some(e@), ..c }, ActionView::Idle),
        step(c, Message::Created(Err(e))) == (ConversationView { error: Some(e@), ..c }, ActionView::Idle),
{
}

/// While a reply is in flight, each event of the completion is taken into
/// the history and nothing else changes; a reply that starts asks to scroll
/// to the end.
pub proof fn lemma_events_in_flight(c: ConversationView, file: FileView, event: chat::Event)
    requires
        c.state == (StageView::Running { file, sending: true }),
    ensures
        step(c, Message::Chatting(event)).0 == (ConversationView {
            history: history_after(c.history, event@),
            ..c
        }),
        event is ReplyAdded ==> step(c, Message::Chatting(event)).1 == ActionView::Snap,
        !(event is ReplyAdded) ==> step(c, Message::Chatting(event)).1 == ActionView::Idle,
{
}

/// A title that is written becomes the chat's title, and the chat is then
/// stored with it when no reply is in flight: saved under its id, or created.
pub proof fn lemma_titled_then_stored(c: ConversationView, file: FileView, t: String)
    requires
        c.state == (StageView::Running { file, sending: false }),
    ensures
        step(c, Message::TitleChanged(Ok(t))).0.title == Some(t@),
        step(c, Message::TitleChanged(Ok(t))).1 == match c.id {
            Some(id) => ActionView::Save(
                ChatView { id, file, title: Some(t@), history: c.history.map_values(|i: ShownItem| item_data_of(i)) },
            ),
            None => ActionView::Create {
                file,
                title: Some(t@),
                history: c.history.map_values(|i: ShownItem| item_data_of(i)),
            },
        },
{
}

/// Whether two model files are the same.
fn same_file(a: &File, b: &File) -> (r: bool)
    ensures
        r == (a@ == b@),
{
    crate::value::same_text(a.model.0.as_str(), b.model.0.as_str())
        && crate::value::same_text(a.name.as_str(), b.name.as_str())
}

impl Conversation {
    /// A new conversation with the model file; the front end starts its
    /// assistant and lists the stored chats.
    pub fn new(file: File, backend: Backend) -> (c: Conversation)
        ensures
            c@ == started(file@, backend),
    {
        let ghost f = file@;
        let chats: Vec<Entry> = Vec::new();
        let logs: Vec<String> = Vec::new();
        proof {
            reveal_strlit("Booting...");
            assert(chats.deep_view() =~= Seq::<EntryView>::empty());
            assert(logs.deep_view() =~= Seq::<Seq<char>>::empty());
        }
        let c = Conversation {
            backend,
            chats,
            state: Stage::Booting {
                file,
                logs,
                stage: "Booting...".to_owned(),
                progress: 0,
                tick: 0,
            },
            id: None,
            title: None,
            history: History::new(),
            input: String::new(),
            strategy: Strategy { search: false },
            error: None,
        };
        assert(c@.state == started(f, backend).state);
        c
    }

    /// A stored chat in a new conversation; the front end starts its
    /// assistant and lists the stored chats.
    pub fn open(chat: Chat, backend: Backend) -> (c: Conversation)
        ensures
            c@ == opened(chat@, backend),
    {
        let Chat { id, file, title, history } = chat;
        let mut c = Conversation::new(file, backend);
        c.id = Some(id);
        c.title = title;
        c.history = History::restore(history);
        c
    }

    /// Whether new messages can be sent.
    pub fn can_send(&self) -> (b: bool)
        ensures
            b == can_send_in(self@),
    {
        match &self.state {
            Stage::Running { sending, .. } => !*sending,
            _ => false,
        }
    }

    /// How the conversation is stored as it stands.
    pub fn save(&self) -> (a: Action)
        ensures
            a@ == storing(self@),
    {
        let (file, sending) = match &self.state {
            Stage::Running { file, sending } => (Some(file), *sending),
            _ => (None, false),
        };
        match (persist(file.is_some(), sending, self.id), file) {
            (Persist::Save(id), Some(file)) => Action::Save(
                Chat {
                    id,
                    file: file.clone(),
                    title: crate::assistant::clone_text(&self.title),
                    history: self.history.to_data(),
                },
            ),
            (Persist::Create, Some(file)) => Action::Create {
                file: file.clone(),
                title: crate::assistant::clone_text(&self.title),
                history: self.history.to_data(),
            },
            _ => Action::Idle,
        }
    }

    fn stop(&mut self)
        ensures
            final(self)@ == stopped(old(self)@),
    {
        if let Stage::Running { sending, .. } = &mut self.state {
            *sending = false;
        }
    }

    fn take_chat(&mut self, chat: Chat) -> (a: Action)
        ensures
            (final(self)@, a@) == with_chat(old(self)@, chat@),
    {
        let same = match &self.state {
            Stage::Booting { file, .. } => same_file(file, &chat.file),
            Stage::Running { file, .. } => same_file(file, &chat.file),
        };
        if same {
            let Chat { id, title, history, .. } = chat;
            self.id = Some(id);
            self.title = title;
            self.history = History::restore(history);
            self.input = String::new();
            if let Stage::Running { sending, .. } = &mut self.state {
                self.error = None;
                *sending = false;
            }
            Action::Idle
        } else {
            let file = chat.file.clone();
            *self = Conversation::open(chat, self.backend);
            Action::Boot(file)
        }
    }

    fn start_over(&mut self)
        ensures
            final(self)@ == emptied(old(self)@),
    {
        self.id = None;
        self.title = None;
        self.history = History::new();
        self.input = String::new();
        self.error = None;
        self.stop();
    }

    /// Takes in a message; the result is what the front end does next.
    pub fn update(&mut self, message: Message) -> (a: Action)
        ensures
            (final(self)@, a@) == step(old(self)@, message),
    {
        match message {
            Message::ChatsListed(Ok(chats)) => {
                self.chats = chats;
                Action::Idle
            },
            Message::Progressed { stage: new_stage, percent } => {
                if let Stage::Booting { stage, progress, .. } = &mut self.state {
                    *stage = new_stage;
                    *progress = percent;
                }
                Action::Idle
            },
            Message::Logged(line) => {
                if let Stage::Booting { logs, .. } = &mut self.state {
                    let ghost before = logs.deep_view();
                    let ghost l = line@;
                    logs.push(line);
                    assert(logs.deep_view() =~= before.push(l));
                }
                Action::Idle
            },
            Message::Booted(Ok(file)) => {
                self.state = Stage::Running { file, sending: false };
                Action::Idle
            },
            Message::Tick => {
                if let Stage::Booting { tick, .. } = &mut self.state {
                    *tick = if *tick < usize::MAX {
                        *tick + 1
                    } else {
                        0
                    };
                }
                Action::Idle
            },
            Message::InputChanged(text) => {
                self.input = text;
                self.error = None;
                Action::Idle
            },
            Message::ToggleSearch => {
                self.strategy = Strategy { search: !self.strategy.search };
                Action::Idle
            },
            Message::Submit => {
                if let Stage::Running { .. } = &self.state {
                    match submission(self.input.as_str()) {
                        Some(content) => {
                            self.input = String::new();
                            self.history.push_user(content);
                            if let Stage::Running { sending, .. } = &mut self.state {
                                *sending = true;
                            }
                            Action::Complete { history: self.history.to_data(), strategy: self.strategy }
                        },
                        None => Action::Idle,
                    }
                } else {
                    Action::Idle
                }
            },
            Message::Regenerate(n) => {
                if let Stage::Running { sending, .. } = &mut self.state {
                    *sending = true;
                    self.history.truncate(n);
                    Action::Complete { history: self.history.to_data(), strategy: self.strategy }
                } else {
                    Action::Idle
                }
            },
            Message::Chatting(event) => {
                if self.can_send() {
                    Action::Idle
                } else {
                    let added = matches!(event, chat::Event::ReplyAdded);
                    let _ = self.history.apply(event);
                    if added {
                        Action::Snap
                    } else {
                        Action::Idle
                    }
                }
            },
            Message::Chatted(Ok(())) => {
                if let Stage::Running { .. } = &self.state {
                    self.stop();
                    let messages = self.history.to_data();
                    assert(messages@.len() == messages.deep_view().len());
                    assert(self.title.is_some() == (self@.title is Some));
                    if wants_title(self.title.is_some(), messages.len()) {
                        Action::Title(messages)
                    } else {
                        self.save()
                    }
                } else {
                    Action::Idle
                }
            },
            Message::Chatted(Err(e)) => {
                self.error = Some(e);
                self.stop();
                Action::Idle
            },
            Message::TitleChanging(t) => {
                self.title = Some(t);
                Action::Idle
            },
            Message::TitleChanged(Ok(t)) => {
                self.title = Some(t);
                self.save()
            },
            Message::Copy(t) => Action::Copy(t),
            Message::ToggleReasoning(i, show) => {
                self.history.toggle_reasoning(i, show);
                Action::Idle
            },
            Message::Plan(i, pm) => {
                self.history.update_plan(i, pm);
                Action::Idle
            },
            Message::Created(Ok(id)) => {
                self.id = Some(id);
                Action::ListChats
            },
            Message::Saved(Ok(id)) => {
                self.id = Some(id);
                Action::ListChats
            },
            Message::Open(id) => Action::Fetch(id),
            Message::ChatFetched(Ok(chat)) => self.take_chat(chat),
            Message::LastChatFetched(Ok(chat)) => self.take_chat(chat),
            Message::New => {
                self.start_over();
                Action::Focus
            },
            Message::LastChatFetched(Err(_)) => {
                self.start_over();
                Action::Focus
            },
            Message::Delete => match self.id {
                Some(id) => Action::Delete(id),
                None => Action::Idle,
            },
            Message::ChatsListed(Err(e)) => {
                self.error = Some(e);
                Action::Idle
            },
            Message::Booted(Err(e)) => {
                self.error = Some(e);
                Action::Idle
            },
            Message::TitleChanged(Err(e)) => {
                self.error = Some(e);
                Action::Idle
            },
            Message::Created(Err(e)) => {
                self.error = Some(e);
                Action::Idle
            },
            Message::Saved(Err(e)) => {
                self.error = Some(e);
                Action::Idle
            },
            Message::ChatFetched(Err(e)) => {
                self.error = Some(e);
                Action::Idle
            },
        }
    }
}

} // verus!
