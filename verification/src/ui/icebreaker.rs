//! The application as a state machine over its screens: which screen shows,
//! where a message goes, and which conversation is kept aside while the
//! models are searched.
use vstd::prelude::*;
use crate::assistant::Backend;
use crate::chat::Chat;
use crate::model::{File, FileView};
use crate::ui::machine_backend;
use crate::ui::conversation;
use crate::ui::conversation::{Conversation, ConversationView, StageView, opened, started, step};
use crate::ui::search;
use crate::ui::search::{Search, SearchView, opened_search, search_step};

verus! {

/// The screen that shows.
#[derive(Debug)]
pub enum Screen {
    Loading,
    Search(Search),
    Conversation(Conversation),
}

/// The mathematical form of a [`Screen`].
pub enum ScreenView {
    Loading,
    Search(SearchView),
    Conversation(ConversationView),
}

impl View for Screen {
    type V = ScreenView;

    open spec fn view(&self) -> ScreenView {
        match self {
            Screen::Loading => ScreenView::Loading,
            Screen::Search(s) => ScreenView::Search(s@),
            Screen::Conversation(c) => ScreenView::Conversation(c@),
        }
    }
}

/// What the application is told.
#[derive(Debug)]
pub enum Message {
    /// The application loaded: the chat opened last, if any, and the name of
    /// the machine's graphics adapter.
    Loaded { last_chat: Result<Chat, String>, graphics_adapter: String },
    /// Back to the model search.
    Escape,
    /// A message for the model search.
    Search(search::Message),
    /// A message for the conversation, shown or kept aside.
    Conversation(conversation::Message),
    /// Back to the conversation kept aside.
    Chats,
    /// To the model search, keeping the conversation aside.
    Discover,
}

/// What the front end does next.
#[derive(Debug)]
pub enum Action {
    /// Nothing to do.
    Idle,
    /// Scan the model library, list the models and focus the search input.
    OpenSearch,
    /// Start the assistant of the new conversation for the file, and list
    /// the stored chats.
    Boot(File),
    /// What the model search asks for.
    Search(search::Action),
    /// What the conversation asks for.
    Conversation(conversation::Action),
}

/// The mathematical form of an [`Action`].
pub enum ActionView {
    Idle,
    OpenSearch,
    Boot(FileView),
    Search(search::ActionView),
    Conversation(conversation::ActionView),
}

impl View for Action {
    type V = ActionView;

    open spec fn view(&self) -> ActionView {
        match self {
            Action::Idle => ActionView::Idle,
            Action::OpenSearch => ActionView::OpenSearch,
            Action::Boot(f) => ActionView::Boot(f@),
            Action::Search(a) => ActionView::Search(a@),
            Action::Conversation(a) => ActionView::Conversation(a@),
        }
    }
}

/// The application.
#[derive(Debug)]
pub struct Icebreaker {
    pub screen: Screen,
    pub last_conversation: Option<Conversation>,
    pub graphics_adapter: Option<String>,
}

/// The mathematical form of an [`Icebreaker`].
pub struct IcebreakerView {
    pub screen: ScreenView,
    pub last_conversation: Option<ConversationView>,
    pub graphics_adapter: Option<Seq<char>>,
}

impl View for Icebreaker {
    type V = IcebreakerView;

    open spec fn view(&self) -> IcebreakerView {
        IcebreakerView {
            screen: self.screen@,
            last_conversation: match self.last_conversation {
                Some(c) => Some(c@),
                None => None,
            },
            graphics_adapter: self.graphics_adapter.deep_view(),
        }
    }
}

/// The backend for the machine as far as it is known.
pub open spec fn backend_of(graphics_adapter: Option<Seq<char>>) -> Backend {
    match graphics_adapter {
        Some(name) => crate::assistant::backend_for(name),
        None => Backend::Cpu,
    }
}

/// The application once the model search opens anew.
pub open spec fn searching(a: IcebreakerView) -> (IcebreakerView, ActionView) {
    (IcebreakerView { screen: ScreenView::Search(opened_search()), ..a }, ActionView::OpenSearch)
}

/// The application after message `m`, and what the front end does then.
pub open spec fn app_step(a: IcebreakerView, m: Message) -> (IcebreakerView, ActionView) {
    match m {
        Message::Loaded { last_chat, graphics_adapter } => {
            let b = IcebreakerView { graphics_adapter: Some(graphics_adapter@), ..a };
            match last_chat {
                Ok(chat) => (
                    IcebreakerView {
                        screen: ScreenView::Conversation(
                            opened(chat@, crate::assistant::backend_for(graphics_adapter@)),
                        ),
                        ..b
                    },
                    ActionView::Boot(chat@.file),
                ),
                Err(_) => searching(b),
            }
        },
        Message::Escape => match a.screen {
            ScreenView::Search(_) => (a, ActionView::Idle),
            _ => searching(a),
        },
        Message::Search(sm) => match a.screen {
            ScreenView::Search(s) => {
                let (t, act) = search_step(s, sm);
                match act {
                    search::ActionView::Boot(file) => (
                        IcebreakerView {
                            screen: ScreenView::Conversation(
                                started(file, backend_of(a.graphics_adapter)),
                            ),
                            ..a
                        },
                        ActionView::Boot(file),
                    ),
                    _ => (IcebreakerView { screen: ScreenView::Search(t), ..a }, ActionView::Search(act)),
                }
            },
            _ => (a, ActionView::Idle),
        },
        Message::Conversation(cm) => match a.screen {
            ScreenView::Conversation(c) => {
                let (d, act) = step(c, cm);
                (IcebreakerView { screen: ScreenView::Conversation(d), ..a }, ActionView::Conversation(act))
            },
            _ => match a.last_conversation {
                Some(c) => {
                    let (d, act) = step(c, cm);
                    (IcebreakerView { last_conversation: Some(d), ..a }, ActionView::Conversation(act))
                },
                None => (a, ActionView::Idle),
            },
        },
        Message::Chats => match a.last_conversation {
            Some(c) => (
                IcebreakerView { screen: ScreenView::Conversation(c), last_conversation: None, ..a },
                ActionView::Idle,
            ),
            None => (a, ActionView::Idle),
        },
        Message::Discover => match a.screen {
            ScreenView::Conversation(c) => searching(
                IcebreakerView { last_conversation: Some(c), ..a },
            ),
            _ => searching(a),
        },
    }
}

/// Once loaded, the chat opened last is opened in a conversation whose
/// assistant starts on that chat's model file, with the backend of the
/// machine's graphics adapter; without one, the model search opens.
pub proof fn lemma_loaded(a: IcebreakerView, last_chat: Result<Chat, String>, graphics_adapter: String)
    ensures
        ({
            let (b, act) = app_step(a, Message::Loaded { last_chat, graphics_adapter });
            &&& b.graphics_adapter == Some(graphics_adapter@)
            &&& b.last_conversation == a.last_conversation
            &&& match last_chat {
                Ok(chat) => {
                    &&& act == ActionView::Boot(chat@.file)
                    &&& b.screen matches ScreenView::Conversation(c) && {
                        &&& c.id == Some(chat@.id)
                        &&& c.title == chat@.title
                        &&& c.history.len() == chat@.history.len()
                        &&& c.backend == crate::assistant::backend_for(graphics_adapter@)
                        &&& c.state matches StageView::Booting { file, .. } && file == chat@.file
                    }
                },
                Err(_) => act == ActionView::OpenSearch && b.screen == ScreenView::Search(
                    opened_search(),
                ),
            }
        }),
{
}

/// Choosing a file in the model search starts a conversation on it, with
/// the backend of the machine as far as it is known, and asks to start its
/// assistant; the conversation kept aside stays kept.
pub proof fn lemma_search_boots(a: IcebreakerView, s: SearchView, file: File)
    requires
        a.screen == ScreenView::Search(s),
    ensures
        ({
            let (b, act) = app_step(a, Message::Search(search::Message::Boot(file)));
            &&& act == ActionView::Boot(file@)
            &&& b.last_conversation == a.last_conversation
            &&& b.screen matches ScreenView::Conversation(c) && {
                &&& c.backend == backend_of(a.graphics_adapter)
                &&& c.id is None && c.history.len() == 0
                &&& c.state matches StageView::Booting { file: f, .. } && f == file@
            }
        }),
{
}

/// Going to the model search from a conversation and back to the chats
/// shows that conversation again, as it was.
pub proof fn lemma_discover_then_chats(a: IcebreakerView, c: ConversationView)
    requires
        a.screen == ScreenView::Conversation(c),
    ensures
        app_step(app_step(a, Message::Discover).0, Message::Chats) == (
            IcebreakerView { screen: ScreenView::Conversation(c), last_conversation: None, ..a },
            ActionView::Idle,
        ),
{
}

/// Escape leaves the model search as it is, and opens it anew from any other
/// screen.
pub proof fn lemma_escape(a: IcebreakerView)
    ensures
        app_step(a, Message::Escape) == (if a.screen is Search {
            (a, ActionView::Idle)
        } else {
            (IcebreakerView { screen: ScreenView::Search(opened_search()), ..a }, ActionView::OpenSearch)
        }),
{
}

impl Icebreaker {
    /// The application as it starts, loading.
    pub fn new() -> (a: Icebreaker)
        ensures
            a@ == (IcebreakerView {
                screen: ScreenView::Loading,
                last_conversation: None,
                graphics_adapter: None,
            }),
    {
        Icebreaker { screen: Screen::Loading, last_conversation: None, graphics_adapter: None }
    }

    fn search(&mut self) -> (act: Action)
        ensures
            (final(self)@, act@) == searching(old(self)@),
    {
        self.screen = Screen::Search(Search::new());
        Action::OpenSearch
    }

    /// Takes in a message; the result is what the front end does next.
    pub fn update(&mut self, message: Message) -> (act: Action)
        ensures
            (final(self)@, act@) == app_step(old(self)@, message),
    {
        match message {
            Message::Loaded { last_chat, graphics_adapter } => {
                let backend = crate::assistant::Backend::detect(graphics_adapter.as_str());
                self.graphics_adapter = Some(graphics_adapter);
                match last_chat {
                    Ok(chat) => {
                        let file = chat.file.clone();
                        self.screen = Screen::Conversation(Conversation::open(chat, backend));
                        Action::Boot(file)
                    },
                    Err(_) => self.search(),
                }
            },
            Message::Escape => {
                if let Screen::Search(_) = &self.screen {
                    Action::Idle
                } else {
                    self.search()
                }
            },
            Message::Search(sm) => {
                let booted = if let Screen::Search(s) = &mut self.screen {
                    match s.update(sm) {
                        search::Action::Boot(file) => Ok(file),
                        other => Err(Some(other)),
                    }
                } else {
                    Err(None)
                };
                match booted {
                    Ok(file) => {
                        let backend = machine_backend(
                            match &self.graphics_adapter {
                                Some(g) => Some(g.as_str()),
                                None => None,
                            },
                        );
                        let boot = file.clone();
                        self.screen = Screen::Conversation(Conversation::new(file, backend));
                        Action::Boot(boot)
                    },
                    Err(Some(other)) => Action::Search(other),
                    Err(None) => Action::Idle,
                }
            },
            Message::Conversation(cm) => {
                if let Screen::Conversation(c) = &mut self.screen {
                    Action::Conversation(c.update(cm))
                } else if let Some(c) = &mut self.last_conversation {
                    Action::Conversation(c.update(cm))
                } else {
                    Action::Idle
                }
            },
            Message::Chats => {
                let mut kept: Option<Conversation> = None;
                std::mem::swap(&mut kept, &mut self.last_conversation);
                match kept {
                    Some(c) => {
                        self.screen = Screen::Conversation(c);
                    },
                    None => {},
                }
                Action::Idle
            },
            Message::Discover => {
                let mut shown = Screen::Loading;
                std::mem::swap(&mut shown, &mut self.screen);
                if let Screen::Conversation(c) = shown {
                    self.last_conversation = Some(c);
                }
                self.search()
            },
        }
    }
}

} // verus!
