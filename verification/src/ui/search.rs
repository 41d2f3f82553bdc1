//! The model search screen as a state machine: the front end hands it each
//! message (typing, the models listed, the details fetched) and performs the
//! action it returns.
use vstd::prelude::*;
use crate::model;
use crate::model::{File, FileView, Model, ModelView};
use crate::ui::Debounce;

verus! {

/// What the search screen shows.
#[derive(Debug)]
pub enum Mode {
    /// The list of models.
    Search,
    /// One model: its details (the text of its card) and its files, once
    /// they arrive.
    Details { model: model::Id, details: Option<String>, files: Option<Vec<File>> },
}

/// The mathematical form of a [`Mode`].
pub enum ModeView {
    Search,
    Details { model: Seq<char>, details: Option<Seq<char>>, files: Option<Seq<FileView>> },
}

impl View for Mode {
    type V = ModeView;

    open spec fn view(&self) -> ModeView {
        match self {
            Mode::Search => ModeView::Search,
            Mode::Details { model, details, files } => ModeView::Details {
                model: model@,
                details: details.deep_view(),
                files: match files {
                    Some(f) => Some(f.deep_view()),
                    None => None,
                },
            },
        }
    }
}

/// What the search screen is told.
#[derive(Debug)]
pub enum Message {
    /// The models were listed, or listing them failed.
    ModelsListed(Result<Vec<Model>, String>),
    /// The search text is now this.
    SearchChanged(String),
    /// A change of the search text cooled down.
    SearchCooled,
    /// A model is selected.
    Select(model::Id),
    /// The details of a model arrived, or fetching them failed.
    DetailsFetched(model::Id, Result<String, String>),
    /// The files of a model were listed, or listing them failed.
    FilesListed(model::Id, Result<Vec<File>, String>),
    /// A file is chosen to chat with.
    Boot(File),
    /// Back to the list of models.
    Back,
}

/// What the front end does next.
#[derive(Debug)]
pub enum Action {
    /// Nothing to do.
    Idle,
    /// Report `SearchCooled` a second from now.
    Cool,
    /// Search the models for the text.
    Search(String),
    /// Fetch the details of the model and list its files.
    Fetch(model::Id),
    /// Start a conversation with the file.
    Boot(File),
    /// Focus the search input.
    Focus,
}

/// The mathematical form of an [`Action`].
pub enum ActionView {
    Idle,
    Cool,
    Search(Seq<char>),
    Fetch(Seq<char>),
    Boot(FileView),
    Focus,
}

impl View for Action {
    type V = ActionView;

    open spec fn view(&self) -> ActionView {
        match self {
            Action::Idle => ActionView::Idle,
            Action::Cool => ActionView::Cool,
            Action::Search(t) => ActionView::Search(t@),
            Action::Fetch(id) => ActionView::Fetch(id@),
            Action::Boot(f) => ActionView::Boot(f@),
            Action::Focus => ActionView::Focus,
        }
    }
}

/// The model search.
#[derive(Debug)]
pub struct Search {
    pub models: Vec<Model>,
    pub search: String,
    pub debounce: Debounce,
    pub is_searching: bool,
    pub mode: Mode,
}

/// The mathematical form of a [`Search`].
pub struct SearchView {
    pub models: Seq<ModelView>,
    pub search: Seq<char>,
    pub temperature: nat,
    pub is_searching: bool,
    pub mode: ModeView,
}

impl View for Search {
    type V = SearchView;

    open spec fn view(&self) -> SearchView {
        SearchView {
            models: self.models.deep_view(),
            search: self.search@,
            temperature: self.debounce@,
            is_searching: self.is_searching,
            mode: self.mode@,
        }
    }
}

/// A search that has just opened: no models yet, and the first listing
/// under way.
pub open spec fn opened_search() -> SearchView {
    SearchView {
        models: Seq::empty(),
        search: Seq::empty(),
        temperature: 0,
        is_searching: true,
        mode: ModeView::Search,
    }
}

/// The search after message `m`, and what the front end does then. Details
/// and files that arrive for a model other than the one shown are dropped.
pub open spec fn search_step(s: SearchView, m: Message) -> (SearchView, ActionView) {
    match m {
        Message::ModelsListed(Ok(models)) => (
            SearchView { models: models.deep_view(), is_searching: false, ..s },
            ActionView::Idle,
        ),
        Message::ModelsListed(Err(_)) => (s, ActionView::Idle),
        Message::SearchChanged(text) => (
            SearchView {
                search: text@,
                temperature: if s.temperature < u64::MAX {
                    s.temperature + 1
                } else {
                    s.temperature
                },
                ..s
            },
            ActionView::Cool,
        ),
        Message::SearchCooled => {
            let t: nat = if s.temperature > 0 {
                (s.temperature - 1) as nat
            } else {
                0
            };
            if t == 0 {
                (SearchView { temperature: t, is_searching: true, ..s }, ActionView::Search(s.search))
            } else {
                (SearchView { temperature: t, ..s }, ActionView::Idle)
            }
        },
        Message::Select(id) => (
            SearchView { mode: ModeView::Details { model: id@, details: None, files: None }, ..s },
            ActionView::Fetch(id@),
        ),
        Message::DetailsFetched(id, Ok(d)) => match s.mode {
            ModeView::Details { model, files, .. } if model == id@ => (
                SearchView { mode: ModeView::Details { model, details: Some(d@), files }, ..s },
                ActionView::Idle,
            ),
            _ => (s, ActionView::Idle),
        },
        Message::FilesListed(id, Ok(f)) => match s.mode {
            ModeView::Details { model, details, .. } if model == id@ => (
                SearchView {
                    mode: ModeView::Details { model, details, files: Some(f.deep_view()) },
                    ..s
                },
                ActionView::Idle,
            ),
            _ => (s, ActionView::Idle),
        },
        Message::DetailsFetched(_, Err(_)) => (s, ActionView::Idle),
        Message::FilesListed(_, Err(_)) => (s, ActionView::Idle),
        Message::Boot(file) => (s, ActionView::Boot(file@)),
        Message::Back => (SearchView { mode: ModeView::Search, ..s }, ActionView::Focus),
    }
}

/// Details or files that arrive for a model other than the one shown leave
/// the search as it is.
pub proof fn lemma_stale_details_dropped(s: SearchView, id: model::Id, d: String, f: Vec<File>)
    requires
        !(s.mode matches ModeView::Details { model, .. } && model == id@),
    ensures
        search_step(s, Message::DetailsFetched(id, Ok(d))) == (s, ActionView::Idle),
        search_step(s, Message::FilesListed(id, Ok(f))) == (s, ActionView::Idle),
{
}

/// Details and files that arrive for the model shown are kept: the details
/// replace what was shown of them and leave its files as they were, the files
/// replace what was shown of them and leave its details as they were; the
/// model list, the search text and its state stay as they were.
pub proof fn lemma_shown_model_arrivals(s: SearchView, id: model::Id, d: String, f: Vec<File>)
    requires
        s.mode matches ModeView::Details { model, .. } && model == id@,
    ensures
        ({
            let (t, a) = search_step(s, Message::DetailsFetched(id, Ok(d)));
            &&& t.mode == (ModeView::Details {
                model: id@,
                details: Some(d@),
                files: s.mode->files,
            })
            &&& t.models == s.models && t.search == s.search && t.temperature == s.temperature
            &&& t.is_searching == s.is_searching
            &&& a == ActionView::Idle
        }),
        ({
            let (t, a) = search_step(s, Message::FilesListed(id, Ok(f)));
            &&& t.mode == (ModeView::Details {
                model: id@,
                details: s.mode->details,
                files: Some(f.deep_view()),
            })
            &&& t.mode->files matches Some(shown) && shown.len() == f.len()
            &&& t.models == s.models && t.search == s.search && t.temperature == s.temperature
            &&& t.is_searching == s.is_searching
            &&& a == ActionView::Idle
        }),
{
}

/// Selecting a model shows it, with its details and files not yet there,
/// and asks for them.
pub proof fn lemma_select(s: SearchView, id: model::Id)
    ensures
        search_step(s, Message::Select(id)) == (
            SearchView { mode: ModeView::Details { model: id@, details: None, files: None }, ..s },
            ActionView::Fetch(id@),
        ),
{
}

/// Typing sets the search text and warms the search up by one (up to the
/// largest count), and asks for a cool-down; models that arrive replace the
/// list, and the search is no longer running.
pub proof fn lemma_typing_and_listing(s: SearchView, text: String, models: Vec<Model>)
    ensures
        ({
            let (t, a) = search_step(s, Message::SearchChanged(text));
            &&& t.search == text@
            &&& (s.temperature < u64::MAX ==> t.temperature == s.temperature + 1)
            &&& t.mode == s.mode && t.models == s.models
            &&& a == ActionView::Cool
        }),
        ({
            let (t, a) = search_step(s, Message::ModelsListed(Ok(models)));
            &&& t.models == models.deep_view() && t.models.len() == models.len()
            &&& !t.is_searching
            &&& t.mode == s.mode && t.search == s.search
            &&& a == ActionView::Idle
        }),
{
}

/// Every change of the search text is followed by a cool-down; the search
/// runs on the last cool-down only, with the text as it then stands.
pub proof fn lemma_search_after_last_cooling(s: SearchView)
    requires
        s.temperature == 1,
    ensures
        search_step(s, Message::SearchCooled) == (
            SearchView { temperature: 0, is_searching: true, ..s },
            ActionView::Search(s.search),
        ),
        forall|t: SearchView| #![auto] t.temperature > 1 ==> search_step(t, Message::SearchCooled).1 == ActionView::Idle,
{
}

impl Search {
    /// A search that has just opened; the front end lists the models and
    /// focuses the search input.
    pub fn new() -> (s: Search)
        ensures
            s@ == opened_search(),
    {
        let models: Vec<Model> = Vec::new();
        assert(models.deep_view() =~= Seq::<ModelView>::empty());
        Search {
            models,
            search: String::new(),
            debounce: Debounce::new(),
            is_searching: true,
            mode: Mode::Search,
        }
    }

    /// Whether the shown model is `id`.
    fn shows(&self, id: &model::Id) -> (b: bool)
        ensures
            b == (self@.mode matches ModeView::Details { model, .. } && model == id@),
    {
        match &self.mode {
            Mode::Details { model, .. } => crate::value::same_text(model.0.as_str(), id.0.as_str()),
            Mode::Search => false,
        }
    }

    /// Takes in a message; the result is what the front end does next.
    pub fn update(&mut self, message: Message) -> (a: Action)
        ensures
            (final(self)@, a@) == search_step(old(self)@, message),
    {
        match message {
            Message::ModelsListed(Ok(models)) => {
                self.models = models;
                self.is_searching = false;
                Action::Idle
            },
            Message::ModelsListed(Err(_)) => Action::Idle,
            Message::SearchChanged(text) => {
                self.search = text;
                self.debounce.changed();
                Action::Cool
            },
            Message::SearchCooled => {
                if self.debounce.cooled() {
                    self.is_searching = true;
                    Action::Search(self.search.clone())
                } else {
                    Action::Idle
                }
            },
            Message::Select(id) => {
                let fetch = id.clone();
                self.mode = Mode::Details { model: id, details: None, files: None };
                Action::Fetch(fetch)
            },
            Message::DetailsFetched(id, Ok(d)) => {
                if self.shows(&id) {
                    if let Mode::Details { details, .. } = &mut self.mode {
                        *details = Some(d);
                    }
                }
                Action::Idle
            },
            Message::FilesListed(id, Ok(f)) => {
                if self.shows(&id) {
                    if let Mode::Details { files, .. } = &mut self.mode {
                        *files = Some(f);
                    }
                }
                Action::Idle
            },
            Message::DetailsFetched(_, Err(_)) => Action::Idle,
            Message::FilesListed(_, Err(_)) => Action::Idle,
            Message::Boot(file) => Action::Boot(file),
            Message::Back => {
                self.mode = Mode::Search;
                Action::Focus
            },
        }
    }
}

} // verus!
