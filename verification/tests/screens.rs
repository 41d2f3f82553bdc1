use icebreaker::assistant::Backend;
use icebreaker::chat::{self, Chat, Id, Strategy};
use icebreaker::model::{self, File};
use icebreaker::ui::conversation::{self, Conversation, Stage};
use icebreaker::ui::icebreaker::{self as app, Icebreaker, Screen};
use icebreaker::ui::search::{self, Mode, Search};

fn file(model: &str, name: &str) -> File {
    File { model: model::Id(model.to_owned()), name: name.to_owned() }
}

fn running(file: File) -> Conversation {
    let mut c = Conversation::new(file.clone(), Backend::Cpu);
    assert!(matches!(c.update(conversation::Message::Booted(Ok(file))), conversation::Action::Idle));
    c
}

fn user_texts(items: &[chat::Item]) -> Vec<String> {
    items
        .iter()
        .filter_map(|i| match i {
            chat::Item::User(t) => Some(t.clone()),
            _ => None,
        })
        .collect()
}

#[test]
fn conversation_boots_then_runs() {
    let f = file("author/model", "model.gguf");
    let mut c = Conversation::new(f.clone(), Backend::Cuda);
    match &c.state {
        Stage::Booting { stage, progress, tick, logs, .. } => {
            assert_eq!(stage, "Booting...");
            assert_eq!((*progress, *tick, logs.len()), (0, 0, 0));
        }
        _ => panic!("not booting"),
    }
    c.update(conversation::Message::Progressed { stage: "Downloading...".to_owned(), percent: 40 });
    c.update(conversation::Message::Logged("line".to_owned()));
    c.update(conversation::Message::Tick);
    match &c.state {
        Stage::Booting { stage, progress, tick, logs, .. } => {
            assert_eq!(stage, "Downloading...");
            assert_eq!((*progress, *tick), (40, 1));
            assert_eq!(logs, &vec!["line".to_owned()]);
        }
        _ => panic!("not booting"),
    }
    assert!(!c.can_send());
    c.update(conversation::Message::Booted(Ok(f)));
    assert!(c.can_send());
}

#[test]
fn submit_sends_the_trimmed_input() {
    let mut c = running(file("a/m", "m.gguf"));
    assert!(matches!(c.update(conversation::Message::Submit), conversation::Action::Idle));
    c.update(conversation::Message::InputChanged("  hello  ".to_owned()));
    match c.update(conversation::Message::Submit) {
        conversation::Action::Complete { history, strategy } => {
            assert_eq!(user_texts(&history), vec!["hello".to_owned()]);
            assert_eq!(strategy, Strategy { search: false });
        }
        other => panic!("{other:?}"),
    }
    assert_eq!(c.input, "");
    assert!(!c.can_send());
}

#[test]
fn completion_events_apply_only_while_sending() {
    let mut c = running(file("a/m", "m.gguf"));
    assert!(matches!(c.update(conversation::Message::Chatting(chat::Event::ReplyAdded)), conversation::Action::Idle));
    assert_eq!(c.history.items().len(), 0);
    c.update(conversation::Message::InputChanged("hi".to_owned()));
    c.update(conversation::Message::Submit);
    assert!(matches!(c.update(conversation::Message::Chatting(chat::Event::ReplyAdded)), conversation::Action::Snap));
    assert_eq!(c.history.items().len(), 2);
}

#[test]
fn a_finished_reply_asks_for_a_title_then_stores() {
    let f = file("a/m", "m.gguf");
    let mut c = running(f.clone());
    c.update(conversation::Message::InputChanged("hi".to_owned()));
    c.update(conversation::Message::Submit);
    c.update(conversation::Message::Chatting(chat::Event::ReplyAdded));
    match c.update(conversation::Message::Chatted(Ok(()))) {
        conversation::Action::Title(history) => assert_eq!(history.len(), 2),
        other => panic!("{other:?}"),
    }
    assert!(c.can_send());
    c.update(conversation::Message::TitleChanging("Gre".to_owned()));
    assert_eq!(c.title.as_deref(), Some("Gre"));
    match c.update(conversation::Message::TitleChanged(Ok("Greeting".to_owned()))) {
        conversation::Action::Create { file, title, history } => {
            assert_eq!(file, f);
            assert_eq!(title.as_deref(), Some("Greeting"));
            assert_eq!(history.len(), 2);
        }
        other => panic!("{other:?}"),
    }
    let id = Id(7);
    assert!(matches!(c.update(conversation::Message::Created(Ok(id))), conversation::Action::ListChats));
    assert_eq!(c.id, Some(id));
    match c.save() {
        conversation::Action::Save(chat) => assert_eq!((chat.id, chat.title.as_deref()), (id, Some("Greeting"))),
        other => panic!("{other:?}"),
    }
}

#[test]
fn a_failed_completion_keeps_the_error() {
    let mut c = running(file("a/m", "m.gguf"));
    c.update(conversation::Message::InputChanged("hi".to_owned()));
    c.update(conversation::Message::Submit);
    c.update(conversation::Message::Chatted(Err("offline".to_owned())));
    assert_eq!(c.error.as_deref(), Some("offline"));
    assert!(c.can_send());
    c.update(conversation::Message::InputChanged("again".to_owned()));
    assert_eq!(c.error, None);
}

#[test]
fn a_fetched_chat_is_restored_or_opened() {
    let f = file("a/m", "m.gguf");
    let mut c = running(f.clone());
    let same = Chat { id: Id(1), file: f.clone(), title: Some("Old".to_owned()), history: vec![chat::Item::User("q".to_owned())] };
    assert!(matches!(c.update(conversation::Message::ChatFetched(Ok(same))), conversation::Action::Idle));
    assert_eq!((c.id, c.title.as_deref(), c.history.items().len()), (Some(Id(1)), Some("Old"), 1));
    let other = Chat { id: Id(2), file: file("b/n", "n.gguf"), title: None, history: vec![] };
    match c.update(conversation::Message::ChatFetched(Ok(other))) {
        conversation::Action::Boot(booted) => assert_eq!(booted, file("b/n", "n.gguf")),
        other => panic!("{other:?}"),
    }
    assert_eq!(c.id, Some(Id(2)));
    assert!(matches!(c.state, Stage::Booting { .. }));
}

#[test]
fn new_and_delete() {
    let mut c = running(file("a/m", "m.gguf"));
    assert!(matches!(c.update(conversation::Message::Delete), conversation::Action::Idle));
    c.update(conversation::Message::Saved(Ok(Id(3))));
    assert!(matches!(c.update(conversation::Message::Delete), conversation::Action::Delete(Id(3))));
    assert!(matches!(c.update(conversation::Message::New), conversation::Action::Focus));
    assert_eq!((c.id, c.title.clone(), c.history.items().len()), (None, None, 0));
    c.update(conversation::Message::ToggleSearch);
    assert_eq!(c.strategy, Strategy { search: true });
    assert!(matches!(c.update(conversation::Message::Open(Id(4))), conversation::Action::Fetch(Id(4))));
}

#[test]
fn search_waits_for_the_last_change() {
    let mut s = Search::new();
    assert!(s.is_searching);
    s.update(search::Message::ModelsListed(Ok(vec![])));
    assert!(!s.is_searching);
    assert!(matches!(s.update(search::Message::SearchChanged("ll".to_owned())), search::Action::Cool));
    assert!(matches!(s.update(search::Message::SearchChanged("llama".to_owned())), search::Action::Cool));
    assert!(matches!(s.update(search::Message::SearchCooled), search::Action::Idle));
    match s.update(search::Message::SearchCooled) {
        search::Action::Search(text) => assert_eq!(text, "llama"),
        other => panic!("{other:?}"),
    }
    assert!(s.is_searching);
}

#[test]
fn details_for_another_model_are_dropped() {
    let mut s = Search::new();
    let shown = model::Id("a/one".to_owned());
    match s.update(search::Message::Select(shown.clone())) {
        search::Action::Fetch(id) => assert_eq!(id, shown),
        other => panic!("{other:?}"),
    }
    s.update(search::Message::DetailsFetched(model::Id("a/two".to_owned()), Ok("other".to_owned())));
    s.update(search::Message::DetailsFetched(shown.clone(), Ok("card".to_owned())));
    s.update(search::Message::FilesListed(model::Id("a/two".to_owned()), Ok(vec![file("a/two", "x.gguf")])));
    match &s.mode {
        Mode::Details { model, details, files } => {
            assert_eq!(model, &shown);
            assert_eq!(details.as_deref(), Some("card"));
            assert!(files.is_none());
        }
        Mode::Search => panic!("no details"),
    }
    assert!(matches!(s.update(search::Message::Back), search::Action::Focus));
    assert!(matches!(s.mode, Mode::Search));
}

#[test]
fn screens_route_and_keep_the_conversation() {
    let mut a = Icebreaker::new();
    let act = a.update(app::Message::Loaded { last_chat: Err("none".to_owned()), graphics_adapter: "NVIDIA GeForce".to_owned() });
    assert!(matches!(act, app::Action::OpenSearch));
    assert!(matches!(a.screen, Screen::Search(_)));
    assert!(matches!(a.update(app::Message::Escape), app::Action::Idle));
    let f = file("a/m", "m.gguf");
    match a.update(app::Message::Search(search::Message::Boot(f.clone()))) {
        app::Action::Boot(booted) => assert_eq!(booted, f),
        other => panic!("{other:?}"),
    }
    match &a.screen {
        Screen::Conversation(c) => assert_eq!(c.backend, Backend::Cuda),
        _ => panic!("no conversation"),
    }
    assert!(matches!(a.update(app::Message::Discover), app::Action::OpenSearch));
    assert!(a.last_conversation.is_some());
    assert!(matches!(
        a.update(app::Message::Conversation(conversation::Message::Booted(Ok(f.clone())))),
        app::Action::Conversation(conversation::Action::Idle)
    ));
    a.update(app::Message::Chats);
    assert!(a.last_conversation.is_none());
    match &a.screen {
        Screen::Conversation(c) => assert!(c.can_send()),
        _ => panic!("no conversation"),
    }
}

#[test]
fn a_loaded_chat_opens() {
    let mut a = Icebreaker::new();
    let chat = Chat { id: Id(9), file: file("a/m", "m.gguf"), title: Some("T".to_owned()), history: vec![] };
    match a.update(app::Message::Loaded { last_chat: Ok(chat), graphics_adapter: "AMD Radeon".to_owned() }) {
        app::Action::Boot(f) => assert_eq!(f, file("a/m", "m.gguf")),
        other => panic!("{other:?}"),
    }
    match &a.screen {
        Screen::Conversation(c) => {
            assert_eq!((c.id, c.title.as_deref(), c.backend), (Some(Id(9)), Some("T"), Backend::Rocm));
        }
        _ => panic!("no conversation"),
    }
}
