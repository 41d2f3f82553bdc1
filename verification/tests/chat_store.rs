use icebreaker::address::Url;
use icebreaker::chat::roundtrip::reads_back;
use icebreaker::assistant::{Message, Reasoning, Reply, Token};
use icebreaker::chat::schema::{decode, encode};
use icebreaker::chat::{
    after_delete, history, sanitize, Chat, Entry, Id, Item, LastOpened, List, TitleDraft,
};
use icebreaker::duration::Duration;
use icebreaker::model::{File, Id as ModelId};
use icebreaker::plan::{Outcome, Plan, Status, Step};
use icebreaker::value::{DecodeError, Value};

fn file() -> File {
    File { model: ModelId("unsloth/Qwen3-8B-GGUF".to_owned()), name: "Qwen3-8B-Q4_K_M.gguf".to_owned() }
}

fn reply(content: &str) -> Reply {
    Reply { reasoning: None, content: content.to_owned(), last_token: None }
}

#[test]
fn id_texts() {
    let id = Id(0x0123_4567_89ab_cdef_fedc_ba98_7654_3210);
    assert_eq!(id.to_text(), "01234567-89ab-cdef-fedc-ba9876543210");
    assert_eq!(id.simple(), "0123456789abcdeffedcba9876543210");
    assert_eq!(id.file_name(), "0123456789abcdeffedcba9876543210.json");
}

#[test]
fn id_text_reads_back() {
    for n in [0u128, 1, u128::MAX, 0xdead_beef << 64] {
        let id = Id(n);
        assert_eq!(Id::parse(&id.to_text()), Some(id));
    }
    assert_eq!(Id::parse("01234567-89AB-CDEF-FEDC-BA9876543210"), Some(Id(0x0123_4567_89ab_cdef_fedc_ba98_7654_3210)));
    assert_eq!(Id::parse("01234567-89ab-cdef-fedc-ba987654321g"), None);
    assert_eq!(Id::parse("01234567-89ab-cdef-fedc"), None);
}

#[test]
fn id_reads_every_uuid_form() {
    let id = Some(Id(0x0123_4567_89ab_cdef_fedc_ba98_7654_3210));
    assert_eq!(Id::parse("0123456789abcdeffedcba9876543210"), id);
    assert_eq!(Id::parse("{01234567-89ab-cdef-fedc-ba9876543210}"), id);
    assert_eq!(Id::parse("urn:uuid:01234567-89ab-cdef-fedc-ba9876543210"), id);
    assert_eq!(Id::parse("0123456789abcdeffedcba987654321"), None);
}

#[test]
fn generated_ids_are_random_version_4() {
    let a = Id::generate();
    let b = Id::generate();
    assert_ne!(a, b);
    assert_eq!((a.0 >> 76) & 15, 4);
    assert_eq!((a.0 >> 62) & 3, 2);
    assert_ne!(a.file_name(), b.file_name());
}

#[test]
fn history_turns_items_into_messages() {
    let mut plan = Plan::empty();
    plan.outcomes.push(Outcome::Answer(Status::Active(reply("partial"))));
    plan.outcomes.push(Outcome::Answer(Status::Done(reply("final answer"))));
    plan.outcomes.push(Outcome::Search(Status::Done(Vec::new())));
    let items = vec![
        Item::User("What is Rust?".to_owned()),
        Item::Reply(reply("A language.")),
        Item::Plan(plan),
    ];
    let messages = history(&items);
    let tuples: Vec<(String, String)> = messages
        .iter()
        .map(|m| {
            let (role, content) = m.to_tuple();
            (role.to_owned(), content.to_owned())
        })
        .collect();
    assert_eq!(
        tuples,
        vec![
            ("user".to_owned(), "What is Rust?".to_owned()),
            ("assistant".to_owned(), "A language.".to_owned()),
            ("assistant".to_owned(), "final answer".to_owned()),
        ]
    );
    assert!(matches!(messages[0], Message::User(_)));
}

#[test]
fn titles_are_sanitized() {
    assert_eq!(sanitize("  \"Rust questions\"  "), "Rust questions");
    assert_eq!(sanitize("\"\"quoted\"\""), "quoted");
    assert_eq!(sanitize("plain"), "plain");
}

#[test]
fn title_draft_follows_talking_tokens() {
    let mut draft = TitleDraft::new();
    assert_eq!(draft.push(&Token::Reasoning("ignored".to_owned())), "");
    assert_eq!(draft.push(&Token::Talking("\"Rust".to_owned())), "Rust");
    assert_eq!(draft.push(&Token::Talking(" tips\"".to_owned())), "Rust tips");
    assert_eq!(draft.finish(), "Rust tips");
}

#[test]
fn long_title_gets_an_ellipsis() {
    let mut draft = TitleDraft::new();
    let long = "a".repeat(81);
    assert_eq!(draft.push(&Token::Talking(long.clone())), format!("{long}..."));
    assert_eq!(draft.push(&Token::Talking("b".to_owned())), format!("{long}...b..."));
}

fn entry(n: u128, title: &str) -> Entry {
    Entry { id: Id(n), file: file(), title: Some(title.to_owned()) }
}

fn ids(list: &List) -> Vec<u128> {
    list.entries.iter().map(|e| e.id.0).collect()
}

#[test]
fn list_push_puts_the_chat_first() {
    let mut list = List::new();
    list.push(entry(1, "one"));
    list.push(entry(2, "two"));
    assert_eq!(ids(&list), vec![2, 1]);
}

#[test]
fn list_remove_drops_every_entry_of_the_chat() {
    let mut list = List::new();
    list.push(entry(1, "one"));
    list.push(entry(2, "two"));
    list.push(entry(1, "again"));
    list.remove(Id(1));
    assert_eq!(ids(&list), vec![2]);
    list.remove(Id(7));
    assert_eq!(ids(&list), vec![2]);
}

#[test]
fn push_then_remove_gives_back_the_list() {
    let mut list = List::new();
    list.push(entry(1, "one"));
    list.push(entry(2, "two"));
    list.push(entry(3, "three"));
    list.remove(Id(3));
    assert_eq!(ids(&list), vec![2, 1]);
}

#[test]
fn retitle_changes_the_first_entry_of_the_chat() {
    let mut list = List::new();
    list.push(entry(1, "one"));
    list.push(entry(2, "two"));
    list.retitle(Id(1), Some("renamed".to_owned()));
    assert_eq!(list.entries[1].title.as_deref(), Some("renamed"));
    assert_eq!(list.entries[0].title.as_deref(), Some("two"));
    list.retitle(Id(9), None);
    assert_eq!(list.entries.len(), 2);
}

#[test]
fn deleting_the_last_opened_chat_opens_the_first_remaining() {
    let mut list = List::new();
    list.push(entry(5, "five"));
    assert_eq!(after_delete(Id(1), Some(Id(1)), Some(&list)), LastOpened::Open(Id(5)));
    assert_eq!(after_delete(Id(1), Some(Id(1)), Some(&List::new())), LastOpened::Clear);
    assert_eq!(after_delete(Id(1), Some(Id(1)), None), LastOpened::Clear);
    assert_eq!(after_delete(Id(1), Some(Id(2)), Some(&list)), LastOpened::Keep);
    assert_eq!(after_delete(Id(1), None, Some(&list)), LastOpened::Keep);
}

fn sample_chat() -> Chat {
    let mut plan = Plan::empty();
    plan.reasoning = Some(Reasoning { content: "plan it".to_owned(), duration: Duration::new(3, 7) });
    plan.steps.push(Step {
        evidence: "search_0".to_owned(),
        description: "Search".to_owned(),
        function: "search".to_owned(),
        inputs: vec!["rust".to_owned()],
    });
    plan.outcomes.push(Outcome::Search(Status::Errored("offline".to_owned())));
    plan.outcomes.push(Outcome::Answer(Status::Done(Reply {
        reasoning: Some(Reasoning { content: "hm".to_owned(), duration: Duration::new(1, 2) }),
        content: "Done.".to_owned(),
        last_token: None,
    })));
    Chat {
        id: Id(42),
        file: file(),
        title: Some("Rust".to_owned()),
        history: vec![Item::User("hi".to_owned()), Item::Reply(reply("hello")), Item::Plan(plan)],
    }
}

#[test]
fn a_saved_chat_reads_back() {
    let chat = sample_chat();
    let back = decode(&encode(&chat)).unwrap();
    assert_eq!(back.id, chat.id);
    assert_eq!(back.file, chat.file);
    assert_eq!(back.title, chat.title);
    assert_eq!(back.history.len(), 3);
    assert!(matches!(back.history[0], Item::User(ref q) if q == "hi"));
    assert!(matches!(back.history[1], Item::Reply(ref r) if r.content == "hello"));
    let Item::Plan(ref plan) = back.history[2] else { panic!("not a plan") };
    assert_eq!(plan.reasoning.as_ref().unwrap().duration, Duration::new(3, 7));
    assert_eq!(plan.steps[0].inputs, vec!["rust".to_owned()]);
    assert!(matches!(plan.outcomes[0], Outcome::Search(Status::Errored(ref e)) if e == "offline"));
    assert!(matches!(plan.outcomes[1], Outcome::Answer(Status::Done(ref r)) if r.content == "Done."));
}

#[test]
fn encoded_chat_names_its_id_as_uuid_text() {
    let Value::Fields(fields) = encode(&sample_chat()) else { panic!("not fields") };
    assert_eq!(fields[0].0, "id");
    assert!(matches!(fields[0].1, Value::Text(ref t) if t == "00000000-0000-0000-0000-00000000002a"));
}

#[test]
fn decode_errors_name_what_is_wrong() {
    assert_eq!(decode(&Value::Null).unwrap_err(), DecodeError::InvalidType);
    let Value::Fields(mut fields) = encode(&sample_chat()) else { panic!() };
    fields[0].1 = Value::Text("not an id".to_owned());
    assert_eq!(decode(&Value::Fields(fields)).unwrap_err(), DecodeError::InvalidId);
    let Value::Fields(mut fields) = encode(&sample_chat()) else { panic!() };
    fields.retain(|(k, _)| k != "history");
    assert_eq!(decode(&Value::Fields(fields)).unwrap_err(), DecodeError::FieldMissing);
}

#[test]
fn chats_of_parsed_urls_read_back() {
    let mut chat = sample_chat();
    assert!(reads_back(&chat));
    let Item::Plan(ref mut plan) = chat.history[2] else { panic!("not a plan") };
    plan.outcomes.push(Outcome::Search(Status::Done(vec![Url::parse("HTTPS://Example.COM/a/../b").unwrap()])));
    assert!(reads_back(&chat));
    let back = decode(&encode(&chat)).unwrap();
    let Item::Plan(ref plan) = back.history[2] else { panic!("not a plan") };
    assert!(matches!(plan.outcomes[2], Outcome::Search(Status::Done(ref l)) if l[0].as_str() == "https://example.com/b"));
}
