use icebreaker::address::Url;
use icebreaker::assistant;
use icebreaker::chat::legacy::{
    Message, Outcome, Plan, Reasoning, Reply, Schema, Status, Step, WebSummaries, WebSummary,
};
use icebreaker::chat::{Id, Item};
use icebreaker::duration::Duration;
use icebreaker::model::{File, Id as ModelId};
use icebreaker::plan;

fn saved_reply(reasoning: &str, content: &str) -> Reply {
    Reply { reasoning: reasoning.to_owned(), reasoning_time: Duration::new(4, 0), content: content.to_owned() }
}

#[test]
fn a_reply_saved_as_text_has_no_reasoning() {
    let reply: Reply = "just text".parse().unwrap();
    let current = reply.into_data();
    assert_eq!(current.content, "just text");
    assert!(current.reasoning.is_none());
    assert!(current.last_token.is_none());
    let from_text = Reply::from_text("x").into_data();
    assert_eq!(from_text.content, "x");
}

#[test]
fn an_empty_saved_reasoning_means_none() {
    assert!(saved_reply("", "c").into_data().reasoning.is_none());
    let with = saved_reply("because", "c").into_data();
    let reasoning = with.reasoning.unwrap();
    assert_eq!(reasoning.content, "because");
    assert_eq!(reasoning.duration, Duration::new(4, 0));
}

#[test]
fn unknown_scraped_text_becomes_one_summary_of_an_unknown_site() {
    let known = WebSummaries::Known(vec![WebSummary {
        url: Url::parse("https://a.example").unwrap(),
        content: "alpha".to_owned(),
    }])
    .into_data();
    assert_eq!(known.len(), 1);
    assert_eq!(known[0].url.as_str(), "https://a.example/");
    let unknown = WebSummaries::Uknown(vec!["one".to_owned(), "two".to_owned()]).into_data();
    assert_eq!(unknown.len(), 1);
    assert_eq!(unknown[0].url.as_str(), "https://unknown.com/");
    assert_eq!(unknown[0].content, "one\ntwo");
}

#[test]
fn statuses_keep_their_output() {
    assert!(matches!(Status::Done(5u8).into_data(), plan::Status::Done(5)));
    assert!(matches!(Status::<u8>::Errored("e".to_owned()).into_data(), plan::Status::Errored(ref e) if e == "e"));
    assert!(matches!(Status::Active(2u8).map(|x| x + 1), Status::Active(3)));
}

#[test]
fn a_saved_chat_becomes_a_current_chat() {
    let plan = Plan {
        reasoning: Some(Reasoning { content: "r".to_owned(), duration: Duration::new(1, 0) }),
        steps: vec![Step {
            evidence: "s".to_owned(),
            description: "d".to_owned(),
            function: "search".to_owned(),
            inputs: vec!["q".to_owned()],
        }],
        outcomes: vec![
            Outcome::ScrapeText(Status::Done(WebSummaries::Uknown(vec!["line".to_owned()]))),
            Outcome::Answer(Status::Done(saved_reply("", "answer"))),
        ],
    };
    let schema = Schema {
        id: Id(9),
        file: File { model: ModelId("a/b".to_owned()), name: "b.gguf".to_owned() },
        title: None,
        history: vec![Message::User("q".to_owned()), Message::Reply(saved_reply("", "r")), Message::Plan(plan)],
    };
    let chat = schema.into_chat();
    assert_eq!(chat.id, Id(9));
    assert_eq!(chat.history.len(), 3);
    assert!(matches!(chat.history[0], Item::User(ref q) if q == "q"));
    let Item::Plan(ref p) = chat.history[2] else { panic!("not a plan") };
    assert_eq!(p.steps[0].function, "search");
    assert!(matches!(p.outcomes[0], plan::Outcome::ScrapeText(plan::Status::Done(ref s)) if s[0].content == "line"));
    let answers: Vec<&assistant::Reply> = p.answers();
    assert_eq!(answers.len(), 1);
    assert_eq!(answers[0].content, "answer");
}
