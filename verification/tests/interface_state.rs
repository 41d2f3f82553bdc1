use icebreaker::address::Url;
use icebreaker::assistant;
use icebreaker::chat::{self, Id};
use icebreaker::duration::Duration;
use icebreaker::plan::{self, Stage, Status, Step};
use icebreaker::ui::history::{History, Item};
use icebreaker::ui::plan::{step_title, Outcome as ShownOutcome, Plan as ShownPlan};
use icebreaker::ui::{
    persist, spinner, submission, wants_title, window_title, Persist, Reasoning, Reply,
};

fn data_reply(reasoning: Option<&str>, content: &str, last: Option<&str>) -> assistant::Reply {
    assistant::Reply {
        reasoning: reasoning.map(|r| assistant::Reasoning { content: r.to_owned(), duration: Duration::new(1, 0) }),
        content: content.to_owned(),
        last_token: last.map(str::to_owned),
    }
}

#[test]
fn reasoning_is_cut_into_thoughts_and_joined_back() {
    let data = assistant::Reasoning { content: "First.\n\nSecond.\n\n\n\nThird.".to_owned(), duration: Duration::new(2, 0) };
    let shown = Reasoning::from_data(data);
    assert_eq!(shown.thoughts, vec!["First.", "Second.", "", "Third."]);
    assert!(!shown.show);
    let back = shown.to_data();
    assert_eq!(back.content, "First.\n\nSecond.\n\n\n\nThird.");
    assert_eq!(back.duration, Duration::new(2, 0));
    let empty = Reasoning::from_data(assistant::Reasoning { content: String::new(), duration: Duration::zero() });
    assert_eq!(empty.thoughts, vec![""]);
    assert_eq!(empty.to_data().content, "");
}

#[test]
fn reasoning_label_counts_seconds() {
    let r = |secs| Reasoning { thoughts: vec![], duration: Duration::new(secs, 0), show: false };
    assert_eq!(r(1).label(), "Reasoned for 1 second");
    assert_eq!(r(0).label(), "Reasoned for 0 seconds");
    assert_eq!(r(12).label(), "Reasoned for 12 seconds");
}

#[test]
fn copied_reply_quotes_unfolded_thoughts() {
    let mut reply = Reply::from_data(data_reply(Some("a\n\nb"), "Answer", None));
    assert_eq!(reply.to_text(), "Answer");
    reply.toggle_reasoning(true);
    assert_eq!(reply.to_text(), "> a\n>\n> b\n\nAnswer");
    let plain = Reply::from_data(data_reply(None, "Only", None));
    assert_eq!(plain.to_text(), "Only");
}

#[test]
fn streaming_reply_unfolds_reasoning_until_it_talks() {
    let mut reply = Reply { reasoning: None, content: String::new() };
    assert_eq!(reply.update(data_reply(Some("thinking"), "", None)), None);
    assert!(reply.reasoning.as_ref().unwrap().show);
    assert_eq!(reply.update(data_reply(Some("thinking"), "Hi", Some("Hi"))), Some("Hi".to_owned()));
    assert!(!reply.reasoning.as_ref().unwrap().show);
    assert_eq!(reply.content, "Hi");
    let data = reply.to_data();
    assert_eq!(data.content, "Hi");
    assert!(data.last_token.is_none());
}

#[test]
fn conversation_decisions() {
    assert_eq!(window_title(Some("Rust"), "Qwen3"), "Rust - Icebreaker");
    assert_eq!(window_title(None, "Qwen3"), "Qwen3 - Icebreaker");
    assert_eq!(submission("  hello \n"), Some("hello".to_owned()));
    assert_eq!(submission(" \n\t "), None);
    assert!(wants_title(false, 4));
    assert!(wants_title(true, 2));
    assert!(wants_title(true, 6));
    assert!(!wants_title(true, 4));
    assert_eq!(persist(false, false, Some(Id(1))), Persist::Wait);
    assert_eq!(persist(true, true, None), Persist::Wait);
    assert_eq!(persist(true, false, Some(Id(1))), Persist::Save(Id(1)));
    assert_eq!(persist(true, false, None), Persist::Create);
    let frames: Vec<&str> = (0..5).map(spinner).collect();
    assert_eq!(frames, vec!["|", "/", "—", "\\", "|"]);
}

fn url(s: &str) -> Url {
    Url::parse(s).unwrap()
}

#[test]
fn shown_plan_follows_the_events() {
    let mut shown = ShownPlan::new();
    assert_eq!(shown.active_step(), 0);
    shown.apply(plan::Event::Designing(assistant::Reasoning { content: "x".to_owned(), duration: Duration::zero() }));
    assert!(shown.reasoning.is_some());
    let mut designed = plan::Plan::empty();
    designed.steps.push(Step {
        evidence: "s".to_owned(),
        description: "Search the web.".to_owned(),
        function: "search".to_owned(),
        inputs: vec![],
    });
    designed.steps.push(Step {
        evidence: "a".to_owned(),
        description: "Answer".to_owned(),
        function: "answer".to_owned(),
        inputs: vec![],
    });
    shown.apply(plan::Event::Designed(designed));
    assert!(shown.reasoning.is_none());
    assert_eq!(shown.steps.len(), 2);
    assert_eq!(step_title(&shown.steps[0]), "Search the web");

    shown.apply(plan::Event::OutcomeAdded(plan::Outcome::Search(Status::Active(vec![]))));
    shown.apply(plan::Event::OutcomeChanged(plan::Outcome::Search(Status::Done(vec![url("https://a.example")]))));
    assert_eq!(shown.outcomes.len(), 1);
    assert_eq!(shown.step_stage(0), Stage::Done);
    assert_eq!(shown.step_stage(1), Stage::Pending);

    shown.apply(plan::Event::OutcomeAdded(plan::Outcome::Answer(Status::Active(assistant::Reply::empty()))));
    let token = shown.apply(plan::Event::OutcomeChanged(plan::Outcome::Answer(Status::Active(data_reply(None, "Hel", Some("Hel"))))));
    assert_eq!(token, Some("Hel".to_owned()));
    let token = shown.apply(plan::Event::OutcomeChanged(plan::Outcome::Answer(Status::Done(data_reply(None, "Hello", None)))));
    assert_eq!(token, None);
    assert_eq!(shown.active_step(), 1);
    assert!(matches!(shown.outcomes[1], ShownOutcome::Answer(Status::Done(ref r)) if r.content == "Hello"));
    shown.change_step(0);
    assert_eq!(shown.active_step(), 0);

    let data = shown.to_data();
    assert_eq!(data.outcomes.len(), 2);
    assert_eq!(data.answers()[0].content, "Hello");
}

#[test]
fn a_change_that_is_not_an_answer_drops_the_answer_being_written() {
    let mut shown = ShownPlan::new();
    shown.apply(plan::Event::OutcomeAdded(plan::Outcome::Answer(Status::Active(assistant::Reply::empty()))));
    shown.apply(plan::Event::OutcomeChanged(plan::Outcome::Search(Status::Active(vec![]))));
    assert!(shown.outcomes.is_empty());
}

#[test]
fn history_follows_a_completion() {
    let mut history = History::new();
    history.push_user("Hi".to_owned());
    assert_eq!(history.apply(chat::Event::ReplyAdded), None);
    let token = history.apply(chat::Event::ReplyChanged {
        reply: data_reply(None, "Hello", Some("Hello")),
        new_token: assistant::Token::Talking("Hello".to_owned()),
    });
    assert_eq!(token, Some("Hello".to_owned()));
    assert_eq!(history.apply(chat::Event::PlanAdded), None);
    history.apply(chat::Event::PlanChanged(plan::Event::OutcomeAdded(plan::Outcome::Search(Status::Active(vec![])))));
    assert_eq!(history.items().len(), 3);
    assert!(matches!(history.items()[2], Item::Plan(ref p) if p.outcomes.len() == 1));
    let data = history.to_data();
    assert!(matches!(data[0], chat::Item::User(ref c) if c == "Hi"));
    assert!(matches!(data[1], chat::Item::Reply(ref r) if r.content == "Hello" && r.last_token.is_none()));
    history.truncate(1);
    assert_eq!(history.items().len(), 1);
    history.truncate(5);
    assert_eq!(history.items().len(), 1);
}

#[test]
fn a_restored_chat_saves_back_the_same() {
    let items = vec![
        chat::Item::User("q".to_owned()),
        chat::Item::Reply(data_reply(Some("one\n\ntwo"), "a", None)),
    ];
    let history = History::restore(items);
    let data = history.to_data();
    assert!(matches!(data[0], chat::Item::User(ref c) if c == "q"));
    let chat::Item::Reply(ref r) = data[1] else { panic!("not a reply") };
    assert_eq!(r.content, "a");
    assert_eq!(r.reasoning.as_ref().unwrap().content, "one\n\ntwo");
    let mut history = history;
    history.toggle_reasoning(1, true);
    assert!(matches!(history.items()[1], Item::Reply(ref r) if r.reasoning.as_ref().unwrap().show));
}
