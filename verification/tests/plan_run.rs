use icebreaker::address::Url;
use icebreaker::assistant::{Message, Reply};
use icebreaker::plan::execution::{Action, Output, Process, Scrape};
use icebreaker::plan::{
    last_query, plan_json, retries_design, Event, Outcome, Plan, Stage, Status, Step,
};
use icebreaker::web::Summary;

fn step(evidence: &str, description: &str, function: &str, inputs: &[&str]) -> Step {
    Step {
        evidence: evidence.to_owned(),
        description: description.to_owned(),
        function: function.to_owned(),
        inputs: inputs.iter().map(|s| s.to_string()).collect(),
    }
}

fn url(s: &str) -> Url {
    Url::parse(s).unwrap()
}

fn summary(site: &str, content: &str) -> Summary {
    Summary { url: url(site), content: content.to_owned() }
}

fn reply(content: &str) -> Reply {
    Reply { reasoning: None, content: content.to_owned(), last_token: None }
}

#[test]
fn status_result_map_and_as_ref() {
    let active: Status<u32> = Status::Active(3);
    assert_eq!(active.result(), Ok(&3));
    let errored: Status<u32> = Status::Errored("boom".to_owned());
    assert_eq!(errored.result(), Err("boom"));
    assert!(matches!(Status::Done(2).map(|x: u32| x * 10), Status::Done(20)));
    assert!(matches!(errored.as_ref(), Status::Errored(ref e) if e == "boom"));
    assert!(matches!(active.as_ref(), Status::Active(&3)));
}

#[test]
fn outcome_stages() {
    assert_eq!(Outcome::Search(Status::Active(Vec::new())).stage(), Stage::Active);
    assert_eq!(Outcome::Answer(Status::Done(reply("x"))).stage(), Stage::Done);
    assert_eq!(Outcome::ScrapeText(Status::Errored("e".to_owned())).stage(), Stage::Error);
}

#[test]
fn answers_are_the_finished_answers() {
    let mut plan = Plan::empty();
    plan.outcomes.push(Outcome::Answer(Status::Done(reply("first"))));
    plan.outcomes.push(Outcome::Answer(Status::Active(reply("pending"))));
    plan.outcomes.push(Outcome::Answer(Status::Done(reply("second"))));
    let answers: Vec<&str> = plan.answers().iter().map(|r| r.content.as_str()).collect();
    assert_eq!(answers, vec!["first", "second"]);
}

#[test]
fn plan_json_is_the_first_fenced_block() {
    assert_eq!(plan_json("Here:\n```json\n[{\"a\":1}]\n```\nBye"), "[{\"a\":1}]");
    assert_eq!(plan_json("  [1, 2]  "), "[1, 2]");
    assert_eq!(plan_json("```\n[3]"), "[3]");
    assert_eq!(plan_json("```jsonjson [4] ```"), "[4]");
}

#[test]
fn last_query_is_the_last_user_message() {
    let history = vec![
        Message::User("first".to_owned()),
        Message::Assistant("reply".to_owned()),
        Message::User("second".to_owned()),
        Message::System("note".to_owned()),
    ];
    assert_eq!(last_query(&history), Some("second"));
    assert_eq!(last_query(&[Message::Assistant("x".to_owned())]), None);
}

#[test]
fn design_is_retried_three_times() {
    assert!(retries_design(0));
    assert!(retries_design(2));
    assert!(!retries_design(3));
}

#[test]
fn search_step_searches_for_its_first_input() {
    let process = Process::new();
    let steps = vec![step("search_0", "Search", "search", &["rust omelette", "ignored"])];
    assert!(matches!(process.action(&steps, 0, "q"), Action::Search(ref q) if q == "rust omelette"));
    let steps = vec![step("search_0", "Search", "search", &[])];
    assert!(matches!(process.action(&steps, 0, "q"), Action::Search(ref q) if q.is_empty()));
    let steps = vec![step("x", "Unknown", "dance", &[])];
    assert!(matches!(process.action(&steps, 0, "q"), Action::Skip));
}

#[test]
fn a_search_feeds_the_scrape_that_refers_to_it() {
    let mut process = Process::new();
    let search = Action::Search("q".to_owned());
    let added = process.start(&search).unwrap();
    assert!(matches!(added, Event::OutcomeAdded(Outcome::Search(Status::Active(ref l))) if l.is_empty()));
    let found = vec![url("https://a.example/"), url("https://b.example/")];
    let changed = process.update(Outcome::Search(Status::Active(found)));
    assert!(matches!(changed, Event::OutcomeChanged(_)));
    let done = process.done("search_0").unwrap();
    assert!(matches!(done, Event::OutcomeChanged(Outcome::Search(Status::Done(ref l))) if l.len() == 2));
    assert!(matches!(process.output("search_0"), Some(Output::Links(l)) if l.len() == 2));

    let steps = vec![
        step("search_0", "Search", "search", &["q"]),
        step("scrape_0", "Scrape", "scrape_text", &["$search_0", "https://c.example", "not a url", "$missing"]),
    ];
    let Action::ScrapeText(links) = process.action(&steps, 1, "q") else { panic!("not a scrape") };
    let links: Vec<&str> = links.iter().map(|l| l.as_str()).collect();
    assert_eq!(links, vec!["https://a.example/", "https://b.example/", "https://c.example/"]);
    assert_eq!(process.links(&vec!["$$ search_0 ".to_owned()]).len(), 2);
}

#[test]
fn the_answer_step_gets_the_steps_and_the_scraped_text() {
    let mut process = Process::new();
    process.start(&Action::ScrapeText(Vec::new()));
    process.update(Outcome::ScrapeText(Status::Active(vec![
        summary("https://a.example", "alpha"),
        summary("https://b.example", "beta"),
    ])));
    process.done("scrape_0");
    assert!(matches!(process.output("scrape_0"), Some(Output::Text(t)) if t == &vec!["alpha".to_owned(), "beta".to_owned()]));
    assert_eq!(process.text(&vec!["$scrape_0".to_owned()]), vec!["```\nalpha\n```".to_owned(), "```\nbeta\n```".to_owned()]);

    let steps = vec![
        step("search_0", "Search the web", "search", &["q"]),
        step("scrape_0", "Scrape the pages", "scrape_text", &["$search_0"]),
        step("final_answer", "Answer", "answer", &["$scrape_0"]),
    ];
    let Action::Answer(request) = process.action(&steps, 2, "How?") else { panic!("not an answer") };
    assert_eq!(request.len(), 2);
    let (role, prompt) = request[0].to_tuple();
    assert_eq!(role, "system");
    assert_eq!(
        prompt,
        "In order to figure out the user's request, you have already performed certain actions to \
         gather information. Here is a summary of the steps executed so far:\n\n\
         - Search the web\n- Scrape the pages\n\n\
         The outputs of the actions considered relevant to the user request are provided next:\n\
         ```\nalpha\n```\n\n```\nbeta\n```\n\
         Analyze the outputs carefully before replying to the user."
    );
    assert_eq!(request[1].to_tuple(), ("user", "How?"));
}

#[test]
fn done_on_a_finished_outcome_drops_it() {
    let mut process = Process::new();
    assert!(process.done("x").is_none());
    process.push(Outcome::Answer(Status::Done(reply("old"))));
    assert!(process.done("x").is_none());
    assert!(process.outcomes().is_empty());
    assert!(process.output("x").is_none());
}

#[test]
fn a_later_step_with_the_same_name_replaces_the_output() {
    let mut process = Process::new();
    process.start(&Action::Search("a".to_owned()));
    process.update(Outcome::Search(Status::Active(vec![url("https://one.example/")])));
    process.done("s");
    process.start(&Action::Answer(Vec::new()));
    process.done("s");
    assert!(matches!(process.output("s"), Some(Output::Answer)));
    assert_eq!(process.into_outcomes().len(), 2);
}

#[test]
fn scraped_summaries_come_in_arrival_order_then_link_order() {
    let mut scrape = Scrape::new(3);
    let first = scrape.progress(2, summary("https://c.example", "c1"));
    assert_eq!(first.iter().map(|s| s.content.as_str()).collect::<Vec<_>>(), vec!["c1"]);
    let second = scrape.progress(0, summary("https://a.example", "a1"));
    assert_eq!(second.iter().map(|s| s.content.as_str()).collect::<Vec<_>>(), vec!["c1", "a1"]);
    let third = scrape.progress(2, summary("https://c.example", "c2"));
    assert_eq!(third.iter().map(|s| s.content.as_str()).collect::<Vec<_>>(), vec!["c2", "a1"]);
    let all = scrape.finish(vec![
        (1, Some(summary("https://b.example", "b"))),
        (0, None),
        (2, Some(summary("https://c.example", "c3"))),
    ]);
    assert_eq!(all.iter().map(|s| s.content.as_str()).collect::<Vec<_>>(), vec!["a1", "b", "c3"]);
}

#[test]
fn status_map_keeps_the_kind_and_composes() {
    assert!(matches!(Status::Done(4u32).map(|x| x), Status::Done(4)));
    let f = |x: u32| x + 1;
    let g = |x: u32| x * 3;
    assert!(matches!(Status::Done(4u32).map(f).map(g), Status::Done(15)));
    assert!(matches!(Status::Done(4u32).map(|x| g(f(x))), Status::Done(15)));
    assert!(matches!(Status::Active(2u32).map(f), Status::Active(3)));
    let errored: Status<u32> = Status::Errored("down".to_owned());
    assert!(matches!(errored.map(f), Status::Errored(ref e) if e == "down"));
}

#[test]
fn each_step_run_to_its_end_adds_one_done_outcome() {
    let mut process = Process::new();
    process.start(&Action::Search("q".to_owned()));
    process.update(Outcome::Search(Status::Active(vec![url("https://a.example/")])));
    process.done("search_0");
    assert!(process.start(&Action::Skip).is_none());
    process.start(&Action::Answer(Vec::new()));
    process.update(Outcome::Answer(Status::Active(reply("partial"))));
    process.update(Outcome::Answer(Status::Active(reply("whole"))));
    process.done("answer_0");
    let outcomes = process.outcomes();
    assert_eq!(outcomes.len(), 2);
    assert!(outcomes.iter().all(|o| o.stage() == Stage::Done));
    assert!(matches!(outcomes[1], Outcome::Answer(Status::Done(ref r)) if r.content == "whole"));
}
