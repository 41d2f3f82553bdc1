use icebreaker::assistant::{Message, Reply, Token};
use icebreaker::completion::{first_delta, request_body, Completion, Composer};
use icebreaker::duration::Duration;
use icebreaker::value::{DecodeError, Value};

fn feed(chunks: &[&[u8]]) -> Vec<String> {
    let mut completion = Completion::new();
    let mut payloads = Vec::new();
    for chunk in chunks {
        payloads.extend(completion.receive(chunk));
    }
    payloads
}

#[test]
fn lines_are_the_same_however_the_stream_is_cut() {
    let stream: &[u8] = b"data: {\"a\":1}\n\ndata: {\"b\":2}\ndata: {\"c\"";
    let whole = feed(&[stream]);
    for cut in 0..stream.len() {
        let (a, b) = stream.split_at(cut);
        assert_eq!(feed(&[a, b]), whole, "cut at {cut}");
    }
    assert_eq!(whole, vec!["{\"a\":1}".to_owned(), "{\"b\":2}".to_owned()]);
}

#[test]
fn incomplete_line_waits_for_its_newline() {
    let mut completion = Completion::new();
    assert!(completion.receive(b"data: {\"x\"").is_empty());
    assert_eq!(completion.receive(b":1}\n"), vec!["{\"x\":1}".to_owned()]);
}

#[test]
fn done_marker_ends_the_payloads_of_a_chunk() {
    let payloads = feed(&[b"data: one\ndata: [DONE]\ndata: two\n"]);
    assert_eq!(payloads, vec!["one".to_owned()]);
}

#[test]
fn lines_that_are_not_utf8_are_skipped() {
    let payloads = feed(&[b"data: \xff\xfe\ndata: ok\n"]);
    assert_eq!(payloads, vec!["ok".to_owned()]);
}

#[test]
fn line_without_data_prefix_is_kept_whole() {
    let payloads = feed(&[b"  {\"k\":true}  \n"]);
    assert_eq!(payloads, vec!["  {\"k\":true}  ".to_owned()]);
}

#[test]
fn think_markers_switch_between_reasoning_and_talking() {
    let mut completion = Completion::new();
    assert_eq!(completion.token("Hello"), Token::Talking("Hello".to_owned()));
    let mut completion = Completion::new();
    assert_eq!(completion.token("<think>Hmm"), Token::Reasoning("Hmm".to_owned()));
    assert_eq!(completion.token(" more"), Token::Reasoning(" more".to_owned()));
    assert_eq!(completion.token("done</think>Hi"), Token::Talking("doneHi".to_owned()));
    assert_eq!(completion.token("<think>again"), Token::Talking("<think>again".to_owned()));
}

fn fields(entries: Vec<(&str, Value)>) -> Value {
    Value::Fields(entries.into_iter().map(|(k, v)| (k.to_owned(), v)).collect())
}

#[test]
fn first_delta_reads_the_content_of_the_first_choice() {
    let chunk = fields(vec![(
        "choices",
        Value::Sequence(vec![
            fields(vec![("delta", fields(vec![("content", Value::Text("Hi".to_owned()))]))]),
            fields(vec![("delta", fields(vec![]))]),
        ]),
    )]);
    assert_eq!(first_delta(&chunk), Ok(Some("Hi".to_owned())));

    let empty = fields(vec![("choices", Value::Sequence(vec![]))]);
    assert_eq!(first_delta(&empty), Ok(None));

    let null = fields(vec![(
        "choices",
        Value::Sequence(vec![fields(vec![("delta", fields(vec![("content", Value::Null)]))])]),
    )]);
    assert_eq!(first_delta(&null), Ok(None));
}

#[test]
fn first_delta_errors() {
    assert_eq!(first_delta(&fields(vec![])), Err(DecodeError::FieldMissing));
    assert_eq!(first_delta(&Value::Text("x".to_owned())), Err(DecodeError::InvalidType));
    let bad = fields(vec![(
        "choices",
        Value::Sequence(vec![fields(vec![("delta", fields(vec![("content", Value::Bool(true))]))])]),
    )]);
    assert_eq!(first_delta(&bad), Err(DecodeError::InvalidType));
}

#[test]
fn composer_builds_the_reply_token_by_token() {
    let mut composer = Composer::new();
    let r1 = composer.push(&Token::Reasoning(" thinking ".to_owned()), Duration::new(10, 0));
    assert_eq!(r1.reasoning.as_ref().unwrap().content, "thinking");
    assert_eq!(r1.reasoning.as_ref().unwrap().duration, Duration::zero());
    let r2 = composer.push(&Token::Reasoning("hard".to_owned()), Duration::new(12, 500));
    assert_eq!(r2.reasoning.as_ref().unwrap().content, "thinking hard");
    assert_eq!(r2.reasoning.as_ref().unwrap().duration, Duration::new(2, 500));
    let r3 = composer.push(&Token::Talking(" Hello".to_owned()), Duration::new(13, 0));
    assert_eq!(r3.content, "Hello");
    assert_eq!(r3.last_token, Some(" Hello".to_owned()));
    let r4 = composer.push(&Token::Talking(" world ".to_owned()), Duration::new(14, 0));
    assert_eq!(r4.content, "Hello world");
    let done: Reply = composer.finish();
    assert_eq!(done.content, "Hello world");
    assert_eq!(done.last_token, None);
    assert_eq!(done.reasoning.unwrap().duration, Duration::new(2, 500));
}

#[test]
fn request_body_lists_the_system_prompt_then_the_messages() {
    let messages = vec![Message::User("Hi".to_owned()), Message::Assistant("Hello".to_owned())];
    let append = vec![Message::System("Be brief".to_owned())];
    let body = request_body("model-x", "You are a helpful assistant.", &messages, &append);
    let Value::Fields(entries) = body else { panic!("not fields") };
    assert_eq!(entries[0].0, "model");
    assert!(matches!(entries[0].1, Value::Text(ref m) if m == "model-x"));
    let Value::Sequence(ref items) = entries[1].1 else { panic!("no messages") };
    assert_eq!(items.len(), 4);
    let roles: Vec<String> = items
        .iter()
        .map(|item| match item {
            Value::Fields(f) => match &f[0].1 {
                Value::Text(r) => r.clone(),
                _ => String::new(),
            },
            _ => String::new(),
        })
        .collect();
    assert_eq!(roles, vec!["system", "user", "assistant", "system"]);
    assert!(matches!(entries[2].1, Value::Bool(true)));
    assert_eq!(entries[3].0, "cache_prompt");
}
