use flint::engine::{
    chat_line_from, engine_health_from, parse_model_list, process_chat_line, process_pull_line, pull_line_from,
    ChatLine, ChatStream, PullLine, PullStream,
};
use flint::types::{ChatEvent, EngineHealth, PullProgress};
use flint::AppError;

#[test]
fn health_running_reports_version() {
    assert_eq!(
        engine_health_from(r#"{"version":"0.32.15"}"#).unwrap(),
        EngineHealth::Running { version: "0.32.15".into() }
    );
    assert_eq!(engine_health_from("{}").unwrap(), EngineHealth::Running { version: "?".into() });
    match engine_health_from("<html>") {
        Err(AppError::Engine(m)) => assert!(m.starts_with("version parse: ")),
        other => panic!("expected a parse error, got {other:?}"),
    }
}

#[test]
fn list_models_parses_tags() {
    let models = parse_model_list(
        r#"{"models":[{"name":"qwen3.6:latest","size":23938333577,"modified_at":"2026-04-20T19:15:52Z"}]}"#,
    )
    .unwrap();
    assert_eq!(models.len(), 1);
    assert_eq!(models[0].name, "qwen3.6:latest");
    assert_eq!(models[0].size_bytes, 23938333577);
    assert_eq!(models[0].modified_at, "2026-04-20T19:15:52Z");
    assert!(parse_model_list("{}").unwrap().is_empty());
    let partial = parse_model_list(r#"{"models":[{"size":-1}]}"#).unwrap();
    assert_eq!(partial[0].name, "");
    assert_eq!(partial[0].size_bytes, 0);
    assert!(parse_model_list("nope").is_err());
}

#[test]
fn ensure_model_streams_progress_then_succeeds() {
    let ndjson = [
        r#"{"status":"pulling manifest"}"#,
        r#"{"status":"downloading","digest":"sha256:abc","total":100,"completed":30,"progress":"30%"}"#,
        r#"{"status":"downloading","digest":"sha256:abc","total":100,"completed":80,"progress":"80%"}"#,
        r#"{"status":"verifying sha256 digest"}"#,
        r#"{"status":"success"}"#,
    ]
    .join("\n");
    let mut pull = PullStream::new();
    let feed = pull.feed(ndjson.as_bytes());
    // the last line has no newline: it is read at the end of the stream
    assert!(feed.end.is_none());
    let (tail, end) = pull.finish();
    assert!(end.is_ok(), "expected success, got {end:?}");
    let mut progress = feed.progress;
    progress.extend(tail);
    assert_eq!(progress.len(), 4);
    assert_eq!(progress[0].status, "pulling manifest");
    assert_eq!(progress[1].percent_tenths, 300);
    assert_eq!(progress[2].percent_tenths, 800);
    assert_eq!(progress[3].status, "verifying sha256 digest");
}

#[test]
fn ensure_model_reports_pull_error() {
    let mut pull = PullStream::new();
    let feed = pull.feed(br#"{"status":"error","error":"unknown model"}"#);
    assert!(feed.end.is_none());
    let (_, end) = pull.finish();
    assert_eq!(end, Err(AppError::Engine("unknown model".into())));
    assert!(end.unwrap_err().message().contains("unknown model"));
}

#[test]
fn pull_stream_without_success_fails() {
    let mut pull = PullStream::new();
    let feed = pull.feed(b"{\"status\":\"downloading\",\"total\":100,\"completed\":10}\n");
    assert_eq!(feed.progress.len(), 1);
    assert_eq!(feed.progress[0].percent_tenths, 100);
    let (tail, end) = pull.finish();
    assert!(tail.is_empty());
    assert_eq!(end, Err(AppError::Engine("pull stream ended before success".into())));
}

#[test]
fn pull_success_line_ends_the_stream() {
    let mut pull = PullStream::new();
    let feed = pull.feed(b"{\"status\":\"success\"}\n{\"status\":\"ignored\"}\n");
    assert_eq!(feed.end, Some(Ok(())));
    assert!(feed.progress.is_empty());
}

#[test]
fn pull_lines_map_to_outcomes() {
    assert_eq!(process_pull_line("").unwrap(), PullLine::Continue);
    assert_eq!(process_pull_line(r#"{"status":"success"}"#).unwrap(), PullLine::Done);
    assert_eq!(
        process_pull_line(r#"{"status":"error"}"#),
        Err(AppError::Engine("unknown".into()))
    );
    assert_eq!(
        process_pull_line(r#"{"status":"downloading","total":3,"completed":1}"#).unwrap(),
        PullLine::Progress(PullProgress {
            status: "downloading".into(),
            completed: 1,
            total: 3,
            percent_tenths: 333,
        })
    );
    match process_pull_line("{oops") {
        Err(AppError::Engine(m)) => assert!(m.starts_with("pull line: ")),
        other => panic!("expected a parse error, got {other:?}"),
    }
}

#[test]
fn chat_streams_deltas_and_returns_full() {
    let ndjson = [
        r#"{"model":"qwen3.6:latest","message":{"role":"assistant","content":"Hel"},"done":false}"#,
        r#"{"model":"qwen3.6:latest","message":{"role":"assistant","content":"lo"},"done":false}"#,
        r#"{"model":"qwen3.6:latest","message":{"role":"assistant","content":""},"done":true,"done_reason":"stop"}"#,
    ]
    .join("\n");
    let mut chat = ChatStream::new();
    let feed = chat.feed(ndjson.as_bytes());
    let (tail, end) = chat.finish();
    assert!(end.is_ok());
    let mut events = feed.events;
    events.extend(tail);
    assert_eq!(chat.full(), "Hello");
    assert_eq!(
        events,
        vec![ChatEvent::Delta { content: "Hel".into() }, ChatEvent::Delta { content: "lo".into() }]
    );
}

#[test]
fn chat_done_line_ends_the_reply() {
    let mut chat = ChatStream::new();
    let feed = chat.feed(b"{\"message\":{\"content\":\"a\"},\"done\":false}\n{\"message\":{\"content\":\"b\"},\"done\":true}\n{\"message\":{\"content\":\"c\"}}\n");
    assert_eq!(feed.end, Some(Ok(())));
    assert_eq!(chat.full(), "ab");
    assert_eq!(feed.events.len(), 2);
}

#[test]
fn chat_reports_engine_error() {
    let mut chat = ChatStream::new();
    let feed = chat.feed(br#"{"error":"model not found"}"#);
    assert!(feed.end.is_none());
    let (events, end) = chat.finish();
    assert!(events.is_empty());
    let err = end.unwrap_err();
    assert!(err.message().contains("model not found"));
}

#[test]
fn chat_deltas_reassemble_under_any_chunking() {
    let ndjson = "{\"message\":{\"content\":\"Hé\"}}\n{\"message\":{\"content\":\"llo\"}}\n{\"done\":true}\n";
    let bytes = ndjson.as_bytes();
    for cut in 0..bytes.len() {
        let mut chat = ChatStream::new();
        let mut events = chat.feed(&bytes[..cut]).events;
        let feed = chat.feed(&bytes[cut..]);
        events.extend(feed.events);
        assert_eq!(feed.end, Some(Ok(())), "cut at {cut}");
        let joined: String = events
            .iter()
            .map(|e| match e {
                ChatEvent::Delta { content } => content.as_str(),
                _ => "",
            })
            .collect();
        assert_eq!(&joined, chat.full());
        assert_eq!(chat.full(), "Héllo");
    }
}

#[test]
fn chat_lines_map_to_outcomes() {
    let mut full = String::from("x");
    let (line, ev) = process_chat_line(r#"{"message":{"content":"y"},"done":true}"#, &mut full).unwrap();
    assert_eq!(line, ChatLine::Done);
    assert_eq!(ev, Some(ChatEvent::Delta { content: "y".into() }));
    assert_eq!(full, "xy");
    let (line, ev) = process_chat_line("", &mut full).unwrap();
    assert_eq!(line, ChatLine::Continue);
    assert_eq!(ev, None);
    assert!(process_chat_line("{bad", &mut full).unwrap_err().message().contains("chat line: "));
    assert_eq!(full, "xy");
}

#[test]
fn invalid_utf8_in_a_line_is_replaced() {
    let mut chat = ChatStream::new();
    let mut bytes = br#"{"message":{"content":"h"#.to_vec();
    bytes.push(0xff);
    bytes.extend_from_slice(br#"i"},"done":true}"#);
    bytes.push(b'\n');
    let fed = chat.feed(&bytes);
    assert_eq!(fed.events, vec![ChatEvent::Delta { content: "h\u{fffd}i".into() }]);
    assert_eq!(fed.end, Some(Ok(())));
    assert_eq!(chat.full(), "h\u{fffd}i");
}

#[test]
fn pull_stream_split_anywhere_gives_the_same_samples() {
    let text = "{\"status\":\"downloading\",\"completed\":1,\"total\":4}\n\n{\"status\":\"downloading\",\"completed\":4,\"total\":4}\n{\"status\":\"success\"}\n";
    let bytes = text.as_bytes();
    let mut whole = PullStream::new();
    let all = whole.feed(bytes);
    assert_eq!(all.end, Some(Ok(())));
    assert_eq!(all.progress.len(), 2);
    assert_eq!(all.progress[1].percent_tenths, 1000);
    for cut in 0..bytes.len() {
        let mut pull = PullStream::new();
        let mut samples = pull.feed(&bytes[..cut]).progress;
        let rest = pull.feed(&bytes[cut..]);
        samples.extend(rest.progress);
        assert_eq!(samples, all.progress, "cut at {cut}");
        assert_eq!(rest.end, Some(Ok(())), "cut at {cut}");
    }
}

#[test]
fn pull_fields_decide_the_outcome() {
    assert_eq!(
        pull_line_from(Some("expected value".into()), Some("success".into()), None, None, None).unwrap_err(),
        AppError::Engine("pull line: expected value".into())
    );
    assert_eq!(
        pull_line_from(None, Some("error".into()), None, None, None).unwrap_err(),
        AppError::Engine("unknown".into())
    );
    assert_eq!(pull_line_from(None, Some("success".into()), None, Some(5), None).unwrap(), PullLine::Done);
    assert_eq!(
        pull_line_from(None, None, None, Some(3), Some(4)).unwrap(),
        PullLine::Progress(PullProgress { status: String::new(), completed: 3, total: 4, percent_tenths: 750 })
    );
}

#[test]
fn chat_fields_decide_the_outcome() {
    let mut full = String::from("a");
    assert_eq!(
        chat_line_from(None, Some("model not found".into()), Some("x".into()), Some(true), &mut full).unwrap_err(),
        AppError::Engine("model not found".into())
    );
    assert_eq!(full, "a");
    assert_eq!(
        chat_line_from(None, None, Some("b".into()), None, &mut full).unwrap(),
        (ChatLine::Continue, Some(ChatEvent::Delta { content: "b".into() }))
    );
    assert_eq!(chat_line_from(None, None, None, Some(true), &mut full).unwrap(), (ChatLine::Done, None));
    assert_eq!(full, "ab");
}
