use flint::agent::{
    check_permission_net, config_has_ask, extract_assistant_text, find_double_newline, parse_sse_event, parse_sse_frame, sse_event_from,
    SseEvent, SseFields, SseRun, SseStop,
};
use flint::types::AgentEvent;

#[test]
fn config_has_ask_detects_the_net() {
    assert!(config_has_ask(r#"{"*":"ask"}"#));
    assert!(!config_has_ask(r#"{"*":"allow"}"#));
    assert!(!config_has_ask(r#"{"read":"allow"}"#));
}

#[test]
fn config_has_ask_rejects_non_objects() {
    assert!(!config_has_ask("null"));
    assert!(!config_has_ask(r#"["ask"]"#));
    assert!(!config_has_ask("not json"));
    assert!(config_has_ask(r#"{"bash":{"*":"ask"},"*":"ask"}"#));
}

#[test]
fn double_newline_accepts_both_terminators() {
    assert_eq!(find_double_newline(b"data: x\n\nrest"), Some(8));
    assert_eq!(find_double_newline(b"data: x\r\n\r\nrest"), Some(10));
    assert_eq!(find_double_newline(b"data: x\n"), None);
    assert_eq!(find_double_newline(b""), None);
    // the earliest terminator ends the frame, whichever kind it is
    assert_eq!(find_double_newline(b"a\r\n\r\nb\n\nc"), Some(4));
    assert_eq!(find_double_newline(b"a\n\nb\r\n\r\nc"), Some(2));
    assert_eq!(find_double_newline(b"a\r\n\n"), Some(3));
}

#[test]
fn frame_payload_is_first_nonempty_data_line() {
    assert_eq!(parse_sse_frame("event: x\ndata: {\"a\":1}\n\n"), Some("{\"a\":1}".to_string()));
    assert_eq!(parse_sse_frame("data:   \ndata: second\n"), Some("second".to_string()));
    assert_eq!(parse_sse_frame("data:{\"b\":2}\r\n\r\n"), Some("{\"b\":2}".to_string()));
    assert_eq!(parse_sse_frame(": comment\n\n"), None);
    assert_eq!(parse_sse_frame(""), None);
}

#[test]
fn events_map_to_signals() {
    assert_eq!(
        parse_sse_event(r#"{"type":"message.part.delta","properties":{"delta":"Hel"}}"#),
        SseEvent::Delta("Hel".into())
    );
    assert_eq!(parse_sse_event(r#"{"type":"message.part.delta"}"#), SseEvent::Delta("".into()));
    assert_eq!(
        parse_sse_event(
            r#"{"type":"permission.asked","properties":{"id":"per_1","permission":"read","patterns":["/ws",3,"/b"]}}"#
        ),
        SseEvent::Permission("per_1".into(), "read".into(), vec!["/ws".into(), "/b".into()])
    );
    assert_eq!(
        parse_sse_event(r#"{"type":"permission.asked","id":"per_2","permission":"bash"}"#),
        SseEvent::Permission("per_2".into(), "bash".into(), vec![])
    );
    assert_eq!(
        parse_sse_event(r#"{"type":"session.status","properties":{"status":{"type":"idle"}}}"#),
        SseEvent::Idle
    );
    assert_eq!(
        parse_sse_event(r#"{"type":"session.status","properties":{"status":{"type":"error"}}}"#),
        SseEvent::Error("agent run failed".into())
    );
    assert_eq!(
        parse_sse_event(r#"{"type":"session.status","properties":{"status":{"type":"busy"}}}"#),
        SseEvent::Busy
    );
    assert_eq!(
        parse_sse_event(r#"{"type":"error","properties":{"message":"boom"}}"#),
        SseEvent::Error("boom".into())
    );
    assert_eq!(parse_sse_event(r#"{"type":"error"}"#), SseEvent::Error("agent error".into()));
    assert_eq!(parse_sse_event(r#"{"type":"server.connected"}"#), SseEvent::Other);
    assert_eq!(parse_sse_event("not json"), SseEvent::Other);
}

#[test]
fn tool_parts_map_to_calls_and_results() {
    let running = r#"{"type":"message.part.updated","properties":{"part":{"type":"tool","tool":"read","callID":"c1","state":{"status":"running","input":{"filePath":"/ws/a.txt"}}}}}"#;
    assert_eq!(
        parse_sse_event(running),
        SseEvent::ToolCall("c1".into(), "read".into(), r#"{"filePath":"/ws/a.txt"}"#.into())
    );
    let done = r#"{"type":"message.part.updated","properties":{"part":{"type":"tool","tool":"read","callID":"c1","state":{"status":"completed"}}}}"#;
    assert_eq!(parse_sse_event(done), SseEvent::ToolResult("c1".into(), "read".into(), true));
    let failed = r#"{"type":"message.part.updated","properties":{"part":{"type":"tool","tool":"bash","callID":"c2","state":{"status":"error"}}}}"#;
    assert_eq!(parse_sse_event(failed), SseEvent::ToolResult("c2".into(), "bash".into(), false));
    let text = r#"{"type":"message.part.updated","properties":{"part":{"type":"text","text":"hi"}}}"#;
    assert_eq!(parse_sse_event(text), SseEvent::Other);
    let pending = r#"{"type":"message.part.updated","properties":{"part":{"type":"tool","tool":"read","callID":"c1","state":{"status":"pending"}}}}"#;
    assert_eq!(parse_sse_event(pending), SseEvent::Other);
}

#[test]
fn long_tool_input_is_truncated() {
    let long = "x".repeat(300);
    let ev = format!(
        r#"{{"type":"message.part.updated","properties":{{"part":{{"type":"tool","tool":"write","callID":"c9","state":{{"status":"running","input":"{long}"}}}}}}}}"#
    );
    match parse_sse_event(&ev) {
        SseEvent::ToolCall(_, _, input) => {
            assert_eq!(input.chars().count(), 201);
            assert!(input.ends_with('…'));
            assert!(input.starts_with("\"xxx"));
        }
        other => panic!("expected a tool call, got {other:?}"),
    }
}

#[test]
fn assistant_text_concatenates_text_parts() {
    let body = r#"[{"parts":[{"type":"text","text":"Hel"},{"type":"tool","text":"no"}]},{"parts":[{"type":"text","text":"lo"}]},{"other":1}]"#;
    assert_eq!(extract_assistant_text(body), Some("Hello".to_string()));
    assert_eq!(extract_assistant_text("[]"), Some(String::new()));
    assert_eq!(extract_assistant_text(r#"{"parts":[]}"#), None);
    assert_eq!(extract_assistant_text("garbage"), None);
}

fn stream(frames: &[&str]) -> Vec<u8> {
    frames.join("\n\n").into_bytes()
}

#[test]
fn run_sse_drives_to_done() {
    let evts = stream(&[
        r#"data: {"type":"message.part.delta","properties":{"delta":"Hel"}}"#,
        r#"data: {"type":"permission.asked","properties":{"id":"per_1","permission":"read","patterns":["/ws"]}}"#,
        r#"data: {"type":"message.part.delta","properties":{"delta":"lo"}}"#,
        r#"data: {"type":"session.status","properties":{"status":{"type":"idle"}}}"#,
    ]);
    let mut run = SseRun::new();
    let mut events = run.feed(&evts).events;
    let end = run.finish_stream();
    assert_eq!(end.stop, Some(SseStop::Idle));
    events.extend(end.events);
    events.push(run.idle_event(Some(r#"[{"parts":[{"type":"text","text":"Hello"}]}]"#.to_string())));
    assert!(events.iter().any(|e| matches!(e, AgentEvent::Delta { text } if text == "Hel")));
    assert!(events.iter().any(
        |e| matches!(e, AgentEvent::Permission { id, permission, pattern } if id == "per_1" && permission == "read" && pattern == "/ws")
    ));
    assert!(events.iter().any(|e| matches!(e, AgentEvent::Done { text } if text == "Hello")));
    assert_eq!(run.full(), "Hello");
}

#[test]
fn run_sse_honors_cancel() {
    let evts = format!("{}\n\n", r#"data: {"type":"message.part.delta","properties":{"delta":"Hi"}}"#);
    let mut run = SseRun::new();
    let feed = run.feed(evts.as_bytes());
    assert_eq!(feed.events, vec![AgentEvent::Delta { text: "Hi".into() }]);
    assert_eq!(feed.stop, None);
    // the caller sees the cancel flag before the next chunk and finishes with the partial
    assert_eq!(run.cancel_event(), AgentEvent::Done { text: "Hi".into() });
}

#[test]
fn run_sse_maps_tool_parts() {
    let evts = stream(&[
        r#"data: {"type":"message.part.updated","properties":{"part":{"type":"tool","tool":"read","callID":"c1","state":{"status":"running","input":{"filePath":"/ws/a.txt"}}}}}"#,
        r#"data: {"type":"message.part.updated","properties":{"part":{"type":"tool","tool":"read","callID":"c1","state":{"status":"completed"}}}}"#,
        r#"data: {"type":"session.status","properties":{"status":{"type":"idle"}}}"#,
    ]);
    let mut run = SseRun::new();
    let mut events = run.feed(&evts).events;
    let end = run.finish_stream();
    assert_eq!(end.stop, Some(SseStop::Idle));
    events.extend(end.events);
    events.push(run.idle_event(Some("[]".to_string())));
    let call = events.iter().find_map(|e| match e {
        AgentEvent::ToolCall { call_id, tool, .. } => Some((call_id.as_str(), tool.as_str())),
        _ => None,
    });
    assert_eq!(call, Some(("c1", "read")));
    assert!(events.iter().any(|e| matches!(e, AgentEvent::ToolResult { call_id, ok, .. } if call_id == "c1" && *ok)));
    assert_eq!(events.last(), Some(&AgentEvent::Done { text: String::new() }));
}

#[test]
fn frames_split_across_chunks_are_reassembled() {
    let all = stream(&[
        r#"data: {"type":"message.part.delta","properties":{"delta":"a"}}"#,
        r#"data: {"type":"message.part.delta","properties":{"delta":"b"}}"#,
        "",
    ]);
    let mut whole = SseRun::new();
    let one = whole.feed(&all).events;
    for cut in 0..all.len() {
        let mut run = SseRun::new();
        let mut events = run.feed(&all[..cut]).events;
        events.extend(run.feed(&all[cut..]).events);
        assert_eq!(events, one, "cut at {cut}");
        assert_eq!(run.full(), "ab");
    }
}

#[test]
fn error_event_stops_the_run() {
    let evts = stream(&[
        r#"data: {"type":"message.part.delta","properties":{"delta":"x"}}"#,
        r#"data: {"type":"error","properties":{"message":"model crashed"}}"#,
        r#"data: {"type":"message.part.delta","properties":{"delta":"never"}}"#,
        "",
    ]);
    let mut run = SseRun::new();
    let feed = run.feed(&evts);
    assert_eq!(
        feed.events,
        vec![AgentEvent::Delta { text: "x".into() }, AgentEvent::Error { message: "model crashed".into() }]
    );
    assert_eq!(feed.stop, Some(SseStop::Failed("model crashed".into())));
    assert_eq!(run.full(), "x");
}

#[test]
fn stream_end_without_idle_is_a_lost_connection() {
    let mut run = SseRun::new();
    let feed = run.feed(b"data: {\"type\":\"message.part.delta\",\"properties\":{\"delta\":\"p\"}}\n\n");
    assert_eq!(feed.stop, None);
    let end = run.finish_stream();
    assert!(end.events.is_empty());
    assert_eq!(end.stop, Some(SseStop::Failed("agent connection lost — run aborted".into())));

    // a trailing frame without its blank line is still read
    let mut run = SseRun::new();
    run.feed(b"data: {\"type\":\"message.part.delta\",\"properties\":{\"delta\":\"q\"}}");
    let end = run.finish_stream();
    assert_eq!(end.events, vec![AgentEvent::Delta { text: "q".into() }]);
    assert_eq!(end.stop, Some(SseStop::Failed("agent connection lost — run aborted".into())));
    assert_eq!(run.full(), "q");
}

#[test]
fn idle_falls_back_to_deltas() {
    let mut run = SseRun::new();
    run.feed(b"data: {\"type\":\"message.part.delta\",\"properties\":{\"delta\":\"partial\"}}\n\n");
    assert_eq!(run.idle_event(None), AgentEvent::Done { text: "partial".into() });
    assert_eq!(run.idle_event(Some("{\"not\":\"an array\"}".into())), AgentEvent::Done { text: "partial".into() });
}

#[test]
fn invalid_utf8_in_a_frame_is_replaced() {
    let mut run = SseRun::new();
    let mut bytes = br#"data: {"type":"message.part.delta","properties":{"delta":"a"#.to_vec();
    bytes.push(0xfe);
    bytes.extend_from_slice(b"b\"}}\n\n");
    let fed = run.feed(&bytes);
    assert_eq!(fed.events, vec![AgentEvent::Delta { text: "a\u{fffd}b".into() }]);
    assert_eq!(run.full(), "a\u{fffd}b");
}

#[test]
fn crlf_frame_then_lf_frame_are_two_frames_however_cut() {
    let first = b"data: {\"type\":\"message.part.delta\",\"properties\":{\"delta\":\"A\"}}\r\n\r\n";
    let second = b"data: {\"type\":\"message.part.delta\",\"properties\":{\"delta\":\"B\"}}\n\n";
    let mut both = first.to_vec();
    both.extend_from_slice(second);
    let expected = vec![AgentEvent::Delta { text: "A".into() }, AgentEvent::Delta { text: "B".into() }];
    for cut in 0..=both.len() {
        let mut run = SseRun::new();
        let mut events = run.feed(&both[..cut]).events;
        events.extend(run.feed(&both[cut..]).events);
        assert_eq!(events, expected, "cut at {cut}");
    }
}

fn fields(kind: &str) -> SseFields {
    SseFields {
        kind: Some(kind.into()),
        delta: None,
        status: None,
        message: None,
        id: None,
        permission: None,
        patterns: Vec::new(),
        part_type: None,
        tool: None,
        call_id: None,
        part_status: None,
        input: None,
    }
}

#[test]
fn event_fields_decide_the_signal() {
    assert_eq!(sse_event_from(fields("message.part.delta")), SseEvent::Delta(String::new()));
    let mut idle = fields("session.status");
    idle.status = Some("idle".into());
    assert_eq!(sse_event_from(idle), SseEvent::Idle);
    assert_eq!(sse_event_from(fields("session.status")), SseEvent::Busy);
    let mut tool = fields("message.part.updated");
    tool.part_type = Some("tool".into());
    tool.tool = Some("write".into());
    tool.call_id = Some("c1".into());
    tool.part_status = Some("running".into());
    tool.input = Some(format!("\"{}\"", "x".repeat(300)));
    match sse_event_from(tool) {
        SseEvent::ToolCall(id, t, summary) => {
            assert_eq!((id.as_str(), t.as_str()), ("c1", "write"));
            assert_eq!(summary.chars().count(), 201);
            assert!(summary.ends_with('…'));
        }
        other => panic!("expected a tool call, got {other:?}"),
    }
    assert_eq!(sse_event_from(fields("error")), SseEvent::Error("agent error".into()));
    let mut none = fields("other");
    none.kind = None;
    assert_eq!(sse_event_from(none), SseEvent::Other);
}

#[test]
fn the_permission_net_is_fail_closed() {
    assert_eq!(check_permission_net(r#"{"*":"ask","bash":{"*":"ask"}}"#), Ok(()));
    let refused = flint::AppError::Engine("permission net not in force \u{2014} agent refused (fail-closed)".into());
    assert_eq!(check_permission_net(r#"{"*":"allow"}"#), Err(refused.clone()));
    assert_eq!(check_permission_net("null"), Err(refused.clone()));
    assert_eq!(check_permission_net("not json"), Err(refused));
}
