use favetto::agents::state::StateSourceConfig;
use favetto::agents::vibe::session_index::SessionStore;
use favetto::agents::vibe::stream::{
    no_permission_channel, state_source, VibeStreamParser, VibeStreamSource,
};
use favetto::json::{parse as parse_json, Json};
use favetto::model::{AgentStateEvent, Cost, IdleOutcome, MessageRole, Moment};

fn parse(raw: &str, exit_code: Option<i32>) -> VibeStreamParser {
    let mut parser = VibeStreamParser::new();
    parser.push(raw.as_bytes());
    parser.finish(exit_code, &None);
    parser
}

/// One line per row, each ended.
fn rows(rows: &[&str]) -> String {
    rows.iter().map(|row| format!("{row}\n")).collect()
}

/// Verbatim rows from a `vibe 2.25.7 --output streaming` run, trimmed.
const GROUNDED: [&str; 4] = [
    r#"{"id":"user-turn-1-2","sessionId":"09533137-2f6b","turnId":"turn-1","type":"message","role":"user","content":[{"type":"text","text":"Run echo hi"}],"source":"turn_start"}"#,
    r#"{"id":"reasoning-1-0","sessionId":"09533137-2f6b","turnId":"turn-1","type":"reasoning","text":"I should run the command.","summary":[]}"#,
    r#"{"id":"effect-1","sessionId":"09533137-2f6b","turnId":"turn-1","type":"effect","title":"file_system.bash","detail":{"toolName":"file_system.bash","kind":"shell","input":{"command":"echo hello-from-vibe"},"display":{"summary":"bash: echo hello-from-vibe"}},"state":{"status":"completed","output":{"stdout":"hello-from-vibe\n","stderr":"","output":"","truncated":false},"outputText":"hello-from-vibe\n","durationMs":0.0,"display":{"success":true,"verb":"Ran","message":"echo hello-from-vibe","warnings":[]},"decision":"execute","approvalType":"always"}}"#,
    r#"{"id":"assistant-1","sessionId":"09533137-2f6b","turnId":"turn-1","type":"message","role":"assistant","content":[{"type":"text","text":"hello-from-vibe"}],"source":"harness"}"#,
];

fn grounded() -> String {
    rows(&GROUNDED)
}

fn text(s: &str) -> Json {
    Json::Str(s.to_string())
}

#[test]
fn grounded_happy_path_maps_text_reasoning_tools_and_session() {
    let parser = parse(&grounded(), Some(0));
    assert_eq!(
        parser.events(),
        &[
            AgentStateEvent::TurnStarted,
            AgentStateEvent::Session {
                session_id: Some("09533137-2f6b".to_string()),
                title: None,
                model: None,
            },
            AgentStateEvent::ReasoningDelta { text: "I should run the command.".to_string() },
            AgentStateEvent::ToolStarted {
                id: "effect-1".to_string(),
                name: "file_system.bash".to_string(),
                input: parse_json(r#"{ "command": "echo hello-from-vibe" }"#).unwrap(),
            },
            AgentStateEvent::ToolFinished {
                id: "effect-1".to_string(),
                name: "file_system.bash".to_string(),
                ok: true,
                output: Some(text("hello-from-vibe\n")),
            },
            AgentStateEvent::TextDelta {
                role: MessageRole::Assistant,
                text: "hello-from-vibe".to_string(),
            },
            AgentStateEvent::Idle { outcome: IdleOutcome::Succeeded },
        ]
    );

    let summary = parser.summary();
    assert_eq!(summary.session_id.as_deref(), Some("09533137-2f6b"));
    assert_eq!(summary.text, "hello-from-vibe");
    assert_eq!(summary.reasoning, "I should run the command.");
    assert_eq!(summary.tool_calls.len(), 1);
    assert_eq!(summary.tool_calls[0].id, "effect-1");
    assert_eq!(summary.tool_calls[0].name, "file_system.bash");
    assert!(summary.tool_calls[0].ok);
    assert_eq!(summary.outcome, Some(IdleOutcome::Succeeded));
}

#[test]
fn design_result_row_adds_usage_and_outcome() {
    let raw = format!(
        "{}{}\n",
        grounded(),
        r#"{"type":"result","subtype":"success","is_error":false,"total_cost_usd":0.01,"usage":{"prompt_tokens":100,"completion_tokens":20,"reasoning_tokens":5,"cached_tokens":3}}"#
    );
    let parser = parse(&raw, Some(0));
    let last = parser.events().last().unwrap();
    assert_eq!(last, &AgentStateEvent::Idle { outcome: IdleOutcome::Succeeded });
    let usage = &parser.summary().usage;
    assert_eq!(usage.input_tokens, 100);
    assert_eq!(usage.output_tokens, 20);
    assert_eq!(usage.reasoning_tokens, 5);
    assert_eq!(usage.cache_read_tokens, 3);
    assert_eq!(usage.cost_usd, Some(Cost::Reported(0.01f64.to_bits())));
    // Exactly one Idle: `result` already set the outcome.
    let idles = parser
        .events()
        .iter()
        .filter(|e| matches!(e, AgentStateEvent::Idle { .. }))
        .count();
    assert_eq!(idles, 1);
}

#[test]
fn grounded_session_id_is_read_from_rows() {
    let parser = parse(&grounded(), Some(0));
    assert_eq!(parser.summary().session_id.as_deref(), Some("09533137-2f6b"));
    assert!(parser.events().iter().any(|e| matches!(
        e,
        AgentStateEvent::Session { session_id: Some(id), .. } if id == "09533137-2f6b"
    )));
}

#[test]
fn effect_row_maps_to_a_tool_call() {
    let parser = parse(&grounded(), Some(0));
    let finished = parser
        .events()
        .iter()
        .find_map(|event| match event {
            AgentStateEvent::ToolFinished { id, name, ok, output } => {
                Some((id.clone(), name.clone(), *ok, output.clone()))
            }
            _ => None,
        })
        .unwrap();
    assert_eq!(finished.0, "effect-1");
    assert_eq!(finished.1, "file_system.bash");
    assert!(finished.2);
    assert_eq!(finished.3, Some(text("hello-from-vibe\n")));
}

#[test]
fn effect_failure_marks_the_tool_failed() {
    let raw = rows(&[
        r#"{"id":"effect-2","sessionId":"s","turnId":"t","type":"effect","title":"file_system.bash","detail":{"toolName":"file_system.bash","input":{"command":"false"}},"state":{"status":"failed","outputText":"boom","display":{"success":false}}}"#,
    ]);
    let parser = parse(&raw, Some(0));
    let summary = parser.summary();
    // A failed tool is still structured work, but the run is not `Failed`
    // just because a tool failed (no error row): outcome stays succeeded.
    assert_eq!(summary.tool_calls.len(), 1);
    assert!(!summary.tool_calls[0].ok);
    assert_eq!(summary.outcome, Some(IdleOutcome::Succeeded));
}

#[test]
fn injected_rows_are_skipped() {
    let raw = rows(&[
        r#"{"id":"x","sessionId":"s","turnId":"t","type":"message","role":"assistant","injected":true,"content":[{"type":"text","text":"leaked"}]}"#,
        r#"{"id":"y","sessionId":"s","turnId":"t","type":"message","role":"assistant","content":[{"type":"text","text":"real"}]}"#,
    ]);
    let parser = parse(&raw, Some(0));
    assert_eq!(parser.summary().text, "real");
    assert!(!parser.events().iter().any(|e| matches!(
        e,
        AgentStateEvent::TextDelta { text, .. } if text == "leaked"
    )));
}

#[test]
fn design_openai_rows_map_to_text_and_tools() {
    let raw = rows(&[
        r#"{"role":"assistant","content":"hello"}"#,
        r#"{"role":"assistant","reasoning_content":"why"}"#,
        r#"{"role":"assistant","tool_calls":[{"id":"call_1","type":"function","function":{"name":"bash","arguments":"{\"command\":\"ls\"}"}}]}"#,
        r#"{"role":"tool","tool_call_id":"call_1","content":"a\nb\n"}"#,
    ]);
    let parser = parse(&raw, Some(0));
    assert_eq!(parser.summary().text, "hello");
    assert_eq!(parser.summary().reasoning, "why");
    assert_eq!(parser.summary().tool_calls.len(), 1);
    assert_eq!(parser.summary().tool_calls[0].name, "bash");
    assert_eq!(parser.summary().tool_calls[0].output, Some(text("a\nb\n")));
    assert!(parser.summary().tool_calls[0].ok);
    let listing = parse_json(r#"{ "command": "ls" }"#).unwrap();
    assert!(parser.events().iter().any(|e| matches!(
        e,
        AgentStateEvent::ToolStarted { id, name, input }
            if id == "call_1" && name == "bash" && *input == listing
    )));
    assert!(parser.events().iter().any(|e| matches!(
        e,
        AgentStateEvent::ToolFinished { id, name, ok: true, .. }
            if id == "call_1" && name == "bash"
    )));
}

#[test]
fn missing_session_id_degrades_gracefully() {
    let raw = rows(&[
        r#"{"role":"assistant","content":"hello"}"#,
        r#"{"type":"result","is_error":false,"result":"hello"}"#,
    ]);
    let parser = parse(&raw, Some(0));
    assert!(parser.summary().session_id.is_none());
    assert_eq!(parser.summary().text, "hello");
    assert_eq!(parser.summary().outcome, Some(IdleOutcome::Succeeded));
}

#[test]
fn noise_and_partial_lines_are_tolerated() {
    let noisy = format!(
        "warning: something happened\n\n{{ not json\n{{\"hello\":\"world\"}}\n{}",
        grounded()
    );
    let noisy = parse(&noisy, Some(0));
    let clean = parse(&grounded(), Some(0));
    assert_eq!(noisy.events(), clean.events());
    assert_eq!(noisy.summary(), clean.summary());
}

#[test]
fn stream_partial_line_split_across_chunks_is_reassembled() {
    let grounded = grounded();
    let bytes = grounded.as_bytes();
    let clean = parse(&grounded, Some(0));
    for split in [bytes.len() / 2, 1, bytes.len() - 1] {
        let mut parser = VibeStreamParser::new();
        parser.push(&bytes[..split]);
        parser.push(&bytes[split..]);
        parser.finish(Some(0), &None);
        assert_eq!(parser.events(), clean.events());
        assert_eq!(parser.summary(), clean.summary());
    }
}

#[test]
fn truncated_stream_is_interrupted() {
    // Only reasoning arrived: no assistant text, tool, or `result` proves the
    // turn completed, so the truncated observation is not a clean success.
    let raw = rows(&[
        r#"{"id":"a","sessionId":"s","turnId":"t","type":"reasoning","text":"thinking…"}"#,
    ]);
    let parser = parse(&raw, Some(0));
    assert_eq!(parser.summary().reasoning, "thinking…");
    assert_eq!(parser.summary().outcome, Some(IdleOutcome::Interrupted));
    assert_eq!(
        parser.events().last(),
        Some(&AgentStateEvent::Idle { outcome: IdleOutcome::Interrupted })
    );
}

#[test]
fn stream_plain_text_leaves_outcome_unset() {
    let parser = parse("plain output\nmore text\n", Some(0));
    assert!(parser.summary().outcome.is_none());
    assert!(parser.events().is_empty());
}

#[test]
fn stream_error_row_sets_failed_outcome() {
    let raw = rows(&[
        r#"{"id":"a","sessionId":"s","turnId":"t","type":"message","role":"assistant","content":[{"type":"text","text":"partial"}]}"#,
        r#"{"type":"error","error":{"message":"rate limited"}}"#,
    ]);
    let parser = parse(&raw, Some(0));
    assert_eq!(parser.summary().error.as_deref(), Some("rate limited"));
    assert_eq!(parser.summary().outcome, Some(IdleOutcome::Failed));
}

#[test]
fn stream_finish_is_idempotent() {
    let mut parser = VibeStreamParser::new();
    parser.push(grounded().as_bytes());
    parser.finish(Some(0), &None);
    parser.finish(Some(1), &None);
    let idles = parser
        .events()
        .iter()
        .filter(|e| matches!(e, AgentStateEvent::Idle { .. }))
        .count();
    assert_eq!(idles, 1);
    assert_eq!(parser.summary().outcome, Some(IdleOutcome::Succeeded));
}

#[test]
fn finish_backfills_the_session_from_the_index() {
    let store = SessionStore {
        index: Some(
            br#"{
                "session_20260924_100005_abcd": {
                    "session_id": "ses_index",
                    "cwd": "/home/me/proj",
                    "start_time": "2026-09-24T10:00:05+00:00",
                    "mtime_ns": 1,
                    "title": "From the index"
                }
            }"#
            .to_vec(),
        ),
        indexed: Vec::new(),
        listed: Vec::new(),
    };
    // 2026-09-24T10:00:00+00:00.
    let since = Moment { seconds: 1_790_244_000, nanos: 0 };

    // No `sessionId` on the rows: only the index can supply it.
    let mut parser = VibeStreamParser::new();
    parser.with_index("/home/me/proj".to_string(), since);
    parser.push(
        br#"{"id":"a","turnId":"t","type":"message","role":"assistant","content":[{"type":"text","text":"hi"}]}"#,
    );
    parser.push(b"\n");
    parser.finish(Some(0), &Some(store));

    assert_eq!(parser.summary().session_id.as_deref(), Some("ses_index"));
    assert_eq!(parser.summary().title.as_deref(), Some("From the index"));
    assert!(parser.events().iter().any(|e| matches!(
        e,
        AgentStateEvent::Session { session_id: Some(id), title: Some(title), .. }
            if id == "ses_index" && title == "From the index"
    )));
}

#[test]
fn stream_stdout_parser_trait_round_trips() {
    let mut parser = VibeStreamParser::new();
    parser.push(grounded().as_bytes());
    parser.finish(Some(0), &None);
    let summary = parser.summary();
    assert_eq!(summary.outcome, Some(IdleOutcome::Succeeded));
    assert!(!summary.text.is_empty());
}

fn launch(headless: bool, args: &[&str]) -> StateSourceConfig {
    StateSourceConfig {
        headless,
        args: args.iter().map(|arg| arg.to_string()).collect(),
        ..Default::default()
    }
}

#[test]
fn state_source_requires_headless_streaming() {
    assert!(state_source(&launch(true, &["-p", "--output", "streaming"])).is_some());
    assert!(state_source(&launch(false, &["-p", "--output", "streaming"])).is_none());
    assert!(state_source(&launch(true, &["-p", "--auto-approve"])).is_none());
}

#[test]
fn source_start_feeds_events_from_stdout() {
    let source = VibeStreamSource { cwd: None };
    let mut stdout = source.start(true, Moment { seconds: 0, nanos: 0 });
    assert_eq!(source.label(), "vibe-streaming");
    stdout.push(grounded().as_bytes());
    stdout.finish(Some(0), &None);
    assert_eq!(stdout.events().first(), Some(&AgentStateEvent::TurnStarted));
    assert!(!no_permission_channel().is_empty());
}
