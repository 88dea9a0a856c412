use favetto::agents::pi::file_tail::{
    locate, map_entry, map_line, map_message, unsupported_reply, PiSessionFileSource, SessionTail,
    TailError,
};
use favetto::agents::pi::session_file::{SessionFile, MAX_LINES};
use favetto::agents::product::command_name;
use favetto::json::{parse, Json};
use favetto::model::{AgentStateEvent, AgentUsage, Cost, MessageRole, Moment};

const ASSISTANT: &str = r#"{"type":"message","id":"m1","parentId":null,"timestamp":"2024-12-03T14:00:02.000Z","message":{"role":"assistant","content":[{"type":"thinking","thinking":"hmm"},{"type":"text","text":"Hello"},{"type":"toolCall","id":"call_1","name":"bash","arguments":{"command":"ls"}}],"usage":{"input":100,"output":20,"cacheRead":10,"cacheWrite":5,"reasoning":7,"totalTokens":135,"cost":{"input":0,"output":0,"cacheRead":0,"cacheWrite":0,"total":0.02}},"stopReason":"toolUse","timestamp":1733234402000}}"#;

fn json(text: &str) -> Json {
    parse(text).unwrap()
}

fn cost(amount: f64) -> Option<Cost> {
    Some(Cost::Reported(amount.to_bits()))
}

fn says(text: &str) -> AgentStateEvent {
    AgentStateEvent::TextDelta { role: MessageRole::Assistant, text: text.to_string() }
}

fn titled(title: &str) -> AgentStateEvent {
    AgentStateEvent::Title { title: title.to_string() }
}

/// What one poll tells of a file with these contents.
fn poll(tail: &mut SessionTail, contents: &str) -> Vec<AgentStateEvent> {
    let rest = contents.as_bytes()[tail.offset as usize..].to_vec();
    tail.poll(&rest)
}

#[test]
fn session_tail_maps_entries_and_only_new_lines() {
    let model = format!("{}-sonnet-4", command_name());
    let entries = [
        r#"{"type":"session","version":3,"id":"ses_1","cwd":"/home/me/proj"}"#,
        r#"{"type":"session_info","id":"a","name":"Fix it"}"#,
        r#"{"type":"model_change","id":"b","provider":"anthropic","modelId":"PRODUCT-sonnet-4"}"#,
        ASSISTANT,
        r#"{"type":"message","id":"m2","parentId":"m1","timestamp":"t","message":{"role":"toolResult","toolCallId":"call_1","toolName":"bash","content":[{"type":"text","text":"ok"}],"isError":false,"timestamp":1}}"#,
        r#"{"type":"usage","id":"u1","kind":"cache_warm","usage":{"input":1,"output":0,"cacheRead":50000,"cacheWrite":0,"totalTokens":50001,"cost":{"input":0,"output":0,"cacheRead":0.015,"cacheWrite":0,"total":0.015}}}"#,
        r#"{"type":"compaction","id":"c1","summary":"...","usage":{"input":2,"output":3,"cacheRead":0,"cacheWrite":0,"totalTokens":5,"cost":{"total":0.05}}}"#,
    ];
    let mut contents = (entries.join("\n") + "\n").replace("PRODUCT", &command_name());

    let mut tail = SessionTail::open("111_ses.jsonl".to_string(), 0, false);
    assert_eq!(
        poll(&mut tail, &contents),
        vec![
            AgentStateEvent::Session {
                session_id: Some("ses_1".to_string()),
                title: None,
                model: None,
            },
            titled("Fix it"),
            AgentStateEvent::Session { session_id: None, title: None, model: Some(model) },
            AgentStateEvent::ReasoningDelta { text: "hmm".to_string() },
            says("Hello"),
            AgentStateEvent::ToolStarted {
                id: "call_1".to_string(),
                name: "bash".to_string(),
                input: json(r#"{ "command": "ls" }"#),
            },
            AgentStateEvent::Usage {
                usage: AgentUsage {
                    input_tokens: 100,
                    output_tokens: 20,
                    reasoning_tokens: 7,
                    cache_read_tokens: 10,
                    cache_write_tokens: 5,
                    cost_usd: cost(0.02),
                },
            },
            AgentStateEvent::ToolFinished {
                id: "call_1".to_string(),
                name: "bash".to_string(),
                ok: true,
                output: Some(json(r#"[{ "type": "text", "text": "ok" }]"#)),
            },
            AgentStateEvent::Usage {
                usage: AgentUsage {
                    input_tokens: 1,
                    cache_read_tokens: 50000,
                    cost_usd: cost(0.015),
                    ..Default::default()
                },
            },
            AgentStateEvent::Usage {
                usage: AgentUsage {
                    input_tokens: 2,
                    output_tokens: 3,
                    cost_usd: cost(0.05),
                    ..Default::default()
                },
            },
        ]
    );

    // An append maps only the new line.
    contents.push_str(
        r#"{"type":"message","id":"m3","parentId":"m2","timestamp":"t","message":{"role":"assistant","content":[{"type":"text","text":"done"}],"usage":{"input":1,"output":1,"cacheRead":0,"cacheWrite":0,"totalTokens":2,"cost":{"total":0.001}},"stopReason":"stop","timestamp":2}}"#,
    );
    contents.push('\n');
    assert_eq!(
        poll(&mut tail, &contents),
        vec![
            says("done"),
            AgentStateEvent::Usage {
                usage: AgentUsage {
                    input_tokens: 1,
                    output_tokens: 1,
                    cost_usd: cost(0.001),
                    ..Default::default()
                },
            },
        ]
    );
    assert!(poll(&mut tail, &contents).is_empty());
}

#[test]
fn user_message_marks_the_turn_started() {
    let line = r#"{"type":"message","id":"u","message":{"role":"user","content":"hi"}}"#;
    let mut events = Vec::new();
    map_line(line.as_bytes(), &mut events);
    assert_eq!(events, vec![AgentStateEvent::TurnStarted]);

    let mut events = Vec::new();
    map_entry(&json(line), &mut events);
    assert_eq!(events, vec![AgentStateEvent::TurnStarted]);

    let mut events = Vec::new();
    map_message(&json(line), &mut events);
    assert_eq!(events, vec![AgentStateEvent::TurnStarted]);
}

#[test]
fn session_tail_bounds_lines_per_poll() {
    let entry = r#"{"type":"session_info","id":"n","name":"x"}"#;
    let contents = format!("{entry}\n").repeat(MAX_LINES + 3);
    let mut tail = SessionTail::open("111_ses.jsonl".to_string(), 0, false);
    // One poll maps at most MAX_LINES entries; the remainder is buffered.
    assert_eq!(poll(&mut tail, &contents).len(), MAX_LINES);
    assert_eq!(poll(&mut tail, &contents).len(), 3);
}

#[test]
fn session_tail_skips_history_when_resuming() {
    let mut contents = ASSISTANT.to_string();
    let mut tail = SessionTail::open("111_ses.jsonl".to_string(), contents.len() as u64, true);
    assert!(poll(&mut tail, &contents).is_empty(), "existing history is not replayed");

    contents.push_str(r#"{"type":"session_info","id":"n","name":"Live"}"#);
    contents.push('\n');
    assert_eq!(poll(&mut tail, &contents), vec![titled("Live")]);
}

#[test]
fn source_discovers_and_tails_a_new_session_file() {
    let source = PiSessionFileSource::with_root("/sessions".to_string());
    let cwd = Some("/home/me/proj".to_string());
    assert_eq!(
        source.start(&cwd, &None),
        Ok(("/home/me/proj".to_string(), "/sessions".to_string()))
    );

    // Nothing yet; then a file that appeared after the start.
    let baseline = Moment { seconds: 1000, nanos: 0 };
    assert!(locate(&None, &Vec::new(), baseline).is_none());
    let listed = vec![SessionFile {
        name: "111_ses.jsonl".to_string(),
        path: "/sessions/111_ses.jsonl".to_string(),
        modified: Some(Moment { seconds: 1001, nanos: 0 }),
    }];
    let (path, skip_history) = locate(&None, &listed, baseline).unwrap();
    assert_eq!(path, "/sessions/111_ses.jsonl");
    assert!(!skip_history);

    let contents = [
        r#"{"type":"session","version":3,"id":"ses_live","cwd":"/home/me/proj"}"#,
        "\n",
        r#"{"type":"session_info","id":"n","name":"Wired"}"#,
        "\n",
    ]
    .join("");
    let mut tail = SessionTail::open(path, contents.len() as u64, skip_history);
    let events = poll(&mut tail, &contents);
    assert!(matches!(
        &events[0],
        AgentStateEvent::Session { session_id, .. } if session_id.as_deref() == Some("ses_live")
    ));
    assert_eq!(events[1], titled("Wired"));
}

#[test]
fn a_known_session_is_resumed() {
    let listed = vec![SessionFile {
        name: "111_ses_a.jsonl".to_string(),
        path: "/sessions/111_ses_a.jsonl".to_string(),
        modified: Some(Moment { seconds: 1, nanos: 0 }),
    }];
    let baseline = Moment { seconds: 1000, nanos: 0 };
    assert_eq!(
        locate(&Some("ses_a".to_string()), &listed, baseline),
        Some(("/sessions/111_ses_a.jsonl".to_string(), true))
    );
    // Without its id, a file that is older than the start is not taken up.
    assert!(locate(&None, &listed, baseline).is_none());
}

#[test]
fn a_tail_needs_a_place_to_look() {
    let source = PiSessionFileSource::new();
    assert_eq!(source.start(&None, &Some("/s".to_string())), Err(TailError::NoWorkingDirectory));
    assert_eq!(source.start(&Some("/w".to_string()), &None), Err(TailError::NoSessionRoot));
    assert_ne!(TailError::NoWorkingDirectory.message(), TailError::NoSessionRoot.message());
    assert_eq!(unsupported_reply(), "pi session-file transport cannot answer dialogs");
    assert!(!source.label().is_empty());
}
