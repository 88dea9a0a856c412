use favetto::agents::claude::stream_json::ClaudeStreamJsonParser;
use favetto::agents::product::command_name;
use favetto::json::{parse as parse_json, Json};
use favetto::model::{AgentStateEvent, AgentUsage, Cost, IdleOutcome, MessageRole};

fn parse(raw: &str, exit_code: Option<i32>) -> ClaudeStreamJsonParser {
    let mut parser = ClaudeStreamJsonParser::new();
    parser.push(raw.as_bytes());
    parser.finish(exit_code);
    parser
}

/// One line per row, each ended.
fn rows(rows: &[&str]) -> String {
    rows.iter()
        .map(|row| format!("{}\n", row.replace("PRODUCT", &command_name())))
        .collect()
}

const HAPPY: [&str; 5] = [
    r#"{"type":"system","subtype":"init","session_id":"ses_1","model":"PRODUCT-sonnet","capabilities":["x"]}"#,
    r#"{"type":"assistant","session_id":"ses_1","message":{"id":"m1","role":"assistant","content":[{"type":"text","text":"Hello"}]}}"#,
    r#"{"type":"assistant","session_id":"ses_1","message":{"content":[{"type":"tool_use","id":"tu_1","name":"Bash","input":{"command":"ls"}}]}}"#,
    r#"{"type":"user","session_id":"ses_1","message":{"content":[{"type":"tool_result","tool_use_id":"tu_1","content":"a\nb\n","is_error":false}]}}"#,
    r#"{"type":"result","subtype":"success","is_error":false,"result":"Done","session_id":"ses_1","total_cost_usd":0.02,"duration_ms":1234,"num_turns":2,"usage":{"input_tokens":10,"output_tokens":5,"cache_read_input_tokens":3,"cache_creation_input_tokens":1}}"#,
];

fn happy() -> String {
    rows(&HAPPY)
}

fn cost(amount: f64) -> Option<Cost> {
    Some(Cost::Reported(amount.to_bits()))
}

#[test]
fn stream_json_happy_path_emits_events_and_summary() {
    let parser = parse(&happy(), Some(0));
    assert_eq!(
        parser.events(),
        &[
            AgentStateEvent::Session {
                session_id: Some("ses_1".to_string()),
                title: None,
                model: Some(format!("{}-sonnet", command_name())),
            },
            AgentStateEvent::TurnStarted,
            AgentStateEvent::TextDelta {
                role: MessageRole::Assistant,
                text: "Hello".to_string(),
            },
            AgentStateEvent::ToolStarted {
                id: "tu_1".to_string(),
                name: "Bash".to_string(),
                input: parse_json(r#"{ "command": "ls" }"#).unwrap(),
            },
            AgentStateEvent::ToolFinished {
                id: "tu_1".to_string(),
                name: "Bash".to_string(),
                ok: true,
                output: Some(Json::Str("a\nb\n".to_string())),
            },
            AgentStateEvent::Usage {
                usage: AgentUsage {
                    input_tokens: 10,
                    output_tokens: 5,
                    reasoning_tokens: 0,
                    cache_read_tokens: 3,
                    cache_write_tokens: 1,
                    cost_usd: cost(0.02),
                },
            },
            AgentStateEvent::Idle { outcome: IdleOutcome::Succeeded },
        ]
    );

    let summary = parser.summary();
    assert_eq!(summary.session_id.as_deref(), Some("ses_1"));
    assert_eq!(summary.text, "Done");
    assert_eq!(summary.outcome, Some(IdleOutcome::Succeeded));
    assert!(summary.error.is_none());
    assert_eq!(summary.tool_calls.len(), 1);
    assert_eq!(summary.tool_calls[0].name, "Bash");
    assert!(summary.tool_calls[0].ok);
    assert_eq!(summary.tool_calls[0].output, Some(Json::Str("a\nb\n".to_string())));
    assert_eq!(summary.usage.input_tokens, 10);
    assert_eq!(summary.usage.cache_read_tokens, 3);
    assert_eq!(summary.usage.cost_usd, cost(0.02));
}

#[test]
fn stream_json_noise_lines_are_ignored() {
    let happy = happy();
    let noisy = format!(
        "warning: something happened\n\n{}\n{{ not json\n{{\"hello\":\"world\"}}\n{}",
        happy.lines().next().unwrap(),
        happy.lines().skip(1).collect::<Vec<_>>().join("\n")
    );
    let noisy = parse(&noisy, Some(0));
    let clean = parse(&happy, Some(0));
    assert_eq!(noisy.events(), clean.events());
    assert_eq!(noisy.summary(), clean.summary());
}

#[test]
fn stream_json_partial_line_split_across_chunks_is_reassembled() {
    let happy = happy();
    let bytes = happy.as_bytes();
    let clean = parse(&happy, Some(0));
    for split in [bytes.len() / 2, 1, bytes.len() - 1] {
        let mut parser = ClaudeStreamJsonParser::new();
        parser.push(&bytes[..split]);
        parser.push(&bytes[split..]);
        parser.finish(Some(0));
        assert_eq!(parser.events(), clean.events());
        assert_eq!(parser.summary(), clean.summary());
    }
}

#[test]
fn stream_json_finish_is_idempotent() {
    let mut parser = ClaudeStreamJsonParser::new();
    parser.push(happy().as_bytes());
    parser.finish(Some(0));
    parser.finish(Some(1));
    let idles = parser
        .events()
        .iter()
        .filter(|e| matches!(e, AgentStateEvent::Idle { .. }))
        .count();
    assert_eq!(idles, 1);
    assert_eq!(parser.summary().outcome, Some(IdleOutcome::Succeeded));
}

#[test]
fn stream_json_plain_text_leaves_outcome_unset() {
    let parser = parse("plain output\nmore text\n", Some(0));
    assert!(parser.summary().outcome.is_none());
    assert!(parser.summary().text.is_empty());
    assert!(parser.events().is_empty());
}

#[test]
fn result_error_sets_failed_outcome() {
    let raw = rows(&[
        r#"{"type":"system","subtype":"init","session_id":"ses_e","model":"PRODUCT"}"#,
        r#"{"type":"result","subtype":"error_during_execution","is_error":true,"error":"Rate limited","session_id":"ses_e","usage":{"input_tokens":1}}"#,
    ]);
    let parser = parse(&raw, Some(1));
    assert_eq!(parser.summary().outcome, Some(IdleOutcome::Failed));
    assert_eq!(parser.summary().error.as_deref(), Some("Rate limited"));
    let last = parser.events().last().unwrap();
    assert_eq!(last, &AgentStateEvent::Idle { outcome: IdleOutcome::Failed });
}

#[test]
fn truncated_stream_without_result_is_interrupted() {
    let raw = rows(&[
        r#"{"type":"system","subtype":"init","session_id":"ses_t","model":"PRODUCT"}"#,
        r#"{"type":"assistant","session_id":"ses_t","message":{"content":[{"type":"text","text":"partial"}]}}"#,
    ]);
    let parser = parse(&raw, Some(0));
    assert_eq!(parser.summary().outcome, Some(IdleOutcome::Interrupted));
    assert_eq!(parser.summary().text, "partial");
    assert!(parser.summary().error.is_none());
}

#[test]
fn partial_messages_are_not_duplicated_by_assistant_blocks() {
    // With `--include-partial-messages`, the deltas arrive first and the
    // completed assistant block repeats them; the text must be counted once.
    let raw = rows(&[
        r#"{"type":"system","subtype":"init","session_id":"ses_p","model":"PRODUCT"}"#,
        r#"{"type":"stream_event","session_id":"ses_p","event":{"type":"message_start"}}"#,
        r#"{"type":"stream_event","session_id":"ses_p","event":{"type":"content_block_delta","delta":{"type":"text_delta","text":"Hi"}}}"#,
        r#"{"type":"assistant","session_id":"ses_p","message":{"content":[{"type":"text","text":"Hi there"}]}}"#,
        r#"{"type":"result","subtype":"success","is_error":false,"result":"Hi there","session_id":"ses_p"}"#,
    ]);
    let parser = parse(&raw, Some(0));
    let text: String = parser
        .events()
        .iter()
        .filter_map(|e| match e {
            AgentStateEvent::TextDelta { text, .. } => Some(text.as_str()),
            _ => None,
        })
        .collect();
    assert_eq!(text, "Hi", "the completed block must not be appended twice");
    assert_eq!(parser.summary().text, "Hi there", "the result wins");
    let starts = parser
        .events()
        .iter()
        .filter(|e| **e == AgentStateEvent::TurnStarted)
        .count();
    assert_eq!(starts, 1);
}

#[test]
fn api_retry_is_informational() {
    let raw = rows(&[
        r#"{"type":"system","subtype":"init","session_id":"ses_r","model":"PRODUCT"}"#,
        r#"{"type":"system","subtype":"api_retry","error":"overloaded","session_id":"ses_r"}"#,
        r#"{"type":"result","subtype":"success","is_error":false,"result":"ok","session_id":"ses_r"}"#,
    ]);
    let parser = parse(&raw, Some(0));
    assert_eq!(parser.summary().outcome, Some(IdleOutcome::Succeeded));
    assert!(parser.summary().error.is_none());
    assert!(parser
        .events()
        .iter()
        .any(|e| matches!(e, AgentStateEvent::Error { message } if message == "overloaded")));
}

#[test]
fn stream_json_stdout_parser_trait_round_trips() {
    let mut parser = ClaudeStreamJsonParser::new();
    parser.push(happy().as_bytes());
    parser.finish(Some(0));
    assert_eq!(parser.summary().outcome, Some(IdleOutcome::Succeeded));
}

#[test]
fn broken_text_is_replaced_not_lost() {
    // A byte that is no text stands as a replacement character.
    let mut raw = br#"{"type":"assistant","message":{"content":[{"type":"text","text":"a"#.to_vec();
    raw.push(0xff);
    raw.extend_from_slice(br#"b"}]}}"#);
    raw.push(b'\n');
    let mut parser = ClaudeStreamJsonParser::new();
    parser.push(&raw);
    assert_eq!(parser.summary().text, "a\u{fffd}b");
}
