use favetto::agents::agent::SessionIdProbe;
use favetto::agents::opencode::json::OpenCodeJsonlParser;
use favetto::json::{parse as parse_json, Json};
use favetto::model::{AgentStateEvent, AgentUsage, Cost, IdleOutcome, MessageRole};

fn parser() -> OpenCodeJsonlParser {
    OpenCodeJsonlParser::new(Some(SessionIdProbe::JsonKey("sessionID".to_string())))
}

fn parse(raw: &str, exit_code: Option<i32>) -> OpenCodeJsonlParser {
    let mut parser = parser();
    parser.push(raw.as_bytes());
    parser.finish(exit_code);
    parser
}

/// One line per row, each ended.
fn rows(rows: &[&str]) -> String {
    rows.iter().map(|row| format!("{row}\n")).collect()
}

const HAPPY: [&str; 4] = [
    r#"{"type":"step_start","timestamp":1,"sessionID":"ses_happy","part":{"type":"step-start"}}"#,
    r#"{"type":"text","timestamp":2,"sessionID":"ses_happy","part":{"type":"text","text":"hello"}}"#,
    r#"{"type":"tool_use","timestamp":3,"sessionID":"ses_happy","part":{"callID":"call_1","tool":"bash","state":{"status":"completed","input":{"command":"echo hi"},"output":"hi\n"}}}"#,
    r#"{"type":"step_finish","timestamp":4,"sessionID":"ses_happy","part":{"type":"step-finish","reason":"stop","cost":0.01,"tokens":{"input":10,"output":5,"reasoning":2,"cache":{"read":3,"write":1}}}}"#,
];

fn session(id: &str) -> AgentStateEvent {
    AgentStateEvent::Session { session_id: Some(id.to_string()), title: None, model: None }
}

fn says(text: &str) -> AgentStateEvent {
    AgentStateEvent::TextDelta { role: MessageRole::Assistant, text: text.to_string() }
}

fn cost(amount: f64) -> Option<Cost> {
    Some(Cost::Reported(amount.to_bits()))
}

#[test]
fn json_happy_path_emits_events_and_summary() {
    let parser = parse(&rows(&HAPPY), Some(0));
    assert_eq!(
        parser.events(),
        &[
            session("ses_happy"),
            AgentStateEvent::TurnStarted,
            says("hello"),
            AgentStateEvent::ToolStarted {
                id: "call_1".to_string(),
                name: "bash".to_string(),
                input: parse_json(r#"{ "command": "echo hi" }"#).unwrap(),
            },
            AgentStateEvent::ToolFinished {
                id: "call_1".to_string(),
                name: "bash".to_string(),
                ok: true,
                output: Some(Json::Str("hi\n".to_string())),
            },
            AgentStateEvent::Usage {
                usage: AgentUsage {
                    input_tokens: 10,
                    output_tokens: 5,
                    reasoning_tokens: 2,
                    cache_read_tokens: 3,
                    cache_write_tokens: 1,
                    cost_usd: cost(0.01),
                },
            },
            AgentStateEvent::Idle { outcome: IdleOutcome::Succeeded },
        ]
    );

    let summary = parser.summary();
    assert_eq!(summary.session_id.as_deref(), Some("ses_happy"));
    assert_eq!(summary.text, "hello");
    assert_eq!(summary.reasoning, "");
    assert_eq!(summary.outcome, Some(IdleOutcome::Succeeded));
    assert!(summary.error.is_none());
    assert_eq!(summary.tool_calls.len(), 1);
    assert_eq!(summary.tool_calls[0].name, "bash");
    assert!(summary.tool_calls[0].ok);
    assert_eq!(summary.usage.input_tokens, 10);
    assert_eq!(summary.usage.cost_usd, cost(0.01));
}

#[test]
fn json_noise_lines_are_ignored() {
    // Warnings, blank lines, a partial JSON write and an unrelated object
    // are interleaved with the real events; the result is unchanged.
    let happy = rows(&HAPPY);
    let noisy = format!(
        "warning: something happened\n\n{}\n{{ not json\n{{\"hello\":\"world\"}}\n{}",
        happy.lines().next().unwrap(),
        happy.lines().skip(1).collect::<Vec<_>>().join("\n")
    );
    let noisy = parse(&noisy, Some(0));
    let clean = parse(&happy, Some(0));
    assert_eq!(noisy.events(), clean.events());
    assert_eq!(noisy.summary(), clean.summary());
}

#[test]
fn json_truncated_stream_is_interrupted_not_succeeded() {
    // opencode's known truncation bug: `step_start` but no final
    // `step_finish`, even though the process exits 0.
    let raw = rows(&[
        r#"{"type":"step_start","timestamp":1,"sessionID":"ses_t","part":{"type":"step-start"}}"#,
        r#"{"type":"text","timestamp":2,"sessionID":"ses_t","part":{"type":"text","text":"partial"}}"#,
    ]);
    let parser = parse(&raw, Some(0));
    assert_eq!(
        parser.events(),
        &[
            session("ses_t"),
            AgentStateEvent::TurnStarted,
            says("partial"),
            AgentStateEvent::Idle { outcome: IdleOutcome::Interrupted },
        ]
    );
    let summary = parser.summary();
    assert_eq!(summary.outcome, Some(IdleOutcome::Interrupted));
    assert!(summary.error.is_none());
    assert_eq!(summary.text, "partial");
}

#[test]
fn json_error_row_sets_failed_outcome() {
    let raw = rows(&[
        r#"{"type":"step_start","timestamp":1,"sessionID":"ses_e","part":{"type":"step-start"}}"#,
        r#"{"type":"error","timestamp":2,"sessionID":"ses_e","error":{"name":"APIError","data":{"message":"Rate limit exceeded"}}}"#,
    ]);
    let parser = parse(&raw, Some(1));
    assert_eq!(
        parser.events(),
        &[
            session("ses_e"),
            AgentStateEvent::TurnStarted,
            AgentStateEvent::Error { message: "Rate limit exceeded".to_string() },
            AgentStateEvent::Idle { outcome: IdleOutcome::Failed },
        ]
    );
    let summary = parser.summary();
    assert_eq!(summary.outcome, Some(IdleOutcome::Failed));
    assert_eq!(summary.error.as_deref(), Some("Rate limit exceeded"));
}

#[test]
fn unsuccessful_tool_is_recorded() {
    let raw = r#"{"type":"tool_use","sessionID":"ses_x","part":{"callID":"c2","tool":"bash","state":{"status":"error","input":{"command":"false"},"error":"exit 1"}}}"#;
    let parser = parse(raw, Some(0));
    let summary = parser.summary();
    assert_eq!(summary.tool_calls.len(), 1);
    assert!(!summary.tool_calls[0].ok);
    assert_eq!(summary.tool_calls[0].output, Some(Json::Str("exit 1".to_string())));
    // Without a final step the run is still an interrupted observation.
    assert_eq!(summary.outcome, Some(IdleOutcome::Interrupted));
}

#[test]
fn json_plain_text_output_leaves_outcome_unset() {
    // No structured rows at all: the exit code decides, no outcome is invented.
    let parser = parse("plain output\nmore text\n", Some(0));
    let summary = parser.summary();
    assert!(summary.outcome.is_none());
    assert!(summary.text.is_empty());
    assert!(parser.events().is_empty());
}

#[test]
fn json_partial_line_split_across_chunks_is_reassembled() {
    let happy = rows(&HAPPY);
    let bytes = happy.as_bytes();
    let clean = parse(&happy, Some(0));
    for split in [bytes.len() / 2, 1, bytes.len() - 1] {
        let mut parser = parser();
        parser.push(&bytes[..split]);
        parser.push(&bytes[split..]);
        parser.finish(Some(0));
        assert_eq!(parser.events(), clean.events());
        assert_eq!(parser.summary(), clean.summary());
    }
}

#[test]
fn session_id_is_announced_once() {
    let parser = parse(&rows(&HAPPY), Some(0));
    let sessions = parser
        .events()
        .iter()
        .filter(|e| matches!(e, AgentStateEvent::Session { .. }))
        .count();
    assert_eq!(sessions, 1);
}

#[test]
fn json_finish_is_idempotent() {
    let mut parser = parser();
    parser.push(rows(&HAPPY).as_bytes());
    parser.finish(Some(0));
    parser.finish(Some(1));
    let idles = parser
        .events()
        .iter()
        .filter(|e| matches!(e, AgentStateEvent::Idle { .. }))
        .count();
    assert_eq!(idles, 1);
    assert_eq!(parser.summary().outcome, Some(IdleOutcome::Succeeded));
}

#[test]
fn costs_of_several_steps_add_up() {
    let step = |amount: &str| {
        format!(
            "{{\"type\":\"step_finish\",\"sessionID\":\"s\",\"part\":{{\"reason\":\"tool-calls\",\"cost\":{amount},\"tokens\":{{\"input\":1}}}}}}"
        )
    };
    let raw = format!("{}\n{}\n", step("0.5"), step("0.25"));
    let parser = parse(&raw, Some(0));
    assert_eq!(parser.summary().usage.input_tokens, 2);
    assert_eq!(
        parser.summary().usage.cost_usd,
        Some(Cost::Sum(
            Box::new(Cost::Reported(0.5f64.to_bits())),
            Box::new(Cost::Reported(0.25f64.to_bits())),
        ))
    );
}
