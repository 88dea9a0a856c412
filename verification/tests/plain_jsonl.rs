use favetto::agents::agent::SessionIdProbe;
use favetto::agents::plain_jsonl::{is_tool_kind, PlainJsonlParser};
use favetto::json::{parse as parse_json, Json};
use favetto::model::{AgentStateEvent, IdleOutcome, MessageRole};

fn parser() -> PlainJsonlParser {
    PlainJsonlParser::new(Some(SessionIdProbe::JsonKey("session_id".to_string())))
}

fn parse(raw: &str, exit_code: Option<i32>) -> PlainJsonlParser {
    let mut parser = parser();
    parser.push(raw.as_bytes());
    parser.finish(exit_code);
    parser
}

fn json(text: &str) -> Json {
    parse_json(text).unwrap()
}

fn says(text: &str) -> AgentStateEvent {
    AgentStateEvent::TextDelta { role: MessageRole::Assistant, text: text.to_string() }
}

#[test]
fn text_content_and_session_id_are_captured() {
    let raw = [
        r#"{"session_id":"ses_1","type":"message","role":"assistant","text":"hello"}"#,
        "\n",
        r#"{"content":" world"}"#,
        "\n",
        "not json\n",
    ]
    .join("");
    let parser = parse(&raw, Some(0));
    let summary = parser.summary();
    assert_eq!(summary.session_id.as_deref(), Some("ses_1"));
    assert_eq!(summary.text, "hello world");
    assert_eq!(summary.outcome, Some(IdleOutcome::Succeeded));
    assert_eq!(
        parser.events(),
        &[
            AgentStateEvent::Session {
                session_id: Some("ses_1".to_string()),
                title: None,
                model: None,
            },
            says("hello"),
            says(" world"),
            AgentStateEvent::Idle { outcome: IdleOutcome::Succeeded },
        ]
    );
}

#[test]
fn tool_use_rows_become_tool_calls_and_events() {
    let raw =
        r#"{"type":"tool_use","id":"c1","name":"bash","input":{"command":"ls"},"output":"ok"}"#;
    let parser = parse(raw, Some(0));
    let summary = parser.summary();
    assert_eq!(summary.tool_calls.len(), 1);
    let call = &summary.tool_calls[0];
    assert_eq!(call.id, "c1");
    assert_eq!(call.name, "bash");
    assert_eq!(call.input, json(r#"{"command": "ls"}"#));
    assert!(call.ok);
    assert_eq!(call.output, Some(Json::Str("ok".to_string())));
    assert_eq!(
        parser.events(),
        &[
            AgentStateEvent::ToolStarted {
                id: "c1".to_string(),
                name: "bash".to_string(),
                input: json(r#"{"command": "ls"}"#),
            },
            AgentStateEvent::ToolFinished {
                id: "c1".to_string(),
                name: "bash".to_string(),
                ok: true,
                output: Some(Json::Str("ok".to_string())),
            },
            AgentStateEvent::Idle { outcome: IdleOutcome::Succeeded },
        ]
    );
}

#[test]
fn unknown_rows_are_preserved_as_opaque_tool_calls() {
    let raw = [r#"{"type":"progress","step":2}"#, "\n", r#"{"foo":"bar"}"#, "\n"].join("");
    let parser = parse(&raw, Some(0));
    let summary = parser.summary();
    assert_eq!(summary.tool_calls.len(), 2);
    assert_eq!(summary.tool_calls[0].name, "progress");
    assert_eq!(summary.tool_calls[0].input, json(r#"{"type": "progress", "step": 2}"#));
    assert!(!summary.tool_calls[0].ok);
    assert_eq!(summary.tool_calls[1].name, "opaque");
}

#[test]
fn error_rows_and_failed_exit_set_failed_outcome() {
    let parser = parse(r#"{"type":"error","message":"boom"}"#, Some(1));
    let summary = parser.summary();
    assert_eq!(summary.error.as_deref(), Some("boom"));
    assert_eq!(summary.outcome, Some(IdleOutcome::Failed));

    // A clean stream with a non-zero exit is still a failure.
    let parser = parse(r#"{"text":"partial"}"#, Some(2));
    assert_eq!(parser.summary().outcome, Some(IdleOutcome::Failed));
}

#[test]
fn empty_or_unstructured_stream_has_no_outcome() {
    let parser = parse("only noise\n", Some(0));
    let summary = parser.summary();
    assert!(summary.outcome.is_none());
    assert!(summary.text.is_empty());
    assert!(summary.tool_calls.is_empty());
}

#[test]
fn parser_implements_stdout_parser() {
    let mut parser = PlainJsonlParser::new(None);
    parser.push(b"{\"text\":\"hi\"}\n");
    parser.finish(Some(0));
    let summary = parser.summary();
    assert_eq!(summary.text, "hi");
    assert_eq!(summary.outcome, Some(IdleOutcome::Succeeded));
}

#[test]
fn tools_are_told_by_their_kind() {
    assert!(is_tool_kind("tool_use"));
    assert!(!is_tool_kind("message"));
}

#[test]
fn chunks_of_one_byte_read_alike() {
    let raw = b"{\"text\":\"a\"}\n{\"text\":\"b\"}\n";
    let mut whole = parser();
    whole.push(raw);
    let mut bytes = parser();
    for byte in raw {
        bytes.push(&[*byte]);
    }
    assert_eq!(whole.events(), bytes.events());
    assert_eq!(whole.summary(), bytes.summary());
}

#[test]
fn a_row_with_an_empty_text_is_kept() {
    let rows = [
        r#"{"text":""}"#,
        r#"{"type":"message","id":"m1","content":""}"#,
        r#"{"text":"","content":"behind"}"#,
        "{}",
    ];
    let parser = parse(&rows.join("\n"), Some(0));
    let summary = parser.summary();
    assert_eq!(summary.text, "");
    assert_eq!(summary.tool_calls.len(), rows.len());
    for (call, row) in summary.tool_calls.iter().zip(rows) {
        assert_eq!(call.input, json(row));
        assert!(!call.ok);
        assert_eq!(call.output, None);
    }
    assert_eq!(summary.tool_calls[0].name, "opaque");
    assert_eq!(summary.tool_calls[1].name, "message");
    assert_eq!(summary.tool_calls[1].id, "m1");
    assert_eq!(
        parser.events(),
        &[AgentStateEvent::Idle { outcome: IdleOutcome::Succeeded }]
    );
}

#[test]
fn no_row_is_dropped_whatever_its_kind() {
    for row in [
        r#"{"text":"hi"}"#,
        r#"{"text":""}"#,
        r#"{"text":7}"#,
        r#"{"type":"error"}"#,
        r#"{"type":"tool"}"#,
        r#"{"type":"progress"}"#,
        r#"{"session_id":"s"}"#,
    ] {
        let mut parser = parser();
        parser.process_value(&json(row));
        assert!(parser.events().len() + parser.summary().tool_calls.len() > 0, "{row}");
    }
}
