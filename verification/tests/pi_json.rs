use favetto::agents::pi::json::{
    parse_usage, ui_message, usage_covers, usage_delta, PiJsonlParser, END_OF_TRANSMISSION,
};
use favetto::agents::product::command_name;
use favetto::json::{parse as parse_json, Json};
use favetto::model::{
    AgentStateEvent, AgentUsage, AwaitingInputKind, Cost, IdleOutcome, InputRequest, MessageRole,
};

/// The amount that a cost stands for.
fn amount(cost: &Cost) -> f64 {
    match cost {
        Cost::Reported(bits) => f64::from_bits(*bits),
        Cost::Sum(a, b) => amount(a) + amount(b),
        Cost::Excess(a, b) => {
            (amount(a) - b.as_ref().map(|b| amount(b)).unwrap_or(0.0)).max(0.0)
        }
    }
}

fn dollars(usage: &AgentUsage) -> Option<f64> {
    usage.cost_usd.as_ref().map(amount)
}

/// Answers whatever the parser asks about costs.
fn settle(parser: &mut PiJsonlParser) {
    while let Some((total, emitted)) = parser.question() {
        let total = total.as_ref().map(amount).unwrap_or(0.0);
        let emitted = emitted.as_ref().map(amount).unwrap_or(0.0);
        parser.answer(total >= emitted);
    }
}

fn feed(parser: &mut PiJsonlParser, raw: &[u8]) {
    parser.push(raw);
    settle(parser);
}

fn end(parser: &mut PiJsonlParser, exit_code: Option<i32>) {
    parser.finish(exit_code);
    settle(parser);
}

fn parse(raw: &str, exit_code: Option<i32>) -> PiJsonlParser {
    let mut parser = PiJsonlParser::new();
    feed(&mut parser, raw.as_bytes());
    end(&mut parser, exit_code);
    parser
}

/// One line per row, each ended.
fn rows(rows: &[&str]) -> String {
    rows.iter()
        .map(|row| format!("{}\n", row.replace("PRODUCT", &command_name())))
        .collect()
}

fn json(text: &str) -> Json {
    parse_json(text).unwrap()
}

fn cost(amount: f64) -> Option<Cost> {
    Some(Cost::Reported(amount.to_bits()))
}

const HAPPY: [&str; 10] = [
    r#"{"type":"response","command":"get_state","success":true,"data":{"sessionId":"ses_pi","sessionName":"Fix it","model":{"id":"PRODUCT-sonnet-4"}}}"#,
    r#"{"type":"agent_start"}"#,
    r#"{"type":"message_update","usage":{"input":100,"output":1,"cacheRead":0,"cacheWrite":0,"totalTokens":101,"cost":{"total":0.001}},"assistantMessageEvent":{"type":"thinking_delta","contentIndex":0,"delta":"hmm"}}"#,
    r#"{"type":"message_update","usage":{"input":100,"output":20,"cacheRead":10,"cacheWrite":5,"totalTokens":135,"cost":{"total":0.02}},"assistantMessageEvent":{"type":"text_delta","contentIndex":0,"delta":"hello"}}"#,
    r#"{"type":"tool_execution_start","toolCallId":"call_1","toolName":"bash","args":{"command":"echo hi"}}"#,
    r#"{"type":"tool_execution_update","toolCallId":"call_1","toolName":"bash","args":{"command":"echo hi"},"partialResult":{"content":"hi"}}"#,
    r#"{"type":"tool_execution_end","toolCallId":"call_1","toolName":"bash","result":{"content":"hi\n"},"isError":false}"#,
    r#"{"type":"turn_end","message":{},"toolResults":[]}"#,
    r#"{"type":"agent_settled"}"#,
    r#"{"type":"agent_end","messages":[],"willRetry":false}"#,
];

fn happy() -> String {
    rows(&HAPPY)
}

#[test]
fn rpc_happy_path_maps_session_text_tools_usage_and_idle() {
    let parser = parse(&happy(), Some(0));
    assert_eq!(
        parser.events(),
        &[
            AgentStateEvent::Session {
                session_id: Some("ses_pi".to_string()),
                title: Some("Fix it".to_string()),
                model: Some(format!("{}-sonnet-4", command_name())),
            },
            AgentStateEvent::TurnStarted,
            AgentStateEvent::ReasoningDelta { text: "hmm".to_string() },
            AgentStateEvent::TextDelta {
                role: MessageRole::Assistant,
                text: "hello".to_string(),
            },
            AgentStateEvent::ToolStarted {
                id: "call_1".to_string(),
                name: "bash".to_string(),
                input: json(r#"{ "command": "echo hi" }"#),
            },
            AgentStateEvent::ToolUpdated {
                id: "call_1".to_string(),
                partial: json(r#"{ "content": "hi" }"#),
            },
            AgentStateEvent::ToolFinished {
                id: "call_1".to_string(),
                name: "bash".to_string(),
                ok: true,
                output: Some(json(r#"{ "content": "hi\n" }"#)),
            },
            AgentStateEvent::Usage {
                usage: AgentUsage {
                    input_tokens: 100,
                    output_tokens: 20,
                    cache_read_tokens: 10,
                    cache_write_tokens: 5,
                    cost_usd: cost(0.02),
                    ..Default::default()
                },
            },
            AgentStateEvent::Idle { outcome: IdleOutcome::Succeeded },
        ]
    );

    let summary = parser.summary();
    assert_eq!(summary.session_id.as_deref(), Some("ses_pi"));
    assert_eq!(summary.title.as_deref(), Some("Fix it"));
    assert_eq!(summary.text, "hello");
    assert_eq!(summary.reasoning, "hmm");
    assert_eq!(summary.tool_calls.len(), 1);
    assert_eq!(summary.tool_calls[0].name, "bash");
    assert!(summary.tool_calls[0].ok);
    assert_eq!(summary.usage.input_tokens, 100);
    assert_eq!(summary.usage.output_tokens, 20);
    assert_eq!(summary.usage.cache_read_tokens, 10);
    assert_eq!(summary.usage.cache_write_tokens, 5);
    assert_eq!(dollars(&summary.usage), Some(0.02));
    assert_eq!(summary.outcome, Some(IdleOutcome::Succeeded));
    assert!(summary.error.is_none());
}

#[test]
fn json_mode_session_header_yields_session_id() {
    let raw = rows(&[
        r#"{"type":"session","version":3,"id":"ses_json","timestamp":"2024-12-03T14:00:00.000Z","cwd":"/p"}"#,
        r#"{"type":"agent_start"}"#,
        r#"{"type":"agent_settled"}"#,
    ]);
    let parser = parse(&raw, Some(0));
    assert_eq!(
        parser.events().first(),
        Some(&AgentStateEvent::Session {
            session_id: Some("ses_json".to_string()),
            title: None,
            model: None,
        })
    );
    assert_eq!(parser.summary().session_id.as_deref(), Some("ses_json"));
    assert_eq!(parser.summary().outcome, Some(IdleOutcome::Succeeded));
}

#[test]
fn extension_ui_request_maps_to_input_requested() {
    let raw = rows(&[
        r#"{"type":"extension_ui_request","id":"ui-1","method":"select","title":"Allow dangerous command?","options":["Allow once","Always allow","Block"],"timeout":10000}"#,
        r#"{"type":"extension_ui_request","id":"ui-2","method":"confirm","title":"Clear session?","message":"All messages will be lost."}"#,
        r#"{"type":"extension_ui_request","id":"ui-3","method":"input","title":"Enter a value","placeholder":"type..."}"#,
        r#"{"type":"extension_ui_request","id":"ui-4","method":"setTitle","title":"pi - proj"}"#,
        r#"{"type":"extension_ui_request","id":"ui-5","method":"notify","message":"blocked","notifyType":"warning"}"#,
    ]);
    let parser = parse(&raw, Some(0));
    assert_eq!(
        parser.events(),
        &[
            AgentStateEvent::InputRequested {
                request: InputRequest {
                    id: "ui-1".to_string(),
                    kind: AwaitingInputKind::Choice,
                    message: "Allow dangerous command?".to_string(),
                    options: vec![
                        "Allow once".to_string(),
                        "Always allow".to_string(),
                        "Block".to_string(),
                    ],
                    allow_always: true,
                },
            },
            AgentStateEvent::InputRequested {
                request: InputRequest {
                    id: "ui-2".to_string(),
                    kind: AwaitingInputKind::Confirmation,
                    message: "Clear session?".to_string(),
                    options: Vec::new(),
                    allow_always: false,
                },
            },
            AgentStateEvent::InputRequested {
                request: InputRequest {
                    id: "ui-3".to_string(),
                    kind: AwaitingInputKind::Other,
                    message: "Enter a value".to_string(),
                    options: Vec::new(),
                    allow_always: false,
                },
            },
            AgentStateEvent::Title { title: "pi - proj".to_string() },
            AgentStateEvent::Idle { outcome: IdleOutcome::Interrupted },
        ]
    );
}

#[test]
fn a_dialog_is_called_by_its_title_or_message() {
    assert_eq!(ui_message(&json(r#"{"title":"T","message":"M"}"#)), "T");
    assert_eq!(ui_message(&json(r#"{"message":"M"}"#)), "M");
}

#[test]
fn session_info_changed_emits_title() {
    let parser = parse(r#"{"type":"session_info_changed","name":"Refactor auth"}"#, Some(0));
    assert_eq!(
        parser.events(),
        &[
            AgentStateEvent::Title { title: "Refactor auth".to_string() },
            AgentStateEvent::Idle { outcome: IdleOutcome::Interrupted },
        ]
    );
    assert_eq!(parser.summary().title.as_deref(), Some("Refactor auth"));
}

#[test]
fn echoed_commands_and_noise_are_ignored() {
    let noisy = format!(
        "warning: something happened\n\n{{ not json\n{}\n{{\"hello\":\"world\"}}\n{}",
        r#"{"id":"favetto-0","type":"get_state"}"#,
        happy()
    );
    let noisy = parse(&noisy, Some(0));
    let clean = parse(&happy(), Some(0));
    assert_eq!(noisy.events(), clean.events());
    assert_eq!(noisy.summary(), clean.summary());
}

#[test]
fn truncated_stream_is_interrupted_not_succeeded() {
    let raw = rows(&[
        r#"{"type":"agent_start"}"#,
        r#"{"type":"message_update","assistantMessageEvent":{"type":"text_delta","delta":"partial"}}"#,
    ]);
    let parser = parse(&raw, Some(0));
    assert_eq!(
        parser.events().last(),
        Some(&AgentStateEvent::Idle { outcome: IdleOutcome::Interrupted })
    );
    assert_eq!(parser.summary().outcome, Some(IdleOutcome::Interrupted));
    assert_eq!(parser.summary().text, "partial");
}

#[test]
fn extension_error_sets_failed_outcome() {
    let raw = rows(&[
        r#"{"type":"agent_start"}"#,
        r#"{"type":"extension_error","extensionPath":"/x.ts","event":"tool_call","error":"boom"}"#,
        r#"{"type":"agent_settled"}"#,
    ]);
    let parser = parse(&raw, Some(1));
    assert_eq!(
        parser.events().last(),
        Some(&AgentStateEvent::Idle { outcome: IdleOutcome::Failed })
    );
    assert_eq!(parser.summary().outcome, Some(IdleOutcome::Failed));
    assert_eq!(parser.summary().error.as_deref(), Some("boom"));
}

#[test]
fn partial_line_split_across_chunks_is_reassembled() {
    let happy = happy();
    let bytes = happy.as_bytes();
    let clean = parse(&happy, Some(0));
    for split in [bytes.len() / 2, 1, bytes.len() - 1] {
        let mut parser = PiJsonlParser::new();
        feed(&mut parser, &bytes[..split]);
        feed(&mut parser, &bytes[split..]);
        end(&mut parser, Some(0));
        assert_eq!(parser.events(), clean.events());
        assert_eq!(parser.summary(), clean.summary());
    }
}

#[test]
fn finish_is_idempotent() {
    let mut parser = PiJsonlParser::new();
    feed(&mut parser, happy().as_bytes());
    end(&mut parser, Some(0));
    end(&mut parser, Some(1));
    let idles = parser
        .events()
        .iter()
        .filter(|e| matches!(e, AgentStateEvent::Idle { .. }))
        .count();
    assert_eq!(idles, 1);
    assert_eq!(parser.summary().outcome, Some(IdleOutcome::Succeeded));
}

#[test]
fn plain_text_output_leaves_outcome_unset() {
    let parser = parse("plain output\nmore text\n", Some(0));
    assert!(parser.summary().outcome.is_none());
    assert!(parser.events().is_empty());
}

#[test]
fn settle_writes_eot_once() {
    let mut parser = PiJsonlParser::with_channel(true);
    feed(&mut parser, happy().as_bytes());
    end(&mut parser, Some(0));
    // A second settle/finish must not write another EOT.
    end(&mut parser, Some(0));
    let bytes = parser.outgoing();
    assert_eq!(bytes.iter().filter(|b| **b == 0x04).count(), 1);
    assert_eq!(END_OF_TRANSMISSION, 0x04);
}

/// Collect the usage carried by the parser's `Usage` events.
fn usage_events(parser: &PiJsonlParser) -> Vec<AgentUsage> {
    parser
        .events()
        .iter()
        .filter_map(|event| match event {
            AgentStateEvent::Usage { usage } => Some(usage.clone()),
            _ => None,
        })
        .collect()
}

fn fold(usages: &[AgentUsage]) -> AgentUsage {
    let mut total = AgentUsage::default();
    for usage in usages {
        total.merge(usage);
    }
    total
}

/// The counters of `usage`, and its cost as an amount.
fn figures(usage: &AgentUsage) -> ([u64; 5], Option<f64>) {
    (
        [
            usage.input_tokens,
            usage.output_tokens,
            usage.reasoning_tokens,
            usage.cache_read_tokens,
            usage.cache_write_tokens,
        ],
        dollars(usage),
    )
}

/// The authoritative completed-message usage is mapped even when the
/// streaming `message_update.usage` stayed at zero until completion.
#[test]
fn message_end_usage_is_authoritative() {
    let raw = rows(&[
        r#"{"type":"agent_start"}"#,
        r#"{"type":"message_update","usage":{"input":0,"output":0,"cacheRead":0,"cacheWrite":0,"totalTokens":0,"cost":{"total":0}},"assistantMessageEvent":{"type":"text_delta","delta":"hi"}}"#,
        r#"{"type":"message_end","message":{"role":"assistant","content":[{"type":"text","text":"hi"}],"usage":{"input":50000,"output":10000,"cacheRead":40000,"cacheWrite":5000,"reasoning":1234,"totalTokens":105000,"cost":{"input":0,"output":0,"cacheRead":0,"cacheWrite":0,"total":0.45}},"stopReason":"stop"}}"#,
        r#"{"type":"turn_end","message":{"role":"assistant","usage":{"input":50000,"output":10000,"cacheRead":40000,"cacheWrite":5000,"reasoning":1234,"totalTokens":105000,"cost":{"total":0.45}}},"toolResults":[]}"#,
        r#"{"type":"agent_settled"}"#,
    ]);
    let parser = parse(&raw, Some(0));
    let expected = AgentUsage {
        input_tokens: 50000,
        output_tokens: 10000,
        reasoning_tokens: 1234,
        cache_read_tokens: 40000,
        cache_write_tokens: 5000,
        cost_usd: cost(0.45),
    };
    // Emitted once at the turn boundary, not twice for message_end+turn_end.
    assert_eq!(usage_events(&parser), vec![expected.clone()]);
    assert_eq!(parser.summary().usage, expected);
}

/// `get_session_stats` carries the exact session totals under `tokens` with a
/// flat `cost`; the parser emits only the delta over the per-turn stream so
/// the folded total equals pi's number without double counting.
#[test]
fn session_stats_reconciles_without_double_counting() {
    let raw = rows(&[
        r#"{"type":"agent_start"}"#,
        r#"{"type":"message_end","message":{"role":"assistant","usage":{"input":100,"output":20,"cacheRead":10,"cacheWrite":5,"reasoning":7,"totalTokens":135,"cost":{"total":0.02}}}}"#,
        r#"{"type":"turn_end","message":{},"toolResults":[]}"#,
        r#"{"type":"response","command":"get_session_stats","success":true,"data":{"sessionId":"ses_pi","tokens":{"input":50000,"output":10000,"cacheRead":40000,"cacheWrite":5000,"total":105000},"cost":0.45,"contextUsage":{"tokens":60000,"contextWindow":200000,"percent":30}}}"#,
        r#"{"type":"agent_settled"}"#,
    ]);
    let parser = parse(&raw, Some(0));
    let expected = ([50000, 10000, 7, 40000, 5000], Some(0.45));
    let usages = usage_events(&parser);
    // The turn's stream plus the stats delta; the fold is exact.
    assert_eq!(usages.len(), 2);
    assert_eq!(figures(&fold(&usages)), expected);
    assert_eq!(figures(&parser.summary().usage), expected);
}

/// A late `get_session_stats` reply that trails the running stream must not
/// rewind the folded total (which would double count the next delta).
#[test]
fn stale_session_stats_does_not_rewind_the_total() {
    let raw = rows(&[
        r#"{"type":"message_end","message":{"role":"assistant","usage":{"input":100,"output":0,"cacheRead":0,"cacheWrite":0,"totalTokens":100,"cost":{"total":0.10}}}}"#,
        r#"{"type":"turn_end","message":{},"toolResults":[]}"#,
        r#"{"type":"response","command":"get_session_stats","success":true,"data":{"tokens":{"input":100,"output":0,"cacheRead":0,"cacheWrite":0,"total":100},"cost":0.10}}"#,
        r#"{"type":"message_end","message":{"role":"assistant","usage":{"input":50,"output":0,"cacheRead":0,"cacheWrite":0,"totalTokens":50,"cost":{"total":0.05}}}}"#,
        r#"{"type":"turn_end","message":{},"toolResults":[]}"#,
        // A reply that predates turn 2 arrives late.
        r#"{"type":"response","command":"get_session_stats","success":true,"data":{"tokens":{"input":100,"output":0,"cacheRead":0,"cacheWrite":0,"total":100},"cost":0.10}}"#,
        r#"{"type":"response","command":"get_session_stats","success":true,"data":{"tokens":{"input":150,"output":0,"cacheRead":0,"cacheWrite":0,"total":150},"cost":0.15}}"#,
        r#"{"type":"agent_settled"}"#,
    ]);
    let parser = parse(&raw, Some(0));
    assert_eq!(fold(&usage_events(&parser)).input_tokens, 150);
    assert_eq!(parser.summary().usage.input_tokens, 150);
    let cost = dollars(&parser.summary().usage).unwrap();
    assert!((cost - 0.15).abs() < 1e-9, "cost: {cost}");
}

/// A completed assistant message that never reached `turn_end` (a truncated
/// stream) still flushes its usage at `finish`.
#[test]
fn truncated_stream_flushes_message_end_usage() {
    let raw = rows(&[
        r#"{"type":"message_end","message":{"role":"assistant","usage":{"input":5,"output":6,"cacheRead":0,"cacheWrite":0,"totalTokens":11,"cost":{"total":0.01}}}}"#,
    ]);
    let parser = parse(&raw, Some(0));
    assert_eq!(
        usage_events(&parser),
        vec![AgentUsage {
            input_tokens: 5,
            output_tokens: 6,
            cost_usd: cost(0.01),
            ..Default::default()
        }]
    );
    assert_eq!(parser.summary().outcome, Some(IdleOutcome::Interrupted));
}

/// `parse_usage` accepts the flat `cost`/nested `tokens` shape and reads
/// `reasoning`.
#[test]
fn parse_usage_reads_reasoning_and_both_cost_shapes() {
    let message = parse_usage(&json(
        r#"{
            "input": 1,
            "output": 2,
            "reasoning": 3,
            "cacheRead": 4,
            "cacheWrite": 5,
            "cost": { "total": 0.5 }
        }"#,
    ));
    assert_eq!(message.reasoning_tokens, 3);
    assert_eq!(message.cost_usd, cost(0.5));

    let stats = parse_usage(&json(
        r#"{
            "tokens": {
                "input": 10,
                "output": 20,
                "cacheRead": 40,
                "cacheWrite": 50,
                "total": 120
            },
            "cost": 0.75
        }"#,
    ));
    assert_eq!(stats.input_tokens, 10);
    assert_eq!(stats.output_tokens, 20);
    assert_eq!(stats.cache_read_tokens, 40);
    assert_eq!(stats.cache_write_tokens, 50);
    assert_eq!(stats.cost_usd, cost(0.75));
}

/// A settle writes the `get_session_stats` request before the EOT.
#[test]
fn settle_requests_session_stats_before_closing() {
    let mut parser = PiJsonlParser::with_channel(true);
    feed(&mut parser, happy().as_bytes());
    let written = String::from_utf8_lossy(parser.outgoing()).to_string();
    assert!(
        written.contains(r#"{"type":"get_session_stats"}"#),
        "stats request missing: {written:?}"
    );
    assert_eq!(written.matches(r#"{"type":"get_session_stats"}"#).count(), 2);
    assert!(parser
        .events()
        .iter()
        .any(|e| matches!(e, AgentStateEvent::Idle { outcome: IdleOutcome::Succeeded })));
}

#[test]
fn totals_are_taken_up_by_their_difference() {
    let emitted = AgentUsage {
        input_tokens: 3,
        output_tokens: 9,
        cost_usd: cost(0.5),
        ..Default::default()
    };
    let total = AgentUsage {
        input_tokens: 10,
        output_tokens: 4,
        cost_usd: cost(0.75),
        ..Default::default()
    };
    // One counter fell behind, so the totals are stale whatever they cost.
    assert!(!usage_covers(&total, &emitted, true));
    let delta = usage_delta(&total, &emitted);
    assert_eq!(figures(&delta), ([7, 0, 0, 0, 0], Some(0.25)));

    let grown = AgentUsage { output_tokens: 9, ..total };
    assert!(usage_covers(&grown, &emitted, true));
    assert!(!usage_covers(&grown, &emitted, false));
}
