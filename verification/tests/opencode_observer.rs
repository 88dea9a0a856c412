use favetto::agents::opencode::observer::{
    cut_at_rest, decision_for, error_message, map_event, next_attempt, parse_sse_data,
    permission_path, permission_reply, session_path, EventStream, Mapper, OpenCodeServer,
};
use favetto::agents::opencode::server::Endpoint;
use favetto::agents::state::InputReply;
use favetto::json::{parse, Json};
use favetto::model::{
    AgentStateEvent, AgentUsage, AwaitingInputKind, Cost, IdleOutcome, InputRequest, MessageRole,
};

fn event(json: &str) -> Json {
    parse(json).unwrap()
}

fn session(id: &str) -> AgentStateEvent {
    AgentStateEvent::Session { session_id: Some(id.to_string()), title: None, model: None }
}

fn says(text: &str) -> AgentStateEvent {
    AgentStateEvent::TextDelta { role: MessageRole::Assistant, text: text.to_string() }
}

fn titled(title: &str) -> AgentStateEvent {
    AgentStateEvent::Title { title: title.to_string() }
}

fn idle(outcome: IdleOutcome) -> AgentStateEvent {
    AgentStateEvent::Idle { outcome }
}

fn cost(amount: f64) -> Option<Cost> {
    Some(Cost::Reported(amount.to_bits()))
}

#[test]
fn maps_session_created_and_title() {
    let value = event(
        r#"{"type":"session.created","data":{"sessionID":"ses_1","title":"Fix the widget"}}"#,
    );
    assert_eq!(map_event(&value, "ses_1"), vec![session("ses_1"), titled("Fix the widget")]);
    // A different session is out of scope.
    assert!(map_event(&value, "ses_2").is_empty());
    // A global event is out of scope.
    assert!(map_event(&event(r#"{"type":"server.connected","data":{}}"#), "ses_1").is_empty());
}

#[test]
fn maps_renamed_to_title() {
    let value =
        event(r#"{"type":"session.renamed","data":{"sessionID":"ses_1","title":"Renamed"}}"#);
    assert_eq!(map_event(&value, "ses_1"), vec![titled("Renamed")]);
}

#[test]
fn maps_turn_text_and_reasoning() {
    assert_eq!(
        map_event(
            &event(r#"{"type":"session.execution.started","data":{"sessionID":"ses_1"}}"#),
            "ses_1"
        ),
        vec![AgentStateEvent::TurnStarted]
    );
    assert_eq!(
        map_event(
            &event(
                r#"{"type":"session.step.started","data":{"sessionID":"ses_1","model":{"id":"m","providerID":"p"}}}"#
            ),
            "ses_1"
        ),
        vec![AgentStateEvent::TurnStarted]
    );
    assert_eq!(
        map_event(
            &event(r#"{"type":"session.text.delta","data":{"sessionID":"ses_1","delta":"hello"}}"#),
            "ses_1"
        ),
        vec![says("hello")]
    );
    assert_eq!(
        map_event(
            &event(
                r#"{"type":"session.reasoning.delta","data":{"sessionID":"ses_1","delta":"why"}}"#
            ),
            "ses_1"
        ),
        vec![AgentStateEvent::ReasoningDelta { text: "why".to_string() }]
    );
}

#[test]
fn maps_tool_lifecycle_with_name_recovery() {
    let mut mapper = Mapper::default();
    let started = mapper.map(
        &event(r#"{"type":"session.tool.input.started","data":{"sessionID":"ses_1","id":"call_1","name":"shell"}}"#),
        "ses_1",
    );
    assert_eq!(
        started,
        vec![AgentStateEvent::ToolStarted {
            id: "call_1".to_string(),
            name: "shell".to_string(),
            input: Json::Null,
        }]
    );

    let ended = mapper.map(
        &event(r#"{"type":"session.tool.input.ended","data":{"sessionID":"ses_1","id":"call_1","text":"{\"command\":\"echo hi\"}"}}"#),
        "ses_1",
    );
    assert_eq!(
        ended,
        vec![AgentStateEvent::ToolUpdated {
            id: "call_1".to_string(),
            partial: event(r#"{ "command": "echo hi" }"#),
        }]
    );

    let called = mapper.map(
        &event(r#"{"type":"session.tool.called","data":{"sessionID":"ses_1","id":"call_1","input":{"command":"echo hi"}}}"#),
        "ses_1",
    );
    assert_eq!(
        called,
        vec![AgentStateEvent::ToolUpdated {
            id: "call_1".to_string(),
            partial: event(r#"{ "command": "echo hi" }"#),
        }]
    );

    let progress = mapper.map(
        &event(r#"{"type":"session.tool.progress","data":{"sessionID":"ses_1","id":"call_1","metadata":{"shellID":"sh_1"}}}"#),
        "ses_1",
    );
    assert_eq!(
        progress,
        vec![AgentStateEvent::ToolUpdated {
            id: "call_1".to_string(),
            partial: event(r#"{ "shellID": "sh_1" }"#),
        }]
    );

    // `success` carries no name; it is recovered from the earlier start.
    let success = mapper.map(
        &event(r#"{"type":"session.tool.success","data":{"sessionID":"ses_1","id":"call_1","content":[{"type":"text","text":"hi"}]}}"#),
        "ses_1",
    );
    assert_eq!(
        success,
        vec![AgentStateEvent::ToolFinished {
            id: "call_1".to_string(),
            name: "shell".to_string(),
            ok: true,
            output: Some(event(r#"[{ "type": "text", "text": "hi" }]"#)),
        }]
    );

    let failed = map_event(
        &event(
            r#"{"type":"session.tool.failed","data":{"sessionID":"ses_1","id":"call_2","name":"bash","error":"boom"}}"#,
        ),
        "ses_1",
    );
    assert_eq!(
        failed,
        vec![AgentStateEvent::ToolFinished {
            id: "call_2".to_string(),
            name: "bash".to_string(),
            ok: false,
            output: Some(Json::Str("boom".to_string())),
        }]
    );
}

#[test]
fn maps_usage_from_step_and_usage_events() {
    let step = r#"{"type":"session.step.ended","data":{"sessionID":"ses_1","cost":0.01,"tokens":{"input":10,"output":5,"reasoning":2,"cache":{"read":3,"write":1}}}}"#;
    let expected = AgentUsage {
        input_tokens: 10,
        output_tokens: 5,
        reasoning_tokens: 2,
        cache_read_tokens: 3,
        cache_write_tokens: 1,
        cost_usd: cost(0.01),
    };
    assert_eq!(
        map_event(&event(step), "ses_1"),
        vec![AgentStateEvent::Usage { usage: expected }]
    );

    let usage = r#"{"type":"session.usage.updated","data":{"sessionID":"ses_1","cost":0.02,"tokens":{"input":1}}}"#;
    assert_eq!(
        map_event(&event(usage), "ses_1"),
        vec![AgentStateEvent::Usage {
            usage: AgentUsage { input_tokens: 1, cost_usd: cost(0.02), ..Default::default() }
        }]
    );
}

#[test]
fn maps_terminal_execution_events() {
    assert_eq!(
        map_event(
            &event(r#"{"type":"session.execution.succeeded","data":{"sessionID":"ses_1"}}"#),
            "ses_1"
        ),
        vec![idle(IdleOutcome::Succeeded)]
    );
    assert_eq!(
        map_event(
            &event(r#"{"type":"session.execution.interrupted","data":{"sessionID":"ses_1"}}"#),
            "ses_1"
        ),
        vec![idle(IdleOutcome::Interrupted)]
    );
    assert_eq!(
        map_event(
            &event(
                r#"{"type":"session.execution.failed","data":{"sessionID":"ses_1","error":{"type":"APIError","message":"Rate limited"}}}"#
            ),
            "ses_1"
        ),
        vec![
            AgentStateEvent::Error { message: "Rate limited".to_string() },
            idle(IdleOutcome::Failed),
        ]
    );
}

#[test]
fn maps_permission_asked_and_resolved() {
    let asked = event(
        r#"{"type":"permission.asked","data":{"id":"per_1","sessionID":"ses_1","action":"bash","resources":["echo hi"],"save":["always"]}}"#,
    );
    assert_eq!(
        map_event(&asked, "ses_1"),
        vec![AgentStateEvent::InputRequested {
            request: InputRequest {
                id: "per_1".to_string(),
                kind: AwaitingInputKind::Permission,
                message: "Allow bash echo hi".to_string(),
                options: vec![
                    "Allow once".to_string(),
                    "Allow always".to_string(),
                    "Reject".to_string()
                ],
                allow_always: true,
            }
        }]
    );

    // No `save` array means "always" is not offered.
    let no_save = event(
        r#"{"type":"permission.asked","data":{"id":"per_2","sessionID":"ses_1","action":"read","resources":[]}}"#,
    );
    let mapped = map_event(&no_save, "ses_1");
    match &mapped[0] {
        AgentStateEvent::InputRequested { request } => {
            assert!(!request.allow_always);
            assert_eq!(request.message, "Allow read");
        }
        other => panic!("unexpected: {other:?}"),
    }

    assert_eq!(
        map_event(
            &event(
                r#"{"type":"permission.replied","data":{"sessionID":"ses_1","requestID":"per_1","reply":"always"}}"#
            ),
            "ses_1"
        ),
        vec![AgentStateEvent::InputResolved { id: "per_1".to_string() }]
    );
    assert_eq!(
        map_event(
            &event(
                r#"{"type":"permission.rejected","data":{"sessionID":"ses_1","requestID":"per_2"}}"#
            ),
            "ses_1"
        ),
        vec![AgentStateEvent::InputResolved { id: "per_2".to_string() }]
    );
}

#[test]
fn permission_dedupe_across_sse_and_reconcile() {
    let mut mapper = Mapper::default();
    let asked = event(
        r#"{"type":"permission.asked","data":{"id":"per_1","sessionID":"ses_1","action":"bash","resources":[]}}"#,
    );
    assert_eq!(mapper.map(&asked, "ses_1").len(), 1);
    // A second observation of the same pending request emits nothing.
    assert!(mapper.map(&asked, "ses_1").is_empty());
    // Neither does the list of what is pending, but for what is new in it.
    let pending = event(
        r#"{"data":[{"id":"per_1","action":"bash","resources":[]},{"id":"per_2","action":"read","resources":[]}]}"#,
    );
    let told = mapper.reconcile_permissions(&pending);
    assert_eq!(told.len(), 1);
    assert!(matches!(&told[0], AgentStateEvent::InputRequested { request } if request.id == "per_2"));
}

#[test]
fn maps_legacy_design_events() {
    // v2.0.8 text part.
    assert_eq!(
        map_event(
            &event(
                r#"{"type":"message.part.updated","sessionID":"ses_1","properties":{"part":{"type":"text","text":"hi"}}}"#
            ),
            "ses_1"
        ),
        vec![says("hi")]
    );
    // v2.0.8 step-start.
    assert_eq!(
        map_event(
            &event(
                r#"{"type":"message.part.updated","sessionID":"ses_1","properties":{"part":{"type":"step-start"}}}"#
            ),
            "ses_1"
        ),
        vec![AgentStateEvent::TurnStarted]
    );
    // v2.0.8 idle status.
    assert_eq!(
        map_event(
            &event(
                r#"{"type":"session.status","sessionID":"ses_1","properties":{"status":{"type":"idle"}}}"#
            ),
            "ses_1"
        ),
        vec![idle(IdleOutcome::Succeeded)]
    );
    // v2.0.8 assistant message.
    assert_eq!(
        map_event(
            &event(
                r#"{"type":"message.updated","sessionID":"ses_1","properties":{"info":{"role":"assistant"}}}"#
            ),
            "ses_1"
        ),
        vec![AgentStateEvent::TurnStarted]
    );
}

#[test]
fn decision_for_supports_only_permission_answers() {
    assert_eq!(decision_for(&InputReply::Once), Some("once"));
    assert_eq!(decision_for(&InputReply::Always), Some("always"));
    assert_eq!(decision_for(&InputReply::Reject), Some("reject"));
    assert!(decision_for(&InputReply::Value { value: "x".to_string() }).is_none());
    assert!(decision_for(&InputReply::Confirmed { confirmed: true }).is_none());
    assert!(decision_for(&InputReply::Cancelled).is_none());
}

#[test]
fn parse_sse_data_handles_framing() {
    assert!(parse_sse_data(": heartbeat").is_none());
    assert!(parse_sse_data("event: message").is_none());
    assert!(parse_sse_data("").is_none());
    assert!(parse_sse_data("data: { broken").is_none());
    let value = parse_sse_data("data: {\"type\":\"x\"}").unwrap();
    assert_eq!(value.text("type"), "x");
    // A line split across chunks is reassembled by the caller, so parsing a
    // complete `data:` line is all this helper needs to do.
    assert_eq!(parse_sse_data("data:{\"a\":1}").unwrap().count("a"), 1);
}

const SSE_BODY: [&str; 8] = [
    "data: {\"type\":\"session.created\",\"data\":{\"sessionID\":\"ses_test\",\"title\":\"Probe\"}}\n\n",
    ": heartbeat\n\n",
    "data: {\"type\":\"session.execution.started\",\"data\":{\"sessionID\":\"ses_test\"}}\n\n",
    "data: {\"type\":\"session.text.delta\",\"data\":{\"sessionID\":\"ses_test\",\"delta\":\"hello\"}}\n\n",
    "data: {\"type\":\"session.tool.input.started\",\"data\":{\"sessionID\":\"ses_test\",\"id\":\"call_1\",\"name\":\"shell\"}}\n\n",
    "data: {\"type\":\"session.tool.success\",\"data\":{\"sessionID\":\"ses_test\",\"id\":\"call_1\",\"content\":[{\"type\":\"text\",\"text\":\"hi\"}]}}\n\n",
    "data: {\"type\":\"session.step.ended\",\"data\":{\"sessionID\":\"ses_test\",\"cost\":0.01,\"tokens\":{\"input\":10,\"output\":5,\"reasoning\":2,\"cache\":{\"read\":3,\"write\":1}}}}\n\n",
    "data: {\"type\":\"session.execution.succeeded\",\"data\":{\"sessionID\":\"ses_test\"}}\n\n",
];

fn server() -> OpenCodeServer {
    OpenCodeServer::new(Endpoint {
        url: "http://127.0.0.1:1".to_string(),
        password: "x".to_string(),
    })
}

#[test]
fn observer_streams_and_maps_a_scripted_server() {
    let body = SSE_BODY.join("");
    for size in [body.len(), 7] {
        let mut collected = Vec::new();
        collected.extend(server().start(&Some("ses_test".to_string())));
        let mut mapper = Mapper::default();
        let mut stream = EventStream::new("ses_test".to_string());
        let mut ended = false;
        for chunk in body.as_bytes().chunks(size) {
            let (told, terminal) = stream.push(chunk, &mut mapper);
            collected.extend(told);
            ended = ended || terminal;
        }
        assert!(ended);
        assert_eq!(
            collected,
            vec![
                session("ses_test"),
                session("ses_test"),
                titled("Probe"),
                AgentStateEvent::TurnStarted,
                says("hello"),
                AgentStateEvent::ToolStarted {
                    id: "call_1".to_string(),
                    name: "shell".to_string(),
                    input: Json::Null,
                },
                AgentStateEvent::ToolFinished {
                    id: "call_1".to_string(),
                    name: "shell".to_string(),
                    ok: true,
                    output: Some(event(r#"[{ "type": "text", "text": "hi" }]"#)),
                },
                AgentStateEvent::Usage {
                    usage: AgentUsage {
                        input_tokens: 10,
                        output_tokens: 5,
                        reasoning_tokens: 2,
                        cache_read_tokens: 3,
                        cache_write_tokens: 1,
                        cost_usd: cost(0.01),
                    }
                },
                idle(IdleOutcome::Succeeded),
            ]
        );
    }
}

#[test]
fn responder_posts_the_permission_decision() {
    let (path, body) = permission_reply("ses_test", "per_1", &InputReply::Always).unwrap();
    assert_eq!(path, "/api/session/ses_test/permission/per_1/reply");
    assert_eq!(event(&body), event(r#"{ "decision": "always" }"#));
    // A free-form reply has no opencode equivalent.
    let free = InputReply::Value { value: "x".to_string() };
    assert!(permission_reply("ses_test", "per_1", &free).is_none());
}

#[test]
fn observer_requires_a_session_id() {
    assert!(server().start(&None).is_none());
    assert_eq!(server().start(&Some("ses_1".to_string())), Some(session("ses_1")));
}

#[test]
fn paths_are_encoded() {
    assert_eq!(permission_path("a/b"), "/api/session/a%2Fb/permission");
    assert_eq!(session_path("a b"), "/api/session/a%20b");
}

#[test]
fn nothing_is_told_after_rest() {
    let mut events = vec![
        AgentStateEvent::TurnStarted,
        idle(IdleOutcome::Succeeded),
        AgentStateEvent::TurnStarted,
    ];
    assert!(cut_at_rest(&mut events));
    assert_eq!(events, vec![AgentStateEvent::TurnStarted, idle(IdleOutcome::Succeeded)]);
    let mut busy = vec![AgentStateEvent::TurnStarted];
    assert!(!cut_at_rest(&mut busy));
    assert_eq!(busy.len(), 1);
}

#[test]
fn a_title_is_told_when_it_changes() {
    let mut mapper = Mapper::default();
    let renamed =
        event(r#"{"type":"session.renamed","data":{"sessionID":"ses_1","title":"Same"}}"#);
    assert_eq!(mapper.map(&renamed, "ses_1"), vec![titled("Same")]);
    assert!(mapper.map(&renamed, "ses_1").is_empty());
    let (told, _) = mapper.reconcile_session(&event(r#"{"data":{"title":"Other"}}"#));
    assert_eq!(told, vec![titled("Other")]);
}

#[test]
fn a_lost_stream_is_tried_again() {
    // The pauses grow, and end.
    assert_eq!(next_attempt(0, false, false), Some(250));
    assert_eq!(next_attempt(1, false, false), Some(500));
    assert_eq!(next_attempt(0, true, false), None);
    assert_eq!(next_attempt(0, false, true), None);
    assert_eq!(next_attempt(10, false, false), None);
}

#[test]
fn errors_have_a_message() {
    assert_eq!(error_message(&event(r#"{"error":{"message":"boom"}}"#)), "boom");
    assert!(!error_message(&event("{}")).is_empty());
}
