use favetto::agent_hooks::{AgentHookLaunch, HookMap};
use favetto::agents::claude::hooks::{
    default_message, injection, new_injection, observe_only_refusal, permission_message,
    permission_options, settings_json, state_source, token_from_url, ClaudeHookSource, HookMapper,
    HOOK_SETTINGS_ENV, HOOK_URL_ENV,
};
use favetto::agents::claude::stream_json::ClaudeStreamJsonParser;
use favetto::agents::claude::ClaudeAgent;
use favetto::agents::product::{command_name, title_name};
use favetto::agents::state::StateSourceConfig;
use favetto::config::AgentConfig;
use favetto::json::{parse, Json};
use favetto::model::{AgentStateEvent, AwaitingInputKind, IdleOutcome, InputRequest};
use favetto::table::Table;

fn json(text: &str) -> Json {
    parse(text).unwrap()
}

fn endpoint() -> String {
    format!("http://127.0.0.1:7878/agent-hooks/{}", command_name())
}

fn launch() -> AgentHookLaunch {
    AgentHookLaunch { endpoint: endpoint(), dir: "/tmp/favetto-hooks".to_string() }
}

fn permission_id(n: u32) -> String {
    format!("{}-perm-{n}", command_name())
}

fn session(id: &str, title: Option<&str>) -> AgentStateEvent {
    AgentStateEvent::Session {
        session_id: Some(id.to_string()),
        title: title.map(str::to_string),
        model: None,
    }
}

#[test]
fn settings_registers_http_hooks_only() {
    let url = format!("{}/tok123", endpoint());
    let settings = json(&settings_json(&url));
    let hooks = match settings.get("hooks") {
        Some(Json::Object(hooks)) => hooks,
        other => panic!("hooks object, not {other:?}"),
    };

    assert!(
        !hooks.iter().any(|(event, _)| event == "SessionStart"),
        "SessionStart only supports command/mcp_tool handlers"
    );

    for (event, groups) in hooks {
        for group in groups.as_array().expect("groups") {
            for handler in group.get("hooks").and_then(Json::as_array).expect("handlers") {
                assert_eq!(handler.text("type"), "http", "event {event}");
                assert_eq!(handler.text("url"), url, "event {event}");
                assert!(
                    handler.get("headers").is_none(),
                    "the token lives in the URL path, not headers"
                );
            }
        }
    }

    let notification = settings.get2("hooks", "Notification").and_then(Json::as_array).unwrap();
    assert_eq!(notification[0].text("matcher"), "permission_prompt|idle_prompt|agent_needs_input");
}

#[test]
fn injection_writes_settings_and_sets_env() {
    let (path, body, injection) = new_injection(&launch());

    assert_eq!(injection.args[0], "--settings");
    assert_eq!(injection.args[1], path);
    assert!(path.starts_with("/tmp/favetto-hooks/"));
    assert!(json(&body).get2("hooks", "PreToolUse").and_then(Json::as_array).is_some());

    let url = injection.env.get(HOOK_URL_ENV).expect("hook url env");
    assert!(url.starts_with(&format!("{}/", endpoint())));
    assert_eq!(injection.env.get(HOOK_SETTINGS_ENV), Some(&path));

    // Never the user or project settings.
    let private = format!("/.{}/", command_name());
    assert!(!path.contains(&private), "path: {path}");
    assert!(path.ends_with(".json"));
}

#[test]
fn each_injection_has_a_token_of_its_own() {
    let (first, _, _) = new_injection(&launch());
    let (second, _, _) = new_injection(&launch());
    assert_ne!(first, second);
}

#[test]
fn the_token_comes_back_from_the_url() {
    let (_, body, injected) = injection(&launch(), "tok-7");
    let url = injected.env.get(HOOK_URL_ENV).unwrap();
    assert_eq!(*url, format!("{}/tok-7", endpoint()));
    assert_eq!(token_from_url(url).as_deref(), Some("tok-7"));
    assert!(body.contains(url.as_str()));

    let trailing = AgentHookLaunch { endpoint: format!("{}/", endpoint()), dir: String::new() };
    let (_, _, injected) = injection(&trailing, "tok-7");
    assert_eq!(
        token_from_url(injected.env.get(HOOK_URL_ENV).unwrap()).as_deref(),
        Some("tok-7")
    );
}

#[test]
fn permission_request_maps_to_input_requested() {
    let mut mapper = HookMapper::new();
    let events = mapper.map(&json(
        r#"{
            "session_id": "ses_1",
            "hook_event_name": "PermissionRequest",
            "tool_name": "Bash",
            "permission_suggestions": [
                {"behavior": "allow", "label": "Allow once"},
                {"behavior": "deny", "label": "Reject"}
            ]
        }"#,
    ));
    assert_eq!(
        events,
        vec![
            session("ses_1", None),
            AgentStateEvent::InputRequested {
                request: InputRequest {
                    id: permission_id(1),
                    kind: AwaitingInputKind::Permission,
                    message: format!("{} requests permission to run Bash", title_name()),
                    options: vec!["Allow once".to_string(), "Reject".to_string()],
                    allow_always: true,
                },
            },
        ]
    );
}

#[test]
fn stop_maps_to_idle_succeeded_and_clears_pending() {
    let mut mapper = HookMapper::new();
    mapper.map(&json(
        r#"{"session_id": "ses_1", "hook_event_name": "PermissionRequest", "tool_name": "Bash"}"#,
    ));
    // A `PreToolUse` resolves the pending prompt, then `Stop` goes idle.
    let events = mapper.map(&json(
        r#"{
            "session_id": "ses_1",
            "hook_event_name": "PreToolUse",
            "tool_use_id": "tu_1",
            "tool_name": "Bash",
            "tool_input": {"command": "ls"}
        }"#,
    ));
    assert_eq!(
        events,
        vec![
            AgentStateEvent::InputResolved { id: permission_id(1) },
            AgentStateEvent::ToolStarted {
                id: "tu_1".to_string(),
                name: "Bash".to_string(),
                input: json(r#"{"command": "ls"}"#),
            },
        ]
    );

    let events = mapper.map(&json(r#"{"session_id": "ses_1", "hook_event_name": "Stop"}"#));
    assert_eq!(events, vec![AgentStateEvent::Idle { outcome: IdleOutcome::Succeeded }]);
    // Idle is emitted once even if `SessionEnd` follows.
    let events = mapper.map(&json(r#"{"session_id": "ses_1", "hook_event_name": "SessionEnd"}"#));
    assert!(events.is_empty());
}

#[test]
fn stop_failure_maps_to_failed() {
    let mut mapper = HookMapper::new();
    let events = mapper.map(&json(r#"{"session_id": "ses_1", "hook_event_name": "StopFailure"}"#));
    assert_eq!(
        events,
        vec![
            session("ses_1", None),
            AgentStateEvent::Idle { outcome: IdleOutcome::Failed },
        ]
    );
}

#[test]
fn pre_and_post_tool_use_map_to_tool_lifecycle() {
    let mut mapper = HookMapper::new();
    mapper.map(&json(
        r#"{
            "session_id": "ses_1",
            "hook_event_name": "PreToolUse",
            "tool_use_id": "tu_1",
            "tool_name": "Read",
            "tool_input": {"path": "a.txt"}
        }"#,
    ));
    let events = mapper.map(&json(
        r#"{
            "session_id": "ses_1",
            "hook_event_name": "PostToolUse",
            "tool_use_id": "tu_1",
            "tool_name": "Read",
            "tool_response": "contents"
        }"#,
    ));
    assert_eq!(
        events,
        vec![AgentStateEvent::ToolFinished {
            id: "tu_1".to_string(),
            name: "Read".to_string(),
            ok: true,
            output: Some(Json::Str("contents".to_string())),
        }]
    );

    let events = mapper.map(&json(
        r#"{
            "session_id": "ses_1",
            "hook_event_name": "PostToolUseFailure",
            "tool_use_id": "tu_2",
            "tool_name": "Bash"
        }"#,
    ));
    assert_eq!(
        events,
        vec![AgentStateEvent::ToolFinished {
            id: "tu_2".to_string(),
            name: "Bash".to_string(),
            ok: false,
            output: None,
        }]
    );
}

#[test]
fn user_prompt_submit_emits_session_and_turn() {
    let mut mapper = HookMapper::new();
    let events = mapper.map(&json(
        r#"{
            "session_id": "ses_1",
            "session_title": "My session",
            "hook_event_name": "UserPromptSubmit"
        }"#,
    ));
    assert_eq!(events, vec![session("ses_1", Some("My session")), AgentStateEvent::TurnStarted]);
    // The session is announced only once.
    let events = mapper.map(&json(
        r#"{"session_id": "ses_1", "hook_event_name": "UserPromptSubmit"}"#,
    ));
    assert_eq!(events, vec![AgentStateEvent::TurnStarted]);
}

#[test]
fn unknown_event_is_ignored() {
    let mut mapper = HookMapper::new();
    let events = mapper.map(&json(r#"{"session_id": "ses_1", "hook_event_name": "SomethingNew"}"#));
    assert_eq!(events, vec![session("ses_1", None)]);
}

#[test]
fn notification_permission_prompt_maps_to_input_requested() {
    let mut mapper = HookMapper::new();
    let events = mapper.map(&json(
        r#"{
            "session_id": "ses_1",
            "hook_event_name": "Notification",
            "notification_type": "permission_prompt",
            "message": "Permission needed"
        }"#,
    ));
    assert_eq!(
        events,
        vec![
            session("ses_1", None),
            AgentStateEvent::InputRequested {
                request: InputRequest {
                    id: permission_id(1),
                    kind: AwaitingInputKind::Permission,
                    message: "Permission needed".to_string(),
                    options: Vec::new(),
                    allow_always: true,
                },
            },
        ]
    );
}

#[test]
fn state_source_selects_transports_by_mode() {
    // Interactive without hooks -> no source (screen fallback).
    let interactive = StateSourceConfig { headless: false, ..Default::default() };
    assert!(state_source(&interactive).is_none());
    assert_eq!(
        ClaudeStreamJsonParser::new().summary().outcome,
        None,
        "sanity: a fresh parser has no outcome"
    );

    // Headless always gets the stdout parser.
    let headless = StateSourceConfig { headless: true, ..Default::default() };
    let source = state_source(&headless).expect("headless source");
    assert_eq!(source.label(), format!("{}-stream-json", command_name()));
}

#[test]
fn hooks_need_a_router_and_a_token() {
    let (path, _, injected) = injection(&launch(), "tok-7");
    let with_router = StateSourceConfig {
        hook_router: true,
        env: injected.env.clone(),
        ..Default::default()
    };
    let source = ClaudeHookSource::new(&with_router, false);
    assert!(source.hooks_enabled());
    assert_eq!(source.token.as_deref(), Some("tok-7"));
    assert_eq!(source.settings_path, Some(path));
    assert_eq!(source.label(), format!("{}-hooks", command_name()));
    assert!(state_source(&with_router).is_some());

    let without = StateSourceConfig { env: injected.env.clone(), ..Default::default() };
    assert!(!ClaudeHookSource::new(&without, false).hooks_enabled());
    assert!(state_source(&without).is_none());

    let bare: Table<String> = Table::new();
    let no_token = StateSourceConfig { hook_router: true, env: bare, ..Default::default() };
    assert!(!ClaudeHookSource::new(&no_token, false).hooks_enabled());
}

#[test]
fn permissions_are_numbered_as_they_come() {
    let mut mapper = HookMapper::new();
    assert_eq!(mapper.next_seq(), 1);
    assert_eq!(mapper.next_seq(), 2);
}

#[test]
fn a_permission_is_described_by_its_tool() {
    assert_eq!(
        permission_message(&json(r#"{"tool_name":"Edit"}"#)),
        format!("{} requests permission to run Edit", title_name())
    );
    assert_eq!(default_message(String::new(), "fallback"), "fallback");
    assert_eq!(default_message("own".to_string(), "fallback"), "own");
    assert_eq!(
        permission_options(&json(r#"{"permission_suggestions":["Yes",{"behavior":"deny"},7]}"#)),
        vec!["Yes", "deny"]
    );
    assert!(permission_options(&json("{}")).is_empty());
}

#[test]
fn replies_are_refused_by_an_observer() {
    assert_eq!(
        observe_only_refusal(),
        format!("{} session is observe-only; answer in the terminal", command_name())
    );
}

#[test]
fn every_request_has_an_id_of_its_own() {
    let mut mapper = HookMapper::new();
    let mut ids = Vec::new();
    for payload in [
        r#"{"hook_event_name":"PermissionRequest","tool_name":"Bash"}"#,
        r#"{"hook_event_name":"Notification","notification_type":"agent_needs_input"}"#,
        r#"{"hook_event_name":"PreToolUse","tool_use_id":"t","tool_name":"Bash"}"#,
        r#"{"hook_event_name":"Notification","notification_type":"permission_prompt"}"#,
        r#"{"hook_event_name":"PermissionRequest","tool_name":"Bash"}"#,
    ] {
        assert!(mapper.is_ready());
        for event in mapper.map(&json(payload)) {
            if let AgentStateEvent::InputRequested { request } = event {
                assert!(!ids.contains(&request.id));
                ids.push(request.id);
            }
        }
    }
    assert_eq!(
        ids,
        vec![
            permission_id(1),
            format!("{}-input-2", command_name()),
            permission_id(3),
            permission_id(4),
        ]
    );
}

#[test]
fn an_agent_hands_the_hooks_of_a_launch_to_its_source() {
    let agent = ClaudeAgent::from_config(&command_name(), &AgentConfig::default());
    let mut env = Table::new();
    env.insert(HOOK_URL_ENV.to_string(), format!("{}/tok-7", endpoint()));
    env.insert(HOOK_SETTINGS_ENV.to_string(), "/tmp/settings.json".to_string());
    let cfg = StateSourceConfig { env, hook_router: true, ..Default::default() };
    let source = agent.state_source(&cfg).unwrap();
    assert_eq!(source.token.as_deref(), Some("tok-7"));
    assert_eq!(source.hook_url, Some(format!("{}/tok-7", endpoint())));
    assert_eq!(source.settings_path.as_deref(), Some("/tmp/settings.json"));
    assert!(source.hooks_enabled());
}
