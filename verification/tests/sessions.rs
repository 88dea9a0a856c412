use favetto::agents::registry::{build_agent, Agent};
use favetto::agents::sessions::{
    no_input_channel, unknown_session, AgentEvent, AgentSessionInfo, NewSession, SessionBook,
};
use favetto::agents::state::AgentActivity;
use favetto::config::AgentConfig;
use favetto::model::{
    AgentStateEvent, AgentUsage, AwaitingInputKind, AwaitingInputReason, InputRequest,
};

fn new_session(id: &str, task_id: Option<&str>, observed: bool) -> NewSession {
    NewSession {
        id: id.to_string(),
        agent: "sh".to_string(),
        task_id: task_id.map(str::to_string),
        headless: false,
        external_session_id: None,
        observed,
    }
}

fn sh() -> Agent {
    build_agent("sh", &AgentConfig { command: "sh".to_string(), ..Default::default() }).unwrap()
}

fn find(book: &SessionBook, id: &str) -> AgentSessionInfo {
    book.sessions().into_iter().find(|s| s.id == id).unwrap()
}

#[test]
fn awaiting_input_slot_is_exposed_on_session_info() {
    let mut book = SessionBook::new();
    let info = book.open(new_session("s1", Some("task-a"), false));
    assert!(find(&book, &info.id).awaiting_input.is_none());

    let reason = AwaitingInputReason {
        kind: AwaitingInputKind::Permission,
        message: "Allow once?".to_string(),
        request_id: None,
        options: Vec::new(),
        allow_always: false,
    };
    book.set_awaiting_input(&info.id, Some(reason.clone()));
    assert_eq!(find(&book, &info.id).awaiting_input, Some(reason.clone()));
    assert_eq!(book.find_latest_by_task("task-a").unwrap().awaiting_input, Some(reason));

    book.set_awaiting_input(&info.id, None);
    assert!(find(&book, &info.id).awaiting_input.is_none());
    assert!(book.close(&info.id));
}

fn asking_screen() -> vt100::Parser {
    let mut parser = vt100::Parser::new(24, 80, 0);
    parser.process(b"Permission required: allow? ");
    parser
}

#[test]
fn detect_awaiting_input_requires_quiet() {
    let mut book = SessionBook::new();
    book.open(new_session("s1", None, false));
    let record = book.sessions.get("s1").unwrap();
    let parser = asking_screen();
    // Fresh output means the quiet gate is not satisfied yet.
    assert!(record.detect_awaiting_input(&sh(), parser.screen(), 250, 60_000).is_none());
    // Once quiet, the generic fallback classifies the prompt.
    let reason = record
        .detect_awaiting_input(&sh(), parser.screen(), 250, 1)
        .expect("prompt should be detected");
    assert_eq!(reason.kind, AwaitingInputKind::Permission);
}

#[test]
fn detect_awaiting_input_is_none_after_exit() {
    let mut book = SessionBook::new();
    book.open(new_session("s1", None, false));
    book.exited("s1", 0);
    assert_eq!(book.exit_code("s1"), Some(0));
    let record = book.sessions.get("s1").unwrap();
    assert!(record.detect_awaiting_input(&sh(), asking_screen().screen(), 250, 0).is_none());
}

#[test]
fn sessions_lock_survives_a_panicking_holder() {
    let mut book = SessionBook::new();
    assert!(book.sessions().is_empty());
    assert!(book.sessions.get("missing").is_none());
    assert!(!book.close("missing"));
}

#[test]
fn state_source_folds_live_state_and_reply_round_trips() {
    let mut book = SessionBook::new();
    book.open(new_session("s1", None, true));
    let request = InputRequest {
        id: "perm_1".to_string(),
        kind: AwaitingInputKind::Permission,
        message: "Allow?".to_string(),
        options: vec!["Allow".to_string()],
        allow_always: true,
    };
    book.apply("s1", &AgentStateEvent::InputRequested { request: request.clone() });
    let info = find(&book, "s1");
    assert_eq!(info.activity, Some(AgentActivity::Waiting { request }));
    let reason = info.awaiting_input.unwrap();
    assert_eq!(reason.request_id.as_deref(), Some("perm_1"));
    assert_eq!(reason.message, "Allow?");
    assert!(reason.allow_always);

    book.apply("s1", &AgentStateEvent::InputResolved { id: "perm_1".to_string() });
    assert!(find(&book, "s1").awaiting_input.is_none());

    let usage = AgentUsage { input_tokens: 3, ..Default::default() };
    book.apply("s1", &AgentStateEvent::Usage { usage: usage.clone() });
    assert_eq!(find(&book, "s1").usage, Some(usage));

    // A session without a source keeps the screen-only surface and rejects replies.
    assert!(no_input_channel("s2").contains("s2"));
}

#[test]
fn the_latest_session_of_a_task_is_found() {
    let mut book = SessionBook::new();
    book.open(new_session("b", Some("task"), false));
    book.open(new_session("a", Some("task"), false));
    book.open(new_session("c", Some("other"), false));
    assert_eq!(book.find_latest_by_task("task").unwrap().id, "a");
    assert!(book.find_latest_by_task("none").is_none());
    book.close("a");
    assert_eq!(book.find_latest_by_task("task").unwrap().id, "b");
}

#[test]
fn a_session_runs_until_it_exits() {
    let mut book = SessionBook::new();
    let mut new = new_session("s1", None, false);
    new.external_session_id = Some("ext".to_string());
    book.open(new);
    assert!(book.is_running("s1"));
    assert_eq!(book.external_session_id("s1").as_deref(), Some("ext"));
    book.exited("s1", 7);
    assert!(!book.is_running("s1"));
    assert_eq!(book.exit_code("s1"), Some(7));
    assert!(!find(&book, "s1").running);

    assert!(!book.is_running("missing"));
    assert_eq!(book.exit_code("missing"), None);
    assert!(unknown_session("missing").contains("missing"));
}

#[test]
fn identities_are_taken_from_the_stream() {
    let mut book = SessionBook::new();
    book.open(new_session("s1", None, true));
    let told = |id: &str| AgentStateEvent::Session {
        session_id: Some(id.to_string()),
        title: None,
        model: None,
    };
    book.apply("s1", &told("first"));
    assert_eq!(book.external_session_id("s1").as_deref(), Some("first"));
    book.apply("s1", &told("second"));
    assert_eq!(book.external_session_id("s1").as_deref(), Some("first"));
    let exit = AgentEvent::Exit { session_id: "s1".to_string(), code: Some(0) };
    assert_eq!(exit.session_id(), "s1");
}

#[test]
fn new_session_gets_a_random_id() {
    let first = NewSession::new("pi".to_string(), None, true, Some("ses".to_string()));
    let second = NewSession::new("pi".to_string(), None, true, None);
    assert_ne!(first.id, second.id);
    assert_eq!(first.id.len(), 36);
    for at in [8, 13, 18, 23] {
        assert_eq!(first.id.as_bytes()[at], b'-');
    }
    assert_eq!(first.id.as_bytes()[14], b'4');
    assert_eq!(first.agent, "pi");
    assert_eq!(first.external_session_id.as_deref(), Some("ses"));
    assert!(first.headless && !first.observed);
}

#[test]
fn a_captured_id_fills_an_empty_slot() {
    let mut book = SessionBook::new();
    book.open(new_session("a", None, false));
    book.capture_id("a", None);
    assert_eq!(book.external_session_id("a"), None);
    book.capture_id("a", Some("".to_string()));
    assert_eq!(book.external_session_id("a").as_deref(), Some(""));
    book.capture_id("a", Some("ses_1".to_string()));
    assert_eq!(book.external_session_id("a").as_deref(), Some(""));
    book.capture_id("missing", Some("ses_1".to_string()));
    assert_eq!(book.external_session_id("missing"), None);
}
