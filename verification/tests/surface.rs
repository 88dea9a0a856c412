use favetto::catalog_watch::{
    event_relevant, retarget, watch_places, watch_target, Debounce, Sign,
};
use favetto::chat::{
    skill_prompt_path, sought_task, unknown_chat, ChatManager, ChatMessage, ChatTask,
    ModelResponse,
    DEFAULT_PROMPT,
};
use favetto::cli::{
    Cli, Command, DaemonArgs, DocArgs, PairArgs, TokenRotateArgs, TuiArgs,
};
use favetto::client::{
    ws_action, ws_request, ClientError, FrameKind, Pending, Route, Transport, WsAction, WsKind,
};
use favetto::model::MessageRole;

#[test]
fn commands_have_their_names() {
    let cli = Cli {
        command: Command::Daemon(DaemonArgs {
            config: None,
            socket: None,
            listen: None,
            data_dir: None,
            tasks_dir: None,
        }),
    };
    assert_eq!(cli.command.name(), "daemon");
    let tui = Command::Tui(TuiArgs {
        remote: None,
        token_file: None,
        socket: None,
        pair_code: None,
        config: None,
        sound: false,
        no_sound: false,
        sound_command: None,
        test_sound: false,
    });
    assert_eq!(tui.name(), "tui");
    assert_eq!(Command::Pair(PairArgs::default()).name(), "pair");
    assert_eq!(PairArgs::default().url, "http://127.0.0.1:7878");
    assert_eq!(Command::TokenRotate(TokenRotateArgs { data_dir: None }).name(), "token-rotate");
    assert_eq!(Command::Doc(DocArgs { docs_dir: None }).name(), "__doc");
    assert_eq!(Command::InternalAgentExec { argv: Vec::new() }.name(), "__agent-exec");
}

#[test]
fn a_token_travels_as_a_bearer() {
    assert_eq!(
        ws_request("ws://host/rpc", Some("secret")),
        Ok(("ws://host/rpc".to_string(), Some("Bearer secret".to_string())))
    );
    assert_eq!(ws_request("ws://host/rpc", None), Ok(("ws://host/rpc".to_string(), None)));
    assert_eq!(ws_request("wss://host/rpc", None), Err(ClientError::TlsNotEnabled));
    assert!(ClientError::TlsNotEnabled.message().contains("wss://"));
    assert_eq!(ClientError::ConnectionClosed.message(), "connection closed before response");
    assert_eq!(ClientError::TimedOut.message(), "request timed out");
    assert_ne!(
        Transport::Unix("/run/f.sock".to_string()),
        Transport::Ws { url: "ws://h".to_string(), token: None }
    );
}

#[test]
fn answers_go_to_their_requests() {
    let mut pending = Pending::new();
    let first = pending.begin();
    let second = pending.begin();
    assert_eq!((first, second), (1, 2));
    assert_eq!(pending.route(FrameKind::Response { id: second }), Route::Answer { id: second });
    // An answer is taken once, and one that nobody waits for is dropped.
    assert_eq!(pending.route(FrameKind::Response { id: second }), Route::Drop);
    assert_eq!(pending.route(FrameKind::Response { id: 9 }), Route::Drop);
    assert_eq!(pending.route(FrameKind::Notification), Route::Push);
    assert_eq!(pending.route(FrameKind::Request), Route::Drop);
    assert_eq!(pending.route(FrameKind::Response { id: first }), Route::Answer { id: first });
}

#[test]
fn messages_are_read_by_their_kind() {
    assert_eq!(ws_action(WsKind::Binary), WsAction::Decode);
    assert_eq!(ws_action(WsKind::Text), WsAction::Decode);
    assert_eq!(ws_action(WsKind::Close), WsAction::End);
    assert_eq!(ws_action(WsKind::Control), WsAction::Skip);
}

fn says(role: MessageRole, text: &str) -> ChatMessage {
    ChatMessage::new(role, text.to_string())
}

#[test]
fn a_conversation_begins_with_its_task() {
    let mut chats = ChatManager::new();
    let plain = chats.open_as("c1".to_string(), None, None);
    assert_eq!(
        plain.messages,
        vec![says(MessageRole::System, DEFAULT_PROMPT), says(MessageRole::User, "Hello!")]
    );
    let task = ChatTask {
        id: "t1".to_string(),
        skill: "fix".to_string(),
        skill_prompt: Some("Fix things.".to_string()),
    };
    let tied = chats.open_as("c2".to_string(), Some("t1".to_string()), Some(task));
    assert_eq!(
        tied.messages,
        vec![
            says(MessageRole::System, "Fix things."),
            says(MessageRole::User, "Task: fix (t1)")
        ]
    );
    assert_eq!(tied.task_id.as_deref(), Some("t1"));
    assert_eq!(skill_prompt_path("/skills", "fix"), "/skills/fix/AGENT.md");
}

#[test]
fn a_conversation_grows_turn_by_turn() {
    let mut chats = ChatManager::new();
    let id = chats.open(None, None).id;
    assert_eq!(id.len(), 36);
    assert_ne!(id, chats.open(None, None).id);
    assert!(chats.say(&id, "hi"));
    assert!(chats.answer(&id, ModelResponse::Final { text: "hello".to_string() }));
    let arguments = serde_json::Value::Array(vec![serde_json::Value::from(1)]);
    assert!(chats.answer(
        &id,
        ModelResponse::ToolCall { server: "s".to_string(), tool: "t".to_string(), arguments },
    ));
    assert_eq!(
        chats.messages(&id).messages[2..],
        [
            says(MessageRole::User, "hi"),
            says(MessageRole::Assistant, "hello"),
            says(
                MessageRole::Assistant,
                "[tool call s.t([1]) \u{2014} not available in chat yet]"
            ),
        ]
    );
    assert!(!chats.say("missing", "hi"));
    assert!(chats.messages("missing").messages.is_empty());
    assert_eq!(unknown_chat("missing"), "no chat session 'missing'");
}

#[test]
fn the_nearest_place_that_exists_is_watched() {
    assert_eq!(watch_places("/a/b"), vec!["/a/b", "/a", "/"]);
    assert_eq!(watch_places("a/b"), vec!["a/b", "a", ""]);
    assert_eq!(watch_target("/a/b", &|p: &str| p == "/a/b" || p == "/"), "/a/b");
    assert_eq!(watch_target("/a/b", &|p: &str| p == "/"), "/");
    assert_eq!(watch_target("a/b", &|_: &str| false), ".");
    // Once the directory appears, it is watched itself.
    assert_eq!(retarget("/a", "/a/b", &|_: &str| true).as_deref(), Some("/a/b"));
    assert_eq!(retarget("/a/b", "/a/b", &|_: &str| true), None);
    assert_eq!(retarget("/a/b", "/a/b", &|p: &str| p == "/a").as_deref(), Some("/a"));
}

#[test]
fn only_changes_of_tasks_matter() {
    let changed = |paths: &[&str]| paths.iter().map(|p| p.to_string()).collect::<Vec<_>>();
    assert!(event_relevant(&changed(&[])));
    assert!(event_relevant(&changed(&["/t/a.md"])));
    assert!(event_relevant(&changed(&["/t/a.MD"])));
    assert!(event_relevant(&changed(&["/t/folder"])));
    assert!(!event_relevant(&changed(&["/t/a.swp"])));
    assert!(event_relevant(&changed(&["/t/a.swp", "/t/b.md"])));
}

#[test]
fn a_burst_of_changes_reloads_once() {
    let mut debounce = Debounce::Idle;
    let mut reloads = 0;
    for sign in [Sign::Changed, Sign::Changed, Sign::Changed, Sign::Quiet, Sign::Quiet] {
        if debounce.step(sign) {
            reloads += 1;
        }
    }
    assert_eq!(reloads, 1);
    assert!(!debounce.step(Sign::Closed));
    assert_eq!(debounce, Debounce::Ended);
    assert!(!debounce.step(Sign::Changed));
    assert!(!debounce.step(Sign::Quiet));
}

#[test]
fn a_task_counts_only_under_an_id_that_names_one() {
    let id = "550e8400-e29b-41d4-a716-446655440000";
    let number = 0x550e8400_e29b_41d4_a716_446655440000;
    assert_eq!(sought_task(&Some(id.to_string())), Some(number));
    assert_eq!(sought_task(&Some(id.to_uppercase().replace('-', ""))), Some(number));
    assert_eq!(sought_task(&Some("t1".to_string())), None);
    assert_eq!(sought_task(&None), None);

    let task = || {
        Some(ChatTask { id: id.to_string(), skill: "fix".to_string(), skill_prompt: None })
    };
    let mut chats = ChatManager::new();
    let tied = chats.open(Some(id.to_string()), task());
    assert_eq!(
        tied.messages,
        vec![
            says(MessageRole::System, DEFAULT_PROMPT),
            says(MessageRole::User, &format!("Task: fix ({id})"))
        ]
    );
    let loose = chats.open(Some("t1".to_string()), task());
    assert_eq!(loose.messages[1], says(MessageRole::User, "Hello!"));
    assert_eq!(loose.task_id.as_deref(), Some("t1"));
}
