use favetto::agents::pi::rpc::{write_reply, PiCommand, PiRpcClient, PiRpcSource};
use favetto::agents::state::InputReply;
use favetto::json::{parse, Json};
use favetto::model::{AgentStateEvent, AwaitingInputKind, InputRequest};

fn json(text: &str) -> Json {
    parse(text).expect("each written line is JSON")
}

fn written(commands: &[PiCommand]) -> String {
    commands.iter().map(|command| command.line.as_str()).collect()
}

fn started(prompt: Option<&str>) -> Vec<PiCommand> {
    PiRpcSource::new().start(&prompt.map(str::to_string)).0
}

#[test]
fn start_sends_get_state_and_prompt_jsonl() {
    let commands = started(Some("do it"));
    let raw = written(&commands);
    assert!(!raw.contains('\r'), "commands must not contain CR: {raw:?}");
    assert!(raw.ends_with('\n'), "commands must end with LF: {raw:?}");

    let lines: Vec<Json> = raw.lines().map(json).collect();
    assert_eq!(lines.len(), 2);
    assert_eq!(lines[0].text("type"), "get_state");
    assert_eq!(lines[1].text("type"), "prompt");
    assert_eq!(lines[1].text("message"), "do it");
    assert_eq!(lines[0].text("id"), commands[0].id);
    assert_ne!(lines[0].get("id"), lines[1].get("id"));
}

#[test]
fn start_without_prompt_only_sends_get_state() {
    let commands = started(None);
    assert_eq!(commands.len(), 1);
    assert_eq!(json(&commands[0].line).text("type"), "get_state");
    assert_eq!(PiRpcSource::new().label(), "pi-rpc");
}

#[test]
fn responder_writes_value_confirm_and_cancel_responses() {
    for (id, reply, key, expected) in [
        (
            "ui-1",
            InputReply::Value { value: "Allow".to_string() },
            "value",
            Json::Str("Allow".to_string()),
        ),
        ("ui-2", InputReply::Confirmed { confirmed: false }, "confirmed", Json::Bool(false)),
        ("ui-3", InputReply::Cancelled, "cancelled", Json::Bool(true)),
        ("ui-4", InputReply::Reject, "cancelled", Json::Bool(true)),
        ("ui-5", InputReply::Once, "value", Json::Str("Allow".to_string())),
    ] {
        let (text, _) = write_reply(id, &reply);
        assert!(text.ends_with('\n'));
        let line = json(&text);
        assert_eq!(line.text("type"), "extension_ui_response");
        assert_eq!(line.text("id"), id);
        assert_eq!(line.get(key), Some(&expected));
    }
}

#[test]
fn responder_emits_input_resolved() {
    let (_, event) = write_reply("ui-9", &InputReply::Value { value: "ok".to_string() });
    assert_eq!(event, AgentStateEvent::InputResolved { id: "ui-9".to_string() });
}

#[test]
fn client_commands_are_compact_json_lines() {
    let mut client = PiRpcClient::new();
    let commands =
        [client.get_state(), client.prompt("hi"), client.get_messages(), client.abort()];
    let lines: Vec<Json> = commands.iter().map(|command| json(&command.line)).collect();
    let types: Vec<&str> = lines.iter().map(|line| line.text("type")).collect();
    assert_eq!(types, vec!["get_state", "prompt", "get_messages", "abort"]);
    // Ids are unique and every command is one LF-terminated line.
    let ids: Vec<&str> = lines.iter().map(|line| line.text("id")).collect();
    let mut unique = ids.clone();
    unique.sort();
    unique.dedup();
    assert_eq!(unique.len(), ids.len());
    for command in &commands {
        assert_eq!(command.line.matches('\n').count(), 1);
        assert!(command.line.ends_with('\n'));
        assert!(!command.line.contains(": "), "compact: {}", command.line);
    }
}

#[test]
fn a_prompt_is_quoted() {
    let mut client = PiRpcClient::new();
    let command = client.prompt("say \"hi\"\nand go");
    assert_eq!(command.line.matches('\n').count(), 1);
    assert_eq!(json(&command.line).text("message"), "say \"hi\"\nand go");
}

#[test]
fn scripted_stream_drives_events_and_prompt_reply_round_trips() {
    let (commands, _, mut stdout) = PiRpcSource::new().start(&Some("do it".to_string()));
    assert_eq!(commands.len(), 2);
    stdout.push(
        br#"{"type":"extension_ui_request","id":"ui-1","method":"select","title":"Allow?","options":["Allow","Block"]}"#,
    );
    stdout.push(b"\n");
    assert_eq!(
        stdout.events(),
        &[AgentStateEvent::InputRequested {
            request: InputRequest {
                id: "ui-1".to_string(),
                kind: AwaitingInputKind::Choice,
                message: "Allow?".to_string(),
                options: vec!["Allow".to_string(), "Block".to_string()],
                allow_always: false,
            },
        }]
    );

    let (text, event) = write_reply("ui-1", &InputReply::Value { value: "Allow".to_string() });
    let response = json(&text);
    assert_eq!(response.text("type"), "extension_ui_response");
    assert_eq!(response.text("id"), "ui-1");
    assert_eq!(response.text("value"), "Allow");
    assert_eq!(event, AgentStateEvent::InputResolved { id: "ui-1".to_string() });
}
