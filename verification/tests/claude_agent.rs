use favetto::agent_hooks::AgentHookLaunch;
use favetto::agents::agent::{
    text_json, AgentCapabilities, AgentContext, CommandSpec, Invocation, RunOutput,
    SubmitStrategy,
};
use favetto::agents::claude::hooks::{HOOK_SETTINGS_ENV, HOOK_URL_ENV};
use favetto::agents::claude::ClaudeAgent;
use favetto::agents::product::{command_name, title_name};
use favetto::config::AgentConfig;
use favetto::json::parse;
use favetto::model::{AwaitingInputKind, IdleOutcome};

fn ctx(prompt: Option<&str>, model: Option<&str>) -> AgentContext {
    AgentContext {
        prompt: prompt.map(str::to_string),
        model: model.map(str::to_string),
        ..Default::default()
    }
}

fn agent() -> ClaudeAgent {
    ClaudeAgent::from_config(&command_name(), &AgentConfig::default())
}

fn capabilities() -> AgentCapabilities {
    agent().template.descriptor.capabilities
}

fn interactive(prompt: Option<&str>, model: Option<&str>) -> CommandSpec {
    agent()
        .command(&Invocation::Interactive { prompt, provider: None, model }, &ctx(prompt, model))
        .unwrap()
}

fn headless(prompt: &str, model: Option<&str>) -> CommandSpec {
    agent()
        .command(&Invocation::Headless { prompt, provider: None, model }, &ctx(Some(prompt), model))
        .unwrap()
}

#[test]
fn claude_capabilities_match_the_example_config() {
    let caps = capabilities();
    assert!(caps.interactive);
    assert!(caps.headless);
    assert!(caps.model_selection);
    assert!(!caps.resume);
    assert!(!caps.providers);
    assert!(caps.reports_session_id);
    assert!(caps.structured_output);
    assert!(caps.reports_state);
    assert!(!caps.permission_channel);
}

#[test]
fn the_product_has_two_spellings() {
    assert_eq!(command_name().chars().rev().collect::<String>(), "edualc");
    assert_eq!(title_name().chars().rev().collect::<String>(), "edualC");
}

#[test]
fn empty_base_config_for_interactive_without_prompt() {
    let spec = interactive(None, None);
    assert_eq!(spec.program, command_name());
    assert!(spec.args.is_empty());
}

#[test]
fn claude_interactive_prompt_uses_prompt_args() {
    let spec = interactive(Some("hi"), None);
    assert_eq!(spec.args, vec!["hi"]);
    assert!(spec.stdin_prompt.is_none());
    assert_eq!(spec.submit, SubmitStrategy::Never);
}

#[test]
fn interactive_model_uses_interactive_model_args() {
    let spec = interactive(None, Some("sonnet"));
    assert_eq!(spec.args, vec!["--model", "sonnet"]);
}

#[test]
fn headless_paths_match_the_example_config() {
    let stream = [
        "--output-format",
        "stream-json",
        "--verbose",
        "--include-partial-messages",
    ];
    let no_model = headless("do it", None);
    let mut expected = vec!["-p"];
    expected.extend(stream);
    expected.push("do it");
    assert_eq!(no_model.args, expected);

    let with_model = headless("do it", Some("sonnet"));
    let mut expected = vec!["-p", "--model", "sonnet"];
    expected.extend(stream);
    expected.push("do it");
    assert_eq!(with_model.args, expected);
}

#[test]
fn claude_parse_output_returns_a_run_summary() {
    let raw = [
        r#"{"type":"system","subtype":"init","session_id":"ses_9","model":"PRODUCT"}"#,
        "\n",
        r#"{"type":"assistant","message":{"content":[{"type":"text","text":"hi"}]}}"#,
        "\n",
        r#"{"type":"result","subtype":"success","is_error":false,"result":"done","session_id":"ses_9","total_cost_usd":0.01,"usage":{"input_tokens":2}}"#,
        "\n",
    ]
    .join("")
    .replace("PRODUCT", &command_name());
    let result = agent().parse_output(&raw, Some(0));
    assert_eq!(result.session_id.as_deref(), Some("ses_9"));
    match &result.output {
        RunOutput::Summary(summary) => {
            assert_eq!(summary.session_id.as_deref(), Some("ses_9"));
            assert_eq!(summary.text, "done");
            assert_eq!(summary.outcome, Some(IdleOutcome::Succeeded));
            assert_eq!(summary.usage.input_tokens, 2);
        }
        RunOutput::Text(text) => panic!("not summarized: {text}"),
    }
    assert_eq!(result.raw, raw);
    assert_eq!(result.exit_code, Some(0));
}

#[test]
fn parse_output_falls_back_to_text_for_screen_output() {
    let result = agent().parse_output("hello from the TUI\n", Some(0));
    assert_eq!(result.output, RunOutput::Text("hello from the TUI\n".to_string()));
    assert_eq!(result.output.text_form(), Some(text_json("hello from the TUI\n")));
    assert!(result.session_id.is_none());
    assert_eq!(result.raw, "hello from the TUI\n");
}

#[test]
fn hook_injection_writes_a_settings_file() {
    let launch = AgentHookLaunch {
        endpoint: format!("http://127.0.0.1:7878/agent-hooks/{}", command_name()),
        dir: "/data/hooks".to_string(),
    };
    let (path, body, injection) = agent().hook_injection(&launch);
    assert_eq!(injection.args[0], "--settings");
    assert_eq!(injection.args[1], path);
    assert!(path.starts_with("/data/hooks/"));
    assert!(parse(&body).is_some());
    assert!(injection.env.contains_key(HOOK_URL_ENV));
    assert!(injection.env.contains_key(HOOK_SETTINGS_ENV));
}

#[test]
fn detects_confirmation_dialog_once_screen_rendered() {
    let mut parser = vt100::Parser::new(12, 70, 0);
    parser.process("Do you want to proceed?\r\n❯ 1. Yes\r\n  2. No\r\nEsc to cancel".as_bytes());
    let reason = agent().awaiting_input(parser.screen());
    assert_eq!(reason.map(|r| r.kind), Some(AwaitingInputKind::Confirmation));
}

#[test]
fn claude_idle_screen_is_not_awaiting() {
    let mut parser = vt100::Parser::new(12, 70, 0);
    parser.process(b"Ready for your next task");
    assert!(agent().awaiting_input(parser.screen()).is_none());
}
