use favetto::agents::agent::{
    AgentCapabilities, AgentContext, CommandSpec, Invocation, RunOutput, SubmitStrategy,
};
use favetto::agents::pi::session_file::{
    cwd_slug, find_session_file, find_session_file_in, newest_session_file_in, parse_header,
    read_session_name, session_dirs, sessions_root, SessionFile,
};
use favetto::agents::pi::{PiAgent, PiReading, PiSource};
use favetto::agents::state::StateSourceConfig;
use favetto::config::AgentConfig;
use favetto::model::{IdleOutcome, Moment};

fn ctx(prompt: Option<&str>, provider: Option<&str>, model: Option<&str>) -> AgentContext {
    AgentContext {
        prompt: prompt.map(str::to_string),
        provider: provider.map(str::to_string),
        model: model.map(str::to_string),
        // A headless run always carries a deterministic id.
        session_id: Some("ses-1234".to_string()),
        ..Default::default()
    }
}

fn agent() -> PiAgent {
    PiAgent::from_config("pi", &AgentConfig::default())
}

fn capabilities() -> AgentCapabilities {
    agent().template.descriptor.capabilities
}

fn state_config(headless: bool, args: Vec<&str>) -> StateSourceConfig {
    StateSourceConfig {
        headless,
        args: args.into_iter().map(str::to_string).collect(),
        cwd: Some("/home/me/proj".to_string()),
        ..Default::default()
    }
}

fn interactive(prompt: Option<&str>, provider: Option<&str>, model: Option<&str>) -> CommandSpec {
    agent()
        .command(
            &Invocation::Interactive { prompt, provider, model },
            &ctx(prompt, provider, model),
        )
        .unwrap()
}

fn headless(prompt: &str, provider: Option<&str>, model: Option<&str>) -> CommandSpec {
    agent()
        .command(
            &Invocation::Headless { prompt, provider, model },
            &ctx(Some(prompt), provider, model),
        )
        .unwrap()
}

#[test]
fn capabilities_include_headless_model_state_and_permissions() {
    let caps = capabilities();
    assert!(caps.interactive);
    assert!(caps.headless);
    assert!(caps.model_selection);
    assert!(caps.resume);
    assert!(!caps.providers);
    assert!(!caps.structured_output);
    assert!(!caps.reports_session_id);
    assert!(!caps.prompt_prefill);
    assert!(caps.reports_state);
    assert!(caps.permission_channel);
}

#[test]
fn interactive_launches_bare_command() {
    let spec = interactive(None, None, None);
    assert_eq!(spec.program, "pi");
    assert!(spec.args.is_empty());
}

#[test]
fn pi_interactive_prompt_uses_prompt_args() {
    let spec = interactive(Some("hi"), None, None);
    assert_eq!(spec.args, vec!["hi"]);
    assert!(spec.stdin_prompt.is_none());
    assert!(matches!(spec.submit, SubmitStrategy::Never));
}

#[test]
fn pi_interactive_model_uses_provider_and_model() {
    let spec = interactive(None, Some("mistral"), Some("large"));
    assert_eq!(spec.args, vec!["--provider", "mistral", "--model", "large"]);
}

#[test]
fn headless_without_model_uses_rpc_args() {
    let spec = headless("do it", None, None);
    assert_eq!(spec.args, vec!["--mode", "rpc", "--session-id", "ses-1234"]);
    // The prompt is sent over RPC, not written to stdin.
    assert!(spec.stdin_prompt.is_none());
    assert!(!spec.stdin_eof);
}

#[test]
fn headless_with_model_uses_rpc_run_args() {
    let spec = headless("do it", Some("mistral"), Some("large"));
    assert_eq!(
        spec.args,
        vec![
            "--mode",
            "rpc",
            "--provider",
            "mistral",
            "--model",
            "large",
            "--session-id",
            "ses-1234"
        ]
    );
    assert!(spec.stdin_prompt.is_none());
    assert!(!spec.stdin_eof);
}

#[test]
fn resume_reopens_a_session_interactively() {
    let spec =
        agent().command(&Invocation::Resume("ses-1234"), &ctx(None, None, None)).unwrap();
    assert_eq!(spec.args, vec!["--session", "ses-1234"]);
    assert!(spec.stdin_prompt.is_none());
}

#[test]
fn headless_rpc_uses_a_state_source() {
    let spec = headless("do it", None, None);
    let args = spec.args.iter().map(|s| s.as_str()).collect();
    let source = agent().state_source(&state_config(true, args));
    assert!(matches!(source, Some(PiSource::Rpc(_))));
}

#[test]
fn interactive_uses_a_session_file_source() {
    // The interactive TUI has no RPC channel; its session file is tailed
    // when the launch working directory is known.
    assert!(matches!(
        agent().state_source(&state_config(false, vec![])),
        Some(PiSource::SessionFile(_))
    ));
    assert!(agent().state_source(&state_config(false, vec!["--session", "ses-1234"])).is_some());
    // Without a working directory there is nothing to tail: keep the screen
    // heuristic rather than pinning activity at "starting" forever.
    let no_cwd = StateSourceConfig { headless: false, ..Default::default() };
    assert!(agent().state_source(&no_cwd).is_none());
    // A headless launch that is not RPC (a user override) does too.
    assert!(agent().state_source(&state_config(true, vec!["-p", "{prompt}"])).is_none());
}

#[test]
fn parse_output_summarizes_an_rpc_stream() {
    let raw = [
        r#"{"type":"response","command":"get_state","success":true,"data":{"sessionId":"ses_pi"}}"#,
        "\n",
        r#"{"type":"agent_start"}"#,
        "\n",
        r#"{"type":"message_update","assistantMessageEvent":{"type":"text_delta","delta":"hi"}}"#,
        "\n",
        r#"{"type":"agent_settled"}"#,
        "\n",
    ]
    .join("");
    let result = match agent().parse_output(&raw, Some(0), &Vec::new()) {
        PiReading::Done(result) => result,
        PiReading::Asks(total, emitted) => panic!("asks about {total:?} and {emitted:?}"),
    };
    assert_eq!(result.session_id.as_deref(), Some("ses_pi"));
    match &result.output {
        RunOutput::Summary(summary) => {
            assert_eq!(summary.text, "hi");
            assert_eq!(summary.outcome, Some(IdleOutcome::Succeeded));
        }
        RunOutput::Text(text) => panic!("not summarized: {text}"),
    }
    assert_eq!(result.raw, raw);
}

#[test]
fn reading_asks_about_costs_one_by_one() {
    let stats = r#"{"type":"response","command":"get_session_stats","success":true,"data":{"tokens":{"input":5},"cost":0.1}}"#;
    let raw = format!("{stats}\n{{\"type\":\"agent_settled\"}}\n");
    assert!(matches!(
        agent().parse_output(&raw, Some(0), &Vec::new()),
        PiReading::Asks(Some(_), None)
    ));
    let taken = agent().parse_output(&raw, Some(0), &vec![true]);
    match taken {
        PiReading::Done(result) => match result.output {
            RunOutput::Summary(summary) => assert_eq!(summary.usage.input_tokens, 5),
            RunOutput::Text(text) => panic!("not summarized: {text}"),
        },
        PiReading::Asks(..) => panic!("asks again"),
    }
    let refused = agent().parse_output(&raw, Some(0), &vec![false]);
    match refused {
        PiReading::Done(result) => match result.output {
            RunOutput::Summary(summary) => assert_eq!(summary.usage.input_tokens, 0),
            RunOutput::Text(text) => panic!("not summarized: {text}"),
        },
        PiReading::Asks(..) => panic!("asks again"),
    }
}

fn file(name: &str, modified: Option<i64>) -> SessionFile {
    SessionFile {
        name: name.to_string(),
        path: format!("/root/{name}"),
        modified: modified.map(|seconds| Moment { seconds, nanos: 0 }),
    }
}

#[test]
fn session_title_reads_the_session_file() {
    let listed = vec![file("111_ses-1234.jsonl", None)];
    assert_eq!(
        agent().session_file(Some(&listed), "ses-1234").as_deref(),
        Some("/root/111_ses-1234.jsonl")
    );
    let data = [
        r#"{"type":"session","version":3,"id":"ses-1234","cwd":"/home/me/proj"}"#,
        "\n",
        r#"{"type":"session_info","id":"a","name":"Fix the bug"}"#,
        "\n",
    ]
    .join("");
    assert_eq!(agent().session_title(data.as_bytes()).as_deref(), Some("Fix the bug"));
    assert!(agent().has_session_titles());
}

#[test]
fn cwd_slug_normalizes_separators() {
    assert_eq!(cwd_slug("/home/me/proj"), "home-me-proj");
    assert_eq!(cwd_slug("\\home\\me"), "home-me");
    assert_eq!(cwd_slug("C:\\Users\\me"), "C--Users-me");
}

#[test]
fn parse_header_reads_id_and_cwd() {
    let header = parse_header(
        r#"{"type":"session","version":3,"id":"ses_1","timestamp":"2024-12-03T14:00:00.000Z","cwd":"/p"}"#,
    )
    .unwrap();
    assert_eq!(header.id, "ses_1");
    assert_eq!(header.cwd.as_deref(), Some("/p"));

    assert!(parse_header(r#"{"type":"message","id":"x"}"#).is_none());
    assert!(parse_header("not json").is_none());
    assert!(parse_header(r#"{"type":"session"}"#).is_none());
}

#[test]
fn find_session_file_picks_the_newest_match() {
    let listed = vec![
        file("111_ses_a.jsonl", None),
        file("222_ses_a.jsonl", None),
        file("333_other.jsonl", None),
    ];
    assert_eq!(
        find_session_file_in(&listed, "ses_a").as_deref(),
        Some("/root/222_ses_a.jsonl")
    );
    assert!(find_session_file_in(&listed, "missing").is_none());
    assert!(find_session_file(None, "ses_a").is_none());
}

#[test]
fn find_session_file_tolerates_the_unwrapped_dir() {
    // Both spellings of a project's directory are listed.
    assert_eq!(
        session_dirs("/root", "/home/me/proj"),
        ["/root/--home-me-proj--".to_string(), "/root/home-me-proj".to_string()]
    );
    let listed = vec![file("111_ses_a.jsonl", None)];
    assert_eq!(
        find_session_file(Some(&listed), "ses_a").as_deref(),
        Some("/root/111_ses_a.jsonl")
    );
}

#[test]
fn read_session_name_keeps_the_last_non_empty_name() {
    let data = [
        r#"{"type":"session","version":3,"id":"ses_1"}"#,
        "\n",
        r#"{"type":"session_info","id":"a","name":"First"}"#,
        "\n",
        r#"{"type":"session_info","id":"b","name":"   "}"#,
        "\n",
        r#"{"type":"session_info","id":"c","name":"Refactor auth"}"#,
        "\n",
    ]
    .join("");
    assert_eq!(read_session_name(data.as_bytes()).as_deref(), Some("Refactor auth"));
}

#[test]
fn read_session_name_is_none_without_a_session_info() {
    assert!(read_session_name(br#"{"type":"session","id":"ses_1"}"#).is_none());
}

#[test]
fn newest_session_file_respects_the_baseline() {
    let mut listed = vec![file("100_old.jsonl", Some(1000))];
    // No file is at or after a baseline in the future.
    assert!(newest_session_file_in(&listed, Some(Moment { seconds: 4600, nanos: 0 })).is_none());
    // A baseline in the past still finds the existing file.
    assert_eq!(
        newest_session_file_in(&listed, Some(Moment { seconds: -2600, nanos: 0 })).as_deref(),
        Some("/root/100_old.jsonl")
    );

    listed.push(file("200_new.jsonl", Some(1001)));
    assert_eq!(newest_session_file_in(&listed, None).as_deref(), Some("/root/200_new.jsonl"));
}

#[test]
fn the_session_root_follows_the_home() {
    assert_eq!(sessions_root(Some("/pi"), Some("/home/me")).as_deref(), Some("/pi/agent/sessions"));
    assert_eq!(
        sessions_root(None, Some("/home/me")).as_deref(),
        Some("/home/me/.pi/agent/sessions")
    );
    assert!(sessions_root(None, None).is_none());
}
