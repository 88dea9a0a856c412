use favetto::agents::agent::{
    append_template, check_arg_sizes, extract_session_id, extract_session_id_from_line,
    extract_session_id_from_lines, substitute, text_json, title_attempts, title_step, AgentContext,
    AgentRunResult, LaunchError, RunOutput, SessionIdProbe, SubmitStrategy, TitleStep,
    MAX_ARG_BYTES,
};
use favetto::agents::configurable::kept_as_text;
use favetto::json::parse;
use favetto::model::RunSummary;

fn strings(parts: &[&str]) -> Vec<String> {
    parts.iter().map(|part| part.to_string()).collect()
}

fn key(name: &str) -> SessionIdProbe {
    SessionIdProbe::JsonKey(name.to_string())
}

#[test]
fn substitute_renders_placeholders() {
    let template = vec![
        "run".to_string(),
        "--model".to_string(),
        "{provider}/{model}".to_string(),
    ];
    let rendered = substitute(&template, &[("{provider}", "jev"), ("{model}", "1.13")]);
    assert_eq!(rendered, vec!["run", "--model", "jev/1.13"]);
}

#[test]
fn append_template_detects_prompt_placeholder() {
    let mut args = vec!["base".to_string()];
    let template = vec!["--prompt".to_string(), "{prompt}".to_string()];
    assert!(append_template(&mut args, &template, &[("{prompt}", "hi")]));
    assert_eq!(args, vec!["base", "--prompt", "hi"]);

    let mut args = Vec::new();
    assert!(!append_template(&mut args, &vec!["--auto".to_string()], &[]));
    assert_eq!(args, vec!["--auto"]);
}

#[test]
fn check_arg_sizes_rejects_an_oversized_argument() {
    assert!(check_arg_sizes("agent", &vec!["a".to_string()]).is_ok());

    let big = "x".repeat(MAX_ARG_BYTES + 1);
    let err = check_arg_sizes("opencode", &vec!["run".to_string(), big]).unwrap_err();
    let message = err.message();
    assert!(message.contains("opencode"), "error: {message}");
    assert!(message.contains("command-line limit"), "error: {message}");
}

#[test]
fn the_argument_limit_counts_bytes() {
    let exact = "x".repeat(MAX_ARG_BYTES);
    assert!(check_arg_sizes("agent", &vec![exact]).is_ok());

    // Two bytes per letter: half the letters fill the limit.
    let wide = "é".repeat(MAX_ARG_BYTES / 2);
    assert!(check_arg_sizes("agent", &vec![wide]).is_ok());
    let wider = "é".repeat(MAX_ARG_BYTES / 2 + 1);
    assert_eq!(
        check_arg_sizes("agent", &vec![wider]),
        Err(LaunchError::ArgumentTooLong {
            program: "agent".to_string(),
            bytes: MAX_ARG_BYTES + 2,
        })
    );
}

#[test]
fn extract_session_id_reads_top_level_key() {
    let value = parse(r#"{"sessionID":"ses_top","part":{"session":{"id":"ses_nested"}}}"#).unwrap();
    assert_eq!(extract_session_id(&value, &key("sessionID")).as_deref(), Some("ses_top"));
    assert_eq!(extract_session_id(&value, &key("missing")), None);
}

#[test]
fn extract_session_id_from_line_rejects_non_json() {
    assert_eq!(extract_session_id_from_line("not json", &key("id")), None);
    assert_eq!(
        extract_session_id_from_line(r#"{"id":"ses_abc"}"#, &key("id")).as_deref(),
        Some("ses_abc")
    );
}

#[test]
fn the_first_line_with_an_id_names_the_session() {
    let raw = "noise\n{\"id\":7}\n{\"id\":\"first\"}\n{\"id\":\"second\"}\n";
    assert_eq!(extract_session_id_from_lines(raw, &key("id")).as_deref(), Some("first"));
    assert_eq!(extract_session_id_from_lines("noise\n", &key("id")), None);
}

#[test]
fn default_parse_output_wraps_text() {
    let result = kept_as_text("hello", Some(0), None);
    assert_eq!(
        result,
        AgentRunResult {
            exit_code: Some(0),
            session_id: None,
            output: RunOutput::Text("hello".to_string()),
            raw: "hello".to_string(),
        }
    );
    let wrapped = parse(r#"{ "text": "hello" }"#).unwrap();
    assert_eq!(result.output.text_form(), Some(wrapped));
    assert_eq!(RunOutput::Summary(RunSummary::default()).text_form(), None);
    assert_eq!(text_json("a \"b\"\n"), parse(r#"{"text":"a \"b\"\n"}"#).unwrap());
}

/// Asks for a title as long as another attempt is due, with the first
/// `fail_first` lookups finding none; also counts the lookups.
fn resolve(has_titles: bool, fail_first: u32, attempts: u32) -> (Option<String>, u32) {
    let times = title_attempts(has_titles, "ses_1", attempts);
    let mut calls = 0;
    while calls < times {
        let answer = if calls >= fail_first { Some("Late title") } else { None };
        let attempt = calls;
        calls += 1;
        match title_step(answer, attempt, times) {
            TitleStep::Found(title) => return (Some(title), calls),
            TitleStep::Wait => {}
            TitleStep::GiveUp => break,
        }
    }
    (None, calls)
}

#[test]
fn resolve_session_title_retries_until_available() {
    let (title, calls) = resolve(true, 2, 5);
    assert_eq!(title.as_deref(), Some("Late title"));
    assert_eq!(calls, 3, "should stop polling as soon as a title appears");
}

#[test]
fn resolve_session_title_gives_up_after_attempts() {
    let (title, calls) = resolve(true, 99, 3);
    assert!(title.is_none());
    assert_eq!(calls, 3);
}

#[test]
fn resolve_session_title_skips_agents_without_titles() {
    let (title, calls) = resolve(false, 0, 5);
    assert!(title.is_none());
    assert_eq!(calls, 0);
}

#[test]
fn no_title_is_looked_up_for_a_nameless_session() {
    assert_eq!(title_attempts(true, "", 5), 0);
    assert_eq!(title_attempts(true, "ses_1", 5), 5);
}

#[test]
fn launch_errors_name_the_agent() {
    let agent = "mycli".to_string();
    for err in [
        LaunchError::NoCommand { agent: agent.clone() },
        LaunchError::NoRunArgs { agent: agent.clone() },
        LaunchError::NoHeadlessArgs { agent: agent.clone() },
        LaunchError::NoResumeArgs { agent: agent.clone() },
    ] {
        assert!(err.message().contains("mycli"), "error: {}", err.message());
    }
}

#[test]
fn placeholders_are_filled_in_order() {
    // The value of an earlier placeholder is itself open to the later ones.
    let rendered = substitute(&strings(&["{a}"]), &[("{a}", "{b}"), ("{b}", "c")]);
    assert_eq!(rendered, vec!["c"]);
    let rendered = substitute(&strings(&["{a}{a}", "plain"]), &[("{a}", "x")]);
    assert_eq!(rendered, vec!["xx", "plain"]);
}

#[test]
fn a_fresh_context_knows_nothing() {
    let ctx = AgentContext::default();
    assert!(ctx.cwd.is_none());
    assert!(ctx.prompt.is_none());
    assert!(ctx.session_id.is_none());
    assert!(!ctx.managed_session);
    assert_ne!(SubmitStrategy::Never, SubmitStrategy::AfterSettle { delay: 1200, max_sends: 8 });
}
