use favetto::agents::agent::{
    AgentCapabilities, AgentContext, CommandSpec, Invocation, RunOutput, SubmitStrategy,
};
use favetto::agents::opencode::server::{
    create_session_body, created_session, prompt_request, read_created, CreateError, Endpoint,
    ManagedServer,
};
use favetto::agents::opencode::{
    insert_server_args, interactive_turn_done_from_json, session_title_from_json, OpenCodeAgent,
    OpenCodeProviderSource, PASSWORD_ENV,
};
use favetto::agents::state::StateSourceConfig;
use favetto::config::AgentConfig;
use favetto::json::{parse, Json};
use favetto::model::{AwaitingInputKind, IdleOutcome, RunSummary};

fn ctx(prompt: Option<&str>, provider: Option<&str>, model: Option<&str>) -> AgentContext {
    AgentContext {
        prompt: prompt.map(str::to_string),
        provider: provider.map(str::to_string),
        model: model.map(str::to_string),
        ..Default::default()
    }
}

fn agent() -> OpenCodeAgent {
    OpenCodeAgent::from_config("opencode", &AgentConfig::default())
}

fn capabilities() -> AgentCapabilities {
    agent().template.descriptor.capabilities
}

fn endpoint() -> Endpoint {
    Endpoint { url: "http://127.0.0.1:9".to_string(), password: "pw".to_string() }
}

/// The endpoint of a managed server that runs.
fn install_endpoint() -> Option<Endpoint> {
    let mut server = ManagedServer::new();
    server.started(endpoint(), "opencode");
    server.endpoint()
}

fn interactive<'a>(
    prompt: Option<&'a str>,
    provider: Option<&'a str>,
    model: Option<&'a str>,
) -> Invocation<'a> {
    Invocation::Interactive { prompt, provider, model }
}

fn headless<'a>(
    prompt: &'a str,
    provider: Option<&'a str>,
    model: Option<&'a str>,
) -> Invocation<'a> {
    Invocation::Headless { prompt, provider, model }
}

fn spec(invocation: &Invocation<'_>, ctx: &AgentContext, ep: &Option<Endpoint>) -> CommandSpec {
    agent().command(invocation, ctx, ep).unwrap()
}

fn summary_of(output: &RunOutput) -> &RunSummary {
    match output {
        RunOutput::Summary(summary) => summary,
        RunOutput::Text(text) => panic!("not summarized: {text}"),
    }
}

#[test]
fn interactive_without_prompt_uses_base_args() {
    let spec = spec(&interactive(None, None, None), &ctx(None, None, None), &None);
    assert_eq!(spec.program, "opencode");
    assert!(spec.args.is_empty());
    assert!(spec.stdin_prompt.is_none());
    assert_eq!(spec.submit, SubmitStrategy::Never);
}

#[test]
fn opencode_interactive_prompt_is_prefilled_and_submitted() {
    let spec = spec(&interactive(Some("hi"), None, None), &ctx(Some("hi"), None, None), &None);
    assert_eq!(spec.args, vec!["--prompt", "hi"]);
    assert!(spec.stdin_prompt.is_none());
    assert!(matches!(spec.submit, SubmitStrategy::AfterSettle { .. }));
}

#[test]
fn interactive_model_uses_mini_entrypoint() {
    let spec = spec(
        &interactive(None, Some("jev"), Some("1.13")),
        &ctx(None, Some("jev"), Some("1.13")),
        &None,
    );
    assert_eq!(spec.args, vec!["mini", "--model", "jev/1.13"]);
}

#[test]
fn headless_without_model_uses_headless_args() {
    let spec = spec(&headless("do it", None, None), &ctx(Some("do it"), None, None), &None);
    assert_eq!(spec.args, vec!["run", "--auto", "do it"]);
    assert!(spec.stdin_eof);
    assert!(spec.stdin_prompt.is_none());
}

#[test]
fn headless_with_model_uses_run_args() {
    let spec = spec(
        &headless("do it", Some("jev"), Some("1.13")),
        &ctx(Some("do it"), Some("jev"), Some("1.13")),
        &None,
    );
    assert_eq!(
        spec.args,
        vec!["run", "--model", "jev/1.13", "--auto", "--format", "json", "do it"]
    );
}

/// A headless run whose session was created on the managed server targets
/// that server session, so the panel can attach to it concurrently.
#[test]
fn headless_with_managed_server_targets_the_session() {
    let endpoint = install_endpoint();
    let ctx = AgentContext {
        session_id: Some("ses_1".to_string()),
        managed_session: true,
        prompt: Some("do it".to_string()),
        ..Default::default()
    };
    let spec = spec(&headless("do it", None, None), &ctx, &endpoint);
    assert_eq!(
        spec.args,
        vec![
            "run".to_string(),
            "--server".to_string(),
            "http://127.0.0.1:9".to_string(),
            "--session".to_string(),
            "ses_1".to_string(),
            "--auto".to_string(),
            "do it".to_string(),
        ]
    );
    assert_eq!(spec.env.get("OPENCODE_SERVER_PASSWORD").map(String::as_str), Some("pw"));
}

/// Without a session created on the managed server, a headless run keeps
/// the plain command even when a server endpoint exists.
#[test]
fn headless_without_a_managed_session_keeps_the_plain_run() {
    let endpoint = install_endpoint();
    let spec = spec(&headless("do it", None, None), &ctx(Some("do it"), None, None), &endpoint);
    assert_eq!(spec.args, vec!["run", "--auto", "do it"]);
    assert!(!spec.env.contains_key("OPENCODE_SERVER_PASSWORD"));
}

#[test]
fn resume_uses_resume_args() {
    let ctx = AgentContext { session_id: Some("ses_1".to_string()), ..Default::default() };
    let spec = spec(&Invocation::Resume("ses_1"), &ctx, &None);
    assert_eq!(spec.args, vec!["--session", "ses_1"]);
}

#[test]
fn all_capabilities_are_enabled() {
    let caps = capabilities();
    assert!(caps.interactive);
    assert!(caps.headless);
    assert!(caps.resume);
    assert!(caps.model_selection);
    assert!(caps.providers);
    assert!(caps.structured_output);
    assert!(caps.reports_session_id);
    assert!(caps.prompt_prefill);
    assert!(caps.reports_state);
    assert!(caps.permission_channel);
    assert!(caps.concurrent_attach);
    assert!(agent().has_session_titles());
}

#[test]
fn interactive_with_managed_server_attaches_the_session() {
    let endpoint = install_endpoint();
    let ctx = AgentContext { session_id: Some("ses_1".to_string()), ..Default::default() };
    let spec = spec(&interactive(None, None, None), &ctx, &endpoint);
    assert_eq!(spec.args, vec!["--server", "http://127.0.0.1:9", "--session", "ses_1"]);
    assert_eq!(spec.env.get("OPENCODE_SERVER_PASSWORD").map(String::as_str), Some("pw"));
}

#[test]
fn interactive_with_model_keeps_the_mini_subcommand() {
    let endpoint = install_endpoint();
    let ctx = AgentContext {
        session_id: Some("ses_1".to_string()),
        provider: Some("jev".to_string()),
        model: Some("1.13".to_string()),
        ..Default::default()
    };
    let spec = spec(&interactive(None, Some("jev"), Some("1.13")), &ctx, &endpoint);
    assert_eq!(
        spec.args,
        vec![
            "mini",
            "--server",
            "http://127.0.0.1:9",
            "--session",
            "ses_1",
            "--model",
            "jev/1.13",
        ]
    );
}

/// Without a session created by `prepare_launch`, an endpoint alone must not
/// change the `--prompt` + timed-Enter fallback.
#[test]
fn interactive_without_a_created_session_keeps_the_prompt_fallback() {
    let endpoint = install_endpoint();
    let spec = spec(&interactive(Some("hi"), None, None), &ctx(Some("hi"), None, None), &endpoint);
    assert_eq!(spec.args, vec!["--prompt", "hi"]);
    assert!(matches!(spec.submit, SubmitStrategy::AfterSettle { .. }));
}

#[test]
fn resume_with_managed_server_targets_the_server() {
    let endpoint = install_endpoint();
    let ctx = AgentContext { session_id: Some("ses_1".to_string()), ..Default::default() };
    let spec = spec(&Invocation::Resume("ses_1"), &ctx, &endpoint);
    // `resume_args` already carries `--session`, so only `--server` is added.
    assert_eq!(spec.args, vec!["--server", "http://127.0.0.1:9", "--session", "ses_1"]);
    assert_eq!(spec.env.get("OPENCODE_SERVER_PASSWORD").map(String::as_str), Some("pw"));
}

/// A plain headless run has no server transport to observe; an interactive
/// launch and a headless run that owns a managed session both do. Every
/// variant still requires a live endpoint.
#[test]
fn state_source_needs_an_endpoint_and_a_managed_transport() {
    let headless = StateSourceConfig { headless: true, ..Default::default() };
    let managed_headless =
        StateSourceConfig { headless: true, managed_session: true, ..Default::default() };
    let interactive = StateSourceConfig::default();

    // Without an endpoint none of the variants can observe anything.
    assert!(agent().state_source(&headless, &None).is_none());
    assert!(agent().state_source(&managed_headless, &None).is_none());
    assert!(agent().state_source(&interactive, &None).is_none());

    let endpoint = install_endpoint();
    // A headless run with no managed session keeps the stdout fallback.
    assert!(agent().state_source(&headless, &endpoint).is_none());
    // Managed headless and interactive launches get the SSE observer.
    assert!(agent().state_source(&managed_headless, &endpoint).is_some());
    assert!(agent().state_source(&interactive, &endpoint).is_some());
}

#[test]
fn prepare_launch_creates_and_seeds_the_session() {
    let mut launch_ctx = AgentContext {
        cwd: Some("/tmp".to_string()),
        prompt: Some("do it".to_string()),
        ..Default::default()
    };
    assert!(agent().prepare_launch(&interactive(Some("do it"), None, None), &mut launch_ctx));
    let body = agent().session_request(&launch_ctx).unwrap();
    assert!(parse(&body).unwrap().get2("location", "directory").is_some());

    let reply = parse(r#"{ "data": { "id": "ses_mock" } }"#).unwrap();
    let id = created_session(200, &reply, "").unwrap();
    let seed = agent().session_created(false, &id, &mut launch_ctx).unwrap();
    let (path, body) = prompt_request(&id, &seed);
    assert_eq!(path, "/api/session/ses_mock/prompt");
    assert_eq!(parse(&body).unwrap().text("text"), "do it");

    agent().prompt_seeded(&mut launch_ctx);
    assert_eq!(launch_ctx.session_id.as_deref(), Some("ses_mock"));
    assert!(
        launch_ctx.prompt.is_none(),
        "a seeded prompt must not also be passed on the command line"
    );
}

/// A headless launch creates its session on the managed server but leaves the
/// prompt for `run` to submit, and records the session as managed so the
/// manager can surface it before the run emits anything.
#[test]
fn prepare_launch_creates_a_headless_session_without_seeding() {
    let mut launch_ctx = AgentContext {
        cwd: Some("/tmp".to_string()),
        prompt: Some("do it".to_string()),
        session_id: Some("deterministic".to_string()),
        ..Default::default()
    };
    assert!(agent().prepare_launch(&headless("do it", None, None), &mut launch_ctx));
    let body = agent().session_request(&launch_ctx).unwrap();
    assert!(
        parse(&body).unwrap().get2("location", "directory").is_some(),
        "the managed session was not asked for: {body}"
    );

    let seed = agent().session_created(true, "ses_mock", &mut launch_ctx);
    assert!(seed.is_none(), "a headless launch must not seed the prompt: {seed:?}");
    assert_eq!(launch_ctx.session_id.as_deref(), Some("ses_mock"));
    assert_eq!(
        launch_ctx.prompt.as_deref(),
        Some("do it"),
        "a headless run submits its own prompt, so it must not be pre-seeded"
    );
    assert!(launch_ctx.managed_session);
}

#[test]
fn prepare_launch_sends_the_selected_model() {
    let mut launch_ctx = AgentContext {
        cwd: Some("/tmp".to_string()),
        provider: Some("opencode".to_string()),
        model: Some("space-bunny".to_string()),
        ..Default::default()
    };
    let chosen = interactive(None, Some("opencode"), Some("space-bunny"));
    assert!(agent().prepare_launch(&chosen, &mut launch_ctx));
    let body = parse(&agent().session_request(&launch_ctx).unwrap()).unwrap();
    assert_eq!(body.get2("model", "id").and_then(Json::as_str), Some("space-bunny"));
    assert_eq!(body.get2("model", "providerID").and_then(Json::as_str), Some("opencode"));
}

#[test]
fn a_session_needs_a_place_and_a_fresh_launch() {
    let mut nowhere = ctx(Some("do it"), None, None);
    assert!(agent().session_request(&nowhere).is_none());
    // Resuming never makes a session.
    nowhere.cwd = Some("/tmp".to_string());
    assert!(!agent().prepare_launch(&Invocation::Resume("ses_1"), &mut nowhere));
}

#[test]
fn a_refused_session_has_its_reason() {
    let reply = parse(r#"{"data":{}}"#).unwrap();
    assert_eq!(created_session(200, &reply, "shown"), Err(CreateError::NoId));
    assert_eq!(
        created_session(500, &reply, "shown"),
        Err(CreateError::Refused { status: 500, reply: "shown".to_string() })
    );
    assert_eq!(read_created(201, br#"{"id":"ses_1"}"#), Err(CreateError::NoId));
    assert_eq!(read_created(200, b"not json"), Err(CreateError::NoId));
    let made = read_created(201, br#"{"data":{"id":"ses_1"}}"#);
    assert_eq!(made.ok().as_deref(), Some("ses_1"));

    let refused = read_created(500, br#"{ "error" : [1, null] }"#).unwrap_err();
    assert_eq!(
        refused,
        CreateError::Refused { status: 500, reply: r#"{"error":[1,null]}"#.to_string() }
    );
    assert_eq!(
        refused.message("500 Internal Server Error"),
        "opencode session create failed (500 Internal Server Error): {\"error\":[1,null]}"
    );
    assert_eq!(
        read_created(404, b"not json"),
        Err(CreateError::Refused { status: 404, reply: "null".to_string() })
    );
    assert_eq!(
        CreateError::NoId.message("200 OK"),
        "opencode session create returned no data.id"
    );
    let body = parse(&create_session_body("/work", None)).unwrap();
    assert_eq!(body.get2("location", "directory").and_then(Json::as_str), Some("/work"));
    assert!(body.get("model").is_none());
}

#[test]
fn opencode_parse_output_returns_a_run_summary() {
    let raw = "{\"sessionID\":\"ses_9\",\"type\":\"text\",\"part\":{\"text\":\"hi\"}}\n\
               {\"sessionID\":\"ses_9\",\"type\":\"step_finish\",\"part\":{\"reason\":\"stop\",\
               \"tokens\":{\"input\":2}}}";
    let result = agent().parse_output(raw, Some(0));
    assert_eq!(result.session_id.as_deref(), Some("ses_9"));
    let summary = summary_of(&result.output);
    assert_eq!(summary.session_id.as_deref(), Some("ses_9"));
    assert_eq!(summary.text, "hi");
    assert_eq!(summary.outcome, Some(IdleOutcome::Succeeded));
    assert_eq!(summary.usage.input_tokens, 2);
    assert_eq!(result.raw, raw);
}

#[test]
fn parse_output_ignores_noise_and_keeps_the_session_id() {
    let raw = "not json\n\
               {\"sessionID\":\"ses_7\",\"type\":\"text\",\"part\":{\"text\":\"ok\"}}\n\
               { broken\n\
               {\"type\":\"step_finish\",\"sessionID\":\"ses_7\",\"part\":{\"reason\":\"stop\"}}\n";
    let result = agent().parse_output(raw, Some(0));
    assert_eq!(result.session_id.as_deref(), Some("ses_7"));
    let summary = summary_of(&result.output);
    assert_eq!(summary.text, "ok");
    assert_eq!(summary.outcome, Some(IdleOutcome::Succeeded));
}

#[test]
fn unstructured_output_has_no_outcome() {
    let result = agent().parse_output("plain\n", Some(0));
    assert!(summary_of(&result.output).outcome.is_none());
    assert!(result.session_id.is_none());
    assert_eq!(result.raw, "plain\n");
}

#[test]
fn session_title_from_json_matches_by_id() {
    let raw = r#"[
        {"id":"ses_1","title":"First session","updated":1},
        {"id":"ses_2","title":"Fix the widget","updated":2}
    ]"#;
    assert_eq!(session_title_from_json(raw, "ses_2").as_deref(), Some("Fix the widget"));
    // Unknown id and empty title both yield no title.
    assert!(session_title_from_json(raw, "ses_missing").is_none());
    assert!(session_title_from_json(r#"[{"id":"ses_1","title":"  "}]"#, "ses_1").is_none());

    // The same list, as the command prints it.
    assert_eq!(
        agent().session_title(true, raw.as_bytes(), "ses_2").as_deref(),
        Some("Fix the widget")
    );
    assert!(agent().session_title(false, raw.as_bytes(), "ses_2").is_none());
}

#[test]
fn session_title_from_json_rejects_malformed() {
    assert!(session_title_from_json("not json", "ses_1").is_none());
    assert!(session_title_from_json(r#"{"id":"ses_1","title":"x"}"#, "ses_1").is_none());
}

#[test]
fn session_title_from_json_absent_title_is_none() {
    // opencode v2.0.8 at t=0 lists the session before a title key exists.
    let raw = r#"[{"id":"ses_1","updated":1,"created":0,"projectId":"p","directory":"/tmp"}]"#;
    assert!(session_title_from_json(raw, "ses_1").is_none());
}

#[test]
fn detects_permission_dialog_once_screen_rendered() {
    let mut parser = vt100::Parser::new(10, 60, 0);
    parser.process("Permission required\r\n❯ Allow once\r\n  Allow always\r\n  Reject".as_bytes());
    let reason = agent().awaiting_input(parser.screen());
    assert_eq!(reason.map(|r| r.kind), Some(AwaitingInputKind::Permission));
}

#[test]
fn opencode_idle_screen_is_not_awaiting() {
    let mut parser = vt100::Parser::new(10, 60, 0);
    parser.process(b"Ask anything...");
    assert!(agent().awaiting_input(parser.screen()).is_none());
}

/// A session still in flight has no `outcome` (it is not a required field):
/// the probe must not report it as finished, or an interactive task would
/// complete before doing any work.
#[test]
fn interactive_turn_done_ignores_a_session_without_outcome() {
    let raw = r#"{"data":[{"id":"ses_1",
        "location":{"directory":"/work/a"},
        "time":{"created":2000}}]}"#;
    assert_eq!(interactive_turn_done_from_json(raw, "/work/a", 1000), None);
}

#[test]
fn interactive_turn_done_reads_the_outcome() {
    let raw = r#"{"data":[
        {"id":"ses_old","outcome":"succeeded",
         "location":{"directory":"/work/a"},"time":{"created":100}},
        {"id":"ses_new","outcome":"succeeded",
         "location":{"directory":"/work/a"},"time":{"created":2000}}
    ]}"#;
    assert_eq!(interactive_turn_done_from_json(raw, "/work/a", 1000), Some(true));
    assert_eq!(
        agent().interactive_turn_done(true, raw.as_bytes(), "/work/a", 1000),
        Some(true)
    );
    assert_eq!(agent().interactive_turn_done(false, raw.as_bytes(), "/work/a", 1000), None);

    // Any other terminal outcome (`failed`, `interrupted`) is not a success.
    for outcome in ["failed", "interrupted"] {
        let other = raw.replace(
            "\"ses_new\",\"outcome\":\"succeeded\"",
            &format!("\"ses_new\",\"outcome\":\"{outcome}\""),
        );
        assert_eq!(
            interactive_turn_done_from_json(&other, "/work/a", 1000),
            Some(false),
            "outcome: {outcome}"
        );
    }
}

/// A finished session from an earlier run in the same directory must not
/// complete the current task: only sessions created at/after `since` count.
#[test]
fn interactive_turn_done_ignores_sessions_older_than_since() {
    let raw = r#"{"data":[{"id":"ses_old","outcome":"succeeded",
        "location":{"directory":"/work/a"},
        "time":{"created":100}}]}"#;
    assert_eq!(interactive_turn_done_from_json(raw, "/work/a", 1000), None);
    // A different directory is ignored even when newer.
    let other = raw.replace("/work/a", "/work/b");
    assert_eq!(interactive_turn_done_from_json(&other, "/work/a", 1000), None);
}

#[test]
fn interactive_turn_done_rejects_malformed_output() {
    assert_eq!(interactive_turn_done_from_json("not json", "/work/a", 0), None);
    assert_eq!(interactive_turn_done_from_json("{}", "/work/a", 0), None);
}

#[test]
fn questions_go_to_the_server_where_there_is_one() {
    let asks = agent().title_args(&install_endpoint());
    assert!(asks.contains(&"--server".to_string()));
    assert!(!agent().title_args(&None).contains(&"--server".to_string()));
    assert!(agent().turn_args(&install_endpoint()).contains(&"http://127.0.0.1:9".to_string()));

    let mut args = vec!["run".to_string(), "hi".to_string()];
    insert_server_args(&mut args, &endpoint(), Some("ses_1"));
    assert!(args.windows(2).any(|pair| pair[0] == "--session" && pair[1] == "ses_1"));
    assert_eq!(PASSWORD_ENV, "OPENCODE_SERVER_PASSWORD");
}

#[test]
fn the_catalog_can_be_moved() {
    let source = OpenCodeProviderSource {};
    assert_eq!(source.catalog_url(Some("http://here"), "http://usual"), "http://here");
    assert_eq!(source.catalog_url(None, "http://usual"), "http://usual");
}
