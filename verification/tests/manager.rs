use favetto::agent_hooks::{HookInjection, HookRouteError, HookRouter};
use favetto::agents::agent::{
    AgentContext, CommandSpec, Invocation, LaunchError, SessionIdProbe, SubmitStrategy,
    MAX_ARG_BYTES,
};
use favetto::agents::claude::hooks::HookMapper;
use favetto::agents::manager::{
    agent_git, awaits_first_output, child_command, child_env, configure_hooks, fill_context,
    git_settings, hook_base_url, inject, output, plan_launch, retain_raw, route_hook,
    screen_text, seeded_session_id, source_config, stdin_bytes, terminal_size, IdSearch, ListenHost, Submitter, FIRST_OUTPUT_TIMEOUT, MAX_ID_LINE,
    MAX_RAW,
};
use favetto::agents::product::command_name;
use favetto::agents::registry::{build_agent, Agent};
use favetto::config::{AgentConfig, GitSettings, GitSigning};
use favetto::table::Table;

fn strings(parts: &[&str]) -> Vec<String> {
    parts.iter().map(|part| part.to_string()).collect()
}

fn table(entries: &[(&str, &str)]) -> Table<String> {
    let mut table = Table::new();
    for (key, value) in entries {
        table.insert(key.to_string(), value.to_string());
    }
    table
}

fn spec(args: &[&str]) -> CommandSpec {
    CommandSpec {
        program: "sh".to_string(),
        args: strings(args),
        env: Table::new(),
        cwd: None,
        stdin_prompt: None,
        stdin_eof: false,
        submit: SubmitStrategy::Never,
    }
}

fn sh(config: AgentConfig) -> Agent {
    build_agent("sh", &AgentConfig { command: "sh".to_string(), ..config }).unwrap()
}

fn launch(agent: &Agent, invocation: &Invocation<'_>) -> Result<CommandSpec, LaunchError> {
    let mut ctx = AgentContext { rows: 24, cols: 80, ..Default::default() };
    fill_context(invocation, &mut ctx);
    plan_launch(agent.command(invocation, &ctx, &None)?, None)
}

#[test]
fn interactive_with_model_uses_interactive_model_args() {
    let agent = sh(AgentConfig {
        interactive_model_args: Some(strings(&[
            "-c",
            r#"printf 'model:%s/%s' "$1" "$2""#,
            "ignored",
            "{provider}",
            "{model}",
        ])),
        ..Default::default()
    });
    let chosen =
        Invocation::Interactive { prompt: None, provider: Some("jev"), model: Some("1.13") };
    let planned = launch(&agent, &chosen).unwrap();
    assert_eq!(
        planned.args,
        vec!["-c", r#"printf 'model:%s/%s' "$1" "$2""#, "ignored", "jev", "1.13"]
    );
}

#[test]
fn headless_run_uses_run_args_and_captures_session_id() {
    let agent = sh(AgentConfig {
        run_args: Some(strings(&["-c", "run {provider}/{model}", "{prompt}"])),
        session_id_json_key: Some("sessionID".to_string()),
        ..Default::default()
    });
    let run =
        Invocation::Headless { prompt: "go", provider: Some("jev"), model: Some("1.13") };
    assert_eq!(launch(&agent, &run).unwrap().args, vec!["-c", "run jev/1.13", "go"]);

    // The id is found in the output, however its bytes come.
    let mut slot = None;
    let mut search = IdSearch::new(agent.session_id_probe().unwrap());
    search.push(b"starting\n{\"sessionID\":\"ses_", &mut slot);
    assert!(slot.is_none());
    search.push(b"abc\"}\n", &mut slot);
    assert_eq!(slot.as_deref(), Some("ses_abc"));
    // The first one stays.
    search.push(b"{\"sessionID\":\"other\"}\n", &mut slot);
    assert_eq!(slot.as_deref(), Some("ses_abc"));
}

#[test]
fn an_endless_line_is_not_searched() {
    let mut slot = None;
    let mut search = IdSearch::new(SessionIdProbe::JsonKey("id".to_string()));
    search.push(&vec![b'x'; MAX_ID_LINE + 1], &mut slot);
    assert!(search.buffer.is_empty());
    search.push(b"\n{\"id\":\"found\"}\n", &mut slot);
    assert_eq!(slot.as_deref(), Some("found"));
}

#[test]
fn headless_run_seeds_a_deterministic_session_id() {
    let ctx = AgentContext { session_id: Some("ses-1".to_string()), ..Default::default() };
    assert_eq!(seeded_session_id(true, false, &ctx).as_deref(), Some("ses-1"));
    assert!(seeded_session_id(false, false, &ctx).is_none());
}

#[test]
fn probe_agent_captures_its_own_id_over_the_seeded_one() {
    let ctx = AgentContext { session_id: Some("ses-1".to_string()), ..Default::default() };
    let mut slot = seeded_session_id(true, true, &ctx);
    assert!(slot.is_none());
    let mut search = IdSearch::new(SessionIdProbe::JsonKey("id".to_string()));
    search.push(b"{\"id\":\"own\"}\n", &mut slot);
    assert_eq!(slot.as_deref(), Some("own"));
}

#[test]
fn headless_child_gets_pwd_matching_cwd() {
    let placed = CommandSpec { cwd: Some("/work".to_string()), ..spec(&[]) };
    let env = child_env(&placed, &Table::new());
    assert_eq!(env.get("PWD").map(String::as_str), Some("/work"));
    assert_eq!(env.get("TERM").map(String::as_str), Some("xterm-256color"));
    assert!(child_env(&spec(&[]), &Table::new()).get("PWD").is_none());
}

#[test]
fn headless_child_gets_git_signing_env() {
    let own = CommandSpec { env: table(&[("GIT_CONFIG_COUNT", "9"), ("MINE", "1")]), ..spec(&[]) };
    let env = child_env(&own, &table(&[("GIT_CONFIG_COUNT", "1")]));
    assert_eq!(env.get("GIT_CONFIG_COUNT").map(String::as_str), Some("1"));
    assert_eq!(env.get("MINE").map(String::as_str), Some("1"));
}

#[test]
fn task_signing_override_wins() {
    let general = GitSettings { signing: Some(GitSigning::Ssh), ..Default::default() };
    let mut per_agent = Table::new();
    assert_eq!(
        git_settings(&per_agent, &general, "sh", Some(GitSigning::Off)).signing,
        Some(GitSigning::Off)
    );
    assert_eq!(git_settings(&per_agent, &general, "sh", None).signing, Some(GitSigning::Ssh));
    // An agent's own entry stands in place of the general one.
    let own = GitSettings { user_name: Some("bot".to_string()), ..Default::default() };
    per_agent.insert("sh".to_string(), own.clone());
    assert_eq!(git_settings(&per_agent, &general, "sh", None), own);
    assert_eq!(git_settings(&per_agent, &general, "other", None), general);
}

#[test]
fn hook_base_url_uses_loopback_for_unspecified_hosts() {
    let host = |address: &str, is_v6: bool, unspecified: bool| ListenHost {
        address: address.to_string(),
        is_v6,
        unspecified,
    };
    let tail = command_name();
    assert_eq!(
        hook_base_url(&host("127.0.0.1", false, false), 7878),
        format!("http://127.0.0.1:7878/agent-hooks/{tail}")
    );
    assert_eq!(
        hook_base_url(&host("0.0.0.0", false, true), 9000),
        format!("http://127.0.0.1:9000/agent-hooks/{tail}")
    );
    assert_eq!(
        hook_base_url(&host("::1", true, false), 9000),
        format!("http://[::1]:9000/agent-hooks/{tail}")
    );
    assert_eq!(
        hook_base_url(&host("::", true, true), 9000),
        format!("http://127.0.0.1:9000/agent-hooks/{tail}")
    );
}

#[test]
fn configure_hooks_enables_a_router_and_route_hook() {
    let mut router: Option<HookRouter<HookMapper>> = None;
    assert_eq!(route_hook(&mut router, "tok", b"{}"), Err(HookRouteError::Disabled));

    let any = ListenHost { address: "0.0.0.0".to_string(), is_v6: false, unspecified: true };
    let launch = configure_hooks(Some((&any, 7878)), "/data").expect("hooks configured");
    assert_eq!(launch.dir, "/data/agent-hooks");
    assert_eq!(launch.endpoint, format!("http://127.0.0.1:7878/agent-hooks/{}", command_name()));
    router = Some(HookRouter::new());
    // The route is live but no session has registered the token yet.
    assert_eq!(route_hook(&mut router, "tok", b"{}"), Err(HookRouteError::UnknownToken));
    assert!(matches!(
        route_hook(&mut router, "tok", b"not json"),
        Err(HookRouteError::BadRequest(_))
    ));

    if let Some(router) = router.as_mut() {
        router.register("tok".to_string(), HookMapper::new());
    }
    assert_eq!(route_hook(&mut router, "tok", br#"{"hook_event_name":"Stop"}"#), Ok(1));
}

#[test]
fn malformed_listen_disables_hooks() {
    assert!(configure_hooks(None, "/tmp").is_none());
}

#[test]
fn state_source_config_sees_hooks_only_after_configure() {
    let ctx = AgentContext { managed_session: true, ..Default::default() };
    let planned = CommandSpec { cwd: Some("/work".to_string()), ..spec(&["-c", "sleep 1"]) };
    let without = source_config(false, &ctx, &planned, false);
    assert!(!without.hook_router);
    let with = source_config(true, &ctx, &planned, true);
    assert!(with.hook_router);
    assert!(with.headless);
    assert!(with.managed_session);
    assert_eq!(with.program, "sh");
    assert_eq!(with.args, vec!["-c", "sleep 1"]);
    assert_eq!(with.cwd.as_deref(), Some("/work"));
}

#[test]
fn hooks_stand_before_the_launch() {
    let mut planned = CommandSpec { env: table(&[("A", "own"), ("B", "own")]), ..spec(&["run"]) };
    inject(
        &mut planned,
        HookInjection { args: strings(&["--settings", "f"]), env: table(&[("A", "hook")]) },
    );
    assert_eq!(planned.args, vec!["--settings", "f", "run"]);
    assert_eq!(planned.env.get("A").map(String::as_str), Some("hook"));
    assert_eq!(planned.env.get("B").map(String::as_str), Some("own"));
}

#[test]
fn a_launch_with_too_long_an_argument_is_refused() {
    let agent = sh(AgentConfig {
        headless_args: Some(strings(&["-c", "{prompt}"])),
        ..Default::default()
    });
    let long = "x".repeat(MAX_ARG_BYTES + 1);
    let run = Invocation::Headless { prompt: &long, provider: None, model: None };
    assert_eq!(
        launch(&agent, &run).err(),
        Some(LaunchError::ArgumentTooLong { program: "sh".to_string(), bytes: MAX_ARG_BYTES + 1 })
    );
}

#[test]
fn a_supervised_child_runs_under_the_daemon() {
    let planned = spec(&["-c", "true"]);
    assert_eq!(child_command(None, &planned), ("sh".to_string(), strings(&["-c", "true"])));
    assert_eq!(
        child_command(Some("/bin/favetto"), &planned),
        ("/bin/favetto".to_string(), strings(&["__agent-exec", "--", "sh", "-c", "true"]))
    );
}

#[test]
fn a_prompt_without_an_argument_is_typed() {
    assert!(stdin_bytes(&spec(&[])).is_empty());
    let typed = CommandSpec { stdin_prompt: Some("hé".to_string()), ..spec(&[]) };
    assert_eq!(stdin_bytes(&typed), "hé\r".as_bytes());
    let ended = CommandSpec { stdin_eof: true, ..typed };
    assert_eq!(stdin_bytes(&ended), "hé\r\u{4}".as_bytes());
}

#[test]
fn terminals_have_a_size() {
    assert_eq!(terminal_size(0, 0), (1, 1));
    assert_eq!(terminal_size(40, 120), (40, 120));
}

#[test]
fn the_end_of_the_output_is_kept() {
    let mut raw = Vec::new();
    retain_raw(&mut raw, &vec![b'a'; MAX_RAW]);
    retain_raw(&mut raw, b"end");
    assert_eq!(raw.len(), MAX_RAW);
    assert!(raw.ends_with(b"end"));
    assert_eq!(raw[0], b'a');
}

#[test]
fn submit_prompt_presses_enter_after_quiet() {
    assert!(awaits_first_output(0, true, 0));
    assert!(!awaits_first_output(1, true, 0));
    assert!(!awaits_first_output(0, false, 0));
    assert!(!awaits_first_output(0, true, FIRST_OUTPUT_TIMEOUT));

    // Enter is pressed again and again where nothing reacts, but not for ever.
    let mut submitter = Submitter::new(8, 1);
    let mut presses = 0;
    while submitter.should_send(true) {
        presses += 1;
        submitter.sent(1);
        assert!(presses <= 8);
    }
    assert_eq!(presses, 8);
    assert!(!Submitter::new(8, 1).should_send(false));

    // An agent that reacts is not pressed on.
    let mut reacting = Submitter::new(8, 1);
    let mut presses = 0;
    let mut ticks = 1;
    while reacting.should_send(true) {
        presses += 1;
        ticks += 10;
        reacting.sent(ticks);
    }
    assert!(presses < 8);
    assert!(presses >= 1);
}

#[test]
fn a_resumed_session_fills_the_context() {
    let mut ctx = AgentContext::default();
    fill_context(&Invocation::Resume("ses_1"), &mut ctx);
    assert_eq!(ctx.session_id.as_deref(), Some("ses_1"));
    assert!(ctx.prompt.is_none());
    fill_context(&Invocation::Headless { prompt: "p", provider: None, model: Some("m") }, &mut ctx);
    assert_eq!(ctx.prompt.as_deref(), Some("p"));
    assert_eq!(ctx.model.as_deref(), Some("m"));
}

#[test]
fn an_agent_has_its_own_git_settings_over_the_general_ones() {
    let general = GitSettings { user_name: Some("Me".to_string()), ..Default::default() };
    let own = GitSettings { signing_key: Some("key".to_string()), ..Default::default() };
    let mut agents = Table::new();
    agents.insert(
        "pi".to_string(),
        AgentConfig { git: Some(own.clone()), ..Default::default() },
    );
    agents.insert("vibe".to_string(), AgentConfig::default());
    let overlay = |base: &GitSettings, over: &GitSettings| GitSettings {
        signing_key: over.signing_key.clone(),
        ..base.clone()
    };
    let merged = agent_git(&agents, &general, &overlay);
    assert_eq!(merged.entries().len(), 2);
    assert_eq!(
        merged.get("pi"),
        Some(&GitSettings { signing_key: Some("key".to_string()), ..general.clone() })
    );
    assert_eq!(merged.get("vibe"), Some(&general));
}

#[test]
fn captured_bytes_and_screens_are_shown_as_text() {
    assert_eq!(output("h\u{e9}llo".as_bytes()), "h\u{e9}llo");
    assert_eq!(output(&[104, 255, 105]), "h\u{fffd}i");
    let mut parser = vt100::Parser::new(2, 10, 0);
    parser.process(b"\x1b[1mhi\x1b[0m");
    assert_eq!(screen_text(parser.screen()), "hi");
}
