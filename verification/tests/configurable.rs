use favetto::agents::agent::{
    text_json, AgentCapabilities, AgentContext, Invocation, LaunchError, RunOutput,
    SessionIdProbe,
    SubmitStrategy,
};
use favetto::agents::configurable::{
    capabilities_from_config, overlay, ConfigurableAgent, TemplateAgent,
};
use favetto::config::{AgentConfig, GitSettings};
use favetto::table::Table;

fn strings(parts: &[&str]) -> Vec<String> {
    parts.iter().map(|part| part.to_string()).collect()
}

fn table(entries: &[(&str, &str)]) -> Table<String> {
    let mut table = Table::new();
    for (key, value) in entries {
        table.insert(key.to_string(), value.to_string());
    }
    table
}

fn config() -> AgentConfig {
    AgentConfig {
        command: "mycli".to_string(),
        args: vec!["--tui".to_string()],
        headless_args: Some(vec!["run".to_string(), "{prompt}".to_string()]),
        session_id_json_key: Some("sessionID".to_string()),
        submit_prompt: Some(true),
        ..Default::default()
    }
}

fn capabilities(config: &AgentConfig) -> AgentCapabilities {
    ConfigurableAgent::from_config("mycli", config).template.descriptor.capabilities
}

#[test]
fn configurable_capabilities_follow_templates() {
    let caps = capabilities(&config());
    assert!(caps.interactive);
    assert!(caps.headless);
    assert!(!caps.resume);
    assert!(!caps.model_selection);
    assert!(!caps.providers);
    assert!(caps.structured_output);
    assert!(caps.reports_session_id);
    assert!(caps.prompt_prefill);
    assert!(caps.interactive_prompt);
}

#[test]
fn interactive_prompt_follows_prompt_templates() {
    // `prompt_args` alone is enough to seed an interactive TUI.
    let with_prompt_args = AgentConfig {
        command: "mycli".to_string(),
        prompt_args: Some(vec!["--prompt".to_string(), "{prompt}".to_string()]),
        ..Default::default()
    };
    assert!(capabilities(&with_prompt_args).interactive_prompt);

    // `submit_prompt` alone also counts (the prompt goes to stdin).
    let submit_only = AgentConfig {
        command: "mycli".to_string(),
        submit_prompt: Some(true),
        ..Default::default()
    };
    assert!(capabilities(&submit_only).interactive_prompt);

    // A bare command has no way to seed the prompt.
    let bare = AgentConfig { command: "mycli".to_string(), ..Default::default() };
    assert!(!capabilities(&bare).interactive_prompt);
}

#[test]
fn headless_substitutes_session_id() {
    let mut config = config();
    config.headless_args = Some(vec![
        "run".to_string(),
        "--session-id".to_string(),
        "{session_id}".to_string(),
        "{prompt}".to_string(),
    ]);
    let agent = ConfigurableAgent::from_config("mycli", &config);
    let ctx = AgentContext {
        prompt: Some("hi".to_string()),
        session_id: Some("ses-9".to_string()),
        ..Default::default()
    };
    let spec = agent
        .command(&Invocation::Headless { prompt: "hi", provider: None, model: None }, &ctx)
        .unwrap();
    assert_eq!(spec.args, vec!["run", "--session-id", "ses-9", "hi"]);
}

#[test]
fn template_agent_new_derives_capabilities_and_probe() {
    let template = TemplateAgent::new("mycli", "MyCLI", config());
    assert_eq!(template.descriptor.id, "mycli");
    assert_eq!(template.descriptor.name, "MyCLI");
    assert_eq!(template.descriptor.command, "mycli");
    assert!(template.descriptor.available);
    assert_eq!(template.probe, Some(SessionIdProbe::JsonKey("sessionID".to_string())));
    assert!(template.descriptor.capabilities.headless);
    assert!(template.descriptor.capabilities.reports_session_id);
    assert!(template.descriptor.capabilities.prompt_prefill);
}

#[test]
fn template_only_config_stays_non_provider() {
    // A bare command+args entry must not advertise a provider catalog.
    let bare = AgentConfig { command: "mycli".to_string(), ..Default::default() };
    let caps = capabilities(&bare);
    assert!(caps.interactive);
    assert!(!caps.headless);
    assert!(!caps.providers);
    assert!(!caps.model_selection);
}

#[test]
fn overlay_copies_every_template_field() {
    // Exhaustive literal on purpose: no `..Default::default()`, so adding a
    // field to `AgentConfig` breaks compilation here until `overlay` and the
    // copy assertions below are updated. `agent_type` and `git` are listed
    // too even though they are deliberately *not* overlaid (dispatch and git
    // provisioning are handled elsewhere).
    let overrides = AgentConfig {
        agent_type: Some("override-type".to_string()),
        command: "override".to_string(),
        args: vec!["--override".to_string()],
        headless_args: Some(vec!["override-headless".to_string()]),
        run_args: Some(vec!["override-run".to_string()]),
        resume_args: Some(vec!["override-resume".to_string()]),
        interactive_model_args: Some(vec!["override-model".to_string()]),
        session_id_json_key: Some("overrideSessionId".to_string()),
        prompt_args: Some(vec!["override-prompt".to_string()]),
        submit_prompt: Some(true),
        env: table(&[("SHARED", "override"), ("OVERRIDE_ONLY", "1")]),
        cwd: Some("/override".to_string()),
        git: Some(GitSettings { user_name: Some("override".to_string()), ..Default::default() }),
    };

    let base = AgentConfig {
        agent_type: Some("base-type".to_string()),
        command: "base".to_string(),
        args: vec!["--base".to_string()],
        headless_args: Some(vec!["base-headless".to_string()]),
        run_args: Some(vec!["base-run".to_string()]),
        resume_args: Some(vec!["base-resume".to_string()]),
        interactive_model_args: Some(vec!["base-model".to_string()]),
        session_id_json_key: Some("baseSessionId".to_string()),
        prompt_args: Some(vec!["base-prompt".to_string()]),
        submit_prompt: Some(false),
        env: table(&[("SHARED", "base"), ("BASE_ONLY", "1")]),
        cwd: Some("/base".to_string()),
        git: Some(GitSettings { user_name: Some("base".to_string()), ..Default::default() }),
    };
    let base_before = base.clone();

    let mut merged = base;
    overlay(&mut merged, &overrides);

    // Every template field is copied from the override.
    assert_eq!(merged.command, "override");
    assert_eq!(merged.args, vec!["--override"]);
    assert_eq!(merged.headless_args, overrides.headless_args);
    assert_eq!(merged.run_args, overrides.run_args);
    assert_eq!(merged.resume_args, overrides.resume_args);
    assert_eq!(merged.interactive_model_args, overrides.interactive_model_args);
    assert_eq!(merged.session_id_json_key, overrides.session_id_json_key);
    assert_eq!(merged.prompt_args, overrides.prompt_args);
    assert_eq!(merged.submit_prompt, Some(true));
    assert_eq!(merged.cwd, overrides.cwd);

    // `env` merges key-by-key: the override wins for shared keys, new keys
    // are added, and base-only keys survive.
    assert_eq!(merged.env.get("SHARED").map(String::as_str), Some("override"));
    assert_eq!(merged.env.get("BASE_ONLY").map(String::as_str), Some("1"));
    assert_eq!(merged.env.get("OVERRIDE_ONLY").map(String::as_str), Some("1"));
    assert_eq!(merged.env.entries().len(), 3);

    // Intentional non-overlays keep their base values.
    assert_eq!(merged.agent_type.as_deref(), Some("base-type"));
    assert_eq!(merged.git, base_before.git);
}

#[test]
fn overlay_absent_template_fields_keep_base() {
    let base = AgentConfig {
        command: "base".to_string(),
        args: vec!["--base".to_string()],
        headless_args: Some(vec!["base-headless".to_string()]),
        run_args: Some(vec!["base-run".to_string()]),
        resume_args: Some(vec!["base-resume".to_string()]),
        interactive_model_args: Some(vec!["base-model".to_string()]),
        session_id_json_key: Some("baseSessionId".to_string()),
        prompt_args: Some(vec!["base-prompt".to_string()]),
        submit_prompt: Some(false),
        env: table(&[("BASE_ONLY", "1")]),
        cwd: Some("/base".to_string()),
        ..Default::default()
    };

    let mut merged = base.clone();
    // An all-default override must not clobber any base value.
    overlay(&mut merged, &AgentConfig::default());
    assert_eq!(merged, base);
}

#[test]
fn laying_over_twice_changes_nothing() {
    let overrides = AgentConfig {
        command: "mine".to_string(),
        env: table(&[("A", "1")]),
        ..Default::default()
    };
    let mut once = config();
    overlay(&mut once, &overrides);
    let mut twice = once.clone();
    overlay(&mut twice, &overrides);
    assert_eq!(once, twice);
    assert_eq!(capabilities_from_config(&once), capabilities_from_config(&config()));
}

#[test]
fn an_unattended_prompt_travels_once() {
    let prompt = Invocation::Headless { prompt: "hi", provider: None, model: None };
    let ctx = AgentContext { prompt: Some("hi".to_string()), ..Default::default() };

    // As an argument, where the template has a place for it.
    let by_argument = ConfigurableAgent::from_config("mycli", &config());
    let spec = by_argument.command(&prompt, &ctx).unwrap();
    assert_eq!(spec.args, vec!["run", "hi"]);
    assert!(spec.stdin_prompt.is_none());
    assert_eq!(spec.submit, SubmitStrategy::Never);

    // Over stdin, where it has none.
    let bare = AgentConfig { headless_args: Some(strings(&["run"])), ..config() };
    let spec = ConfigurableAgent::from_config("mycli", &bare).command(&prompt, &ctx).unwrap();
    assert_eq!(spec.args, vec!["run"]);
    assert_eq!(spec.stdin_prompt.as_deref(), Some("hi"));
}

#[test]
fn missing_templates_are_launch_errors() {
    let headless = Invocation::Headless { prompt: "hi", provider: None, model: None };
    let chosen = Invocation::Headless { prompt: "hi", provider: None, model: Some("m") };
    let ctx = AgentContext { prompt: Some("hi".to_string()), ..Default::default() };
    let bare = AgentConfig { command: "mycli".to_string(), ..Default::default() };
    let agent = ConfigurableAgent::from_config("mycli", &bare);
    let name = "mycli".to_string();
    assert_eq!(
        agent.command(&headless, &ctx).err(),
        Some(LaunchError::NoHeadlessArgs { agent: name.clone() })
    );
    let with_model = AgentContext { model: Some("m".to_string()), ..ctx };
    assert_eq!(
        agent.command(&chosen, &with_model).err(),
        Some(LaunchError::NoRunArgs { agent: name.clone() })
    );
    assert_eq!(
        agent.command(&Invocation::Resume("ses"), &AgentContext::default()).err(),
        Some(LaunchError::NoResumeArgs { agent: name.clone() })
    );
    let nothing = ConfigurableAgent::from_config("mycli", &AgentConfig::default());
    assert_eq!(
        nothing.command(&headless, &AgentContext::default()).err(),
        Some(LaunchError::NoCommand { agent: name })
    );
}

#[test]
fn output_is_read_by_its_format() {
    let raw = "{\"sessionID\":\"ses_1\",\"text\":\"hi\"}\n";
    let plain = ConfigurableAgent::from_config("mycli", &config());
    let result = plain.parse_output(raw, Some(0));
    assert_eq!(result.output, RunOutput::Text(raw.to_string()));
    assert_eq!(result.output.text_form(), Some(text_json(raw)));

    let read = ConfigurableAgent::from_config("mycli", &config()).with_output_format("plain-jsonl");
    let result = read.parse_output(raw, Some(0));
    assert_eq!(result.session_id.as_deref(), Some("ses_1"));
    assert!(matches!(&result.output, RunOutput::Summary(summary) if summary.text == "hi"));

    let other = ConfigurableAgent::from_config("mycli", &config()).with_output_format("other");
    assert_eq!(other.parse_output(raw, Some(0)).output, RunOutput::Text(raw.to_string()));
}
