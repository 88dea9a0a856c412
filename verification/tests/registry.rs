use favetto::agents::agent::{AgentContext, Invocation, SessionIdProbe};
use favetto::agents::product::{command_name, title_name};
use favetto::agents::registry::{
    build_agent, command_candidates, find_kind, AgentKind, AgentRegistry, RegistryError,
};
use favetto::config::{AgentConfig, FavettoConfig};

fn config_with(name: &str, agent: AgentConfig) -> FavettoConfig {
    let mut cfg = FavettoConfig::default();
    cfg.agents.insert(name.to_string(), agent);
    cfg
}

fn registry(cfg: &FavettoConfig) -> AgentRegistry {
    AgentRegistry::from_config_with(cfg, &|_: &str| true).unwrap()
}

fn only_opencode() -> AgentRegistry {
    AgentRegistry::from_config_with(&FavettoConfig::default(), &|cmd: &str| cmd == "opencode")
        .unwrap()
}

fn names(registry: &AgentRegistry) -> Vec<String> {
    registry.descriptors().iter().map(|d| d.id.clone()).collect()
}

#[test]
fn built_in_name_uses_the_built_in() {
    let registry = registry(&config_with("opencode", AgentConfig::default()));
    let agent = registry.get("opencode").unwrap();
    assert_eq!(agent.descriptor().name, "OpenCode");
    assert!(agent.capabilities().providers);
}

#[test]
fn unknown_name_uses_configurable_agent() {
    let registry = registry(&config_with(
        "mycli",
        AgentConfig { command: "mycli".to_string(), ..Default::default() },
    ));
    let agent = registry.get("mycli").unwrap();
    assert_eq!(agent.descriptor().name, "mycli");
    assert!(!agent.capabilities().providers);
}

#[test]
fn explicit_type_on_custom_name_selects_the_built_in() {
    let name = format!("fast-{}", command_name());
    let registry = registry(&config_with(
        &name,
        AgentConfig { agent_type: Some(command_name()), ..Default::default() },
    ));
    assert_eq!(registry.get(&name).unwrap().descriptor().name, title_name());
}

#[test]
fn explicit_configurable_type_opts_out_of_built_in() {
    let registry = registry(&config_with(
        "opencode",
        AgentConfig {
            agent_type: Some("configurable".to_string()),
            command: "opencode".to_string(),
            ..Default::default()
        },
    ));
    assert_eq!(registry.get("opencode").unwrap().descriptor().name, "opencode");
    assert!(!registry.get("opencode").unwrap().capabilities().providers);
}

#[test]
fn unknown_type_is_an_error() {
    let cfg = config_with(
        "mystery",
        AgentConfig { agent_type: Some("gemini".to_string()), ..Default::default() },
    );
    let err = AgentRegistry::from_config_with(&cfg, &|_: &str| true).err().unwrap();
    assert!(err.message().contains("unknown type 'gemini'"));
    assert_eq!(
        err,
        RegistryError::UnknownType { agent: "mystery".to_string(), kind: "gemini".to_string() }
    );
}

#[test]
fn config_overrides_win_over_built_in_defaults() {
    let registry = registry(&config_with(
        "opencode",
        AgentConfig {
            command: "myoc".to_string(),
            headless_args: Some(vec!["custom".to_string(), "{prompt}".to_string()]),
            ..Default::default()
        },
    ));
    let agent = registry.get("opencode").unwrap();
    assert_eq!(agent.descriptor().command, "myoc");
    let spec = agent
        .command(
            &Invocation::Headless { prompt: "hi", provider: None, model: None },
            &AgentContext { prompt: Some("hi".to_string()), ..Default::default() },
            &None,
        )
        .unwrap();
    assert_eq!(spec.program, "myoc");
    assert_eq!(spec.args, vec!["custom", "hi"]);
}

#[test]
fn descriptors_are_sorted_and_default_resolves() {
    let mut cfg = FavettoConfig::default();
    cfg.agents.insert(
        "vibe".to_string(),
        AgentConfig { command: "vibe".to_string(), ..Default::default() },
    );
    cfg.agents.insert(
        "opencode".to_string(),
        AgentConfig { command: "opencode".to_string(), ..Default::default() },
    );
    cfg.agent.default = Some("opencode".to_string());
    let registry = registry(&cfg);
    // The built-ins are always seeded, so the configured entries join them.
    assert_eq!(names(&registry), vec![command_name().as_str(), "opencode", "pi", "vibe"]);
    assert_eq!(
        registry.default_agent().map(|a| a.descriptor().id.clone()),
        Some("opencode".to_string())
    );
}

#[test]
fn empty_config_registers_all_four_built_ins() {
    let registry = registry(&FavettoConfig::default());
    assert_eq!(names(&registry), vec![command_name().as_str(), "opencode", "pi", "vibe"]);

    let opencode = registry.get("opencode").unwrap();
    assert_eq!(opencode.descriptor().name, "OpenCode");
    assert!(opencode.capabilities().providers);
    assert!(registry.default_agent().is_none());
}

#[test]
fn config_entry_overlays_built_in() {
    let registry = registry(&config_with(
        "opencode",
        AgentConfig { command: "myoc".to_string(), ..Default::default() },
    ));
    let agent = registry.get("opencode").unwrap();
    // The OpenCode implementation is retained; only its invocation is overridden.
    assert_eq!(agent.descriptor().command, "myoc");
    assert!(agent.capabilities().providers);
}

#[test]
fn injected_probe_sets_available_per_agent() {
    let registry = only_opencode();
    let flags: Vec<(String, bool)> =
        registry.descriptors().iter().map(|d| (d.id.clone(), d.available)).collect();
    assert_eq!(
        flags,
        vec![
            (command_name(), false),
            ("opencode".to_string(), true),
            ("pi".to_string(), false),
            ("vibe".to_string(), false)
        ]
    );
}

#[test]
fn get_checked_rejects_unavailable() {
    let registry = only_opencode();
    let err = registry.get_checked(&command_name()).err().unwrap().message();
    assert!(err.contains("is not installed"), "{err}");
    assert!(err.contains(&format!("command '{}'", command_name())), "{err}");
    assert!(registry.get_checked("opencode").is_ok());
}

#[test]
fn get_checked_rejects_unknown() {
    let registry = registry(&FavettoConfig::default());
    let err = registry.get_checked("nope").err().unwrap();
    assert_eq!(err, RegistryError::NotConfigured { agent: "nope".to_string() });
    let err = err.message();
    assert!(err.contains("is not configured under [agents.*]"), "{err}");
}

#[test]
fn command_available_checks_absolute_paths() {
    assert!(command_candidates("", None).is_empty());
    assert!(command_candidates("   ", None).is_empty());
    assert_eq!(
        command_candidates("/nonexistent/favetto-nope", None),
        vec!["/nonexistent/favetto-nope"]
    );
    // A bare name is looked for in every directory of the search path.
    let search = vec!["/bin".to_string(), "/usr/bin".to_string()];
    assert_eq!(command_candidates("sh", Some(&search)), vec!["/bin/sh", "/usr/bin/sh"]);
    assert_eq!(command_candidates("./sh", Some(&search)), vec!["./sh"]);
    assert!(command_candidates("sh", None).is_empty());
}

#[test]
fn a_type_goes_before_the_name() {
    assert_eq!(find_kind("pi", &None), Some(AgentKind::Pi));
    assert_eq!(find_kind("other", &None), Some(AgentKind::Configurable));
    assert_eq!(find_kind("other", &Some("vibe".to_string())), Some(AgentKind::Vibe));
    assert_eq!(find_kind("pi", &Some("configurable".to_string())), Some(AgentKind::Configurable));
    assert_eq!(find_kind("pi", &Some("gemini".to_string())), None);
}

#[test]
fn agents_tell_what_they_can_do() {
    let config = AgentConfig {
        command: "mycli".to_string(),
        session_id_json_key: Some("sid".to_string()),
        ..Default::default()
    };
    let mut agent = build_agent("mycli", &config).unwrap();
    assert_eq!(agent.session_id_probe(), Some(SessionIdProbe::JsonKey("sid".to_string())));
    assert!(!agent.has_session_titles());
    assert!(agent.descriptor().available);
    agent.set_available(false);
    assert!(!agent.descriptor().available);
    assert!(build_agent("pi", &AgentConfig::default()).unwrap().has_session_titles());

    let parser = vt100::Parser::new(4, 40, 0);
    assert!(agent.awaiting_input(parser.screen()).is_none());
}
